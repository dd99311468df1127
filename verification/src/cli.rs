use vstd::prelude::*;

verus! {

/// A parsed invocation.
#[derive(Debug)]
pub struct Cli {
    pub command: Commands,
}

/// The commands the tool offers. The surrounding program parses arguments
/// into this shape before anything else runs.
#[derive(Debug)]
pub enum Commands {
    /// Create a new worktree and a session rooted at it.
    New { repo_path: String, worktree_name: String, tmux_session_name: Option<String> },
    /// Open an existing worktree in a session.
    Open { path: String },
    /// Delete a worktree.
    Delete { path: String },
    /// List known and discoverable repositories.
    List { only_bare_repos: bool, only_worktrees: bool },
    /// Print the tool's version.
    Version {},
}

} // verus!
