use vstd::prelude::*;

verus! {

/// The error type shared by every fallible operation of the library.
#[derive(Debug)]
pub enum RedwoodError {
    /// Neither `XDG_CONFIG_HOME` nor `HOME` was available to locate the
    /// configuration file.
    ConfigPathUnresolvable,
    /// The persisted registry file does not exist.
    ConfigNotFound,
    /// The persisted registry could not be read.
    ConfigReadError(String),
    /// The persisted registry could not be written.
    ConfigWriteError(String),
    /// An entry with the same repository path and workspace name is already
    /// registered.
    WorkTreeConfigAlreadyExists,
    /// No registry entry matches the given identifier.
    WorkTreeConfigNotFound { worktree_name: String },
    /// A repository-level operation failed.
    GitError { message: String },
    /// An external command failed; carries the command line and the captured
    /// error output.
    CommandError { command: String, message: String },
    /// A session operation failed.
    TmuxError(String),
    /// A path could not be processed.
    PathError { path: String, msg: String },
    /// The repository is not bare, so the requested operation is refused.
    NotBareRepoError { repo_path: String },
    /// An environment value the caller had to supply was missing or invalid.
    EnvironmentVariableError { var: String, msg: String },
    /// A filesystem read failed for a reason other than missing permission.
    FSError { path: String, msg: String },
}

impl RedwoodError {
    /// The text shown for each failure.
    pub open spec fn spec_message(&self) -> Seq<char> {
        match self {
            RedwoodError::GitError { message } => "git failed: "@ + message@,
            RedwoodError::TmuxError(msg) => msg@,
            RedwoodError::CommandError { command, message } => "failed to execute command \""@
                + command@ + "\": "@ + message@,
            RedwoodError::ConfigPathUnresolvable => "could not resolve path to config variable (make sure $XDG_CONFIG_HOME or $HOME is set)"@,
            RedwoodError::ConfigNotFound => "config not found"@,
            RedwoodError::ConfigReadError(msg) => "could not read config: "@ + msg@,
            RedwoodError::ConfigWriteError(msg) => "could not write config: "@ + msg@,
            RedwoodError::WorkTreeConfigAlreadyExists => "worktree config already exists"@,
            RedwoodError::WorkTreeConfigNotFound { worktree_name } => "worktree config not found: "@
                + worktree_name@,
            RedwoodError::PathError { path, msg } => "path error \""@ + path@ + "\": "@ + msg@,
            RedwoodError::NotBareRepoError { repo_path } => "repo at \""@ + repo_path@
                + "\" is not bare"@,
            RedwoodError::EnvironmentVariableError { var, msg } => "could not get environment variable "@
                + var@ + ": "@ + msg@,
            RedwoodError::FSError { path, msg } => "could not access path \""@ + path@ + "\": "@
                + msg@,
        }
    }

    /// A human-readable description of the failure, for the caller to
    /// print.
    pub fn message(&self) -> (r: String)
        ensures
            r@ == self.spec_message(),
    {
        match self {
            RedwoodError::GitError { message } => {
                let mut s = String::from_str("git failed: ");
                s.append(message.as_str());
                s
            },
            RedwoodError::TmuxError(msg) => msg.clone(),
            RedwoodError::CommandError { command, message } => {
                let mut s = String::from_str("failed to execute command \"");
                s.append(command.as_str());
                s.append("\": ");
                s.append(message.as_str());
                s
            },
            RedwoodError::ConfigPathUnresolvable => String::from_str(
                "could not resolve path to config variable (make sure $XDG_CONFIG_HOME or $HOME is set)",
            ),
            RedwoodError::ConfigNotFound => String::from_str("config not found"),
            RedwoodError::ConfigReadError(msg) => {
                let mut s = String::from_str("could not read config: ");
                s.append(msg.as_str());
                s
            },
            RedwoodError::ConfigWriteError(msg) => {
                let mut s = String::from_str("could not write config: ");
                s.append(msg.as_str());
                s
            },
            RedwoodError::WorkTreeConfigAlreadyExists => String::from_str(
                "worktree config already exists",
            ),
            RedwoodError::WorkTreeConfigNotFound { worktree_name } => {
                let mut s = String::from_str("worktree config not found: ");
                s.append(worktree_name.as_str());
                s
            },
            RedwoodError::PathError { path, msg } => {
                let mut s = String::from_str("path error \"");
                s.append(path.as_str());
                s.append("\": ");
                s.append(msg.as_str());
                s
            },
            RedwoodError::NotBareRepoError { repo_path } => {
                let mut s = String::from_str("repo at \"");
                s.append(repo_path.as_str());
                s.append("\" is not bare");
                s
            },
            RedwoodError::EnvironmentVariableError { var, msg } => {
                let mut s = String::from_str("could not get environment variable ");
                s.append(var.as_str());
                s.append(": ");
                s.append(msg.as_str());
                s
            },
            RedwoodError::FSError { path, msg } => {
                let mut s = String::from_str("could not access path \"");
                s.append(path.as_str());
                s.append("\": ");
                s.append(msg.as_str());
                s
            },
        }
    }
}

} // verus!
