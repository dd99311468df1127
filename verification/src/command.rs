use vstd::prelude::*;

use crate::cli::{Cli, Commands};
use crate::conf::{
    added_entry_named, matches_identifier, removed_first_match, Config, ConfigWriter,
    WorktreeConfig,
};
use crate::context::Context;
use crate::error::RedwoodError;
use crate::git::Git;
use crate::paths::{
    components, is_hidden_name, join_path, last_component, spec_hidden, spec_join, split_on,
    split_sep, str_eq,
};
use crate::tmux::Tmux;
use crate::Result;

verus! {

/// The name under which a directory entry is judged: its last path
/// component, or nothing for a bare root.
pub open spec fn dir_entry_name(path: Seq<char>) -> Seq<char> {
    if components(path).len() > 0 {
        components(path).last()
    } else {
        Seq::empty()
    }
}

/// Whether the discovery walk may enter a directory at all: it must be a
/// real directory, not a symbolic link, and not hidden.
pub open spec fn spec_visit_allowed(is_dir: bool, is_symlink: bool, path: Seq<char>) -> bool {
    is_dir && !is_symlink && !spec_hidden(dir_entry_name(path))
}

pub fn visit_allowed(is_dir: bool, is_symlink: bool, path: &str) -> (r: bool)
    ensures
        r == spec_visit_allowed(is_dir, is_symlink, path@),
{
    if !is_dir || is_symlink {
        false
    } else {
        let name = match last_component(path) {
            Some(n) => n,
            None => String::new(),
        };
        !is_hidden_name(name.as_str())
    }
}

/// Whether any component of the path equals one of the ignored names.
/// Matching is by exact component equality, so an ignored name never rules
/// out a directory whose name merely begins with it.
pub open spec fn spec_has_ignored_component(path: Seq<char>, ignored: Seq<Seq<char>>) -> bool {
    exists|i: int, k: int|
        0 <= i < ignored.len() && 0 <= k < components(path).len() && components(path)[k]
            == ignored[i]
}

pub fn has_ignored_component(path: &str, ignored: &Vec<String>) -> (r: bool)
    ensures
        r == spec_has_ignored_component(path@, ignored.deep_view()),
{
    let comps = crate::paths::split_components(path);
    let mut i: usize = 0;
    while i < ignored.len()
        invariant
            i <= ignored.len(),
            comps.deep_view() == components(path@),
            forall|a: int, k: int|
                0 <= a < i && 0 <= k < components(path@).len() ==> components(path@)[k]
                    != ignored.deep_view()[a],
        decreases ignored.len() - i,
    {
        let mut k: usize = 0;
        while k < comps.len()
            invariant
                k <= comps.len(),
                i < ignored.len(),
                comps.deep_view() == components(path@),
                forall|t: int|
                    0 <= t < k ==> components(path@)[t] != ignored.deep_view()[i as int],
            decreases comps.len() - k,
        {
            if str_eq(comps[k].as_str(), ignored[i].as_str()) {
                proof {
                    assert(components(path@)[k as int] == ignored.deep_view()[i as int]);
                    assert(spec_has_ignored_component(path@, ignored.deep_view()));
                }
                return true;
            }
            k += 1;
        }
        i += 1;
    }
    false
}

/// The names discovery must never descend into: the caller's
/// comma-separated exclusion list, and always the name of the metadata
/// directory that a bare repository keeps its working trees under — its
/// children would otherwise be counted twice, as `<repo>/worktrees/<name>`
/// and `<repo>/<name>`.
pub fn parse_ignored_dirs(raw: &str) -> (r: Vec<String>)
    ensures
        r.deep_view() == split_sep(raw@, ',').push("worktrees"@),
{
    let mut out = split_on(raw, ',');
    let ghost parsed = out.deep_view();
    out.push(String::from_str("worktrees"));
    proof {
        assert(out.deep_view() =~= parsed.push("worktrees"@));
    }
    out
}

/// A directory whose own name is hidden, or that is no directory, or that
/// is a symbolic link, is never entered; neither is one with an ignored
/// component anywhere on its path.
pub proof fn lemma_discovery_skips(
    is_dir: bool,
    is_symlink: bool,
    path: Seq<char>,
    ignored: Seq<Seq<char>>,
    i: int,
    k: int,
)
    ensures
        spec_hidden(dir_entry_name(path)) ==> !spec_visit_allowed(is_dir, is_symlink, path),
        is_symlink ==> !spec_visit_allowed(is_dir, is_symlink, path),
        !is_dir ==> !spec_visit_allowed(is_dir, is_symlink, path),
        0 <= i < ignored.len() && 0 <= k < components(path).len() && components(path)[k]
            == ignored[i] ==> spec_has_ignored_component(path, ignored),
{
}

/// Whether a classified repository passes the listing filters; both filters
/// demand their property at once.
pub open spec fn spec_passes_filter(
    is_bare: bool,
    is_worktree: bool,
    only_bare: bool,
    only_worktrees: bool,
) -> bool {
    (!only_bare || is_bare) && (!only_worktrees || is_worktree)
}

pub fn repo_passes_filter(
    is_bare: bool,
    is_worktree: bool,
    only_bare: bool,
    only_worktrees: bool,
) -> (r: bool)
    ensures
        r == spec_passes_filter(is_bare, is_worktree, only_bare, only_worktrees),
{
    !((only_bare && !is_bare) || (only_worktrees && !is_worktree))
}

/// With only the bare filter on, exactly the bare repositories pass; with
/// only the working-tree filter on, exactly the linked working trees pass;
/// with both on, only a repository that were both at once would pass, so
/// none that cannot be both ever does; with neither on, everything passes.
pub proof fn lemma_filter_selects(is_bare: bool, is_worktree: bool)
    ensures
        spec_passes_filter(is_bare, is_worktree, true, false) == is_bare,
        spec_passes_filter(is_bare, is_worktree, false, true) == is_worktree,
        spec_passes_filter(is_bare, is_worktree, true, true) == (is_bare && is_worktree),
        spec_passes_filter(is_bare, is_worktree, false, false),
{
}

/// The surviving cached paths: those whose entry is still on disk, in
/// cache order.
pub open spec fn spec_surviving(cached: Seq<Seq<char>>, on_disk: Seq<bool>) -> Seq<Seq<char>>
    decreases cached.len(),
{
    if cached.len() == 0 {
        Seq::empty()
    } else {
        let rest = spec_surviving(cached.drop_last(), on_disk.drop_last());
        if on_disk.len() == cached.len() && on_disk.last() {
            rest.push(cached.last())
        } else {
            rest
        }
    }
}

/// Keeps the cached paths whose flag says they still exist on disk.
pub fn surviving_paths(cached: Vec<String>, on_disk: &Vec<bool>) -> (r: Vec<String>)
    requires
        cached@.len() == on_disk@.len(),
    ensures
        r.deep_view() == spec_surviving(cached.deep_view(), on_disk@),
{
    let mut out: Vec<String> = Vec::new();
    let mut i: usize = 0;
    proof {
        assert(out.deep_view() =~= spec_surviving(
            cached.deep_view().take(0),
            on_disk@.take(0),
        ));
    }
    while i < cached.len()
        invariant
            i <= cached@.len(),
            cached@.len() == on_disk@.len(),
            out.deep_view() == spec_surviving(cached.deep_view().take(i as int), on_disk@.take(i as int)),
        decreases cached@.len() - i,
    {
        let ghost pre_out = out.deep_view();
        let keep = on_disk[i];
        if keep {
            out.push(cached[i].clone());
        }
        proof {
            let cpre = cached.deep_view().take(i as int);
            let cpost = cached.deep_view().take(i as int + 1);
            let dpre = on_disk@.take(i as int);
            let dpost = on_disk@.take(i as int + 1);
            assert(cpost.drop_last() =~= cpre);
            assert(dpost.drop_last() =~= dpre);
            assert(cpost.last() == cached.deep_view()[i as int]);
            if keep {
                assert(out.deep_view() =~= pre_out.push(cached.deep_view()[i as int]));
            }
        }
        i += 1;
    }
    proof {
        assert(cached.deep_view().take(cached.deep_view().len() as int) =~= cached.deep_view());
        assert(on_disk@.take(on_disk@.len() as int) =~= on_disk@);
    }
    out
}

/// The merge of freshly found paths into the surviving cache: the cache
/// entries first, then each fresh path not already present, in discovery
/// order, deduplicated by path equality.
pub open spec fn spec_merge(acc: Seq<Seq<char>>, fresh: Seq<Seq<char>>) -> Seq<Seq<char>>
    decreases fresh.len(),
{
    if fresh.len() == 0 {
        acc
    } else {
        let acc2 = if acc.contains(fresh[0]) {
            acc
        } else {
            acc.push(fresh[0])
        };
        spec_merge(acc2, fresh.skip(1))
    }
}

/// Appends every fresh path that is not already present.
pub fn merge_cache(cached: Vec<String>, fresh: &Vec<String>) -> (r: Vec<String>)
    ensures
        r.deep_view() == spec_merge(cached.deep_view(), fresh.deep_view()),
{
    let mut merged = cached;
    let mut i: usize = 0;
    proof {
        assert(fresh.deep_view().skip(0) =~= fresh.deep_view());
    }
    while i < fresh.len()
        invariant
            i <= fresh@.len(),
            spec_merge(cached.deep_view(), fresh.deep_view()) == spec_merge(
                merged.deep_view(),
                fresh.deep_view().skip(i as int),
            ),
        decreases fresh@.len() - i,
    {
        let d = &fresh[i];
        let mut present = false;
        let mut k: usize = 0;
        while k < merged.len()
            invariant_except_break
                k <= merged@.len(),
                !present,
                forall|t: int| 0 <= t < k ==> merged.deep_view()[t] != d@,
            ensures
                present == merged.deep_view().contains(d@),
            decreases merged@.len() - k,
        {
            if str_eq(merged[k].as_str(), d.as_str()) {
                present = true;
                proof {
                    assert(merged.deep_view()[k as int] == d@);
                }
                break ;
            }
            k += 1;
        }
        let ghost pre_merged = merged.deep_view();
        if !present {
            merged.push(d.clone());
        }
        proof {
            let rest = fresh.deep_view().skip(i as int);
            assert(rest[0] == fresh.deep_view()[i as int]);
            assert(rest.skip(1) =~= fresh.deep_view().skip(i as int + 1));
            if !present {
                assert(merged.deep_view() =~= pre_merged.push(fresh.deep_view()[i as int]));
            }
        }
        i += 1;
    }
    proof {
        assert(fresh.deep_view().skip(fresh.deep_view().len() as int).len() == 0);
    }
    merged
}

/// Classifies each candidate by opening it as a repository, drops the ones
/// that are none, and applies the listing filters. The result keeps some of
/// the candidates, in candidate order; which of them is up to the disk.
pub fn filter_repositories(dirs: Vec<String>, only_bare: bool, only_worktrees: bool) -> (r: Vec<
    String,
>)
    ensures
        exists|kept: Seq<bool>|
            kept.len() == dirs.deep_view().len() && r.deep_view() == spec_surviving(
                dirs.deep_view(),
                kept,
            ),
{
    let mut out: Vec<String> = Vec::new();
    let mut i: usize = 0;
    let ghost mut kept: Seq<bool> = Seq::empty();
    proof {
        assert(out.deep_view() =~= spec_surviving(dirs.deep_view().take(0), kept));
    }
    while i < dirs.len()
        invariant
            i <= dirs@.len(),
            kept.len() == i,
            out.deep_view() == spec_surviving(dirs.deep_view().take(i as int), kept),
        decreases dirs@.len() - i,
    {
        let d = dirs[i].clone();
        let ghost pre_out = out.deep_view();
        let ghost pre_kept = kept;
        let mut keep_this = false;
        match crate::git::open_repository(d.as_str()) {
            Ok(repo) => {
                let bare = repo.is_bare();
                let worktree = repo.is_worktree();
                if repo_passes_filter(bare, worktree, only_bare, only_worktrees) {
                    keep_this = true;
                    out.push(d);
                }
            },
            Err(_) => (),
        }
        proof {
            kept = pre_kept.push(keep_this);
            let cpre = dirs.deep_view().take(i as int);
            let cpost = dirs.deep_view().take(i as int + 1);
            assert(cpost.drop_last() =~= cpre);
            assert(kept.drop_last() =~= pre_kept);
            assert(cpost.last() == dirs.deep_view()[i as int]);
            if keep_this {
                assert(out.deep_view() =~= pre_out.push(dirs.deep_view()[i as int]));
            }
        }
        i += 1;
    }
    proof {
        assert(dirs.deep_view().take(dirs.deep_view().len() as int) =~= dirs.deep_view());
    }
    out
}

/// Where the discovery cache is persisted: `.redwood_cache.json` in the
/// home directory, or under the current directory when no home is known.
pub fn get_cache_path(home: Option<&str>) -> (r: String)
    ensures
        match home {
            Some(h) => r@ == spec_join(h@, ".redwood_cache.json"@),
            None => r@ == spec_join("."@, ".redwood_cache.json"@),
        },
{
    match home {
        Some(h) => join_path(h, ".redwood_cache.json"),
        None => join_path(".", ".redwood_cache.json"),
    }
}

/// Creates a working tree and a session rooted at it. The source
/// repository must be bare.
pub struct New {
    pub repo_path: String,
    pub worktree_name: String,
    pub tmux_session_name: Option<String>,
}

impl New {
    /// Resolves the repository and refuses a non-bare source; registers the
    /// workspace and persists the registry before the filesystem-level
    /// creation, so that a crash mid-creation leaves a recoverable entry
    /// rather than an orphaned working tree; then creates the tree through
    /// the repository driver and opens the session. The registry gains one
    /// entry of this workspace name exactly when registration succeeded,
    /// and never anything else.
    pub fn execute<T: Tmux, G: Git, W: ConfigWriter>(
        &self,
        ctx: &Context<T, G>,
        cfg: &mut Config,
        writer: &W,
    ) -> (r: Result<()>)
        ensures
            old(cfg).wf() ==> final(cfg).wf(),
            final(cfg).entries() == old(cfg).entries() || added_entry_named(
                old(cfg).entries(),
                final(cfg).entries(),
                self.worktree_name@,
            ),
            r is Ok ==> added_entry_named(
                old(cfg).entries(),
                final(cfg).entries(),
                self.worktree_name@,
            ),
    {
        let repo = ctx.git.get_repo_meta(self.repo_path.as_str())?;
        if !repo.is_bare() {
            return Err(RedwoodError::NotBareRepoError { repo_path: self.repo_path.clone() });
        }
        let worktree_path = join_path(repo.root_path(), self.worktree_name.as_str());
        let entry = WorktreeConfig::new(repo.root_path(), self.worktree_name.as_str());
        let ghost new_entry = entry;
        cfg.add_worktree(entry)?;
        proof {
            assert(cfg.entries() == old(cfg).entries().push(new_entry));
            assert(added_entry_named(old(cfg).entries(), cfg.entries(), self.worktree_name@));
        }
        writer.write(cfg)?;
        ctx.git.create_worktree(repo.root_path(), self.worktree_name.as_str())?;
        let session_name = match &self.tmux_session_name {
            Some(name) => name.as_str(),
            None => self.worktree_name.as_str(),
        };
        ctx.tmux.new_session(session_name, worktree_path.as_str())?;
        ctx.tmux.attach_to_session(session_name)?;
        Ok(())
    }
}

/// Opens a session rooted at an existing path.
pub struct Open {
    pub path: String,
}

impl Open {
    /// The session is named after the last component of the canonical form
    /// of the path, which the caller resolves first because resolving links
    /// reads the filesystem; the session still starts at the path as given.
    pub fn execute<T: Tmux, G: Git>(&self, canonical_path: &str, ctx: &Context<T, G>) -> Result<()>
        requires
            components(canonical_path@).len() > 0,
    {
        let session_name = match last_component(canonical_path) {
            Some(name) => name,
            None => vstd::pervasive::unreached(),
        };
        ctx.tmux.new_session(session_name.as_str(), self.path.as_str())?;
        ctx.tmux.attach_to_session(session_name.as_str())?;
        Ok(())
    }
}

/// Deletes a working tree.
pub struct Delete {
    pub path: String,
}

impl Delete {
    /// Resolves the identifier against the registry, failing when nothing
    /// matches and then leaving the registry untouched. The destructive
    /// prune is only ever attempted against a bare repository, never
    /// against a plain repository's only working copy. Branch cleanup and
    /// session teardown are both attempted even when one fails; the
    /// registry entry goes last, so any earlier failure leaves a
    /// recoverable entry behind.
    pub fn execute<T: Tmux, G: Git, W: ConfigWriter>(
        &self,
        ctx: &Context<T, G>,
        cfg: &mut Config,
        writer: &W,
    ) -> (r: Result<()>)
        ensures
            old(cfg).wf() ==> final(cfg).wf(),
            (forall|k: int|
                0 <= k < old(cfg).entries().len() ==> !matches_identifier(
                    old(cfg).entries()[k],
                    self.path@,
                )) ==> {
                &&& r matches Err(e)
                &&& e matches RedwoodError::WorkTreeConfigNotFound { worktree_name: n } && n@
                    == self.path@
                &&& final(cfg).entries() == old(cfg).entries()
            },
            final(cfg).entries() == old(cfg).entries() || removed_first_match(
                old(cfg).entries(),
                final(cfg).entries(),
                self.path@,
            ),
            r is Ok ==> removed_first_match(old(cfg).entries(), final(cfg).entries(), self.path@),
    {
        let (entry_repo, entry_name) = match cfg.find(self.path.as_str()) {
            Some((_, wt)) => (wt.repo_path().to_owned(), wt.worktree_name().to_owned()),
            None => {
                return Err(
                    RedwoodError::WorkTreeConfigNotFound { worktree_name: self.path.clone() },
                );
            },
        };
        let repo = ctx.git.get_repo_meta(entry_repo.as_str())?;
        let worktree_path = join_path(repo.root_path(), entry_name.as_str());
        let mut first_failure: Option<RedwoodError> = None;
        if repo.is_bare() {
            match ctx.git.delete_worktree(worktree_path.as_str()) {
                Ok(()) => (),
                Err(e) => {
                    first_failure = Some(e);
                },
            }
        }
        match ctx.tmux.kill_session(entry_name.as_str()) {
            Ok(()) => (),
            Err(e) => {
                if first_failure.is_none() {
                    first_failure = Some(e);
                }
            },
        }
        match first_failure {
            Some(e) => {
                return Err(e);
            },
            None => (),
        }
        cfg.remove_worktree(self.path.as_str())?;
        writer.write(cfg)?;
        Ok(())
    }
}

/// Lists known and discoverable repositories.
pub struct List {
    pub only_bare_repos: bool,
    pub only_worktrees: bool,
}

impl List {
    /// The listing pipeline after the caller's directory walk: classify and
    /// filter the fresh candidates, keep the cached paths still on disk,
    /// and merge the filtered candidates into them. The result is what is
    /// both displayed and persisted.
    pub fn compute(&self, candidates: Vec<String>, cached: Vec<String>, cached_on_disk: &Vec<
        bool,
    >) -> (r: Vec<String>)
        requires
            cached@.len() == cached_on_disk@.len(),
        ensures
            exists|kept: Seq<bool>|
                kept.len() == candidates.deep_view().len() && r.deep_view() == spec_merge(
                    spec_surviving(cached.deep_view(), cached_on_disk@),
                    spec_surviving(candidates.deep_view(), kept),
                ),
    {
        let ghost candidates_view = candidates.deep_view();
        let filtered = filter_repositories(candidates, self.only_bare_repos, self.only_worktrees);
        let survivors = surviving_paths(cached, cached_on_disk);
        let merged = merge_cache(survivors, &filtered);
        proof {
            let kept = choose|kept: Seq<bool>|
                kept.len() == candidates_view.len() && filtered.deep_view() == spec_surviving(
                    candidates_view,
                    kept,
                );
            assert(kept.len() == candidates_view.len() && merged.deep_view() == spec_merge(
                spec_surviving(cached.deep_view(), cached_on_disk@),
                spec_surviving(candidates_view, kept),
            ));
        }
        merged
    }
}

/// Prints the tool's version.
pub struct Version {}

/// The single line the version command prints.
pub fn version_line(name: &str, version: &str) -> (r: String)
    ensures
        r@ == name@ + " v"@ + version@,
{
    let mut out = name.to_owned();
    out.append(" v");
    out.append(version);
    out
}

/// A command ready to run.
pub enum CommandKind {
    New(New),
    Open(Open),
    Delete(Delete),
    List(List),
    Version(Version),
}

/// Maps a parsed invocation onto the command that runs it.
pub fn command_of(cli: Cli) -> (r: CommandKind)
    ensures
        match cli.command {
            Commands::New { repo_path, worktree_name, tmux_session_name } => r matches CommandKind::New(c)
                && c.repo_path == repo_path && c.worktree_name == worktree_name
                && c.tmux_session_name == tmux_session_name,
            Commands::Open { path } => r matches CommandKind::Open(c) && c.path == path,
            Commands::Delete { path } => r matches CommandKind::Delete(c) && c.path == path,
            Commands::List { only_bare_repos, only_worktrees } => r matches CommandKind::List(c)
                && c.only_bare_repos == only_bare_repos && c.only_worktrees == only_worktrees,
            Commands::Version {} => r matches CommandKind::Version(c),
        },
{
    match cli.command {
        Commands::New { repo_path, worktree_name, tmux_session_name } => CommandKind::New(
            New { repo_path, worktree_name, tmux_session_name },
        ),
        Commands::Open { path } => CommandKind::Open(Open { path }),
        Commands::Delete { path } => CommandKind::Delete(Delete { path }),
        Commands::List { only_bare_repos, only_worktrees } => CommandKind::List(
            List { only_bare_repos, only_worktrees },
        ),
        Commands::Version {} => CommandKind::Version(Version {}),
    }
}

} // verus!
