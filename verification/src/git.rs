use vstd::prelude::*;

use crate::error::RedwoodError;
use crate::paths::{
    components, is_abs, join_abs, last_component, lemma_join_rel_last, lemma_split_sep_concat,
    lemma_split_single, lemma_split_wf, normal_form, spec_join, strip_last_two,
    strip_two_components,
};
use crate::Result;

verus! {

#[verifier::external_type_specification]
#[verifier::external_body]
pub struct ExRepository(git2::Repository);

#[verifier::external_type_specification]
#[verifier::external_body]
pub struct ExGitError(git2::Error);

#[verifier::external_type_specification]
#[verifier::external_body]
pub struct ExWorktree(git2::Worktree);

#[verifier::external_type_specification]
#[verifier::external_body]
pub struct ExBranch<'a>(git2::Branch<'a>);

/// Relies on git2::Repository::open: opens the existing repository at
/// `path`, normal or bare; fails when there is none.
#[verifier::external_body]
pub(crate) fn open_repository(path: &str) -> core::result::Result<git2::Repository, git2::Error> {
    git2::Repository::open(path)
}

/// Relies on git2::Repository::is_bare: whether the repository is bare.
pub assume_specification[ git2::Repository::is_bare ](r: &git2::Repository) -> bool;

/// Relies on git2::Repository::is_worktree: whether the repository is a
/// linked working tree.
pub assume_specification[ git2::Repository::is_worktree ](r: &git2::Repository) -> bool;

/// Relies on git2::Repository::path: the repository's metadata directory —
/// the `.git` directory of a normal repository, the repository directory
/// itself of a bare one, and `<root>/worktrees/<name>` of a linked working
/// tree.
#[verifier::external_body]
fn repository_metadata_path(repo: &git2::Repository) -> String {
    repo.path().to_string_lossy().into_owned()
}

/// Relies on git2::Repository::find_branch: whether a remote branch of this
/// name exists.
#[verifier::external_body]
fn has_remote_branch(repo: &git2::Repository, name: &str) -> bool {
    repo.find_branch(name, git2::BranchType::Remote).is_ok()
}

/// Relies on git2::Repository::find_branch: looks a local branch up by
/// name.
#[verifier::external_body]
fn find_local_branch<'a>(repo: &'a git2::Repository, name: &str) -> core::result::Result<
    git2::Branch<'a>,
    git2::Error,
> {
    repo.find_branch(name, git2::BranchType::Local)
}

/// Relies on git2::Branch::delete: deletes the branch reference.
pub assume_specification<'repo>[ git2::Branch::<'repo>::delete ](
    b: &mut git2::Branch<'repo>,
) -> core::result::Result<(), git2::Error>;

/// Relies on git2::Repository::find_worktree: looks a linked working tree
/// up by name.
pub assume_specification[ git2::Repository::find_worktree ](
    r: &git2::Repository,
    name: &str,
) -> core::result::Result<git2::Worktree, git2::Error>;

/// Relies on git2::Worktree::prune, configured to prune the tree even while
/// valid and to remove its directory from disk; locked trees stay refused.
#[verifier::external_body]
fn prune_worktree(wt: &git2::Worktree) -> core::result::Result<(), git2::Error> {
    let mut opts = git2::WorktreePruneOptions::new();
    opts.valid(true).working_tree(true);
    wt.prune(Some(&mut opts))
}

/// Relies on git2::Error::message: the library's own description of a
/// failure.
#[verifier::external_body]
fn git_error_message(e: &git2::Error) -> String {
    e.message().to_owned()
}

/// Relies on git2::Error::code: tells the not-found outcome apart from
/// every other failure.
#[verifier::external_body]
fn git_error_is_not_found(e: &git2::Error) -> bool {
    e.code() == git2::ErrorCode::NotFound
}

/// Wraps a repository-library failure in the library's own error type.
fn from_git_error(e: &git2::Error) -> (r: RedwoodError)
    ensures
        r is GitError,
{
    RedwoodError::GitError { message: git_error_message(e) }
}

/// What the callers of the resolver learn about a repository: its resolved
/// root and whether it is bare.
pub struct RepoMeta {
    is_bare: bool,
    root_path: String,
}

impl RepoMeta {
    pub fn new(root_path: String, is_bare: bool) -> (r: RepoMeta)
        ensures
            r.spec_is_bare() == is_bare,
            r.spec_root_path() == root_path@,
    {
        RepoMeta { is_bare, root_path }
    }

    pub closed spec fn spec_is_bare(&self) -> bool {
        self.is_bare
    }

    pub closed spec fn spec_root_path(&self) -> Seq<char> {
        self.root_path@
    }

    pub fn is_bare(&self) -> (r: bool)
        ensures
            r == self.spec_is_bare(),
    {
        self.is_bare
    }

    pub fn root_path(&self) -> (r: &str)
        ensures
            r@ == self.spec_root_path(),
    {
        self.root_path.as_str()
    }
}

/// The repository operations the commands need; implemented outside the
/// library for the real tool and by test doubles alike.
pub trait Git {
    fn create_worktree(&self, repo_path: &str, worktree_name: &str) -> Result<()>;

    fn delete_worktree(&self, worktree_path: &str) -> Result<()>;

    fn get_repo_meta(&self, repo_path: &str) -> Result<RepoMeta>;
}

/// The root a metadata path resolves to. A linked working tree's metadata
/// directory lies exactly two components below the true root
/// (`<root>/worktrees/<name>`), so exactly those two components are
/// stripped; any other repository's metadata path already is the root.
pub open spec fn resolved_root(meta_path: Seq<char>, is_worktree: bool) -> Seq<char> {
    if is_worktree {
        strip_last_two(meta_path)
    } else {
        meta_path
    }
}

/// Recovers a repository root from its metadata path.
pub fn resolve_root_from(meta_path: &str, is_worktree: bool) -> (r: String)
    ensures
        r@ == resolved_root(meta_path@, is_worktree),
{
    if is_worktree {
        strip_two_components(meta_path)
    } else {
        meta_path.to_owned()
    }
}

/// Resolving the metadata directory of any linked working tree of a
/// repository rooted at `root` yields the same root as resolving the
/// repository itself, whenever the stored root is in normal form and the
/// tree's name is a plain file name.
pub proof fn lemma_worktree_resolves_to_origin_root(root: Seq<char>, name: Seq<char>)
    requires
        root.len() > 0,
        normal_form(root),
        name.len() > 0,
        forall|i: int| 0 <= i < name.len() ==> name[i] != '/',
    ensures
        resolved_root(spec_join(spec_join(root, "worktrees"@), name), true) == resolved_root(
            root,
            false,
        ),
{
    reveal_strlit("worktrees");
    let w = "worktrees"@;
    assert(w.len() == 9);
    assert(forall|i: int| 0 <= i < w.len() ==> w[i] != '/');
    assert(!is_abs(w));
    assert(!is_abs(name));
    lemma_split_wf(root, '/');
    let rc = components(root);
    if rc.len() == 0 {
        // A normal-form, non-empty path without components is the bare
        // separator.
        assert(root == join_abs(is_abs(root), rc));
        assert(is_abs(root));
        assert(root =~= seq!['/']);
        assert(root.last() == '/');
        let a = spec_join(root, w);
        assert(a =~= root + w);
        assert(a.len() == 10);
        assert(a.last() == 's');
        let m = spec_join(a, name);
        assert(m =~= a + seq!['/'] + name);
        assert(m =~= seq!['/'] + (w + seq!['/'] + name));
        assert(m.skip(1) =~= w + seq!['/'] + name);
        assert(m[0] == '/');
        assert(components(m) == components(w + seq!['/'] + name));
        lemma_split_sep_concat(w, name, '/');
        lemma_split_single(w, '/');
        lemma_split_single(name, '/');
        assert(components(m) =~= seq![w, name]);
        assert(components(m).take(0) =~= Seq::<Seq<char>>::empty());
        assert(is_abs(m));
        assert(strip_last_two(m) =~= seq!['/']);
    } else {
        lemma_join_rel_last(rc);
        assert(root == join_abs(is_abs(root), rc));
        assert(root.last() == rc.last().last());
        assert(root.last() != '/');
        let a = spec_join(root, w);
        assert(a =~= root + seq!['/'] + w);
        assert(a.last() == 's');
        let m = spec_join(a, name);
        assert(m =~= a + seq!['/'] + name);
        assert(m =~= root + seq!['/'] + (w + seq!['/'] + name));
        lemma_split_sep_concat(root, w + seq!['/'] + name, '/');
        lemma_split_sep_concat(w, name, '/');
        lemma_split_single(w, '/');
        lemma_split_single(name, '/');
        assert(components(m) =~= rc + seq![w, name]);
        assert(components(m).len() == rc.len() + 2);
        assert(components(m).take(rc.len() as int) =~= rc);
        assert(is_abs(m) == is_abs(root));
        assert(strip_last_two(m) == join_abs(is_abs(root), rc));
    }
}

/// Resolves the true root of the repository that contains `path`.
pub fn get_repo_root(path: &str) -> (r: Result<String>)
    ensures
        r matches Err(e) ==> e is GitError,
{
    let repo = match open_repository(path) {
        Ok(repo) => repo,
        Err(e) => return Err(from_git_error(&e)),
    };
    let meta = repository_metadata_path(&repo);
    let is_wt = repo.is_worktree();
    Ok(resolve_root_from(meta.as_str(), is_wt))
}

/// Resolves the repository containing `path` to its root and bareness.
pub fn get_repo_meta(path: &str) -> (r: Result<RepoMeta>)
    ensures
        r matches Err(e) ==> e is GitError,
{
    let root = get_repo_root(path)?;
    let repo = match open_repository(root.as_str()) {
        Ok(repo) => repo,
        Err(e) => return Err(from_git_error(&e)),
    };
    let bare = repo.is_bare();
    Ok(RepoMeta { is_bare: bare, root_path: root })
}

/// The argument list of the external tool invocation that creates a working
/// tree: `worktree add -b <name> <path>`, followed by the base branch for a
/// bare source — `origin/main` when it exists, else `origin/master` when
/// that exists, else the tool's own default.
pub open spec fn worktree_add_args(
    name: Seq<char>,
    worktree_path: Seq<char>,
    is_bare: bool,
    has_main: bool,
    has_master: bool,
) -> Seq<Seq<char>> {
    let base = seq!["worktree"@, "add"@, "-b"@, name, worktree_path];
    if is_bare && has_main {
        base.push("origin/main"@)
    } else if is_bare && has_master {
        base.push("origin/master"@)
    } else {
        base
    }
}

fn build_worktree_add_args(
    worktree_name: &str,
    worktree_path: &str,
    is_bare: bool,
    has_main: bool,
    has_master: bool,
) -> (r: Vec<String>)
    ensures
        r.deep_view() == worktree_add_args(
            worktree_name@,
            worktree_path@,
            is_bare,
            has_main,
            has_master,
        ),
{
    let mut args: Vec<String> = Vec::new();
    args.push(String::from_str("worktree"));
    args.push(String::from_str("add"));
    args.push(String::from_str("-b"));
    args.push(worktree_name.to_owned());
    args.push(worktree_path.to_owned());
    if is_bare && has_main {
        args.push(String::from_str("origin/main"));
    } else if is_bare && has_master {
        args.push(String::from_str("origin/master"));
    }
    proof {
        assert(args.deep_view() =~= worktree_add_args(
            worktree_name@,
            worktree_path@,
            is_bare,
            has_main,
            has_master,
        ));
    }
    args
}

/// Everything the caller needs to run the external creation command: the
/// working tree's path below the resolved root, what the probes found, and
/// the full argument list built from them.
pub struct WorktreeAddPlan {
    pub args: Vec<String>,
    pub worktree_path: String,
    pub from_bare: bool,
    pub has_origin_main: bool,
    pub has_origin_master: bool,
}

/// Prepares the external creation command for a working tree named
/// `worktree_name` under the repository containing `repo_path`.
pub fn plan_worktree_add(repo_path: &str, worktree_name: &str) -> (r: Result<WorktreeAddPlan>)
    ensures
        r matches Ok(p) ==> p.args.deep_view() == worktree_add_args(
            worktree_name@,
            p.worktree_path@,
            p.from_bare,
            p.has_origin_main,
            p.has_origin_master,
        ),
        r matches Err(e) ==> e is GitError,
{
    let repo = match open_repository(repo_path) {
        Ok(repo) => repo,
        Err(e) => return Err(from_git_error(&e)),
    };
    let root = get_repo_root(repo_path)?;
    let worktree_path = crate::paths::join_path(root.as_str(), worktree_name);
    let is_bare = repo.is_bare();
    let has_main = has_remote_branch(&repo, "origin/main");
    let has_master = has_remote_branch(&repo, "origin/master");
    let args = build_worktree_add_args(
        worktree_name,
        worktree_path.as_str(),
        is_bare,
        has_main,
        has_master,
    );
    Ok(
        WorktreeAddPlan {
            args,
            worktree_path,
            from_bare: is_bare,
            has_origin_main: has_main,
            has_origin_master: has_master,
        },
    )
}

/// Destroys the working tree at `worktree_path`: prunes it (valid trees
/// included, locked ones refused by the library) and then deletes the
/// same-named local branch, tolerating only that branch's absence. The last
/// path component names the tree.
pub fn delete_worktree(worktree_path: &str) -> (r: Result<()>)
    requires
        components(worktree_path@).len() > 0,
    ensures
        r matches Err(e) ==> e is GitError,
{
    let repo = match open_repository(worktree_path) {
        Ok(repo) => repo,
        Err(e) => return Err(from_git_error(&e)),
    };
    let worktree_name = match last_component(worktree_path) {
        Some(name) => name,
        None => vstd::pervasive::unreached(),
    };
    let worktree = match repo.find_worktree(worktree_name.as_str()) {
        Ok(worktree) => worktree,
        Err(e) => return Err(from_git_error(&e)),
    };
    match prune_worktree(&worktree) {
        Ok(()) => (),
        Err(e) => return Err(from_git_error(&e)),
    }
    match find_local_branch(&repo, worktree_name.as_str()) {
        Ok(mut branch) => match branch.delete() {
            Ok(()) => (),
            Err(e) => return Err(from_git_error(&e)),
        },
        Err(e) => if !git_error_is_not_found(&e) {
            return Err(from_git_error(&e));
        },
    }
    Ok(())
}

} // verus!
