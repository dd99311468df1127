use vstd::prelude::*;

use crate::error::RedwoodError;
use crate::paths::{join_path, spec_join, str_eq};
use crate::Result;

verus! {

/// One registry entry: a repository root together with the name of a
/// workspace rooted at it.
#[derive(Debug)]
pub struct WorktreeConfig {
    repo_path: String,
    worktree_name: String,
}

impl WorktreeConfig {
    /// The canonical repository root this entry belongs to.
    pub closed spec fn spec_repo_path(&self) -> Seq<char> {
        self.repo_path@
    }

    /// The workspace name, used as working-tree directory, branch and
    /// session identifier alike.
    pub closed spec fn spec_worktree_name(&self) -> Seq<char> {
        self.worktree_name@
    }

    pub fn new(repo_path: &str, worktree_name: &str) -> (r: Self)
        ensures
            r.spec_repo_path() == repo_path@,
            r.spec_worktree_name() == worktree_name@,
    {
        WorktreeConfig {
            repo_path: repo_path.to_owned(),
            worktree_name: worktree_name.to_owned(),
        }
    }

    pub fn repo_path(&self) -> (r: &str)
        ensures
            r@ == self.spec_repo_path(),
    {
        self.repo_path.as_str()
    }

    pub fn worktree_name(&self) -> (r: &str)
        ensures
            r@ == self.spec_worktree_name(),
    {
        self.worktree_name.as_str()
    }
}

impl Clone for WorktreeConfig {
    fn clone(&self) -> (r: Self)
        ensures
            r == *self,
    {
        WorktreeConfig {
            repo_path: self.repo_path.clone(),
            worktree_name: self.worktree_name.clone(),
        }
    }
}

/// A character's code point with ASCII capitals folded onto the small
/// letters, the key under which listings are ordered.
pub open spec fn fold_char(c: char) -> u32 {
    if 65 <= c as u32 && c as u32 <= 90 {
        (c as u32 + 32) as u32
    } else {
        c as u32
    }
}

fn fold_char_exec(c: char) -> (r: u32)
    ensures
        r == fold_char(c),
{
    let u = c as u32;
    if 65 <= u && u <= 90 {
        u + 32
    } else {
        u
    }
}

/// Case-insensitive lexicographic order on character sequences.
pub open spec fn ci_le(a: Seq<char>, b: Seq<char>) -> bool
    decreases a.len(),
{
    if a.len() == 0 {
        true
    } else if b.len() == 0 {
        false
    } else if fold_char(a[0]) != fold_char(b[0]) {
        fold_char(a[0]) < fold_char(b[0])
    } else {
        ci_le(a.skip(1), b.skip(1))
    }
}

/// The order is total.
pub proof fn lemma_ci_le_total(a: Seq<char>, b: Seq<char>)
    ensures
        ci_le(a, b) || ci_le(b, a),
    decreases a.len(),
{
    if a.len() > 0 && b.len() > 0 && fold_char(a[0]) == fold_char(b[0]) {
        lemma_ci_le_total(a.skip(1), b.skip(1));
    }
}

/// The order is transitive.
pub proof fn lemma_ci_le_trans(a: Seq<char>, b: Seq<char>, c: Seq<char>)
    requires
        ci_le(a, b),
        ci_le(b, c),
    ensures
        ci_le(a, c),
    decreases a.len(),
{
    if a.len() > 0 && b.len() > 0 && c.len() > 0 {
        if fold_char(a[0]) == fold_char(b[0]) && fold_char(b[0]) == fold_char(c[0]) {
            lemma_ci_le_trans(a.skip(1), b.skip(1), c.skip(1));
        }
    }
}

/// Case-insensitive comparison of two strings.
fn ci_le_exec(a: &str, b: &str) -> (r: bool)
    ensures
        r == ci_le(a@, b@),
{
    let na = a.unicode_len();
    let nb = b.unicode_len();
    let mut i: usize = 0;
    proof {
        assert(a@.skip(0) =~= a@);
        assert(b@.skip(0) =~= b@);
    }
    while i < na && i < nb
        invariant
            i <= na,
            i <= nb,
            na == a@.len(),
            nb == b@.len(),
            ci_le(a@, b@) == ci_le(a@.skip(i as int), b@.skip(i as int)),
        ensures
            i <= na,
            i <= nb,
            i == na || i == nb,
            ci_le(a@, b@) == ci_le(a@.skip(i as int), b@.skip(i as int)),
        decreases na - i,
    {
        let ca = fold_char_exec(a.get_char(i));
        let cb = fold_char_exec(b.get_char(i));
        if ca < cb {
            return true;
        }
        if ca > cb {
            return false;
        }
        proof {
            assert(a@.skip(i as int).skip(1) =~= a@.skip(i as int + 1));
            assert(b@.skip(i as int).skip(1) =~= b@.skip(i as int + 1));
        }
        i += 1;
    }
    if i == na {
        proof {
            assert(a@.skip(i as int).len() == 0);
        }
        true
    } else {
        proof {
            assert(b@.skip(i as int).len() == 0);
            assert(a@.skip(i as int).len() > 0);
        }
        false
    }
}

/// Listing order: entries compare by their repository path, case folded.
pub open spec fn entry_le(a: WorktreeConfig, b: WorktreeConfig) -> bool {
    ci_le(a.spec_repo_path(), b.spec_repo_path())
}

/// Insertion of an entry into a run of entries, after every entry that does
/// not exceed it, so that entries with equal keys keep their first-come
/// order.
pub open spec fn insert_sorted(x: WorktreeConfig, s: Seq<WorktreeConfig>) -> Seq<WorktreeConfig>
    decreases s.len(),
{
    if s.len() == 0 {
        seq![x]
    } else if entry_le(s[0], x) {
        seq![s[0]] + insert_sorted(x, s.skip(1))
    } else {
        seq![x] + s
    }
}

/// The stable insertion sort of a run of entries under `entry_le`.
pub open spec fn sort_entries(s: Seq<WorktreeConfig>) -> Seq<WorktreeConfig>
    decreases s.len(),
{
    if s.len() == 0 {
        s
    } else {
        insert_sorted(s.last(), sort_entries(s.drop_last()))
    }
}

/// A run of entries in listing order.
pub open spec fn sorted_ci(s: Seq<WorktreeConfig>) -> bool {
    forall|i: int, j: int| 0 <= i < j < s.len() ==> entry_le(s[i], s[j])
}

/// Insertion lands exactly at the first position whose entry exceeds the
/// inserted one.
pub proof fn lemma_insert_sorted_at(x: WorktreeConfig, s: Seq<WorktreeConfig>, p: int)
    requires
        0 <= p <= s.len(),
        forall|k: int| 0 <= k < p ==> entry_le(s[k], x),
        p < s.len() ==> !entry_le(s[p], x),
    ensures
        insert_sorted(x, s) == s.take(p) + seq![x] + s.skip(p),
    decreases s.len(),
{
    if s.len() == 0 {
        assert(insert_sorted(x, s) =~= s.take(p) + seq![x] + s.skip(p));
    } else if p == 0 {
        assert(!entry_le(s[0], x));
        assert(s.take(0) =~= Seq::<WorktreeConfig>::empty());
        assert(s.skip(0) =~= s);
        assert(insert_sorted(x, s) =~= s.take(p) + seq![x] + s.skip(p));
    } else {
        assert(entry_le(s[0], x));
        assert(forall|k: int| 0 <= k < p - 1 ==> entry_le(s.skip(1)[k], x));
        lemma_insert_sorted_at(x, s.skip(1), p - 1);
        assert(s.skip(1).take(p - 1) =~= s.take(p).skip(1));
        assert(s.skip(1).skip(p - 1) =~= s.skip(p));
        assert(seq![s[0]] + (s.skip(1).take(p - 1) + seq![x] + s.skip(1).skip(p - 1)) =~= s.take(
            p,
        ) + seq![x] + s.skip(p));
    }
}

/// Inserting into a sorted run keeps it sorted.
pub proof fn lemma_insert_sorted_sorted(x: WorktreeConfig, s: Seq<WorktreeConfig>, p: int)
    requires
        sorted_ci(s),
        0 <= p <= s.len(),
        forall|k: int| 0 <= k < p ==> entry_le(s[k], x),
        p < s.len() ==> !entry_le(s[p], x),
    ensures
        sorted_ci(s.take(p) + seq![x] + s.skip(p)),
{
    let out = s.take(p) + seq![x] + s.skip(p);
    if p < s.len() {
        lemma_ci_le_total(s[p].spec_repo_path(), x.spec_repo_path());
    }
    assert forall|i: int, j: int| 0 <= i < j < out.len() implies entry_le(out[i], out[j]) by {
        if i < p {
            assert(out[i] == s[i]);
        } else if i == p {
            assert(out[i] == x);
        } else {
            assert(out[i] == s[i - 1]);
        }
        if j < p {
            assert(out[j] == s[j]);
        } else if j == p {
            assert(out[j] == x);
        } else {
            assert(out[j] == s[j - 1]);
        }
        if i < p && j == p {
            assert(entry_le(s[i], x));
        } else if i == p && j > p {
            assert(entry_le(x, s[p]));
            if j - 1 > p {
                assert(entry_le(s[p], s[j - 1]));
                lemma_ci_le_trans(
                    x.spec_repo_path(),
                    s[p].spec_repo_path(),
                    s[j - 1].spec_repo_path(),
                );
            }
        } else if i < p && j > p {
            assert(entry_le(s[i], s[j - 1]));
        }
    }
}

/// Inserting an entry that no element of the run exceeds appends it.
pub proof fn lemma_insert_sorted_append(x: WorktreeConfig, s: Seq<WorktreeConfig>)
    requires
        forall|k: int| 0 <= k < s.len() ==> entry_le(s[k], x),
    ensures
        insert_sorted(x, s) == s.push(x),
{
    lemma_insert_sorted_at(x, s, s.len() as int);
    assert(s.take(s.len() as int) =~= s);
    assert(s.skip(s.len() as int) =~= Seq::<WorktreeConfig>::empty());
    assert(s.take(s.len() as int) + seq![x] + s.skip(s.len() as int) =~= s.push(x));
}

/// The sort's result is sorted.
pub proof fn lemma_sort_entries_sorted(s: Seq<WorktreeConfig>)
    ensures
        sorted_ci(sort_entries(s)),
    decreases s.len(),
{
    if s.len() > 0 {
        lemma_sort_entries_sorted(s.drop_last());
        let t = sort_entries(s.drop_last());
        let x = s.last();
        let p = lemma_insert_pos(x, t);
        lemma_insert_sorted_at(x, t, p);
        lemma_insert_sorted_sorted(x, t, p);
    }
}

/// Every run has a first position whose entry exceeds a given one, or none
/// does.
proof fn lemma_insert_pos(x: WorktreeConfig, s: Seq<WorktreeConfig>) -> (p: int)
    ensures
        0 <= p <= s.len(),
        forall|k: int| 0 <= k < p ==> entry_le(s[k], x),
        p < s.len() ==> !entry_le(s[p], x),
    decreases s.len(),
{
    if s.len() == 0 || !entry_le(s[0], x) {
        0
    } else {
        let q = lemma_insert_pos(x, s.skip(1));
        let p = q + 1;
        assert forall|k: int| 0 <= k < p implies entry_le(s[k], x) by {
            if k > 0 {
                assert(s.skip(1)[k - 1] == s[k]);
            }
        }
        assert(p < s.len() ==> s.skip(1)[p - 1] == s[p]);
        p
    }
}

/// The sort permutes the entries: a listing holds exactly the registry's
/// entries, counted with multiplicity.
pub proof fn lemma_sort_entries_permutes(s: Seq<WorktreeConfig>)
    ensures
        sort_entries(s).to_multiset() == s.to_multiset(),
    decreases s.len(),
{
    broadcast use vstd::seq_lib::lemma_multiset_commutative;
    broadcast use vstd::multiset::group_multiset_axioms;

    if s.len() > 0 {
        lemma_sort_entries_permutes(s.drop_last());
        let t = sort_entries(s.drop_last());
        let x = s.last();
        let p = lemma_insert_pos(x, t);
        lemma_insert_sorted_at(x, t, p);
        let front = t.take(p);
        let back = t.skip(p);
        assert((front + seq![x] + back).to_multiset() =~= (front + seq![x]).to_multiset().add(
            back.to_multiset(),
        ));
        assert((front + seq![x]).to_multiset() =~= front.to_multiset().add(
            seq![x].to_multiset(),
        ));
        assert(front + back =~= t);
        assert(t.to_multiset() =~= front.to_multiset().add(back.to_multiset()));
        seq![x].to_multiset_ensures();
        Seq::<WorktreeConfig>::empty().to_multiset_ensures();
        assert(seq![x] =~= Seq::<WorktreeConfig>::empty().push(x));
        assert(seq![x].to_multiset() =~= vstd::multiset::Multiset::<WorktreeConfig>::empty().insert(x));
        s.drop_last().to_multiset_ensures();
        assert(s.drop_last().push(x) =~= s);
        assert(s.to_multiset() =~= s.drop_last().to_multiset().insert(x));
        assert(sort_entries(s).to_multiset() =~= s.to_multiset());
    }
}

/// Sorting a sorted run changes nothing; in particular the sort is
/// idempotent.
pub proof fn lemma_sort_entries_of_sorted(s: Seq<WorktreeConfig>)
    requires
        sorted_ci(s),
    ensures
        sort_entries(s) == s,
    decreases s.len(),
{
    if s.len() > 0 {
        assert(sorted_ci(s.drop_last())) by {
            assert(forall|k: int| 0 <= k < s.drop_last().len() ==> s.drop_last()[k] == s[k]);
        }
        lemma_sort_entries_of_sorted(s.drop_last());
        assert(forall|k: int| 0 <= k < s.drop_last().len() ==> entry_le(
            s.drop_last()[k],
            s.last(),
        ));
        lemma_insert_sorted_append(s.last(), s.drop_last());
        assert(s.drop_last().push(s.last()) =~= s);
    }
}

/// Sorting is idempotent: a second sort of any listing is the listing
/// itself.
pub proof fn lemma_sort_entries_idempotent(s: Seq<WorktreeConfig>)
    ensures
        sort_entries(sort_entries(s)) == sort_entries(s),
{
    lemma_sort_entries_sorted(s);
    lemma_sort_entries_of_sorted(sort_entries(s));
}

/// Two entries name the same workspace when both the repository path and the
/// workspace name agree.
pub open spec fn same_pair(a: WorktreeConfig, b: WorktreeConfig) -> bool {
    a.spec_repo_path() == b.spec_repo_path() && a.spec_worktree_name() == b.spec_worktree_name()
}

/// Whether some entry of the run already names this workspace.
pub open spec fn has_pair(s: Seq<WorktreeConfig>, wt: WorktreeConfig) -> bool {
    exists|i: int| 0 <= i < s.len() && same_pair(s[i], wt)
}

/// An identifier designates an entry when it equals either its repository
/// path or its workspace name.
pub open spec fn matches_identifier(wt: WorktreeConfig, id: Seq<char>) -> bool {
    wt.spec_repo_path() == id || wt.spec_worktree_name() == id
}

/// `post` is `pre` with exactly the first entry the identifier designates
/// removed.
pub open spec fn removed_first_match(
    pre: Seq<WorktreeConfig>,
    post: Seq<WorktreeConfig>,
    id: Seq<char>,
) -> bool {
    exists|i: int|
        {
            &&& 0 <= i < pre.len()
            &&& matches_identifier(pre[i], id)
            &&& forall|k: int| 0 <= k < i ==> !matches_identifier(pre[k], id)
            &&& post == pre.remove(i)
        }
}

/// `post` is `pre` with one entry of this workspace name appended.
pub open spec fn added_entry_named(
    pre: Seq<WorktreeConfig>,
    post: Seq<WorktreeConfig>,
    name: Seq<char>,
) -> bool {
    exists|e: WorktreeConfig| post == pre.push(e) && e.spec_worktree_name() == name
}

/// The registry of known workspaces, in insertion order.
#[derive(Debug)]
pub struct Config {
    worktrees: Vec<WorktreeConfig>,
}

/// Persists the registry; implemented outside the library, which never
/// performs the write itself.
pub trait ConfigWriter {
    fn write(&self, cfg: &Config) -> crate::Result<()>;
}

impl Config {
    /// The entries, in insertion order.
    pub closed spec fn entries(&self) -> Seq<WorktreeConfig> {
        self.worktrees@
    }

    /// The registry invariant: no two entries name the same workspace.
    pub open spec fn wf(&self) -> bool {
        forall|i: int, j: int|
            0 <= i < j < self.entries().len() ==> !same_pair(self.entries()[i], self.entries()[j])
    }

    pub fn new() -> (r: Self)
        ensures
            r.entries().len() == 0,
            r.wf(),
    {
        Config { worktrees: Vec::new() }
    }

    /// Registers a workspace; refused when an entry with the same repository
    /// path and name already exists.
    pub fn add_worktree(&mut self, wt: WorktreeConfig) -> (r: Result<()>)
        ensures
            has_pair(old(self).entries(), wt) ==> r == Err::<(), RedwoodError>(
                RedwoodError::WorkTreeConfigAlreadyExists,
            ) && final(self).entries() == old(self).entries(),
            !has_pair(old(self).entries(), wt) ==> r == Ok::<(), RedwoodError>(())
                && final(self).entries() == old(self).entries().push(wt),
            old(self).wf() ==> final(self).wf(),
    {
        let n = self.worktrees.len();
        let mut i: usize = 0;
        while i < n
            invariant
                i <= n,
                n == self.entries().len(),
                forall|k: int| 0 <= k < i ==> !same_pair(self.entries()[k], wt),
            decreases n - i,
        {
            let cur = &self.worktrees[i];
            if str_eq(cur.repo_path.as_str(), wt.repo_path.as_str()) && str_eq(
                cur.worktree_name.as_str(),
                wt.worktree_name.as_str(),
            ) {
                return Err(RedwoodError::WorkTreeConfigAlreadyExists);
            }
            i += 1;
        }
        self.worktrees.push(wt);
        proof {
            let s = final(self).entries();
            assert forall|i: int, j: int|
                0 <= i < j < s.len() && old(self).wf() implies !same_pair(s[i], s[j]) by {
                if j < s.len() - 1 {
                    assert(s[i] == old(self).entries()[i]);
                    assert(s[j] == old(self).entries()[j]);
                } else {
                    assert(s[j] == wt);
                    assert(s[i] == old(self).entries()[i]);
                }
            }
        }
        Ok(())
    }

    /// Looks an identifier up against repository paths and workspace names,
    /// first match in insertion order.
    pub fn find(&self, identifier: &str) -> (r: Option<(usize, &WorktreeConfig)>)
        ensures
            match r {
                Some((i, wt)) => {
                    &&& 0 <= i < self.entries().len()
                    &&& *wt == self.entries()[i as int]
                    &&& matches_identifier(self.entries()[i as int], identifier@)
                    &&& forall|k: int|
                        0 <= k < i ==> !matches_identifier(self.entries()[k], identifier@)
                },
                None => forall|k: int|
                    0 <= k < self.entries().len() ==> !matches_identifier(
                        self.entries()[k],
                        identifier@,
                    ),
            },
    {
        let n = self.worktrees.len();
        let mut i: usize = 0;
        while i < n
            invariant
                i <= n,
                n == self.entries().len(),
                forall|k: int| 0 <= k < i ==> !matches_identifier(self.entries()[k], identifier@),
            decreases n - i,
        {
            let cur = &self.worktrees[i];
            if str_eq(identifier, cur.repo_path.as_str()) || str_eq(
                identifier,
                cur.worktree_name.as_str(),
            ) {
                return Some((i, cur));
            }
            i += 1;
        }
        None
    }

    /// Unregisters the first workspace the identifier designates; fails when
    /// none does, and then leaves the registry unchanged.
    pub fn remove_worktree(&mut self, worktree_name: &str) -> (r: Result<()>)
        ensures
            (forall|k: int|
                0 <= k < old(self).entries().len() ==> !matches_identifier(
                    old(self).entries()[k],
                    worktree_name@,
                )) ==> {
                &&& r matches Err(e)
                &&& e matches RedwoodError::WorkTreeConfigNotFound { worktree_name: n } && n@
                    == worktree_name@
                &&& final(self).entries() == old(self).entries()
            },
            (exists|k: int|
                0 <= k < old(self).entries().len() && matches_identifier(
                    old(self).entries()[k],
                    worktree_name@,
                )) ==> {
                &&& r == Ok::<(), RedwoodError>(())
                &&& removed_first_match(old(self).entries(), final(self).entries(), worktree_name@)
            },
            old(self).wf() ==> final(self).wf(),
    {
        let found = match self.find(worktree_name) {
            Some((index, _)) => index,
            None => {
                return Err(
                    RedwoodError::WorkTreeConfigNotFound {
                        worktree_name: worktree_name.to_owned(),
                    },
                );
            },
        };
        self.worktrees.remove(found);
        proof {
            let s = final(self).entries();
            let o = old(self).entries();
            assert forall|i: int, j: int|
                0 <= i < j < s.len() && old(self).wf() implies !same_pair(s[i], s[j]) by {
                let oi = if i < found {
                    i
                } else {
                    i + 1
                };
                let oj = if j < found {
                    j
                } else {
                    j + 1
                };
                assert(s[i] == o[oi]);
                assert(s[j] == o[oj]);
            }
        }
        Ok(())
    }

    /// The entries in insertion order.
    pub fn worktrees(&self) -> (r: &Vec<WorktreeConfig>)
        ensures
            r@ == self.entries(),
    {
        &self.worktrees
    }

    /// The entries ordered by case-insensitive repository path; entries with
    /// equal keys keep their insertion order.
    pub fn list(&self) -> (r: Vec<WorktreeConfig>)
        ensures
            r@ == sort_entries(self.entries()),
            sorted_ci(r@),
            r@.to_multiset() == self.entries().to_multiset(),
    {
        let n = self.worktrees.len();
        let mut out: Vec<WorktreeConfig> = Vec::new();
        let mut k: usize = 0;
        proof {
            assert(self.entries().take(0) =~= Seq::<WorktreeConfig>::empty());
        }
        while k < n
            invariant
                k <= n,
                n == self.entries().len(),
                out@ == sort_entries(self.entries().take(k as int)),
            decreases n - k,
        {
            let x = self.worktrees[k].clone();
            let mut p: usize = 0;
            while p < out.len()
                invariant
                    p <= out.len(),
                    forall|t: int| 0 <= t < p ==> entry_le(out@[t], x),
                ensures
                    p <= out.len(),
                    forall|t: int| 0 <= t < p ==> entry_le(out@[t], x),
                    p < out.len() ==> !entry_le(out@[p as int], x),
                decreases out.len() - p,
            {
                if ci_le_exec(out[p].repo_path.as_str(), x.repo_path.as_str()) {
                    p += 1;
                } else {
                    break ;
                }
            }
            proof {
                lemma_insert_sorted_at(x, out@, p as int);
                let pre = self.entries().take(k as int);
                let post = self.entries().take(k as int + 1);
                assert(post.drop_last() =~= pre);
                assert(post.last() == self.entries()[k as int]);
            }
            out.insert(p, x);
            proof {
                assert(out@ =~= sort_entries(self.entries().take(k as int)).take(
                    p as int,
                ) + seq![x] + sort_entries(self.entries().take(k as int)).skip(p as int));
            }
            k += 1;
        }
        proof {
            assert(self.entries().take(n as int) =~= self.entries());
            lemma_sort_entries_sorted(self.entries());
            lemma_sort_entries_permutes(self.entries());
        }
        out
    }
}

/// No two distinct entries of a well-formed registry name the same
/// workspace, whichever way round they are compared.
pub proof fn lemma_registry_pairs_distinct(cfg: Config, i: int, j: int)
    requires
        cfg.wf(),
        0 <= i < cfg.entries().len(),
        0 <= j < cfg.entries().len(),
        i != j,
    ensures
        !same_pair(cfg.entries()[i], cfg.entries()[j]),
{
    if j < i {
        assert(!same_pair(cfg.entries()[j], cfg.entries()[i]));
    }
}

/// Removing an entry from a well-formed registry leaves no other entry with
/// its pair, so registering the same workspace again succeeds at once.
pub proof fn lemma_remove_then_add(cfg: Config, i: int)
    requires
        cfg.wf(),
        0 <= i < cfg.entries().len(),
    ensures
        !has_pair(cfg.entries().remove(i), cfg.entries()[i]),
{
    let s = cfg.entries();
    assert forall|k: int| 0 <= k < s.remove(i).len() implies !same_pair(
        s.remove(i)[k],
        s[i],
    ) by {
        let m = if k < i {
            k
        } else {
            k + 1
        };
        assert(s.remove(i)[k] == s[m]);
        lemma_registry_pairs_distinct(cfg, m, i);
    }
}

/// The directory that holds the registry file, resolved from the two
/// configuration variables the caller read from its environment.
fn get_config_dir(xdg_config_home: Option<&str>, home: Option<&str>) -> (r: Result<String>)
    ensures
        match (xdg_config_home, home) {
            (Some(x), _) => r matches Ok(p) && p@ == spec_join(x@, "redwood"@),
            (None, Some(h)) => r matches Ok(p) && p@ == spec_join(
                spec_join(h@, ".config"@),
                "redwood"@,
            ),
            (None, None) => r == Err::<String, RedwoodError>(RedwoodError::ConfigPathUnresolvable),
        },
{
    match xdg_config_home {
        Some(x) => Ok(join_path(x, "redwood")),
        None => match home {
            Some(h) => {
                let base = join_path(h, ".config");
                Ok(join_path(base.as_str(), "redwood"))
            },
            None => Err(RedwoodError::ConfigPathUnresolvable),
        },
    }
}

/// The location of the registry file: `redwood/conf.json` under the first
/// configuration directory the environment offers.
pub fn get_config_path(xdg_config_home: Option<&str>, home: Option<&str>) -> (r: Result<String>)
    ensures
        match (xdg_config_home, home) {
            (Some(x), _) => r matches Ok(p) && p@ == spec_join(
                spec_join(x@, "redwood"@),
                "conf.json"@,
            ),
            (None, Some(h)) => r matches Ok(p) && p@ == spec_join(
                spec_join(spec_join(h@, ".config"@), "redwood"@),
                "conf.json"@,
            ),
            (None, None) => r == Err::<String, RedwoodError>(RedwoodError::ConfigPathUnresolvable),
        },
{
    let dir = get_config_dir(xdg_config_home, home)?;
    Ok(join_path(dir.as_str(), "conf.json"))
}

} // verus!
