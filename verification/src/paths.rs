use vstd::prelude::*;

verus! {

/// A path is absolute when it begins with a separator.
pub open spec fn is_abs(s: Seq<char>) -> bool {
    s.len() > 0 && s[0] == '/'
}

/// The maximal runs of non-separator characters of a sequence, in order.
/// Empty runs (leading, trailing or doubled separators) contribute nothing.
pub open spec fn split_sep(s: Seq<char>, sep: char) -> Seq<Seq<char>>
    decreases s.len(),
{
    if s.len() == 0 {
        Seq::empty()
    } else if s[0] == sep {
        split_sep(s.skip(1), sep)
    } else if s.len() == 1 || s[1] == sep {
        seq![seq![s[0]]] + split_sep(s.skip(1), sep)
    } else {
        let rest = split_sep(s.skip(1), sep);
        seq![seq![s[0]] + rest[0]] + rest.skip(1)
    }
}

/// The components of a path, which mirrors how the platform's path type
/// walks one.
pub open spec fn components(s: Seq<char>) -> Seq<Seq<char>> {
    split_sep(s, '/')
}

/// A sequence that begins with a non-separator character has at least one
/// run.
pub proof fn lemma_split_nonempty(s: Seq<char>, sep: char)
    requires
        s.len() > 0,
        s[0] != sep,
    ensures
        split_sep(s, sep).len() > 0,
{
}

/// Splitting at an explicit separator splits the run list.
pub proof fn lemma_split_sep_concat(a: Seq<char>, b: Seq<char>, sep: char)
    ensures
        split_sep(a + seq![sep] + b, sep) == split_sep(a, sep) + split_sep(b, sep),
    decreases a.len(),
{
    let s = a + seq![sep] + b;
    if a.len() == 0 {
        assert(s.skip(1) =~= b);
        assert(split_sep(a, sep) + split_sep(b, sep) =~= split_sep(b, sep));
    } else if a[0] == sep {
        assert(s.skip(1) =~= a.skip(1) + seq![sep] + b);
        lemma_split_sep_concat(a.skip(1), b, sep);
    } else if a.len() == 1 {
        assert(s.len() == 2 + b.len());
        assert(s[0] == a[0]);
        assert(s[1] == sep);
        assert(split_sep(s, sep) == seq![seq![s[0]]] + split_sep(s.skip(1), sep));
        let t = s.skip(1);
        assert(t[0] == sep);
        assert(split_sep(t, sep) == split_sep(t.skip(1), sep));
        assert(t.skip(1) =~= b);
        assert(a.skip(1).len() == 0);
        assert(split_sep(a.skip(1), sep).len() == 0);
        assert(split_sep(a, sep) =~= seq![seq![a[0]]]);
        assert(split_sep(s, sep) =~= split_sep(a, sep) + split_sep(b, sep));
    } else if a[1] == sep {
        assert(s.skip(1) =~= a.skip(1) + seq![sep] + b);
        lemma_split_sep_concat(a.skip(1), b, sep);
        assert(split_sep(s, sep) =~= seq![seq![s[0]]] + (split_sep(a.skip(1), sep) + split_sep(b, sep)));
        assert(split_sep(a, sep) =~= seq![seq![a[0]]] + split_sep(a.skip(1), sep));
        assert(split_sep(s, sep) =~= split_sep(a, sep) + split_sep(b, sep));
    } else {
        assert(s.skip(1) =~= a.skip(1) + seq![sep] + b);
        lemma_split_sep_concat(a.skip(1), b, sep);
        let ca = split_sep(a.skip(1), sep);
        lemma_split_nonempty(a.skip(1), sep);
        let rest = split_sep(s.skip(1), sep);
        assert(rest =~= ca + split_sep(b, sep));
        assert(rest[0] == ca[0]);
        assert(rest.skip(1) =~= ca.skip(1) + split_sep(b, sep));
        assert(split_sep(s, sep) =~= seq![seq![s[0]] + rest[0]] + rest.skip(1));
        assert(split_sep(a, sep) =~= seq![seq![a[0]] + ca[0]] + ca.skip(1));
        assert(split_sep(s, sep) =~= split_sep(a, sep) + split_sep(b, sep));
    }
}

/// A non-empty run without separators splits into itself alone.
pub proof fn lemma_split_single(n: Seq<char>, sep: char)
    requires
        n.len() > 0,
        forall|i: int| 0 <= i < n.len() ==> n[i] != sep,
    ensures
        split_sep(n, sep) == seq![n],
    decreases n.len(),
{
    if n.len() == 1 {
        assert(n =~= seq![n[0]]);
        assert(split_sep(n, sep) =~= seq![seq![n[0]]] + split_sep(n.skip(1), sep));
        assert(split_sep(n.skip(1), sep) =~= Seq::<Seq<char>>::empty());
        assert(split_sep(n, sep) =~= seq![n]);
    } else {
        assert(n.skip(1)[0] == n[1]);
        assert(forall|i: int| 0 <= i < n.skip(1).len() ==> n.skip(1)[i] != sep);
        lemma_split_single(n.skip(1), sep);
        let rest = split_sep(n.skip(1), sep);
        assert(rest =~= seq![n.skip(1)]);
        assert(split_sep(n, sep) =~= seq![seq![n[0]] + n.skip(1)] + rest.skip(1));
        assert(seq![n[0]] + n.skip(1) =~= n);
        assert(rest.skip(1) =~= Seq::<Seq<char>>::empty());
        assert(split_sep(n, sep) =~= seq![n]);
    }
}

/// Every run is non-empty and free of the separator.
pub proof fn lemma_split_wf(s: Seq<char>, sep: char)
    ensures
        forall|k: int|
            0 <= k < split_sep(s, sep).len() ==> (#[trigger] split_sep(s, sep)[k]).len() > 0,
        forall|k: int, t: int|
            0 <= k < split_sep(s, sep).len() && 0 <= t < split_sep(s, sep)[k].len()
                ==> #[trigger] split_sep(s, sep)[k][t] != sep,
    decreases s.len(),
{
    if s.len() == 0 {
    } else if s[0] == sep {
        lemma_split_wf(s.skip(1), sep);
    } else if s.len() == 1 || s[1] == sep {
        lemma_split_wf(s.skip(1), sep);
        assert(forall|k: int|
            1 <= k < split_sep(s, sep).len() ==> split_sep(s, sep)[k] == split_sep(
                s.skip(1),
                sep,
            )[k - 1]);
        assert(split_sep(s, sep)[0] == seq![s[0]]);
    } else {
        lemma_split_wf(s.skip(1), sep);
        let rest = split_sep(s.skip(1), sep);
        lemma_split_nonempty(s.skip(1), sep);
        assert(split_sep(s, sep)[0] == seq![s[0]] + rest[0]);
        assert(forall|k: int| 1 <= k < split_sep(s, sep).len() ==> split_sep(s, sep)[k] == rest[k]);
    }
}

/// Components joined by single separators, without a leading one.
pub open spec fn join_rel(cs: Seq<Seq<char>>) -> Seq<char>
    decreases cs.len(),
{
    if cs.len() == 0 {
        Seq::empty()
    } else if cs.len() == 1 {
        cs[0]
    } else {
        cs[0] + seq!['/'] + join_rel(cs.skip(1))
    }
}

/// Components joined by single separators, with a leading one when the path
/// is absolute.
pub open spec fn join_abs(abs: bool, cs: Seq<Seq<char>>) -> Seq<char> {
    if abs {
        seq!['/'] + join_rel(cs)
    } else {
        join_rel(cs)
    }
}

pub proof fn lemma_join_rel_push(cs: Seq<Seq<char>>, c: Seq<char>)
    ensures
        join_rel(cs.push(c)) == if cs.len() == 0 {
            c
        } else {
            join_rel(cs) + seq!['/'] + c
        },
    decreases cs.len(),
{
    if cs.len() == 0 {
        assert(cs.push(c)[0] == c);
        assert(join_rel(cs.push(c)) == c);
    } else if cs.len() == 1 {
        assert(cs.push(c)[0] == cs[0]);
        assert(cs.push(c).skip(1) =~= seq![c]);
        assert(join_rel(seq![c]) == c);
        assert(join_rel(cs.push(c)) =~= cs[0] + seq!['/'] + c);
        assert(join_rel(cs) == cs[0]);
    } else {
        assert(cs.push(c).skip(1) =~= cs.skip(1).push(c));
        lemma_join_rel_push(cs.skip(1), c);
        assert(cs.push(c)[0] == cs[0]);
        assert(join_rel(cs.push(c)) =~= cs[0] + seq!['/'] + (join_rel(cs.skip(1)) + seq![
            '/',
        ] + c));
        assert(join_rel(cs) =~= cs[0] + seq!['/'] + join_rel(cs.skip(1)));
        assert(join_rel(cs.push(c)) =~= join_rel(cs) + seq!['/'] + c);
    }
}

/// A join of non-empty components ends with the last component's last
/// character.
pub proof fn lemma_join_rel_last(cs: Seq<Seq<char>>)
    requires
        cs.len() > 0,
        forall|k: int| 0 <= k < cs.len() ==> (#[trigger] cs[k]).len() > 0,
    ensures
        join_rel(cs).len() > 0,
        join_rel(cs).last() == cs.last().last(),
    decreases cs.len(),
{
    if cs.len() > 1 {
        lemma_join_rel_last(cs.skip(1));
        assert(cs.skip(1)[cs.len() - 2] == cs[cs.len() - 1]);
        assert(join_rel(cs) == cs[0] + seq!['/'] + join_rel(cs.skip(1)));
        assert(join_rel(cs).last() == join_rel(cs.skip(1)).last());
    }
}

/// The path with its last two components removed and the remainder rebuilt
/// with single separators: the correction that recovers a repository root
/// from the metadata directory of one of its linked working trees.
pub open spec fn strip_last_two(s: Seq<char>) -> Seq<char> {
    let cs = components(s);
    let keep = if cs.len() >= 2 {
        cs.len() - 2
    } else {
        0
    };
    join_abs(is_abs(s), cs.take(keep as int))
}

/// A path is in normal form when rebuilding it from its own components
/// reproduces it exactly: no doubled, trailing or superfluous separators.
pub open spec fn normal_form(s: Seq<char>) -> bool {
    s == join_abs(is_abs(s), components(s))
}

/// String equality by contents.
pub fn str_eq(a: &str, b: &str) -> (r: bool)
    ensures
        r == (a@ == b@),
{
    let x = a.to_owned();
    let y = b.to_owned();
    x == y
}

pub fn path_is_abs(s: &str) -> (r: bool)
    ensures
        r == is_abs(s@),
{
    s.unicode_len() > 0 && s.get_char(0) == '/'
}

/// Splits a sequence of characters at a separator, dropping empty runs.
pub fn split_on(s: &str, sep: char) -> (r: Vec<String>)
    ensures
        r.deep_view() == split_sep(s@, sep),
{
    let n = s.unicode_len();
    let mut runs: Vec<String> = Vec::new();
    let mut i: usize = 0;
    proof {
        assert(s@.skip(0) =~= s@);
        assert(runs.deep_view() =~= Seq::<Seq<char>>::empty());
        assert(runs.deep_view() + split_sep(s@, sep) =~= split_sep(s@, sep));
    }
    while i < n
        invariant
            i <= n,
            n == s@.len(),
            split_sep(s@, sep) == runs.deep_view() + split_sep(s@.skip(i as int), sep),
        decreases n - i,
    {
        let c = s.get_char(i);
        if c == sep {
            proof {
                assert(s@.skip(i as int).skip(1) =~= s@.skip(i as int + 1));
            }
            i += 1;
        } else {
            let start = i;
            let mut j = i + 1;
            while j < n
                invariant
                    start < j <= n,
                    n == s@.len(),
                    forall|k: int| start <= k < j ==> s@[k] != sep,
                ensures
                    start < j <= n,
                    forall|k: int| start <= k < j ==> s@[k] != sep,
                    j == n || s@[j as int] == sep,
                decreases n - j,
            {
                if s.get_char(j) == sep {
                    break ;
                }
                j += 1;
            }
            let seg = s.substring_char(start, j).to_owned();
            proof {
                let segv = s@.subrange(start as int, j as int);
                assert(segv.len() > 0);
                assert(forall|k: int| 0 <= k < segv.len() ==> segv[k] != sep);
                lemma_split_single(segv, sep);
                if j == n {
                    assert(s@.skip(start as int) =~= segv);
                    assert(split_sep(s@.skip(start as int), sep) == seq![segv]);
                    assert(split_sep(s@.skip(j as int), sep) =~= Seq::<Seq<char>>::empty());
                } else {
                    assert(s@[j as int] == sep);
                    assert(s@.skip(start as int) =~= segv + seq![sep] + s@.skip(j as int + 1));
                    lemma_split_sep_concat(segv, s@.skip(j as int + 1), sep);
                    assert(s@.skip(j as int)[0] == sep);
                    assert(s@.skip(j as int).skip(1) =~= s@.skip(j as int + 1));
                    assert(split_sep(s@.skip(j as int), sep) == split_sep(
                        s@.skip(j as int + 1),
                        sep,
                    ));
                }
                assert(split_sep(s@.skip(start as int), sep) =~= seq![segv] + split_sep(
                    s@.skip(j as int),
                    sep,
                ));
            }
            let ghost old_runs = runs.deep_view();
            runs.push(seg);
            proof {
                assert(runs.deep_view() =~= old_runs.push(s@.subrange(start as int, j as int)));
                assert(runs.deep_view() + split_sep(s@.skip(j as int), sep) =~= split_sep(
                    s@,
                    sep,
                ));
            }
            i = j;
        }
    }
    proof {
        assert(s@.skip(n as int) =~= Seq::<char>::empty());
        assert(split_sep(s@.skip(n as int), sep).len() == 0);
        assert(runs.deep_view() =~= split_sep(s@, sep));
    }
    runs
}

/// Splits a path into its components.
pub fn split_components(s: &str) -> (r: Vec<String>)
    ensures
        r.deep_view() == components(s@),
{
    split_on(s, '/')
}

/// Joins components with single separators, with a leading separator when
/// `abs` is set.
pub fn join_components(abs: bool, cs: &Vec<String>) -> (r: String)
    ensures
        r@ == join_abs(abs, cs.deep_view()),
{
    let mut out = if abs {
        String::from_str("/")
    } else {
        String::new()
    };
    proof {
        reveal_strlit("/");
        assert(out@ =~= if abs {
            seq!['/']
        } else {
            Seq::<char>::empty()
        });
    }
    let mut k: usize = 0;
    while k < cs.len()
        invariant
            k <= cs.len(),
            out@ == (if abs {
                seq!['/']
            } else {
                Seq::<char>::empty()
            }) + join_rel(cs.deep_view().take(k as int)),
        decreases cs.len() - k,
    {
        if k > 0 {
            let sep = String::from_str("/");
            proof {
                reveal_strlit("/");
            }
            out.append(sep.as_str());
        }
        out.append(cs[k].as_str());
        proof {
            reveal_strlit("/");
            let prior = cs.deep_view().take(k as int);
            assert(cs.deep_view().take(k as int + 1) =~= prior.push(cs.deep_view()[k as int]));
            lemma_join_rel_push(prior, cs.deep_view()[k as int]);
            assert(out@ =~= (if abs {
                seq!['/']
            } else {
                Seq::<char>::empty()
            }) + join_rel(cs.deep_view().take(k as int + 1)));
        }
        k += 1;
    }
    proof {
        assert(cs.deep_view().take(cs.deep_view().len() as int) =~= cs.deep_view());
    }
    out
}

/// Removes the last two components of a path and rebuilds the remainder.
pub fn strip_two_components(s: &str) -> (r: String)
    ensures
        r@ == strip_last_two(s@),
{
    let abs = path_is_abs(s);
    let mut cs = split_components(s);
    let keep: usize = if cs.len() >= 2 {
        cs.len() - 2
    } else {
        0
    };
    let ghost full = cs.deep_view();
    cs.truncate(keep);
    proof {
        assert(cs.deep_view() =~= full.take(keep as int));
    }
    join_components(abs, &cs)
}

/// The last component of a path, if it has any.
pub fn last_component(s: &str) -> (r: Option<String>)
    ensures
        match r {
            Some(c) => components(s@).len() > 0 && c@ == components(s@).last(),
            None => components(s@).len() == 0,
        },
{
    let cs = split_components(s);
    if cs.len() == 0 {
        None
    } else {
        Some(cs[cs.len() - 1].clone())
    }
}

/// Appending one path below another, as the platform's path type does: an
/// absolute addition replaces the base, and exactly one separator stands
/// between a non-empty base and the addition.
pub open spec fn spec_join(a: Seq<char>, b: Seq<char>) -> Seq<char> {
    if is_abs(b) {
        b
    } else if a.len() == 0 {
        b
    } else if a.last() == '/' {
        a + b
    } else {
        a + seq!['/'] + b
    }
}

pub fn join_path(a: &str, b: &str) -> (r: String)
    ensures
        r@ == spec_join(a@, b@),
{
    proof {
        reveal_strlit("/");
    }
    if path_is_abs(b) {
        b.to_owned()
    } else if a.unicode_len() == 0 {
        b.to_owned()
    } else if a.get_char(a.unicode_len() - 1) == '/' {
        let mut out = a.to_owned();
        out.append(b);
        proof {
            assert(out@ =~= spec_join(a@, b@));
        }
        out
    } else {
        let mut out = a.to_owned();
        out.append("/");
        out.append(b);
        proof {
            assert(out@ =~= spec_join(a@, b@));
        }
        out
    }
}

/// Whether a file name marks a hidden entry.
pub open spec fn spec_hidden(name: Seq<char>) -> bool {
    name.len() > 0 && name[0] == '.'
}

pub fn is_hidden_name(name: &str) -> (r: bool)
    ensures
        r == spec_hidden(name@),
{
    name.unicode_len() > 0 && name.get_char(0) == '.'
}

} // verus!
