//! Small keyed collections held as vectors: a string-to-string map (later
//! entries win) and a string set.
use vstd::prelude::*;
use crate::model::views;

verus! {

/// The map a list of pairs stands for: a later pair overrides an earlier one.
pub open spec fn pairs_map(s: Seq<(String, String)>) -> Map<Seq<char>, Seq<char>>
    decreases s.len(),
{
    if s.len() == 0 {
        Map::empty()
    } else {
        pairs_map(s.drop_last()).insert(s.last().0@, s.last().1@)
    }
}

pub open spec fn key_differs(k: Seq<char>) -> spec_fn((String, String)) -> bool {
    |e: (String, String)| e.0@ != k
}

proof fn lemma_pairs_map_without(s: Seq<(String, String)>, k: Seq<char>)
    ensures
        pairs_map(s.filter(key_differs(k))) == pairs_map(s).remove(k),
    decreases s.len(),
{
    reveal(Seq::filter);
    if s.len() == 0 {
        assert(pairs_map(s).remove(k) =~= Map::empty());
    } else {
        lemma_pairs_map_without(s.drop_last(), k);
        if s.last().0@ == k {
            assert(pairs_map(s).remove(k) =~= pairs_map(s.drop_last()).remove(k));
        } else {
            let f = s.filter(key_differs(k));
            assert(key_differs(k)(s.last()));
            assert(f == s.drop_last().filter(key_differs(k)).push(s.last()));
            assert(f.drop_last() =~= s.drop_last().filter(key_differs(k)));
            assert(f.last() == s.last());
            assert(pairs_map(s.filter(key_differs(k))) =~= pairs_map(s.drop_last()).remove(
                k,
            ).insert(s.last().0@, s.last().1@));
            assert(pairs_map(s).remove(k) =~= pairs_map(s.drop_last()).remove(k).insert(
                s.last().0@,
                s.last().1@,
            ));
        }
    }
}

/// Whether the map holds key `k`.
pub fn map_contains(s: &Vec<(String, String)>, k: &String) -> (r: bool)
    ensures
        r == pairs_map(s@).contains_key(k@),
{
    let mut i: usize = 0;
    assert(s@.take(0) =~= Seq::<(String, String)>::empty());
    while i < s.len()
        invariant
            i <= s@.len(),
            !pairs_map(s@.take(i as int)).contains_key(k@),
        decreases s@.len() - i,
    {
        assert(s@.take(i + 1).drop_last() =~= s@.take(i as int));
        if s[i].0 == *k {
            proof {
                lemma_pairs_map_prefix_key(s@, i + 1, k@);
            }
            return true;
        }
        i = i + 1;
    }
    assert(s@.take(i as int) =~= s@);
    false
}

proof fn lemma_pairs_map_prefix_key(s: Seq<(String, String)>, n: int, k: Seq<char>)
    requires
        0 <= n <= s.len(),
        pairs_map(s.take(n)).contains_key(k),
    ensures
        pairs_map(s).contains_key(k),
    decreases s.len() - n,
{
    if n < s.len() {
        assert(s.take(n + 1).drop_last() =~= s.take(n));
        lemma_pairs_map_prefix_key(s, n + 1, k);
    } else {
        assert(s.take(n) =~= s);
    }
}

/// Sets key `k` to `v`.
pub fn map_insert(s: &mut Vec<(String, String)>, k: String, v: String)
    ensures
        pairs_map(final(s)@) == pairs_map(old(s)@).insert(k@, v@),
{
    let ghost p = key_differs(k@);
    let mut kept: Vec<(String, String)> = Vec::new();
    let mut i: usize = 0;
    assert(old(s)@.take(0).filter(p) =~= Seq::<(String, String)>::empty()) by {
        reveal(Seq::filter);
    }
    while i < s.len()
        invariant
            s@ == old(s)@,
            p == key_differs(k@),
            i <= s@.len(),
            kept@ == s@.take(i as int).filter(p),
        decreases s@.len() - i,
    {
        assert(s@.take(i + 1).drop_last() =~= s@.take(i as int)) by {
            reveal(Seq::filter);
        }
        proof {
            reveal(Seq::filter);
        }
        if !(s[i].0 == k) {
            let e = (s[i].0.clone(), s[i].1.clone());
            kept.push(e);
        }
        i = i + 1;
    }
    assert(s@.take(i as int) =~= s@);
    proof {
        lemma_pairs_map_without(old(s)@, k@);
    }
    let ghost before = kept@;
    kept.push((k, v));
    assert(kept@.drop_last() =~= before);
    assert(pairs_map(kept@) =~= pairs_map(old(s)@).insert(k@, v@));
    *s = kept;
}

/// Sets key `k` to `v` unless the map already holds `k`.
pub fn map_insert_if_absent(s: &mut Vec<(String, String)>, k: String, v: String)
    ensures
        pairs_map(final(s)@) == (if pairs_map(old(s)@).contains_key(k@) {
            pairs_map(old(s)@)
        } else {
            pairs_map(old(s)@).insert(k@, v@)
        }),
{
    if !map_contains(s, &k) {
        let ghost before = s@;
        s.push((k, v));
        assert(s@.drop_last() =~= before);
    }
}

/// The set a list of strings stands for.
pub open spec fn string_set(s: Seq<String>) -> Set<Seq<char>> {
    views(s).to_set()
}

/// Whether the set holds `x`.
pub fn set_contains(s: &Vec<String>, x: &String) -> (r: bool)
    ensures
        r == string_set(s@).contains(x@),
{
    let ghost vs = views(s@);
    let mut i: usize = 0;
    while i < s.len()
        invariant
            i <= s@.len(),
            vs == views(s@),
            forall|t: int| 0 <= t < i ==> vs[t] != x@,
        decreases s@.len() - i,
    {
        if s[i] == *x {
            assert(vs[i as int] == x@);
            assert(vs.contains(x@));
            return true;
        }
        i = i + 1;
    }
    assert(!vs.contains(x@));
    false
}

/// Adds `x` to the set.
pub fn set_insert(s: &mut Vec<String>, x: String)
    ensures
        string_set(final(s)@) == string_set(old(s)@).insert(x@),
{
    if set_contains(s, &x) {
        assert(string_set(s@) =~= string_set(s@).insert(x@));
    } else {
        s.push(x);
        assert(views(s@) =~= views(old(s)@).push(x@));
        assert(string_set(s@) =~= string_set(old(s)@).insert(x@)) by {
            views(old(s)@).lemma_push_to_set_commute(x@);
        }
    }
}

} // verus!
