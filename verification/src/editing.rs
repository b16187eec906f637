//! Editing a character buffer addressed by UTF-8 byte offsets, as `String`
//! methods do.
use vstd::prelude::*;
use crate::text::{byte_len, char_width, is_boundary, index_at, char_index, lemma_byte_len_take_step,
    lemma_boundary_of_index, lemma_boundary_index};

verus! {

/// The character just before byte offset `pos` (`s[..pos].chars().next_back()`).
pub open spec fn char_before(s: Seq<char>, pos: int) -> Option<char> {
    let k = index_at(s, pos);
    if k > 0 {
        Some(s[k - 1])
    } else {
        None
    }
}

/// `s` with `c` inserted at byte offset `pos` (`String::insert`).
pub open spec fn inserted(s: Seq<char>, pos: int, c: char) -> Seq<char> {
    let k = index_at(s, pos);
    s.take(k).push(c) + s.skip(k)
}

/// `s` with `t` inserted at byte offset `pos` (`String::insert_str`).
pub open spec fn inserted_seq(s: Seq<char>, pos: int, t: Seq<char>) -> Seq<char> {
    let k = index_at(s, pos);
    s.take(k) + t + s.skip(k)
}

/// `s` without the character that ends at byte offset `pos`.
pub open spec fn removed_before(s: Seq<char>, pos: int) -> Seq<char> {
    let k = index_at(s, pos);
    s.take(k - 1) + s.skip(k)
}

/// The characters between byte offsets `a` and `b` (`&s[a..b]`).
pub open spec fn between(s: Seq<char>, a: int, b: int) -> Seq<char> {
    s.subrange(index_at(s, a), index_at(s, b))
}

/// `s` without the characters between byte offsets `a` and `b` (`String::drain(a..b)`).
pub open spec fn drained(s: Seq<char>, a: int, b: int) -> Seq<char> {
    s.take(index_at(s, a)) + s.skip(index_at(s, b))
}

/// The character that ends at byte offset `pos`, if any.
pub fn char_before_at(s: &Vec<char>, pos: usize) -> (r: Option<char>)
    requires
        is_boundary(s@, pos as int),
    ensures
        r == char_before(s@, pos as int),
        r matches Some(c) ==> char_width(c) <= pos,
{
    let k = char_index(s, pos).unwrap();
    if k > 0 {
        proof {
            lemma_boundary_index(s@, pos as int);
            lemma_byte_len_take_step(s@, k - 1);
        }
        Some(s[k - 1])
    } else {
        None
    }
}

/// Inserts `c` at byte offset `pos`.
pub fn insert_at(s: &mut Vec<char>, pos: usize, c: char)
    requires
        is_boundary(old(s)@, pos as int),
    ensures
        final(s)@ == inserted(old(s)@, pos as int, c),
{
    let k = char_index(s, pos).unwrap();
    s.insert(k, c);
    assert(s@ =~= old(s)@.take(k as int).push(c) + old(s)@.skip(k as int));
}

/// Inserts `t` at byte offset `pos`.
pub fn insert_seq_at(s: &mut Vec<char>, pos: usize, t: &Vec<char>)
    requires
        is_boundary(old(s)@, pos as int),
    ensures
        final(s)@ == inserted_seq(old(s)@, pos as int, t@),
{
    let k = char_index(s, pos).unwrap();
    let mut i: usize = 0;
    while i < t.len()
        invariant
            k <= old(s)@.len(),
            i <= t@.len(),
            s@ == old(s)@.take(k as int) + t@.take(i as int) + old(s)@.skip(k as int),
        decreases t@.len() - i,
    {
        let n = s.len();
        assert(k + i <= n);
        s.insert(k + i, t[i]);
        i = i + 1;
        assert(s@ =~= old(s)@.take(k as int) + t@.take(i as int) + old(s)@.skip(k as int));
    }
    assert(t@.take(i as int) =~= t@);
}

/// Removes the character that ends at byte offset `pos`.
pub fn remove_before(s: &mut Vec<char>, pos: usize)
    requires
        is_boundary(old(s)@, pos as int),
        index_at(old(s)@, pos as int) > 0,
    ensures
        final(s)@ == removed_before(old(s)@, pos as int),
{
    let k = char_index(s, pos).unwrap();
    s.remove(k - 1);
    assert(s@ =~= old(s)@.take(k - 1) + old(s)@.skip(k as int));
}

/// The characters between byte offsets `a` and `b`.
pub fn slice_between(s: &Vec<char>, a: usize, b: usize) -> (r: Vec<char>)
    requires
        is_boundary(s@, a as int),
        is_boundary(s@, b as int),
        a <= b,
    ensures
        r@ == between(s@, a as int, b as int),
{
    let ka = char_index(s, a).unwrap();
    let kb = char_index(s, b).unwrap();
    proof {
        lemma_boundary_index(s@, a as int);
        lemma_boundary_index(s@, b as int);
        if kb < ka {
            crate::text::lemma_byte_len_take_le(s@, kb as int, ka as int);
        }
    }
    let mut r: Vec<char> = Vec::new();
    let mut i = ka;
    while i < kb
        invariant
            ka <= i <= kb <= s@.len(),
            r@ == s@.subrange(ka as int, i as int),
        decreases kb - i,
    {
        r.push(s[i]);
        i = i + 1;
        assert(r@ =~= s@.subrange(ka as int, i as int));
    }
    r
}

/// Removes the characters between byte offsets `a` and `b`.
pub fn drain_between(s: &mut Vec<char>, a: usize, b: usize)
    requires
        is_boundary(old(s)@, a as int),
        is_boundary(old(s)@, b as int),
        a <= b,
    ensures
        final(s)@ == drained(old(s)@, a as int, b as int),
{
    let ka = char_index(s, a).unwrap();
    let kb = char_index(s, b).unwrap();
    proof {
        lemma_boundary_index(old(s)@, a as int);
        lemma_boundary_index(old(s)@, b as int);
        if kb < ka {
            crate::text::lemma_byte_len_take_le(old(s)@, kb as int, ka as int);
        }
    }
    let mut n = kb - ka;
    while n > 0
        invariant
            ka <= kb <= old(s)@.len(),
            n <= kb - ka,
            s@ == old(s)@.take(ka as int) + old(s)@.skip(kb - n),
        decreases n,
    {
        s.remove(ka);
        n = n - 1;
        assert(s@ =~= old(s)@.take(ka as int) + old(s)@.skip(kb - n));
    }
}

pub proof fn lemma_removed_len(s: Seq<char>, pos: int)
    requires
        is_boundary(s, pos),
        index_at(s, pos) > 0,
    ensures
        byte_len(removed_before(s, pos)) + char_width(s[index_at(s, pos) - 1]) == byte_len(s),
{
    let k = index_at(s, pos);
    lemma_boundary_index(s, pos);
    crate::text::lemma_byte_len_concat(s.take(k - 1), s.skip(k));
    crate::text::lemma_byte_len_concat(s.take(k), s.skip(k));
    lemma_byte_len_take_step(s, k - 1);
    assert(s =~= s.take(k) + s.skip(k));
}

/// Cutting out the text between two boundaries keeps the first one a boundary.
pub proof fn lemma_drained_boundary(s: Seq<char>, a: int, b: int)
    requires
        is_boundary(s, a),
        is_boundary(s, b),
        a <= b,
    ensures
        is_boundary(drained(s, a, b), a),
        index_at(drained(s, a, b), a) == index_at(s, a),
{
    let ka = index_at(s, a);
    let kb = index_at(s, b);
    lemma_boundary_index(s, a);
    lemma_boundary_index(s, b);
    if kb < ka {
        crate::text::lemma_byte_len_take_le(s, kb, ka);
    }
    let d = drained(s, a, b);
    assert(d.take(ka) =~= s.take(ka));
    lemma_boundary_of_index(d, ka);
}

/// Just past inserted text is a boundary.
pub proof fn lemma_inserted_seq_boundary(s: Seq<char>, pos: int, t: Seq<char>)
    requires
        is_boundary(s, pos),
    ensures
        is_boundary(inserted_seq(s, pos, t), pos + byte_len(t)),
{
    let k = index_at(s, pos);
    lemma_boundary_index(s, pos);
    let u = inserted_seq(s, pos, t);
    assert(u.take(k + t.len()) =~= s.take(k) + t);
    crate::text::lemma_byte_len_concat(s.take(k), t);
    lemma_boundary_of_index(u, k + t.len());
}

} // verus!
