//! Text primitives: UTF-8 widths and byte offsets over character sequences,
//! searching, and decimal numbers.
use vstd::prelude::*;
use vstd::string::*;

verus! {

/// Number of bytes of the UTF-8 encoding of `c` (what `char::len_utf8` returns).
pub open spec fn char_width(c: char) -> nat {
    if (c as u32) < 0x80 {
        1
    } else if (c as u32) < 0x800 {
        2
    } else if (c as u32) < 0x10000 {
        3
    } else {
        4
    }
}

/// Number of bytes of the UTF-8 encoding of a character sequence.
pub open spec fn byte_len(s: Seq<char>) -> nat
    decreases s.len(),
{
    if s.len() == 0 {
        0
    } else {
        byte_len(s.drop_last()) + char_width(s.last())
    }
}

/// `pos` is a byte offset at which a character of `s` starts, or the end of `s`.
pub open spec fn is_boundary(s: Seq<char>, pos: int) -> bool {
    exists|k: int| 0 <= k <= s.len() && #[trigger] byte_len(s.take(k)) == pos
}

/// The number of characters before the byte offset `pos` (meaningful when it is a boundary).
pub open spec fn index_at(s: Seq<char>, pos: int) -> int {
    choose|k: int| 0 <= k <= s.len() && #[trigger] byte_len(s.take(k)) == pos
}

/// The number of bytes of the UTF-8 encoding of `c` (`char::len_utf8`).
pub fn len_utf8(c: char) -> (n: usize)
    ensures
        n == char_width(c),
        1 <= n <= 4,
{
    let v = c as u32;
    if v < 0x80 {
        1
    } else if v < 0x800 {
        2
    } else if v < 0x10000 {
        3
    } else {
        4
    }
}

pub proof fn lemma_byte_len_concat(a: Seq<char>, b: Seq<char>)
    ensures
        byte_len(a + b) == byte_len(a) + byte_len(b),
    decreases b.len(),
{
    if b.len() == 0 {
        assert(a + b =~= a);
    } else {
        lemma_byte_len_concat(a, b.drop_last());
        assert((a + b).drop_last() =~= a + b.drop_last());
        assert((a + b).last() == b.last());
    }
}

pub proof fn lemma_byte_len_push(a: Seq<char>, c: char)
    ensures
        byte_len(a.push(c)) == byte_len(a) + char_width(c),
{
    assert(a.push(c).drop_last() =~= a);
}

pub proof fn lemma_byte_len_take_step(s: Seq<char>, k: int)
    requires
        0 <= k < s.len(),
    ensures
        byte_len(s.take(k + 1)) == byte_len(s.take(k)) + char_width(s[k]),
{
    assert(s.take(k + 1) =~= s.take(k).push(s[k]));
    lemma_byte_len_push(s.take(k), s[k]);
}

pub proof fn lemma_byte_len_take_le(s: Seq<char>, i: int, j: int)
    requires
        0 <= i <= j <= s.len(),
    ensures
        byte_len(s.take(i)) + (j - i) <= byte_len(s.take(j)),
    decreases j - i,
{
    if i < j {
        lemma_byte_len_take_le(s, i, j - 1);
        lemma_byte_len_take_step(s, j - 1);
    }
}

pub proof fn lemma_byte_len_full(s: Seq<char>)
    ensures
        byte_len(s.take(s.len() as int)) == byte_len(s),
{
    assert(s.take(s.len() as int) =~= s);
}

/// Distinct character counts give distinct byte offsets.
pub proof fn lemma_index_unique(s: Seq<char>, k1: int, k2: int)
    requires
        0 <= k1 <= s.len(),
        0 <= k2 <= s.len(),
        byte_len(s.take(k1)) == byte_len(s.take(k2)),
    ensures
        k1 == k2,
{
    if k1 < k2 {
        lemma_byte_len_take_le(s, k1, k2);
    } else if k2 < k1 {
        lemma_byte_len_take_le(s, k2, k1);
    }
}

/// The byte offset of the `k`-th character is a boundary whose index is `k`.
pub proof fn lemma_boundary_of_index(s: Seq<char>, k: int)
    requires
        0 <= k <= s.len(),
    ensures
        is_boundary(s, byte_len(s.take(k)) as int),
        index_at(s, byte_len(s.take(k)) as int) == k,
{
    let pos = byte_len(s.take(k)) as int;
    assert(0 <= k <= s.len() && byte_len(s.take(k)) == pos);
    let j = index_at(s, pos);
    lemma_index_unique(s, j, k);
}

pub proof fn lemma_boundary_index(s: Seq<char>, pos: int)
    requires
        is_boundary(s, pos),
    ensures
        0 <= index_at(s, pos) <= s.len(),
        byte_len(s.take(index_at(s, pos))) == pos,
{
}

/// A boundary never lies past the end of the text.
pub proof fn lemma_boundary_le_len(s: Seq<char>, pos: int)
    requires
        is_boundary(s, pos),
    ensures
        0 <= pos <= byte_len(s),
{
    let k = index_at(s, pos);
    lemma_byte_len_take_le(s, k, s.len() as int);
    lemma_byte_len_full(s);
}

/// The character index of a byte offset, if that offset is a character boundary.
pub fn char_index(s: &Vec<char>, pos: usize) -> (r: Option<usize>)
    ensures
        r is Some <==> is_boundary(s@, pos as int),
        r matches Some(k) ==> k == index_at(s@, pos as int) && k <= s@.len(),
{
    let mut i: usize = 0;
    let mut acc: usize = 0;
    assert(s@.take(0) =~= Seq::<char>::empty());
    loop
        invariant
            i <= s@.len(),
            acc <= pos,
            acc == byte_len(s@.take(i as int)),
        decreases s@.len() - i,
    {
        if acc == pos {
            proof {
                lemma_boundary_of_index(s@, i as int);
            }
            return Some(i);
        }
        if i == s.len() {
            proof {
                assert forall|k: int| 0 <= k <= s@.len() implies #[trigger] byte_len(s@.take(k))
                    != pos by {
                    lemma_byte_len_take_le(s@, k, i as int);
                }
            }
            return None;
        }
        let w = len_utf8(s[i]);
        proof {
            lemma_byte_len_take_step(s@, i as int);
        }
        if w > pos - acc {
            proof {
                assert forall|k: int| 0 <= k <= s@.len() implies #[trigger] byte_len(s@.take(k))
                    != pos by {
                    if k <= i {
                        lemma_byte_len_take_le(s@, k, i as int);
                    } else {
                        lemma_byte_len_take_le(s@, i + 1, k);
                    }
                }
            }
            return None;
        }
        acc = acc + w;
        i = i + 1;
    }
}

/// Total number of UTF-8 bytes of a character sequence (what `str::len` returns).
pub fn byte_length(s: &Vec<char>) -> (n: usize)
    requires
        byte_len(s@) <= usize::MAX,
    ensures
        n == byte_len(s@),
{
    let mut i: usize = 0;
    let mut acc: usize = 0;
    assert(s@.take(0) =~= Seq::<char>::empty());
    while i < s.len()
        invariant
            i <= s@.len(),
            acc == byte_len(s@.take(i as int)),
            byte_len(s@) <= usize::MAX,
        decreases s@.len() - i,
    {
        proof {
            lemma_byte_len_take_step(s@, i as int);
            lemma_byte_len_take_le(s@, i + 1, s@.len() as int);
            lemma_byte_len_full(s@);
        }
        acc = acc + len_utf8(s[i]);
        i = i + 1;
    }
    proof {
        lemma_byte_len_full(s@);
    }
    acc
}

/// The characters of a string.
pub fn chars_of(s: &str) -> (r: Vec<char>)
    ensures
        r@ == s@,
{
    let n = s.unicode_len();
    let mut r: Vec<char> = Vec::new();
    let mut i: usize = 0;
    while i < n
        invariant
            n == s@.len(),
            i <= n,
            r@ == s@.take(i as int),
        decreases n - i,
    {
        let c = s.get_char(i);
        r.push(c);
        i = i + 1;
        assert(r@ =~= s@.take(i as int));
    }
    assert(r@ =~= s@);
    r
}

/// Appends one character to a string (`String::push`).
#[verifier::external_body]
pub(crate) fn push_char(s: &mut String, c: char)
    ensures
        final(s)@ == old(s)@.push(c),
{
    s.push(c);
}

/// A string holding the given characters.
pub fn string_of(v: &Vec<char>) -> (r: String)
    ensures
        r@ == v@,
{
    let mut r = String::new();
    let mut i: usize = 0;
    while i < v.len()
        invariant
            i <= v@.len(),
            r@ == v@.take(i as int),
        decreases v@.len() - i,
    {
        push_char(&mut r, v[i]);
        i = i + 1;
        assert(r@ =~= v@.take(i as int));
    }
    assert(r@ =~= v@);
    r
}

/// A string holding the characters of a string literal or slice.
pub fn owned(s: &str) -> (r: String)
    ensures
        r@ == s@,
{
    s.to_owned()
}

/// `p` occurs in `s` starting at character index `i`.
pub open spec fn occurs_at(s: Seq<char>, p: Seq<char>, i: int) -> bool {
    0 <= i && i + p.len() <= s.len() && s.subrange(i, i + p.len()) == p
}

pub open spec fn contains_seq(s: Seq<char>, p: Seq<char>) -> bool {
    exists|i: int| #[trigger] occurs_at(s, p, i)
}

pub open spec fn has_prefix(s: Seq<char>, p: Seq<char>) -> bool {
    occurs_at(s, p, 0)
}

/// Whether `p` occurs in `s` at character index `i`.
pub(crate) fn matches_at(s: &Vec<char>, p: &Vec<char>, i: usize) -> (r: bool)
    requires
        i + p@.len() <= s@.len(),
    ensures
        r == occurs_at(s@, p@, i as int),
{
    let mut j: usize = 0;
    let n = s.len();
    while j < p.len()
        invariant
            n == s@.len(),
            i + p@.len() <= s@.len(),
            j <= p@.len(),
            forall|t: int| 0 <= t < j ==> s@[i + t] == p@[t],
        decreases p@.len() - j,
    {
        assert(i + j < s@.len());
        if s[i + j] != p[j] {
            assert(s@.subrange(i as int, i + p@.len())[j as int] != p@[j as int]);
            return false;
        }
        j = j + 1;
    }
    assert(s@.subrange(i as int, i + p@.len()) =~= p@);
    true
}

/// Whether `s` starts with `p` (`str::starts_with`).
pub fn starts_with(s: &Vec<char>, p: &Vec<char>) -> (r: bool)
    ensures
        r == has_prefix(s@, p@),
{
    if p.len() > s.len() {
        false
    } else {
        matches_at(s, p, 0)
    }
}

/// Whether `p` occurs in `s` (`str::contains`).
pub fn contains(s: &Vec<char>, p: &Vec<char>) -> (r: bool)
    ensures
        r == contains_seq(s@, p@),
{
    if p.len() > s.len() {
        return false;
    }
    if p.len() == 0 {
        assert(s@.subrange(0, 0) =~= p@);
        assert(occurs_at(s@, p@, 0));
        return true;
    }
    let end = s.len() - p.len() + 1;
    let mut i: usize = 0;
    while i < end
        invariant
            end + p@.len() == s@.len() + 1,
            i <= end,
            forall|t: int| 0 <= t < i ==> !occurs_at(s@, p@, t),
        decreases end - i,
    {
        if matches_at(s, p, i) {
            return true;
        }
        i = i + 1;
    }
    false
}

/// What `str::to_lowercase` returns for the given characters.
pub uninterp spec fn lowercase(s: Seq<char>) -> Seq<char>;

/// Calls `str::to_lowercase`; the result is named `lowercase` of the argument.
#[verifier::external_body]
pub(crate) fn to_lowercase(s: &str) -> (r: String)
    ensures
        r@ == lowercase(s@),
{
    s.to_lowercase()
}

pub open spec fn is_digit(c: char) -> bool {
    '0' <= c && c <= '9'
}

pub open spec fn all_digits(s: Seq<char>) -> bool {
    forall|i: int| 0 <= i < s.len() ==> is_digit(#[trigger] s[i])
}

/// Value of a sequence of decimal digits.
pub open spec fn digits_value(s: Seq<char>) -> nat
    decreases s.len(),
{
    if s.len() == 0 {
        0
    } else {
        digits_value(s.drop_last()) * 10 + ((s.last() as u32) - ('0' as u32)) as nat
    }
}

/// What `str::parse::<u64>` gives: an optional `+`, then one or more digits whose value fits.
pub open spec fn parse_u64_spec(s: Seq<char>) -> Option<u64> {
    let d = if s.len() > 0 && s[0] == '+' {
        s.drop_first()
    } else {
        s
    };
    if d.len() > 0 && all_digits(d) && digits_value(d) <= u64::MAX {
        Some(digits_value(d) as u64)
    } else {
        None
    }
}

/// Parses a decimal `u64` as `str::parse::<u64>` does.
pub fn parse_u64(s: &Vec<char>) -> (r: Option<u64>)
    ensures
        r == parse_u64_spec(s@),
{
    let start: usize = if s.len() > 0 && s[0] == '+' {
        1
    } else {
        0
    };
    let ghost d = s@.skip(start as int);
    assert(d =~= (if s@.len() > 0 && s@[0] == '+' {
        s@.drop_first()
    } else {
        s@
    }));
    if start >= s.len() {
        return None;
    }
    let mut i: usize = start;
    let mut acc: u64 = 0;
    assert(d.take(0) =~= Seq::<char>::empty());
    while i < s.len()
        invariant
            start <= i <= s@.len(),
            d == s@.skip(start as int),
            d == (if s@.len() > 0 && s@[0] == '+' {
                s@.drop_first()
            } else {
                s@
            }),
            d.len() > 0,
            all_digits(d.take(i - start)),
            acc as nat == digits_value(d.take(i - start)),
        decreases s@.len() - i,
    {
        let c = s[i];
        assert(d[i - start] == c);
        if !('0' <= c && c <= '9') {
            assert(!is_digit(d[i - start]));
            assert(!all_digits(d));
            return None;
        }
        let v = (c as u32 - '0' as u32) as u64;
        assert(d.take(i - start + 1).drop_last() =~= d.take(i - start));
        assert(d.take(i - start + 1).last() == c);
        if acc > (u64::MAX - v) / 10 {
            proof {
                assert(digits_value(d.take(i - start + 1)) > u64::MAX) by (nonlinear_arith)
                    requires
                        acc > (u64::MAX - v) / 10,
                        digits_value(d.take(i - start + 1)) == acc * 10 + v,
                        v <= 9,
                ;
                if all_digits(d) {
                    lemma_digits_value_prefix_le(d, i - start + 1);
                }
            }
            return None;
        }
        assert(acc * 10 + v <= u64::MAX) by (nonlinear_arith)
            requires
                acc <= (u64::MAX - v) / 10,
                v <= 9,
        ;
        acc = acc * 10 + v;
        i = i + 1;
        assert forall|t: int| 0 <= t < d.take(i - start).len() implies is_digit(
            #[trigger] d.take(i - start)[t],
        ) by {
            if t < i - 1 - start {
                assert(d.take(i - start)[t] == d.take(i - 1 - start)[t]);
            }
        }
    }
    assert(d.take(i - start) =~= d);
    Some(acc)
}

/// The value of a digit sequence is at least the value of any of its prefixes.
pub proof fn lemma_digits_value_prefix_le(d: Seq<char>, k: int)
    requires
        0 <= k <= d.len(),
        all_digits(d),
    ensures
        digits_value(d.take(k)) <= digits_value(d),
    decreases d.len() - k,
{
    if k < d.len() {
        lemma_digits_value_prefix_le(d, k + 1);
        assert(d.take(k + 1).drop_last() =~= d.take(k));
        assert(is_digit(d[k]));
    } else {
        assert(d.take(k) =~= d);
    }
}

/// Decimal representation of a natural number, without leading zeros.
pub open spec fn decimal(n: nat) -> Seq<char>
    decreases n,
{
    if n < 10 {
        seq![digit_char(n)]
    } else {
        decimal(n / 10).push(digit_char(n % 10))
    }
}

pub open spec fn digit_char(d: nat) -> char {
    if d == 0 {
        '0'
    } else if d == 1 {
        '1'
    } else if d == 2 {
        '2'
    } else if d == 3 {
        '3'
    } else if d == 4 {
        '4'
    } else if d == 5 {
        '5'
    } else if d == 6 {
        '6'
    } else if d == 7 {
        '7'
    } else if d == 8 {
        '8'
    } else {
        '9'
    }
}

fn digit(d: u64) -> (c: char)
    requires
        d < 10,
    ensures
        c == digit_char(d as nat),
{
    if d == 0 {
        '0'
    } else if d == 1 {
        '1'
    } else if d == 2 {
        '2'
    } else if d == 3 {
        '3'
    } else if d == 4 {
        '4'
    } else if d == 5 {
        '5'
    } else if d == 6 {
        '6'
    } else if d == 7 {
        '7'
    } else if d == 8 {
        '8'
    } else {
        '9'
    }
}

/// Decimal text of a number (what `Display` writes for an unsigned integer).
pub fn decimal_chars(n: u64) -> (r: Vec<char>)
    ensures
        r@ == decimal(n as nat),
    decreases n,
{
    if n < 10 {
        let mut r = Vec::new();
        r.push(digit(n));
        assert(r@ =~= seq![digit_char(n as nat)]);
        r
    } else {
        let mut r = decimal_chars(n / 10);
        r.push(digit(n % 10));
        r
    }
}

/// Appends the characters of `b` to `a`.
pub fn append_chars(a: &mut Vec<char>, b: &Vec<char>)
    ensures
        final(a)@ == old(a)@ + b@,
{
    let mut i: usize = 0;
    while i < b.len()
        invariant
            i <= b@.len(),
            a@ == old(a)@ + b@.take(i as int),
        decreases b@.len() - i,
    {
        a.push(b[i]);
        i = i + 1;
        assert(a@ =~= old(a)@ + b@.take(i as int));
    }
    assert(b@.take(i as int) =~= b@);
}

/// Appends the characters of a string to `a`.
pub fn append_str(a: &mut Vec<char>, s: &str)
    ensures
        final(a)@ == old(a)@ + s@,
{
    let b = chars_of(s);
    append_chars(a, &b);
}

/// The UTF-8 encoding of a character sequence is `byte_len` bytes long.
pub proof fn lemma_encode_len(s: Seq<char>)
    ensures
        vstd::utf8::encode_utf8(s).len() == byte_len(s),
    decreases s.len(),
{
    if s.len() > 0 {
        lemma_encode_len(s.drop_first());
        vstd::utf8::char_is_scalar(s[0]);
        let v = s[0] as u32;
        assert(vstd::utf8::is_scalar(v));
        assert(vstd::utf8::encode_scalar(v).len() == char_width(s[0]));
        assert(seq![s[0]].last() == s[0]);
        assert(seq![s[0]].drop_last() =~= Seq::<char>::empty());
        assert(byte_len(Seq::<char>::empty()) == 0);
        assert(byte_len(seq![s[0]]) == char_width(s[0]));
        assert(s =~= seq![s[0]] + s.drop_first());
        lemma_byte_len_concat(seq![s[0]], s.drop_first());
        assert(seq![s[0]].drop_last() =~= Seq::<char>::empty());
    }
}

/// The UTF-8 length of a string (`str::len`).
pub fn str_byte_len(s: &str) -> (n: usize)
    requires
        byte_len(s@) <= usize::MAX,
    ensures
        n == byte_len(s@),
{
    proof {
        lemma_encode_len(s@);
    }
    let n = s.len();
    n
}

/// The UTF-8 length of a character sequence, when it fits in a `usize`.
pub fn byte_length_checked(s: &Vec<char>) -> (r: Option<usize>)
    ensures
        r matches Some(n) ==> n == byte_len(s@),
        r is None <==> byte_len(s@) > usize::MAX,
{
    let mut i: usize = 0;
    let mut acc: usize = 0;
    assert(s@.take(0) =~= Seq::<char>::empty());
    while i < s.len()
        invariant
            i <= s@.len(),
            acc == byte_len(s@.take(i as int)),
        decreases s@.len() - i,
    {
        proof {
            lemma_byte_len_take_step(s@, i as int);
        }
        let w = len_utf8(s[i]);
        if w > usize::MAX - acc {
            proof {
                lemma_byte_len_take_le(s@, i + 1, s@.len() as int);
                lemma_byte_len_full(s@);
            }
            return None;
        }
        acc = acc + w;
        i = i + 1;
    }
    proof {
        lemma_byte_len_full(s@);
    }
    Some(acc)
}

} // verus!
