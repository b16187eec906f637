//! Rendering of user mentions (`<@id>`) in message text.
use vstd::prelude::*;
use crate::text::{matches_at, occurs_at, all_digits, is_digit, chars_of, owned, string_of,
    append_chars};
use crate::model::{User, Message, MessageView};

verus! {

/// The first index at or after `i` where `p` occurs in `s` (`str::find` on a suffix).
pub open spec fn find_from(s: Seq<char>, p: Seq<char>, i: int) -> Option<int>
    decreases s.len() - i,
{
    if i < 0 || i + p.len() > s.len() {
        None
    } else if occurs_at(s, p, i) {
        Some(i)
    } else if i < s.len() {
        find_from(s, p, i + 1)
    } else {
        None
    }
}

pub proof fn lemma_find_from(s: Seq<char>, p: Seq<char>, i: int)
    requires
        0 <= i,
    ensures
        find_from(s, p, i) matches Some(j) ==> i <= j && j + p.len() <= s.len() && occurs_at(
            s,
            p,
            j,
        ) && forall|k: int| i <= k < j ==> !#[trigger] occurs_at(s, p, k),
        find_from(s, p, i) is None ==> forall|k: int| i <= k ==> !#[trigger] occurs_at(s, p, k),
    decreases s.len() - i,
{
    if i + p.len() > s.len() {
    } else if occurs_at(s, p, i) {
    } else if i < s.len() {
        lemma_find_from(s, p, i + 1);
    } else {
        assert(s.subrange(i, i + p.len()) =~= p);
    }
}

/// Finds the first occurrence of `p` in `s` at or after `i`.
pub fn find(s: &Vec<char>, p: &Vec<char>, i: usize) -> (r: Option<usize>)
    ensures
        r matches Some(j) ==> find_from(s@, p@, i as int) == Some(j as int),
        r is None ==> find_from(s@, p@, i as int) is None,
{
    let mut k: usize = i;
    proof {
        lemma_find_from(s@, p@, i as int);
    }
    loop
        invariant
            i <= k,
            find_from(s@, p@, i as int) == find_from(s@, p@, k as int),
        decreases s@.len() + 1 - k,
    {
        if k > s.len() || p.len() > s.len() - k {
            return None;
        }
        if p.len() == 0 {
            assert(s@.subrange(k as int, k as int) =~= p@);
            return Some(k);
        }
        if matches_at(s, p, k) {
            return Some(k);
        }
        k = k + 1;
    }
}

pub open spec fn mention_open() -> Seq<char> {
    seq!['<', '@']
}

pub open spec fn mention_close() -> Seq<char> {
    seq!['>']
}

/// The user ids of well-formed `<@digits>` mentions, in the order the text is
/// scanned from byte (here: character) `pos`, each time resuming after the `>`.
pub open spec fn scan_from(c: Seq<char>, pos: int) -> Seq<Seq<char>>
    decreases c.len() - pos,
{
    match find_from(c, mention_open(), pos) {
        None => Seq::empty(),
        Some(i) => match find_from(c, mention_close(), i + 2) {
            None => Seq::empty(),
            Some(j) => {
                let id = c.subrange(i + 2, j);
                let here = if all_digits(id) {
                    seq![id]
                } else {
                    Seq::empty()
                };
                if pos < j + 1 <= c.len() {
                    here + scan_from(c, j + 1)
                } else {
                    here
                }
            },
        },
    }
}

/// Keeps the first occurrence of each element.
pub open spec fn dedup(s: Seq<Seq<char>>) -> Seq<Seq<char>>
    decreases s.len(),
{
    if s.len() == 0 {
        s
    } else {
        let d = dedup(s.drop_last());
        if d.contains(s.last()) {
            d
        } else {
            d.push(s.last())
        }
    }
}

/// The display name of the last mentioned user with the given id.
pub open spec fn mention_name(mentions: Seq<User>, id: Seq<char>) -> Option<Seq<char>>
    decreases mentions.len(),
{
    if mentions.len() == 0 {
        None
    } else if mentions.last().id@ == id {
        Some(mentions.last().display_name()@)
    } else {
        mention_name(mentions.drop_last(), id)
    }
}

/// `s` with every non-overlapping occurrence of `p` at or after `pos`, found
/// left to right, replaced by `r` (`str::replace` on the suffix).
pub open spec fn replace_from(s: Seq<char>, p: Seq<char>, r: Seq<char>, pos: int) -> Seq<char>
    decreases s.len() - pos,
{
    match find_from(s, p, pos) {
        None => s.subrange(pos, s.len() as int),
        Some(i) => if p.len() > 0 && pos <= i && i + p.len() <= s.len() {
            s.subrange(pos, i) + r + replace_from(s, p, r, i + p.len())
        } else {
            s.subrange(pos, s.len() as int)
        },
    }
}

pub open spec fn replace_all(s: Seq<char>, p: Seq<char>, r: Seq<char>) -> Seq<char> {
    replace_from(s, p, r, 0)
}

pub open spec fn mention_pattern(id: Seq<char>) -> Seq<char> {
    mention_open() + id + mention_close()
}

/// Replaces, for each id in turn, `<@id>` by `@name` where a mentioned user has that id.
pub open spec fn apply_mentions(c: Seq<char>, ids: Seq<Seq<char>>, mentions: Seq<User>) -> Seq<
    char,
>
    decreases ids.len(),
{
    if ids.len() == 0 {
        c
    } else {
        let prev = apply_mentions(c, ids.drop_last(), mentions);
        match mention_name(mentions, ids.last()) {
            Some(n) => replace_all(prev, mention_pattern(ids.last()), seq!['@'] + n),
            None => prev,
        }
    }
}

/// What a message shows: `(*non-text*)` without text; otherwise its text with
/// each mention of a mentioned user written as `@` and that user's display name.
pub open spec fn rendered_mentions(m: MessageView) -> Seq<char> {
    match m.content {
        None => "(*non-text*)"@,
        Some(c) => apply_mentions(c@, dedup(scan_from(c@, 0)), m.mentions),
    }
}

fn is_all_digits(s: &Vec<char>, from: usize, to: usize) -> (r: bool)
    requires
        from <= to <= s@.len(),
    ensures
        r == all_digits(s@.subrange(from as int, to as int)),
{
    let mut k = from;
    while k < to
        invariant
            from <= k <= to <= s@.len(),
            all_digits(s@.subrange(from as int, k as int)),
        decreases to - k,
    {
        let c = s[k];
        if !('0' <= c && c <= '9') {
            assert(s@.subrange(from as int, to as int)[k - from] == c);
            return false;
        }
        k = k + 1;
        assert forall|t: int| 0 <= t < k - from implies is_digit(
            #[trigger] s@.subrange(from as int, k as int)[t],
        ) by {
            if t < k - 1 - from {
                assert(s@.subrange(from as int, k as int)[t] == s@.subrange(
                    from as int,
                    k - 1,
                )[t]);
            }
        }
    }
    true
}

fn seq_list_contains(v: &Vec<Vec<char>>, x: &Vec<char>) -> (r: bool)
    ensures
        r == v@.map_values(|e: Vec<char>| e@).contains(x@),
{
    let ghost vs = v@.map_values(|e: Vec<char>| e@);
    let mut i: usize = 0;
    while i < v.len()
        invariant
            i <= v@.len(),
            vs == v@.map_values(|e: Vec<char>| e@),
            forall|t: int| 0 <= t < i ==> vs[t] != x@,
        decreases v@.len() - i,
    {
        if chars_eq(&v[i], x) {
            assert(vs[i as int] == x@);
            return true;
        }
        i = i + 1;
    }
    false
}

/// Whether two character sequences are equal.
pub fn chars_eq(a: &Vec<char>, b: &Vec<char>) -> (r: bool)
    ensures
        r == (a@ == b@),
{
    if a.len() != b.len() {
        return false;
    }
    let mut i: usize = 0;
    while i < a.len()
        invariant
            a@.len() == b@.len(),
            i <= a@.len(),
            forall|t: int| 0 <= t < i ==> a@[t] == b@[t],
        decreases a@.len() - i,
    {
        if a[i] != b[i] {
            return false;
        }
        i = i + 1;
    }
    assert(a@ =~= b@);
    true
}

/// The mention ids of a text, each once, in the order first found.
fn mention_ids(c: &Vec<char>) -> (ids: Vec<Vec<char>>)
    ensures
        ids@.map_values(|e: Vec<char>| e@) == dedup(scan_from(c@, 0)),
{
    let open: Vec<char> = vec!['<', '@'];
    let close: Vec<char> = vec!['>'];
    assert(open@ =~= mention_open());
    assert(close@ =~= mention_close());
    let mut ids: Vec<Vec<char>> = Vec::new();
    let mut pos: usize = 0;
    let ghost mut seen: Seq<Seq<char>> = Seq::empty();
    let n = c.len();
    loop
        invariant
            n == c@.len(),
            pos <= c@.len(),
            open@ == mention_open(),
            close@ == mention_close(),
            scan_from(c@, 0) == seen + scan_from(c@, pos as int),
            ids@.map_values(|e: Vec<char>| e@) == dedup(seen),
        decreases c@.len() - pos,
    {
        proof {
            lemma_find_from(c@, mention_open(), pos as int);
        }
        match find(c, &open, pos) {
            None => {
                assert(scan_from(c@, pos as int) =~= Seq::<Seq<char>>::empty());
                assert(seen + Seq::<Seq<char>>::empty() =~= seen);
                return ids;
            },
            Some(i) => {
                assert(i + 2 <= c@.len());
                proof {
                    lemma_find_from(c@, mention_close(), i + 2);
                }
                match find(c, &close, i + 2) {
                    None => {
                        assert(scan_from(c@, pos as int) =~= Seq::<Seq<char>>::empty());
                        assert(seen + Seq::<Seq<char>>::empty() =~= seen);
                        return ids;
                    },
                    Some(j) => {
                        assert(j + 1 <= c@.len());
                        let ghost id = c@.subrange(i + 2, j as int);
                        let ghost here = if all_digits(id) {
                            seq![id]
                        } else {
                            Seq::<Seq<char>>::empty()
                        };
                        assert(scan_from(c@, pos as int) == here + scan_from(c@, j + 1));
                        if is_all_digits(c, i + 2, j) {
                            let mut idv: Vec<char> = Vec::new();
                            let mut t = i + 2;
                            while t < j
                                invariant
                                    i + 2 <= t <= j < c@.len(),
                                    idv@ == c@.subrange(i + 2, t as int),
                                decreases j - t,
                            {
                                idv.push(c[t]);
                                t = t + 1;
                                assert(idv@ =~= c@.subrange(i + 2, t as int));
                            }
                            let ghost old_ids = ids@.map_values(|e: Vec<char>| e@);
                            if !seq_list_contains(&ids, &idv) {
                                ids.push(idv);
                                assert(ids@.map_values(|e: Vec<char>| e@) =~= old_ids.push(id));
                            }
                            proof {
                                assert(seen.push(id).drop_last() =~= seen);
                                assert(seen + here + scan_from(c@, j + 1) =~= seen.push(id)
                                    + scan_from(c@, j + 1));
                                seen = seen.push(id);
                            }
                        } else {
                            assert(seen + here =~= seen);
                        }
                        pos = j + 1;
                    },
                }
            },
        }
    }
}

/// The display name of the last user in `users` whose id is `id`.
fn lookup_mention(users: &Vec<User>, id: &Vec<char>) -> (r: Option<Vec<char>>)
    ensures
        r matches Some(n) ==> mention_name(users@, id@) == Some(n@),
        r is None ==> mention_name(users@, id@) is None,
{
    let mut i: usize = users.len();
    assert(users@.take(i as int) =~= users@);
    while i > 0
        invariant
            i <= users@.len(),
            mention_name(users@, id@) == mention_name(users@.take(i as int), id@),
        decreases i,
    {
        let u = &users[i - 1];
        let uid = chars_of(u.id.as_str());
        assert(users@.take(i as int).drop_last() =~= users@.take(i - 1));
        if chars_eq(&uid, id) {
            let name = match &u.global_name {
                Some(g) => chars_of(g.as_str()),
                None => chars_of(u.username.as_str()),
            };
            return Some(name);
        }
        i = i - 1;
    }
    None
}

/// Replaces every occurrence of `p` (not empty) in `s`, left to right, by `r`.
pub fn replace_chars(s: &Vec<char>, p: &Vec<char>, r: &Vec<char>) -> (out: Vec<char>)
    requires
        p@.len() > 0,
    ensures
        out@ == replace_all(s@, p@, r@),
{
    let mut out: Vec<char> = Vec::new();
    let mut pos: usize = 0;
    let n = s.len();
    loop
        invariant
            n == s@.len(),
            p@.len() > 0,
            pos <= s@.len(),
            replace_all(s@, p@, r@) == out@ + replace_from(s@, p@, r@, pos as int),
        decreases s@.len() - pos,
    {
        proof {
            lemma_find_from(s@, p@, pos as int);
        }
        match find(s, p, pos) {
            None => {
                let mut t = pos;
                let ghost base = out@;
                while t < s.len()
                    invariant
                        pos <= t <= s@.len(),
                        out@ == base + s@.subrange(pos as int, t as int),
                    decreases s@.len() - t,
                {
                    out.push(s[t]);
                    t = t + 1;
                    assert(out@ =~= base + s@.subrange(pos as int, t as int));
                }
                return out;
            },
            Some(i) => {
                assert(i + p@.len() <= s@.len());
                let ghost base = out@;
                let mut t = pos;
                while t < i
                    invariant
                        pos <= t <= i <= s@.len(),
                        out@ == base + s@.subrange(pos as int, t as int),
                    decreases i - t,
                {
                    out.push(s[t]);
                    t = t + 1;
                    assert(out@ =~= base + s@.subrange(pos as int, t as int));
                }
                append_chars(&mut out, r);
                assert(base + (s@.subrange(pos as int, i as int) + r@ + replace_from(
                    s@,
                    p@,
                    r@,
                    i + p@.len(),
                )) =~= out@ + replace_from(s@, p@, r@, i + p@.len()));
                pos = i + p.len();
            },
        }
    }
}

impl Message {
    /// The text to show for this message, with mentions of mentioned users
    /// written as `@name`.
    pub fn map_mentions(&self) -> (r: String)
        ensures
            r@ == rendered_mentions(self@),
    {
        let content = match &self.content {
            None => {
                return owned("(*non-text*)");
            },
            Some(c) => c,
        };
        let c = chars_of(content.as_str());
        let ids = mention_ids(&c);
        let ghost idv = ids@.map_values(|e: Vec<char>| e@);
        let mut cur = c;
        let mut k: usize = 0;
        assert(idv.take(0) =~= Seq::<Seq<char>>::empty());
        while k < ids.len()
            invariant
                k <= ids@.len(),
                idv == ids@.map_values(|e: Vec<char>| e@),
                cur@ == apply_mentions(content@, idv.take(k as int), self.mentions@),
            decreases ids@.len() - k,
        {
            assert(idv.take(k + 1).drop_last() =~= idv.take(k as int));
            assert(idv.take(k + 1).last() == ids@[k as int]@);
            match lookup_mention(&self.mentions, &ids[k]) {
                Some(name) => {
                    let mut pat: Vec<char> = vec!['<', '@'];
                    append_chars(&mut pat, &ids[k]);
                    pat.push('>');
                    assert(pat@ =~= mention_pattern(ids@[k as int]@));
                    let mut rep: Vec<char> = vec!['@'];
                    append_chars(&mut rep, &name);
                    assert(rep@ =~= seq!['@'] + name@);
                    cur = replace_chars(&cur, &pat, &rep);
                },
                None => {},
            }
            k = k + 1;
        }
        assert(idv.take(ids@.len() as int) =~= idv);
        string_of(&cur)
    }
}

} // verus!
