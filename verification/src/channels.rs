//! Which server channels a user may read, how channels are grouped under
//! their categories, and which of them the channel list shows.
use vstd::prelude::*;
use crate::text::{parse_u64_spec, parse_u64, chars_of, contains_seq, contains, lowercase,
    to_lowercase};
use crate::model::{Channel, PermissionContext, PermissionOverwrite, Role, views};

verus! {

pub const ADMINISTRATOR: u64 = 8;

pub const VIEW_CHANNEL: u64 = 1024;

/// The category channel type.
pub const CATEGORY: u8 = 4;

/// A permission set sent as decimal text; unreadable text grants nothing.
pub open spec fn perm_value(s: String) -> u64 {
    match parse_u64_spec(s@) {
        Some(v) => v,
        None => 0,
    }
}

pub open spec fn has_role(ctx: PermissionContext, id: Seq<char>) -> bool {
    views(ctx.user_role_ids@).contains(id)
}

/// The union of the permissions of the server roles the user holds.
pub open spec fn base_perms(roles: Seq<Role>, ctx: PermissionContext) -> u64
    decreases roles.len(),
{
    if roles.len() == 0 {
        0
    } else {
        base_perms(roles.drop_last(), ctx) | (if has_role(ctx, roles.last().id@) {
            perm_value(roles.last().permissions)
        } else {
            0
        })
    }
}

/// Which overwrite entries apply at each of the three levels.
pub open spec fn ow_everyone(o: PermissionOverwrite, ctx: PermissionContext) -> bool {
    o.id@ == ctx.everyone_role_id@
}

pub open spec fn ow_role(o: PermissionOverwrite, ctx: PermissionContext) -> bool {
    o.overwrite_type == 0 && o.id@ != ctx.everyone_role_id@ && has_role(ctx, o.id@)
}

pub open spec fn ow_member(o: PermissionOverwrite, ctx: PermissionContext) -> bool {
    o.overwrite_type == 1 && o.id@ == ctx.user_id@
}

pub open spec fn ow_level(o: PermissionOverwrite, ctx: PermissionContext, level: int) -> bool {
    if level == 0 {
        ow_everyone(o, ctx)
    } else if level == 1 {
        ow_role(o, ctx)
    } else {
        ow_member(o, ctx)
    }
}

/// Union of the allowed (`allow == true`) or denied bits of the overwrites at one level.
pub open spec fn ow_bits(
    ows: Seq<PermissionOverwrite>,
    ctx: PermissionContext,
    level: int,
    allow: bool,
) -> u64
    decreases ows.len(),
{
    if ows.len() == 0 {
        0
    } else {
        let o = ows.last();
        ow_bits(ows.drop_last(), ctx, level, allow) | (if ow_level(o, ctx, level) {
            if allow {
                perm_value(o.allow)
            } else {
                perm_value(o.deny)
            }
        } else {
            0
        })
    }
}

pub open spec fn apply_overwrite(p: u64, allow: u64, deny: u64) -> u64 {
    (p & !deny) | allow
}

/// The user's permissions in a channel: server roles, then the overwrites for
/// everyone, for the user's roles and for the user, each level denying and then
/// allowing; an administrator holds every permission.
pub open spec fn channel_perms(c: Channel, ctx: PermissionContext) -> u64 {
    let base = base_perms(ctx.all_guild_roles@, ctx);
    let ows = c.permission_overwrites@;
    if base & ADMINISTRATOR != 0 {
        u64::MAX
    } else {
        let p0 = apply_overwrite(base, ow_bits(ows, ctx, 0, true), ow_bits(ows, ctx, 0, false));
        let p1 = apply_overwrite(p0, ow_bits(ows, ctx, 1, true), ow_bits(ows, ctx, 1, false));
        apply_overwrite(p1, ow_bits(ows, ctx, 2, true), ow_bits(ows, ctx, 2, false))
    }
}

pub open spec fn channel_readable(c: Channel, ctx: PermissionContext) -> bool {
    channel_perms(c, ctx) & VIEW_CHANNEL != 0
}

/// A channel is readable only when the permission context is known and allows it.
pub open spec fn readable_in(c: Channel, ctx: Option<PermissionContext>) -> bool {
    match ctx {
        Some(x) => channel_readable(c, x),
        None => false,
    }
}

fn perm_of(s: &String) -> (r: u64)
    ensures
        r == perm_value(*s),
{
    let v = chars_of(s.as_str());
    match parse_u64(&v) {
        Some(x) => x,
        None => 0,
    }
}

fn holds_role(ctx: &PermissionContext, id: &String) -> (r: bool)
    ensures
        r == has_role(*ctx, id@),
{
    let ghost vs = views(ctx.user_role_ids@);
    let mut i: usize = 0;
    while i < ctx.user_role_ids.len()
        invariant
            i <= ctx.user_role_ids@.len(),
            vs == views(ctx.user_role_ids@),
            forall|t: int| 0 <= t < i ==> vs[t] != id@,
        decreases ctx.user_role_ids@.len() - i,
    {
        if ctx.user_role_ids[i] == *id {
            assert(vs[i as int] == id@);
            return true;
        }
        i = i + 1;
    }
    false
}

fn overwrite_applies(o: &PermissionOverwrite, ctx: &PermissionContext, level: u8) -> (r: bool)
    requires
        level <= 2,
    ensures
        r == ow_level(*o, *ctx, level as int),
{
    if level == 0 {
        o.id == ctx.everyone_role_id
    } else if level == 1 {
        o.overwrite_type == 0 && !(o.id == ctx.everyone_role_id) && holds_role(ctx, &o.id)
    } else {
        o.overwrite_type == 1 && o.id == ctx.user_id
    }
}

fn overwrite_bits(ows: &Vec<PermissionOverwrite>, ctx: &PermissionContext, level: u8, allow: bool) -> (r:
    u64)
    requires
        level <= 2,
    ensures
        r == ow_bits(ows@, *ctx, level as int, allow),
{
    let mut acc: u64 = 0;
    let mut i: usize = 0;
    assert(ows@.take(0) =~= Seq::<PermissionOverwrite>::empty());
    while i < ows.len()
        invariant
            level <= 2,
            i <= ows@.len(),
            acc == ow_bits(ows@.take(i as int), *ctx, level as int, allow),
        decreases ows@.len() - i,
    {
        let o = &ows[i];
        let bits = if overwrite_applies(o, ctx, level) {
            if allow {
                perm_of(&o.allow)
            } else {
                perm_of(&o.deny)
            }
        } else {
            0
        };
        assert(ows@.take(i + 1).drop_last() =~= ows@.take(i as int));
        acc = acc | bits;
        i = i + 1;
    }
    assert(ows@.take(i as int) =~= ows@);
    acc
}

fn role_bits(ctx: &PermissionContext) -> (r: u64)
    ensures
        r == base_perms(ctx.all_guild_roles@, *ctx),
{
    let roles = &ctx.all_guild_roles;
    let mut acc: u64 = 0;
    let mut i: usize = 0;
    assert(roles@.take(0) =~= Seq::<Role>::empty());
    while i < roles.len()
        invariant
            i <= roles@.len(),
            acc == base_perms(roles@.take(i as int), *ctx),
        decreases roles@.len() - i,
    {
        let bits = if holds_role(ctx, &roles[i].id) {
            perm_of(&roles[i].permissions)
        } else {
            0
        };
        assert(roles@.take(i + 1).drop_last() =~= roles@.take(i as int));
        acc = acc | bits;
        i = i + 1;
    }
    assert(roles@.take(i as int) =~= roles@);
    acc
}

impl Channel {
    /// Whether the user may view this channel.
    pub fn is_readable(&self, ctx: &PermissionContext) -> (r: bool)
        ensures
            r == channel_readable(*self, *ctx),
    {
        let base = role_bits(ctx);
        let ows = &self.permission_overwrites;
        let perms = if base & ADMINISTRATOR != 0 {
            u64::MAX
        } else {
            let p0 = (base & !overwrite_bits(ows, ctx, 0, false)) | overwrite_bits(
                ows,
                ctx,
                0,
                true,
            );
            let p1 = (p0 & !overwrite_bits(ows, ctx, 1, false)) | overwrite_bits(
                ows,
                ctx,
                1,
                true,
            );
            (p1 & !overwrite_bits(ows, ctx, 2, false)) | overwrite_bits(ows, ctx, 2, true)
        };
        perms & VIEW_CHANNEL != 0
    }
}

/// Whether the channel is readable under the permission context, if one is known.
pub fn readable_with(c: &Channel, ctx: &Option<PermissionContext>) -> (r: bool)
    ensures
        r == readable_in(*c, *ctx),
{
    match ctx {
        Some(x) => c.is_readable(x),
        None => false,
    }
}

/// A channel's name, lowercased, contains the filter.
pub open spec fn name_matches(c: Channel, filter: Seq<char>) -> bool {
    contains_seq(lowercase(c.name@), filter)
}

/// Whether the channel's lowercased name contains the filter.
pub fn name_matches_exec(c: &Channel, filter: &Vec<char>) -> (r: bool)
    ensures
        r == name_matches(*c, filter@),
{
    let lower = chars_of(to_lowercase(c.name.as_str()).as_str());
    contains(&lower, filter)
}

/// Shown in the channel list: readable, and matching the filter (any channel
/// matches an empty filter).
pub open spec fn displayed(c: Channel, ctx: Option<PermissionContext>, filter: Seq<char>) -> bool {
    readable_in(c, ctx) && (filter.len() == 0 || name_matches(c, filter))
}

/// Offered for selection: readable and matching the filter.
pub open spec fn selectable(c: Channel, ctx: Option<PermissionContext>, filter: Seq<char>) -> bool {
    readable_in(c, ctx) && name_matches(c, filter)
}

pub open spec fn selectable_pred(ctx: Option<PermissionContext>, filter: Seq<char>) -> spec_fn(
    Channel,
) -> bool {
    |x: Channel| selectable(x, ctx, filter)
}

pub open spec fn count_displayed(
    s: Seq<Channel>,
    ctx: Option<PermissionContext>,
    filter: Seq<char>,
) -> nat
    decreases s.len(),
{
    if s.len() == 0 {
        0
    } else {
        count_displayed(s.drop_last(), ctx, filter) + if displayed(s.last(), ctx, filter) {
            1nat
        } else {
            0nat
        }
    }
}

/// Whether some child in `s` is displayed.
pub open spec fn any_displayed(s: Seq<Channel>, ctx: Option<PermissionContext>, filter: Seq<char>) -> bool {
    count_displayed(s, ctx, filter) > 0
}

/// Number of rows that one top-level entry takes in the channel list.
pub open spec fn rows_of(c: Channel, ctx: Option<PermissionContext>, filter: Seq<char>) -> nat {
    if c.channel_type == CATEGORY {
        let name_ok = filter.len() == 0 || name_matches(c, filter);
        let child_ok = match c.children {
            Some(ch) => any_displayed(ch@, ctx, filter),
            None => false,
        };
        if name_ok || child_ok {
            1 + match c.children {
                Some(ch) => count_displayed(ch@, ctx, filter),
                None => 0,
            }
        } else {
            0
        }
    } else if displayed(c, ctx, filter) {
        1
    } else {
        0
    }
}

/// Number of rows in the channel list.
pub open spec fn list_rows(s: Seq<Channel>, ctx: Option<PermissionContext>, filter: Seq<char>) -> nat
    decreases s.len(),
{
    if s.len() == 0 {
        0
    } else {
        list_rows(s.drop_last(), ctx, filter) + rows_of(s.last(), ctx, filter)
    }
}

fn count_displayed_exec(s: &Vec<Channel>, ctx: &Option<PermissionContext>, filter: &Vec<char>) -> (r:
    usize)
    ensures
        r == count_displayed(s@, *ctx, filter@),
        r <= s@.len(),
{
    let mut n: usize = 0;
    let mut i: usize = 0;
    assert(s@.take(0) =~= Seq::<Channel>::empty());
    while i < s.len()
        invariant
            i <= s@.len(),
            n <= i,
            n == count_displayed(s@.take(i as int), *ctx, filter@),
        decreases s@.len() - i,
    {
        let c = &s[i];
        let shown = readable_with(c, ctx) && (filter.len() == 0 || name_matches_exec(c, filter));
        assert(s@.take(i + 1).drop_last() =~= s@.take(i as int));
        if shown {
            n = n + 1;
        }
        i = i + 1;
    }
    assert(s@.take(i as int) =~= s@);
    n
}

/// Number of rows in the channel list (the length `move_selection` wraps around).
pub fn count_rows(s: &Vec<Channel>, ctx: &Option<PermissionContext>, filter: &Vec<char>) -> (r:
    Option<usize>)
    ensures
        r matches Some(n) ==> n == list_rows(s@, *ctx, filter@),
        r is None ==> list_rows(s@, *ctx, filter@) > usize::MAX,
{
    let mut n: usize = 0;
    let mut i: usize = 0;
    assert(s@.take(0) =~= Seq::<Channel>::empty());
    while i < s.len()
        invariant
            i <= s@.len(),
            n == list_rows(s@.take(i as int), *ctx, filter@),
        decreases s@.len() - i,
    {
        let c = &s[i];
        let rows: usize = if c.channel_type == CATEGORY {
            let name_ok = filter.len() == 0 || name_matches_exec(c, filter);
            let kids = match &c.children {
                Some(ch) => count_displayed_exec(ch, ctx, filter),
                None => 0,
            };
            if name_ok || kids > 0 {
                match &c.children {
                    Some(ch) => {
                        assert(kids <= ch@.len());
                        if kids == usize::MAX {
                            proof {
                                assert(s@.take(i + 1).drop_last() =~= s@.take(i as int));
                                assert(s@.take(i + 1).last() == s@[i as int]);
                                assert(rows_of(s@[i as int], *ctx, filter@) == 1 + kids);
                                lemma_list_rows_prefix(s@, *ctx, filter@, i + 1);
                            }
                            return None;
                        }
                        1 + kids
                    },
                    None => 1,
                }
            } else {
                0
            }
        } else if readable_with(c, ctx) && (filter.len() == 0 || name_matches_exec(c, filter)) {
            1
        } else {
            0
        };
        assert(s@.take(i + 1).drop_last() =~= s@.take(i as int));
        assert(rows == rows_of(s@[i as int], *ctx, filter@));
        if rows > usize::MAX - n {
            proof {
                lemma_list_rows_prefix(s@, *ctx, filter@, i + 1);
            }
            return None;
        }
        n = n + rows;
        i = i + 1;
    }
    assert(s@.take(i as int) =~= s@);
    Some(n)
}

pub proof fn lemma_list_rows_prefix(
    s: Seq<Channel>,
    ctx: Option<PermissionContext>,
    filter: Seq<char>,
    k: int,
)
    requires
        0 <= k <= s.len(),
    ensures
        list_rows(s.take(k), ctx, filter) <= list_rows(s, ctx, filter),
    decreases s.len() - k,
{
    if k < s.len() {
        lemma_list_rows_prefix(s, ctx, filter, k + 1);
        assert(s.take(k + 1).drop_last() =~= s.take(k));
    } else {
        assert(s.take(k) =~= s);
    }
}

/// The rows offered for selection: each selectable top-level channel, followed,
/// when it has children, by its selectable children.
pub open spec fn entry_rows(c: Channel, ctx: Option<PermissionContext>, filter: Seq<char>) -> Seq<
    Channel,
> {
    if selectable(c, ctx, filter) {
        match c.children {
            Some(ch) => seq![c] + ch@.filter(selectable_pred(ctx, filter)),
            None => seq![c],
        }
    } else {
        Seq::empty()
    }
}

pub open spec fn selection_rows(
    s: Seq<Channel>,
    ctx: Option<PermissionContext>,
    filter: Seq<char>,
) -> Seq<Channel>
    decreases s.len(),
{
    if s.len() == 0 {
        Seq::empty()
    } else {
        selection_rows(s.drop_last(), ctx, filter) + entry_rows(s.last(), ctx, filter)
    }
}

/// The id, name and type of a channel picked from the selection rows.
pub struct PickedChannel {
    pub id: String,
    pub name: String,
    pub channel_type: u8,
}

/// Filtering one more element of a prefix adds it exactly when it passes.
pub proof fn lemma_filter_step<A>(s: Seq<A>, p: spec_fn(A) -> bool, i: int)
    requires
        0 <= i < s.len(),
    ensures
        s.take(i + 1).filter(p) == (if p(s[i]) {
            s.take(i).filter(p).push(s[i])
        } else {
            s.take(i).filter(p)
        }),
{
    reveal(Seq::filter);
    assert(s.take(i + 1).drop_last() =~= s.take(i));
}

/// Number of selection rows, and the row at `idx` when there is one.
pub fn pick_row(s: &Vec<Channel>, ctx: &Option<PermissionContext>, filter: &Vec<char>, idx: usize) -> (r:
    (usize, Option<PickedChannel>))
    ensures
        r.0 == selection_rows(s@, *ctx, filter@).len() || (r.0 == usize::MAX
            && selection_rows(s@, *ctx, filter@).len() >= usize::MAX),
        r.0 < usize::MAX ==> (idx < selection_rows(s@, *ctx, filter@).len() <==> r.1 is Some),
        r.1 matches Some(p) ==> ({
            let c = selection_rows(s@, *ctx, filter@)[idx as int];
            &&& p.id == c.id
            &&& p.name == c.name
            &&& p.channel_type == c.channel_type
        }),
{
    let ghost sel = selectable_pred(*ctx, filter@);
    let mut n: usize = 0;
    let mut picked: Option<PickedChannel> = None;
    let mut i: usize = 0;
    assert(s@.take(0) =~= Seq::<Channel>::empty());
    while i < s.len()
        invariant
            i <= s@.len(),
            sel == selectable_pred(*ctx, filter@),
            n == selection_rows(s@.take(i as int), *ctx, filter@).len(),
            n <= idx ==> picked is None,
            picked is Some <==> idx < n,
            picked matches Some(p) ==> ({
                let c = selection_rows(s@.take(i as int), *ctx, filter@)[idx as int];
                &&& p.id == c.id
                &&& p.name == c.name
                &&& p.channel_type == c.channel_type
            }),
        decreases s@.len() - i,
    {
        let c = &s[i];
        let ghost prev = selection_rows(s@.take(i as int), *ctx, filter@);
        assert(s@.take(i + 1).drop_last() =~= s@.take(i as int));
        assert(selection_rows(s@.take(i + 1), *ctx, filter@) == prev + entry_rows(
            s@[i as int],
            *ctx,
            filter@,
        ));
        if readable_with(c, ctx) && name_matches_exec(c, filter) {
            if n == usize::MAX {
                proof {
                    lemma_selection_rows_prefix(s@, *ctx, filter@, i + 1);
                }
                return (usize::MAX, None);
            }
            if n == idx {
                picked = Some(
                    PickedChannel {
                        id: c.id.clone(),
                        name: c.name.clone(),
                        channel_type: c.channel_type,
                    },
                );
            }
            n = n + 1;
            match &c.children {
                Some(ch) => {
                    let mut j: usize = 0;
                    let ghost base = prev.push(*c);
                    assert(ch@.take(0).filter(sel) =~= Seq::<Channel>::empty()) by {
                        reveal(Seq::filter);
                    }
                    assert(selection_rows(s@.take(i + 1), *ctx, filter@) =~= base + ch@.filter(
                        sel,
                    ));
                    while j < ch.len()
                        invariant
                            i < s@.len(),
                            selection_rows(s@.take(i + 1), *ctx, filter@) == base + ch@.filter(
                                sel,
                            ),
                            j <= ch@.len(),
                            base == prev.push(*c),
                            base.len() <= n,
                            n == base.len() + ch@.take(j as int).filter(sel).len(),
                            sel == selectable_pred(*ctx, filter@),
                            n <= idx ==> picked is None,
                            picked is Some <==> idx < n,
                            picked matches Some(p) ==> ({
                                let c = (base + ch@.take(j as int).filter(sel))[idx as int];
                                &&& p.id == c.id
                                &&& p.name == c.name
                                &&& p.channel_type == c.channel_type
                            }),
                        decreases ch@.len() - j,
                    {
                        let x = &ch[j];
                        proof {
                            lemma_filter_step(ch@, sel, j as int);
                        }
                        if readable_with(x, ctx) && name_matches_exec(x, filter) {
                            assert(sel(ch@[j as int]));
                            if n == usize::MAX {
                                proof {
                                    assert(base + ch@.take(j + 1).filter(sel) =~= (base + ch@.take(
                                        j as int,
                                    ).filter(sel)).push(*x));
                                    assert(ch@.take(j + 1).filter(sel).len() <= ch@.filter(
                                        sel,
                                    ).len()) by {
                                        lemma_filter_prefix_len(ch@, sel, j + 1);
                                    }
                                    lemma_selection_rows_prefix(s@, *ctx, filter@, i + 1);
                                }
                                return (usize::MAX, None);
                            }
                            if n == idx {
                                picked = Some(
                                    PickedChannel {
                                        id: x.id.clone(),
                                        name: x.name.clone(),
                                        channel_type: x.channel_type,
                                    },
                                );
                            }
                            n = n + 1;
                            assert(base + ch@.take(j + 1).filter(sel) =~= (base + ch@.take(
                                j as int,
                            ).filter(sel)).push(*x));
                        } else {
                            assert(!sel(ch@[j as int]));
                        }
                        j = j + 1;
                    }
                    assert(ch@.take(j as int) =~= ch@);
                    assert(selection_rows(s@.take(i + 1), *ctx, filter@) =~= base + ch@.filter(
                        sel,
                    ));
                },
                None => {
                    assert(selection_rows(s@.take(i + 1), *ctx, filter@) =~= prev.push(*c));
                },
            }
        } else {
            assert(selection_rows(s@.take(i + 1), *ctx, filter@) =~= prev);
        }
        i = i + 1;
    }
    assert(s@.take(i as int) =~= s@);
    (n, picked)
}

proof fn lemma_filter_prefix_len<A>(s: Seq<A>, p: spec_fn(A) -> bool, k: int)
    requires
        0 <= k <= s.len(),
    ensures
        s.take(k).filter(p).len() <= s.filter(p).len(),
    decreases s.len() - k,
{
    if k < s.len() {
        lemma_filter_prefix_len(s, p, k + 1);
        lemma_filter_step(s, p, k);
    } else {
        assert(s.take(k) =~= s);
    }
}

proof fn lemma_selection_rows_prefix(
    s: Seq<Channel>,
    ctx: Option<PermissionContext>,
    filter: Seq<char>,
    k: int,
)
    requires
        0 <= k <= s.len(),
    ensures
        selection_rows(s.take(k), ctx, filter).len() <= selection_rows(s, ctx, filter).len(),
    decreases s.len() - k,
{
    if k < s.len() {
        lemma_selection_rows_prefix(s, ctx, filter, k + 1);
        assert(s.take(k + 1).drop_last() =~= s.take(k));
    } else {
        assert(s.take(k) =~= s);
    }
}

pub open spec fn is_top_level(c: Channel) -> bool {
    c.parent_id is None
}

pub open spec fn top_level_pred() -> spec_fn(Channel) -> bool {
    |c: Channel| is_top_level(c)
}

/// `x` belongs under the category `cat`.
pub open spec fn child_of(x: Channel, cat: Channel) -> bool {
    &&& x.parent_id matches Some(p)
    &&& p@ == cat.id@
    &&& x.channel_type != CATEGORY
}

pub open spec fn child_pred(cat: Channel) -> spec_fn(Channel) -> bool {
    |x: Channel| child_of(x, cat)
}

/// `a` holds the same channel data as `b`, without children.
pub open spec fn leaf_copy_of(a: Channel, b: Channel) -> bool {
    &&& a.id == b.id
    &&& a.name == b.name
    &&& a.channel_type == b.channel_type
    &&& a.guild_id == b.guild_id
    &&& a.parent_id == b.parent_id
    &&& a.permission_overwrites@ == b.permission_overwrites@
    &&& a.children is None
}

pub open spec fn copies_of(a: Seq<Channel>, b: Seq<Channel>) -> bool {
    a.len() == b.len() && forall|j: int| 0 <= j < a.len() ==> #[trigger] leaf_copy_of(a[j], b[j])
}

/// `out` is `input` grouped by category: the top-level channels in order, each
/// category holding (copies of) the channels whose parent it is.
pub open spec fn grouped(out: Seq<Channel>, input: Seq<Channel>) -> bool {
    let tops = input.filter(top_level_pred());
    &&& out.len() == tops.len()
    &&& forall|i: int|
        0 <= i < out.len() ==> {
            let t = tops[i];
            let o = #[trigger] out[i];
            if t.channel_type == CATEGORY {
                &&& o.id == t.id
                &&& o.name == t.name
                &&& o.channel_type == t.channel_type
                &&& o.guild_id == t.guild_id
                &&& o.parent_id == t.parent_id
                &&& o.permission_overwrites == t.permission_overwrites
                &&& o.children matches Some(v)
                &&& copies_of(v@, input.filter(child_pred(t)))
            } else {
                o == t
            }
        }
}

fn copy_overwrites(v: &Vec<PermissionOverwrite>) -> (r: Vec<PermissionOverwrite>)
    ensures
        r@ == v@,
{
    let mut r: Vec<PermissionOverwrite> = Vec::new();
    let mut i: usize = 0;
    while i < v.len()
        invariant
            i <= v@.len(),
            r@ == v@.take(i as int),
        decreases v@.len() - i,
    {
        let o = &v[i];
        r.push(
            PermissionOverwrite {
                id: o.id.clone(),
                overwrite_type: o.overwrite_type,
                allow: o.allow.clone(),
                deny: o.deny.clone(),
            },
        );
        i = i + 1;
        assert(r@ =~= v@.take(i as int));
    }
    assert(v@.take(i as int) =~= v@);
    r
}

fn leaf_copy(c: &Channel) -> (r: Channel)
    ensures
        leaf_copy_of(r, *c),
{
    Channel {
        id: c.id.clone(),
        name: c.name.clone(),
        channel_type: c.channel_type,
        guild_id: crate::model::clone_opt_string(&c.guild_id),
        parent_id: crate::model::clone_opt_string(&c.parent_id),
        permission_overwrites: copy_overwrites(&c.permission_overwrites),
        children: None,
    }
}

fn children_of(input: &Vec<Channel>, cat: &Channel) -> (r: Vec<Channel>)
    ensures
        copies_of(r@, input@.filter(child_pred(*cat))),
{
    let ghost p = child_pred(*cat);
    let mut r: Vec<Channel> = Vec::new();
    let mut i: usize = 0;
    assert(input@.take(0).filter(p) =~= Seq::<Channel>::empty()) by {
        reveal(Seq::filter);
    }
    while i < input.len()
        invariant
            i <= input@.len(),
            p == child_pred(*cat),
            copies_of(r@, input@.take(i as int).filter(p)),
        decreases input@.len() - i,
    {
        let x = &input[i];
        proof {
            lemma_filter_step(input@, p, i as int);
        }
        let is_child = match &x.parent_id {
            Some(pid) => *pid == cat.id && x.channel_type != CATEGORY,
            None => false,
        };
        if is_child {
            assert(p(input@[i as int]));
            r.push(leaf_copy(x));
        } else {
            assert(!p(input@[i as int]));
        }
        i = i + 1;
    }
    assert(input@.take(i as int) =~= input@);
    r
}

impl Channel {
    /// Groups a server's channels under their categories: the top-level
    /// channels in order, each category holding the channels it is parent of.
    pub fn filter_channels_by_categories(channels: Vec<Channel>) -> (r: Vec<Channel>)
        ensures
            grouped(r@, channels@),
    {
        let ghost input = channels@;
        let ghost tp = top_level_pred();
        let mut kids: Vec<Option<Vec<Channel>>> = Vec::new();
        let mut i: usize = 0;
        while i < channels.len()
            invariant
                input == channels@,
                i <= input.len(),
                kids@.len() == i,
                forall|j: int|
                    0 <= j < i ==> match #[trigger] kids@[j] {
                        Some(v) => input[j].channel_type == CATEGORY && copies_of(
                            v@,
                            input.filter(child_pred(input[j])),
                        ),
                        None => input[j].channel_type != CATEGORY,
                    },
            decreases input.len() - i,
        {
            if channels[i].channel_type == CATEGORY {
                kids.push(Some(children_of(&channels, &channels[i])));
            } else {
                kids.push(None);
            }
            i = i + 1;
        }
        let mut rest = channels;
        let ghost all_kids = kids@;
        let n = kids.len();
        let mut out: Vec<Channel> = Vec::new();
        let mut k: usize = 0;
        assert(input.take(0).filter(tp) =~= Seq::<Channel>::empty()) by {
            reveal(Seq::filter);
        }
        while k < n
            invariant
                n == input.len(),
                all_kids.len() == input.len(),
                k <= input.len(),
                tp == top_level_pred(),
                rest@ == input.skip(k as int),
                kids@ == all_kids.skip(k as int),
                forall|j: int|
                    0 <= j < input.len() ==> match #[trigger] all_kids[j] {
                        Some(v) => input[j].channel_type == CATEGORY && copies_of(
                            v@,
                            input.filter(child_pred(input[j])),
                        ),
                        None => input[j].channel_type != CATEGORY,
                    },
                out@.len() == input.take(k as int).filter(tp).len(),
                forall|t: int|
                    0 <= t < out@.len() ==> {
                        let c = input.take(k as int).filter(tp)[t];
                        let o = #[trigger] out@[t];
                        if c.channel_type == CATEGORY {
                            &&& o.id == c.id
                            &&& o.name == c.name
                            &&& o.channel_type == c.channel_type
                            &&& o.guild_id == c.guild_id
                            &&& o.parent_id == c.parent_id
                            &&& o.permission_overwrites == c.permission_overwrites
                            &&& o.children matches Some(v)
                            &&& copies_of(v@, input.filter(child_pred(c)))
                        } else {
                            o == c
                        }
                    },
            decreases input.len() - k,
        {
            let c = rest.remove(0);
            let kid = kids.remove(0);
            assert(c == input[k as int]);
            assert(kid == all_kids[k as int]);
            proof {
                lemma_filter_step(input, tp, k as int);
            }
            let ghost before = out@;
            let ghost f0 = input.take(k as int).filter(tp);
            if c.parent_id.is_none() {
                assert(tp(input[k as int]));
                let ghost f1 = input.take(k + 1).filter(tp);
                assert(f1 == f0.push(input[k as int]));
                match kid {
                    Some(v) => {
                        let c2 = Channel { children: Some(v), ..c };
                        out.push(c2);
                    },
                    None => {
                        out.push(c);
                    },
                }
                assert forall|t: int| 0 <= t < out@.len() implies ({
                    let c = input.take(k + 1).filter(tp)[t];
                    let o = #[trigger] out@[t];
                    if c.channel_type == CATEGORY {
                        &&& o.id == c.id
                        &&& o.name == c.name
                        &&& o.channel_type == c.channel_type
                        &&& o.guild_id == c.guild_id
                        &&& o.parent_id == c.parent_id
                        &&& o.permission_overwrites == c.permission_overwrites
                        &&& o.children matches Some(v)
                        &&& copies_of(v@, input.filter(child_pred(c)))
                    } else {
                        o == c
                    }
                }) by {
                    if t < before.len() {
                        assert(out@[t] == before[t]);
                        assert(f1[t] == f0[t]);
                    } else {
                        assert(f1[t] == input[k as int]);
                    }
                }
            } else {
                assert(!tp(input[k as int]));
            }
            k = k + 1;
            assert(rest@ =~= input.skip(k as int));
            assert(kids@ =~= all_kids.skip(k as int));
        }
        assert(input.take(k as int) =~= input);
        out
    }
}

} // verus!
