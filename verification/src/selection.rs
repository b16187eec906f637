//! Moving through the lists and acting on Enter: opening servers, direct
//! messages and channels, choosing an emoji, and sending or editing messages.
use vstd::prelude::*;
use crate::text::{byte_len, is_boundary, owned, chars_of, contains_seq, contains, has_prefix,
    starts_with, lowercase, to_lowercase, byte_length_checked, char_index, append_str, string_of};
use crate::editing::{drained, inserted, inserted_seq, drain_between, insert_seq_at, insert_at};
use crate::model::{DM, Emoji, Guild, Message, same_messages, clone_messages};
use crate::channels::{lemma_filter_step, list_rows, selection_rows, count_rows, pick_row, CATEGORY};
use crate::app::{App, AppView, AppState, AppAction, Effect, KeywordAction, Step, Window,
    chatting_status};
use crate::input::{one_effect, no_step};

verus! {

pub open spec fn unicode_pred(f: Seq<char>) -> spec_fn((String, String)) -> bool {
    |e: (String, String)| has_prefix(e.0@, f)
}

pub open spec fn custom_pred(f: Seq<char>) -> spec_fn(Emoji) -> bool {
    |e: Emoji| has_prefix(e.name@, f)
}

/// Standard emojis whose name starts with the filter.
pub open spec fn filtered_unicode(v: AppView) -> Seq<(String, String)> {
    v.emoji_map.filter(unicode_pred(v.emoji_filter))
}

/// Server emojis whose name starts with the filter.
pub open spec fn filtered_custom(v: AppView) -> Seq<Emoji> {
    v.custom_emojis.filter(custom_pred(v.emoji_filter))
}

pub open spec fn total_emojis(v: AppView) -> int {
    (filtered_unicode(v).len() + filtered_custom(v).len()) as int
}

/// The lowercased input line, which filters the lists.
pub open spec fn list_filter(v: AppView) -> Seq<char> {
    lowercase(v.input)
}

pub open spec fn dm_pred(f: Seq<char>) -> spec_fn(DM) -> bool {
    |d: DM| contains_seq(lowercase(d.name_spec()), f)
}

pub open spec fn guild_pred(f: Seq<char>) -> spec_fn(Guild) -> bool {
    |g: Guild| contains_seq(lowercase(g.name@), f)
}

pub open spec fn filtered_dms(v: AppView) -> Seq<DM> {
    v.dms.filter(dm_pred(list_filter(v)))
}

pub open spec fn filtered_guilds(v: AppView) -> Seq<Guild> {
    v.guilds.filter(guild_pred(list_filter(v)))
}

/// The next (or previous) row of a list of `len` rows, wrapping around.
pub open spec fn wrapped(i: int, len: int, next: bool) -> int {
    if next {
        (i + 1) % len
    } else if i == 0 {
        len - 1
    } else {
        i - 1
    }
}

pub open spec fn channel_rows(v: AppView) -> int {
    list_rows(v.channels, v.context, list_filter(v)) as int
}

pub open spec fn move_ok(v: AppView, next: bool) -> bool {
    match v.state {
        AppState::Home => next ==> v.selection_index < usize::MAX,
        AppState::SelectingDM => v.dms.len() > 0 && next ==> v.selection_index < usize::MAX,
        AppState::SelectingGuild => v.guilds.len() > 0 && next ==> v.selection_index < usize::MAX,
        AppState::SelectingChannel(_) => v.channels.len() > 0 ==> {
            &&& channel_rows(v) <= usize::MAX
            &&& (next || v.selection_index == 0) ==> channel_rows(v) > 0
            &&& next ==> v.selection_index < usize::MAX
        },
        AppState::EmojiSelection(_) => total_emojis(v) > 0 && next ==> v.emoji_index < usize::MAX,
        _ => true,
    }
}

/// The selection after Up (`next == false`) or Down.
pub open spec fn moved(v: AppView, next: bool) -> AppView {
    let i = v.selection_index as int;
    match v.state {
        AppState::Home => AppView {
            selection_index: (if next {
                (i + 1) % 3
            } else if i == 0 {
                2
            } else {
                i - 1
            }) as usize,
            ..v
        },
        AppState::SelectingDM => if v.dms.len() > 0 {
            AppView { selection_index: wrapped(i, v.dms.len() as int, next) as usize, ..v }
        } else {
            v
        },
        AppState::SelectingGuild => if v.guilds.len() > 0 {
            AppView { selection_index: wrapped(i, v.guilds.len() as int, next) as usize, ..v }
        } else {
            v
        },
        AppState::SelectingChannel(_) => if v.channels.len() > 0 {
            AppView { selection_index: wrapped(i, channel_rows(v), next) as usize, ..v }
        } else {
            v
        },
        AppState::EmojiSelection(_) => if total_emojis(v) > 0 {
            AppView {
                emoji_index: wrapped(v.emoji_index as int, total_emojis(v), next) as usize,
                ..v
            }
        } else {
            v
        },
        _ => v,
    }
}

/// The text an emoji choice puts in the input line.
pub open spec fn custom_emoji_text(e: Emoji) -> Seq<char> {
    "<"@ + (if e.animated == Some(true) {
        "a"@
    } else {
        Seq::empty()
    }) + ":"@ + e.name@ + ":"@ + e.id@ + ">"@
}

/// The emoji under the selection, if any.
pub open spec fn chosen_emoji(v: AppView) -> Option<Seq<char>> {
    let i = v.selection_index as int;
    let fu = filtered_unicode(v);
    if i < fu.len() {
        Some(fu[i].1@)
    } else if i < total_emojis(v) {
        Some(custom_emoji_text(filtered_custom(v)[i - fu.len()]))
    } else {
        None
    }
}

pub open spec fn emoji_end(v: AppView, st: usize) -> int {
    st + 1 + byte_len(v.emoji_filter)
}

/// The `:` and the filter after it are replaced by the emoji and a space.
pub open spec fn emoji_inserted(v: AppView, st: usize, text: Seq<char>) -> Seq<char> {
    let d = drained(v.input, st as int, emoji_end(v, st));
    inserted(inserted_seq(d, st as int, text), st + byte_len(text), ' ')
}

/// The end of the filter fits in a `usize`, and so does the cursor after the
/// chosen emoji when the emoji is put in (the `:` and the end of the filter
/// being character boundaries).
pub open spec fn emoji_fits(v: AppView, st: usize) -> bool {
    &&& emoji_end(v, st) <= usize::MAX
    &&& chosen_emoji(v) matches Some(t) ==> (is_boundary(v.input, st as int) && is_boundary(
        v.input,
        emoji_end(v, st),
    ) ==> st + byte_len(t) + 1 <= usize::MAX)
}

pub open spec fn emoji_chosen(v: AppView, id: String, st: usize) -> AppView {
    let fits = is_boundary(v.input, st as int) && is_boundary(v.input, emoji_end(v, st));
    let base = match chosen_emoji(v) {
        Some(t) => if fits {
            AppView {
                input: emoji_inserted(v, st, t),
                cursor_position: (st + byte_len(t) + 1) as usize,
                ..v
            }
        } else {
            v
        },
        None => v,
    };
    AppView {
        state: AppState::Chatting(id),
        emoji_filter: Seq::empty(),
        emoji_filter_start: None,
        emoji_index: 0,
        status_message: chatting_status(),
        ..base
    }
}

/// Display name used when loading a direct-message chat.
pub open spec fn dm_label(d: DM) -> Seq<char> {
    if d.recipients@.len() == 0 {
        "Empty"@
    } else {
        d.recipients@[0].username@
    }
}

pub open spec fn submit_ok(v: AppView) -> bool {
    match v.state {
        AppState::SelectingDM => filtered_dms(v).len() > 0 ==> v.selection_index < filtered_dms(
            v,
        ).len(),
        AppState::SelectingGuild => filtered_guilds(v).len() > 0 ==> v.selection_index
            < filtered_guilds(v).len(),
        AppState::SelectingChannel(_) => selection_rows(v.channels, v.context, list_filter(v)).len()
            < usize::MAX,
        AppState::EmojiSelection(_) => match v.emoji_filter_start {
            Some(st) => emoji_fits(v, st) && byte_len(v.emoji_filter) <= usize::MAX,
            None => true,
        },
        _ => true,
    }
}

pub open spec fn continue_step(r: Step) -> bool {
    r.keyword == Some(KeywordAction::Continue) && r.effects@.len() == 0
}

pub open spec fn quiet(r: Step) -> bool {
    r.keyword is None && r.effects@.len() == 0
}

/// What Enter does on each screen.
pub open spec fn submitted(v: AppView, new: AppView, r: Step) -> bool {
    match v.state {
        AppState::Loading(_) => new == v && quiet(r),
        AppState::Home => new == v && if v.selection_index == 0 {
            r.keyword is None && r.effects@ == seq![Effect::Send(AppAction::TransitionToGuilds)]
        } else if v.selection_index == 1 {
            r.keyword is None && r.effects@ == seq![Effect::Send(AppAction::TransitionToDM)]
        } else if v.selection_index == 2 {
            r.keyword == Some(KeywordAction::Break) && r.effects@.len() == 0
        } else {
            quiet(r)
        },
        AppState::SelectingDM => if filtered_dms(v).len() == 0 {
            new == v && continue_step(r)
        } else {
            let d = filtered_dms(v)[v.selection_index as int];
            &&& new == AppView {
                input: Seq::empty(),
                cursor_position: 0,
                status_message: "Loading messages for "@ + dm_label(d) + "..."@,
                ..v
            }
            &&& r.keyword is None
            &&& r.effects@ == seq![Effect::LoadDirectMessages { channel_id: d.id }]
        },
        AppState::SelectingGuild => if filtered_guilds(v).len() == 0 {
            new == v && continue_step(r)
        } else {
            let g = filtered_guilds(v)[v.selection_index as int];
            &&& new == AppView {
                status_message: "Loading channels for "@ + g.name@ + "..."@,
                ..v
            }
            &&& r.keyword is None
            &&& r.effects@ == seq![Effect::LoadServer { guild_id: g.id }]
        },
        AppState::SelectingChannel(_) => {
            let rows = selection_rows(v.channels, v.context, list_filter(v));
            let i = v.selection_index as int;
            if rows.len() <= i || rows[i].channel_type == CATEGORY {
                new == v && continue_step(r)
            } else {
                let c = rows[i];
                &&& new == AppView {
                    input: Seq::empty(),
                    cursor_position: 0,
                    status_message: "Loading messages for "@ + c.name@ + "..."@,
                    ..v
                }
                &&& r.keyword is None
                &&& r.effects@ == seq![
                    Effect::Send(AppAction::TransitionToLoading(Window::Chat(c.id))),
                    Effect::FetchChatMessages { channel_id: c.id },
                ]
            }
        },
        AppState::EmojiSelection(id) => quiet(r) && match v.emoji_filter_start {
            None => new == v,
            Some(st) => new == emoji_chosen(v, id, st),
        },
        AppState::Editing(cid, m, _) => {
            &&& new == AppView { input: Seq::empty(), ..v }
            &&& r.keyword is None
            &&& if v.input.len() == 0 {
                r.effects@.len() == 0
            } else {
                &&& r.effects@.len() == 1
                &&& r.effects@[0] matches Effect::SubmitEdit {
                    channel_id,
                    message_id,
                    content,
                    messages,
                }
                &&& channel_id == cid
                &&& message_id == m.id
                &&& content@ == v.input
                &&& same_messages(messages@, v.messages)
            }
        },
        AppState::Chatting(cid) => {
            &&& new == AppView { input: Seq::empty(), cursor_position: 0, ..v }
            &&& r.keyword is None
            &&& if v.input.len() == 0 {
                r.effects@.len() == 0
            } else {
                &&& r.effects@.len() == 1
                &&& r.effects@[0] matches Effect::SendMessage { channel_id, content }
                &&& channel_id == cid
                &&& content@ == v.input
            }
        },
    }
}

/// After the chat's messages were fetched: hand them over (or show the
/// error), then end loading.
pub open spec fn chat_loaded(
    v: AppView,
    channel_id: String,
    fetched: Result<Vec<Message>, String>,
    new: AppView,
    r: Step,
) -> bool {
    &&& r.keyword is None
    &&& match fetched {
        Ok(msgs) => new == v && r.effects@ == seq![
            Effect::Send(AppAction::ApiUpdateMessages(channel_id, msgs)),
            Effect::Send(AppAction::EndLoading),
        ],
        Err(e) => new == AppView { status_message: "Error loading chat: "@ + e@, ..v }
            && r.effects@ == seq![Effect::Send(AppAction::EndLoading)],
    }
}

/// Counts the marked positions and finds the `k`-th marked one.
fn pick_marked<A>(marks: &Vec<bool>, k: usize, Ghost(s): Ghost<Seq<A>>, Ghost(p): Ghost<
    spec_fn(A) -> bool,
>) -> (r: (usize, Option<usize>))
    requires
        marks@.len() == s.len(),
        forall|i: int| 0 <= i < s.len() ==> marks@[i] == p(s[i]),
    ensures
        r.0 == s.filter(p).len(),
        (k < r.0) <==> r.1 is Some,
        r.1 matches Some(j) ==> j < s.len() && s[j as int] == s.filter(p)[k as int],
{
    let mut n: usize = 0;
    let mut found: Option<usize> = None;
    let mut i: usize = 0;
    assert(s.take(0).filter(p) =~= Seq::<A>::empty()) by {
        reveal(Seq::filter);
    }
    while i < marks.len()
        invariant
            marks@.len() == s.len(),
            forall|t: int| 0 <= t < s.len() ==> marks@[t] == p(s[t]),
            i <= s.len(),
            n == s.take(i as int).filter(p).len(),
            n <= i,
            (k < n) <==> found is Some,
            found matches Some(j) ==> j < i && s[j as int] == s.take(i as int).filter(p)[k as int],
        decreases s.len() - i,
    {
        proof {
            lemma_filter_step(s, p, i as int);
        }
        if marks[i] {
            if n == k {
                found = Some(i);
            }
            n = n + 1;
        }
        i = i + 1;
    }
    assert(s.take(i as int) =~= s);
    (n, found)
}

fn dm_marks(dms: &Vec<DM>, f: &Vec<char>) -> (r: Vec<bool>)
    ensures
        r@.len() == dms@.len(),
        forall|i: int| 0 <= i < dms@.len() ==> r@[i] == dm_pred(f@)(dms@[i]),
{
    let mut r: Vec<bool> = Vec::new();
    let mut i: usize = 0;
    while i < dms.len()
        invariant
            i <= dms@.len(),
            r@.len() == i,
            forall|t: int| 0 <= t < i ==> r@[t] == dm_pred(f@)(dms@[t]),
        decreases dms@.len() - i,
    {
        let name = dms[i].get_name();
        let lower = chars_of(to_lowercase(name.as_str()).as_str());
        r.push(contains(&lower, f));
        i = i + 1;
    }
    r
}

fn guild_marks(gs: &Vec<Guild>, f: &Vec<char>) -> (r: Vec<bool>)
    ensures
        r@.len() == gs@.len(),
        forall|i: int| 0 <= i < gs@.len() ==> r@[i] == guild_pred(f@)(gs@[i]),
{
    let mut r: Vec<bool> = Vec::new();
    let mut i: usize = 0;
    while i < gs.len()
        invariant
            i <= gs@.len(),
            r@.len() == i,
            forall|t: int| 0 <= t < i ==> r@[t] == guild_pred(f@)(gs@[t]),
        decreases gs@.len() - i,
    {
        let lower = chars_of(to_lowercase(gs[i].name.as_str()).as_str());
        r.push(contains(&lower, f));
        i = i + 1;
    }
    r
}

fn unicode_marks(es: &Vec<(String, String)>, f: &Vec<char>) -> (r: Vec<bool>)
    ensures
        r@.len() == es@.len(),
        forall|i: int| 0 <= i < es@.len() ==> r@[i] == unicode_pred(f@)(es@[i]),
{
    let mut r: Vec<bool> = Vec::new();
    let mut i: usize = 0;
    while i < es.len()
        invariant
            i <= es@.len(),
            r@.len() == i,
            forall|t: int| 0 <= t < i ==> r@[t] == unicode_pred(f@)(es@[t]),
        decreases es@.len() - i,
    {
        let name = chars_of(es[i].0.as_str());
        r.push(starts_with(&name, f));
        i = i + 1;
    }
    r
}

fn custom_marks(es: &Vec<Emoji>, f: &Vec<char>) -> (r: Vec<bool>)
    ensures
        r@.len() == es@.len(),
        forall|i: int| 0 <= i < es@.len() ==> r@[i] == custom_pred(f@)(es@[i]),
{
    let mut r: Vec<bool> = Vec::new();
    let mut i: usize = 0;
    while i < es.len()
        invariant
            i <= es@.len(),
            r@.len() == i,
            forall|t: int| 0 <= t < i ==> r@[t] == custom_pred(f@)(es@[t]),
        decreases es@.len() - i,
    {
        let name = chars_of(es[i].name.as_str());
        r.push(starts_with(&name, f));
        i = i + 1;
    }
    r
}

fn wrap_index(i: usize, len: usize, next: bool) -> (r: usize)
    requires
        len > 0,
        next ==> i < usize::MAX,
    ensures
        r == wrapped(i as int, len as int, next),
{
    if next {
        (i + 1) % len
    } else if i == 0 {
        len - 1
    } else {
        i - 1
    }
}

impl App {
    /// Number of standard and server emojis that match the filter, with
    /// the standard ones' count.
    pub fn emoji_counts(&self) -> (r: (usize, usize))
        ensures
            r.0 == filtered_unicode(self@).len(),
            r.1 == filtered_custom(self@).len(),
    {
        let um = unicode_marks(&self.emoji_map, &self.emoji_filter);
        let cm = custom_marks(&self.custom_emojis, &self.emoji_filter);
        let (nu, _) = pick_marked::<(String, String)>(&um, 0, Ghost(self@.emoji_map), Ghost(unicode_pred(self@.emoji_filter)));
        let (nc, _) = pick_marked::<Emoji>(&cm, 0, Ghost(self@.custom_emojis), Ghost(custom_pred(self@.emoji_filter)));
        (nu, nc)
    }

    /// Moves the selection down (`next`) or up, wrapping around the list.
    pub fn move_selection(&mut self, next: bool) -> (r: Option<Step>)
        requires
            total_emojis(old(self)@) <= usize::MAX,
        ensures
            r is None <==> !move_ok(old(self)@, next),
            r is None ==> final(self)@ == old(self)@,
            r matches Some(st) ==> final(self)@ == moved(old(self)@, next) && quiet(st),
    {
        let ghost old_view = self@;
        let i = self.selection_index;
        let which: u8 = match &self.state {
            AppState::Home => 0,
            AppState::SelectingDM => 1,
            AppState::SelectingGuild => 2,
            AppState::SelectingChannel(_) => 3,
            AppState::EmojiSelection(_) => 4,
            _ => 5,
        };
        if which == 0 {
            if next && i == usize::MAX {
                return None;
            }
            self.selection_index = if next {
                (i + 1) % 3
            } else if i == 0 {
                2
            } else {
                i - 1
            };
        } else if which == 1 {
            if self.dms.len() > 0 {
                if next && i == usize::MAX {
                    return None;
                }
                self.selection_index = wrap_index(i, self.dms.len(), next);
            }
        } else if which == 2 {
            if self.guilds.len() > 0 {
                if next && i == usize::MAX {
                    return None;
                }
                self.selection_index = wrap_index(i, self.guilds.len(), next);
            }
        } else if which == 3 {
            if self.channels.len() > 0 {
                let f = chars_of(to_lowercase(string_of(&self.input).as_str()).as_str());
                let rows = match count_rows(&self.channels, &self.context, &f) {
                    Some(n) => n,
                    None => {
                        return None;
                    },
                };
                if (next || i == 0) && rows == 0 {
                    return None;
                }
                if next && i == usize::MAX {
                    return None;
                }
                if rows > 0 {
                    self.selection_index = wrap_index(i, rows, next);
                } else {
                    self.selection_index = i - 1;
                }
            }
        } else if which == 4 {
            let (nu, nc) = self.emoji_counts();
            let total = nu + nc;
            if total > 0 {
                if next && self.emoji_index == usize::MAX {
                    return None;
                }
                self.emoji_index = wrap_index(self.emoji_index, total, next);
            }
        }
        assert(self@ =~= moved(old_view, next));
        Some(no_step())
    }

    fn emoji_text(&self, nu: usize, nc: usize) -> (r: Option<Vec<char>>)
        requires
            nu == filtered_unicode(self@).len(),
            nc == filtered_custom(self@).len(),
            nu + nc <= usize::MAX,
        ensures
            r matches Some(t) ==> chosen_emoji(self@) == Some(t@),
            r is None ==> chosen_emoji(self@) is None,
    {
        let i = self.selection_index;
        if i < nu {
            let um = unicode_marks(&self.emoji_map, &self.emoji_filter);
            let (_, found) = pick_marked::<(String, String)>(
                &um,
                i,
                Ghost(self@.emoji_map),
                Ghost(unicode_pred(self@.emoji_filter)),
            );
            let j = found.unwrap();
            Some(chars_of(self.emoji_map[j].1.as_str()))
        } else if i < nu + nc {
            let cm = custom_marks(&self.custom_emojis, &self.emoji_filter);
            let (_, found) = pick_marked::<Emoji>(
                &cm,
                i - nu,
                Ghost(self@.custom_emojis),
                Ghost(custom_pred(self@.emoji_filter)),
            );
            let j = found.unwrap();
            let e = &self.custom_emojis[j];
            let mut t: Vec<char> = Vec::new();
            t.push('<');
            let animated = match e.animated {
                Some(a) => a,
                None => false,
            };
            if animated {
                t.push('a');
            }
            t.push(':');
            append_str(&mut t, e.name.as_str());
            t.push(':');
            append_str(&mut t, e.id.as_str());
            t.push('>');
            proof {
                reveal_strlit("<");
                reveal_strlit("a");
                reveal_strlit(":");
                reveal_strlit(">");
            }
            assert(t@ =~= custom_emoji_text(*e));
            Some(t)
        } else {
            None
        }
    }

    /// Acts on Enter.
    pub fn submit(&mut self) -> (r: Option<Step>)
        requires
            total_emojis(old(self)@) <= usize::MAX,
        ensures
            r is None <==> !submit_ok(old(self)@),
            r is None ==> final(self)@ == old(self)@,
            r matches Some(st) ==> submitted(old(self)@, final(self)@, st),
    {
        let ghost v = self@;
        let which: u8 = match &self.state {
            AppState::Loading(_) => 0,
            AppState::Home => 1,
            AppState::SelectingDM => 2,
            AppState::SelectingGuild => 3,
            AppState::SelectingChannel(_) => 4,
            AppState::EmojiSelection(_) => 5,
            AppState::Editing(_, _, _) => 6,
            AppState::Chatting(_) => 7,
        };
        if which == 0 {
            return Some(no_step());
        }
        if which == 1 {
            let i = self.selection_index;
            if i == 0 {
                return Some(one_effect(Effect::Send(AppAction::TransitionToGuilds)));
            } else if i == 1 {
                return Some(one_effect(Effect::Send(AppAction::TransitionToDM)));
            } else if i == 2 {
                return Some(Step { keyword: Some(KeywordAction::Break), effects: Vec::new() });
            }
            return Some(no_step());
        }
        if which == 2 || which == 3 || which == 4 {
            let f = chars_of(to_lowercase(string_of(&self.input).as_str()).as_str());
            assert(f@ == list_filter(v));
            let i = self.selection_index;
            if which == 2 {
                let marks = dm_marks(&self.dms, &f);
                let (n, found) = pick_marked::<DM>(&marks, i, Ghost(v.dms), Ghost(dm_pred(f@)));
                if n == 0 {
                    return Some(Step { keyword: Some(KeywordAction::Continue), effects: Vec::new() });
                }
                let j = match found {
                    Some(j) => j,
                    None => {
                        return None;
                    },
                };
                let d = &self.dms[j];
                let mut status: Vec<char> = Vec::new();
                append_str(&mut status, "Loading messages for ");
                if d.recipients.len() == 0 {
                    append_str(&mut status, "Empty");
                } else {
                    append_str(&mut status, d.recipients[0].username.as_str());
                }
                append_str(&mut status, "...");
                let id = d.id.clone();
                self.input = Vec::new();
                self.cursor_position = 0;
                self.status_message = string_of(&status);
                assert(self@ =~= AppView {
                    input: Seq::empty(),
                    cursor_position: 0,
                    status_message: "Loading messages for "@ + dm_label(filtered_dms(v)[v.selection_index as int]) + "..."@,
                    ..v
                });
                return Some(one_effect(Effect::LoadDirectMessages { channel_id: id }));
            } else if which == 3 {
                let marks = guild_marks(&self.guilds, &f);
                let (n, found) = pick_marked::<Guild>(&marks, i, Ghost(v.guilds), Ghost(guild_pred(f@)));
                if n == 0 {
                    return Some(Step { keyword: Some(KeywordAction::Continue), effects: Vec::new() });
                }
                let j = match found {
                    Some(j) => j,
                    None => {
                        return None;
                    },
                };
                let g = &self.guilds[j];
                let mut status: Vec<char> = Vec::new();
                append_str(&mut status, "Loading channels for ");
                append_str(&mut status, g.name.as_str());
                append_str(&mut status, "...");
                let id = g.id.clone();
                self.status_message = string_of(&status);
                assert(self@ =~= AppView {
                    status_message: "Loading channels for "@ + filtered_guilds(v)[v.selection_index as int].name@ + "..."@,
                    ..v
                });
                return Some(one_effect(Effect::LoadServer { guild_id: id }));
            } else {
                let (n, picked) = pick_row(&self.channels, &self.context, &f, i);
                if n == usize::MAX {
                    return None;
                }
                let c = match picked {
                    Some(c) => c,
                    None => {
                        return Some(Step { keyword: Some(KeywordAction::Continue), effects: Vec::new() });
                    },
                };
                if c.channel_type == CATEGORY {
                    return Some(Step { keyword: Some(KeywordAction::Continue), effects: Vec::new() });
                }
                let mut status: Vec<char> = Vec::new();
                append_str(&mut status, "Loading messages for ");
                append_str(&mut status, c.name.as_str());
                append_str(&mut status, "...");
                self.input = Vec::new();
                self.cursor_position = 0;
                self.status_message = string_of(&status);
                let mut effects: Vec<Effect> = Vec::new();
                effects.push(Effect::Send(AppAction::TransitionToLoading(Window::Chat(c.id.clone()))));
                effects.push(Effect::FetchChatMessages { channel_id: c.id });
                let ghost row = selection_rows(v.channels, v.context, list_filter(v))[v.selection_index as int];
                assert(effects@ =~= seq![
                    Effect::Send(AppAction::TransitionToLoading(Window::Chat(row.id))),
                    Effect::FetchChatMessages { channel_id: row.id },
                ]);
                assert(self@ =~= AppView {
                    input: Seq::empty(),
                    cursor_position: 0,
                    status_message: "Loading messages for "@ + row.name@ + "..."@,
                    ..v
                });
                return Some(Step { keyword: None, effects });
            }
        }
        if which == 5 {
            let cid = match &self.state {
                AppState::EmojiSelection(id) => id.clone(),
                _ => {
                    return None;
                },
            };
            let st = match self.emoji_filter_start {
                Some(st) => st,
                None => {
                    return Some(no_step());
                },
            };
            let flen = match byte_length_checked(&self.emoji_filter) {
                Some(n) => n,
                None => {
                    return None;
                },
            };
            if st == usize::MAX || flen > usize::MAX - st - 1 {
                return None;
            }
            let end = st + 1 + flen;
            let (nu, nc) = self.emoji_counts();
            let text = self.emoji_text(nu, nc);
            match text {
                Some(t) => {
                    if char_index(&self.input, st).is_some() && char_index(&self.input, end).is_some() {
                        let tl = match byte_length_checked(&t) {
                            Some(n) => n,
                            None => {
                                return None;
                            },
                        };
                        if tl > usize::MAX - st - 1 {
                            return None;
                        }
                        proof {
                            crate::editing::lemma_drained_boundary(v.input, st as int, end as int);
                        }
                        drain_between(&mut self.input, st, end);
                        insert_seq_at(&mut self.input, st, &t);
                        proof {
                            crate::editing::lemma_inserted_seq_boundary(
                                drained(v.input, st as int, end as int),
                                st as int,
                                t@,
                            );
                        }
                        insert_at(&mut self.input, st + tl, ' ');
                        self.cursor_position = st + tl + 1;
                    }
                },
                None => {},
            }
            self.state = AppState::Chatting(cid);
            self.emoji_filter = Vec::new();
            self.emoji_filter_start = None;
            self.emoji_index = 0;
            self.status_message = owned(
                "Chatting in channel. Press Enter to send message, Esc to return to channels.",
            );
            assert(self@ =~= emoji_chosen(v, cid, st));
            return Some(no_step());
        }
        let mut content: Vec<char> = Vec::new();
        std::mem::swap(&mut self.input, &mut content);
        if which == 6 {
            let (cid, mid) = match &self.state {
                AppState::Editing(cid, m, _) => (cid.clone(), m.id.clone()),
                _ => {
                    return None;
                },
            };
            assert(self@ =~= AppView { input: Seq::empty(), ..v });
            if content.len() == 0 {
                return Some(no_step());
            }
            let messages = clone_messages(&self.messages);
            let e = Effect::SubmitEdit {
                channel_id: cid,
                message_id: mid,
                content: string_of(&content),
                messages,
            };
            return Some(one_effect(e));
        }
        let cid = match &self.state {
            AppState::Chatting(cid) => cid.clone(),
            _ => {
                return None;
            },
        };
        self.cursor_position = 0;
        assert(self@ =~= AppView { input: Seq::empty(), cursor_position: 0, ..v });
        if content.len() == 0 {
            return Some(no_step());
        }
        Some(one_effect(Effect::SendMessage { channel_id: cid, content: string_of(&content) }))
    }

    /// Continues Enter on a channel once its messages were fetched.
    pub fn chat_messages_loaded(&mut self, channel_id: String, fetched: Result<Vec<Message>, String>) -> (r:
        Step)
        ensures
            chat_loaded(old(self)@, channel_id, fetched, final(self)@, r),
    {
        match fetched {
            Ok(msgs) => {
                let mut effects: Vec<Effect> = Vec::new();
                effects.push(Effect::Send(AppAction::ApiUpdateMessages(channel_id, msgs)));
                effects.push(Effect::Send(AppAction::EndLoading));
                assert(effects@ =~= seq![
                    Effect::Send(AppAction::ApiUpdateMessages(channel_id, msgs)),
                    Effect::Send(AppAction::EndLoading),
                ]);
                Step { keyword: None, effects }
            },
            Err(e) => {
                let mut status: Vec<char> = Vec::new();
                append_str(&mut status, "Error loading chat: ");
                append_str(&mut status, e.as_str());
                self.status_message = string_of(&status);
                one_effect(Effect::Send(AppAction::EndLoading))
            },
        }
    }
}

/// The chat's messages with the edited message in place of the one with its id.
pub open spec fn replaced_by_id(ms: Seq<Message>, edited: Message) -> Seq<Message> {
    ms.map_values(
        |m: Message|
            if m.id@ == edited.id@ {
                edited
            } else {
                m
            },
    )
}

/// The messages with the edited one in place of the one with its id.
pub fn with_edited(messages: &Vec<Message>, edited: &Message) -> (r: Vec<Message>)
    ensures
        same_messages(r@, replaced_by_id(messages@, *edited)),
{
    let mut r: Vec<Message> = Vec::new();
    let mut i: usize = 0;
    while i < messages.len()
        invariant
            i <= messages@.len(),
            r@.len() == i,
            forall|j: int| 0 <= j < i ==> #[trigger] r@[j]@ == replaced_by_id(messages@, *edited)[j]@,
        decreases messages@.len() - i,
    {
        if messages[i].id == edited.id {
            r.push(edited.duplicate());
        } else {
            r.push(messages[i].duplicate());
        }
        i = i + 1;
    }
    r
}

/// What follows an edit sent with Enter: once the service accepted it, the
/// chat's messages with the edited one in place, then the chat is opened;
/// nothing when it failed.
pub open spec fn edit_followed(
    channel_id: String,
    messages: Seq<Message>,
    result: Result<Message, String>,
    r: Seq<AppAction>,
) -> bool {
    match result {
        Ok(m) => {
            &&& r.len() == 2
            &&& r[0] matches AppAction::ApiUpdateMessages(c, ms) && c == channel_id && same_messages(
                ms@,
                replaced_by_id(messages, m),
            )
            &&& r[1] == AppAction::TransitionToChat(channel_id)
        },
        Err(_) => r.len() == 0,
    }
}

/// The events that follow an edit, from the service's answer.
pub fn edit_submitted(channel_id: String, messages: Vec<Message>, result: Result<Message, String>) -> (r:
    Vec<AppAction>)
    ensures
        edit_followed(channel_id, messages@, result, r@),
{
    let mut r: Vec<AppAction> = Vec::new();
    match result {
        Ok(m) => {
            let ms = with_edited(&messages, &m);
            let c2 = channel_id.clone();
            r.push(AppAction::ApiUpdateMessages(channel_id, ms));
            r.push(AppAction::TransitionToChat(c2));
        },
        Err(_) => {},
    }
    r
}

} // verus!
