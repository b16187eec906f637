//! Properties of the client that span several events or operations.
use vstd::prelude::*;
use crate::text::{byte_len, char_width, index_at, contains_seq, lemma_boundary_index,
    lemma_boundary_of_index, lemma_boundary_le_len, lemma_byte_len_concat, lemma_byte_len_push};
use crate::editing::{char_before, inserted, removed_before, drained};
use crate::app::{AppView, AppState};
use crate::input::{typing_ok, typed, vim_normal, backspace_ok, backspaced, select_emoji_ok,
    emoji_selected, vim_insert, escaped};
use crate::selection::{move_ok, moved, wrapped, channel_rows, total_emojis};
use crate::app::{AppAction, Effect, Step, Window};
use crate::dispatch::handled;
use crate::events::{open_chat, opening_chat_fits, deleted_by_gateway, deleted_by_user,
    messages_arrived, not_deleted, id_differs, after_loading, message_created, chatting_in,
    newest_first};
use crate::model::{Message, MessageView};
use crate::mentions::{rendered_mentions, scan_from, dedup, apply_mentions, mention_open,
    lemma_find_from, find_from, mention_close, mention_name, mention_pattern};
use crate::model::User;
use crate::gateway::{GatewayClient, GatewayEvent, Frame, FrameOutcome, frame_handled,
    heartbeat_text};
use crate::api::roles_with_everyone;
use crate::config::{Config, settled, dictionary_of, pair_views};

verus! {

/// In a chat, erasing with backspace right after typing a character (other
/// than the `:` that opens emoji selection) gives back the input line and
/// cursor as they were.
pub proof fn law_backspace_undoes_typing(v: AppView, c: char)
    requires
        v.state is Chatting,
        !vim_normal(v),
        c != ':',
        typing_ok(v, c),
    ensures
        backspace_ok(typed(v, c)),
        backspaced(typed(v, c)) == v,
{
    let s = v.input;
    let pos = v.cursor_position as int;
    let k = index_at(s, pos);
    lemma_boundary_index(s, pos);
    lemma_boundary_le_len(s, pos);
    let s1 = inserted(s, pos, c);
    assert(s1.take(k + 1) =~= s.take(k).push(c));
    lemma_byte_len_push(s.take(k), c);
    lemma_boundary_of_index(s1, k + 1);
    let cur1 = pos + char_width(c);
    assert(index_at(s1, cur1) == k + 1);
    assert(s1[k] == c);
    assert(char_before(s1, cur1) == Some(c));
    assert(removed_before(s1, cur1) =~= s);
    assert(s =~= s.take(k) + s.skip(k));
    lemma_byte_len_concat(s.take(k), s.skip(k));
    lemma_byte_len_concat(s.take(k).push(c), s.skip(k));
    assert(byte_len(s1) == byte_len(s) + char_width(c));
    let t = typed(v, c);
    assert(t.input == s1);
    assert(t.cursor_position == cur1);
    assert(backspaced(t) =~= v);
}

/// The selected row lies within the list the screen shows (for the home
/// screen, its three entries), a list no longer than a vector can be.
pub open spec fn selection_in_range(v: AppView) -> bool {
    match v.state {
        AppState::Home => v.selection_index < 3,
        AppState::SelectingDM => v.dms.len() > 0 ==> v.selection_index < v.dms.len() <= usize::MAX,
        AppState::SelectingGuild => v.guilds.len() > 0 ==> v.selection_index < v.guilds.len()
            <= usize::MAX,
        AppState::SelectingChannel(_) => v.channels.len() > 0 ==> v.selection_index < channel_rows(v)
            <= usize::MAX,
        AppState::EmojiSelection(_) => total_emojis(v) > 0 ==> v.emoji_index < total_emojis(v)
            <= usize::MAX,
        _ => true,
    }
}

proof fn lemma_wrapped_back(i: int, len: int, next: bool)
    requires
        0 <= i < len,
    ensures
        0 <= wrapped(i, len, next) < len,
        wrapped(wrapped(i, len, next), len, !next) == i,
{
    if i + 1 < len {
        vstd::arithmetic::div_mod::lemma_small_mod((i + 1) as nat, len as nat);
    } else {
        vstd::arithmetic::div_mod::lemma_mod_self_0(len);
    }
    vstd::arithmetic::div_mod::lemma_small_mod(0, len as nat);
    if i == 0 {
        vstd::arithmetic::div_mod::lemma_small_mod((len - 1) as nat, len as nat);
        vstd::arithmetic::div_mod::lemma_mod_self_0(len);
    } else {
        vstd::arithmetic::div_mod::lemma_small_mod(i as nat, len as nat);
    }
}

/// Moving the selection down and then up (or up and then down) comes back to
/// the row it started on, the list wrapping around at both ends.
pub proof fn law_moves_cancel(v: AppView, next: bool)
    requires
        selection_in_range(v),
        move_ok(v, next),
    ensures
        selection_in_range(moved(v, next)),
        move_ok(moved(v, next), !next),
        moved(moved(v, next), !next) == v,
{
    let i = v.selection_index as int;
    let v1 = moved(v, next);
    match v.state {
        AppState::Home => {
            lemma_wrapped_back(i, 3, next);
            assert(v1.selection_index == wrapped(i, 3, next));
            assert(moved(v1, !next).selection_index == wrapped(wrapped(i, 3, next), 3, !next));
            assert(moved(v1, !next) =~= v);
        },
        AppState::SelectingDM => if v.dms.len() > 0 {
            lemma_wrapped_back(i, v.dms.len() as int, next);
            assert(moved(v1, !next) =~= v);
        },
        AppState::SelectingGuild => if v.guilds.len() > 0 {
            lemma_wrapped_back(i, v.guilds.len() as int, next);
            assert(moved(v1, !next) =~= v);
        },
        AppState::SelectingChannel(_) => if v.channels.len() > 0 {
            lemma_wrapped_back(i, channel_rows(v), next);
            assert(channel_rows(v1) == channel_rows(v));
            assert(moved(v1, !next) =~= v);
        },
        AppState::EmojiSelection(_) => if total_emojis(v) > 0 {
            lemma_wrapped_back(v.emoji_index as int, total_emojis(v), next);
            assert(total_emojis(v1) == total_emojis(v));
            assert(moved(v1, !next) =~= v);
        },
        _ => {},
    }
}

/// A message deleted while the client runs is never shown again: it leaves
/// the chat at once, and no later load of a chat's messages brings it back.
pub proof fn law_deleted_messages_stay_hidden(
    v: AppView,
    id: Seq<char>,
    by_user: bool,
    channel_id: Seq<char>,
    fetched: Seq<Message>,
)
    ensures
        ({
            let d = if by_user {
                deleted_by_user(v, id)
            } else {
                deleted_by_gateway(v, id)
            };
            &&& forall|i: int| 0 <= i < d.messages.len() ==> d.messages[i].id@ != id
            &&& forall|i: int|
                0 <= i < messages_arrived(d, channel_id, fetched).messages.len()
                    ==> messages_arrived(d, channel_id, fetched).messages[i].id@ != id
        }),
{
    let d = if by_user {
        deleted_by_user(v, id)
    } else {
        deleted_by_gateway(v, id)
    };
    assert(d.messages == v.messages.filter(id_differs(id)));
    assert(d.deleted_message_ids.contains(id));
    let a = messages_arrived(d, channel_id, fetched);
    assert(a.messages == fetched.filter(not_deleted(d.deleted_message_ids)));
    assert forall|i: int| 0 <= i < d.messages.len() implies d.messages[i].id@ != id by {
        assert(id_differs(id)(d.messages[i]));
    }
    assert forall|i: int| 0 <= i < a.messages.len() implies a.messages[i].id@ != id by {
        assert(not_deleted(d.deleted_message_ids)(a.messages[i]));
    }
}

/// A message from the gateway in the open chat keeps the chat ordered newest
/// first.
pub proof fn law_chat_stays_newest_first(v: AppView, m: Message, after: AppView, r: Step)
    requires
        chatting_in(v.state, m.channel_id@),
        handled(v, AppAction::GatewayMessageCreate(m), after, r),
    ensures
        newest_first(after.messages),
{
    assert(message_created(v, m, after, r));
}

/// A message whose text holds no `<@` is shown as its text.
pub proof fn law_text_without_mentions_unchanged(m: MessageView)
    requires
        m.content matches Some(c) && !contains_seq(c@, mention_open()),
    ensures
        rendered_mentions(m) == m.content.unwrap()@,
{
    let c = m.content.unwrap()@;
    lemma_find_from(c, mention_open(), 0);
    if let Some(j) = find_from(c, mention_open(), 0) {
        assert(crate::text::occurs_at(c, mention_open(), j));
    }
    assert(scan_from(c, 0) =~= Seq::<Seq<char>>::empty());
    assert(dedup(Seq::<Seq<char>>::empty()) =~= Seq::<Seq<char>>::empty());
}

proof fn lemma_no_users_no_change(c: Seq<char>, ids: Seq<Seq<char>>)
    ensures
        apply_mentions(c, ids, Seq::empty()) == c,
    decreases ids.len(),
{
    if ids.len() > 0 {
        lemma_no_users_no_change(c, ids.drop_last());
    }
}

/// A message that mentions no user is shown as its text, whatever `<@id>`
/// it holds.
pub proof fn law_no_mentioned_users_unchanged(m: MessageView)
    requires
        m.content is Some,
        m.mentions.len() == 0,
    ensures
        rendered_mentions(m) == m.content.unwrap()@,
{
    let c = m.content.unwrap()@;
    assert(m.mentions =~= Seq::empty());
    lemma_no_users_no_change(c, dedup(scan_from(c, 0)));
}

/// Heartbeats carry the sequence number of the last event that had one.
pub proof fn law_heartbeat_carries_last_sequence(
    before: GatewayClient,
    ev: GatewayEvent,
    after: GatewayClient,
    r: FrameOutcome,
)
    requires
        frame_handled(before, Frame::Text(Some(ev)), after, r),
    ensures
        heartbeat_text(after.sequence) == heartbeat_text(
            match ev.s {
                Some(n) => Some(n),
                None => before.sequence,
            },
        ),
        after.token == before.token,
{
}

/// Going to a list screen (home, servers, direct messages, a server's
/// channels) empties the input line and selects the first row.
pub proof fn law_list_screens_start_fresh(v: AppView, a: AppAction, after: AppView, r: Step)
    requires
        a is TransitionToHome || a is TransitionToGuilds || a is TransitionToDM
            || a is TransitionToChannels,
        handled(v, a, after, r),
    ensures
        after.input.len() == 0,
        after.cursor_position == 0,
        after.selection_index == 0,
        r.keyword is None,
        r.effects@.len() == 0,
{
}

/// Loading a window and then ending the load asks for that window.
pub proof fn law_loading_ends_in_its_window(
    v: AppView,
    w: Window,
    mid: AppView,
    r1: Step,
    after: AppView,
    r2: Step,
)
    requires
        handled(v, AppAction::TransitionToLoading(w), mid, r1),
        handled(mid, AppAction::EndLoading, after, r2),
    ensures
        after == mid,
        r2.effects@ == seq![Effect::Send(after_loading(w))],
{
}

/// A member's roles in a server always include the server's everyone role,
/// and keep every role the member had, in order.
pub proof fn law_everyone_role_included(roles: Seq<Seq<char>>, guild_id: Seq<char>)
    ensures
        roles_with_everyone(roles, guild_id).contains(guild_id),
        roles_with_everyone(roles, guild_id).take(roles.len() as int) == roles,
        roles_with_everyone(roles, guild_id).len() <= roles.len() + 1,
{
    if !roles.contains(guild_id) {
        assert(roles.push(guild_id)[roles.len() as int] == guild_id);
    }
    assert(roles_with_everyone(roles, guild_id).take(roles.len() as int) =~= roles);
}

/// Settling the configuration stores it at most once: once stored with the
/// bundled emoji dictionary (when that dictionary is not empty), settling the
/// stored configuration again changes nothing and stores nothing.
pub proof fn law_config_stored_once(
    cfg: Config,
    emojis_json: Seq<char>,
    first: (Config, bool, Option<String>),
    second: (Config, bool, Option<String>),
)
    requires
        dictionary_of(emojis_json).len() > 0,
        settled(Ok(cfg), emojis_json, first),
        settled(Ok(first.0), emojis_json, second),
    ensures
        second.0 == first.0,
        !second.1,
{
    assert(pair_views(first.0.emoji_map@).len() == first.0.emoji_map@.len());
}

/// Opening emoji selection with `:` at the start of a word and leaving it
/// again with Esc, before choosing anything, gives back the chat's input line.
pub proof fn law_cancelled_emoji_selection_restores_input(
    v: AppView,
    id: String,
    after_esc: AppView,
    r: Step,
)
    requires
        v.state == AppState::Chatting(id),
        select_emoji_ok(v),
        v.cursor_position == 0 || char_before(v.input, v.cursor_position as int) == Some(' '),
        !vim_insert(v),
        escaped(emoji_selected(v), after_esc, r),
    ensures
        emoji_selected(v).state == AppState::EmojiSelection(id),
        after_esc == emoji_selected(v),
        r.effects@ == seq![Effect::Send(AppAction::TransitionToChat(id))],
        opening_chat_fits(emoji_selected(v)),
        open_chat(emoji_selected(v), id).input == v.input,
{
    let s = v.input;
    let p = v.cursor_position as int;
    let k = index_at(s, p);
    lemma_boundary_index(s, p);
    let s1 = inserted(s, p, ':');
    let e = emoji_selected(v);
    assert(e.input == s1);
    assert(e.emoji_filter_start == Some(v.cursor_position));
    assert(e.emoji_filter.len() == 0);
    assert(byte_len(e.emoji_filter) == 0);
    assert(s1.take(k) =~= s.take(k));
    assert(s1.take(k + 1) =~= s.take(k).push(':'));
    lemma_byte_len_push(s.take(k), ':');
    lemma_boundary_of_index(s1, k);
    lemma_boundary_of_index(s1, k + 1);
    assert(index_at(s1, p) == k);
    assert(index_at(s1, p + 1) == k + 1);
    assert(drained(s1, p, p + 1) =~= s);
}

/// What no event changes: the emoji dictionary and the settings the client
/// started with; and the ids of deleted messages, which are only ever added to.
pub open spec fn keeps_settings(v: AppView, after: AppView) -> bool {
    &&& after.emoji_map == v.emoji_map
    &&& after.vim_mode == v.vim_mode
    &&& after.discreet_notifs == v.discreet_notifs
    &&& v.deleted_message_ids.subset_of(after.deleted_message_ids)
}

proof fn lemma_first_with_id_exists(s: Seq<Message>, id: Seq<char>)
    requires
        crate::events::has_id(s, id),
    ensures
        exists|p: int| crate::events::first_with_id(s, id, p),
    decreases s.len(),
{
    let i = choose|i: int| 0 <= i < s.len() && s[i].id@ == id;
    if s[0].id@ == id {
        assert(crate::events::first_with_id(s, id, 0));
    } else {
        let t = s.drop_first();
        assert(t[i - 1].id@ == id);
        lemma_first_with_id_exists(t, id);
        let p = choose|p: int| crate::events::first_with_id(t, id, p);
        assert forall|q: int| 0 <= q < p + 1 implies s[q].id@ != id by {
            if q > 0 {
                assert(s[q] == t[q - 1]);
            }
        }
        assert(crate::events::first_with_id(s, id, p + 1));
    }
}

proof fn lemma_update_keeps_settings(v: AppView, u: crate::model::PartialMessage, after: AppView)
    requires
        !crate::events::has_id(v.messages, u.id@) ==> after == v,
        forall|p: int|
            crate::events::first_with_id(v.messages, u.id@, p) ==> after
                == crate::events::message_updated(v, p, u),
    ensures
        keeps_settings(v, after),
{
    if crate::events::has_id(v.messages, u.id@) {
        lemma_first_with_id_exists(v.messages, u.id@);
        let p = choose|p: int| crate::events::first_with_id(v.messages, u.id@, p);
        assert(after == crate::events::message_updated(v, p, u));
    }
}

proof fn lemma_editing_keeps_settings(v: AppView, a: AppAction, after: AppView, r: Step)
    requires
        a is InputChar || a is InputBackspace || a is InputDelete || a is InputEscape
            || a is SelectEmoji || a is Paste || a is SelectNext || a is SelectPrevious,
        handled(v, a, after, r),
    ensures
        keeps_settings(v, after),
{
}

proof fn lemma_submit_keeps_settings(v: AppView, after: AppView, r: Step)
    requires
        crate::selection::submitted(v, after, r),
    ensures
        keeps_settings(v, after),
{
    match v.state {
        AppState::EmojiSelection(id) => match v.emoji_filter_start {
            Some(st) => {
                assert(after == crate::selection::emoji_chosen(v, id, st));
            },
            None => {},
        },
        _ => {},
    }
}

/// Every event keeps the emoji dictionary and the settings, and forgets no
/// deleted message.
#[verifier::spinoff_prover]
pub proof fn law_events_keep_settings(v: AppView, a: AppAction, after: AppView, r: Step)
    requires
        handled(v, a, after, r),
    ensures
        keeps_settings(v, after),
{
    if a is InputChar || a is InputBackspace || a is InputDelete || a is InputEscape
        || a is SelectEmoji || a is Paste || a is SelectNext || a is SelectPrevious {
        lemma_editing_keeps_settings(v, a, after, r);
    } else {
        match a {
            AppAction::GatewayMessageUpdate(u) => {
                lemma_update_keeps_settings(v, u, after);
            },
            AppAction::InputSubmit => {
                lemma_submit_keeps_settings(v, after, r);
            },
            _ => {},
        }
    }
}

proof fn lemma_seed_keeps_recorded(
    m: Map<Seq<char>, Seq<char>>,
    ds: Seq<crate::model::DM>,
    k: Seq<char>,
)
    requires
        m.contains_key(k),
    ensures
        crate::events::seed_last_ids(m, ds).contains_key(k),
        crate::events::seed_last_ids(m, ds)[k] == m[k],
    decreases ds.len(),
{
    if ds.len() > 0 {
        lemma_seed_keeps_recorded(m, ds.drop_last(), k);
    }
}

/// Refreshing the direct-message list never overwrites the last message
/// recorded for a chat.
pub proof fn law_dm_refresh_keeps_last_messages(
    v: AppView,
    dms: Vec<crate::model::DM>,
    after: AppView,
    r: Step,
    k: Seq<char>,
)
    requires
        handled(v, AppAction::ApiUpdateDMs(dms), after, r),
        v.last_message_ids.contains_key(k),
    ensures
        after.last_message_ids.contains_key(k),
        after.last_message_ids[k] == v.last_message_ids[k],
{
    lemma_seed_keeps_recorded(v.last_message_ids, dms@, k);
}

/// Deleting a message keeps the selection within the list that is left.
pub proof fn law_delete_keeps_selection_in_list(
    v: AppView,
    channel_id: String,
    message_id: String,
    after: AppView,
    r: Step,
)
    requires
        handled(v, AppAction::ApiDeleteMessage(channel_id, message_id), after, r),
    ensures
        after.selection_index <= after.messages.len(),
        forall|i: int| 0 <= i < after.messages.len() ==> after.messages[i].id@ != message_id@,
{
    let kept = v.messages.filter(id_differs(message_id@));
    assert(after.messages == kept);
    assert forall|i: int| 0 <= i < after.messages.len() implies after.messages[i].id@
        != message_id@ by {
        assert(id_differs(message_id@)(kept[i]));
    }
}

proof fn lemma_scanned_ids_occur(c: Seq<char>, pos: int)
    requires
        0 <= pos,
    ensures
        forall|k: int|
            0 <= k < scan_from(c, pos).len() ==> contains_seq(
                c,
                mention_pattern(#[trigger] scan_from(c, pos)[k]),
            ),
    decreases c.len() - pos,
{
    lemma_find_from(c, mention_open(), pos);
    match find_from(c, mention_open(), pos) {
        None => {},
        Some(i) => {
            lemma_find_from(c, mention_close(), i + 2);
            match find_from(c, mention_close(), i + 2) {
                None => {},
                Some(j) => {
                    let id = c.subrange(i + 2, j);
                    assert(c.subrange(i, i + 2) == mention_open());
                    assert(c.subrange(j, j + 1) == mention_close());
                    assert forall|t: int| 0 <= t < j + 1 - i implies c.subrange(i, j + 1)[t]
                        == mention_pattern(id)[t] by {
                        if t < 2 {
                            assert(c.subrange(i, i + 2)[t] == c[i + t]);
                        } else if t < j - i {
                            assert(id[t - 2] == c[i + t]);
                        } else {
                            assert(c.subrange(j, j + 1)[0] == c[j]);
                        }
                    }
                    assert(c.subrange(i, j + 1) =~= mention_pattern(id));
                    assert(crate::text::occurs_at(c, mention_pattern(id), i));
                    assert(contains_seq(c, mention_pattern(id)));
                    let here = if crate::text::all_digits(id) {
                        seq![id]
                    } else {
                        Seq::<Seq<char>>::empty()
                    };
                    if pos < j + 1 <= c.len() {
                        lemma_scanned_ids_occur(c, j + 1);
                        let rest = scan_from(c, j + 1);
                        assert(scan_from(c, pos) == here + rest);
                        assert forall|k: int| 0 <= k < scan_from(c, pos).len() implies contains_seq(
                            c,
                            mention_pattern(#[trigger] scan_from(c, pos)[k]),
                        ) by {
                            if k < here.len() {
                                assert(scan_from(c, pos)[k] == id);
                            } else {
                                assert(scan_from(c, pos)[k] == rest[k - here.len()]);
                            }
                        }
                    } else {
                        assert(scan_from(c, pos) == here);
                        assert forall|k: int| 0 <= k < scan_from(c, pos).len() implies contains_seq(
                            c,
                            mention_pattern(#[trigger] scan_from(c, pos)[k]),
                        ) by {
                            assert(scan_from(c, pos)[k] == id);
                        }
                    }
                },
            }
        },
    }
}

proof fn lemma_dedup_from(s: Seq<Seq<char>>, x: Seq<char>)
    requires
        dedup(s).contains(x),
    ensures
        s.contains(x),
    decreases s.len(),
{
    if s.len() > 0 {
        let d = dedup(s.drop_last());
        if d.contains(x) {
            lemma_dedup_from(s.drop_last(), x);
            let i = choose|i: int| 0 <= i < s.drop_last().len() && s.drop_last()[i] == x;
            assert(s[i] == x);
        } else {
            assert(x == s.last());
            assert(s[s.len() - 1] == x);
        }
    }
}

proof fn lemma_other_user_ignored(c: Seq<char>, ids: Seq<Seq<char>>, ms: Seq<User>, u: User)
    requires
        !ids.contains(u.id@),
    ensures
        apply_mentions(c, ids, ms.push(u)) == apply_mentions(c, ids, ms),
    decreases ids.len(),
{
    if ids.len() > 0 {
        assert(!ids.drop_last().contains(u.id@)) by {
            if ids.drop_last().contains(u.id@) {
                let i = choose|i: int| 0 <= i < ids.drop_last().len() && ids.drop_last()[i] == u.id@;
                assert(ids[i] == u.id@);
            }
        }
        lemma_other_user_ignored(c, ids.drop_last(), ms, u);
        assert(ids[ids.len() - 1] != u.id@);
        assert(ms.push(u).drop_last() =~= ms);
        assert(mention_name(ms.push(u), ids.last()) == mention_name(ms, ids.last()));
    }
}

/// Adding to a message's mentioned users one whose mention does not occur in
/// its text changes nothing that is shown.
pub proof fn law_unmentioned_user_changes_nothing(m: MessageView, u: User)
    requires
        m.content matches Some(c) && !contains_seq(c@, mention_pattern(u.id@)),
    ensures
        rendered_mentions(MessageView { mentions: m.mentions.push(u), ..m }) == rendered_mentions(m),
{
    let c = m.content.unwrap()@;
    let ids = dedup(scan_from(c, 0));
    lemma_scanned_ids_occur(c, 0);
    assert(!ids.contains(u.id@)) by {
        if ids.contains(u.id@) {
            lemma_dedup_from(scan_from(c, 0), u.id@);
            let k = choose|k: int| 0 <= k < scan_from(c, 0).len() && scan_from(c, 0)[k] == u.id@;
            assert(contains_seq(c, mention_pattern(scan_from(c, 0)[k])));
        }
    }
    lemma_other_user_ignored(c, ids, m.mentions, u);
}

/// Starting to edit a message and then going back to the chat brings back
/// the input line that was there before the edit, and forgets it.
pub proof fn law_edit_round_trip_restores_input(
    v: AppView,
    ch: String,
    m: Message,
    content: String,
    k: char,
    mid: AppView,
    r1: Step,
    after: AppView,
    r2: Step,
)
    requires
        v.state == AppState::Chatting(ch),
        handled(v, AppAction::TransitionToEditing(ch, m, content, k), mid, r1),
        handled(mid, AppAction::TransitionToChat(ch), after, r2),
    ensures
        mid.input == content@,
        mid.saved_input == Some(v.input),
        mid.state == AppState::Editing(ch, m, content),
        after.input == v.input,
        after.saved_input is None,
        after.state == AppState::Chatting(ch),
        after.cursor_position == 0,
        after.selection_index == 0,
{
}

/// Down then up, or up then down, handled as events, comes back to the row it
/// started on; the selection stays within the list after each move.
pub proof fn law_selection_events_cancel(
    v: AppView,
    first: AppAction,
    second: AppAction,
    mid: AppView,
    r1: Step,
    after: AppView,
    r2: Step,
)
    requires
        (first is SelectNext && second is SelectPrevious) || (first is SelectPrevious
            && second is SelectNext),
        selection_in_range(v),
        move_ok(v, first is SelectNext),
        handled(v, first, mid, r1),
        handled(mid, second, after, r2),
    ensures
        selection_in_range(mid),
        selection_in_range(after),
        after == v,
{
    law_moves_cancel(v, first is SelectNext);
    law_moves_cancel(mid, second is SelectNext);
}

/// Whether a run of events was handled one after the other.
pub open spec fn handled_run(states: Seq<AppView>, events: Seq<AppAction>, steps: Seq<Step>) -> bool {
    &&& states.len() == events.len() + 1
    &&& steps.len() == events.len()
    &&& forall|i: int| 0 <= i < events.len() ==> handled(states[i], events[i], states[i + 1], steps[i])
}

proof fn lemma_run_keeps_deleted(states: Seq<AppView>, events: Seq<AppAction>, steps: Seq<Step>, j: int)
    requires
        handled_run(states, events, steps),
        0 <= j < states.len(),
    ensures
        states[0].deleted_message_ids.subset_of(states[j].deleted_message_ids),
    decreases j,
{
    if j > 0 {
        lemma_run_keeps_deleted(states, events, steps, j - 1);
        law_events_keep_settings(states[j - 1], events[j - 1], states[j], steps[j - 1]);
    }
}

/// A message deleted through the gateway is not shown by any later load of
/// the shown chat's messages, whatever events came in between.
pub proof fn law_deleted_message_never_reappears(
    states: Seq<AppView>,
    events: Seq<AppAction>,
    steps: Seq<Step>,
    id: String,
    channel: String,
    ch: String,
    fetched: Vec<Message>,
)
    requires
        handled_run(states, events, steps),
        events.len() >= 2,
        events[0] == AppAction::GatewayMessageDelete(id, channel),
        events.last() == AppAction::ApiUpdateMessages(ch, fetched),
        crate::events::shows_chat(states[events.len() - 1].state, ch@),
    ensures
        forall|i: int|
            0 <= i < states.last().messages.len() ==> states.last().messages[i].id@ != id@,
{
    let n = events.len() as int;
    assert(handled(states[0], events[0], states[1], steps[0]));
    assert(states[1].deleted_message_ids.contains(id@));
    let tail = states.drop_first();
    assert(handled_run(tail, events.drop_first(), steps.drop_first())) by {
        assert forall|i: int| 0 <= i < events.drop_first().len() implies handled(
            tail[i],
            events.drop_first()[i],
            tail[i + 1],
            steps.drop_first()[i],
        ) by {
            assert(handled(states[i + 1], events[i + 1], states[i + 2], steps[i + 1]));
        }
    }
    lemma_run_keeps_deleted(tail, events.drop_first(), steps.drop_first(), n - 2);
    let before = states[n - 1];
    assert(before.deleted_message_ids.contains(id@));
    assert(handled(states[n - 1], events[n - 1], states[n], steps[n - 1]));
    let a = states[n];
    assert(a.messages == fetched@.filter(not_deleted(before.deleted_message_ids)));
    assert forall|i: int| 0 <= i < a.messages.len() implies a.messages[i].id@ != id@ by {
        assert(not_deleted(before.deleted_message_ids)(a.messages[i]));
    }
}

/// A character typed during emoji selection (not a space) goes in at the
/// cursor, and the filter becomes the text between the `:` and the cursor,
/// which is then not empty, so selection goes on.
pub proof fn law_typing_extends_emoji_filter(v: AppView, ch: String, c: char, after: AppView, r: Step)
    requires
        v.state == AppState::EmojiSelection(ch),
        c != ' ',
        c != ':',
        !vim_normal(v),
        typing_ok(v, c),
        v.emoji_filter_start matches Some(st) && st < v.cursor_position,
        crate::input::char_handled(v, c, after, r),
    ensures
        after.input == inserted(v.input, v.cursor_position as int, c),
        after.cursor_position == v.cursor_position + char_width(c),
        after.emoji_filter == crate::editing::between(
            after.input,
            v.emoji_filter_start.unwrap() + 1,
            after.cursor_position as int,
        ),
        after.emoji_filter.len() > 0,
        after.state == AppState::EmojiSelection(ch),
        after.selection_index == 0,
{
    let s = v.input;
    let p = v.cursor_position as int;
    let st = v.emoji_filter_start.unwrap() as int;
    let k = index_at(s, p);
    lemma_boundary_index(s, p);
    lemma_boundary_le_len(s, p);
    let s1 = inserted(s, p, c);
    let cur1 = p + char_width(c);
    assert(s =~= s.take(k) + s.skip(k));
    lemma_byte_len_concat(s.take(k), s.skip(k));
    lemma_byte_len_concat(s.take(k).push(c), s.skip(k));
    lemma_byte_len_push(s.take(k), c);
    assert(byte_len(s1) == byte_len(s) + char_width(c));
    let fs = st + 1;
    assert(fs <= p);
    assert(cur1 <= byte_len(s1));
    let f = crate::input::refiltered(s1, cur1, v.emoji_filter_start);
    assert(crate::input::min(cur1, byte_len(s1) as int) == cur1);
    assert(f == crate::editing::between(s1, fs, cur1));
    let ka = index_at(s1, fs);
    let kb = index_at(s1, cur1);
    lemma_boundary_index(s1, fs);
    lemma_boundary_index(s1, cur1);
    if kb <= ka {
        crate::text::lemma_byte_len_take_le(s1, kb, ka);
    }
    assert(f.len() > 0);
}

/// Whether a run of frames was handled one after the other by a session.
pub open spec fn frames_handled(
    states: Seq<GatewayClient>,
    frames: Seq<Frame>,
    outcomes: Seq<FrameOutcome>,
) -> bool {
    &&& states.len() == frames.len() + 1
    &&& outcomes.len() == frames.len()
    &&& forall|i: int|
        0 <= i < frames.len() ==> frame_handled(states[i], frames[i], states[i + 1], outcomes[i])
}

/// The sequence number of the last event of a run that carried one, else the
/// one the session started with.
pub open spec fn last_sequence(start: Option<u64>, frames: Seq<Frame>) -> Option<u64>
    decreases frames.len(),
{
    if frames.len() == 0 {
        start
    } else {
        match frames.last() {
            Frame::Text(Some(ev)) => match ev.s {
                Some(n) => Some(n),
                None => last_sequence(start, frames.drop_last()),
            },
            _ => last_sequence(start, frames.drop_last()),
        }
    }
}

/// A frame that ends the session: a close, an error, or the end of the stream.
pub open spec fn ends_session(f: Frame) -> bool {
    f is Close || f is Error || f is Ended
}

/// The event a frame hands over: a dispatch's, when it has a name and data.
pub open spec fn frame_event(f: Frame) -> Option<AppAction> {
    match f {
        Frame::Text(Some(ev)) => if ev.op == crate::gateway::OP_DISPATCH {
            match (ev.t, ev.d) {
                (Some(t), Some(d)) => crate::gateway::dispatch_action(t@, d),
                _ => None,
            }
        } else {
            None
        },
        _ => None,
    }
}

/// The events of a run of frames, in order, up to the first frame that ends
/// the session.
pub open spec fn dispatched(frames: Seq<Frame>) -> Seq<AppAction>
    decreases frames.len(),
{
    if frames.len() == 0 || ends_session(frames[0]) {
        Seq::empty()
    } else {
        (match frame_event(frames[0]) {
            Some(a) => seq![a],
            None => Seq::empty(),
        }) + dispatched(frames.drop_first())
    }
}

/// The events a run of outcomes hands over, in order, up to the first stop.
pub open spec fn handed_over(outcomes: Seq<FrameOutcome>) -> Seq<AppAction>
    decreases outcomes.len(),
{
    if outcomes.len() == 0 {
        Seq::empty()
    } else {
        match outcomes[0] {
            FrameOutcome::Stop => Seq::empty(),
            FrameOutcome::Continue(a) => (match a {
                Some(x) => seq![x],
                None => Seq::empty(),
            }) + handed_over(outcomes.drop_first()),
        }
    }
}

proof fn lemma_frames_tail(states: Seq<GatewayClient>, frames: Seq<Frame>, outcomes: Seq<FrameOutcome>)
    requires
        frames_handled(states, frames, outcomes),
        frames.len() > 0,
    ensures
        frames_handled(states.drop_first(), frames.drop_first(), outcomes.drop_first()),
{
    assert forall|i: int| 0 <= i < frames.drop_first().len() implies frame_handled(
        states.drop_first()[i],
        frames.drop_first()[i],
        states.drop_first()[i + 1],
        outcomes.drop_first()[i],
    ) by {
        assert(frame_handled(states[i + 1], frames[i + 1], states[i + 2], outcomes[i + 1]));
    }
}

proof fn lemma_frames_prefix(states: Seq<GatewayClient>, frames: Seq<Frame>, outcomes: Seq<FrameOutcome>)
    requires
        frames_handled(states, frames, outcomes),
        frames.len() > 0,
    ensures
        frames_handled(states.drop_last(), frames.drop_last(), outcomes.drop_last()),
{
    assert forall|i: int| 0 <= i < frames.drop_last().len() implies frame_handled(
        states.drop_last()[i],
        frames.drop_last()[i],
        states.drop_last()[i + 1],
        outcomes.drop_last()[i],
    ) by {
        assert(frame_handled(states[i], frames[i], states[i + 1], outcomes[i]));
    }
}

/// Over any run of frames, heartbeats carry the sequence number of the last
/// event that had one (or what the session started with), and the token
/// stays the same.
pub proof fn law_heartbeats_follow_the_run(
    states: Seq<GatewayClient>,
    frames: Seq<Frame>,
    outcomes: Seq<FrameOutcome>,
)
    requires
        frames_handled(states, frames, outcomes),
    ensures
        states.last().sequence == last_sequence(states[0].sequence, frames),
        heartbeat_text(states.last().sequence) == heartbeat_text(
            last_sequence(states[0].sequence, frames),
        ),
        states.last().token == states[0].token,
    decreases frames.len(),
{
    if frames.len() > 0 {
        lemma_frames_prefix(states, frames, outcomes);
        law_heartbeats_follow_the_run(states.drop_last(), frames.drop_last(), outcomes.drop_last());
        let n = frames.len() - 1;
        assert(frame_handled(states[n], frames[n], states[n + 1], outcomes[n]));
        assert(states.drop_last().last() == states[n]);
        assert(states.drop_last()[0] == states[0]);
    }
}

/// A session hands over the events of the dispatches it receives in the
/// order they arrive, and stops at the first close, error or end of the
/// stream, and not before.
pub proof fn law_frames_handled_in_order(
    states: Seq<GatewayClient>,
    frames: Seq<Frame>,
    outcomes: Seq<FrameOutcome>,
)
    requires
        frames_handled(states, frames, outcomes),
    ensures
        handed_over(outcomes) == dispatched(frames),
        forall|i: int| 0 <= i < frames.len() ==> (#[trigger] outcomes[i] is Stop <==> ends_session(frames[i])),
    decreases frames.len(),
{
    assert forall|i: int| 0 <= i < frames.len() implies (#[trigger] outcomes[i] is Stop
        <==> ends_session(frames[i])) by {
        assert(frame_handled(states[i], frames[i], states[i + 1], outcomes[i]));
    }
    if frames.len() > 0 {
        assert(frame_handled(states[0], frames[0], states[1], outcomes[0]));
        if !ends_session(frames[0]) {
            lemma_frames_tail(states, frames, outcomes);
            law_frames_handled_in_order(states.drop_first(), frames.drop_first(), outcomes.drop_first());
            assert(outcomes[0] == FrameOutcome::Continue(frame_event(frames[0])));
        }
    }
}

/// Loading ends in the window that was being loaded: the queued transition
/// opens exactly that window (a server's loading ends in that server's
/// channel list, a chat's in that chat).
pub proof fn law_end_loading_opens_the_loaded_window(v: AppView, after: AppView, r: Step)
    requires
        handled(v, AppAction::EndLoading, after, r),
    ensures
        after == v,
        r.keyword is None,
        v.state == AppState::Loading(Window::Home) ==> r.effects@ == seq![
            Effect::Send(AppAction::TransitionToHome),
        ],
        v.state == AppState::Loading(Window::Guild) ==> r.effects@ == seq![
            Effect::Send(AppAction::TransitionToGuilds),
        ],
        v.state == AppState::Loading(Window::DM) ==> r.effects@ == seq![
            Effect::Send(AppAction::TransitionToDM),
        ],
        forall|g: String|
            v.state == AppState::Loading(Window::Channel(g)) ==> r.effects@ == seq![
                Effect::Send(AppAction::TransitionToChannels(g)),
            ],
        forall|c: String|
            v.state == AppState::Loading(Window::Chat(c)) ==> r.effects@ == seq![
                Effect::Send(AppAction::TransitionToChat(c)),
            ],
        !(v.state is Loading) ==> r.effects@.len() == 0,
{
}

/// The screen a window shows once it is open.
pub open spec fn shows_window(s: AppState, w: Window) -> bool {
    match w {
        Window::Home => s == AppState::Home,
        Window::Guild => s == AppState::SelectingGuild,
        Window::DM => s == AppState::SelectingDM,
        Window::Channel(g) => s == AppState::SelectingChannel(g),
        Window::Chat(c) => s == AppState::Chatting(c),
    }
}

/// Loading a window, ending the load and handling the event it queues leaves
/// the client on that window's screen.
pub proof fn law_loading_round_trip(
    v: AppView,
    w: Window,
    a: AppAction,
    v1: AppView,
    r1: Step,
    v2: AppView,
    r2: Step,
    v3: AppView,
    r3: Step,
)
    requires
        handled(v, AppAction::TransitionToLoading(w), v1, r1),
        handled(v1, AppAction::EndLoading, v2, r2),
        r2.effects@ == seq![Effect::Send(a)],
        handled(v2, a, v3, r3),
    ensures
        shows_window(v3.state, w),
{
    assert(v1.state == AppState::Loading(w));
    law_end_loading_opens_the_loaded_window(v1, v2, r2);
    assert(r2.effects@[0] == Effect::Send(a));
    match w {
        Window::Home => {
            assert(a == AppAction::TransitionToHome);
        },
        Window::Guild => {
            assert(a == AppAction::TransitionToGuilds);
        },
        Window::DM => {
            assert(a == AppAction::TransitionToDM);
        },
        Window::Channel(g) => {
            assert(a == AppAction::TransitionToChannels(g));
        },
        Window::Chat(c) => {
            assert(a == AppAction::TransitionToChat(c));
        },
    }
}

/// Delete in a chat, with the cursor at the start of a character, removes
/// exactly that character and leaves the cursor where it was.
pub proof fn law_delete_removes_the_character_at_the_cursor(v: AppView, after: AppView, r: Step)
    requires
        v.state is Chatting,
        crate::input::delete_ok(v),
        handled(v, AppAction::InputDelete, after, r),
        v.cursor_position < byte_len(v.input),
        crate::text::is_boundary(v.input, v.cursor_position as int),
    ensures
        after.input == v.input.take(index_at(v.input, v.cursor_position as int)) + v.input.skip(
            index_at(v.input, v.cursor_position as int) + 1,
        ),
        after.cursor_position == v.cursor_position,
{
    let s = v.input;
    let p = v.cursor_position as int;
    let k = index_at(s, p);
    lemma_boundary_index(s, p);
    if s.len() == 0 {
        assert(byte_len(s) == 0);
    }
    assert(s.len() > 0);
    assert(crate::input::chat_delete_cursor(v) == p);
    assert(crate::text::is_boundary(s, p + 1));
    let k1 = index_at(s, p + 1);
    lemma_boundary_index(s, p + 1);
    lemma_boundary_le_len(s, p + 1);
    if k1 <= k {
        crate::text::lemma_byte_len_take_le(s, k1, k);
    }
    assert(k < s.len()) by {
        if k == s.len() {
            crate::text::lemma_byte_len_full(s);
        }
    }
    crate::text::lemma_byte_len_take_step(s, k);
    if k1 > k + 1 {
        crate::text::lemma_byte_len_take_le(s, k + 1, k1);
    }
    assert(k1 == k + 1);
    assert(after.input == removed_before(s, p + 1));
}

/// Whether a DM's listed name contains the input, both lowercased.
pub open spec fn dm_offered(d: crate::model::DM, input: Seq<char>) -> bool {
    contains_seq(crate::text::lowercase(d.name_spec()), crate::text::lowercase(input))
}

/// Enter on the direct-message list opens a DM whose name, lowercased,
/// contains the lowercased input; one opens whenever such a DM is listed, and
/// otherwise nothing opens.
pub proof fn law_dm_filter_ignores_case(v: AppView, after: AppView, r: Step)
    requires
        v.state == AppState::SelectingDM,
        crate::selection::submit_ok(v),
        handled(v, AppAction::InputSubmit, after, r),
    ensures
        (exists|i: int| 0 <= i < v.dms.len() && dm_offered(#[trigger] v.dms[i], v.input)) ==> {
            &&& r.keyword is None
            &&& r.effects@.len() == 1
            &&& r.effects@[0] matches Effect::LoadDirectMessages { channel_id }
            &&& exists|j: int|
                0 <= j < v.dms.len() && #[trigger] v.dms[j].id == channel_id && dm_offered(
                    v.dms[j],
                    v.input,
                )
        },
        !(exists|i: int| 0 <= i < v.dms.len() && dm_offered(#[trigger] v.dms[i], v.input)) ==> {
            &&& r.keyword == Some(crate::app::KeywordAction::Continue)
            &&& r.effects@.len() == 0
        },
{
    let f = crate::selection::filtered_dms(v);
    let pred = crate::selection::dm_pred(crate::selection::list_filter(v));
    assert(f == v.dms.filter(pred));
    if exists|i: int| 0 <= i < v.dms.len() && dm_offered(#[trigger] v.dms[i], v.input) {
        let i = choose|i: int| 0 <= i < v.dms.len() && dm_offered(#[trigger] v.dms[i], v.input);
        assert(pred(v.dms[i]));
        v.dms.lemma_filter_contains(pred, i);
        assert(f.len() > 0);
        let sel = v.selection_index as int;
        v.dms.lemma_filter_pred(pred, sel);
        v.dms.lemma_filter_contains_rev(pred, f[sel]);
        assert(f.contains(f[sel]));
        let j = choose|j: int| 0 <= j < v.dms.len() && v.dms[j] == f[sel];
        assert(v.dms[j].id == f[sel].id);
        assert(dm_offered(v.dms[j], v.input));
    } else {
        if f.len() > 0 {
            v.dms.lemma_filter_pred(pred, 0);
            v.dms.lemma_filter_contains_rev(pred, f[0]);
            assert(f.contains(f[0]));
            let j = choose|j: int| 0 <= j < v.dms.len() && v.dms[j] == f[0];
            assert(dm_offered(v.dms[j], v.input));
        }
    }
}

/// The message dispatches become client events: a created message, an edit
/// (with what it carries), and a deletion with the message and channel ids.
pub proof fn law_message_dispatches_become_events(d: crate::gateway::EventData)
    ensures
        d.as_message matches Some(m) ==> crate::gateway::dispatch_action("MESSAGE_CREATE"@, d)
            == Some(AppAction::GatewayMessageCreate(m)),
        d.as_partial matches Some(p) ==> crate::gateway::dispatch_action("MESSAGE_UPDATE"@, d)
            == Some(AppAction::GatewayMessageUpdate(p)),
        d.id matches Some(i) ==> (d.channel_id matches Some(c) ==> crate::gateway::dispatch_action(
            "MESSAGE_DELETE"@,
            d,
        ) == Some(AppAction::GatewayMessageDelete(i, c))),
{
    reveal_strlit("MESSAGE_CREATE");
    reveal_strlit("MESSAGE_UPDATE");
    reveal_strlit("MESSAGE_DELETE");
    assert("MESSAGE_UPDATE"@ != "MESSAGE_CREATE"@) by {
        assert("MESSAGE_UPDATE"@[8] != "MESSAGE_CREATE"@[8]);
    }
    assert("MESSAGE_DELETE"@ != "MESSAGE_CREATE"@) by {
        assert("MESSAGE_DELETE"@[8] != "MESSAGE_CREATE"@[8]);
    }
    assert("MESSAGE_DELETE"@ != "MESSAGE_UPDATE"@) by {
        assert("MESSAGE_DELETE"@[8] != "MESSAGE_UPDATE"@[8]);
    }
}

/// A dispatch frame for an edit hands the edit over to the client.
pub proof fn law_edit_frames_reach_the_client(
    before: GatewayClient,
    ev: GatewayEvent,
    p: crate::model::PartialMessage,
    after: GatewayClient,
    r: FrameOutcome,
)
    requires
        ev.op == crate::gateway::OP_DISPATCH,
        ev.t matches Some(t) && t@ == "MESSAGE_UPDATE"@,
        ev.d matches Some(d) && d.as_partial == Some(p),
        frame_handled(before, Frame::Text(Some(ev)), after, r),
    ensures
        r == FrameOutcome::Continue(Some(AppAction::GatewayMessageUpdate(p))),
{
    law_message_dispatches_become_events(ev.d.unwrap());
}

/// Whether the channel is readable and its lowercased name contains the
/// filter (an empty filter matches every name).
pub open spec fn shown_channel(
    c: crate::model::Channel,
    ctx: Option<crate::model::PermissionContext>,
    filter: Seq<char>,
) -> bool {
    crate::channels::readable_in(c, ctx) && (filter.len() == 0 || contains_seq(
        crate::text::lowercase(c.name@),
        filter,
    ))
}

/// A channel that is not a category adds one row to the channel list that
/// Up and Down move through when it is shown, and none otherwise.
pub proof fn law_plain_channel_adds_one_row(
    s: Seq<crate::model::Channel>,
    c: crate::model::Channel,
    ctx: Option<crate::model::PermissionContext>,
    filter: Seq<char>,
)
    requires
        c.channel_type != crate::channels::CATEGORY,
    ensures
        crate::channels::list_rows(s.push(c), ctx, filter) == crate::channels::list_rows(
            s,
            ctx,
            filter,
        ) + if shown_channel(c, ctx, filter) {
            1int
        } else {
            0int
        },
{
    assert(s.push(c).drop_last() =~= s);
}

/// With an empty filter, a list of readable channels none of which is a
/// category has one row per channel.
pub proof fn law_readable_channels_all_rows(
    s: Seq<crate::model::Channel>,
    ctx: Option<crate::model::PermissionContext>,
)
    requires
        forall|i: int|
            0 <= i < s.len() ==> (#[trigger] s[i]).channel_type != crate::channels::CATEGORY
                && crate::channels::readable_in(s[i], ctx),
    ensures
        crate::channels::list_rows(s, ctx, Seq::empty()) == s.len(),
    decreases s.len(),
{
    if s.len() > 0 {
        let t = s.drop_last();
        assert forall|i: int| 0 <= i < t.len() implies (#[trigger] t[i]).channel_type
            != crate::channels::CATEGORY && crate::channels::readable_in(t[i], ctx) by {
            assert(t[i] == s[i]);
        }
        law_readable_channels_all_rows(t, ctx);
        assert(s.last() == s[s.len() - 1]);
        law_plain_channel_adds_one_row(t, s.last(), ctx, Seq::empty());
        assert(t.push(s.last()) =~= s);
    }
}

} // verus!
