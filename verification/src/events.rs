//! Screen transitions and the handling of data that arrives from the server.
use vstd::prelude::*;
use crate::text::{byte_len, char_width, owned, chars_of, str_byte_len, len_utf8, parse_u64_spec,
    parse_u64};
use crate::editing::drained;
use crate::model::{Channel, DM, Emoji, Guild, Message, PartialMessage, PermissionContext, User};
use crate::channels::grouped;
use crate::keyed::{string_set, map_insert, map_insert_if_absent, set_insert, set_contains};
use crate::app::{App, AppView, AppState, AppAction, Effect, InputMode, KeywordAction, Step, Window,
    VimStateView, home_status, servers_loaded_status, select_server_status, select_dm_status,
    channels_loaded_status, no_channels_status, dms_loaded_status, no_dms_status, chatting_status,
    editing_status, loading_status};

verus! {

pub open spec fn no_effects(r: Step) -> bool {
    r.keyword is None && r.effects@.len() == 0
}

pub open spec fn only_effect(r: Step, e: Effect) -> bool {
    r.keyword is None && r.effects@ == seq![e]
}

/// The screen after moving to a selection list: empty input, first row selected.
pub open spec fn list_screen(old: AppView, s: AppState, status: Seq<char>) -> AppView {
    AppView {
        input: Seq::empty(),
        cursor_position: 0,
        state: s,
        status_message: status,
        selection_index: 0,
        ..old
    }
}

/// The input line when a chat opens: a pending emoji filter (the `:` and the
/// text after it) is cut out; leaving an edit brings back the saved input.
pub open spec fn chat_input(old: AppView) -> Seq<char> {
    match old.state {
        AppState::EmojiSelection(_) => match old.emoji_filter_start {
            Some(st) => {
                let end = st + 1 + byte_len(old.emoji_filter);
                if crate::text::is_boundary(old.input, st as int) && crate::text::is_boundary(
                    old.input,
                    end,
                ) {
                    drained(old.input, st as int, end)
                } else {
                    old.input
                }
            },
            None => old.input,
        },
        AppState::Editing(_, _, _) => match old.saved_input {
            Some(s) => s,
            None => Seq::empty(),
        },
        _ => old.input,
    }
}

pub open spec fn opening_chat_fits(old: AppView) -> bool {
    match old.state {
        AppState::EmojiSelection(_) => match old.emoji_filter_start {
            Some(st) => st + 1 + byte_len(old.emoji_filter) <= usize::MAX,
            None => true,
        },
        _ => true,
    }
}

pub open spec fn open_chat(old: AppView, channel_id: String) -> AppView {
    let from_emoji = old.state is EmojiSelection;
    let from_edit = old.state is Editing;
    AppView {
        input: chat_input(old),
        saved_input: if from_edit {
            None
        } else {
            old.saved_input
        },
        emoji_filter: if from_emoji {
            Seq::empty()
        } else {
            old.emoji_filter
        },
        emoji_filter_start: if from_emoji {
            None
        } else {
            old.emoji_filter_start
        },
        state: AppState::Chatting(channel_id),
        chat_scroll_offset: 0,
        cursor_position: 0,
        selection_index: 0,
        status_message: chatting_status(),
        ..old
    }
}

/// The cursor when an edit starts: before the text for `i`/`I`, after its
/// first character for `a`, else at its end.
pub open spec fn edit_cursor(content: Seq<char>, c: char) -> int {
    if c == 'i' || c == 'I' {
        0
    } else if c == 'a' {
        if content.len() > 0 {
            char_width(content[0]) as int
        } else {
            0
        }
    } else {
        byte_len(content) as int
    }
}

pub open spec fn start_edit(
    old: AppView,
    channel_id: String,
    message: Message,
    content: String,
    c: char,
) -> AppView {
    AppView {
        saved_input: Some(old.input),
        input: content@,
        mode: if old.vim_mode {
            InputMode::Insert
        } else {
            old.mode
        },
        vim_state: if old.vim_mode {
            match old.vim_state {
                Some(v) => Some(VimStateView { operator: None, pending_keys: Seq::empty() }),
                None => None,
            }
        } else {
            old.vim_state
        },
        cursor_position: edit_cursor(content@, c) as usize,
        selection_index: 0,
        state: AppState::Editing(channel_id, message, content),
        status_message: editing_status(),
        ..old
    }
}

/// The transition queued when loading for the given window ends.
pub open spec fn after_loading(w: Window) -> AppAction {
    match w {
        Window::Home => AppAction::TransitionToHome,
        Window::Guild => AppAction::TransitionToGuilds,
        Window::DM => AppAction::TransitionToDM,
        Window::Channel(g) => AppAction::TransitionToChannels(g),
        Window::Chat(c) => AppAction::TransitionToChat(c),
    }
}

/// Every listed direct-message channel with a known last message gets it
/// recorded, unless one is recorded already.
pub open spec fn seed_last_ids(m: Map<Seq<char>, Seq<char>>, ds: Seq<DM>) -> Map<
    Seq<char>,
    Seq<char>,
>
    decreases ds.len(),
{
    if ds.len() == 0 {
        m
    } else {
        let prev = seed_last_ids(m, ds.drop_last());
        let d = ds.last();
        match d.last_message_id {
            Some(x) => if prev.contains_key(d.id@) {
                prev
            } else {
                prev.insert(d.id@, x@)
            },
            None => prev,
        }
    }
}

pub open spec fn not_deleted(deleted: Set<Seq<char>>) -> spec_fn(Message) -> bool {
    |m: Message| !deleted.contains(m.id@)
}

pub open spec fn id_differs(id: Seq<char>) -> spec_fn(Message) -> bool {
    |m: Message| m.id@ != id
}

/// Lexicographic order of texts by character (the order of `String`, whose
/// UTF-8 bytes compare as the characters do).
pub open spec fn text_le(a: Seq<char>, b: Seq<char>) -> bool
    decreases a.len(),
{
    if a.len() == 0 {
        true
    } else if b.len() == 0 {
        false
    } else if (a[0] as u32) < (b[0] as u32) {
        true
    } else if (a[0] as u32) > (b[0] as u32) {
        false
    } else {
        text_le(a.drop_first(), b.drop_first())
    }
}

/// The message with the greatest id; among equal ids, the last (`Iterator::max_by_key`).
pub open spec fn newest(s: Seq<Message>) -> Option<Message>
    decreases s.len(),
{
    if s.len() == 0 {
        None
    } else {
        match newest(s.drop_last()) {
            None => Some(s.last()),
            Some(b) => if text_le(b.id@, s.last().id@) {
                Some(s.last())
            } else {
                Some(b)
            },
        }
    }
}

/// The chat a message list belongs to is the one shown or being loaded.
pub open spec fn shows_chat(s: AppState, channel_id: Seq<char>) -> bool {
    match s {
        AppState::Loading(Window::Chat(id)) => id@ == channel_id,
        AppState::Chatting(id) => id@ == channel_id,
        AppState::Editing(id, _, _) => id@ == channel_id,
        AppState::EmojiSelection(id) => id@ == channel_id,
        _ => false,
    }
}

pub open spec fn ticked(old: AppView) -> AppView {
    AppView {
        tick_count: if old.tick_count == usize::MAX {
            0
        } else {
            (old.tick_count + 1) as usize
        },
        ..old
    }
}

pub open spec fn loading_screen(old: AppView, w: Window) -> AppView {
    AppView { state: AppState::Loading(w), status_message: loading_status(), ..old }
}

pub open spec fn with_guilds(old: AppView, g: Seq<Guild>) -> AppView {
    AppView { guilds: g, status_message: servers_loaded_status(), ..old }
}

pub open spec fn with_emojis(old: AppView, e: Seq<Emoji>) -> AppView {
    AppView { custom_emojis: e, ..old }
}

pub open spec fn with_context(old: AppView, c: Option<PermissionContext>) -> AppView {
    AppView { context: c, ..old }
}

pub open spec fn with_user(old: AppView, u: User) -> AppView {
    AppView { current_user: Some(u), ..old }
}

/// The screen after a server's channels arrive, grouped as `chs`.
pub open spec fn with_channels(old: AppView, chs: Seq<Channel>) -> AppView {
    AppView {
        channels: chs,
        status_message: if chs.len() > 0 {
            channels_loaded_status()
        } else {
            no_channels_status()
        },
        selection_index: 0,
        ..old
    }
}

pub open spec fn with_dms(old: AppView, dms: Seq<DM>) -> AppView {
    AppView {
        dms,
        last_message_ids: seed_last_ids(old.last_message_ids, dms),
        status_message: if dms.len() > 0 {
            dms_loaded_status()
        } else {
            no_dms_status()
        },
        selection_index: 0,
        ..old
    }
}

pub open spec fn without_message(old: AppView, id: Seq<char>) -> AppView {
    AppView { messages: old.messages.filter(id_differs(id)), ..old }
}

pub open spec fn deleted_by_gateway(old: AppView, id: Seq<char>) -> AppView {
    AppView {
        messages: old.messages.filter(id_differs(id)),
        deleted_message_ids: old.deleted_message_ids.insert(id),
        ..old
    }
}

pub open spec fn deleted_by_user(old: AppView, id: Seq<char>) -> AppView {
    let kept = old.messages.filter(id_differs(id));
    AppView {
        messages: kept,
        deleted_message_ids: old.deleted_message_ids.insert(id),
        selection_index: if old.selection_index > kept.len() {
            kept.len() as usize
        } else {
            old.selection_index
        },
        ..old
    }
}

/// `m` with the fields an edit carries replaced.
pub open spec fn apply_update(m: Message, u: PartialMessage) -> Message {
    Message {
        content: if u.content is Some {
            u.content
        } else {
            m.content
        },
        author: match u.author {
            Some(a) => a,
            None => m.author,
        },
        timestamp: match u.timestamp {
            Some(t) => t,
            None => m.timestamp,
        },
        ..m
    }
}

/// Index of the first message with the given id.
pub open spec fn first_with_id(s: Seq<Message>, id: Seq<char>, p: int) -> bool {
    &&& 0 <= p < s.len()
    &&& s[p].id@ == id
    &&& forall|q: int| 0 <= q < p ==> s[q].id@ != id
}

pub open spec fn has_id(s: Seq<Message>, id: Seq<char>) -> bool {
    exists|i: int| 0 <= i < s.len() && s[i].id@ == id
}

pub open spec fn message_updated(old: AppView, p: int, u: PartialMessage) -> AppView {
    AppView { messages: old.messages.update(p, apply_update(old.messages[p], u)), ..old }
}

pub open spec fn messages_arrived(old: AppView, channel_id: Seq<char>, new: Seq<Message>) -> AppView {
    AppView {
        last_message_ids: match newest(new) {
            Some(m) => old.last_message_ids.insert(channel_id, m.id@),
            None => old.last_message_ids,
        },
        messages: new.filter(not_deleted(old.deleted_message_ids)),
        ..old
    }
}

fn text_le_exec(a: &Vec<char>, b: &Vec<char>) -> (r: bool)
    ensures
        r == text_le(a@, b@),
{
    let mut i: usize = 0;
    assert(a@.skip(0) =~= a@);
    assert(b@.skip(0) =~= b@);
    while i < a.len() && i < b.len() && a[i] == b[i]
        invariant
            i <= a@.len(),
            i <= b@.len(),
            text_le(a@, b@) == text_le(a@.skip(i as int), b@.skip(i as int)),
        decreases a@.len() - i,
    {
        assert(a@.skip(i as int).drop_first() =~= a@.skip(i + 1));
        assert(b@.skip(i as int).drop_first() =~= b@.skip(i + 1));
        i = i + 1;
    }
    if i == a.len() {
        assert(a@.skip(i as int).len() == 0);
        true
    } else if i == b.len() {
        assert(b@.skip(i as int).len() == 0);
        false
    } else {
        assert(a@.skip(i as int)[0] == a@[i as int]);
        assert(b@.skip(i as int)[0] == b@[i as int]);
        let x = a[i];
        let y = b[i];
        assert(x != y);
        proof {
            vstd::utf8::char_u32_cast(x, x as u32);
            vstd::utf8::char_u32_cast(y, y as u32);
        }
        let r = (x as u32) < (y as u32);
        assert(r == text_le(a@.skip(i as int), b@.skip(i as int)));
        r
    }
}

impl App {
    /// A tick of the clock: counted, and the loop goes on.
    pub fn on_tick(&mut self) -> (r: Step)
        ensures
            final(self)@ == ticked(old(self)@),
            r.keyword == Some(KeywordAction::Continue),
            r.effects@.len() == 0,
    {
        self.tick_count = self.tick_count.wrapping_add(1);
        Step { keyword: Some(KeywordAction::Continue), effects: Vec::new() }
    }

    /// Shows the home screen.
    pub fn to_home(&mut self) -> (r: Step)
        ensures
            final(self)@ == list_screen(old(self)@, AppState::Home, home_status()),
            no_effects(r),
    {
        self.input = Vec::new();
        self.cursor_position = 0;
        self.state = AppState::Home;
        self.status_message = owned(
            "Browse either DMs or Servers. Use arrows to navigate, Enter to select & Esc to quit",
        );
        self.selection_index = 0;
        Step { keyword: None, effects: Vec::new() }
    }

    /// Shows the server list.
    pub fn to_guilds(&mut self) -> (r: Step)
        ensures
            final(self)@ == list_screen(old(self)@, AppState::SelectingGuild, select_server_status()),
            no_effects(r),
    {
        self.input = Vec::new();
        self.cursor_position = 0;
        self.state = AppState::SelectingGuild;
        self.status_message = owned(
            "Select a server. Use arrows to navigate, Enter to select & Esc to quit",
        );
        self.selection_index = 0;
        Step { keyword: None, effects: Vec::new() }
    }

    /// Shows the direct-message list.
    pub fn to_dms(&mut self) -> (r: Step)
        ensures
            final(self)@ == list_screen(old(self)@, AppState::SelectingDM, select_dm_status()),
            no_effects(r),
    {
        self.input = Vec::new();
        self.cursor_position = 0;
        self.state = AppState::SelectingDM;
        self.status_message = owned(
            "Select a DM. Use arrows to navigate, Enter to select & Esc to quit",
        );
        self.selection_index = 0;
        Step { keyword: None, effects: Vec::new() }
    }

    /// Shows a server's channel list.
    pub fn to_channels(&mut self, guild_id: String) -> (r: Step)
        ensures
            final(self)@ == list_screen(
                old(self)@,
                AppState::SelectingChannel(guild_id),
                select_server_status(),
            ),
            no_effects(r),
    {
        self.input = Vec::new();
        self.cursor_position = 0;
        self.state = AppState::SelectingChannel(guild_id);
        self.status_message = owned(
            "Select a server. Use arrows to navigate, Enter to select & Esc to quit",
        );
        self.selection_index = 0;
        Step { keyword: None, effects: Vec::new() }
    }

    /// Shows loading until the given window is ready.
    pub fn to_loading(&mut self, w: Window) -> (r: Step)
        ensures
            final(self)@ == loading_screen(old(self)@, w),
            no_effects(r),
    {
        self.state = AppState::Loading(w);
        self.status_message = owned("Loading...");
        Step { keyword: None, effects: Vec::new() }
    }

    /// Ends loading: asks for the window that was being loaded.
    pub fn end_loading(&self) -> (r: Step)
        ensures
            r.keyword is None,
            r.effects@ == (match self@.state {
                AppState::Loading(w) => seq![Effect::Send(after_loading(w))],
                _ => Seq::empty(),
            }),
    {
        let mut effects = Vec::new();
        match &self.state {
            AppState::Loading(w) => {
                let a = match w {
                    Window::Home => AppAction::TransitionToHome,
                    Window::Guild => AppAction::TransitionToGuilds,
                    Window::DM => AppAction::TransitionToDM,
                    Window::Channel(g) => AppAction::TransitionToChannels(g.clone()),
                    Window::Chat(c) => AppAction::TransitionToChat(c.clone()),
                };
                effects.push(Effect::Send(a));
                assert(effects@ =~= seq![Effect::Send(after_loading(*w))]);
            },
            _ => {},
        }
        Step { keyword: None, effects }
    }

    /// Opens a chat.
    pub fn to_chat(&mut self, channel_id: String) -> (r: Step)
        requires
            opening_chat_fits(old(self)@),
        ensures
            final(self)@ == open_chat(old(self)@, channel_id),
            no_effects(r),
    {
        let ghost old_view = self@;
        let from_emoji = match &self.state {
            AppState::EmojiSelection(_) => true,
            _ => false,
        };
        let from_edit = match &self.state {
            AppState::Editing(_, _, _) => true,
            _ => false,
        };
        if from_emoji {
            match self.emoji_filter_start {
                Some(start) => {
                    let flen = crate::text::byte_length(&self.emoji_filter);
                    let end = start + 1 + flen;
                    let a = crate::text::char_index(&self.input, start);
                    let b = crate::text::char_index(&self.input, end);
                    if a.is_some() && b.is_some() {
                        crate::editing::drain_between(&mut self.input, start, end);
                        self.cursor_position = start;
                    }
                },
                None => {},
            }
            self.emoji_filter = Vec::new();
            self.emoji_filter_start = None;
            self.selection_index = 0;
        }
        if from_edit {
            self.input = match self.saved_input.take() {
                Some(s) => s,
                None => Vec::new(),
            };
        }
        self.state = AppState::Chatting(channel_id);
        self.chat_scroll_offset = 0;
        self.cursor_position = 0;
        self.selection_index = 0;
        self.status_message = owned(
            "Chatting in channel. Press Enter to send message, Esc to return to channels.",
        );
        assert(self@ =~= open_chat(old_view, channel_id));
        Step { keyword: None, effects: Vec::new() }
    }

    /// Starts editing one of the user's messages; `c` is the key that started it.
    pub fn start_editing(&mut self, channel_id: String, message: Message, content: String, c: char) -> (r:
        Step)
        requires
            byte_len(content@) <= usize::MAX,
        ensures
            final(self)@ == start_edit(old(self)@, channel_id, message, content, c),
            no_effects(r),
    {
        let ghost old_view = self@;
        let chars = chars_of(content.as_str());
        let mut old_input = chars;
        std::mem::swap(&mut self.input, &mut old_input);
        self.saved_input = Some(old_input);
        if self.vim_mode {
            self.mode = InputMode::Insert;
            match &mut self.vim_state {
                Some(v) => {
                    v.operator = None;
                    v.pending_keys = Vec::new();
                },
                None => {},
            }
        }
        self.cursor_position = if c == 'i' || c == 'I' {
            0
        } else if c == 'a' {
            if self.input.len() > 0 {
                len_utf8(self.input[0])
            } else {
                0
            }
        } else {
            str_byte_len(content.as_str())
        };
        self.selection_index = 0;
        self.state = AppState::Editing(channel_id, message, content);
        self.status_message = owned(
            "Editing a message in channel. Press Enter to send message. Esc to return to channels",
        );
        assert(self@ =~= start_edit(old_view, channel_id, message, content, c));
        Step { keyword: None, effects: Vec::new() }
    }

    /// The user's servers arrived.
    pub fn update_guilds(&mut self, guilds: Vec<Guild>) -> (r: Step)
        ensures
            final(self)@ == with_guilds(old(self)@, guilds@),
            no_effects(r),
    {
        self.guilds = guilds;
        self.status_message = owned(
            "Select a server. Use arrows to navigate, Enter to select & Esc to quit.",
        );
        Step { keyword: None, effects: Vec::new() }
    }

    /// A server's custom emojis arrived.
    pub fn update_emojis(&mut self, emojis: Vec<Emoji>) -> (r: Step)
        ensures
            final(self)@ == with_emojis(old(self)@, emojis@),
            no_effects(r),
    {
        self.custom_emojis = emojis;
        Step { keyword: None, effects: Vec::new() }
    }

    /// The user's permissions in a server arrived.
    pub fn update_context(&mut self, context: Option<PermissionContext>) -> (r: Step)
        ensures
            final(self)@ == with_context(old(self)@, context),
            no_effects(r),
    {
        self.context = context;
        Step { keyword: None, effects: Vec::new() }
    }

    /// The current user arrived.
    pub fn update_current_user(&mut self, user: User) -> (r: Step)
        ensures
            final(self)@ == with_user(old(self)@, user),
            no_effects(r),
    {
        self.current_user = Some(user);
        Step { keyword: None, effects: Vec::new() }
    }

    /// A server's channels arrived.
    pub fn update_channels(&mut self, channels: Vec<Channel>) -> (r: Step)
        ensures
            grouped(final(self)@.channels, channels@),
            final(self)@ == with_channels(old(self)@, final(self)@.channels),
            no_effects(r),
    {
        self.channels = Channel::filter_channels_by_categories(channels);
        if self.channels.len() > 0 {
            self.status_message = owned(
                "Channels loaded. Select one to chat. (Esc to return to Servers)",
            );
        } else {
            self.status_message = owned("No text channels found. (Esc to return to Servers)");
        }
        self.selection_index = 0;
        Step { keyword: None, effects: Vec::new() }
    }

    /// The direct-message channels arrived.
    pub fn update_dms(&mut self, dms: Vec<DM>) -> (r: Step)
        ensures
            final(self)@ == with_dms(old(self)@, dms@),
            no_effects(r),
    {
        let ghost old_view = self@;
        let mut i: usize = 0;
        assert(dms@.take(0) =~= Seq::<DM>::empty());
        while i < dms.len()
            invariant
                i <= dms@.len(),
                self@ == (AppView {
                    last_message_ids: seed_last_ids(old_view.last_message_ids, dms@.take(i as int)),
                    ..old_view
                }),
            decreases dms@.len() - i,
        {
            let d = &dms[i];
            assert(dms@.take(i + 1).drop_last() =~= dms@.take(i as int));
            match &d.last_message_id {
                Some(m) => {
                    map_insert_if_absent(&mut self.last_message_ids, d.id.clone(), m.clone());
                },
                None => {},
            }
            i = i + 1;
        }
        assert(dms@.take(i as int) =~= dms@);
        let n = dms.len();
        self.dms = dms;
        if n > 0 {
            self.status_message = owned("DMs loaded. Select one to chat. (Esc to return to Home)");
        } else {
            self.status_message = owned("No DMs found. (Esc to return to Home)");
        }
        self.selection_index = 0;
        Step { keyword: None, effects: Vec::new() }
    }

    /// The gateway reports a deleted message.
    pub fn gateway_delete(&mut self, id: String) -> (r: Step)
        ensures
            final(self)@ == deleted_by_gateway(old(self)@, id@),
            no_effects(r),
    {
        self.remove_message(&id);
        set_insert(&mut self.deleted_message_ids, id);
        Step { keyword: None, effects: Vec::new() }
    }

    fn remove_message(&mut self, id: &String)
        ensures
            final(self)@ == without_message(old(self)@, id@),
    {
        let ghost p = id_differs(id@);
        let ghost orig = self.messages@;
        let mut kept: Vec<Message> = Vec::new();
        let mut rest: Vec<Message> = Vec::new();
        std::mem::swap(&mut self.messages, &mut rest);
        let mut i: usize = 0;
        let n = rest.len();
        assert(orig.take(0).filter(p) =~= Seq::<Message>::empty()) by {
            reveal(Seq::filter);
        }
        while i < n
            invariant
                n == orig.len(),
                i <= n,
                p == id_differs(id@),
                rest@ == orig.skip(i as int),
                kept@ == orig.take(i as int).filter(p),
            decreases n - i,
        {
            let m = rest.remove(0);
            assert(m == orig[i as int]);
            proof {
                reveal(Seq::filter);
                assert(orig.take(i + 1).drop_last() =~= orig.take(i as int));
            }
            if !(m.id == *id) {
                kept.push(m);
            }
            i = i + 1;
            assert(rest@ =~= orig.skip(i as int));
        }
        assert(orig.take(i as int) =~= orig);
        self.messages = kept;
    }

    /// The user deletes a message.
    pub fn api_delete(&mut self, channel_id: String, message_id: String) -> (r: Step)
        ensures
            final(self)@ == deleted_by_user(old(self)@, message_id@),
            only_effect(r, (Effect::DeleteMessage { channel_id, message_id })),
    {
        let e = Effect::DeleteMessage { channel_id, message_id: message_id.clone() };
        set_insert(&mut self.deleted_message_ids, message_id.clone());
        self.remove_message(&message_id);
        if self.selection_index > self.messages.len() {
            self.selection_index = self.messages.len();
        }
        let mut effects = Vec::new();
        effects.push(e);
        assert(effects@ =~= seq![Effect::DeleteMessage { channel_id, message_id }]);
        Step { keyword: None, effects }
    }

    /// The gateway reports an edited message.
    pub fn gateway_update(&mut self, update: PartialMessage) -> (r: Step)
        ensures
            no_effects(r),
            !has_id(old(self)@.messages, update.id@) ==> final(self)@ == old(self)@,
            forall|p: int|
                first_with_id(old(self)@.messages, update.id@, p) ==> final(self)@
                    == message_updated(old(self)@, p, update),
    {
        let ghost old_view = self@;
        let mut i: usize = 0;
        while i < self.messages.len()
            invariant
                self@ == old_view,
                old_view == old(self)@,
                i <= self@.messages.len(),
                forall|q: int| 0 <= q < i ==> self@.messages[q].id@ != update.id@,
            decreases self@.messages.len() - i,
        {
            if self.messages[i].id == update.id {
                let m = self.messages.remove(i);
                let updated = Message {
                    content: if update.content.is_some() {
                        update.content
                    } else {
                        m.content
                    },
                    author: match update.author {
                        Some(a) => a,
                        None => m.author,
                    },
                    timestamp: match update.timestamp {
                        Some(t) => t,
                        None => m.timestamp,
                    },
                    id: m.id,
                    channel_id: m.channel_id,
                    mentions: m.mentions,
                };
                self.messages.insert(i, updated);
                assert(updated == apply_update(old_view.messages[i as int], update));
                assert(self@.messages =~= old_view.messages.update(i as int, updated));
                assert(first_with_id(old_view.messages, update.id@, i as int));
                assert(has_id(old_view.messages, update.id@));
                assert forall|p: int| first_with_id(old_view.messages, update.id@, p) implies p
                    == i by {
                    if p < i {
                    } else if p > i {
                        assert(old_view.messages[i as int].id@ == update.id@);
                    }
                }
                assert(self@ =~= AppView {
                    messages: old_view.messages.update(i as int, updated),
                    ..old_view
                });
                assert(self@ == message_updated(old_view, i as int, update));
                assert(old_view == old(self)@);
                return Step { keyword: None, effects: Vec::new() };
            }
            i = i + 1;
        }
        Step { keyword: None, effects: Vec::new() }
    }

    /// A chat's messages arrived.
    pub fn update_messages(&mut self, channel_id: String, new_messages: Vec<Message>) -> (r: Step)
        ensures
            no_effects(r),
            !shows_chat(old(self)@.state, channel_id@) ==> final(self)@ == old(self)@,
            shows_chat(old(self)@.state, channel_id@) ==> final(self)@ == messages_arrived(
                old(self)@,
                channel_id@,
                new_messages@,
            ),
    {
        let relevant = match &self.state {
            AppState::Loading(Window::Chat(id)) => *id == channel_id,
            AppState::Chatting(id) => *id == channel_id,
            AppState::Editing(id, _, _) => *id == channel_id,
            AppState::EmojiSelection(id) => *id == channel_id,
            _ => false,
        };
        if !relevant {
            return Step { keyword: None, effects: Vec::new() };
        }
        let ghost old_view = self@;
        // The newest message, by id.
        let mut best: Option<usize> = None;
        let mut best_id: Vec<char> = Vec::new();
        let mut i: usize = 0;
        assert(new_messages@.take(0) =~= Seq::<Message>::empty());
        while i < new_messages.len()
            invariant
                i <= new_messages@.len(),
                match best {
                    Some(b) => b < i && newest(new_messages@.take(i as int)) == Some(
                        new_messages@[b as int],
                    ) && best_id@ == new_messages@[b as int].id@,
                    None => i == 0,
                },
            decreases new_messages@.len() - i,
        {
            let id_i = chars_of(new_messages[i].id.as_str());
            assert(new_messages@.take(i + 1).drop_last() =~= new_messages@.take(i as int));
            let take = match best {
                None => true,
                Some(_) => text_le_exec(&best_id, &id_i),
            };
            if take {
                best = Some(i);
                best_id = id_i;
            }
            i = i + 1;
        }
        assert(new_messages@.take(i as int) =~= new_messages@);
        match best {
            Some(b) => {
                let newest_id = new_messages[b].id.clone();
                map_insert(&mut self.last_message_ids, channel_id, newest_id);
            },
            None => {},
        }
        // Keep the messages not deleted meanwhile.
        let ghost p = not_deleted(old_view.deleted_message_ids);
        let mut kept: Vec<Message> = Vec::new();
        let mut rest = new_messages;
        let ghost orig = rest@;
        let n = rest.len();
        let mut k: usize = 0;
        assert(orig.take(0).filter(p) =~= Seq::<Message>::empty()) by {
            reveal(Seq::filter);
        }
        while k < n
            invariant
                n == orig.len(),
                k <= n,
                p == not_deleted(old_view.deleted_message_ids),
                self.deleted_message_ids@ == old(self).deleted_message_ids@,
                string_set(self.deleted_message_ids@) == old_view.deleted_message_ids,
                rest@ == orig.skip(k as int),
                kept@ == orig.take(k as int).filter(p),
            decreases n - k,
        {
            let m = rest.remove(0);
            assert(m == orig[k as int]);
            proof {
                reveal(Seq::filter);
                assert(orig.take(k + 1).drop_last() =~= orig.take(k as int));
            }
            if !set_contains(&self.deleted_message_ids, &m.id) {
                kept.push(m);
            }
            k = k + 1;
            assert(rest@ =~= orig.skip(k as int));
        }
        assert(orig.take(k as int) =~= orig);
        self.messages = kept;
        Step { keyword: None, effects: Vec::new() }
    }
}

/// The numeric value of a message id; ids that are not numbers count as 0.
pub open spec fn msg_key(m: Message) -> u64 {
    match parse_u64_spec(m.id@) {
        Some(v) => v,
        None => 0,
    }
}

pub open spec fn key_is(k: u64) -> spec_fn(Message) -> bool {
    |m: Message| msg_key(m) == k
}

pub open spec fn newest_first(s: Seq<Message>) -> bool {
    forall|i: int, j: int| 0 <= i < j < s.len() ==> msg_key(s[i]) >= msg_key(s[j])
}

/// `out` is `input` sorted newest first, messages with equal ids keeping
/// their order (a stable sort by id, descending).
pub open spec fn sorted_newest_first(out: Seq<Message>, input: Seq<Message>) -> bool {
    &&& newest_first(out)
    &&& forall|k: u64| #[trigger] out.filter(key_is(k)) == input.filter(key_is(k))
}

proof fn lemma_filter_none<A>(s: Seq<A>, p: spec_fn(A) -> bool)
    requires
        forall|i: int| 0 <= i < s.len() ==> !p(s[i]),
    ensures
        s.filter(p) == Seq::<A>::empty(),
    decreases s.len(),
{
    reveal(Seq::filter);
    if s.len() > 0 {
        lemma_filter_none(s.drop_last(), p);
    }
}

proof fn lemma_filter_push<A>(s: Seq<A>, x: A, p: spec_fn(A) -> bool)
    ensures
        s.push(x).filter(p) == (if p(x) {
            s.filter(p).push(x)
        } else {
            s.filter(p)
        }),
{
    reveal(Seq::filter);
    assert(s.push(x).drop_last() =~= s);
}

fn key_of(m: &Message) -> (k: u64)
    ensures
        k == msg_key(*m),
{
    let v = chars_of(m.id.as_str());
    match parse_u64(&v) {
        Some(x) => x,
        None => 0,
    }
}

/// Sorts messages newest first, stably (`sort_by_key` with a reversed id).
pub fn sort_newest_first(v: Vec<Message>) -> (out: Vec<Message>)
    ensures
        sorted_newest_first(out@, v@),
{
    let ghost orig = v@;
    let mut rest = v;
    let mut out: Vec<Message> = Vec::new();
    let n = rest.len();
    let mut i: usize = 0;
    assert forall|k: u64| #[trigger] out@.filter(key_is(k)) == orig.take(0).filter(key_is(k)) by {
        reveal(Seq::filter);
        assert(orig.take(0) =~= Seq::<Message>::empty());
    }
    while i < n
        invariant
            n == orig.len(),
            i <= n,
            rest@ == orig.skip(i as int),
            out@.len() == i,
            newest_first(out@),
            forall|k: u64| #[trigger] out@.filter(key_is(k)) == orig.take(i as int).filter(key_is(k)),
        decreases n - i,
    {
        let x = rest.remove(0);
        assert(x == orig[i as int]);
        let kx = key_of(&x);
        let mut p: usize = 0;
        while p < out.len() && key_of(&out[p]) >= kx
            invariant
                p <= out@.len(),
                forall|t: int| 0 <= t < p ==> msg_key(out@[t]) >= kx,
            decreases out@.len() - p,
        {
            p = p + 1;
        }
        let ghost before = out@;
        proof {
            if p < before.len() {
                assert(msg_key(before[p as int]) < kx);
                assert forall|t: int| p <= t < before.len() implies msg_key(before[t]) < kx by {
                    if t > p {
                        assert(msg_key(before[p as int]) >= msg_key(before[t]));
                    }
                }
            }
        }
        out.insert(p, x);
        let ghost a = before.take(p as int);
        let ghost b = before.skip(p as int);
        assert(out@ =~= a.push(x) + b);
        assert(before =~= a + b);
        assert forall|k: u64| #[trigger] out@.filter(key_is(k)) == orig.take(i + 1).filter(key_is(k))
            by {
            Seq::filter_distributes_over_add(a.push(x), b, key_is(k));
            Seq::filter_distributes_over_add(a, b, key_is(k));
            lemma_filter_push(a, x, key_is(k));
            assert(orig.take(i + 1) =~= orig.take(i as int).push(x));
            lemma_filter_push(orig.take(i as int), x, key_is(k));
            if msg_key(x) == k {
                assert forall|t: int| 0 <= t < b.len() implies !key_is(k)(b[t]) by {
                    assert(b[t] == before[p + t]);
                }
                lemma_filter_none(b, key_is(k));
                assert(a.filter(key_is(k)) + Seq::<Message>::empty() =~= a.filter(key_is(k)));
                assert(a.filter(key_is(k)).push(x) + Seq::<Message>::empty() =~= a.filter(
                    key_is(k),
                ).push(x));
            }
        }
        assert forall|s: int, t: int| 0 <= s < t < out@.len() implies msg_key(out@[s]) >= msg_key(
            out@[t],
        ) by {
            if t < p {
            } else if t == p {
                assert(out@[s] == before[s]);
            } else if s < p {
                assert(out@[s] == before[s]);
                assert(out@[t] == before[t - 1]);
            } else if s == p {
                assert(out@[t] == before[t - 1]);
            } else {
                assert(out@[s] == before[s - 1]);
                assert(out@[t] == before[t - 1]);
            }
        }
        i = i + 1;
        assert(rest@ =~= orig.skip(i as int));
    }
    assert forall|k: u64| #[trigger] out@.filter(key_is(k)) == orig.filter(key_is(k)) by {
        assert(orig.take(n as int) =~= orig);
    }
    out
}

pub open spec fn is_dm_channel(dms: Seq<DM>, channel_id: Seq<char>) -> bool {
    exists|i: int| 0 <= i < dms.len() && dms[i].id@ == channel_id
}

pub open spec fn from_self(old: AppView, m: Message) -> bool {
    match old.current_user {
        Some(u) => u.id@ == m.author.id@,
        None => false,
    }
}

/// The text of the notification for a direct message.
pub open spec fn notification_body(old: AppView, m: Message) -> Seq<char> {
    if old.discreet_notifs {
        "Sent you a DM"@
    } else {
        match m.content {
            Some(c) => c@,
            None => "Sent an attachment"@,
        }
    }
}

pub open spec fn chatting_in(s: AppState, channel_id: Seq<char>) -> bool {
    match s {
        AppState::Chatting(id) => id@ == channel_id,
        _ => false,
    }
}

/// What a new message from the gateway does: shown at once in the open chat;
/// in another direct-message chat it is recorded as that chat's last message
/// and, unless the user sent it, announced by a notification.
pub open spec fn message_created(old: AppView, m: Message, new: AppView, r: Step) -> bool {
    &&& r.keyword is None
    &&& if chatting_in(old.state, m.channel_id@) {
        &&& r.effects@.len() == 0
        &&& sorted_newest_first(new.messages, old.messages.push(m))
        &&& new == AppView { messages: new.messages, ..old }
    } else if is_dm_channel(old.dms, m.channel_id@) {
        &&& new == AppView {
            last_message_ids: old.last_message_ids.insert(m.channel_id@, m.id@),
            ..old
        }
        &&& if from_self(old, m) {
            r.effects@.len() == 0
        } else {
            &&& r.effects@.len() == 1
            &&& r.effects@[0] matches Effect::Notify { summary, body }
            &&& summary@ == m.author.username@
            &&& body@ == notification_body(old, m)
        }
    } else {
        &&& r.effects@.len() == 0
        &&& new == old
    }
}

impl App {
    /// The gateway reports a new message.
    pub fn gateway_create(&mut self, msg: Message) -> (r: Step)
        ensures
            message_created(old(self)@, msg, final(self)@, r),
    {
        let ghost old_view = self@;
        let active = match &self.state {
            AppState::Chatting(id) => *id == msg.channel_id,
            _ => false,
        };
        if active {
            let mut msgs: Vec<Message> = Vec::new();
            std::mem::swap(&mut self.messages, &mut msgs);
            msgs.push(msg);
            self.messages = sort_newest_first(msgs);
            assert(self@ =~= AppView { messages: self@.messages, ..old_view });
            return Step { keyword: None, effects: Vec::new() };
        }
        let mut is_dm = false;
        let mut i: usize = 0;
        while i < self.dms.len()
            invariant
                self@ == old_view,
                i <= self@.dms.len(),
                !is_dm ==> forall|t: int| 0 <= t < i ==> self@.dms[t].id@ != msg.channel_id@,
                is_dm ==> is_dm_channel(self@.dms, msg.channel_id@),
            decreases self@.dms.len() - i,
        {
            if self.dms[i].id == msg.channel_id {
                is_dm = true;
            }
            i = i + 1;
        }
        if !is_dm {
            return Step { keyword: None, effects: Vec::new() };
        }
        let is_self = match &self.current_user {
            Some(u) => u.id == msg.author.id,
            None => false,
        };
        let mut effects: Vec<Effect> = Vec::new();
        if !is_self {
            let summary = msg.author.username.clone();
            let body = if self.discreet_notifs {
                owned("Sent you a DM")
            } else {
                match &msg.content {
                    Some(c) => c.clone(),
                    None => owned("Sent an attachment"),
                }
            };
            effects.push(Effect::Notify { summary, body });
        }
        map_insert(&mut self.last_message_ids, msg.channel_id, msg.id);
        assert(self@ =~= AppView {
            last_message_ids: old_view.last_message_ids.insert(msg.channel_id@, msg.id@),
            ..old_view
        });
        Step { keyword: None, effects }
    }
}

} // verus!
