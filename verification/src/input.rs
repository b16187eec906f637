//! Editing the input line: typing, pasting, erasing, opening the emoji
//! filter, and leaving a screen with Esc.
use vstd::prelude::*;
use crate::text::{byte_len, char_width, is_boundary, index_at, owned, len_utf8, byte_length_checked,
    char_index};
use crate::editing::{char_before, inserted, inserted_seq, removed_before, between, char_before_at,
    insert_at, insert_seq_at, remove_before, slice_between};
use crate::model::Channel;
use crate::app::{App, AppView, AppState, AppAction, Effect, InputMode, KeywordAction, Step,
    emoji_typed_out_status, emoji_erased_status, emoji_status};

verus! {

pub open spec fn min(a: int, b: int) -> int {
    if a <= b {
        a
    } else {
        b
    }
}

/// The emoji filter can be recomputed without slicing inside a character.
pub open spec fn refilter_ok(s: Seq<char>, cursor: int, start: Option<usize>) -> bool {
    match start {
        None => true,
        Some(st) => {
            let fs = st + 1;
            &&& st < usize::MAX
            &&& (cursor <= st || fs > byte_len(s) || {
                let end = min(cursor, byte_len(s) as int);
                fs <= end ==> is_boundary(s, fs) && is_boundary(s, end)
            })
        },
    }
}

/// The emoji filter: the text between the `:` and the cursor, when the cursor
/// is past the `:`.
pub open spec fn refiltered(s: Seq<char>, cursor: int, start: Option<usize>) -> Seq<char> {
    match start {
        None => Seq::empty(),
        Some(st) => {
            let fs = st + 1;
            if cursor <= st || fs > byte_len(s) {
                Seq::empty()
            } else {
                let end = min(cursor, byte_len(s) as int);
                if fs <= end {
                    between(s, fs, end)
                } else {
                    Seq::empty()
                }
            }
        },
    }
}

/// The input line and cursor after an edit, with the emoji filter following
/// the text; an emptied filter closes emoji selection with the given status.
pub open spec fn after_emoji_edit(
    old: AppView,
    id: String,
    input: Seq<char>,
    cursor: int,
    status: Seq<char>,
) -> AppView {
    let f = refiltered(input, cursor, old.emoji_filter_start);
    if f.len() == 0 {
        AppView {
            input,
            cursor_position: cursor as usize,
            emoji_filter: f,
            state: AppState::Chatting(id),
            emoji_filter_start: None,
            status_message: status,
            ..old
        }
    } else {
        AppView { input, cursor_position: cursor as usize, emoji_filter: f, ..old }
    }
}

pub open spec fn typing_ok(old: AppView, c: char) -> bool {
    let s1 = inserted(old.input, old.cursor_position as int, c);
    let cur1 = old.cursor_position + char_width(c);
    &&& is_boundary(old.input, old.cursor_position as int)
    &&& byte_len(old.input) + 4 <= usize::MAX
    &&& (old.state is EmojiSelection && c != ' ') ==> refilter_ok(
        s1,
        cur1,
        old.emoji_filter_start,
    )
}

/// A character typed at the cursor (`insert_char_at_cursor`).
pub open spec fn typed(old: AppView, c: char) -> AppView {
    let s1 = inserted(old.input, old.cursor_position as int, c);
    let cur1 = old.cursor_position + char_width(c);
    match old.state {
        AppState::EmojiSelection(id) => if c == ' ' {
            AppView {
                input: s1,
                cursor_position: cur1 as usize,
                state: AppState::Chatting(id),
                emoji_filter: Seq::empty(),
                emoji_filter_start: None,
                selection_index: 0,
                ..old
            }
        } else {
            AppView {
                selection_index: 0,
                ..after_emoji_edit(old, id, s1, cur1, emoji_typed_out_status())
            }
        },
        _ => AppView { input: s1, cursor_position: cur1 as usize, ..old },
    }
}

pub open spec fn opens_emoji_key(old: AppView, c: char) -> bool {
    c == ':' && (!old.vim_mode || old.mode == InputMode::Insert)
}

pub open spec fn vim_normal(old: AppView) -> bool {
    old.vim_mode && old.mode == InputMode::Normal
}

pub open spec fn char_ok(old: AppView, c: char) -> bool {
    opens_emoji_key(old, c) || vim_normal(old) || typing_ok(old, c)
}

pub open spec fn char_handled(old: AppView, c: char, new: AppView, r: Step) -> bool {
    &&& r.keyword is None
    &&& if opens_emoji_key(old, c) {
        new == old && r.effects@ == seq![Effect::Send(AppAction::SelectEmoji)]
    } else if vim_normal(old) {
        new == old && r.effects@ == seq![Effect::VimKey(c)]
    } else {
        new == typed(old, c) && r.effects@.len() == 0
    }
}

pub open spec fn paste_ok(old: AppView, t: Seq<char>) -> bool {
    is_boundary(old.input, old.cursor_position as int) && old.cursor_position + byte_len(t)
        <= usize::MAX
}

pub open spec fn pasted(old: AppView, t: Seq<char>) -> AppView {
    AppView {
        input: inserted_seq(old.input, old.cursor_position as int, t),
        cursor_position: (old.cursor_position + byte_len(t)) as usize,
        ..old
    }
}

/// Editing a message or chatting, where `:` may open emoji selection.
pub open spec fn composing(s: AppState) -> bool {
    s is Chatting || s is Editing
}

pub open spec fn composing_channel(s: AppState) -> String {
    match s {
        AppState::Chatting(id) => id,
        AppState::Editing(id, _, _) => id,
        _ => arbitrary(),
    }
}

pub open spec fn select_emoji_ok(old: AppView) -> bool {
    composing(old.state) ==> is_boundary(old.input, old.cursor_position as int)
        && old.cursor_position < usize::MAX
}

/// A `:` at the start of a word opens emoji selection; elsewhere it is typed.
pub open spec fn emoji_selected(old: AppView) -> AppView {
    if composing(old.state) {
        let cur = old.cursor_position as int;
        let s1 = inserted(old.input, cur, ':');
        let at_word_start = cur == 0 || char_before(old.input, cur) == Some(' ');
        if at_word_start {
            AppView {
                emoji_filter_start: Some(old.cursor_position),
                input: s1,
                cursor_position: (cur + 1) as usize,
                state: AppState::EmojiSelection(composing_channel(old.state)),
                status_message: emoji_status(),
                emoji_filter: Seq::empty(),
                selection_index: 0,
                ..old
            }
        } else {
            AppView { input: s1, cursor_position: (cur + 1) as usize, ..old }
        }
    } else {
        old
    }
}

/// The offset that backspace erases before in the states that hold no chat:
/// the cursor, or the end of the input when the cursor is at 0 or past the end.
pub open spec fn erase_point(old: AppView) -> int {
    if old.cursor_position <= byte_len(old.input) && old.cursor_position > 0 {
        old.cursor_position as int
    } else {
        byte_len(old.input) as int
    }
}

pub open spec fn backspace_ok(old: AppView) -> bool {
    let cur = old.cursor_position as int;
    if vim_normal(old) {
        is_boundary(old.input, cur)
    } else {
        byte_len(old.input) <= usize::MAX && match old.state {
            AppState::Chatting(_) => is_boundary(old.input, cur),
            AppState::EmojiSelection(_) => {
                &&& is_boundary(old.input, cur)
                &&& char_before(old.input, cur) matches Some(c) ==> refilter_ok(
                    removed_before(old.input, cur),
                    cur - char_width(c),
                    old.emoji_filter_start,
                )
            },
            _ => {
                let pos = erase_point(old);
                &&& is_boundary(old.input, pos)
                &&& char_before(old.input, pos) matches Some(c) ==> cur >= char_width(c)
            },
        }
    }
}

pub open spec fn backspaced(old: AppView) -> AppView {
    let cur = old.cursor_position as int;
    if vim_normal(old) {
        match char_before(old.input, cur) {
            Some(c) => AppView { cursor_position: (cur - char_width(c)) as usize, ..old },
            None => old,
        }
    } else {
        match old.state {
            AppState::Chatting(_) => match char_before(old.input, cur) {
                Some(c) => AppView {
                    input: removed_before(old.input, cur),
                    cursor_position: (cur - char_width(c)) as usize,
                    ..old
                },
                None => old,
            },
            AppState::EmojiSelection(id) => match char_before(old.input, cur) {
                Some(c) => AppView {
                    selection_index: 0,
                    ..after_emoji_edit(
                        old,
                        id,
                        removed_before(old.input, cur),
                        cur - char_width(c),
                        emoji_erased_status(),
                    )
                },
                None => old,
            },
            _ => {
                let pos = erase_point(old);
                match char_before(old.input, pos) {
                    Some(c) => AppView {
                        input: removed_before(old.input, pos),
                        cursor_position: (cur - char_width(c)) as usize,
                        ..old
                    },
                    None => old,
                }
            },
        }
    }
}

/// Where Delete erases before in a chat: after the character at the cursor,
/// the cursor first pulled back onto the last byte when it is at or past the end.
pub open spec fn chat_delete_cursor(old: AppView) -> int {
    if old.cursor_position >= byte_len(old.input) {
        byte_len(old.input) - 1
    } else {
        old.cursor_position as int
    }
}

pub open spec fn other_delete_point(old: AppView) -> int {
    if old.cursor_position < byte_len(old.input) {
        old.cursor_position + 1
    } else {
        byte_len(old.input) as int
    }
}

pub open spec fn delete_ok(old: AppView) -> bool {
    let cur = old.cursor_position as int;
    byte_len(old.input) <= usize::MAX && match old.state {
        AppState::Chatting(_) => old.input.len() > 0 ==> is_boundary(
            old.input,
            chat_delete_cursor(old) + 1,
        ),
        AppState::EmojiSelection(_) => {
            &&& cur < usize::MAX
            &&& is_boundary(old.input, cur + 1)
            &&& refilter_ok(removed_before(old.input, cur + 1), cur, old.emoji_filter_start)
        },
        _ => is_boundary(old.input, other_delete_point(old)),
    }
}

pub open spec fn deleted(old: AppView) -> AppView {
    let cur = old.cursor_position as int;
    match old.state {
        AppState::Chatting(_) => if old.input.len() > 0 {
            let c1 = chat_delete_cursor(old);
            AppView {
                cursor_position: c1 as usize,
                input: removed_before(old.input, c1 + 1),
                ..old
            }
        } else {
            old
        },
        AppState::EmojiSelection(id) => AppView {
            emoji_index: 0,
            ..after_emoji_edit(
                old,
                id,
                removed_before(old.input, cur + 1),
                cur,
                emoji_erased_status(),
            )
        },
        _ => {
            let pos = other_delete_point(old);
            if char_before(old.input, pos) is Some {
                AppView { input: removed_before(old.input, pos), ..old }
            } else {
                old
            }
        },
    }
}

pub open spec fn vim_insert(old: AppView) -> bool {
    old.vim_mode && old.mode == InputMode::Insert
}

pub open spec fn escape_ok(old: AppView) -> bool {
    vim_insert(old) ==> byte_len(old.input) <= usize::MAX && is_boundary(
        old.input,
        erase_point(old),
    )
}

/// The cursor after leaving vim insert mode: back over the previous
/// character, unless that is a line break.
pub open spec fn normal_mode_cursor(old: AppView) -> int {
    match char_before(old.input, erase_point(old)) {
        Some(c) => if c != '\n' {
            if old.cursor_position >= char_width(c) {
                old.cursor_position - char_width(c)
            } else {
                0
            }
        } else {
            old.cursor_position as int
        },
        None => old.cursor_position as int,
    }
}

pub open spec fn ends_with_newline(s: Seq<char>) -> bool {
    s.len() > 0 && s.last() == '\n'
}

/// What Esc does: leaves vim insert mode, or goes back one screen (or quits
/// from the home and loading screens).
pub open spec fn escaped(old: AppView, new: AppView, r: Step) -> bool {
    if vim_insert(old) {
        let cur = normal_mode_cursor(old);
        &&& r.keyword is None
        &&& new == AppView { mode: InputMode::Normal, cursor_position: cur as usize, ..old }
        &&& r.effects@ == if cur == byte_len(old.input) && ends_with_newline(old.input) {
            Seq::empty()
        } else {
            seq![Effect::ClampCursor]
        }
    } else {
        &&& new == old
        &&& match old.state {
            AppState::Home => r.keyword == Some(KeywordAction::Break) && r.effects@.len() == 0,
            AppState::Loading(_) => r.keyword == Some(KeywordAction::Break) && r.effects@.len()
                == 0,
            AppState::SelectingDM => r.keyword is None && r.effects@ == seq![
                Effect::Send(AppAction::TransitionToHome),
            ],
            AppState::SelectingGuild => r.keyword is None && r.effects@ == seq![
                Effect::Send(AppAction::TransitionToHome),
            ],
            AppState::SelectingChannel(_) => r.keyword is None && r.effects@ == seq![
                Effect::Send(AppAction::TransitionToGuilds),
            ],
            AppState::Chatting(id) => r.keyword is None && r.effects@ == seq![
                Effect::LookupChannel { channel_id: id },
            ],
            AppState::EmojiSelection(id) => r.keyword is None && r.effects@ == seq![
                Effect::Send(AppAction::TransitionToChat(id)),
            ],
            AppState::Editing(id, _, _) => r.keyword is None && r.effects@ == seq![
                Effect::Send(AppAction::TransitionToChat(id)),
            ],
        }
    }
}

/// Channel types of direct and group direct messages.
pub open spec fn is_private_channel(t: u8) -> bool {
    t == 1 || t == 3
}

/// Leaving a chat once its channel is known: back to the direct messages, to
/// the channel's server, or to the server list; a failed lookup goes home and
/// shows the error.
pub open spec fn left_chat(
    old: AppView,
    looked_up: Result<Channel, String>,
    new: AppView,
    r: Step,
) -> bool {
    &&& r.keyword is None
    &&& match looked_up {
        Err(e) => new == AppView { status_message: e@, ..old } && r.effects@ == seq![
            Effect::Send(AppAction::TransitionToHome),
        ],
        Ok(ch) => new == old && r.effects@ == seq![
            Effect::Send(
                if is_private_channel(ch.channel_type) {
                    AppAction::TransitionToDM
                } else {
                    match ch.guild_id {
                        Some(g) => AppAction::TransitionToChannels(g),
                        None => AppAction::TransitionToGuilds,
                    }
                },
            ),
        ],
    }
}

/// A step that asks for one piece of work.
pub fn one_effect(e: Effect) -> (r: Step)
    ensures
        r.keyword is None,
        r.effects@ == seq![e],
{
    let mut effects = Vec::new();
    effects.push(e);
    assert(effects@ =~= seq![e]);
    Step { keyword: None, effects }
}

/// A step that asks for nothing.
pub fn no_step() -> (r: Step)
    ensures
        r.keyword is None,
        r.effects@.len() == 0,
        r.effects@ == Seq::<Effect>::empty(),
{
    let r = Step { keyword: None, effects: Vec::new() };
    assert(r.effects@ =~= Seq::<Effect>::empty());
    r
}

impl App {
    /// Recomputes the emoji filter from the input line and the cursor.
    fn refilter(&mut self)
        requires
            refilter_ok(old(self)@.input, old(self)@.cursor_position as int, old(self)@.emoji_filter_start),
            byte_len(old(self)@.input) <= usize::MAX,
        ensures
            final(self)@ == (AppView {
                emoji_filter: refiltered(
                    old(self)@.input,
                    old(self)@.cursor_position as int,
                    old(self)@.emoji_filter_start,
                ),
                ..old(self)@
            }),
    {
        let len = crate::text::byte_length(&self.input);
        match self.emoji_filter_start {
            Some(start) => {
                let fs = start + 1;
                if self.cursor_position <= start || fs > len {
                    self.emoji_filter = Vec::new();
                } else {
                    let end = if self.cursor_position <= len {
                        self.cursor_position
                    } else {
                        len
                    };
                    if fs <= end {
                        self.emoji_filter = slice_between(&self.input, fs, end);
                    } else {
                        self.emoji_filter = Vec::new();
                    }
                }
            },
            None => {
                self.emoji_filter = Vec::new();
            },
        }
    }

    /// After an edit in emoji selection: an empty filter ends the selection.
    fn close_empty_filter(&mut self, id: String, erased: bool)
        ensures
            final(self)@ == (if old(self)@.emoji_filter.len() == 0 {
                AppView {
                    state: AppState::Chatting(id),
                    emoji_filter_start: None,
                    status_message: if erased {
                        emoji_erased_status()
                    } else {
                        emoji_typed_out_status()
                    },
                    ..old(self)@
                }
            } else {
                old(self)@
            }),
    {
        if self.emoji_filter.len() == 0 {
            self.state = AppState::Chatting(id);
            self.emoji_filter_start = None;
            self.status_message = if erased {
                owned(
                    "Chatting in channel. Press Enter to send message. Esc to return to channels",
                )
            } else {
                owned("Chatting in channel. Press Enter to send message. Esc to return channels")
            };
        }
    }

    /// Pasted text goes in at the cursor.
    pub fn paste(&mut self, text: String) -> (r: Option<Step>)
        ensures
            r is None <==> !paste_ok(old(self)@, text@),
            r is None ==> final(self)@ == old(self)@,
            r matches Some(st) ==> final(self)@ == pasted(old(self)@, text@) && st.keyword is None
                && st.effects@.len() == 0,
    {
        let t = crate::text::chars_of(text.as_str());
        let tl = match byte_length_checked(&t) {
            Some(n) => n,
            None => {
                return None;
            },
        };
        if tl > usize::MAX - self.cursor_position || char_index(&self.input, self.cursor_position).is_none() {
            return None;
        }
        let ghost old_view = self@;
        let pos = self.cursor_position;
        insert_seq_at(&mut self.input, pos, &t);
        self.cursor_position = pos + tl;
        assert(self@ =~= pasted(old_view, text@));
        Some(no_step())
    }

    /// Inserts a typed character at the cursor.
    fn type_char(&mut self, c: char)
        requires
            typing_ok(old(self)@, c),
        ensures
            final(self)@ == typed(old(self)@, c),
    {
        let ghost old_view = self@;
        let pos = self.cursor_position;
        proof {
            crate::text::lemma_boundary_le_len(old_view.input, pos as int);
        }
        insert_at(&mut self.input, pos, c);
        self.cursor_position = pos + len_utf8(c);
        proof {
            crate::text::lemma_boundary_le_len(old_view.input, pos as int);
            crate::text::lemma_byte_len_concat(
                old_view.input.take(index_at(old_view.input, pos as int)).push(c),
                old_view.input.skip(index_at(old_view.input, pos as int)),
            );
            crate::text::lemma_byte_len_push(old_view.input.take(index_at(old_view.input, pos as int)), c);
            crate::text::lemma_byte_len_concat(
                old_view.input.take(index_at(old_view.input, pos as int)),
                old_view.input.skip(index_at(old_view.input, pos as int)),
            );
            assert(old_view.input =~= old_view.input.take(index_at(old_view.input, pos as int))
                + old_view.input.skip(index_at(old_view.input, pos as int)));
        }
        let emoji_id = match &self.state {
            AppState::EmojiSelection(id) => Some(id.clone()),
            _ => None,
        };
        match emoji_id {
            Some(id) => {
                if c == ' ' {
                    self.state = AppState::Chatting(id);
                    self.emoji_filter = Vec::new();
                    self.emoji_filter_start = None;
                } else {
                    self.refilter();
                    self.close_empty_filter(id, false);
                }
                self.selection_index = 0;
                assert(self@ =~= typed(old_view, c));
            },
            None => {
                assert(self@ =~= typed(old_view, c));
            },
        }
    }

    /// A typed character.
    pub fn input_char(&mut self, c: char) -> (r: Option<Step>)
        ensures
            r is None <==> !char_ok(old(self)@, c),
            r is None ==> final(self)@ == old(self)@,
            r matches Some(st) ==> char_handled(old(self)@, c, final(self)@, st),
    {
        let insert_mode = match self.mode {
            InputMode::Insert => true,
            InputMode::Normal => false,
        };
        if c == ':' && (!self.vim_mode || insert_mode) {
            return Some(one_effect(Effect::Send(AppAction::SelectEmoji)));
        }
        if self.vim_mode && !insert_mode {
            return Some(one_effect(Effect::VimKey(c)));
        }
        if !self.typing_possible(c) {
            return None;
        }
        self.type_char(c);
        Some(no_step())
    }

    /// Whether typing `c` at the cursor stays within the text and its characters.
    fn typing_possible(&self, c: char) -> (r: bool)
        ensures
            r == typing_ok(self@, c),
    {
        let len = match byte_length_checked(&self.input) {
            Some(n) => n,
            None => {
                return false;
            },
        };
        if len > usize::MAX - 4 {
            return false;
        }
        if char_index(&self.input, self.cursor_position).is_none() {
            return false;
        }
        let in_emoji = match &self.state {
            AppState::EmojiSelection(_) => true,
            _ => false,
        };
        if !(in_emoji && c != ' ') {
            return true;
        }
        let mut s1 = self.input.clone();
        insert_at(&mut s1, self.cursor_position, c);
        proof {
            crate::text::lemma_boundary_le_len(self@.input, self.cursor_position as int);
        }
        let cur1 = self.cursor_position + len_utf8(c);
        proof {
            let k = index_at(self@.input, self.cursor_position as int);
            crate::text::lemma_byte_len_concat(
                self@.input.take(k).push(c),
                self@.input.skip(k),
            );
            crate::text::lemma_byte_len_push(self@.input.take(k), c);
            crate::text::lemma_byte_len_concat(self@.input.take(k), self@.input.skip(k));
            assert(self@.input =~= self@.input.take(k) + self@.input.skip(k));
        }
        let len1 = len + len_utf8(c);
        refilter_possible(&s1, cur1, len1, self.emoji_filter_start)
    }

    /// A `:` was typed where it may open emoji selection.
    pub fn select_emoji(&mut self) -> (r: Option<Step>)
        ensures
            r is None <==> !select_emoji_ok(old(self)@),
            r is None ==> final(self)@ == old(self)@,
            r matches Some(st) ==> final(self)@ == emoji_selected(old(self)@) && st.keyword is None
                && st.effects@.len() == 0,
    {
        let id = match &self.state {
            AppState::Chatting(id) => id.clone(),
            AppState::Editing(id, _, _) => id.clone(),
            _ => {
                return Some(no_step());
            },
        };
        if self.cursor_position == usize::MAX || char_index(&self.input, self.cursor_position).is_none() {
            return None;
        }
        let ghost old_view = self@;
        let pos = self.cursor_position;
        let at_word_start = pos == 0 || char_before_at(&self.input, pos) == Some(' ');
        insert_at(&mut self.input, pos, ':');
        self.cursor_position = pos + 1;
        if at_word_start {
            self.emoji_filter_start = Some(pos);
            self.state = AppState::EmojiSelection(id);
            self.status_message = owned("Type to filter emoji. Enter to select. Esc to cancel.");
            self.emoji_filter = Vec::new();
            self.selection_index = 0;
        }
        assert(self@ =~= emoji_selected(old_view));
        Some(no_step())
    }

    /// Backspace.
    pub fn backspace(&mut self) -> (r: Option<Step>)
        ensures
            r is None <==> !backspace_ok(old(self)@),
            r is None ==> final(self)@ == old(self)@,
            r matches Some(st) ==> final(self)@ == backspaced(old(self)@) && st.keyword is None
                && st.effects@.len() == 0,
    {
        let ghost old_view = self@;
        let cur = self.cursor_position;
        let normal = match self.mode {
            InputMode::Normal => true,
            InputMode::Insert => false,
        };
        if self.vim_mode && normal {
            if char_index(&self.input, cur).is_none() {
                return None;
            }
            match char_before_at(&self.input, cur) {
                Some(c) => {
                    self.cursor_position = cur - len_utf8(c);
                },
                None => {},
            }
            assert(self@ =~= backspaced(old_view));
            return Some(no_step());
        }
        let len = match byte_length_checked(&self.input) {
            Some(n) => n,
            None => {
                return None;
            },
        };
        let emoji_id = match &self.state {
            AppState::EmojiSelection(id) => Some(id.clone()),
            _ => None,
        };
        let chatting = match &self.state {
            AppState::Chatting(_) => true,
            _ => false,
        };
        if chatting {
            if char_index(&self.input, cur).is_none() {
                return None;
            }
            match char_before_at(&self.input, cur) {
                Some(c) => {
                    remove_before(&mut self.input, cur);
                    self.cursor_position = cur - len_utf8(c);
                },
                None => {},
            }
            assert(self@ =~= backspaced(old_view));
            return Some(no_step());
        }
        match emoji_id {
            Some(id) => {
                if char_index(&self.input, cur).is_none() {
                    return None;
                }
                match char_before_at(&self.input, cur) {
                    Some(c) => {
                        let w = len_utf8(c);
                        let mut s1 = self.input.clone();
                        remove_before(&mut s1, cur);
                        proof {
                            crate::editing::lemma_removed_len(old_view.input, cur as int);
                        }
                        if !refilter_possible(&s1, cur - w, len - w, self.emoji_filter_start) {
                            return None;
                        }
                        self.input = s1;
                        self.cursor_position = cur - w;
                        self.refilter();
                        self.close_empty_filter(id, true);
                        self.selection_index = 0;
                    },
                    None => {},
                }
                assert(self@ =~= backspaced(old_view));
                Some(no_step())
            },
            None => {
                let pos = if cur <= len && cur > 0 {
                    cur
                } else {
                    len
                };
                if char_index(&self.input, pos).is_none() {
                    return None;
                }
                match char_before_at(&self.input, pos) {
                    Some(c) => {
                        let w = len_utf8(c);
                        if cur < w {
                            return None;
                        }
                        remove_before(&mut self.input, pos);
                        self.cursor_position = cur - w;
                    },
                    None => {},
                }
                assert(self@ =~= backspaced(old_view));
                Some(no_step())
            },
        }
    }

    /// Delete.
    pub fn delete(&mut self) -> (r: Option<Step>)
        ensures
            r is None <==> !delete_ok(old(self)@),
            r is None ==> final(self)@ == old(self)@,
            r matches Some(st) ==> final(self)@ == deleted(old(self)@) && st.keyword is None
                && st.effects@.len() == 0,
    {
        let ghost old_view = self@;
        let cur = self.cursor_position;
        let len = match byte_length_checked(&self.input) {
            Some(n) => n,
            None => {
                return None;
            },
        };
        let emoji_id = match &self.state {
            AppState::EmojiSelection(id) => Some(id.clone()),
            _ => None,
        };
        let chatting = match &self.state {
            AppState::Chatting(_) => true,
            _ => false,
        };
        if chatting {
            if self.input.len() == 0 {
                return Some(no_step());
            }
            proof {
                crate::text::lemma_byte_len_take_le(old_view.input, 0, old_view.input.len() as int);
                crate::text::lemma_byte_len_full(old_view.input);
                assert(old_view.input.take(0) =~= Seq::<char>::empty());
            }
            let c1 = if cur >= len {
                len - 1
            } else {
                cur
            };
            let pos = c1 + 1;
            if char_index(&self.input, pos).is_none() {
                return None;
            }
            proof {
                crate::text::lemma_boundary_index(old_view.input, pos as int);
                assert(old_view.input.take(0) =~= Seq::<char>::empty());
            }
            remove_before(&mut self.input, pos);
            self.cursor_position = c1;
            assert(self@ =~= deleted(old_view));
            return Some(no_step());
        }
        match emoji_id {
            Some(id) => {
                if cur == usize::MAX || char_index(&self.input, cur + 1).is_none() {
                    return None;
                }
                let pos = cur + 1;
                proof {
                    crate::text::lemma_boundary_index(old_view.input, pos as int);
                    assert(old_view.input.take(0) =~= Seq::<char>::empty());
                    crate::editing::lemma_removed_len(old_view.input, pos as int);
                }
                let w = len_utf8(self.input[char_index(&self.input, pos).unwrap() - 1]);
                let mut s1 = self.input.clone();
                remove_before(&mut s1, pos);
                if !refilter_possible(&s1, cur, len - w, self.emoji_filter_start) {
                    return None;
                }
                self.input = s1;
                self.refilter();
                self.close_empty_filter(id, true);
                self.emoji_index = 0;
                assert(self@ =~= deleted(old_view));
                Some(no_step())
            },
            None => {
                let pos = if cur < len {
                    cur + 1
                } else {
                    len
                };
                if char_index(&self.input, pos).is_none() {
                    return None;
                }
                match char_before_at(&self.input, pos) {
                    Some(_) => {
                        remove_before(&mut self.input, pos);
                    },
                    None => {},
                }
                assert(self@ =~= deleted(old_view));
                Some(no_step())
            },
        }
    }

    /// Esc.
    pub fn escape(&mut self) -> (r: Option<Step>)
        ensures
            r is None <==> !escape_ok(old(self)@),
            r is None ==> final(self)@ == old(self)@,
            r matches Some(st) ==> escaped(old(self)@, final(self)@, st),
    {
        let ghost old_view = self@;
        let insert = match self.mode {
            InputMode::Insert => true,
            InputMode::Normal => false,
        };
        if self.vim_mode && insert {
            let len = match byte_length_checked(&self.input) {
                Some(n) => n,
                None => {
                    return None;
                },
            };
            let cur = self.cursor_position;
            let pos = if cur <= len && cur > 0 {
                cur
            } else {
                len
            };
            if char_index(&self.input, pos).is_none() {
                return None;
            }
            self.mode = InputMode::Normal;
            match char_before_at(&self.input, pos) {
                Some(c) => {
                    if c != '\n' {
                        let w = len_utf8(c);
                        self.cursor_position = if cur >= w {
                            cur - w
                        } else {
                            0
                        };
                    }
                },
                None => {},
            }
            let n = self.input.len();
            let ends_nl = n > 0 && self.input[n - 1] == '\n';
            assert(self@ =~= AppView {
                mode: InputMode::Normal,
                cursor_position: normal_mode_cursor(old_view) as usize,
                ..old_view
            });
            if self.cursor_position == len && ends_nl {
                return Some(no_step());
            }
            return Some(one_effect(Effect::ClampCursor));
        }
        let r = match &self.state {
            AppState::Home => Step { keyword: Some(KeywordAction::Break), effects: Vec::new() },
            AppState::Loading(_) => Step {
                keyword: Some(KeywordAction::Break),
                effects: Vec::new(),
            },
            AppState::SelectingDM => one_effect(Effect::Send(AppAction::TransitionToHome)),
            AppState::SelectingGuild => one_effect(Effect::Send(AppAction::TransitionToHome)),
            AppState::SelectingChannel(_) => one_effect(Effect::Send(AppAction::TransitionToGuilds)),
            AppState::Chatting(id) => one_effect(Effect::LookupChannel { channel_id: id.clone() }),
            AppState::EmojiSelection(id) => one_effect(
                Effect::Send(AppAction::TransitionToChat(id.clone())),
            ),
            AppState::Editing(id, _, _) => one_effect(
                Effect::Send(AppAction::TransitionToChat(id.clone())),
            ),
        };
        Some(r)
    }

    /// Finishes leaving a chat once the chat's channel has been looked up.
    pub fn escape_from_chat(&mut self, looked_up: Result<Channel, String>) -> (r: Step)
        ensures
            left_chat(old(self)@, looked_up, final(self)@, r),
    {
        match looked_up {
            Err(e) => {
                self.status_message = e;
                one_effect(Effect::Send(AppAction::TransitionToHome))
            },
            Ok(ch) => {
                let a = if ch.channel_type == 1 || ch.channel_type == 3 {
                    AppAction::TransitionToDM
                } else {
                    match ch.guild_id {
                        Some(g) => AppAction::TransitionToChannels(g),
                        None => AppAction::TransitionToGuilds,
                    }
                };
                one_effect(Effect::Send(a))
            },
        }
    }
}

/// Whether the emoji filter can be recomputed on `s` (of byte length `len`).
fn refilter_possible(s: &Vec<char>, cursor: usize, len: usize, start: Option<usize>) -> (r: bool)
    requires
        len == byte_len(s@),
    ensures
        r == refilter_ok(s@, cursor as int, start),
{
    match start {
        None => true,
        Some(st) => {
            if st == usize::MAX {
                return false;
            }
            let fs = st + 1;
            if cursor <= st || fs > len {
                return true;
            }
            let end = if cursor <= len {
                cursor
            } else {
                len
            };
            if fs <= end {
                char_index(s, fs).is_some() && char_index(s, end).is_some()
            } else {
                true
            }
        },
    }
}

} // verus!
