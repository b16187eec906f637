//! One entry point for every event the client handles.
use vstd::prelude::*;
use crate::text::{byte_len, chars_of, byte_length_checked};
use crate::channels::grouped;
use crate::app::{App, AppView, AppState, AppAction, Effect, KeywordAction, Step, home_status,
    select_server_status, select_dm_status};
use crate::events::{list_screen, open_chat, opening_chat_fits, start_edit, after_loading, ticked,
    loading_screen, with_guilds, with_emojis, with_context, with_user, with_channels, with_dms,
    deleted_by_gateway, deleted_by_user, message_updated, first_with_id, has_id, messages_arrived,
    shows_chat, message_created};
use crate::input::{char_ok, char_handled, backspace_ok, backspaced, delete_ok, deleted, escape_ok,
    escaped, select_emoji_ok, emoji_selected, paste_ok, pasted, one_effect};
use crate::selection::{total_emojis, move_ok, moved, submit_ok, submitted, quiet};

verus! {

/// The inputs on which handling an event stays within the text's characters,
/// the lists and the machine's integers (elsewhere the event is refused).
pub open spec fn can_handle(v: AppView, a: AppAction) -> bool {
    &&& total_emojis(v) <= usize::MAX
    &&& match a {
        AppAction::InputChar(c) => char_ok(v, c),
        AppAction::InputBackspace => backspace_ok(v),
        AppAction::InputDelete => delete_ok(v),
        AppAction::InputEscape => escape_ok(v),
        AppAction::InputSubmit => submit_ok(v),
        AppAction::SelectNext => move_ok(v, true),
        AppAction::SelectPrevious => move_ok(v, false),
        AppAction::TransitionToChat(_) => opening_chat_fits(v),
        AppAction::TransitionToEditing(_, _, content, _) => byte_len(content@) <= usize::MAX,
        AppAction::SelectEmoji => select_emoji_ok(v),
        AppAction::Paste(t) => paste_ok(v, t@),
        _ => true,
    }
}

/// What handling each event does to the screen state, and the work it asks for.
pub open spec fn handled(v: AppView, a: AppAction, new: AppView, r: Step) -> bool {
    match a {
        AppAction::SigInt => new == v && r.keyword == Some(KeywordAction::Break)
            && r.effects@.len() == 0,
        AppAction::InputChar(c) => char_handled(v, c, new, r),
        AppAction::InputBackspace => new == backspaced(v) && quiet(r),
        AppAction::InputDelete => new == deleted(v) && quiet(r),
        AppAction::InputEscape => escaped(v, new, r),
        AppAction::InputSubmit => submitted(v, new, r),
        AppAction::SelectNext => new == moved(v, true) && quiet(r),
        AppAction::SelectPrevious => new == moved(v, false) && quiet(r),
        AppAction::SelectLeft => new == v && r.keyword is None && r.effects@ == seq![
            Effect::VimKey('h'),
        ],
        AppAction::SelectRight => new == v && r.keyword is None && r.effects@ == seq![
            Effect::VimKey('l'),
        ],
        AppAction::ApiDeleteMessage(c, m) => new == deleted_by_user(v, m@) && r.keyword is None
            && r.effects@ == seq![Effect::DeleteMessage { channel_id: c, message_id: m }],
        AppAction::ApiEditMessage(c, m, t) => new == v && r.keyword is None && r.effects@ == seq![
            Effect::EditMessage { channel_id: c, message_id: m, content: t },
        ],
        AppAction::ApiUpdateMessages(c, ms) => quiet(r) && if shows_chat(v.state, c@) {
            new == messages_arrived(v, c@, ms@)
        } else {
            new == v
        },
        AppAction::ApiUpdateChannel(chs) => quiet(r) && grouped(new.channels, chs@) && new
            == with_channels(v, new.channels),
        AppAction::ApiUpdateEmojis(es) => new == with_emojis(v, es@) && quiet(r),
        AppAction::ApiUpdateGuilds(gs) => new == with_guilds(v, gs@) && quiet(r),
        AppAction::ApiUpdateDMs(ds) => new == with_dms(v, ds@) && quiet(r),
        AppAction::ApiUpdateContext(c) => new == with_context(v, c) && quiet(r),
        AppAction::ApiUpdateCurrentUser(u) => new == with_user(v, u) && quiet(r),
        AppAction::GatewayMessageCreate(m) => message_created(v, m, new, r),
        AppAction::GatewayMessageUpdate(u) => {
            &&& quiet(r)
            &&& !has_id(v.messages, u.id@) ==> new == v
            &&& forall|p: int| first_with_id(v.messages, u.id@, p) ==> new == message_updated(v, p, u)
        },
        AppAction::GatewayMessageDelete(id, _) => new == deleted_by_gateway(v, id@) && quiet(r),
        AppAction::TransitionToChat(c) => new == open_chat(v, c) && quiet(r),
        AppAction::TransitionToEditing(c, m, t, ch) => new == start_edit(v, c, m, t, ch) && quiet(r),
        AppAction::TransitionToChannels(g) => new == list_screen(
            v,
            AppState::SelectingChannel(g),
            select_server_status(),
        ) && quiet(r),
        AppAction::TransitionToGuilds => new == list_screen(
            v,
            AppState::SelectingGuild,
            select_server_status(),
        ) && quiet(r),
        AppAction::TransitionToDM => new == list_screen(v, AppState::SelectingDM, select_dm_status())
            && quiet(r),
        AppAction::TransitionToHome => new == list_screen(v, AppState::Home, home_status()) && quiet(
            r,
        ),
        AppAction::TransitionToLoading(w) => new == loading_screen(v, w) && quiet(r),
        AppAction::EndLoading => new == v && r.keyword is None && r.effects@ == match v.state {
            AppState::Loading(w) => seq![Effect::Send(after_loading(w))],
            _ => Seq::empty(),
        },
        AppAction::SelectEmoji => new == emoji_selected(v) && quiet(r),
        AppAction::Paste(t) => new == pasted(v, t@) && quiet(r),
        AppAction::Tick => new == ticked(v) && r.keyword == Some(KeywordAction::Continue)
            && r.effects@.len() == 0,
    }
}

impl App {
    /// Handles one event. `None`: the event cannot be handled in this state
    /// (it would cut a character or overflow), and nothing changed.
    pub fn handle_keys_events(&mut self, action: AppAction) -> (r: Option<Step>)
        ensures
            r is None <==> !can_handle(old(self)@, action),
            r is None ==> final(self)@ == old(self)@,
            r matches Some(st) ==> handled(old(self)@, action, final(self)@, st),
    {
        let (nu, nc) = self.emoji_counts();
        if nu > usize::MAX - nc {
            return None;
        }
        match action {
            AppAction::SigInt => Some(Step { keyword: Some(KeywordAction::Break), effects: Vec::new() }),
            AppAction::InputChar(c) => self.input_char(c),
            AppAction::InputBackspace => self.backspace(),
            AppAction::InputDelete => self.delete(),
            AppAction::InputEscape => self.escape(),
            AppAction::InputSubmit => self.submit(),
            AppAction::SelectNext => self.move_selection(true),
            AppAction::SelectPrevious => self.move_selection(false),
            AppAction::SelectLeft => Some(one_effect(Effect::VimKey('h'))),
            AppAction::SelectRight => Some(one_effect(Effect::VimKey('l'))),
            AppAction::ApiDeleteMessage(c, m) => Some(self.api_delete(c, m)),
            AppAction::ApiEditMessage(c, m, t) => Some(
                one_effect(Effect::EditMessage { channel_id: c, message_id: m, content: t }),
            ),
            AppAction::ApiUpdateMessages(c, ms) => Some(self.update_messages(c, ms)),
            AppAction::ApiUpdateChannel(chs) => Some(self.update_channels(chs)),
            AppAction::ApiUpdateEmojis(es) => Some(self.update_emojis(es)),
            AppAction::ApiUpdateGuilds(gs) => Some(self.update_guilds(gs)),
            AppAction::ApiUpdateDMs(ds) => Some(self.update_dms(ds)),
            AppAction::ApiUpdateContext(c) => Some(self.update_context(c)),
            AppAction::ApiUpdateCurrentUser(u) => Some(self.update_current_user(u)),
            AppAction::GatewayMessageCreate(m) => Some(self.gateway_create(m)),
            AppAction::GatewayMessageUpdate(u) => Some(self.gateway_update(u)),
            AppAction::GatewayMessageDelete(id, _) => Some(self.gateway_delete(id)),
            AppAction::TransitionToChat(c) => {
                if !self.chat_fits() {
                    return None;
                }
                Some(self.to_chat(c))
            },
            AppAction::TransitionToEditing(c, m, t, ch) => {
                let chars = chars_of(t.as_str());
                if byte_length_checked(&chars).is_none() {
                    return None;
                }
                Some(self.start_editing(c, m, t, ch))
            },
            AppAction::TransitionToChannels(g) => Some(self.to_channels(g)),
            AppAction::TransitionToGuilds => Some(self.to_guilds()),
            AppAction::TransitionToDM => Some(self.to_dms()),
            AppAction::TransitionToHome => Some(self.to_home()),
            AppAction::TransitionToLoading(w) => Some(self.to_loading(w)),
            AppAction::EndLoading => Some(self.end_loading()),
            AppAction::SelectEmoji => self.select_emoji(),
            AppAction::Paste(t) => self.paste(t),
            AppAction::Tick => Some(self.on_tick()),
        }
    }

    fn chat_fits(&self) -> (r: bool)
        ensures
            r == opening_chat_fits(self@),
    {
        match &self.state {
            AppState::EmojiSelection(_) => match self.emoji_filter_start {
                Some(st) => match byte_length_checked(&self.emoji_filter) {
                    Some(n) => st < usize::MAX && n <= usize::MAX - st - 1,
                    None => false,
                },
                None => true,
            },
            _ => true,
        }
    }
}

} // verus!
