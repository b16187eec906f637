//! The client's screen state and how each user or network event changes it.
use vstd::prelude::*;
use crate::text::{owned};
use crate::model::{Channel, DM, Emoji, Guild, Message, PartialMessage, PermissionContext, User,
    VimState};
use crate::keyed::{pairs_map, string_set};

verus! {

#[derive(Debug, Clone, PartialEq, Eq, Structural)]
pub enum KeywordAction {
    Continue,
    Break,
}

#[derive(Debug, Clone)]
pub enum Window {
    Home,
    Guild,
    DM,
    Channel(String),
    Chat(String),
}

#[derive(Debug, Clone)]
pub enum AppState {
    Home,
    SelectingGuild,
    SelectingDM,
    SelectingChannel(String),
    Chatting(String),
    EmojiSelection(String),
    Editing(String, Message, String),
    Loading(Window),
}

#[derive(Debug)]
pub enum AppAction {
    SigInt,
    InputChar(char),
    InputBackspace,
    InputDelete,
    InputEscape,
    InputSubmit,
    SelectNext,
    SelectPrevious,
    SelectLeft,
    SelectRight,
    ApiDeleteMessage(String, String),
    ApiEditMessage(String, String, String),
    ApiUpdateMessages(String, Vec<Message>),
    ApiUpdateChannel(Vec<Channel>),
    ApiUpdateEmojis(Vec<Emoji>),
    ApiUpdateGuilds(Vec<Guild>),
    ApiUpdateDMs(Vec<DM>),
    ApiUpdateContext(Option<PermissionContext>),
    ApiUpdateCurrentUser(User),
    GatewayMessageCreate(Message),
    GatewayMessageUpdate(PartialMessage),
    GatewayMessageDelete(String, String),
    TransitionToChat(String),
    TransitionToEditing(String, Message, String, char),
    TransitionToChannels(String),
    TransitionToGuilds,
    TransitionToDM,
    TransitionToHome,
    TransitionToLoading(Window),
    EndLoading,
    SelectEmoji,
    Paste(String),
    Tick,
}

#[derive(Debug, Clone, PartialEq, Eq, Structural)]
pub enum InputMode {
    Normal,
    Insert,
}

/// Work that handling an event asks the caller to do, in order.
#[derive(Debug)]
pub enum Effect {
    /// Queue this event for later handling.
    Send(AppAction),
    /// In the background: show loading for the direct-message chat, fetch its
    /// latest 100 messages, hand them over, end loading.
    LoadDirectMessages { channel_id: String },
    /// In the background: show loading for the server, fetch its channels,
    /// custom emojis and permission context, hand each over, end loading.
    LoadServer { guild_id: String },
    /// Now: fetch the latest 100 messages of the channel, then call
    /// `App::chat_messages_loaded` with the outcome.
    FetchChatMessages { channel_id: String },
    /// Now: fetch the channel, then call `App::escape_from_chat` with the outcome.
    LookupChannel { channel_id: String },
    /// In the background: edit the message, then hand over the events that
    /// `edit_submitted` gives for the answer.
    SubmitEdit { channel_id: String, message_id: String, content: String, messages: Vec<Message> },
    /// In the background: post a new message.
    SendMessage { channel_id: String, content: String },
    /// In the background: delete a message.
    DeleteMessage { channel_id: String, message_id: String },
    /// In the background: edit a message.
    EditMessage { channel_id: String, message_id: String, content: String },
    /// Show a desktop notification.
    Notify { summary: String, body: String },
    /// Hand this key to the vim key handler.
    VimKey(char),
    /// Let the vim key handler clamp the cursor.
    ClampCursor,
}

/// The outcome of handling one event.
#[derive(Debug)]
pub struct Step {
    pub keyword: Option<KeywordAction>,
    pub effects: Vec<Effect>,
}

#[derive(Debug)]
pub struct App {
    pub state: AppState,
    pub guilds: Vec<Guild>,
    pub channels: Vec<Channel>,
    pub messages: Vec<Message>,
    pub custom_emojis: Vec<Emoji>,
    pub dms: Vec<DM>,
    /// The input line; positions in it are UTF-8 byte offsets.
    pub input: Vec<char>,
    pub saved_input: Option<Vec<char>>,
    pub selection_index: usize,
    pub status_message: String,
    pub terminal_height: usize,
    pub terminal_width: usize,
    pub emoji_map: Vec<(String, String)>,
    pub emoji_filter: Vec<char>,
    pub emoji_index: usize,
    /// Byte offset of the `:` that opened the emoji filter.
    pub emoji_filter_start: Option<usize>,
    pub chat_scroll_offset: usize,
    pub tick_count: usize,
    pub context: Option<PermissionContext>,
    pub mode: InputMode,
    /// Byte offset of the cursor in the input line.
    pub cursor_position: usize,
    pub vim_mode: bool,
    pub vim_state: Option<VimState>,
    pub current_user: Option<User>,
    pub last_message_ids: Vec<(String, String)>,
    pub discreet_notifs: bool,
    pub deleted_message_ids: Vec<String>,
}

#[verifier::ext_equal]
pub struct VimStateView {
    pub operator: Option<char>,
    pub pending_keys: Seq<char>,
}

#[verifier::ext_equal]
pub struct AppView {
    pub state: AppState,
    pub guilds: Seq<Guild>,
    pub channels: Seq<Channel>,
    pub messages: Seq<Message>,
    pub custom_emojis: Seq<Emoji>,
    pub dms: Seq<DM>,
    pub input: Seq<char>,
    pub saved_input: Option<Seq<char>>,
    pub selection_index: usize,
    pub status_message: Seq<char>,
    pub terminal_height: usize,
    pub terminal_width: usize,
    pub emoji_map: Seq<(String, String)>,
    pub emoji_filter: Seq<char>,
    pub emoji_index: usize,
    pub emoji_filter_start: Option<usize>,
    pub chat_scroll_offset: usize,
    pub tick_count: usize,
    pub context: Option<PermissionContext>,
    pub mode: InputMode,
    pub cursor_position: usize,
    pub vim_mode: bool,
    pub vim_state: Option<VimStateView>,
    pub current_user: Option<User>,
    pub last_message_ids: Map<Seq<char>, Seq<char>>,
    pub discreet_notifs: bool,
    pub deleted_message_ids: Set<Seq<char>>,
}

impl View for App {
    type V = AppView;

    open spec fn view(&self) -> AppView {
        AppView {
            state: self.state,
            guilds: self.guilds@,
            channels: self.channels@,
            messages: self.messages@,
            custom_emojis: self.custom_emojis@,
            dms: self.dms@,
            input: self.input@,
            saved_input: match self.saved_input {
                Some(v) => Some(v@),
                None => None,
            },
            selection_index: self.selection_index,
            status_message: self.status_message@,
            terminal_height: self.terminal_height,
            terminal_width: self.terminal_width,
            emoji_map: self.emoji_map@,
            emoji_filter: self.emoji_filter@,
            emoji_index: self.emoji_index,
            emoji_filter_start: self.emoji_filter_start,
            chat_scroll_offset: self.chat_scroll_offset,
            tick_count: self.tick_count,
            context: self.context,
            mode: self.mode,
            cursor_position: self.cursor_position,
            vim_mode: self.vim_mode,
            vim_state: match self.vim_state {
                Some(v) => Some(VimStateView { operator: v.operator, pending_keys: v.pending_keys@ }),
                None => None,
            },
            current_user: self.current_user,
            last_message_ids: pairs_map(self.last_message_ids@),
            discreet_notifs: self.discreet_notifs,
            deleted_message_ids: string_set(self.deleted_message_ids@),
        }
    }
}

/* The status lines shown at the bottom of the screen. */

pub open spec fn home_status() -> Seq<char> {
    "Browse either DMs or Servers. Use arrows to navigate, Enter to select & Esc to quit"@
}

pub open spec fn servers_loaded_status() -> Seq<char> {
    "Select a server. Use arrows to navigate, Enter to select & Esc to quit."@
}

pub open spec fn select_server_status() -> Seq<char> {
    "Select a server. Use arrows to navigate, Enter to select & Esc to quit"@
}

pub open spec fn select_dm_status() -> Seq<char> {
    "Select a DM. Use arrows to navigate, Enter to select & Esc to quit"@
}

pub open spec fn channels_loaded_status() -> Seq<char> {
    "Channels loaded. Select one to chat. (Esc to return to Servers)"@
}

pub open spec fn no_channels_status() -> Seq<char> {
    "No text channels found. (Esc to return to Servers)"@
}

pub open spec fn dms_loaded_status() -> Seq<char> {
    "DMs loaded. Select one to chat. (Esc to return to Home)"@
}

pub open spec fn no_dms_status() -> Seq<char> {
    "No DMs found. (Esc to return to Home)"@
}

pub open spec fn chatting_status() -> Seq<char> {
    "Chatting in channel. Press Enter to send message, Esc to return to channels."@
}

pub open spec fn emoji_typed_out_status() -> Seq<char> {
    "Chatting in channel. Press Enter to send message. Esc to return channels"@
}

pub open spec fn emoji_erased_status() -> Seq<char> {
    "Chatting in channel. Press Enter to send message. Esc to return to channels"@
}

pub open spec fn emoji_status() -> Seq<char> {
    "Type to filter emoji. Enter to select. Esc to cancel."@
}

pub open spec fn editing_status() -> Seq<char> {
    "Editing a message in channel. Press Enter to send message. Esc to return to channels"@
}

pub open spec fn loading_status() -> Seq<char> {
    "Loading..."@
}

/// The status line of the home screen.
pub fn status_text_home() -> (r: String)
    ensures
        r@ == home_status(),
{
    owned("Browse either DMs or Servers. Use arrows to navigate, Enter to select & Esc to quit")
}

impl App {
    /// A client that is loading its home screen.
    pub fn new(emoji_map: Vec<(String, String)>, vim_mode: bool, discreet_notifs: bool) -> (r: App)
        ensures
            r@.state == AppState::Loading(Window::Home),
            r@.guilds.len() == 0,
            r@.channels.len() == 0,
            r@.messages.len() == 0,
            r@.custom_emojis.len() == 0,
            r@.dms.len() == 0,
            r@.input.len() == 0,
            r@.saved_input is None,
            r@.selection_index == 0,
            r@.status_message == home_status(),
            r@.terminal_height == 20,
            r@.terminal_width == 80,
            r@.emoji_map == emoji_map@,
            r@.emoji_filter.len() == 0,
            r@.emoji_index == 0,
            r@.emoji_filter_start is None,
            r@.chat_scroll_offset == 0,
            r@.tick_count == 0,
            r@.context is None,
            r@.mode == InputMode::Normal,
            r@.cursor_position == 0,
            r@.vim_mode == vim_mode,
            r@.vim_state == (if vim_mode {
                Some(VimStateView { operator: None, pending_keys: Seq::empty() })
            } else {
                None
            }),
            r@.current_user is None,
            r@.last_message_ids == Map::<Seq<char>, Seq<char>>::empty(),
            r@.discreet_notifs == discreet_notifs,
            r@.deleted_message_ids == Set::<Seq<char>>::empty(),
    {
        let r = App {
            state: AppState::Loading(Window::Home),
            guilds: Vec::new(),
            channels: Vec::new(),
            messages: Vec::new(),
            custom_emojis: Vec::new(),
            dms: Vec::new(),
            input: Vec::new(),
            saved_input: None,
            selection_index: 0,
            status_message: status_text_home(),
            terminal_height: 20,
            terminal_width: 80,
            emoji_map,
            emoji_filter: Vec::new(),
            emoji_index: 0,
            emoji_filter_start: None,
            chat_scroll_offset: 0,
            tick_count: 0,
            context: None,
            mode: InputMode::Normal,
            cursor_position: 0,
            vim_mode,
            vim_state: if vim_mode {
                Some(VimState { operator: None, pending_keys: Vec::new() })
            } else {
                None
            },
            current_user: None,
            last_message_ids: Vec::new(),
            discreet_notifs,
            deleted_message_ids: Vec::new(),
        };
        assert(r@.last_message_ids =~= Map::<Seq<char>, Seq<char>>::empty());
        assert(r@.deleted_message_ids =~= Set::<Seq<char>>::empty());
        assert(r@.vim_state == (if vim_mode {
            Some(VimStateView { operator: None, pending_keys: Seq::empty() })
        } else {
            None
        }));
        r
    }
}

} // verus!
