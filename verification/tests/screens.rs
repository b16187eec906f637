use vimcord::app::{App, AppAction, AppState, Effect, InputMode, KeywordAction, Step, Window};
use vimcord::model::{Message, User, DM, Guild};

fn user(id: &str, username: &str) -> User {
    User { id: id.to_string(), username: username.to_string(), global_name: None }
}

fn message(id: &str, channel: &str, author: User, content: &str) -> Message {
    Message {
        id: id.to_string(),
        channel_id: channel.to_string(),
        author,
        content: Some(content.to_string()),
        timestamp: "t".to_string(),
        mentions: vec![],
    }
}

fn handle(app: &mut App, a: AppAction) -> Step {
    app.handle_keys_events(a).expect("the event can be handled")
}

fn input(app: &App) -> String {
    app.input.iter().collect()
}

fn chatting(channel: &str) -> App {
    let mut app = App::new(vec![("smile".to_string(), "😄".to_string())], false, false);
    app.state = AppState::Chatting(channel.to_string());
    app
}

#[test]
fn loading_home_then_navigating() {
    let mut app = App::new(vec![], false, false);
    assert!(matches!(app.state, AppState::Loading(Window::Home)));
    let st = handle(&mut app, AppAction::EndLoading);
    assert!(st.keyword.is_none());
    assert_eq!(st.effects.len(), 1);
    assert!(matches!(st.effects[0], Effect::Send(AppAction::TransitionToHome)));
    handle(&mut app, AppAction::TransitionToHome);
    assert!(matches!(app.state, AppState::Home));
    assert_eq!(
        app.status_message,
        "Browse either DMs or Servers. Use arrows to navigate, Enter to select & Esc to quit"
    );
    handle(&mut app, AppAction::SelectNext);
    assert_eq!(app.selection_index, 1);
    handle(&mut app, AppAction::SelectPrevious);
    assert_eq!(app.selection_index, 0);
    handle(&mut app, AppAction::SelectPrevious);
    assert_eq!(app.selection_index, 2);
    handle(&mut app, AppAction::SelectNext);
    assert_eq!(app.selection_index, 0);
}

#[test]
fn home_enter_opens_servers_or_quits() {
    let mut app = App::new(vec![], false, false);
    handle(&mut app, AppAction::TransitionToHome);
    let st = handle(&mut app, AppAction::InputSubmit);
    assert!(matches!(st.effects[0], Effect::Send(AppAction::TransitionToGuilds)));
    app.selection_index = 1;
    let st = handle(&mut app, AppAction::InputSubmit);
    assert!(matches!(st.effects[0], Effect::Send(AppAction::TransitionToDM)));
    app.selection_index = 2;
    let st = handle(&mut app, AppAction::InputSubmit);
    assert_eq!(st.keyword, Some(KeywordAction::Break));
}

#[test]
fn sigint_quits_and_tick_counts() {
    let mut app = App::new(vec![], false, false);
    let st = handle(&mut app, AppAction::Tick);
    assert_eq!(st.keyword, Some(KeywordAction::Continue));
    assert_eq!(app.tick_count, 1);
    let st = handle(&mut app, AppAction::SigInt);
    assert_eq!(st.keyword, Some(KeywordAction::Break));
}

#[test]
fn typing_erasing_and_sending() {
    let mut app = chatting("c1");
    handle(&mut app, AppAction::InputChar('h'));
    handle(&mut app, AppAction::InputChar('é'));
    assert_eq!(input(&app), "hé");
    assert_eq!(app.cursor_position, 3);
    handle(&mut app, AppAction::InputBackspace);
    assert_eq!(input(&app), "h");
    assert_eq!(app.cursor_position, 1);
    handle(&mut app, AppAction::InputChar('i'));
    let st = handle(&mut app, AppAction::InputSubmit);
    assert_eq!(input(&app), "");
    assert_eq!(app.cursor_position, 0);
    assert_eq!(st.effects.len(), 1);
    match &st.effects[0] {
        Effect::SendMessage { channel_id, content } => {
            assert_eq!(channel_id, "c1");
            assert_eq!(content, "hi");
        }
        other => panic!("unexpected effect {:?}", other),
    }
}

#[test]
fn empty_input_sends_nothing() {
    let mut app = chatting("c1");
    let st = handle(&mut app, AppAction::InputSubmit);
    assert!(st.effects.is_empty());
}

#[test]
fn paste_inserts_at_cursor() {
    let mut app = chatting("c1");
    handle(&mut app, AppAction::InputChar('a'));
    handle(&mut app, AppAction::InputChar('d'));
    app.cursor_position = 1;
    handle(&mut app, AppAction::Paste("bc".to_string()));
    assert_eq!(input(&app), "abcd");
    assert_eq!(app.cursor_position, 3);
}

#[test]
fn colon_opens_emoji_selection_and_enter_inserts_emoji() {
    let mut app = chatting("c1");
    let st = handle(&mut app, AppAction::InputChar(':'));
    assert!(matches!(st.effects[0], Effect::Send(AppAction::SelectEmoji)));
    handle(&mut app, AppAction::SelectEmoji);
    assert!(matches!(&app.state, AppState::EmojiSelection(c) if c == "c1"));
    assert_eq!(input(&app), ":");
    assert_eq!(app.emoji_filter_start, Some(0));
    handle(&mut app, AppAction::InputChar('s'));
    handle(&mut app, AppAction::InputChar('m'));
    let filter: String = app.emoji_filter.iter().collect();
    assert_eq!(filter, "sm");
    handle(&mut app, AppAction::InputSubmit);
    assert!(matches!(&app.state, AppState::Chatting(c) if c == "c1"));
    assert_eq!(input(&app), "😄 ");
    assert_eq!(app.cursor_position, 5);
    assert_eq!(app.emoji_filter_start, None);
}

#[test]
fn colon_inside_a_word_is_typed() {
    let mut app = chatting("c1");
    handle(&mut app, AppAction::InputChar('a'));
    handle(&mut app, AppAction::SelectEmoji);
    assert!(matches!(app.state, AppState::Chatting(_)));
    assert_eq!(input(&app), "a:");
}

#[test]
fn vim_normal_mode_hands_keys_over() {
    let mut app = App::new(vec![], true, false);
    app.state = AppState::Chatting("c1".to_string());
    assert_eq!(app.mode, InputMode::Normal);
    let st = handle(&mut app, AppAction::InputChar('x'));
    assert!(matches!(st.effects[0], Effect::VimKey('x')));
    assert!(app.input.is_empty());
    let st = handle(&mut app, AppAction::SelectLeft);
    assert!(matches!(st.effects[0], Effect::VimKey('h')));
}

#[test]
fn deleted_message_never_comes_back() {
    let mut app = chatting("c1");
    let a = user("u1", "ann");
    handle(&mut app, AppAction::ApiUpdateMessages(
        "c1".to_string(),
        vec![message("5", "c1", a.clone(), "five"), message("6", "c1", a.clone(), "six")],
    ));
    assert_eq!(app.messages.len(), 2);
    handle(&mut app, AppAction::GatewayMessageDelete("5".to_string(), "c1".to_string()));
    assert_eq!(app.messages.len(), 1);
    assert_eq!(app.messages[0].id, "6");
    handle(&mut app, AppAction::ApiUpdateMessages(
        "c1".to_string(),
        vec![message("5", "c1", a.clone(), "five"), message("7", "c1", a.clone(), "seven")],
    ));
    assert_eq!(app.messages.len(), 1);
    assert_eq!(app.messages[0].id, "7");
}

#[test]
fn messages_for_another_chat_are_ignored() {
    let mut app = chatting("c1");
    handle(&mut app, AppAction::ApiUpdateMessages(
        "c2".to_string(),
        vec![message("5", "c2", user("u", "u"), "x")],
    ));
    assert!(app.messages.is_empty());
}

#[test]
fn newest_message_id_is_recorded() {
    let mut app = chatting("c1");
    let a = user("u1", "ann");
    handle(&mut app, AppAction::ApiUpdateMessages(
        "c1".to_string(),
        vec![message("8", "c1", a.clone(), "x"), message("10", "c1", a.clone(), "y")],
    ));
    // Ids compare as text, as `String`s do: "8" is greater than "10".
    assert!(app.last_message_ids.iter().any(|(c, m)| c == "c1" && m == "8"));
}

#[test]
fn new_message_in_open_chat_is_ordered_newest_first() {
    let mut app = chatting("c1");
    let a = user("u1", "ann");
    handle(&mut app, AppAction::ApiUpdateMessages(
        "c1".to_string(),
        vec![message("20", "c1", a.clone(), "x"), message("10", "c1", a.clone(), "y")],
    ));
    let st = handle(&mut app, AppAction::GatewayMessageCreate(message("15", "c1", a.clone(), "z")));
    assert!(st.effects.is_empty());
    let ids: Vec<&str> = app.messages.iter().map(|m| m.id.as_str()).collect();
    assert_eq!(ids, vec!["20", "15", "10"]);
}

fn dm(id: &str, name: &str) -> DM {
    DM { id: id.to_string(), name: Some(name.to_string()), recipients: vec![], last_message_id: None }
}

#[test]
fn direct_message_elsewhere_notifies() {
    let mut app = App::new(vec![], false, false);
    app.state = AppState::Home;
    handle(&mut app, AppAction::ApiUpdateDMs(vec![dm("d1", "friend")]));
    let st = handle(&mut app, AppAction::GatewayMessageCreate(message("3", "d1", user("u2", "bo"), "hey")));
    assert_eq!(st.effects.len(), 1);
    match &st.effects[0] {
        Effect::Notify { summary, body } => {
            assert_eq!(summary, "bo");
            assert_eq!(body, "hey");
        }
        other => panic!("unexpected effect {:?}", other),
    }
    assert!(app.last_message_ids.iter().any(|(c, m)| c == "d1" && m == "3"));
}

#[test]
fn discreet_notification_hides_text() {
    let mut app = App::new(vec![], false, true);
    app.state = AppState::Home;
    handle(&mut app, AppAction::ApiUpdateDMs(vec![dm("d1", "friend")]));
    let st = handle(&mut app, AppAction::GatewayMessageCreate(message("3", "d1", user("u2", "bo"), "hey")));
    match &st.effects[0] {
        Effect::Notify { body, .. } => assert_eq!(body, "Sent you a DM"),
        other => panic!("unexpected effect {:?}", other),
    }
}

#[test]
fn own_direct_message_does_not_notify() {
    let mut app = App::new(vec![], false, false);
    app.state = AppState::Home;
    handle(&mut app, AppAction::ApiUpdateCurrentUser(user("me", "me")));
    handle(&mut app, AppAction::ApiUpdateDMs(vec![dm("d1", "friend")]));
    let st = handle(&mut app, AppAction::GatewayMessageCreate(message("3", "d1", user("me", "me"), "hey")));
    assert!(st.effects.is_empty());
}

#[test]
fn choosing_a_server_loads_it() {
    let mut app = App::new(vec![], false, false);
    handle(&mut app, AppAction::ApiUpdateGuilds(vec![
        Guild { id: "g1".to_string(), name: "Rust".to_string() },
        Guild { id: "g2".to_string(), name: "Verus".to_string() },
    ]));
    handle(&mut app, AppAction::TransitionToGuilds);
    handle(&mut app, AppAction::InputChar('v'));
    let st = handle(&mut app, AppAction::InputSubmit);
    assert_eq!(app.status_message, "Loading channels for Verus...");
    match &st.effects[0] {
        Effect::LoadServer { guild_id } => assert_eq!(guild_id, "g2"),
        other => panic!("unexpected effect {:?}", other),
    }
}

#[test]
fn no_matching_server_continues() {
    let mut app = App::new(vec![], false, false);
    handle(&mut app, AppAction::TransitionToGuilds);
    let st = handle(&mut app, AppAction::InputSubmit);
    assert_eq!(st.keyword, Some(KeywordAction::Continue));
}

#[test]
fn editing_starts_with_the_message_text() {
    let mut app = chatting("c1");
    let m = message("9", "c1", user("me", "me"), "old text");
    handle(&mut app, AppAction::TransitionToEditing("c1".to_string(), m, "old text".to_string(), 'i'));
    assert!(matches!(app.state, AppState::Editing(_, _, _)));
    assert_eq!(input(&app), "old text");
}

#[test]
fn escape_in_vim_insert_mode_returns_to_normal() {
    let mut app = App::new(vec![], true, false);
    app.state = AppState::Chatting("c1".to_string());
    app.mode = InputMode::Insert;
    handle(&mut app, AppAction::InputChar('a'));
    handle(&mut app, AppAction::InputChar('b'));
    handle(&mut app, AppAction::InputEscape);
    assert_eq!(app.mode, InputMode::Normal);
}

#[test]
fn cutting_a_character_is_refused() {
    let mut app = chatting("c1");
    handle(&mut app, AppAction::InputChar('é'));
    app.cursor_position = 1;
    assert!(app.handle_keys_events(AppAction::InputChar('x')).is_none());
    let s: String = app.input.iter().collect();
    assert_eq!(s, "é");
}

#[test]
fn moving_down_then_up_returns_to_the_same_row() {
    let mut app = App::new(vec![], false, false);
    handle(&mut app, AppAction::ApiUpdateDMs(vec![dm("d1", "a"), dm("d2", "b"), dm("d3", "c")]));
    handle(&mut app, AppAction::TransitionToDM);
    for start in 0..3 {
        app.selection_index = start;
        handle(&mut app, AppAction::SelectNext);
        handle(&mut app, AppAction::SelectPrevious);
        assert_eq!(app.selection_index, start);
        handle(&mut app, AppAction::SelectPrevious);
        handle(&mut app, AppAction::SelectNext);
        assert_eq!(app.selection_index, start);
    }
}

#[test]
fn list_screens_start_with_empty_input() {
    let mut app = chatting("c1");
    handle(&mut app, AppAction::InputChar('a'));
    app.selection_index = 2;
    handle(&mut app, AppAction::TransitionToChannels("g1".to_string()));
    assert!(matches!(&app.state, AppState::SelectingChannel(g) if g == "g1"));
    assert!(app.input.is_empty());
    assert_eq!(app.cursor_position, 0);
    assert_eq!(app.selection_index, 0);
}

#[test]
fn loading_ends_in_the_loaded_window() {
    let mut app = App::new(vec![], false, false);
    handle(&mut app, AppAction::TransitionToLoading(Window::Chat("c9".to_string())));
    assert_eq!(app.status_message, "Loading...");
    let st = handle(&mut app, AppAction::EndLoading);
    assert!(matches!(&st.effects[0], Effect::Send(AppAction::TransitionToChat(c)) if c == "c9"));
    let st = handle(&mut app, AppAction::SelectLeft);
    assert!(matches!(st.effects[0], Effect::VimKey('h')));
}

#[test]
fn gateway_edit_updates_the_message() {
    let mut app = chatting("c1");
    handle(&mut app, AppAction::ApiUpdateMessages(
        "c1".to_string(),
        vec![message("5", "c1", user("u", "u"), "before")],
    ));
    handle(&mut app, AppAction::GatewayMessageUpdate(vimcord::model::PartialMessage {
        id: "5".to_string(),
        channel_id: "c1".to_string(),
        author: None,
        content: Some("after".to_string()),
        timestamp: None,
    }));
    assert_eq!(app.messages[0].content.as_deref(), Some("after"));
    assert_eq!(app.messages[0].timestamp, "t");
}

#[test]
fn accepted_edit_replaces_the_message_and_opens_the_chat() {
    let old = vec![message("1", "c1", user("u", "u"), "a"), message("2", "c1", user("u", "u"), "b")];
    let edited = message("2", "c1", user("u", "u"), "b2");
    let follow = vimcord::selection::edit_submitted("c1".to_string(), old, Ok(edited));
    assert_eq!(follow.len(), 2);
    match &follow[0] {
        AppAction::ApiUpdateMessages(c, ms) => {
            assert_eq!(c, "c1");
            assert_eq!(ms[0].content.as_deref(), Some("a"));
            assert_eq!(ms[1].content.as_deref(), Some("b2"));
        }
        other => panic!("unexpected {:?}", other),
    }
    assert!(matches!(&follow[1], AppAction::TransitionToChat(c) if c == "c1"));
    let none = vimcord::selection::edit_submitted("c1".to_string(), vec![], Err("x".to_string()));
    assert!(none.is_empty());
}

#[test]
fn cancelling_emoji_selection_restores_the_input() {
    let mut app = chatting("c1");
    for c in "hi ".chars() {
        handle(&mut app, AppAction::InputChar(c));
    }
    handle(&mut app, AppAction::SelectEmoji);
    assert_eq!(input(&app), "hi :");
    let st = handle(&mut app, AppAction::InputEscape);
    assert_eq!(st.effects.len(), 1);
    assert!(matches!(&st.effects[0], Effect::Send(AppAction::TransitionToChat(c)) if c == "c1"));
    handle(&mut app, AppAction::TransitionToChat("c1".to_string()));
    assert_eq!(input(&app), "hi ");
    assert_eq!(app.cursor_position, 0);
    assert!(matches!(&app.state, AppState::Chatting(c) if c == "c1"));
}

#[test]
fn events_keep_settings_and_deleted_ids() {
    let mut app = chatting("c1");
    handle(&mut app, AppAction::GatewayMessageDelete("5".to_string(), "c1".to_string()));
    let actions = vec![
        AppAction::InputChar('x'),
        AppAction::InputSubmit,
        AppAction::TransitionToHome,
        AppAction::SelectNext,
        AppAction::Tick,
        AppAction::ApiUpdateGuilds(vec![]),
        AppAction::TransitionToChat("c1".to_string()),
    ];
    for a in actions {
        handle(&mut app, a);
        assert_eq!(app.emoji_map, vec![("smile".to_string(), "😄".to_string())]);
        assert!(!app.vim_mode);
        assert!(!app.discreet_notifs);
        assert!(app.deleted_message_ids.contains(&"5".to_string()));
    }
}

#[test]
fn dm_refresh_keeps_recorded_last_message() {
    let mut app = App::new(vec![], false, false);
    app.state = AppState::Home;
    let mut d = dm("d1", "friend");
    d.last_message_id = Some("4".to_string());
    handle(&mut app, AppAction::ApiUpdateDMs(vec![d.clone()]));
    assert!(app.last_message_ids.iter().any(|(c, m)| c == "d1" && m == "4"));
    handle(&mut app, AppAction::GatewayMessageCreate(message("5", "d1", user("u2", "bo"), "hey")));
    d.last_message_id = Some("9".to_string());
    handle(&mut app, AppAction::ApiUpdateDMs(vec![d]));
    let recorded: Vec<&str> = app
        .last_message_ids
        .iter()
        .filter(|(c, _)| c == "d1")
        .map(|(_, m)| m.as_str())
        .collect();
    assert_eq!(recorded.last().copied(), Some("5"));
}

#[test]
fn deleting_keeps_selection_in_list() {
    let mut app = chatting("c1");
    let a = user("u1", "ann");
    handle(&mut app, AppAction::ApiUpdateMessages(
        "c1".to_string(),
        vec![message("1", "c1", a.clone(), "x"), message("2", "c1", a.clone(), "y")],
    ));
    app.selection_index = 2;
    let st = handle(&mut app, AppAction::ApiDeleteMessage("c1".to_string(), "2".to_string()));
    assert_eq!(app.messages.len(), 1);
    assert_eq!(app.selection_index, 1);
    assert!(matches!(&st.effects[0], Effect::DeleteMessage { channel_id, message_id } if channel_id == "c1" && message_id == "2"));
}

#[test]
fn edit_round_trip_restores_input() {
    let mut app = chatting("c1");
    for c in "draft".chars() {
        handle(&mut app, AppAction::InputChar(c));
    }
    let m = message("9", "c1", user("me", "me"), "old");
    handle(&mut app, AppAction::TransitionToEditing("c1".to_string(), m, "old".to_string(), 'a'));
    assert_eq!(input(&app), "old");
    assert_eq!(app.saved_input.as_ref().map(|s| s.iter().collect::<String>()), Some("draft".to_string()));
    handle(&mut app, AppAction::TransitionToChat("c1".to_string()));
    assert_eq!(input(&app), "draft");
    assert!(app.saved_input.is_none());
    assert_eq!(app.cursor_position, 0);
    assert!(matches!(&app.state, AppState::Chatting(c) if c == "c1"));
}

#[test]
fn deleted_message_stays_away_after_other_events() {
    let mut app = chatting("c1");
    let a = user("u1", "ann");
    handle(&mut app, AppAction::GatewayMessageDelete("5".to_string(), "c1".to_string()));
    handle(&mut app, AppAction::GatewayMessageCreate(message("5", "c1", a.clone(), "again")));
    handle(&mut app, AppAction::Tick);
    handle(&mut app, AppAction::InputChar('x'));
    handle(&mut app, AppAction::ApiUpdateMessages(
        "c1".to_string(),
        vec![message("5", "c1", a.clone(), "five"), message("6", "c1", a.clone(), "six")],
    ));
    assert!(app.messages.iter().all(|m| m.id != "5"));
    assert_eq!(app.messages.len(), 1);
}

#[test]
fn typing_during_emoji_selection_extends_the_filter() {
    let mut app = chatting("c1");
    handle(&mut app, AppAction::InputChar('a'));
    handle(&mut app, AppAction::InputChar(' '));
    handle(&mut app, AppAction::SelectEmoji);
    handle(&mut app, AppAction::InputChar('é'));
    handle(&mut app, AppAction::InputChar('x'));
    assert_eq!(input(&app), "a :éx");
    assert_eq!(app.cursor_position, 6);
    let f: String = app.emoji_filter.iter().collect();
    assert_eq!(f, "éx");
    assert!(matches!(&app.state, AppState::EmojiSelection(c) if c == "c1"));
    assert_eq!(app.selection_index, 0);
}

#[test]
fn vim_keys_move_by_characters() {
    let mut app = App::new(vec![], true, false);
    app.state = AppState::Chatting("c1".to_string());
    app.input = "aé😄".chars().collect();
    app.cursor_position = 0;
    app.vim_key('l');
    assert_eq!(app.cursor_position, 1);
    app.vim_key('l');
    assert_eq!(app.cursor_position, 3);
    app.vim_key('l');
    assert_eq!(app.cursor_position, 3);
    app.vim_key('h');
    assert_eq!(app.cursor_position, 1);
    app.vim_key('$');
    assert_eq!(app.cursor_position, 3);
    app.vim_key('0');
    assert_eq!(app.cursor_position, 0);
    app.vim_key('a');
    assert_eq!(app.cursor_position, 1);
    assert_eq!(app.mode, InputMode::Insert);
    app.mode = InputMode::Normal;
    app.vim_key('A');
    assert_eq!(app.cursor_position, 7);
    assert_eq!(app.mode, InputMode::Insert);
    app.mode = InputMode::Normal;
    app.clamp_cursor();
    assert_eq!(app.cursor_position, 3);
    app.cursor_position = 2;
    app.vim_key('h');
    assert_eq!(app.cursor_position, 2);
    app.vim_key('q');
    assert_eq!(app.cursor_position, 2);
}
