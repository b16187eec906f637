use vimcord::app::{App, AppAction, AppState, Effect, Window};
use vimcord::model::{Channel, PermissionContext, PermissionOverwrite, Role};

fn ctx(roles: &[(&str, &str)], held: &[&str]) -> PermissionContext {
    PermissionContext {
        user_id: "me".to_string(),
        user_role_ids: held.iter().map(|r| r.to_string()).collect(),
        all_guild_roles: roles
            .iter()
            .map(|(id, p)| Role { id: id.to_string(), permissions: p.to_string() })
            .collect(),
        everyone_role_id: "g".to_string(),
    }
}

fn ow(id: &str, t: u8, allow: &str, deny: &str) -> PermissionOverwrite {
    PermissionOverwrite { id: id.to_string(), overwrite_type: t, allow: allow.to_string(), deny: deny.to_string() }
}

fn channel(id: &str, name: &str, t: u8, parent: Option<&str>, ows: Vec<PermissionOverwrite>) -> Channel {
    Channel {
        id: id.to_string(),
        name: name.to_string(),
        channel_type: t,
        guild_id: Some("g".to_string()),
        parent_id: parent.map(|p| p.to_string()),
        permission_overwrites: ows,
        children: None,
    }
}

#[test]
fn everyone_role_grants_viewing() {
    let c = ctx(&[("g", "1024")], &["g"]);
    assert!(channel("1", "general", 0, None, vec![]).is_readable(&c));
    let none = ctx(&[("g", "0")], &["g"]);
    assert!(!channel("1", "general", 0, None, vec![]).is_readable(&none));
}

#[test]
fn overwrites_deny_and_allow_in_order() {
    let c = ctx(&[("g", "1024"), ("r1", "0")], &["g", "r1"]);
    let denied = channel("1", "secret", 0, None, vec![ow("g", 0, "0", "1024")]);
    assert!(!denied.is_readable(&c));
    let role_allowed = channel("2", "team", 0, None, vec![ow("g", 0, "0", "1024"), ow("r1", 0, "1024", "0")]);
    assert!(role_allowed.is_readable(&c));
    let member_denied = channel(
        "3",
        "x",
        0,
        None,
        vec![ow("r1", 0, "1024", "0"), ow("me", 1, "0", "1024")],
    );
    assert!(!member_denied.is_readable(&c));
}

#[test]
fn administrators_read_everything() {
    let c = ctx(&[("g", "8")], &["g"]);
    let denied = channel("1", "secret", 0, None, vec![ow("g", 0, "0", "1024")]);
    assert!(denied.is_readable(&c));
}

#[test]
fn channels_grouped_under_categories() {
    let input = vec![
        channel("c", "Text", 4, None, vec![]),
        channel("t1", "general", 0, Some("c"), vec![]),
        channel("t2", "lobby", 0, None, vec![]),
        channel("t3", "random", 0, Some("c"), vec![]),
    ];
    let out = Channel::filter_channels_by_categories(input);
    assert_eq!(out.len(), 2);
    assert_eq!(out[0].id, "c");
    let kids = out[0].children.as_ref().expect("a category holds its channels");
    let ids: Vec<&str> = kids.iter().map(|k| k.id.as_str()).collect();
    assert_eq!(ids, vec!["t1", "t3"]);
    assert_eq!(out[1].id, "t2");
    assert!(out[1].children.is_none());
}

fn channel_screen() -> App {
    let mut app = App::new(vec![], false, false);
    app.handle_keys_events(AppAction::ApiUpdateChannel(vec![
        channel("c", "Text", 4, None, vec![]),
        channel("t1", "general", 0, Some("c"), vec![]),
    ]))
    .unwrap();
    app.handle_keys_events(AppAction::ApiUpdateContext(Some(ctx(&[("g", "1024")], &["g"])))).unwrap();
    app.handle_keys_events(AppAction::TransitionToChannels("g".to_string())).unwrap();
    app
}

#[test]
fn enter_on_a_category_does_nothing() {
    let mut app = channel_screen();
    let st = app.handle_keys_events(AppAction::InputSubmit).unwrap();
    assert_eq!(st.keyword, Some(vimcord::app::KeywordAction::Continue));
    assert!(st.effects.is_empty());
}

#[test]
fn enter_on_a_channel_loads_its_messages() {
    let mut app = channel_screen();
    app.handle_keys_events(AppAction::SelectNext).unwrap();
    assert_eq!(app.selection_index, 1);
    let st = app.handle_keys_events(AppAction::InputSubmit).unwrap();
    assert_eq!(app.status_message, "Loading messages for general...");
    assert_eq!(st.effects.len(), 2);
    assert!(matches!(&st.effects[0], Effect::Send(AppAction::TransitionToLoading(Window::Chat(c))) if c == "t1"));
    assert!(matches!(&st.effects[1], Effect::FetchChatMessages { channel_id } if channel_id == "t1"));
    let follow = app.chat_messages_loaded("t1".to_string(), Err("timeout".to_string()));
    assert_eq!(app.status_message, "Error loading chat: timeout");
    assert!(matches!(follow.effects[0], Effect::Send(AppAction::EndLoading)));
    let follow = app.chat_messages_loaded("t1".to_string(), Ok(vec![]));
    assert_eq!(follow.effects.len(), 2);
    assert!(matches!(&follow.effects[0], Effect::Send(AppAction::ApiUpdateMessages(c, _)) if c == "t1"));
}

#[test]
fn escape_from_a_chat_goes_back_where_it_came_from() {
    let mut app = App::new(vec![], false, false);
    app.state = AppState::Chatting("t1".to_string());
    let st = app.handle_keys_events(AppAction::InputEscape).unwrap();
    assert!(matches!(&st.effects[0], Effect::LookupChannel { channel_id } if channel_id == "t1"));
    let st = app.escape_from_chat(Ok(channel("t1", "general", 0, None, vec![])));
    assert!(matches!(&st.effects[0], Effect::Send(AppAction::TransitionToChannels(g)) if g == "g"));
    let st = app.escape_from_chat(Ok(channel("d1", "", 1, None, vec![])));
    assert!(matches!(&st.effects[0], Effect::Send(AppAction::TransitionToDM)));
    let st = app.escape_from_chat(Err("gone".to_string()));
    assert!(matches!(&st.effects[0], Effect::Send(AppAction::TransitionToHome)));
    assert_eq!(app.status_message, "gone");
}
