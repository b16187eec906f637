use vimcord::model::{Message, User};

fn user(id: &str, username: &str, global_name: Option<&str>) -> User {
    User {
        id: id.to_string(),
        username: username.to_string(),
        global_name: global_name.map(|g| g.to_string()),
    }
}

fn message(content: Option<&str>, mentions: Vec<User>) -> Message {
    Message {
        id: "1".to_string(),
        channel_id: "10".to_string(),
        author: user("5", "author", None),
        content: content.map(|c| c.to_string()),
        timestamp: "2024-01-01T00:00:00Z".to_string(),
        mentions,
    }
}

#[test]
fn non_text_message_is_marked() {
    let m = message(None, vec![]);
    assert_eq!(m.map_mentions(), "(*non-text*)");
}

#[test]
fn plain_text_is_unchanged() {
    let m = message(Some("hello there"), vec![user("1", "a", None)]);
    assert_eq!(m.map_mentions(), "hello there");
}

#[test]
fn mention_uses_global_name() {
    let m = message(Some("hi <@123>!"), vec![user("123", "bob", Some("Bobby"))]);
    assert_eq!(m.map_mentions(), "hi @Bobby!");
}

#[test]
fn mention_falls_back_to_username() {
    let m = message(Some("<@42> look"), vec![user("42", "alice", None)]);
    assert_eq!(m.map_mentions(), "@alice look");
}

#[test]
fn unknown_mention_is_kept() {
    let m = message(Some("hey <@7>"), vec![user("8", "carol", None)]);
    assert_eq!(m.map_mentions(), "hey <@7>");
}

#[test]
fn non_numeric_mention_is_kept() {
    let m = message(Some("hey <@abc>"), vec![user("abc", "dave", None)]);
    assert_eq!(m.map_mentions(), "hey <@abc>");
}

#[test]
fn repeated_mentions_all_replaced() {
    let m = message(
        Some("<@1> and <@2> and <@1>"),
        vec![user("1", "one", None), user("2", "two", Some("Two"))],
    );
    assert_eq!(m.map_mentions(), "@one and @Two and @one");
}

#[test]
fn unclosed_mention_stops_scanning() {
    let m = message(Some("a <@1 b"), vec![user("1", "one", None)]);
    assert_eq!(m.map_mentions(), "a <@1 b");
}

#[test]
fn mention_without_mentioned_users_is_kept() {
    let m = message(Some("x <@99> y"), vec![]);
    assert_eq!(m.map_mentions(), "x <@99> y");
}

#[test]
fn mention_after_multibyte_text() {
    let m = message(Some("héllo <@3>"), vec![user("3", "zoë", None)]);
    assert_eq!(m.map_mentions(), "héllo @zoë");
}

#[test]
fn unmentioned_user_changes_nothing() {
    let m1 = message(Some("hi <@1> and <@2>"), vec![user("1", "one", None)]);
    let m2 = message(Some("hi <@1> and <@2>"), vec![user("1", "one", None), user("3", "three", Some("<@2>"))]);
    assert_eq!(m1.map_mentions(), "hi @one and <@2>");
    assert_eq!(m2.map_mentions(), m1.map_mentions());
}
