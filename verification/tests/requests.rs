use vimcord::api::{ApiClient, HttpMethod, status_is_success, api_error};
use vimcord::model::{GuildMember, User};

fn client() -> ApiClient {
    ApiClient::new("tok".to_string(), "https://discord.com/api/v10".to_string())
}

#[test]
fn simple_endpoints() {
    let c = client();
    let r = c.get_current_user();
    assert_eq!(r.method, HttpMethod::Get);
    assert_eq!(r.url, "https://discord.com/api/v10/users/@me");
    assert_eq!(r.authorization, "tok");
    assert!(r.body.is_none());
    assert_eq!(c.get_dms().url, "https://discord.com/api/v10/users/@me/channels");
    assert_eq!(c.get_channel("55").url, "https://discord.com/api/v10/channels/55");
    assert_eq!(c.get_current_user_guilds().url, "https://discord.com/api/v10//users/@me/guilds");
}

#[test]
fn server_endpoints() {
    let c = client();
    assert_eq!(c.get_guild_emojis("7").url, "https://discord.com/api/v10/guilds/7/emojis");
    assert_eq!(c.get_guild_channels("7").url, "https://discord.com/api/v10/guilds/7/channels");
    assert_eq!(c.get_guild_roles("7").url, "https://discord.com/api/v10/guilds/7/roles");
    assert_eq!(
        c.get_guild_member("7", "99").url,
        "https://discord.com/api/v10/guilds/7/members/99"
    );
}

#[test]
fn message_requests() {
    let c = client();
    let r = c.create_message("3", Some("hi \"you\"".to_string()), false);
    assert_eq!(r.method, HttpMethod::Post);
    assert_eq!(r.url, "https://discord.com/api/v10/channels/3/messages");
    assert_eq!(r.body.as_deref(), Some("{\"content\":\"hi \\\"you\\\"\",\"tts\":false}"));
    let r = c.create_message("3", None, true);
    assert_eq!(r.body.as_deref(), Some("{\"content\":null,\"tts\":true}"));
    let r = c.edit_message("3", "4", Some("new".to_string()));
    assert_eq!(r.method, HttpMethod::Patch);
    assert_eq!(r.url, "https://discord.com/api/v10/channels/3/messages/4");
    assert_eq!(r.body.as_deref(), Some("{\"content\":\"new\"}"));
    let r = c.delete_message("3", "4");
    assert_eq!(r.method, HttpMethod::Delete);
    assert_eq!(r.url, "https://discord.com/api/v10/channels/3/messages/4");
    assert!(r.body.is_none());
    let r = c.trigger_typing_indicator("3");
    assert_eq!(r.method, HttpMethod::Post);
    assert_eq!(r.url, "https://discord.com/api/v10/channels/3/typing");
}

#[test]
fn message_history_query() {
    let c = client();
    assert_eq!(
        c.get_channel_messages("3", None, None, None, None).url,
        "https://discord.com/api/v10/channels/3/messages"
    );
    assert_eq!(
        c.get_channel_messages("3", None, None, None, Some(100)).url,
        "https://discord.com/api/v10/channels/3/messages?limit=100"
    );
    assert_eq!(
        c.get_channel_messages(
            "3",
            Some("1".to_string()),
            Some("2".to_string()),
            Some("5".to_string()),
            Some(0)
        )
        .url,
        "https://discord.com/api/v10/channels/3/messages?around=1&before=2&after=5&limit=0"
    );
    assert_eq!(
        c.get_channel_messages("3", None, Some("2".to_string()), None, None).url,
        "https://discord.com/api/v10/channels/3/messages?before=2"
    );
}

#[test]
fn status_and_errors() {
    assert!(status_is_success(200));
    assert!(status_is_success(204));
    assert!(!status_is_success(404));
    assert!(!status_is_success(199));
    assert_eq!(
        api_error("404 Not Found", Some("missing".to_string())),
        "API Error: Status 404 Not Found. Details: missing"
    );
    assert_eq!(
        api_error("500 Internal Server Error", None),
        "API Error: Status 500 Internal Server Error. Details: Failed to read error body"
    );
}

fn member(roles: &[&str]) -> GuildMember {
    GuildMember {
        user: User { id: "me".to_string(), username: "me".to_string(), global_name: None },
        roles: roles.iter().map(|r| r.to_string()).collect(),
    }
}

#[test]
fn permission_context_adds_everyone_role() {
    let ctx = ApiClient::get_permission_context("g1", vec![], member(&["r1"]));
    assert_eq!(ctx.user_id, "me");
    assert_eq!(ctx.user_role_ids, vec!["r1".to_string(), "g1".to_string()]);
    assert_eq!(ctx.everyone_role_id, "g1");
    let ctx = ApiClient::get_permission_context("g1", vec![], member(&["g1", "r1"]));
    assert_eq!(ctx.user_role_ids, vec!["g1".to_string(), "r1".to_string()]);
}

#[test]
fn message_bodies_around_content_json() {
    assert_eq!(vimcord::api::message_body("\"hi\"", Some(false)), "{\"content\":\"hi\",\"tts\":false}");
    assert_eq!(vimcord::api::message_body("null", None), "{\"content\":null}");
}
