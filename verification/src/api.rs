//! The requests the client makes of the chat service's HTTP API, and how it
//! reads the answers.
use vstd::prelude::*;
use crate::text::{decimal, decimal_chars, append_chars, append_str, owned, string_of};
use crate::model::{GuildMember, PermissionContext, Role, views};
use crate::gateway::json_string;

verus! {

#[derive(Debug, Clone, PartialEq, Eq, Structural)]
pub enum HttpMethod {
    Get,
    Post,
    Patch,
    Delete,
}

/// An HTTP request: method, full URL, the `Authorization` header's value and
/// the JSON body.
#[derive(Debug, Clone)]
pub struct ApiRequest {
    pub method: HttpMethod,
    pub url: String,
    pub authorization: String,
    pub body: Option<String>,
}

/// What the client needs to address the API: the token it authenticates with
/// and the base URL of the API.
#[derive(Debug, Clone)]
pub struct ApiClient {
    pub auth_token: String,
    pub base_url: String,
}

pub open spec fn url_for(base: Seq<char>, endpoint: Seq<char>) -> Seq<char> {
    base + "/"@ + endpoint
}

/// The request for `endpoint` under the API's base URL.
pub open spec fn is_request(
    r: ApiRequest,
    client: ApiClient,
    method: HttpMethod,
    endpoint: Seq<char>,
    body: Option<Seq<char>>,
) -> bool {
    &&& r.method == method
    &&& r.url@ == url_for(client.base_url@, endpoint)
    &&& r.authorization@ == client.auth_token@
    &&& match (r.body, body) {
        (None, None) => true,
        (Some(b), Some(e)) => b@ == e,
        _ => false,
    }
}

fn path(parts_a: &str, id: &str, parts_b: &str) -> (r: Vec<char>)
    ensures
        r@ == parts_a@ + id@ + parts_b@,
{
    let mut r: Vec<char> = Vec::new();
    append_str(&mut r, parts_a);
    append_str(&mut r, id);
    append_str(&mut r, parts_b);
    r
}

/// JSON text of an optional string: the string, or `null`.
pub open spec fn json_opt_string(s: Option<Seq<char>>) -> Seq<char> {
    match s {
        Some(t) => json_string(t),
        None => "null"@,
    }
}

pub open spec fn opt_view(s: Option<String>) -> Option<Seq<char>> {
    match s {
        Some(t) => Some(t@),
        None => None,
    }
}

fn json_opt(s: &Option<String>) -> (r: Vec<char>)
    ensures
        r@ == json_opt_string(opt_view(*s)),
{
    let mut r: Vec<char> = Vec::new();
    match s {
        Some(t) => {
            let q = crate::gateway::json_quote(t.as_str());
            append_str(&mut r, q.as_str());
        },
        None => {
            append_str(&mut r, "null");
        },
    }
    assert(r@ =~= json_opt_string(opt_view(*s)));
    r
}

/// The JSON body of a message request, from the JSON text of its content:
/// `{"content":...}`, with `"tts"` after the content when given.
pub open spec fn body_text(content_json: Seq<char>, tts: Option<bool>) -> Seq<char> {
    "{\"content\":"@ + content_json + match tts {
        Some(t) => ",\"tts\":"@ + if t {
            "true"@
        } else {
            "false"@
        },
        None => Seq::empty(),
    } + "}"@
}

/// The body that posts a message (the order in which `serde_json` writes
/// the keys of an object).
pub open spec fn create_body(content: Option<Seq<char>>, tts: bool) -> Seq<char> {
    body_text(json_opt_string(content), Some(tts))
}

pub open spec fn edit_body(content: Option<Seq<char>>) -> Seq<char> {
    body_text(json_opt_string(content), None)
}

/// Builds a message request's body around the content's JSON text.
pub fn message_body(content_json: &str, tts: Option<bool>) -> (r: String)
    ensures
        r@ == body_text(content_json@, tts),
{
    let mut b: Vec<char> = Vec::new();
    append_str(&mut b, "{\"content\":");
    append_str(&mut b, content_json);
    match tts {
        Some(t) => {
            append_str(&mut b, ",\"tts\":");
            if t {
                append_str(&mut b, "true");
            } else {
                append_str(&mut b, "false");
            }
        },
        None => {},
    }
    append_str(&mut b, "}");
    string_of(&b)
}

/// The query parameters of a message-history request, in order.
pub open spec fn history_query(
    around: Option<Seq<char>>,
    before: Option<Seq<char>>,
    after: Option<Seq<char>>,
    limit: Option<usize>,
) -> Seq<Seq<char>> {
    let q0: Seq<Seq<char>> = match around {
        Some(a) => seq!["around="@ + a],
        None => Seq::empty(),
    };
    let q1 = match before {
        Some(b) => q0.push("before="@ + b),
        None => q0,
    };
    let q2 = match after {
        Some(a) => q1.push("after="@ + a),
        None => q1,
    };
    match limit {
        Some(l) => q2.push("limit="@ + decimal(l as nat)),
        None => q2,
    }
}

/// Parameters joined by `&`.
pub open spec fn joined(q: Seq<Seq<char>>) -> Seq<char>
    decreases q.len(),
{
    if q.len() == 0 {
        Seq::empty()
    } else if q.len() == 1 {
        q[0]
    } else {
        joined(q.drop_last()) + "&"@ + q.last()
    }
}

/// The query part of an endpoint: nothing, or `?` and the parameters.
pub open spec fn query_tail(q: Seq<Seq<char>>) -> Seq<char> {
    if q.len() > 0 {
        "?"@ + joined(q)
    } else {
        Seq::empty()
    }
}

pub open spec fn history_endpoint(
    channel_id: Seq<char>,
    around: Option<Seq<char>>,
    before: Option<Seq<char>>,
    after: Option<Seq<char>>,
    limit: Option<usize>,
) -> Seq<char> {
    "channels/"@ + channel_id + "/messages"@ + query_tail(
        history_query(around, before, after, limit),
    )
}

proof fn lemma_query_tail_push(q: Seq<Seq<char>>, p: Seq<char>)
    ensures
        query_tail(q.push(p)) == query_tail(q) + (if q.len() == 0 {
            "?"@
        } else {
            "&"@
        }) + p,
{
    assert(q.push(p).drop_last() =~= q);
    if q.len() == 0 {
        assert(joined(q.push(p)) == p);
        assert(query_tail(q.push(p)) =~= "?"@ + p);
    } else {
        assert(query_tail(q.push(p)) =~= query_tail(q) + "&"@ + p);
    }
}

/// Appends one parameter to the endpoint `e` (which ends in the query made of
/// `done`), when there is a value.
fn add_param(
    e: &mut Vec<char>,
    count: &mut usize,
    name: &str,
    value: Option<Vec<char>>,
    Ghost(start): Ghost<Seq<char>>,
    Ghost(done): Ghost<Seq<Seq<char>>>,
) -> (r: Ghost<Seq<Seq<char>>>)
    requires
        *old(count) == done.len(),
        done.len() < 4,
        old(e)@ == start + query_tail(done),
    ensures
        r@ == match value {
            Some(v) => done.push(name@ + v@),
            None => done,
        },
        *final(count) == r@.len(),
        final(e)@ == start + query_tail(r@),
{
    match value {
        Some(v) => {
            proof {
                lemma_query_tail_push(done, name@ + v@);
            }
            if *count == 0 {
                append_str(e, "?");
            } else {
                append_str(e, "&");
            }
            append_str(e, name);
            append_chars(e, &v);
            *count = *count + 1;
            assert(e@ =~= start + query_tail(done.push(name@ + v@)));
            Ghost(done.push(name@ + v@))
        },
        None => Ghost(done),
    }
}

fn opt_chars(s: &Option<String>) -> (r: Option<Vec<char>>)
    ensures
        match (r, opt_view(*s)) {
            (None, None) => true,
            (Some(v), Some(t)) => v@ == t,
            _ => false,
        },
{
    match s {
        Some(t) => Some(crate::text::chars_of(t.as_str())),
        None => None,
    }
}

/// The roles a member holds in a server always include the server's
/// everyone role, whose id is the server's id.
pub open spec fn roles_with_everyone(roles: Seq<Seq<char>>, guild_id: Seq<char>) -> Seq<Seq<char>> {
    if roles.contains(guild_id) {
        roles
    } else {
        roles.push(guild_id)
    }
}

/// Whether an HTTP status code means success (2xx).
pub fn status_is_success(code: u16) -> (r: bool)
    ensures
        r == (200 <= code <= 299),
{
    200 <= code && code <= 299
}

/// The error text for a failed request: the status as displayed, and the
/// response body or a note that it could not be read.
pub open spec fn api_error_text(status: Seq<char>, body: Option<Seq<char>>) -> Seq<char> {
    "API Error: Status "@ + status + ". Details: "@ + match body {
        Some(b) => b,
        None => "Failed to read error body"@,
    }
}

/// The error text of a request the service refused.
pub fn api_error(status: &str, body: Option<String>) -> (r: String)
    ensures
        r@ == api_error_text(status@, opt_view(body)),
{
    let mut t: Vec<char> = Vec::new();
    append_str(&mut t, "API Error: Status ");
    append_str(&mut t, status);
    append_str(&mut t, ". Details: ");
    match &body {
        Some(b) => append_str(&mut t, b.as_str()),
        None => append_str(&mut t, "Failed to read error body"),
    }
    string_of(&t)
}

impl ApiClient {
    /// A client that authenticates with `auth_token` against the API at `base_url`.
    pub fn new(auth_token: String, base_url: String) -> (r: ApiClient)
        ensures
            r.auth_token == auth_token,
            r.base_url == base_url,
    {
        ApiClient { auth_token, base_url }
    }

    fn make(&self, method: HttpMethod, endpoint: &Vec<char>, body: Option<String>) -> (r: ApiRequest)
        ensures
            r.method == method,
            r.url@ == url_for(self.base_url@, endpoint@),
            r.authorization@ == self.auth_token@,
            r.body == body,
    {
        let mut url: Vec<char> = Vec::new();
        append_str(&mut url, self.base_url.as_str());
        append_str(&mut url, "/");
        append_chars(&mut url, endpoint);
        ApiRequest {
            method,
            url: string_of(&url),
            authorization: owned(self.auth_token.as_str()),
            body,
        }
    }

    /// The current user.
    pub fn get_current_user(&self) -> (r: ApiRequest)
        ensures
            is_request(r, *self, HttpMethod::Get, "users/@me"@, None),
    {
        let e = path("users/@me", "", "");
        proof {
            reveal_strlit("");
        }
        assert(e@ =~= "users/@me"@);
        self.make(HttpMethod::Get, &e, None)
    }

    /// One channel.
    pub fn get_channel(&self, channel_id: &str) -> (r: ApiRequest)
        ensures
            is_request(r, *self, HttpMethod::Get, "channels/"@ + channel_id@, None),
    {
        let e = path("channels/", channel_id, "");
        proof {
            reveal_strlit("");
        }
        assert(e@ =~= "channels/"@ + channel_id@);
        self.make(HttpMethod::Get, &e, None)
    }

    /// The current user's direct-message channels.
    pub fn get_dms(&self) -> (r: ApiRequest)
        ensures
            is_request(r, *self, HttpMethod::Get, "users/@me/channels"@, None),
    {
        let e = path("users/@me/channels", "", "");
        proof {
            reveal_strlit("");
        }
        assert(e@ =~= "users/@me/channels"@);
        self.make(HttpMethod::Get, &e, None)
    }

    /// A server's custom emojis.
    pub fn get_guild_emojis(&self, guild_id: &str) -> (r: ApiRequest)
        ensures
            is_request(r, *self, HttpMethod::Get, "guilds/"@ + guild_id@ + "/emojis"@, None),
    {
        let e = path("guilds/", guild_id, "/emojis");
        self.make(HttpMethod::Get, &e, None)
    }

    /// A server's channels.
    pub fn get_guild_channels(&self, guild_id: &str) -> (r: ApiRequest)
        ensures
            is_request(r, *self, HttpMethod::Get, "guilds/"@ + guild_id@ + "/channels"@, None),
    {
        let e = path("guilds/", guild_id, "/channels");
        self.make(HttpMethod::Get, &e, None)
    }

    /// A server's roles.
    pub fn get_guild_roles(&self, guild_id: &str) -> (r: ApiRequest)
        ensures
            is_request(r, *self, HttpMethod::Get, "guilds/"@ + guild_id@ + "/roles"@, None),
    {
        let e = path("guilds/", guild_id, "/roles");
        self.make(HttpMethod::Get, &e, None)
    }

    /// The member record of the current user (whose id is `user_id`) in a server.
    pub fn get_guild_member(&self, guild_id: &str, user_id: &str) -> (r: ApiRequest)
        ensures
            is_request(
                r,
                *self,
                HttpMethod::Get,
                "guilds/"@ + guild_id@ + "/members/"@ + user_id@,
                None,
            ),
    {
        let mut e = path("guilds/", guild_id, "/members/");
        append_str(&mut e, user_id);
        self.make(HttpMethod::Get, &e, None)
    }

    /// Posts a message to a channel.
    pub fn create_message(&self, channel_id: &str, content: Option<String>, tts: bool) -> (r:
        ApiRequest)
        ensures
            is_request(
                r,
                *self,
                HttpMethod::Post,
                "channels/"@ + channel_id@ + "/messages"@,
                Some(create_body(opt_view(content), tts)),
            ),
    {
        let e = path("channels/", channel_id, "/messages");
        let c = string_of(&json_opt(&content));
        self.make(HttpMethod::Post, &e, Some(message_body(c.as_str(), Some(tts))))
    }

    /// Replaces the text of a message.
    pub fn edit_message(&self, channel_id: &str, message_id: &str, content: Option<String>) -> (r:
        ApiRequest)
        ensures
            is_request(
                r,
                *self,
                HttpMethod::Patch,
                "channels/"@ + channel_id@ + "/messages/"@ + message_id@,
                Some(edit_body(opt_view(content))),
            ),
    {
        let mut e = path("channels/", channel_id, "/messages/");
        append_str(&mut e, message_id);
        let c = string_of(&json_opt(&content));
        self.make(HttpMethod::Patch, &e, Some(message_body(c.as_str(), None)))
    }

    /// Deletes a message.
    pub fn delete_message(&self, channel_id: &str, message_id: &str) -> (r: ApiRequest)
        ensures
            is_request(
                r,
                *self,
                HttpMethod::Delete,
                "channels/"@ + channel_id@ + "/messages/"@ + message_id@,
                None,
            ),
    {
        let mut e = path("channels/", channel_id, "/messages/");
        append_str(&mut e, message_id);
        self.make(HttpMethod::Delete, &e, None)
    }

    /// The latest messages of a channel, optionally around, before or after a
    /// message, at most `limit` of them.
    pub fn get_channel_messages(
        &self,
        channel_id: &str,
        around: Option<String>,
        before: Option<String>,
        after: Option<String>,
        limit: Option<usize>,
    ) -> (r: ApiRequest)
        ensures
            is_request(
                r,
                *self,
                HttpMethod::Get,
                history_endpoint(channel_id@, opt_view(around), opt_view(before), opt_view(after), limit),
                None,
            ),
    {
        let mut e = path("channels/", channel_id, "/messages");
        let ghost start = e@;
        let mut count: usize = 0;
        assert(e@ =~= start + query_tail(Seq::empty()));
        let Ghost(d0) = add_param(&mut e, &mut count, "around=", opt_chars(&around), Ghost(start), Ghost(Seq::empty()));
        let Ghost(d1) = add_param(&mut e, &mut count, "before=", opt_chars(&before), Ghost(start), Ghost(d0));
        let Ghost(d2) = add_param(&mut e, &mut count, "after=", opt_chars(&after), Ghost(start), Ghost(d1));
        let l = match limit {
            Some(n) => Some(decimal_chars(n as u64)),
            None => None,
        };
        let Ghost(d3) = add_param(&mut e, &mut count, "limit=", l, Ghost(start), Ghost(d2));
        assert(d3 =~= history_query(opt_view(around), opt_view(before), opt_view(after), limit));
        self.make(HttpMethod::Get, &e, None)
    }

    /// Shows the current user as typing in a channel.
    pub fn trigger_typing_indicator(&self, channel_id: &str) -> (r: ApiRequest)
        ensures
            is_request(r, *self, HttpMethod::Post, "channels/"@ + channel_id@ + "/typing"@, None),
    {
        let e = path("channels/", channel_id, "/typing");
        self.make(HttpMethod::Post, &e, None)
    }

    /// The servers of the current user (the endpoint is written with a leading `/`).
    pub fn get_current_user_guilds(&self) -> (r: ApiRequest)
        ensures
            is_request(r, *self, HttpMethod::Get, "/users/@me/guilds"@, None),
    {
        let e = path("/users/@me/guilds", "", "");
        proof {
            reveal_strlit("");
        }
        assert(e@ =~= "/users/@me/guilds"@);
        self.make(HttpMethod::Get, &e, None)
    }

    /// The current user's permission context in a server, from the server's
    /// roles and the user's member record there: the member's roles always
    /// include the server's everyone role.
    pub fn get_permission_context(guild_id: &str, all_guild_roles: Vec<Role>, member: GuildMember) -> (r:
        PermissionContext)
        ensures
            r.user_id == member.user.id,
            views(r.user_role_ids@) == roles_with_everyone(views(member.roles@), guild_id@),
            r.all_guild_roles == all_guild_roles,
            r.everyone_role_id@ == guild_id@,
    {
        let everyone = crate::text::owned(guild_id);
        let mut roles = member.roles;
        let ghost rv = views(roles@);
        let mut found = false;
        let mut i: usize = 0;
        while i < roles.len()
            invariant
                i <= roles@.len(),
                rv == views(roles@),
                !found ==> forall|t: int| 0 <= t < i ==> rv[t] != everyone@,
                found ==> rv.contains(everyone@),
            decreases roles@.len() - i,
        {
            if roles[i] == everyone {
                found = true;
                assert(rv[i as int] == everyone@);
            }
            i = i + 1;
        }
        if !found {
            roles.push(crate::text::owned(guild_id));
            assert(views(roles@) =~= rv.push(guild_id@));
        }
        PermissionContext {
            user_id: member.user.id,
            user_role_ids: roles,
            all_guild_roles,
            everyone_role_id: everyone,
        }
    }
}

} // verus!
