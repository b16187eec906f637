//! The chat service's data: users, messages, channels, direct messages,
//! servers, emojis and the permission data that decides which channels show.
use vstd::prelude::*;
use crate::text::owned;

verus! {

#[derive(Debug, Clone, PartialEq, Eq)]
pub struct User {
    pub id: String,
    pub username: String,
    pub global_name: Option<String>,
}

/// A copy of an optional string.
pub fn clone_opt_string(o: &Option<String>) -> (r: Option<String>)
    ensures
        r == *o,
{
    match o {
        Some(s) => Some(s.clone()),
        None => None,
    }
}

impl User {
    /// A copy of the user.
    pub fn duplicate(&self) -> (r: User)
        ensures
            r == *self,
    {
        User {
            id: self.id.clone(),
            username: self.username.clone(),
            global_name: clone_opt_string(&self.global_name),
        }
    }

    /// The name shown for a user: the global display name when there is one.
    pub open spec fn display_name(self) -> String {
        match self.global_name {
            Some(g) => g,
            None => self.username,
        }
    }
}

#[derive(Debug, Clone)]
pub struct Message {
    pub id: String,
    pub channel_id: String,
    pub author: User,
    pub content: Option<String>,
    pub timestamp: String,
    pub mentions: Vec<User>,
}

/// A message with its mention list taken as a sequence.
pub struct MessageView {
    pub id: String,
    pub channel_id: String,
    pub author: User,
    pub content: Option<String>,
    pub timestamp: String,
    pub mentions: Seq<User>,
}

impl View for Message {
    type V = MessageView;

    open spec fn view(&self) -> MessageView {
        MessageView {
            id: self.id,
            channel_id: self.channel_id,
            author: self.author,
            content: self.content,
            timestamp: self.timestamp,
            mentions: self.mentions@,
        }
    }
}

/// A copy of a list of users.
pub fn clone_users(v: &Vec<User>) -> (r: Vec<User>)
    ensures
        r@ == v@,
{
    let mut r: Vec<User> = Vec::new();
    let mut i: usize = 0;
    while i < v.len()
        invariant
            i <= v@.len(),
            r@ == v@.take(i as int),
        decreases v@.len() - i,
    {
        r.push(v[i].duplicate());
        i = i + 1;
        assert(r@ =~= v@.take(i as int));
    }
    assert(v@.take(i as int) =~= v@);
    r
}

impl Message {
    /// A copy of the message.
    pub fn duplicate(&self) -> (r: Message)
        ensures
            r@ == self@,
    {
        Message {
            id: self.id.clone(),
            channel_id: self.channel_id.clone(),
            author: self.author.duplicate(),
            content: clone_opt_string(&self.content),
            timestamp: self.timestamp.clone(),
            mentions: clone_users(&self.mentions),
        }
    }
}

pub open spec fn same_messages(a: Seq<Message>, b: Seq<Message>) -> bool {
    a.len() == b.len() && forall|i: int| 0 <= i < a.len() ==> #[trigger] a[i]@ == b[i]@
}

/// A copy of a list of messages.
pub fn clone_messages(v: &Vec<Message>) -> (r: Vec<Message>)
    ensures
        same_messages(r@, v@),
{
    let mut r: Vec<Message> = Vec::new();
    let mut i: usize = 0;
    while i < v.len()
        invariant
            i <= v@.len(),
            r@.len() == i,
            forall|j: int| 0 <= j < i ==> #[trigger] r@[j]@ == v@[j]@,
        decreases v@.len() - i,
    {
        r.push(v[i].duplicate());
        i = i + 1;
    }
    r
}

/// A message edit as the gateway reports it: only some fields are present.
#[derive(Debug, Clone)]
pub struct PartialMessage {
    pub id: String,
    pub channel_id: String,
    pub author: Option<User>,
    pub content: Option<String>,
    pub timestamp: Option<String>,
}

#[derive(Debug, Clone)]
pub struct Emoji {
    pub id: String,
    pub name: String,
    pub animated: Option<bool>,
}

#[derive(Debug, Clone)]
pub struct Guild {
    pub id: String,
    pub name: String,
}

#[derive(Debug, Clone)]
pub struct DM {
    pub id: String,
    pub name: Option<String>,
    pub recipients: Vec<User>,
    pub last_message_id: Option<String>,
}

impl DM {
    /// The name listed for a direct-message channel: its own name, else its
    /// first recipient's display name, else "Empty".
    pub open spec fn name_spec(self) -> Seq<char> {
        match self.name {
            Some(n) => n@,
            None => if self.recipients@.len() > 0 {
                self.recipients@[0].display_name()@
            } else {
                "Empty"@
            },
        }
    }

    /// The channel's name, else its first recipient's display name, else `Empty`.
    pub fn get_name(&self) -> (r: String)
        ensures
            r@ == self.name_spec(),
    {
        match &self.name {
            Some(n) => n.clone(),
            None => if self.recipients.len() > 0 {
                match &self.recipients[0].global_name {
                    Some(g) => g.clone(),
                    None => self.recipients[0].username.clone(),
                }
            } else {
                owned("Empty")
            },
        }
    }
}

#[derive(Debug, Clone)]
pub struct Role {
    pub id: String,
    /// Permission bit set, as the decimal text the service sends.
    pub permissions: String,
}

#[derive(Debug, Clone)]
pub struct PermissionOverwrite {
    pub id: String,
    /// 0 for a role, 1 for a member.
    pub overwrite_type: u8,
    pub allow: String,
    pub deny: String,
}

#[derive(Debug)]
pub struct Channel {
    pub id: String,
    pub name: String,
    pub channel_type: u8,
    pub guild_id: Option<String>,
    pub parent_id: Option<String>,
    pub permission_overwrites: Vec<PermissionOverwrite>,
    pub children: Option<Vec<Channel>>,
}

#[derive(Debug, Clone)]
pub struct GuildMember {
    pub user: User,
    pub roles: Vec<String>,
}

/// What the client knows of its own permissions in one server.
#[derive(Debug, Clone)]
pub struct PermissionContext {
    pub user_id: String,
    pub user_role_ids: Vec<String>,
    pub all_guild_roles: Vec<Role>,
    pub everyone_role_id: String,
}

#[derive(Debug, Clone)]
pub struct VimState {
    pub operator: Option<char>,
    pub pending_keys: Vec<char>,
}

pub open spec fn views(s: Seq<String>) -> Seq<Seq<char>> {
    s.map_values(|x: String| x@)
}

} // verus!
