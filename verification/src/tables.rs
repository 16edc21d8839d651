use vstd::prelude::*;

use crate::identity::{Identity, Timestamp};
use crate::types::{ChannelType, MemberRole, MessageType};

verus! {

/// A row of a table whose primary key is an auto-incremented `u64`.
pub trait TableRow: Sized {
    /// The row's primary key.
    spec fn key(&self) -> u64;

    fn row_key(&self) -> (k: u64)
        ensures
            k == self.key(),
    ;

    /// An owned copy of the row, equal to it.
    fn duplicate(&self) -> (r: Self)
        ensures
            r == *self,
    ;
}

/// An owned copy of an optional string.
pub fn copy_opt_string(o: &Option<String>) -> (r: Option<String>)
    ensures
        r == *o,
{
    match o {
        Some(s) => Some(s.clone()),
        None => None,
    }
}

// --- User tables ---

/// One profile per identity; usernames are unique.
#[derive(Debug)]
pub struct UserProfile {
    pub identity: Identity,
    pub username: String,
    pub display_name: Option<String>,
    pub avatar_url: Option<String>,
    pub bio: Option<String>,
    pub is_agent: bool,
    pub created_at: Timestamp,
}

impl UserProfile {
    pub fn duplicate(&self) -> (r: Self)
        ensures
            r == *self,
    {
        UserProfile {
            identity: self.identity,
            username: self.username.clone(),
            display_name: copy_opt_string(&self.display_name),
            avatar_url: copy_opt_string(&self.avatar_url),
            bio: copy_opt_string(&self.bio),
            is_agent: self.is_agent,
            created_at: self.created_at,
        }
    }
}

/// Online status, one row per identity.
#[derive(Debug)]
pub struct UserPresence {
    pub identity: Identity,
    pub online: bool,
    pub status_text: Option<String>,
    pub last_seen: Timestamp,
}

impl UserPresence {
    pub fn duplicate(&self) -> (r: Self)
        ensures
            r == *self,
    {
        UserPresence {
            identity: self.identity,
            online: self.online,
            status_text: copy_opt_string(&self.status_text),
            last_seen: self.last_seen,
        }
    }
}

// --- Server tables ---

#[derive(Debug)]
pub struct Server {
    pub id: u64,
    pub name: String,
    pub description: Option<String>,
    pub icon_url: Option<String>,
    pub owner: Identity,
    pub created_at: Timestamp,
}

impl TableRow for Server {
    open spec fn key(&self) -> u64 {
        self.id
    }

    fn row_key(&self) -> (k: u64) {
        self.id
    }

    fn duplicate(&self) -> (r: Self) {
        Server {
            id: self.id,
            name: self.name.clone(),
            description: copy_opt_string(&self.description),
            icon_url: copy_opt_string(&self.icon_url),
            owner: self.owner,
            created_at: self.created_at,
        }
    }
}

#[derive(Debug)]
pub struct ServerMember {
    pub id: u64,
    pub server_id: u64,
    pub identity: Identity,
    pub role: MemberRole,
    pub joined_at: Timestamp,
}

impl TableRow for ServerMember {
    open spec fn key(&self) -> u64 {
        self.id
    }

    fn row_key(&self) -> (k: u64) {
        self.id
    }

    fn duplicate(&self) -> (r: Self) {
        ServerMember {
            id: self.id,
            server_id: self.server_id,
            identity: self.identity,
            role: self.role,
            joined_at: self.joined_at,
        }
    }
}

// --- Channel tables ---

#[derive(Debug)]
pub struct Channel {
    pub id: u64,
    pub server_id: u64,
    pub name: String,
    pub topic: Option<String>,
    pub channel_type: ChannelType,
    pub position: u32,
    pub created_at: Timestamp,
}

impl TableRow for Channel {
    open spec fn key(&self) -> u64 {
        self.id
    }

    fn row_key(&self) -> (k: u64) {
        self.id
    }

    fn duplicate(&self) -> (r: Self) {
        Channel {
            id: self.id,
            server_id: self.server_id,
            name: self.name.clone(),
            topic: copy_opt_string(&self.topic),
            channel_type: self.channel_type,
            position: self.position,
            created_at: self.created_at,
        }
    }
}

// --- Thread tables ---

#[derive(Debug)]
pub struct Thread {
    pub id: u64,
    pub channel_id: u64,
    pub name: String,
    pub creator: Identity,
    pub created_at: Timestamp,
    pub archived: bool,
    pub last_message_at: Timestamp,
}

impl TableRow for Thread {
    open spec fn key(&self) -> u64 {
        self.id
    }

    fn row_key(&self) -> (k: u64) {
        self.id
    }

    fn duplicate(&self) -> (r: Self) {
        Thread {
            id: self.id,
            channel_id: self.channel_id,
            name: self.name.clone(),
            creator: self.creator,
            created_at: self.created_at,
            archived: self.archived,
            last_message_at: self.last_message_at,
        }
    }
}

// --- Message tables ---

#[derive(Debug)]
pub struct Message {
    pub id: u64,
    pub channel_id: u64,
    pub thread_id: Option<u64>,
    pub sender: Identity,
    pub content: String,
    pub message_type: MessageType,
    pub created_at: Timestamp,
    pub edited_at: Option<Timestamp>,
    pub reply_to_id: Option<u64>,
}

impl TableRow for Message {
    open spec fn key(&self) -> u64 {
        self.id
    }

    fn row_key(&self) -> (k: u64) {
        self.id
    }

    fn duplicate(&self) -> (r: Self) {
        Message {
            id: self.id,
            channel_id: self.channel_id,
            thread_id: self.thread_id,
            sender: self.sender,
            content: self.content.clone(),
            message_type: self.message_type,
            created_at: self.created_at,
            edited_at: self.edited_at,
            reply_to_id: self.reply_to_id,
        }
    }
}

#[derive(Debug)]
pub struct Reaction {
    pub id: u64,
    pub message_id: u64,
    pub identity: Identity,
    pub emoji: String,
}

impl TableRow for Reaction {
    open spec fn key(&self) -> u64 {
        self.id
    }

    fn row_key(&self) -> (k: u64) {
        self.id
    }

    fn duplicate(&self) -> (r: Self) {
        Reaction {
            id: self.id,
            message_id: self.message_id,
            identity: self.identity,
            emoji: self.emoji.clone(),
        }
    }
}

// --- Read state ---

#[derive(Debug)]
pub struct ChannelReadState {
    pub id: u64,
    pub identity: Identity,
    pub channel_id: u64,
    pub last_read_msg_id: u64,
}

impl TableRow for ChannelReadState {
    open spec fn key(&self) -> u64 {
        self.id
    }

    fn row_key(&self) -> (k: u64) {
        self.id
    }

    fn duplicate(&self) -> (r: Self) {
        ChannelReadState {
            id: self.id,
            identity: self.identity,
            channel_id: self.channel_id,
            last_read_msg_id: self.last_read_msg_id,
        }
    }
}

// --- Event tables (transient) ---

#[derive(Debug)]
pub struct TypingIndicator {
    pub id: u64,
    pub channel_id: u64,
    pub identity: Identity,
}

impl TableRow for TypingIndicator {
    open spec fn key(&self) -> u64 {
        self.id
    }

    fn row_key(&self) -> (k: u64) {
        self.id
    }

    fn duplicate(&self) -> (r: Self) {
        TypingIndicator { id: self.id, channel_id: self.channel_id, identity: self.identity }
    }
}

#[derive(Debug)]
pub struct SystemNotification {
    pub id: u64,
    pub target: Identity,
    pub title: String,
    pub body: String,
}

impl TableRow for SystemNotification {
    open spec fn key(&self) -> u64 {
        self.id
    }

    fn row_key(&self) -> (k: u64) {
        self.id
    }

    fn duplicate(&self) -> (r: Self) {
        SystemNotification {
            id: self.id,
            target: self.target,
            title: self.title.clone(),
            body: self.body.clone(),
        }
    }
}

// --- Direct messages ---

/// A conversation between two participants, stored with the participant whose
/// hexadecimal identity sorts first as `participant_a`.
#[derive(Debug)]
pub struct DirectConversation {
    pub id: u64,
    pub participant_a: Identity,
    pub participant_b: Identity,
    pub created_at: Timestamp,
    pub last_message_at: Timestamp,
}

impl TableRow for DirectConversation {
    open spec fn key(&self) -> u64 {
        self.id
    }

    fn row_key(&self) -> (k: u64) {
        self.id
    }

    fn duplicate(&self) -> (r: Self) {
        DirectConversation {
            id: self.id,
            participant_a: self.participant_a,
            participant_b: self.participant_b,
            created_at: self.created_at,
            last_message_at: self.last_message_at,
        }
    }
}

#[derive(Debug)]
pub struct DirectMessage {
    pub id: u64,
    pub conversation_id: u64,
    pub sender: Identity,
    pub content: String,
    pub created_at: Timestamp,
    pub edited_at: Option<Timestamp>,
    pub read: bool,
}

impl TableRow for DirectMessage {
    open spec fn key(&self) -> u64 {
        self.id
    }

    fn row_key(&self) -> (k: u64) {
        self.id
    }

    fn duplicate(&self) -> (r: Self) {
        DirectMessage {
            id: self.id,
            conversation_id: self.conversation_id,
            sender: self.sender,
            content: self.content.clone(),
            created_at: self.created_at,
            edited_at: self.edited_at,
            read: self.read,
        }
    }
}

} // verus!
