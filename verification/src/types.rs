use vstd::prelude::*;

verus! {

/// A member's role inside a server, from most to least privileged.
#[derive(Clone, Copy, Debug, PartialEq, Eq, Structural)]
pub enum MemberRole {
    Owner,
    Admin,
    Moderator,
    Member,
    Agent,
}

/// The numeric rank of a role; a higher rank is more privileged.
pub open spec fn role_level(role: MemberRole) -> u8 {
    match role {
        MemberRole::Owner => 4,
        MemberRole::Admin => 3,
        MemberRole::Moderator => 2,
        MemberRole::Member => 1,
        MemberRole::Agent => 1,
    }
}

impl MemberRole {
    /// Returns a numeric level for role hierarchy comparison.
    /// Higher = more privileged.
    pub fn level(&self) -> (r: u8)
        ensures
            r == role_level(*self),
    {
        match self {
            MemberRole::Owner => 4,
            MemberRole::Admin => 3,
            MemberRole::Moderator => 2,
            MemberRole::Member => 1,
            MemberRole::Agent => 1,
        }
    }
}

/// The kind of a channel.
#[derive(Clone, Copy, Debug, PartialEq, Eq, Structural)]
pub enum ChannelType {
    Text,
    Voice,
    Announcement,
    AgentLog,
}

/// The kind of a channel message.
#[derive(Clone, Copy, Debug, PartialEq, Eq, Structural)]
pub enum MessageType {
    Text,
    System,
    AgentEvent,
    Join,
    Leave,
}

} // verus!
