//! Input validation, role hierarchy checks and state guards used by the reducers.
use vstd::prelude::*;
use vstd::utf8::encode_utf8;

verus! {

/// `r` is the outcome that `expected` describes: `Ok(())` for `None`,
/// an error with exactly the given text for `Some`.
pub open spec fn outcome_is(r: Result<(), String>, expected: Option<Seq<char>>) -> bool {
    match expected {
        None => r is Ok,
        Some(msg) => r matches Err(e) && e@ == msg,
    }
}

/// An error carrying the text of a string literal.
pub fn error_text(msg: &str) -> (r: Result<(), String>)
    ensures
        r matches Err(e) && e@ == msg@,
{
    Err(String::from_str(msg))
}

// ---------------------------------------------------------------------------
// String validation
// ---------------------------------------------------------------------------

/// The length of a string as `len()` reports it: the size of its UTF-8 encoding.
pub open spec fn byte_len(s: Seq<char>) -> usize {
    encode_utf8(s).len() as usize
}

/// The error for a username: empty, or longer than 32 bytes.
pub open spec fn username_error(s: Seq<char>) -> Option<Seq<char>> {
    if s.len() == 0 {
        Some("Username cannot be empty"@)
    } else if byte_len(s) > 32 {
        Some("Username must be 32 characters or fewer"@)
    } else {
        None
    }
}

pub fn validate_username(s: &str) -> (r: Result<(), String>)
    ensures
        outcome_is(r, username_error(s@)),
{
    if s.is_empty() {
        return error_text("Username cannot be empty");
    }
    if s.len() > 32 {
        return error_text("Username must be 32 characters or fewer");
    }
    Ok(())
}

/// The error for the name of an entity (server, channel): empty, or longer than 100 bytes.
pub open spec fn name_error(s: Seq<char>, entity: Seq<char>) -> Option<Seq<char>> {
    if s.len() == 0 {
        Some(entity + " name cannot be empty"@)
    } else if byte_len(s) > 100 {
        Some(entity + " name must be 100 characters or fewer"@)
    } else {
        None
    }
}

pub fn validate_name(s: &str, entity: &str) -> (r: Result<(), String>)
    ensures
        outcome_is(r, name_error(s@, entity@)),
{
    if s.is_empty() {
        return Err(String::from_str(entity).concat(" name cannot be empty"));
    }
    if s.len() > 100 {
        return Err(String::from_str(entity).concat(" name must be 100 characters or fewer"));
    }
    Ok(())
}

/// The error for message content: empty, or longer than 4000 bytes.
pub open spec fn message_content_error(s: Seq<char>) -> Option<Seq<char>> {
    if s.len() == 0 {
        Some("Message content cannot be empty"@)
    } else if byte_len(s) > 4000 {
        Some("Message must be 4000 characters or fewer"@)
    } else {
        None
    }
}

pub fn validate_message_content(s: &str) -> (r: Result<(), String>)
    ensures
        outcome_is(r, message_content_error(s@)),
{
    if s.is_empty() {
        return error_text("Message content cannot be empty");
    }
    if s.len() > 4000 {
        return error_text("Message must be 4000 characters or fewer");
    }
    Ok(())
}

pub open spec fn emoji_error(s: Seq<char>) -> Option<Seq<char>> {
    if s.len() == 0 {
        Some("Emoji cannot be empty"@)
    } else {
        None
    }
}

pub fn validate_emoji(s: &str) -> (r: Result<(), String>)
    ensures
        outcome_is(r, emoji_error(s@)),
{
    if s.is_empty() {
        return error_text("Emoji cannot be empty");
    }
    Ok(())
}

pub open spec fn agent_name_error(s: Seq<char>) -> Option<Seq<char>> {
    if s.len() == 0 {
        Some("Agent name cannot be empty"@)
    } else {
        None
    }
}

pub fn validate_agent_name(s: &str) -> (r: Result<(), String>)
    ensures
        outcome_is(r, agent_name_error(s@)),
{
    if s.is_empty() {
        return error_text("Agent name cannot be empty");
    }
    Ok(())
}

pub open spec fn thread_name_error(s: Seq<char>) -> Option<Seq<char>> {
    if s.len() == 0 {
        Some("Thread name cannot be empty"@)
    } else {
        None
    }
}

pub fn validate_thread_name(s: &str) -> (r: Result<(), String>)
    ensures
        outcome_is(r, thread_name_error(s@)),
{
    if s.is_empty() {
        return error_text("Thread name cannot be empty");
    }
    Ok(())
}

pub open spec fn dm_self_error(sender_hex: Seq<char>, recipient_hex: Seq<char>) -> Option<Seq<char>> {
    if sender_hex == recipient_hex {
        Some("Cannot send a direct message to yourself"@)
    } else {
        None
    }
}

pub fn validate_dm_not_self(sender_hex: &str, recipient_hex: &str) -> (r: Result<(), String>)
    ensures
        outcome_is(r, dm_self_error(sender_hex@, recipient_hex@)),
{
    if String::from_str(sender_hex) == String::from_str(recipient_hex) {
        error_text("Cannot send a direct message to yourself")
    } else {
        Ok(())
    }
}

// ---------------------------------------------------------------------------
// Role hierarchy
// ---------------------------------------------------------------------------

pub const ROLE_LEVEL_OWNER: u8 = 4;

pub const ROLE_LEVEL_ADMIN: u8 = 3;

pub const ROLE_LEVEL_MODERATOR: u8 = 2;

pub const ROLE_LEVEL_MEMBER: u8 = 1;

pub const ROLE_LEVEL_AGENT: u8 = 1;

/// Why `actor` may not change `target`'s role to `new_role`, checked in this order:
/// the target is the owner; the new role is Owner; the actor does not outrank the
/// target; the actor does not outrank the new role.
pub open spec fn modify_role_error(
    actor_level: u8,
    target_level: u8,
    new_role_level: u8,
    target_is_owner: bool,
    new_role_is_owner: bool,
) -> Option<Seq<char>> {
    if target_is_owner {
        Some("Cannot change the owner's role"@)
    } else if new_role_is_owner {
        Some("Cannot assign Owner role. Use transfer ownership instead."@)
    } else if actor_level <= target_level {
        Some("Cannot modify role of someone with equal or higher rank"@)
    } else if actor_level <= new_role_level {
        Some("Cannot assign a role equal to or higher than your own"@)
    } else {
        None
    }
}

/// Check whether `actor` can change `target`'s role to `new_role`.
///
/// Rules:
/// - Cannot change the owner's role
/// - Cannot assign the Owner role
/// - Actor must outrank the target's current role
/// - Actor must outrank the new role
pub fn can_modify_role(
    actor_level: u8,
    target_level: u8,
    new_role_level: u8,
    target_is_owner: bool,
    new_role_is_owner: bool,
) -> (r: Result<(), String>)
    ensures
        outcome_is(
            r,
            modify_role_error(
                actor_level,
                target_level,
                new_role_level,
                target_is_owner,
                new_role_is_owner,
            ),
        ),
        r is Ok <==> (!target_is_owner && !new_role_is_owner && actor_level > target_level
            && actor_level > new_role_level),
{
    if target_is_owner {
        return error_text("Cannot change the owner's role");
    }
    if new_role_is_owner {
        return error_text("Cannot assign Owner role. Use transfer ownership instead.");
    }
    if actor_level <= target_level {
        return error_text("Cannot modify role of someone with equal or higher rank");
    }
    if actor_level <= new_role_level {
        return error_text("Cannot assign a role equal to or higher than your own");
    }
    Ok(())
}

// ---------------------------------------------------------------------------
// State guards
// ---------------------------------------------------------------------------

pub open spec fn archived_error(archived: bool) -> Option<Seq<char>> {
    if archived {
        Some("Cannot post in an archived thread"@)
    } else {
        None
    }
}

pub fn guard_thread_not_archived(archived: bool) -> (r: Result<(), String>)
    ensures
        outcome_is(r, archived_error(archived)),
{
    if archived {
        error_text("Cannot post in an archived thread")
    } else {
        Ok(())
    }
}

pub open spec fn thread_channel_error(thread_channel_id: u64, expected: u64) -> Option<Seq<char>> {
    if thread_channel_id != expected {
        Some("Thread does not belong to this channel"@)
    } else {
        None
    }
}

pub fn guard_thread_channel(thread_channel_id: u64, expected: u64) -> (r: Result<(), String>)
    ensures
        outcome_is(r, thread_channel_error(thread_channel_id, expected)),
{
    if thread_channel_id != expected {
        error_text("Thread does not belong to this channel")
    } else {
        Ok(())
    }
}

pub open spec fn already_agent_error(is_agent: bool) -> Option<Seq<char>> {
    if is_agent {
        Some("Already registered as an agent"@)
    } else {
        None
    }
}

pub fn guard_not_already_agent(is_agent: bool) -> (r: Result<(), String>)
    ensures
        outcome_is(r, already_agent_error(is_agent)),
{
    if is_agent {
        error_text("Already registered as an agent")
    } else {
        Ok(())
    }
}

pub open spec fn message_owner_error(sender_matches: bool) -> Option<Seq<char>> {
    if sender_matches {
        None
    } else {
        Some("You can only edit your own messages"@)
    }
}

pub fn guard_message_owner(sender_matches: bool) -> (r: Result<(), String>)
    ensures
        outcome_is(r, message_owner_error(sender_matches)),
{
    if sender_matches {
        Ok(())
    } else {
        error_text("You can only edit your own messages")
    }
}

pub open spec fn delete_permission_error(is_sender: bool, is_admin: bool) -> Option<Seq<char>> {
    if is_sender || is_admin {
        None
    } else {
        Some("You can only delete your own messages, or be an admin"@)
    }
}

pub fn guard_delete_permission(is_sender: bool, is_admin: bool) -> (r: Result<(), String>)
    ensures
        outcome_is(r, delete_permission_error(is_sender, is_admin)),
{
    if is_sender || is_admin {
        Ok(())
    } else {
        error_text("You can only delete your own messages, or be an admin")
    }
}

pub open spec fn archive_permission_error(is_creator: bool, is_admin: bool) -> Option<Seq<char>> {
    if is_creator || is_admin {
        None
    } else {
        Some("Only the thread creator or an admin can archive a thread"@)
    }
}

pub fn guard_archive_permission(is_creator: bool, is_admin: bool) -> (r: Result<(), String>)
    ensures
        outcome_is(r, archive_permission_error(is_creator, is_admin)),
{
    if is_creator || is_admin {
        Ok(())
    } else {
        error_text("Only the thread creator or an admin can archive a thread")
    }
}

pub open spec fn owner_leave_error(is_owner: bool) -> Option<Seq<char>> {
    if is_owner {
        Some("Server owner cannot leave. Transfer ownership or delete the server."@)
    } else {
        None
    }
}

pub fn guard_owner_cannot_leave(is_owner: bool) -> (r: Result<(), String>)
    ensures
        outcome_is(r, owner_leave_error(is_owner)),
{
    if is_owner {
        error_text("Server owner cannot leave. Transfer ownership or delete the server.")
    } else {
        Ok(())
    }
}

pub open spec fn owner_delete_error(is_owner: bool) -> Option<Seq<char>> {
    if is_owner {
        None
    } else {
        Some("Only the server owner can delete the server"@)
    }
}

pub fn guard_only_owner_deletes(is_owner: bool) -> (r: Result<(), String>)
    ensures
        outcome_is(r, owner_delete_error(is_owner)),
{
    if is_owner {
        Ok(())
    } else {
        error_text("Only the server owner can delete the server")
    }
}

} // verus!
