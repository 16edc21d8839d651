use spaces::validation::{
    can_modify_role, guard_archive_permission, guard_delete_permission, guard_message_owner,
    guard_not_already_agent, guard_only_owner_deletes, guard_owner_cannot_leave,
    guard_thread_channel, guard_thread_not_archived, validate_agent_name, validate_dm_not_self,
    validate_emoji, validate_message_content, validate_name, validate_thread_name,
    validate_username, ROLE_LEVEL_ADMIN, ROLE_LEVEL_AGENT, ROLE_LEVEL_MEMBER, ROLE_LEVEL_MODERATOR,
    ROLE_LEVEL_OWNER,
};

#[test]
fn username_valid() {
    assert!(validate_username("alice").is_ok());
}

#[test]
fn username_at_limit() {
    let s = "a".repeat(32);
    assert!(validate_username(&s).is_ok());
}

#[test]
fn username_empty() {
    assert!(validate_username("").is_err());
}

#[test]
fn username_over_limit() {
    let s = "a".repeat(33);
    assert!(validate_username(&s).is_err());
}

#[test]
fn name_valid_server() {
    assert!(validate_name("My Server", "Server").is_ok());
}

#[test]
fn name_valid_channel() {
    assert!(validate_name("general", "Channel").is_ok());
}

#[test]
fn name_at_limit() {
    let s = "x".repeat(100);
    assert!(validate_name(&s, "Server").is_ok());
}

#[test]
fn name_empty() {
    let err = validate_name("", "Server").unwrap_err();
    assert!(err.contains("Server"));
}

#[test]
fn name_over_limit() {
    let s = "x".repeat(101);
    let err = validate_name(&s, "Channel").unwrap_err();
    assert!(err.contains("Channel"));
}

#[test]
fn message_content_valid() {
    assert!(validate_message_content("hello world").is_ok());
}

#[test]
fn message_content_at_limit() {
    let s = "m".repeat(4000);
    assert!(validate_message_content(&s).is_ok());
}

#[test]
fn message_content_empty() {
    assert!(validate_message_content("").is_err());
}

#[test]
fn message_content_over_limit() {
    let s = "m".repeat(4001);
    assert!(validate_message_content(&s).is_err());
}

#[test]
fn emoji_valid() {
    assert!(validate_emoji("👍").is_ok());
}

#[test]
fn emoji_empty() {
    assert!(validate_emoji("").is_err());
}

#[test]
fn agent_name_valid() {
    assert!(validate_agent_name("bot-001").is_ok());
}

#[test]
fn agent_name_empty() {
    assert!(validate_agent_name("").is_err());
}

#[test]
fn thread_name_valid() {
    assert!(validate_thread_name("Discussion").is_ok());
}

#[test]
fn thread_name_empty() {
    assert!(validate_thread_name("").is_err());
}

#[test]
fn dm_not_self_ok() {
    assert!(validate_dm_not_self("aaa", "bbb").is_ok());
}

#[test]
fn dm_to_self_err() {
    assert!(validate_dm_not_self("aaa", "aaa").is_err());
}

// -----------------------------------------------------------------------
// Role hierarchy constants
// -----------------------------------------------------------------------

#[test]
fn role_level_ordering() {
    assert!(ROLE_LEVEL_OWNER > ROLE_LEVEL_ADMIN);
    assert!(ROLE_LEVEL_ADMIN > ROLE_LEVEL_MODERATOR);
    assert!(ROLE_LEVEL_MODERATOR > ROLE_LEVEL_MEMBER);
    assert_eq!(ROLE_LEVEL_MEMBER, ROLE_LEVEL_AGENT);
}

// -----------------------------------------------------------------------
// can_modify_role
// -----------------------------------------------------------------------

#[test]
fn modify_role_owner_demotes_admin() {
    // Owner (4) demoting Admin (3) to Member (1) — allowed
    assert!(can_modify_role(4, 3, 1, false, false).is_ok());
}

#[test]
fn modify_role_admin_promotes_member_to_moderator() {
    // Admin (3) promoting Member (1) to Moderator (2) — allowed
    assert!(can_modify_role(3, 1, 2, false, false).is_ok());
}

#[test]
fn modify_role_cannot_change_owner() {
    assert!(can_modify_role(4, 4, 3, true, false).is_err());
}

#[test]
fn modify_role_cannot_assign_owner() {
    assert!(can_modify_role(4, 1, 4, false, true).is_err());
}

#[test]
fn modify_role_cannot_outrank_target() {
    // Admin (3) trying to change Admin (3) — equal rank, rejected
    assert!(can_modify_role(3, 3, 1, false, false).is_err());
}

#[test]
fn modify_role_cannot_assign_equal_rank() {
    // Admin (3) trying to promote to Admin (3) — equal to own, rejected
    assert!(can_modify_role(3, 1, 3, false, false).is_err());
}

#[test]
fn modify_role_moderator_cannot_change_admin() {
    // Moderator (2) trying to change Admin (3) — outranked
    assert!(can_modify_role(2, 3, 1, false, false).is_err());
}

#[test]
fn modify_role_member_cannot_change_anyone() {
    // Member (1) trying to change Member (1) — equal rank
    assert!(can_modify_role(1, 1, 1, false, false).is_err());
}

// -----------------------------------------------------------------------
// State guards
// -----------------------------------------------------------------------

#[test]
fn thread_not_archived_ok() {
    assert!(guard_thread_not_archived(false).is_ok());
}

#[test]
fn thread_archived_err() {
    assert!(guard_thread_not_archived(true).is_err());
}

#[test]
fn thread_channel_match() {
    assert!(guard_thread_channel(42, 42).is_ok());
}

#[test]
fn thread_channel_mismatch() {
    assert!(guard_thread_channel(42, 99).is_err());
}

#[test]
fn not_already_agent_ok() {
    assert!(guard_not_already_agent(false).is_ok());
}

#[test]
fn already_agent_err() {
    assert!(guard_not_already_agent(true).is_err());
}

#[test]
fn message_owner_ok() {
    assert!(guard_message_owner(true).is_ok());
}

#[test]
fn message_not_owner_err() {
    assert!(guard_message_owner(false).is_err());
}

#[test]
fn delete_by_sender() {
    assert!(guard_delete_permission(true, false).is_ok());
}

#[test]
fn delete_by_admin() {
    assert!(guard_delete_permission(false, true).is_ok());
}

#[test]
fn delete_denied() {
    assert!(guard_delete_permission(false, false).is_err());
}

#[test]
fn archive_by_creator() {
    assert!(guard_archive_permission(true, false).is_ok());
}

#[test]
fn archive_by_admin() {
    assert!(guard_archive_permission(false, true).is_ok());
}

#[test]
fn archive_denied() {
    assert!(guard_archive_permission(false, false).is_err());
}

#[test]
fn owner_cannot_leave() {
    assert!(guard_owner_cannot_leave(true).is_err());
}

#[test]
fn non_owner_can_leave() {
    assert!(guard_owner_cannot_leave(false).is_ok());
}

#[test]
fn only_owner_deletes_ok() {
    assert!(guard_only_owner_deletes(true).is_ok());
}

#[test]
fn non_owner_cannot_delete_server() {
    assert!(guard_only_owner_deletes(false).is_err());
}
