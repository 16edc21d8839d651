use spaces::auth::{get_member_role, get_membership, get_server_for_channel, require_role};
use spaces::db::{Database, ReducerContext};
use spaces::identity::{str_lex_le, Identity, Timestamp};
use spaces::lifecycle::{client_connected, client_disconnected, default_username_for, init};
use spaces::reducers::channels::{
    create_channel, delete_channel, max_channel_position, update_channel,
};
use spaces::reducers::direct_messages::{
    delete_direct_message, edit_direct_message, find_conversation, mark_dm_read,
    normalize_participants, send_direct_message,
};
use spaces::reducers::messages::{
    add_reaction, delete_message, edit_message, mark_read, remove_reaction, send_message,
    start_typing,
};
use spaces::reducers::servers::{
    create_server, delete_server, join_server, leave_server, update_member_role, update_server,
};
use spaces::reducers::threads::{archive_thread, create_thread};
use spaces::reducers::users::{register_agent, set_profile};
use spaces::types::{ChannelType, MemberRole, MessageType};

fn alice() -> Identity {
    Identity { hi: 0xdeadbeef_00000000_00000000_00000001, lo: 7 }
}

fn bob() -> Identity {
    Identity { hi: 0x0badcafe_00000000_00000000_00000002, lo: 9 }
}

fn carol() -> Identity {
    Identity { hi: 0x77777777_00000000_00000000_00000003, lo: 11 }
}

fn at(t: i64) -> Timestamp {
    Timestamp { micros_since_unix_epoch: t }
}

/// A database seeded by `init` (called by `alice`), with alice, bob and carol connected.
fn seeded() -> ReducerContext {
    let mut ctx = ReducerContext::new(Database::new(), alice(), at(100));
    init(&mut ctx);
    for who in [alice(), bob(), carol()] {
        ctx.sender = who;
        client_connected(&mut ctx);
    }
    ctx.sender = alice();
    ctx
}

fn err_text(r: Result<(), String>) -> String {
    r.unwrap_err()
}

// ---------------------------------------------------------------------------
// Identity and ordering
// ---------------------------------------------------------------------------

#[test]
fn identity_hex_is_64_lowercase_digits() {
    let id = Identity { hi: 0x0123456789abcdef_0011223344556677, lo: 0xfedcba98_76543210_8899aabb_ccddeeff };
    assert_eq!(
        id.to_hex(),
        "0123456789abcdef0011223344556677fedcba98765432108899aabbccddeeff"
    );
    assert_eq!(Identity { hi: 0, lo: 1 }.to_hex().len(), 64);
}

#[test]
fn lexicographic_comparison() {
    assert!(str_lex_le("abc", "abd"));
    assert!(str_lex_le("ab", "abc"));
    assert!(str_lex_le("abc", "abc"));
    assert!(!str_lex_le("abd", "abc"));
    assert!(!str_lex_le("b", "abc"));
    assert!(str_lex_le("", ""));
}

#[test]
fn normalize_orders_by_hex_either_way() {
    // bob's hex starts with "0bad", alice's with "dead": bob sorts first.
    assert_eq!(normalize_participants(alice(), bob()), (bob(), alice()));
    assert_eq!(normalize_participants(bob(), alice()), (bob(), alice()));
    assert_eq!(normalize_participants(carol(), carol()), (carol(), carol()));
}

#[test]
fn role_levels() {
    assert_eq!(MemberRole::Owner.level(), 4);
    assert_eq!(MemberRole::Admin.level(), 3);
    assert_eq!(MemberRole::Moderator.level(), 2);
    assert_eq!(MemberRole::Member.level(), 1);
    assert_eq!(MemberRole::Agent.level(), 1);
}

// ---------------------------------------------------------------------------
// Lifecycle
// ---------------------------------------------------------------------------

#[test]
fn init_seeds_the_hub() {
    let mut ctx = ReducerContext::new(Database::new(), alice(), at(5));
    init(&mut ctx);
    assert_eq!(ctx.db.server.len(), 1);
    let hub = &ctx.db.server[0];
    assert_eq!(hub.id, 1);
    assert_eq!(hub.name, "Spaces Hub");
    assert_eq!(hub.description.as_deref(), Some("Default server for the Spaces network"));
    assert_eq!(hub.owner, alice());
    let names: Vec<&str> = ctx.db.channel.iter().map(|c| c.name.as_str()).collect();
    assert_eq!(names, vec!["general", "agent-logs", "system"]);
    assert_eq!(ctx.db.channel[1].channel_type, ChannelType::AgentLog);
    assert_eq!(ctx.db.channel[2].channel_type, ChannelType::Announcement);
    assert_eq!(ctx.db.channel[2].position, 2);
    assert_eq!(ctx.db.channel[0].topic.as_deref(), Some("General discussion"));
    assert!(ctx.db.server_member.is_empty());
}

#[test]
fn first_connection_creates_profile_and_joins_hub() {
    let ctx = seeded();
    assert_eq!(ctx.db.user_profile.len(), 3);
    assert_eq!(ctx.db.user_profile[0].username, "user_deadbeef");
    assert_eq!(ctx.db.user_profile[1].username, "user_0badcafe");
    assert_eq!(default_username_for(carol()), "user_77777777");
    assert!(ctx.db.user_presence.iter().all(|p| p.online));
    assert_eq!(ctx.db.server_member.len(), 3);
    assert!(ctx.db.server_member.iter().all(|m| m.server_id == 1 && m.role == MemberRole::Member));
}

#[test]
fn reconnecting_keeps_profile_and_membership() {
    let mut ctx = seeded();
    ctx.sender = bob();
    ctx.timestamp = at(500);
    client_disconnected(&mut ctx);
    let p = ctx.db.user_presence.iter().find(|p| p.identity == bob()).unwrap();
    assert!(!p.online);
    assert_eq!(p.last_seen, at(500));
    client_connected(&mut ctx);
    assert_eq!(ctx.db.user_profile.len(), 3);
    assert_eq!(ctx.db.server_member.len(), 3);
    assert_eq!(ctx.db.user_presence.len(), 3);
    assert!(ctx.db.user_presence.iter().find(|p| p.identity == bob()).unwrap().online);
}

#[test]
fn disconnect_without_presence_changes_nothing() {
    let mut ctx = ReducerContext::new(Database::new(), alice(), at(1));
    client_disconnected(&mut ctx);
    assert!(ctx.db.user_presence.is_empty());
}

// ---------------------------------------------------------------------------
// Servers and roles
// ---------------------------------------------------------------------------

#[test]
fn create_server_needs_a_profile_and_a_valid_name() {
    let mut ctx = ReducerContext::new(Database::new(), alice(), at(1));
    assert_eq!(
        err_text(create_server(&mut ctx, "Mine".to_string(), None)),
        "Must be connected to create a server"
    );
    assert_eq!(
        err_text(create_server(&mut ctx, String::new(), None)),
        "Server name cannot be empty"
    );
    assert_eq!(
        err_text(create_server(&mut ctx, "x".repeat(101), None)),
        "Server name must be 100 characters or fewer"
    );
    assert!(ctx.db.server.is_empty());
}

#[test]
fn create_server_adds_owner_and_general() {
    let mut ctx = seeded();
    ctx.sender = bob();
    assert!(create_server(&mut ctx, "Bob's".to_string(), Some("desc".to_string())).is_ok());
    let s = ctx.db.server.last().unwrap();
    assert_eq!(s.id, 2);
    assert_eq!(s.owner, bob());
    let m = get_membership(&ctx, 2, bob()).unwrap();
    assert_eq!(m.role, MemberRole::Owner);
    let general = ctx.db.channel.last().unwrap();
    assert_eq!(general.server_id, 2);
    assert_eq!(general.name, "general");
    assert_eq!(general.position, 0);
}

#[test]
fn update_server_requires_admin() {
    let mut ctx = seeded();
    ctx.sender = bob();
    create_server(&mut ctx, "Bob's".to_string(), None).unwrap();
    ctx.sender = carol();
    assert_eq!(
        err_text(update_server(&mut ctx, 2, Some("X".to_string()), None)),
        "You are not a member of this server"
    );
    join_server(&mut ctx, 2).unwrap();
    assert_eq!(
        err_text(update_server(&mut ctx, 2, Some("X".to_string()), None)),
        "Insufficient permissions: requires Admin or higher"
    );
    ctx.sender = bob();
    assert_eq!(
        err_text(update_server(&mut ctx, 2, Some(String::new()), None)),
        "Server name cannot be empty"
    );
    update_server(&mut ctx, 2, None, Some("new desc".to_string())).unwrap();
    let s = ctx.db.server.iter().find(|s| s.id == 2).unwrap();
    assert_eq!(s.name, "Bob's");
    assert_eq!(s.description.as_deref(), Some("new desc"));
    update_server(&mut ctx, 2, Some("Renamed".to_string()), None).unwrap();
    let s = ctx.db.server.iter().find(|s| s.id == 2).unwrap();
    assert_eq!(s.name, "Renamed");
    assert_eq!(s.description.as_deref(), Some("new desc"));
}

#[test]
fn require_role_message_names_the_role() {
    let ctx = seeded();
    let e = require_role(&ctx, 1, MemberRole::Moderator).unwrap_err();
    assert_eq!(e, "Insufficient permissions: requires Moderator or higher");
    assert_eq!(get_member_role(&ctx, 1, alice()), Some(MemberRole::Member));
    assert_eq!(get_member_role(&ctx, 99, alice()), None);
}

#[test]
fn join_and_leave_post_system_messages() {
    let mut ctx = seeded();
    ctx.sender = bob();
    create_server(&mut ctx, "Bob's".to_string(), None).unwrap();
    ctx.sender = carol();
    assert_eq!(err_text(join_server(&mut ctx, 42)), "Server not found");
    join_server(&mut ctx, 2).unwrap();
    assert_eq!(err_text(join_server(&mut ctx, 2)), "Already a member of this server");
    let msg = ctx.db.message.last().unwrap();
    assert_eq!(msg.content, "user_77777777 joined the server");
    assert_eq!(msg.message_type, MessageType::Join);
    assert_eq!(get_member_role(&ctx, 2, carol()), Some(MemberRole::Member));

    leave_server(&mut ctx, 2).unwrap();
    assert!(get_membership(&ctx, 2, carol()).is_none());
    let msg = ctx.db.message.last().unwrap();
    assert_eq!(msg.content, "user_77777777 left the server");
    assert_eq!(msg.message_type, MessageType::Leave);
    assert_eq!(err_text(leave_server(&mut ctx, 2)), "You are not a member of this server");

    ctx.sender = bob();
    assert_eq!(
        err_text(leave_server(&mut ctx, 2)),
        "Server owner cannot leave. Transfer ownership or delete the server."
    );
}

#[test]
fn join_needs_a_profile() {
    let mut ctx = seeded();
    ctx.sender = Identity { hi: 5, lo: 5 };
    assert_eq!(err_text(join_server(&mut ctx, 1)), "Must be connected to join a server");
}

#[test]
fn agents_join_as_agents() {
    let mut ctx = seeded();
    ctx.sender = bob();
    create_server(&mut ctx, "Bob's".to_string(), None).unwrap();
    ctx.sender = carol();
    register_agent(&mut ctx, "bot-001".to_string(), "helper".to_string()).unwrap();
    join_server(&mut ctx, 2).unwrap();
    assert_eq!(get_member_role(&ctx, 2, carol()), Some(MemberRole::Agent));
    assert_eq!(ctx.db.message.last().unwrap().content, "bot-001 joined the server");
}

#[test]
fn role_changes_follow_the_hierarchy() {
    let mut ctx = seeded();
    ctx.sender = bob();
    create_server(&mut ctx, "Bob's".to_string(), None).unwrap();
    ctx.sender = carol();
    join_server(&mut ctx, 2).unwrap();
    ctx.sender = alice();
    join_server(&mut ctx, 2).unwrap();

    // A plain member cannot change anyone
    assert_eq!(
        err_text(update_member_role(&mut ctx, 2, carol(), MemberRole::Moderator)),
        "Cannot modify role of someone with equal or higher rank"
    );
    ctx.sender = bob();
    assert_eq!(
        err_text(update_member_role(&mut ctx, 2, carol(), MemberRole::Owner)),
        "Cannot assign Owner role. Use transfer ownership instead."
    );
    assert_eq!(
        err_text(update_member_role(&mut ctx, 2, Identity { hi: 1, lo: 1 }, MemberRole::Member)),
        "Target is not a member of this server"
    );
    update_member_role(&mut ctx, 2, carol(), MemberRole::Admin).unwrap();
    assert_eq!(get_member_role(&ctx, 2, carol()), Some(MemberRole::Admin));

    ctx.sender = carol();
    assert_eq!(
        err_text(update_member_role(&mut ctx, 2, bob(), MemberRole::Member)),
        "Cannot change the owner's role"
    );
    assert_eq!(
        err_text(update_member_role(&mut ctx, 2, alice(), MemberRole::Admin)),
        "Cannot assign a role equal to or higher than your own"
    );
    update_member_role(&mut ctx, 2, alice(), MemberRole::Moderator).unwrap();
    assert_eq!(get_member_role(&ctx, 2, alice()), Some(MemberRole::Moderator));
}

#[test]
fn delete_server_cascades() {
    let mut ctx = seeded();
    ctx.sender = bob();
    create_server(&mut ctx, "Bob's".to_string(), None).unwrap();
    let general = ctx.db.channel.last().unwrap().id;
    send_message(&mut ctx, general, "hello".to_string(), None, None).unwrap();
    let mid = ctx.db.message.last().unwrap().id;
    add_reaction(&mut ctx, mid, "x".to_string()).unwrap();
    create_thread(&mut ctx, general, "t".to_string(), "first".to_string()).unwrap();
    // Something in the hub survives
    ctx.sender = alice();
    send_message(&mut ctx, 1, "hub msg".to_string(), None, None).unwrap();

    assert_eq!(
        err_text(delete_server(&mut ctx, 2)),
        "Only the server owner can delete the server"
    );
    ctx.sender = bob();
    assert_eq!(err_text(delete_server(&mut ctx, 9)), "Server not found");
    delete_server(&mut ctx, 2).unwrap();
    assert!(ctx.db.server.iter().all(|s| s.id != 2));
    assert!(ctx.db.channel.iter().all(|c| c.server_id != 2));
    assert!(ctx.db.server_member.iter().all(|m| m.server_id != 2));
    assert!(ctx.db.thread.is_empty());
    assert!(ctx.db.reaction.is_empty());
    assert_eq!(ctx.db.message.len(), 1);
    assert_eq!(ctx.db.message[0].content, "hub msg");
    assert_eq!(ctx.db.channel.len(), 3);
}

// ---------------------------------------------------------------------------
// Channels
// ---------------------------------------------------------------------------

#[test]
fn create_channel_goes_after_the_last_position() {
    let mut ctx = seeded();
    ctx.sender = bob();
    create_server(&mut ctx, "Bob's".to_string(), None).unwrap();
    assert_eq!(max_channel_position(&ctx.db, 1), 2);
    assert_eq!(max_channel_position(&ctx.db, 2), 0);
    create_channel(&mut ctx, 2, "random".to_string(), ChannelType::Voice).unwrap();
    let c = ctx.db.channel.last().unwrap();
    assert_eq!(c.position, 1);
    assert_eq!(c.channel_type, ChannelType::Voice);
    assert!(c.topic.is_none());
    assert_eq!(
        err_text(create_channel(&mut ctx, 2, String::new(), ChannelType::Text)),
        "Channel name cannot be empty"
    );
    ctx.sender = alice();
    assert_eq!(
        err_text(create_channel(&mut ctx, 1, "mine".to_string(), ChannelType::Text)),
        "Insufficient permissions: requires Admin or higher"
    );
}

#[test]
fn update_and_delete_channel() {
    let mut ctx = seeded();
    ctx.sender = bob();
    create_server(&mut ctx, "Bob's".to_string(), None).unwrap();
    create_channel(&mut ctx, 2, "random".to_string(), ChannelType::Text).unwrap();
    let cid = ctx.db.channel.last().unwrap().id;
    assert_eq!(err_text(update_channel(&mut ctx, 77, None, None)), "Channel not found");
    update_channel(&mut ctx, cid, None, Some("chat".to_string())).unwrap();
    let c = ctx.db.channel.iter().find(|c| c.id == cid).unwrap();
    assert_eq!(c.name, "random");
    assert_eq!(c.topic.as_deref(), Some("chat"));
    assert_eq!(
        err_text(update_channel(&mut ctx, cid, Some("y".repeat(101)), None)),
        "Channel name must be 100 characters or fewer"
    );

    send_message(&mut ctx, cid, "in random".to_string(), None, None).unwrap();
    let mid = ctx.db.message.last().unwrap().id;
    add_reaction(&mut ctx, mid, "ok".to_string()).unwrap();
    send_message(&mut ctx, cid - 1, "in general".to_string(), None, None).unwrap();
    delete_channel(&mut ctx, cid).unwrap();
    assert!(ctx.db.channel.iter().all(|c| c.id != cid));
    assert_eq!(ctx.db.message.len(), 1);
    assert_eq!(ctx.db.message[0].content, "in general");
    assert!(ctx.db.reaction.is_empty());
    assert_eq!(err_text(delete_channel(&mut ctx, cid)), "Channel not found");
}

#[test]
fn channel_lookup_reports_missing_server() {
    let mut ctx = seeded();
    assert!(get_server_for_channel(&ctx, 1).is_ok());
    ctx.db.server.clear();
    assert_eq!(
        get_server_for_channel(&ctx, 1).unwrap_err(),
        "Server not found for channel"
    );
}

// ---------------------------------------------------------------------------
// Messages, threads, reactions, read state
// ---------------------------------------------------------------------------

#[test]
fn send_message_checks() {
    let mut ctx = seeded();
    assert_eq!(
        err_text(send_message(&mut ctx, 1, String::new(), None, None)),
        "Message content cannot be empty"
    );
    assert_eq!(
        err_text(send_message(&mut ctx, 1, "m".repeat(4001), None, None)),
        "Message must be 4000 characters or fewer"
    );
    assert_eq!(err_text(send_message(&mut ctx, 50, "hi".to_string(), None, None)), "Channel not found");
    assert_eq!(
        err_text(send_message(&mut ctx, 1, "hi".to_string(), Some(9), None)),
        "Thread not found"
    );
    assert_eq!(
        err_text(send_message(&mut ctx, 1, "hi".to_string(), None, Some(9))),
        "Reply target message not found"
    );
    send_message(&mut ctx, 1, "hi".to_string(), None, None).unwrap();
    let first = ctx.db.message[0].id;
    send_message(&mut ctx, 1, "re".to_string(), None, Some(first)).unwrap();
    assert_eq!(ctx.db.message[1].reply_to_id, Some(first));
    assert_eq!(ctx.db.message[1].message_type, MessageType::Text);

    ctx.sender = Identity { hi: 3, lo: 3 };
    assert_eq!(
        err_text(send_message(&mut ctx, 1, "hi".to_string(), None, None)),
        "You are not a member of this server"
    );
}

#[test]
fn threads_and_archival() {
    let mut ctx = seeded();
    assert_eq!(
        err_text(create_thread(&mut ctx, 1, String::new(), "x".to_string())),
        "Thread name cannot be empty"
    );
    ctx.timestamp = at(200);
    create_thread(&mut ctx, 1, "Discussion".to_string(), "opening".to_string()).unwrap();
    let tid = ctx.db.thread[0].id;
    assert_eq!(ctx.db.message.last().unwrap().thread_id, Some(tid));
    assert_eq!(ctx.db.message.last().unwrap().content, "opening");

    ctx.timestamp = at(300);
    send_message(&mut ctx, 1, "in thread".to_string(), Some(tid), None).unwrap();
    assert_eq!(ctx.db.thread[0].last_message_at, at(300));
    assert_eq!(
        err_text(send_message(&mut ctx, 2, "wrong".to_string(), Some(tid), None)),
        "Thread does not belong to this channel"
    );

    ctx.sender = bob();
    assert_eq!(
        err_text(archive_thread(&mut ctx, tid)),
        "Only the thread creator or an admin can archive a thread"
    );
    ctx.sender = alice();
    assert_eq!(err_text(archive_thread(&mut ctx, 99)), "Thread not found");
    archive_thread(&mut ctx, tid).unwrap();
    assert!(ctx.db.thread[0].archived);
    let before = ctx.db.message.len();
    assert_eq!(
        err_text(send_message(&mut ctx, 1, "late".to_string(), Some(tid), None)),
        "Cannot post in an archived thread"
    );
    assert_eq!(ctx.db.message.len(), before);
    assert_eq!(ctx.db.thread[0].last_message_at, at(300));
}

#[test]
fn edit_and_delete_messages() {
    let mut ctx = seeded();
    send_message(&mut ctx, 1, "hello".to_string(), None, None).unwrap();
    let mid = ctx.db.message[0].id;
    ctx.sender = bob();
    add_reaction(&mut ctx, mid, "+1".to_string()).unwrap();
    assert_eq!(
        err_text(edit_message(&mut ctx, mid, "hacked".to_string())),
        "You can only edit your own messages"
    );
    assert_eq!(
        err_text(delete_message(&mut ctx, mid)),
        "You can only delete your own messages, or be an admin"
    );
    ctx.sender = alice();
    ctx.timestamp = at(900);
    edit_message(&mut ctx, mid, "hello!".to_string()).unwrap();
    assert_eq!(ctx.db.message[0].content, "hello!");
    assert_eq!(ctx.db.message[0].edited_at, Some(at(900)));
    assert_eq!(err_text(edit_message(&mut ctx, 42, "x".to_string())), "Message not found");
    delete_message(&mut ctx, mid).unwrap();
    assert!(ctx.db.message.is_empty());
    assert!(ctx.db.reaction.is_empty());
    assert_eq!(err_text(delete_message(&mut ctx, mid)), "Message not found");
}

#[test]
fn admins_may_delete_others_messages() {
    let mut ctx = seeded();
    ctx.sender = bob();
    create_server(&mut ctx, "Bob's".to_string(), None).unwrap();
    let general = ctx.db.channel.last().unwrap().id;
    ctx.sender = carol();
    join_server(&mut ctx, 2).unwrap();
    send_message(&mut ctx, general, "spam".to_string(), None, None).unwrap();
    let mid = ctx.db.message.last().unwrap().id;
    ctx.sender = bob();
    delete_message(&mut ctx, mid).unwrap();
    assert!(ctx.db.message.iter().all(|m| m.id != mid));
}

#[test]
fn reactions_are_unique_per_emoji() {
    let mut ctx = seeded();
    send_message(&mut ctx, 1, "hello".to_string(), None, None).unwrap();
    let mid = ctx.db.message[0].id;
    assert_eq!(err_text(add_reaction(&mut ctx, mid, String::new())), "Emoji cannot be empty");
    assert_eq!(err_text(add_reaction(&mut ctx, 77, "x".to_string())), "Message not found");
    add_reaction(&mut ctx, mid, "👍".to_string()).unwrap();
    assert_eq!(
        err_text(add_reaction(&mut ctx, mid, "👍".to_string())),
        "You already reacted with this emoji"
    );
    add_reaction(&mut ctx, mid, "🎉".to_string()).unwrap();
    ctx.sender = bob();
    add_reaction(&mut ctx, mid, "👍".to_string()).unwrap();
    assert_eq!(ctx.db.reaction.len(), 3);
    assert_eq!(err_text(remove_reaction(&mut ctx, mid, "🎉".to_string())), "Reaction not found");
    ctx.sender = alice();
    remove_reaction(&mut ctx, mid, "👍".to_string()).unwrap();
    assert_eq!(ctx.db.reaction.len(), 2);
    assert!(ctx.db.reaction.iter().all(|r| !(r.identity == alice() && r.emoji == "👍")));
}

#[test]
fn typing_and_read_state() {
    let mut ctx = seeded();
    start_typing(&mut ctx, 1).unwrap();
    assert_eq!(ctx.db.typing_indicator.len(), 1);
    assert_eq!(ctx.db.typing_indicator[0].identity, alice());
    assert_eq!(err_text(start_typing(&mut ctx, 33)), "Channel not found");

    mark_read(&mut ctx, 1, 5).unwrap();
    mark_read(&mut ctx, 1, 8).unwrap();
    mark_read(&mut ctx, 2, 3).unwrap();
    assert_eq!(ctx.db.channel_read_state.len(), 2);
    assert_eq!(ctx.db.channel_read_state[0].last_read_msg_id, 8);
    assert_eq!(ctx.db.channel_read_state[1].channel_id, 2);
}

// ---------------------------------------------------------------------------
// Users
// ---------------------------------------------------------------------------

#[test]
fn set_profile_keeps_usernames_unique() {
    let mut ctx = seeded();
    assert_eq!(
        err_text(set_profile(&mut ctx, "user_0badcafe".to_string(), None, None, None)),
        "Username 'user_0badcafe' is already taken"
    );
    assert_eq!(
        err_text(set_profile(&mut ctx, "a".repeat(33), None, None, None)),
        "Username must be 32 characters or fewer"
    );
    set_profile(&mut ctx, "alice".to_string(), Some("Alice".to_string()), None, Some("hi".to_string()))
        .unwrap();
    // Keeping one's own name is fine
    set_profile(&mut ctx, "alice".to_string(), None, None, None).unwrap();
    let p = &ctx.db.user_profile[0];
    assert_eq!(p.username, "alice");
    assert!(p.display_name.is_none());

    ctx.sender = Identity { hi: 8, lo: 8 };
    assert_eq!(
        err_text(set_profile(&mut ctx, "ghost".to_string(), None, None, None)),
        "User profile not found. Connect first."
    );
}

#[test]
fn register_agent_once() {
    let mut ctx = seeded();
    ctx.sender = bob();
    assert_eq!(
        err_text(register_agent(&mut ctx, String::new(), "d".to_string())),
        "Agent name cannot be empty"
    );
    assert_eq!(
        err_text(register_agent(&mut ctx, "user_deadbeef".to_string(), "d".to_string())),
        "Name 'user_deadbeef' is already taken"
    );
    register_agent(&mut ctx, "arcan".to_string(), "an agent".to_string()).unwrap();
    let p = &ctx.db.user_profile[1];
    assert!(p.is_agent);
    assert_eq!(p.username, "arcan");
    assert_eq!(p.bio.as_deref(), Some("an agent"));
    assert_eq!(
        err_text(register_agent(&mut ctx, "other".to_string(), "d".to_string())),
        "Already registered as an agent"
    );
}

// ---------------------------------------------------------------------------
// Direct messages
// ---------------------------------------------------------------------------

#[test]
fn direct_messages_share_one_conversation() {
    let mut ctx = seeded();
    assert_eq!(
        err_text(send_direct_message(&mut ctx, alice(), "me".to_string())),
        "Cannot send a direct message to yourself"
    );
    assert_eq!(
        err_text(send_direct_message(&mut ctx, Identity { hi: 4, lo: 4 }, "?".to_string())),
        "Recipient not found"
    );
    ctx.timestamp = at(1000);
    send_direct_message(&mut ctx, bob(), "hi bob".to_string()).unwrap();
    ctx.sender = bob();
    ctx.timestamp = at(2000);
    send_direct_message(&mut ctx, alice(), "hi alice".to_string()).unwrap();
    assert_eq!(ctx.db.direct_conversation.len(), 1);
    let conv = &ctx.db.direct_conversation[0];
    assert_eq!((conv.participant_a, conv.participant_b), (bob(), alice()));
    assert_eq!(conv.created_at, at(1000));
    assert_eq!(conv.last_message_at, at(2000));
    assert_eq!(ctx.db.direct_message.len(), 2);
    assert!(ctx.db.direct_message.iter().all(|m| m.conversation_id == conv.id && !m.read));
    assert_eq!(find_conversation(&ctx, alice(), bob()).unwrap().id, conv.id);
    assert_eq!(find_conversation(&ctx, bob(), alice()).unwrap().id, conv.id);
    assert!(find_conversation(&ctx, alice(), carol()).is_none());

    ctx.sender = Identity { hi: 6, lo: 6 };
    assert_eq!(
        err_text(send_direct_message(&mut ctx, alice(), "x".to_string())),
        "Sender profile not found. Connect first."
    );
}

#[test]
fn mark_dm_read_marks_only_the_other_side() {
    let mut ctx = seeded();
    send_direct_message(&mut ctx, bob(), "one".to_string()).unwrap();
    send_direct_message(&mut ctx, carol(), "other conv".to_string()).unwrap();
    ctx.sender = bob();
    send_direct_message(&mut ctx, alice(), "two".to_string()).unwrap();
    let conv_id = ctx.db.direct_conversation[0].id;
    ctx.sender = carol();
    assert_eq!(
        err_text(mark_dm_read(&mut ctx, conv_id)),
        "You are not a participant in this conversation"
    );
    assert_eq!(err_text(mark_dm_read(&mut ctx, 99)), "Conversation not found");
    ctx.sender = bob();
    mark_dm_read(&mut ctx, conv_id).unwrap();
    let read: Vec<bool> = ctx.db.direct_message.iter().map(|m| m.read).collect();
    assert_eq!(read, vec![true, false, false]);
}

#[test]
fn edit_and_delete_direct_messages() {
    let mut ctx = seeded();
    send_direct_message(&mut ctx, bob(), "one".to_string()).unwrap();
    let id = ctx.db.direct_message[0].id;
    ctx.sender = bob();
    assert_eq!(
        err_text(edit_direct_message(&mut ctx, id, "x".to_string())),
        "You can only edit your own messages"
    );
    assert_eq!(err_text(delete_direct_message(&mut ctx, id)), "You can only edit your own messages");
    ctx.sender = alice();
    ctx.timestamp = at(77);
    edit_direct_message(&mut ctx, id, "uno".to_string()).unwrap();
    assert_eq!(ctx.db.direct_message[0].content, "uno");
    assert_eq!(ctx.db.direct_message[0].edited_at, Some(at(77)));
    assert_eq!(err_text(edit_direct_message(&mut ctx, 55, "x".to_string())), "Direct message not found");
    delete_direct_message(&mut ctx, id).unwrap();
    assert!(ctx.db.direct_message.is_empty());
    assert_eq!(err_text(delete_direct_message(&mut ctx, id)), "Direct message not found");
}

#[test]
fn refused_requests_change_nothing() {
    let mut ctx = seeded();
    let servers = ctx.db.server.len();
    let members = ctx.db.server_member.len();
    let next = ctx.db.server_next_id;
    ctx.sender = Identity { hi: 2, lo: 2 };
    assert!(create_server(&mut ctx, "Nope".to_string(), None).is_err());
    assert_eq!(ctx.db.server.len(), servers);
    assert_eq!(ctx.db.server_member.len(), members);
    assert_eq!(ctx.db.server_next_id, next);
}

// ---------------------------------------------------------------------------
// Laws on concrete values
// ---------------------------------------------------------------------------

fn joined(server_id: u64) -> (Result<(), String>, ReducerContext) {
    let mut ctx = seeded();
    ctx.sender = bob();
    create_server(&mut ctx, "Bob's".to_string(), None).unwrap();
    ctx.sender = carol();
    ctx.timestamp = at(700);
    let r = join_server(&mut ctx, server_id);
    (r, ctx)
}

#[test]
fn join_gives_the_same_outcome_from_the_same_state() {
    for server_id in [2, 42] {
        let (r1, c1) = joined(server_id);
        let (r2, c2) = joined(server_id);
        assert_eq!(r1, r2);
        assert_eq!(c1.db.server_member_next_id, c2.db.server_member_next_id);
        assert_eq!(c1.db.message_next_id, c2.db.message_next_id);
        assert_eq!(c1.db.server_member.len(), c2.db.server_member.len());
        for (a, b) in c1.db.server_member.iter().zip(c2.db.server_member.iter()) {
            assert_eq!(
                (a.id, a.server_id, a.identity, a.role, a.joined_at),
                (b.id, b.server_id, b.identity, b.role, b.joined_at)
            );
        }
        assert_eq!(c1.db.message.len(), c2.db.message.len());
        for (a, b) in c1.db.message.iter().zip(c2.db.message.iter()) {
            assert_eq!(
                (a.id, a.channel_id, a.sender, &a.content, a.message_type, a.created_at),
                (b.id, b.channel_id, b.sender, &b.content, b.message_type, b.created_at)
            );
        }
    }
}

#[test]
fn reconnecting_after_leaving_the_hub_does_not_rejoin_it() {
    let mut ctx = seeded();
    ctx.sender = bob();
    set_profile(&mut ctx, "bobby".to_string(), None, None, None).unwrap();
    leave_server(&mut ctx, 1).unwrap();
    let members = ctx.db.server_member.len();
    let next = ctx.db.server_member_next_id;
    client_disconnected(&mut ctx);
    ctx.timestamp = at(900);
    client_connected(&mut ctx);
    assert_eq!(ctx.db.server_member.len(), members);
    assert_eq!(ctx.db.server_member_next_id, next);
    assert!(get_membership(&ctx, 1, bob()).is_none());
    let p = ctx.db.user_profile.iter().find(|p| p.identity == bob()).unwrap();
    assert_eq!(p.username, "bobby");
    let alice_presence = ctx.db.user_presence.iter().find(|p| p.identity == alice()).unwrap();
    assert_eq!(alice_presence.last_seen, at(100));
}

#[test]
fn removing_a_reaction_right_after_adding_it_restores_the_table() {
    let mut ctx = seeded();
    send_message(&mut ctx, 1, "hello".to_string(), None, None).unwrap();
    let mid = ctx.db.message[0].id;
    add_reaction(&mut ctx, mid, "🎉".to_string()).unwrap();
    ctx.sender = bob();
    let before: Vec<(u64, u64, Identity, String)> =
        ctx.db.reaction.iter().map(|r| (r.id, r.message_id, r.identity, r.emoji.clone())).collect();
    let next = ctx.db.reaction_next_id;
    add_reaction(&mut ctx, mid, "🎉".to_string()).unwrap();
    remove_reaction(&mut ctx, mid, "🎉".to_string()).unwrap();
    let after: Vec<(u64, u64, Identity, String)> =
        ctx.db.reaction.iter().map(|r| (r.id, r.message_id, r.identity, r.emoji.clone())).collect();
    assert_eq!(before, after);
    assert_eq!(ctx.db.reaction_next_id, next + 1);
}

#[test]
fn a_reply_goes_to_the_same_conversation() {
    let mut ctx = seeded();
    send_direct_message(&mut ctx, carol(), "hi carol".to_string()).unwrap();
    let first = ctx.db.direct_message.last().unwrap().conversation_id;
    ctx.sender = carol();
    send_direct_message(&mut ctx, alice(), "hi alice".to_string()).unwrap();
    assert_eq!(ctx.db.direct_message.last().unwrap().conversation_id, first);
    assert_eq!(ctx.db.direct_conversation.len(), 1);
}
