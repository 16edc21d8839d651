use spaces::identity::{Identity, Timestamp};
use spaces::lines::{
    decimal, format_channel, format_conversation, format_direct_message, format_member,
    format_message, format_presence_change, format_server, format_startup_channel,
    format_thread, format_who,
};
use spaces::tables::{Channel, DirectMessage, Message, Server, Thread};
use spaces::types::{ChannelType, MemberRole, MessageType};

fn at(t: i64) -> Timestamp {
    Timestamp { micros_since_unix_epoch: t }
}

fn who() -> Identity {
    Identity { hi: 7, lo: 9 }
}

fn message(kind: MessageType, thread_id: Option<u64>, reply_to_id: Option<u64>, edited: bool) -> Message {
    Message {
        id: 1,
        channel_id: 2,
        thread_id,
        sender: who(),
        content: "hello".to_string(),
        message_type: kind,
        created_at: at(10),
        edited_at: if edited { Some(at(20)) } else { None },
        reply_to_id,
    }
}

#[test]
fn decimal_writes_numbers_as_display_does() {
    assert_eq!(decimal(0), "0");
    assert_eq!(decimal(7), "7");
    assert_eq!(decimal(10), "10");
    assert_eq!(decimal(907), "907");
    assert_eq!(decimal(u64::MAX), u64::MAX.to_string());
}

#[test]
fn plain_message_line() {
    let m = message(MessageType::Text, None, None, false);
    assert_eq!(format_message("alice", &m), "alice: hello");
}

#[test]
fn message_line_with_every_mark() {
    let m = message(MessageType::System, Some(4), Some(35), true);
    assert_eq!(
        format_message("alice", &m),
        "[SYSTEM] alice: hello (thread:4) (reply to:35) (edited)"
    );
    let j = message(MessageType::Join, None, None, false);
    assert_eq!(format_message("bob", &j), "[JOIN] bob: hello");
    let a = message(MessageType::AgentEvent, None, Some(2), false);
    assert_eq!(format_message("bot", &a), "[AGENT] bot: hello (reply to:2)");
}

#[test]
fn direct_message_lines() {
    let mut m = DirectMessage {
        id: 1,
        conversation_id: 3,
        sender: who(),
        content: "hi".to_string(),
        created_at: at(1),
        edited_at: None,
        read: true,
    };
    assert_eq!(format_direct_message("bob", &m), "  bob: hi");
    m.read = false;
    m.edited_at = Some(at(2));
    assert_eq!(format_direct_message("bob", &m), "  bob: hi (edited) [unread]");
}

#[test]
fn conversation_lines_show_unread_counts() {
    assert_eq!(format_conversation(5, "carol", 0), "  [5] carol");
    assert_eq!(format_conversation(5, "carol", 3), "  [5] carol (3 unread)");
}

#[test]
fn server_and_channel_lines_mark_the_selection() {
    let s = Server {
        id: 12,
        name: "Spaces Hub".to_string(),
        description: None,
        icon_url: None,
        owner: who(),
        created_at: at(0),
    };
    assert_eq!(format_server(&s, Some(12)), "  [12] Spaces Hub *");
    assert_eq!(format_server(&s, Some(3)), "  [12] Spaces Hub");
    assert_eq!(format_server(&s, None), "  [12] Spaces Hub");
    let c = Channel {
        id: 8,
        server_id: 12,
        name: "agents".to_string(),
        topic: None,
        channel_type: ChannelType::AgentLog,
        position: 2,
        created_at: at(0),
    };
    assert_eq!(format_channel(&c, Some(8)), "  [8] #agents [agent] *");
    assert_eq!(format_channel(&c, None), "  [8] #agents [agent]");
    assert_eq!(format_startup_channel(&c), "  [8] #agents (AgentLog)");
}

#[test]
fn thread_line_names_its_creator() {
    let t = Thread {
        id: 4,
        channel_id: 8,
        name: "Plans".to_string(),
        creator: who(),
        created_at: at(0),
        archived: false,
        last_message_at: at(0),
    };
    assert_eq!(format_thread(&t, "alice"), "  [4] Plans (by alice)");
}

#[test]
fn member_and_who_lines() {
    assert_eq!(format_member("alice", MemberRole::Owner, Some(true)), "  alice [Owner] (online)");
    assert_eq!(format_member("bob", MemberRole::Moderator, Some(false)), "  bob [Moderator]");
    assert_eq!(format_member("bot", MemberRole::Agent, None), "  bot [Agent]");
    assert_eq!(format_who("alice", &None), "  alice");
    assert_eq!(format_who("alice", &Some(String::new())), "  alice");
    assert_eq!(format_who("alice", &Some("busy".to_string())), "  alice - busy");
}

#[test]
fn presence_changes_are_announced_once() {
    assert_eq!(format_presence_change("alice", false, true), Some("[+] alice came online".to_string()));
    assert_eq!(format_presence_change("alice", true, false), Some("[-] alice went offline".to_string()));
    assert_eq!(format_presence_change("alice", true, true), None);
    assert_eq!(format_presence_change("alice", false, false), None);
}
