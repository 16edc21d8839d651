use spaces::client::{
    classify_input, history_count, parse_u64, parse_usize, split_name_and_rest, split_once_char,
    trim_ws, ClientState, InputLine,
};
use spaces::db::{Database, ReducerContext};
use spaces::identity::{Identity, Timestamp};
use spaces::lifecycle::{client_connected, init};
use spaces::tables::{Channel, DirectConversation, DirectMessage, Message, Thread};
use spaces::types::{ChannelType, MessageType};
use spaces::views::{
    active_threads, channel_tag_str, channels_by_position, conversations_by_recency, display_name,
    find_channel_for_selection, find_server_for_selection, first_text_channel, initial_selection,
    members_of_server, message_prefix_str, online_users, other_participant,
    recent_channel_messages, recent_conversation_messages, unread_count,
};

fn id(n: u128) -> Identity {
    Identity { hi: n, lo: n }
}

fn at(t: i64) -> Timestamp {
    Timestamp { micros_since_unix_epoch: t }
}

fn msg(id: u64, channel_id: u64, thread_id: Option<u64>, t: i64, content: &str) -> Message {
    Message {
        id,
        channel_id,
        thread_id,
        sender: Identity { hi: 1, lo: 1 },
        content: content.to_string(),
        message_type: MessageType::Text,
        created_at: at(t),
        edited_at: None,
        reply_to_id: None,
    }
}

fn chan(id: u64, server_id: u64, name: &str, kind: ChannelType, position: u32) -> Channel {
    Channel {
        id,
        server_id,
        name: name.to_string(),
        topic: None,
        channel_type: kind,
        position,
        created_at: at(0),
    }
}

#[test]
fn selection_state() {
    let mut s = ClientState::new();
    assert_eq!(s.current_server(), None);
    assert_eq!(s.current_channel(), None);
    s.select_server(3);
    s.select_channel(7);
    assert_eq!(s.current_server(), Some(3));
    assert_eq!(s.current_channel(), Some(7));
    s.select_server(4);
    assert_eq!(s.current_server(), Some(4));
    assert_eq!(s.current_channel(), None);
}

#[test]
fn input_lines() {
    assert!(matches!(classify_input("   "), InputLine::Empty));
    match classify_input("  /join   12  ") {
        InputLine::Command { name, arg } => {
            assert_eq!(name, "/join");
            assert_eq!(arg, "12");
        }
        _ => panic!("expected a command"),
    }
    match classify_input("/help") {
        InputLine::Command { name, arg } => {
            assert_eq!(name, "/help");
            assert_eq!(arg, "");
        }
        _ => panic!("expected a command"),
    }
    match classify_input("\u{3000}hello there\t") {
        InputLine::Text(t) => assert_eq!(t, "hello there"),
        _ => panic!("expected text"),
    }
}

#[test]
fn trimming_and_splitting() {
    assert_eq!(trim_ws(" \t\n x y \r\n"), "x y");
    assert_eq!(trim_ws("\u{a0}\u{2003}z\u{205f}"), "z");
    assert_eq!(trim_ws("   "), "");
    assert_eq!(split_once_char("a b c", ' '), ("a".to_string(), Some("b c".to_string())));
    assert_eq!(split_once_char("abc", ' '), ("abc".to_string(), None));
    assert_eq!(split_once_char(" x", ' '), ("".to_string(), Some("x".to_string())));
    assert_eq!(
        split_name_and_rest(" Design | first post "),
        ("Design".to_string(), Some("first post".to_string()))
    );
    assert_eq!(split_name_and_rest("bot"), ("bot".to_string(), None));
}

#[test]
fn numbers_parse_like_str_parse() {
    assert_eq!(parse_u64("42"), Some(42));
    assert_eq!(parse_u64("+42"), Some(42));
    assert_eq!(parse_u64("007"), Some(7));
    assert_eq!(parse_u64("18446744073709551615"), Some(u64::MAX));
    assert_eq!(parse_u64("18446744073709551616"), None);
    assert_eq!(parse_u64(""), None);
    assert_eq!(parse_u64("+"), None);
    assert_eq!(parse_u64("-1"), None);
    assert_eq!(parse_u64("1a"), None);
    assert_eq!(parse_u64(" 1"), None);
    for s in ["0", "9", "+3", "123456789", "", "x", "99999999999999999999"] {
        assert_eq!(parse_u64(s), s.parse::<u64>().ok());
        assert_eq!(parse_usize(s), s.parse::<usize>().ok());
    }
    assert_eq!(history_count("10"), 10);
    assert_eq!(history_count(""), 25);
    assert_eq!(history_count("ten"), 25);
}

#[test]
fn recent_messages_are_the_latest_in_time_order() {
    let messages = vec![
        msg(1, 1, None, 30, "c"),
        msg(2, 1, None, 10, "a"),
        msg(3, 2, None, 5, "other channel"),
        msg(4, 1, Some(9), 1, "in thread"),
        msg(5, 1, None, 20, "b1"),
        msg(6, 1, None, 20, "b2"),
    ];
    let all: Vec<String> = recent_channel_messages(&messages, 1, 25).into_iter().map(|m| m.content).collect();
    assert_eq!(all, vec!["a", "b1", "b2", "c"]);
    let last2: Vec<String> = recent_channel_messages(&messages, 1, 2).into_iter().map(|m| m.content).collect();
    assert_eq!(last2, vec!["b2", "c"]);
    assert!(recent_channel_messages(&messages, 1, 0).is_empty());
    assert!(recent_channel_messages(&messages, 7, 5).is_empty());
}

#[test]
fn conversation_views() {
    let me = id(1);
    let convs = vec![
        DirectConversation { id: 1, participant_a: me, participant_b: id(2), created_at: at(0), last_message_at: at(5) },
        DirectConversation { id: 2, participant_a: id(2), participant_b: id(3), created_at: at(0), last_message_at: at(9) },
        DirectConversation { id: 3, participant_a: id(4), participant_b: me, created_at: at(0), last_message_at: at(7) },
        DirectConversation { id: 4, participant_a: me, participant_b: id(5), created_at: at(0), last_message_at: at(7) },
    ];
    let ids: Vec<u64> = conversations_by_recency(&convs, me).iter().map(|c| c.id).collect();
    assert_eq!(ids, vec![3, 4, 1]);
    assert_eq!(other_participant(&convs[0], me), id(2));
    assert_eq!(other_participant(&convs[2], me), id(4));

    let dm = |id: u64, conv: u64, sender: Identity, t: i64, read: bool| DirectMessage {
        id,
        conversation_id: conv,
        sender,
        content: format!("m{}", id),
        created_at: at(t),
        edited_at: None,
        read,
    };
    let dms = vec![
        dm(1, 1, id(2), 3, false),
        dm(2, 1, me, 1, false),
        dm(3, 1, id(2), 2, true),
        dm(4, 3, id(4), 1, false),
        dm(5, 1, id(2), 4, false),
    ];
    assert_eq!(unread_count(&dms, 1, me), 2);
    assert_eq!(unread_count(&dms, 3, me), 1);
    assert_eq!(unread_count(&dms, 1, id(2)), 1);
    let hist: Vec<u64> = recent_conversation_messages(&dms, 1, 3).iter().map(|m| m.id).collect();
    assert_eq!(hist, vec![3, 1, 5]);
}

#[test]
fn channel_views() {
    let channels = vec![
        chan(1, 1, "general", ChannelType::Text, 0),
        chan(2, 2, "voice", ChannelType::Voice, 0),
        chan(3, 2, "Random", ChannelType::Text, 5),
        chan(4, 2, "news", ChannelType::Announcement, 1),
        chan(5, 2, "logs", ChannelType::AgentLog, 1),
    ];
    let ordered: Vec<u64> = channels_by_position(&channels, 2).iter().map(|c| c.id).collect();
    assert_eq!(ordered, vec![2, 4, 5, 3]);
    assert_eq!(first_text_channel(&channels, 2), Some(2));
    assert_eq!(first_text_channel(&channels, 9), None);
    assert_eq!(find_channel_for_selection(&channels, 2, "random"), Some(2));
    assert_eq!(find_channel_for_selection(&channels, 1, "random"), None);
    assert_eq!(find_channel_for_selection(&channels, 1, "4"), Some(3));
    assert_eq!(channel_tag_str(ChannelType::Voice), " [voice]");
    assert_eq!(channel_tag_str(ChannelType::Text), "");
    assert_eq!(message_prefix_str(MessageType::Join), "[JOIN] ");
    assert_eq!(message_prefix_str(MessageType::Text), "");

    let threads = vec![
        Thread { id: 1, channel_id: 1, name: "a".to_string(), creator: id(1), created_at: at(0), archived: false, last_message_at: at(0) },
        Thread { id: 2, channel_id: 1, name: "b".to_string(), creator: id(1), created_at: at(0), archived: true, last_message_at: at(0) },
        Thread { id: 3, channel_id: 2, name: "c".to_string(), creator: id(1), created_at: at(0), archived: false, last_message_at: at(0) },
    ];
    let open: Vec<u64> = active_threads(&threads, 1).iter().map(|t| t.id).collect();
    assert_eq!(open, vec![1]);
}

#[test]
fn startup_and_server_selection() {
    let mut ctx = ReducerContext::new(Database::new(), id(1), at(1));
    init(&mut ctx);
    client_connected(&mut ctx);
    ctx.sender = id(2);
    client_connected(&mut ctx);
    let state = initial_selection(&ctx.db.server, &ctx.db.channel);
    assert_eq!(state.current_server(), Some(1));
    assert_eq!(state.current_channel(), Some(1));
    assert_eq!(initial_selection(&Vec::new(), &ctx.db.channel).current_server(), None);

    assert_eq!(find_server_for_selection(&ctx.db.server, "SPACES hub"), Some(0));
    assert_eq!(find_server_for_selection(&ctx.db.server, "1"), Some(0));
    assert_eq!(find_server_for_selection(&ctx.db.server, "2"), None);
    assert_eq!(find_server_for_selection(&ctx.db.server, "elsewhere"), None);

    assert_eq!(members_of_server(&ctx.db.server_member, 1).len(), 2);
    assert_eq!(online_users(&ctx.db.user_presence).len(), 2);
    assert_eq!(display_name(&ctx.db.user_profile, id(2)).unwrap(), "user_00000000");
    assert_eq!(display_name(&ctx.db.user_profile, id(9)), None);
}
