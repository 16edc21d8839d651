use spaces::client::{classify_input, ClientState, InputLine};
use spaces::commands::{
    dm_history_marks_read, missing_selection, number_meant_text, parse_command, target_for_message, text_is, usage_text, verb_of, Command, Verb,
};

fn s(t: &str) -> String {
    t.to_string()
}

fn read(line: &str) -> Command {
    match classify_input(line) {
        InputLine::Command { name, arg } => parse_command(&name, &arg),
        _ => panic!("not a command line: {line}"),
    }
}

#[test]
fn verbs_are_read_by_exact_name() {
    assert_eq!(verb_of("/help"), Some(Verb::Help));
    assert_eq!(verb_of("/servers"), Some(Verb::Servers));
    assert_eq!(verb_of("/server"), Some(Verb::Server));
    assert_eq!(verb_of("/dm-history"), Some(Verb::DmHistory));
    assert_eq!(verb_of("/dms"), Some(Verb::Dms));
    assert_eq!(verb_of("/Help"), None);
    assert_eq!(verb_of("/serve"), None);
    assert_eq!(verb_of("help"), None);
}

#[test]
fn text_is_compares_whole_texts() {
    assert!(text_is("abc", "abc"));
    assert!(!text_is("abc", "abd"));
    assert!(!text_is("abc", "ab"));
    assert!(text_is("", ""));
}

#[test]
fn commands_without_arguments() {
    assert_eq!(read("/help"), Command::Help);
    assert_eq!(read("/servers"), Command::ListServers);
    assert_eq!(read("/channels"), Command::ListChannels);
    assert_eq!(read("/threads"), Command::ListThreads);
    assert_eq!(read("/members"), Command::ListMembers);
    assert_eq!(read("/who"), Command::Who);
    assert_eq!(read("/dms"), Command::ListDms);
}

#[test]
fn unknown_command_is_reported_by_its_word() {
    assert_eq!(read("/frobnicate now"), Command::Unknown(s("/frobnicate")));
}

#[test]
fn commands_that_need_an_argument() {
    assert_eq!(read("/name"), Command::Usage(Verb::Name));
    assert_eq!(read("/name   "), Command::Usage(Verb::Name));
    assert_eq!(read("/name alice"), Command::SetName(s("alice")));
    assert_eq!(read("/server"), Command::Usage(Verb::Server));
    assert_eq!(read("/server Spaces Hub"), Command::SelectServer(s("Spaces Hub")));
    assert_eq!(read("/create-server"), Command::Usage(Verb::CreateServer));
    assert_eq!(read("/create-server  Book Club "), Command::CreateServer(s("Book Club")));
    assert_eq!(read("/channel 7"), Command::SelectChannel(s("7")));
    assert_eq!(read("/create-channel random"), Command::CreateChannel(s("random")));
    assert_eq!(read("/create-channel"), Command::Usage(Verb::CreateChannel));
}

#[test]
fn join_and_leave_read_a_server_id() {
    assert_eq!(read("/join 42"), Command::Join(42));
    assert_eq!(read("/join +42"), Command::Join(42));
    assert_eq!(read("/join"), Command::Usage(Verb::Join));
    assert_eq!(read("/join hub"), Command::InvalidNumber(Verb::Join, s("hub")));
    assert_eq!(read("/leave -1"), Command::InvalidNumber(Verb::Leave, s("-1")));
    assert_eq!(read("/leave 3"), Command::Leave(3));
    assert_eq!(
        read("/join 18446744073709551616"),
        Command::InvalidNumber(Verb::Join, s("18446744073709551616"))
    );
}

#[test]
fn thread_takes_a_name_and_a_first_message() {
    assert_eq!(
        read("/thread Plans | let us plan"),
        Command::CreateThread { name: s("Plans"), message: s("let us plan") }
    );
    assert_eq!(
        read("/thread Plans"),
        Command::CreateThread { name: s("Plans"), message: s("Plans") }
    );
    assert_eq!(read("/thread"), Command::Usage(Verb::Thread));
}

#[test]
fn agent_description_defaults() {
    assert_eq!(
        read("/agent helper | answers questions"),
        Command::RegisterAgent { name: s("helper"), description: s("answers questions") }
    );
    assert_eq!(
        read("/agent helper"),
        Command::RegisterAgent { name: s("helper"), description: s("Agent") }
    );
    assert_eq!(read("/agent"), Command::Usage(Verb::Agent));
}

#[test]
fn react_reads_a_message_id_and_an_emoji() {
    assert_eq!(
        read("/react 12 👍"),
        Command::React { message_id: 12, emoji: s("👍") }
    );
    assert_eq!(read("/react 12"), Command::Usage(Verb::React));
    assert_eq!(read("/react"), Command::Usage(Verb::React));
    assert_eq!(read("/react x 👍"), Command::InvalidNumber(Verb::React, s("x")));
}

#[test]
fn history_counts_default_to_twenty_five() {
    assert_eq!(read("/history"), Command::History(25));
    assert_eq!(read("/history 5"), Command::History(5));
    assert_eq!(read("/history many"), Command::History(25));
}

#[test]
fn dm_splits_at_the_first_space() {
    assert_eq!(
        read("/dm bob hello there"),
        Command::Dm { username: s("bob"), content: s("hello there") }
    );
    assert_eq!(read("/dm bob"), Command::Usage(Verb::Dm));
}

#[test]
fn dm_history_reads_an_id_and_a_count() {
    assert_eq!(
        read("/dm-history 4"),
        Command::DmHistory { conversation_id: 4, count: 25 }
    );
    assert_eq!(
        read("/dm-history 4 10"),
        Command::DmHistory { conversation_id: 4, count: 10 }
    );
    assert_eq!(
        read("/dm-history 4 ten"),
        Command::DmHistory { conversation_id: 4, count: 25 }
    );
    assert_eq!(read("/dm-history"), Command::Usage(Verb::DmHistory));
    assert_eq!(
        read("/dm-history abc 3"),
        Command::InvalidNumber(Verb::DmHistory, s("abc"))
    );
}

#[test]
fn usage_and_number_texts() {
    assert_eq!(usage_text(Verb::Join), "Usage: /join <server_id>");
    assert_eq!(usage_text(Verb::Thread), "Usage: /thread <name> | <initial message>");
    assert_eq!(usage_text(Verb::DmHistory), "Usage: /dm-history <conversation_id> [n]");
    assert_eq!(number_meant_text(Verb::Leave), "server ID");
    assert_eq!(number_meant_text(Verb::React), "message ID");
    assert_eq!(number_meant_text(Verb::DmHistory), "conversation ID");
}

#[test]
fn commands_that_need_a_selection() {
    let none = ClientState::new();
    let mut server_only = ClientState::new();
    server_only.select_server(3);
    let mut both = ClientState::new();
    both.select_server(3);
    both.select_channel(9);

    assert_eq!(
        missing_selection(&none, &Command::ListChannels),
        Some("No server selected. Use /server <id> first.")
    );
    assert_eq!(missing_selection(&none, &Command::SelectChannel(s("7"))), Some("No server selected."));
    assert_eq!(missing_selection(&none, &Command::ListMembers), Some("No server selected."));
    assert_eq!(missing_selection(&server_only, &Command::SelectChannel(s("7"))), None);
    assert_eq!(missing_selection(&server_only, &Command::History(25)), Some("No channel selected."));
    assert_eq!(
        missing_selection(&server_only, &Command::CreateThread { name: s("a"), message: s("a") }),
        Some("No channel selected.")
    );
    assert_eq!(missing_selection(&both, &Command::ListThreads), None);
    assert_eq!(missing_selection(&none, &Command::Usage(Verb::Channel)), None);
    assert_eq!(missing_selection(&none, &Command::ListServers), None);

    assert_eq!(target_for_message(&both), Ok(9));
    assert_eq!(
        target_for_message(&server_only),
        Err("No channel selected. Use /channel <id> to select one.")
    );

    assert!(dm_history_marks_read(true, 3));
    assert!(!dm_history_marks_read(true, 0));
    assert!(!dm_history_marks_read(false, 3));
}
