//! The slash commands of the command-line client: which command a line names,
//! and what its argument asks for, before any table is read.
use vstd::prelude::*;

use crate::client::{
    selected, ClientState,
    history_count, history_count_of, name_and_rest, parse_u64, parsed_number,
    split_first, split_name_and_rest, split_once_char,
};

verus! {

/// The commands the client knows.
#[derive(Clone, Copy, Debug, PartialEq, Eq, Structural)]
pub enum Verb {
    Help,
    Name,
    Servers,
    Server,
    Join,
    Leave,
    CreateServer,
    Channels,
    Channel,
    CreateChannel,
    Threads,
    Thread,
    Members,
    React,
    Agent,
    Who,
    History,
    Dm,
    Dms,
    DmHistory,
}

/// The command a word names, if any.
pub open spec fn verb_named(word: Seq<char>) -> Option<Verb> {
    if word == "/help"@ {
        Some(Verb::Help)
    } else if word == "/name"@ {
        Some(Verb::Name)
    } else if word == "/servers"@ {
        Some(Verb::Servers)
    } else if word == "/server"@ {
        Some(Verb::Server)
    } else if word == "/join"@ {
        Some(Verb::Join)
    } else if word == "/leave"@ {
        Some(Verb::Leave)
    } else if word == "/create-server"@ {
        Some(Verb::CreateServer)
    } else if word == "/channels"@ {
        Some(Verb::Channels)
    } else if word == "/channel"@ {
        Some(Verb::Channel)
    } else if word == "/create-channel"@ {
        Some(Verb::CreateChannel)
    } else if word == "/threads"@ {
        Some(Verb::Threads)
    } else if word == "/thread"@ {
        Some(Verb::Thread)
    } else if word == "/members"@ {
        Some(Verb::Members)
    } else if word == "/react"@ {
        Some(Verb::React)
    } else if word == "/agent"@ {
        Some(Verb::Agent)
    } else if word == "/who"@ {
        Some(Verb::Who)
    } else if word == "/history"@ {
        Some(Verb::History)
    } else if word == "/dm"@ {
        Some(Verb::Dm)
    } else if word == "/dms"@ {
        Some(Verb::Dms)
    } else if word == "/dm-history"@ {
        Some(Verb::DmHistory)
    } else {
        None
    }
}

/// Whether two texts are the same.
pub fn text_is(a: &str, b: &str) -> (r: bool)
    ensures
        r == (a@ == b@),
{
    let n = a.unicode_len();
    if n != b.unicode_len() {
        return false;
    }
    let mut i: usize = 0;
    while i < n
        invariant
            n == a@.len(),
            n == b@.len(),
            i <= n,
            forall|j: int| 0 <= j < i ==> a@[j] == b@[j],
        decreases n - i,
    {
        if a.get_char(i) != b.get_char(i) {
            return false;
        }
        i = i + 1;
    }
    assert(a@ =~= b@);
    true
}

pub fn verb_of(word: &str) -> (r: Option<Verb>)
    ensures
        r == verb_named(word@),
{
    if text_is(word, "/help") {
        Some(Verb::Help)
    } else if text_is(word, "/name") {
        Some(Verb::Name)
    } else if text_is(word, "/servers") {
        Some(Verb::Servers)
    } else if text_is(word, "/server") {
        Some(Verb::Server)
    } else if text_is(word, "/join") {
        Some(Verb::Join)
    } else if text_is(word, "/leave") {
        Some(Verb::Leave)
    } else if text_is(word, "/create-server") {
        Some(Verb::CreateServer)
    } else if text_is(word, "/channels") {
        Some(Verb::Channels)
    } else if text_is(word, "/channel") {
        Some(Verb::Channel)
    } else if text_is(word, "/create-channel") {
        Some(Verb::CreateChannel)
    } else if text_is(word, "/threads") {
        Some(Verb::Threads)
    } else if text_is(word, "/thread") {
        Some(Verb::Thread)
    } else if text_is(word, "/members") {
        Some(Verb::Members)
    } else if text_is(word, "/react") {
        Some(Verb::React)
    } else if text_is(word, "/agent") {
        Some(Verb::Agent)
    } else if text_is(word, "/who") {
        Some(Verb::Who)
    } else if text_is(word, "/history") {
        Some(Verb::History)
    } else if text_is(word, "/dm") {
        Some(Verb::Dm)
    } else if text_is(word, "/dms") {
        Some(Verb::Dms)
    } else if text_is(word, "/dm-history") {
        Some(Verb::DmHistory)
    } else {
        None
    }
}

/// What a command line asks for, read from its argument alone.
#[derive(Debug, PartialEq, Eq)]
pub enum Command {
    Help,
    SetName(String),
    ListServers,
    SelectServer(String),
    Join(u64),
    Leave(u64),
    CreateServer(String),
    ListChannels,
    SelectChannel(String),
    CreateChannel(String),
    ListThreads,
    CreateThread { name: String, message: String },
    ListMembers,
    React { message_id: u64, emoji: String },
    RegisterAgent { name: String, description: String },
    Who,
    History(usize),
    Dm { username: String, content: String },
    ListDms,
    DmHistory { conversation_id: u64, count: usize },
    /// The command needs an argument, or one of another shape.
    Usage(Verb),
    /// The command wants a number where the text given is none.
    InvalidNumber(Verb, String),
    /// No command has this name.
    Unknown(String),
}

/// A command, its texts taken as character sequences.
pub enum CommandView {
    Help,
    SetName(Seq<char>),
    ListServers,
    SelectServer(Seq<char>),
    Join(u64),
    Leave(u64),
    CreateServer(Seq<char>),
    ListChannels,
    SelectChannel(Seq<char>),
    CreateChannel(Seq<char>),
    ListThreads,
    CreateThread { name: Seq<char>, message: Seq<char> },
    ListMembers,
    React { message_id: u64, emoji: Seq<char> },
    RegisterAgent { name: Seq<char>, description: Seq<char> },
    Who,
    History(usize),
    Dm { username: Seq<char>, content: Seq<char> },
    ListDms,
    DmHistory { conversation_id: u64, count: usize },
    Usage(Verb),
    InvalidNumber(Verb, Seq<char>),
    Unknown(Seq<char>),
}

impl View for Command {
    type V = CommandView;

    open spec fn view(&self) -> CommandView {
        match self {
            Command::Help => CommandView::Help,
            Command::SetName(n) => CommandView::SetName(n@),
            Command::ListServers => CommandView::ListServers,
            Command::SelectServer(a) => CommandView::SelectServer(a@),
            Command::Join(id) => CommandView::Join(*id),
            Command::Leave(id) => CommandView::Leave(*id),
            Command::CreateServer(n) => CommandView::CreateServer(n@),
            Command::ListChannels => CommandView::ListChannels,
            Command::SelectChannel(a) => CommandView::SelectChannel(a@),
            Command::CreateChannel(n) => CommandView::CreateChannel(n@),
            Command::ListThreads => CommandView::ListThreads,
            Command::CreateThread { name, message } => CommandView::CreateThread {
                name: name@,
                message: message@,
            },
            Command::ListMembers => CommandView::ListMembers,
            Command::React { message_id, emoji } => CommandView::React {
                message_id: *message_id,
                emoji: emoji@,
            },
            Command::RegisterAgent { name, description } => CommandView::RegisterAgent {
                name: name@,
                description: description@,
            },
            Command::Who => CommandView::Who,
            Command::History(n) => CommandView::History(*n),
            Command::Dm { username, content } => CommandView::Dm {
                username: username@,
                content: content@,
            },
            Command::ListDms => CommandView::ListDms,
            Command::DmHistory { conversation_id, count } => CommandView::DmHistory {
                conversation_id: *conversation_id,
                count: *count,
            },
            Command::Usage(v) => CommandView::Usage(*v),
            Command::InvalidNumber(v, t) => CommandView::InvalidNumber(*v, t@),
            Command::Unknown(w) => CommandView::Unknown(w@),
        }
    }
}

/// A number in a command's argument, as the client reads one.
pub open spec fn number_in(text: Seq<char>) -> Option<u64> {
    match parsed_number(text, u64::MAX as nat) {
        Some(n) => Some(n as u64),
        None => None,
    }
}

/// What a known command asks for, given its (trimmed) argument.
pub open spec fn command_for(verb: Verb, arg: Seq<char>) -> CommandView {
    match verb {
        Verb::Help => CommandView::Help,
        Verb::Servers => CommandView::ListServers,
        Verb::Channels => CommandView::ListChannels,
        Verb::Threads => CommandView::ListThreads,
        Verb::Members => CommandView::ListMembers,
        Verb::Who => CommandView::Who,
        Verb::Dms => CommandView::ListDms,
        Verb::History => CommandView::History(history_count_of(arg) as usize),
        Verb::Name => if arg.len() == 0 {
            CommandView::Usage(verb)
        } else {
            CommandView::SetName(arg)
        },
        Verb::Server => if arg.len() == 0 {
            CommandView::Usage(verb)
        } else {
            CommandView::SelectServer(arg)
        },
        Verb::CreateServer => if arg.len() == 0 {
            CommandView::Usage(verb)
        } else {
            CommandView::CreateServer(arg)
        },
        Verb::Channel => if arg.len() == 0 {
            CommandView::Usage(verb)
        } else {
            CommandView::SelectChannel(arg)
        },
        Verb::CreateChannel => if arg.len() == 0 {
            CommandView::Usage(verb)
        } else {
            CommandView::CreateChannel(arg)
        },
        Verb::Join => if arg.len() == 0 {
            CommandView::Usage(verb)
        } else {
            match number_in(arg) {
                Some(id) => CommandView::Join(id),
                None => CommandView::InvalidNumber(verb, arg),
            }
        },
        Verb::Leave => if arg.len() == 0 {
            CommandView::Usage(verb)
        } else {
            match number_in(arg) {
                Some(id) => CommandView::Leave(id),
                None => CommandView::InvalidNumber(verb, arg),
            }
        },
        Verb::Thread => if arg.len() == 0 {
            CommandView::Usage(verb)
        } else {
            let (name, rest) = name_and_rest(arg);
            CommandView::CreateThread {
                name,
                message: match rest {
                    Some(m) => m,
                    None => name,
                },
            }
        },
        Verb::Agent => if arg.len() == 0 {
            CommandView::Usage(verb)
        } else {
            let (name, rest) = name_and_rest(arg);
            CommandView::RegisterAgent {
                name,
                description: match rest {
                    Some(d) => d,
                    None => "Agent"@,
                },
            }
        },
        Verb::React => {
            let (first, rest) = split_first(arg, ' ');
            match rest {
                None => CommandView::Usage(verb),
                Some(emoji) => match number_in(first) {
                    Some(id) => CommandView::React { message_id: id, emoji },
                    None => CommandView::InvalidNumber(verb, first),
                },
            }
        },
        Verb::Dm => {
            let (first, rest) = split_first(arg, ' ');
            match rest {
                None => CommandView::Usage(verb),
                Some(content) => CommandView::Dm { username: first, content },
            }
        },
        Verb::DmHistory => {
            let (first, rest) = split_first(arg, ' ');
            if first.len() == 0 {
                CommandView::Usage(verb)
            } else {
                match number_in(first) {
                    None => CommandView::InvalidNumber(verb, first),
                    Some(id) => CommandView::DmHistory {
                        conversation_id: id,
                        count: match rest {
                            Some(r) => history_count_of(r) as usize,
                            None => 25,
                        },
                    },
                }
            }
        },
    }
}

/// What a command line asks for: an unknown word is reported as such.
pub open spec fn command_of(word: Seq<char>, arg: Seq<char>) -> CommandView {
    match verb_named(word) {
        Some(v) => command_for(v, arg),
        None => CommandView::Unknown(word),
    }
}

/// Reads a command's argument as `command_for` says.
pub fn command_from(verb: Verb, arg: &str) -> (c: Command)
    ensures
        c@ == command_for(verb, arg@),
{
    let empty = arg.unicode_len() == 0;
    match verb {
        Verb::Help => Command::Help,
        Verb::Servers => Command::ListServers,
        Verb::Channels => Command::ListChannels,
        Verb::Threads => Command::ListThreads,
        Verb::Members => Command::ListMembers,
        Verb::Who => Command::Who,
        Verb::Dms => Command::ListDms,
        Verb::History => Command::History(history_count(arg)),
        Verb::Name => if empty {
            Command::Usage(verb)
        } else {
            Command::SetName(String::from_str(arg))
        },
        Verb::Server => if empty {
            Command::Usage(verb)
        } else {
            Command::SelectServer(String::from_str(arg))
        },
        Verb::CreateServer => if empty {
            Command::Usage(verb)
        } else {
            Command::CreateServer(String::from_str(arg))
        },
        Verb::Channel => if empty {
            Command::Usage(verb)
        } else {
            Command::SelectChannel(String::from_str(arg))
        },
        Verb::CreateChannel => if empty {
            Command::Usage(verb)
        } else {
            Command::CreateChannel(String::from_str(arg))
        },
        Verb::Join => if empty {
            Command::Usage(verb)
        } else {
            match parse_u64(arg) {
                Some(id) => Command::Join(id),
                None => Command::InvalidNumber(verb, String::from_str(arg)),
            }
        },
        Verb::Leave => if empty {
            Command::Usage(verb)
        } else {
            match parse_u64(arg) {
                Some(id) => Command::Leave(id),
                None => Command::InvalidNumber(verb, String::from_str(arg)),
            }
        },
        Verb::Thread => if empty {
            Command::Usage(verb)
        } else {
            let (name, rest) = split_name_and_rest(arg);
            let message = match rest {
                Some(m) => m,
                None => name.clone(),
            };
            Command::CreateThread { name, message }
        },
        Verb::Agent => if empty {
            Command::Usage(verb)
        } else {
            let (name, rest) = split_name_and_rest(arg);
            let description = match rest {
                Some(d) => d,
                None => String::from_str("Agent"),
            };
            Command::RegisterAgent { name, description }
        },
        Verb::React => {
            let (first, rest) = split_once_char(arg, ' ');
            match rest {
                None => Command::Usage(verb),
                Some(emoji) => match parse_u64(first.as_str()) {
                    Some(id) => Command::React { message_id: id, emoji },
                    None => Command::InvalidNumber(verb, first),
                },
            }
        },
        Verb::Dm => {
            let (first, rest) = split_once_char(arg, ' ');
            match rest {
                None => Command::Usage(verb),
                Some(content) => Command::Dm { username: first, content },
            }
        },
        Verb::DmHistory => {
            let (first, rest) = split_once_char(arg, ' ');
            if first.as_str().unicode_len() == 0 {
                Command::Usage(verb)
            } else {
                match parse_u64(first.as_str()) {
                    None => Command::InvalidNumber(verb, first),
                    Some(id) => {
                        let count = match rest {
                            Some(r) => history_count(r.as_str()),
                            None => 25,
                        };
                        Command::DmHistory { conversation_id: id, count }
                    },
                }
            }
        },
    }
}

/// Reads a command line split into its first word and its trimmed argument,
/// as the client's dispatcher does.
pub fn parse_command(word: &str, arg: &str) -> (c: Command)
    ensures
        c@ == command_of(word@, arg@),
{
    match verb_of(word) {
        Some(v) => command_from(v, arg),
        None => Command::Unknown(String::from_str(word)),
    }
}

/// The usage line printed for a command given a wrong argument.
pub open spec fn usage_of(verb: Verb) -> Seq<char> {
    match verb {
        Verb::Name => "Usage: /name <username>"@,
        Verb::Server => "Usage: /server <id>"@,
        Verb::Join => "Usage: /join <server_id>"@,
        Verb::Leave => "Usage: /leave <server_id>"@,
        Verb::CreateServer => "Usage: /create-server <name>"@,
        Verb::Channel => "Usage: /channel <id>"@,
        Verb::CreateChannel => "Usage: /create-channel <name>"@,
        Verb::Thread => "Usage: /thread <name> | <initial message>"@,
        Verb::React => "Usage: /react <message_id> <emoji>"@,
        Verb::Agent => "Usage: /agent <name> | <description>"@,
        Verb::Dm => "Usage: /dm <username> <message>"@,
        Verb::DmHistory => "Usage: /dm-history <conversation_id> [n]"@,
        _ => "Type /help for available commands."@,
    }
}

pub fn usage_text(verb: Verb) -> (s: &'static str)
    ensures
        s@ == usage_of(verb),
{
    match verb {
        Verb::Name => "Usage: /name <username>",
        Verb::Server => "Usage: /server <id>",
        Verb::Join => "Usage: /join <server_id>",
        Verb::Leave => "Usage: /leave <server_id>",
        Verb::CreateServer => "Usage: /create-server <name>",
        Verb::Channel => "Usage: /channel <id>",
        Verb::CreateChannel => "Usage: /create-channel <name>",
        Verb::Thread => "Usage: /thread <name> | <initial message>",
        Verb::React => "Usage: /react <message_id> <emoji>",
        Verb::Agent => "Usage: /agent <name> | <description>",
        Verb::Dm => "Usage: /dm <username> <message>",
        Verb::DmHistory => "Usage: /dm-history <conversation_id> [n]",
        _ => "Type /help for available commands.",
    }
}

/// What a number that does not read was meant to be.
pub open spec fn number_meant(verb: Verb) -> Seq<char> {
    match verb {
        Verb::React => "message ID"@,
        Verb::DmHistory => "conversation ID"@,
        _ => "server ID"@,
    }
}

pub fn number_meant_text(verb: Verb) -> (s: &'static str)
    ensures
        s@ == number_meant(verb),
{
    match verb {
        Verb::React => "message ID",
        Verb::DmHistory => "conversation ID",
        _ => "server ID",
    }
}

// ---------------------------------------------------------------------------
// What a command needs selected
// ---------------------------------------------------------------------------

/// What the client says instead of running a command that needs an active
/// server or channel it does not have; `None` when the command can run.
pub open spec fn selection_missing(server: Option<u64>, channel: Option<u64>, cmd: CommandView) -> Option<
    Seq<char>,
> {
    match cmd {
        CommandView::ListChannels => if server is None {
            Some("No server selected. Use /server <id> first."@)
        } else {
            None
        },
        CommandView::SelectChannel(_) | CommandView::CreateChannel(_) | CommandView::ListMembers => if server is None {
            Some("No server selected."@)
        } else {
            None
        },
        CommandView::ListThreads | CommandView::CreateThread { .. } | CommandView::History(_) => if channel is None {
            Some("No channel selected."@)
        } else {
            None
        },
        _ => None,
    }
}

pub fn missing_selection(state: &ClientState, cmd: &Command) -> (r: Option<&'static str>)
    ensures
        match r {
            Some(t) => selection_missing(selected(state.server_id), selected(state.channel_id), cmd@)
                == Some(t@),
            None => selection_missing(selected(state.server_id), selected(state.channel_id), cmd@) is None,
        },
{
    let server = state.current_server();
    let channel = state.current_channel();
    match cmd {
        Command::ListChannels => if server.is_none() {
            Some("No server selected. Use /server <id> first.")
        } else {
            None
        },
        Command::SelectChannel(_) | Command::CreateChannel(_) | Command::ListMembers => if server.is_none() {
            Some("No server selected.")
        } else {
            None
        },
        Command::ListThreads | Command::CreateThread { .. } | Command::History(_) => if channel.is_none() {
            Some("No channel selected.")
        } else {
            None
        },
        _ => None,
    }
}

/// Where a typed message goes: the active channel, or the hint shown when
/// none is active.
pub open spec fn message_target(channel: Option<u64>) -> Result<u64, Seq<char>> {
    match channel {
        Some(c) => Ok(c),
        None => Err("No channel selected. Use /channel <id> to select one."@),
    }
}

pub fn target_for_message(state: &ClientState) -> (r: Result<u64, &'static str>)
    ensures
        match r {
            Ok(c) => message_target(selected(state.channel_id)) == Ok::<u64, Seq<char>>(c),
            Err(t) => message_target(selected(state.channel_id)) == Err::<u64, Seq<char>>(t@),
        },
{
    match state.current_channel() {
        Some(c) => Ok(c),
        None => Err("No channel selected. Use /channel <id> to select one."),
    }
}

/// A conversation's history marks it read only when the conversation exists
/// and at least one message was shown.
pub fn dm_history_marks_read(exists: bool, shown: usize) -> (r: bool)
    ensures
        r == (exists && shown > 0),
{
    exists && shown > 0
}

} // verus!
