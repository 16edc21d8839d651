//! The lines the command-line client prints for the rows it shows.
use vstd::prelude::*;

use crate::tables::{Channel, DirectMessage, Message, Server, Thread};
use crate::types::{ChannelType, MemberRole};
use crate::views::{channel_tag, channel_tag_str, message_prefix, message_prefix_str};

verus! {

// ---------------------------------------------------------------------------
// Numbers
// ---------------------------------------------------------------------------

/// The character of a decimal digit.
pub open spec fn digit_char(d: nat) -> char {
    if d == 0 {
        '0'
    } else if d == 1 {
        '1'
    } else if d == 2 {
        '2'
    } else if d == 3 {
        '3'
    } else if d == 4 {
        '4'
    } else if d == 5 {
        '5'
    } else if d == 6 {
        '6'
    } else if d == 7 {
        '7'
    } else if d == 8 {
        '8'
    } else {
        '9'
    }
}

/// A number written in decimal, without leading zeros.
pub open spec fn decimal_text(n: nat) -> Seq<char>
    decreases n,
{
    if n < 10 {
        seq![digit_char(n)]
    } else {
        decimal_text(n / 10).push(digit_char(n % 10))
    }
}

fn digit_str(d: u64) -> (s: &'static str)
    requires
        d < 10,
    ensures
        s@ == seq![digit_char(d as nat)],
{
    proof {
        reveal_strlit("0");
        reveal_strlit("1");
        reveal_strlit("2");
        reveal_strlit("3");
        reveal_strlit("4");
        reveal_strlit("5");
        reveal_strlit("6");
        reveal_strlit("7");
        reveal_strlit("8");
        reveal_strlit("9");
    }
    if d == 0 {
        "0"
    } else if d == 1 {
        "1"
    } else if d == 2 {
        "2"
    } else if d == 3 {
        "3"
    } else if d == 4 {
        "4"
    } else if d == 5 {
        "5"
    } else if d == 6 {
        "6"
    } else if d == 7 {
        "7"
    } else if d == 8 {
        "8"
    } else {
        "9"
    }
}

/// Writes a number in decimal, as `{}` formats it.
pub fn decimal(n: u64) -> (s: String)
    ensures
        s@ == decimal_text(n as nat),
    decreases n,
{
    if n < 10 {
        String::from_str(digit_str(n))
    } else {
        let mut s = decimal(n / 10);
        s.append(digit_str(n % 10));
        s
    }
}

// ---------------------------------------------------------------------------
// Channel messages
// ---------------------------------------------------------------------------

/// ` (thread:N)` for a message in a thread.
pub open spec fn thread_mark(thread_id: Option<u64>) -> Seq<char> {
    match thread_id {
        Some(t) => " (thread:"@ + decimal_text(t as nat) + ")"@,
        None => Seq::empty(),
    }
}

/// ` (reply to:N)` for a reply.
pub open spec fn reply_mark(reply_to_id: Option<u64>) -> Seq<char> {
    match reply_to_id {
        Some(r) => " (reply to:"@ + decimal_text(r as nat) + ")"@,
        None => Seq::empty(),
    }
}

/// ` (edited)` for an edited message.
pub open spec fn edited_mark(edited: bool) -> Seq<char> {
    if edited {
        " (edited)"@
    } else {
        Seq::empty()
    }
}

/// The line shown for a channel message: its kind's tag, the sender's name,
/// the content, and marks for a thread, a reply and an edit.
pub open spec fn message_line(sender: Seq<char>, m: Message) -> Seq<char> {
    message_prefix(m.message_type) + sender + ": "@ + m.content@ + thread_mark(m.thread_id)
        + reply_mark(m.reply_to_id) + edited_mark(m.edited_at is Some)
}

fn push_number_mark(s: &mut String, open: &str, n: u64)
    ensures
        final(s)@ == old(s)@ + open@ + decimal_text(n as nat) + ")"@,
{
    s.append(open);
    let digits = decimal(n);
    s.append(digits.as_str());
    s.append(")");
}

pub fn format_message(sender: &str, m: &Message) -> (s: String)
    ensures
        s@ == message_line(sender@, *m),
{
    let mut s = String::from_str(message_prefix_str(m.message_type));
    s.append(sender);
    s.append(": ");
    s.append(m.content.as_str());
    let ghost base = s@;
    match m.thread_id {
        Some(t) => push_number_mark(&mut s, " (thread:", t),
        None => {},
    }
    assert(s@ == base + thread_mark(m.thread_id));
    let ghost base = s@;
    match m.reply_to_id {
        Some(r) => push_number_mark(&mut s, " (reply to:", r),
        None => {},
    }
    assert(s@ == base + reply_mark(m.reply_to_id));
    let ghost base = s@;
    if m.edited_at.is_some() {
        s.append(" (edited)");
    }
    assert(s@ == base + edited_mark(m.edited_at is Some));
    s
}

// ---------------------------------------------------------------------------
// Direct messages and conversations
// ---------------------------------------------------------------------------

/// The line shown for a direct message in a conversation's history.
pub open spec fn direct_message_line(sender: Seq<char>, m: DirectMessage) -> Seq<char> {
    "  "@ + sender + ": "@ + m.content@ + edited_mark(m.edited_at is Some) + (if m.read {
        Seq::empty()
    } else {
        " [unread]"@
    })
}

pub fn format_direct_message(sender: &str, m: &DirectMessage) -> (s: String)
    ensures
        s@ == direct_message_line(sender@, *m),
{
    let mut s = String::from_str("  ");
    s.append(sender);
    s.append(": ");
    s.append(m.content.as_str());
    if m.edited_at.is_some() {
        s.append(" (edited)");
    }
    if !m.read {
        s.append(" [unread]");
    }
    s
}

/// The line listing a conversation: its id, the other participant, and how
/// many of their messages are unread, when any are.
pub open spec fn conversation_line(id: u64, other: Seq<char>, unread: nat) -> Seq<char> {
    "  ["@ + decimal_text(id as nat) + "] "@ + other + (if unread > 0 {
        " ("@ + decimal_text(unread) + " unread)"@
    } else {
        Seq::empty()
    })
}

pub fn format_conversation(id: u64, other: &str, unread: usize) -> (s: String)
    ensures
        s@ == conversation_line(id, other@, unread as nat),
{
    let mut s = String::from_str("  [");
    let digits = decimal(id);
    s.append(digits.as_str());
    s.append("] ");
    s.append(other);
    if unread > 0 {
        s.append(" (");
        let count = decimal(unread as u64);
        s.append(count.as_str());
        s.append(" unread)");
    }
    s
}

// ---------------------------------------------------------------------------
// Servers, channels, threads
// ---------------------------------------------------------------------------

/// ` *` after the row that is selected.
pub open spec fn selected_mark(selected: Option<u64>, id: u64) -> Seq<char> {
    if selected == Some(id) {
        " *"@
    } else {
        Seq::empty()
    }
}

/// The line listing a server.
pub open spec fn server_line(s: Server, selected: Option<u64>) -> Seq<char> {
    "  ["@ + decimal_text(s.id as nat) + "] "@ + s.name@ + selected_mark(selected, s.id)
}

pub fn format_server(s: &Server, selected: Option<u64>) -> (r: String)
    ensures
        r@ == server_line(*s, selected),
{
    let mut r = String::from_str("  [");
    let digits = decimal(s.id);
    r.append(digits.as_str());
    r.append("] ");
    r.append(s.name.as_str());
    if selected == Some(s.id) {
        r.append(" *");
    }
    r
}

/// The line listing a channel of the active server.
pub open spec fn channel_line(c: Channel, selected: Option<u64>) -> Seq<char> {
    "  ["@ + decimal_text(c.id as nat) + "] #"@ + c.name@ + channel_tag(c.channel_type)
        + selected_mark(selected, c.id)
}

pub fn format_channel(c: &Channel, selected: Option<u64>) -> (r: String)
    ensures
        r@ == channel_line(*c, selected),
{
    let mut r = String::from_str("  [");
    let digits = decimal(c.id);
    r.append(digits.as_str());
    r.append("] #");
    r.append(c.name.as_str());
    r.append(channel_tag_str(c.channel_type));
    if selected == Some(c.id) {
        r.append(" *");
    }
    r
}

/// A channel kind's name as the client prints it.
pub open spec fn channel_kind_text(kind: ChannelType) -> Seq<char> {
    match kind {
        ChannelType::Text => "Text"@,
        ChannelType::Voice => "Voice"@,
        ChannelType::Announcement => "Announcement"@,
        ChannelType::AgentLog => "AgentLog"@,
    }
}

fn channel_kind_str(kind: ChannelType) -> (s: &'static str)
    ensures
        s@ == channel_kind_text(kind),
{
    match kind {
        ChannelType::Text => "Text",
        ChannelType::Voice => "Voice",
        ChannelType::Announcement => "Announcement",
        ChannelType::AgentLog => "AgentLog",
    }
}

/// The line listing a channel when the client starts: with its kind named.
pub open spec fn startup_channel_line(c: Channel) -> Seq<char> {
    "  ["@ + decimal_text(c.id as nat) + "] #"@ + c.name@ + " ("@ + channel_kind_text(c.channel_type)
        + ")"@
}

pub fn format_startup_channel(c: &Channel) -> (r: String)
    ensures
        r@ == startup_channel_line(*c),
{
    let mut r = String::from_str("  [");
    let digits = decimal(c.id);
    r.append(digits.as_str());
    r.append("] #");
    r.append(c.name.as_str());
    r.append(" (");
    r.append(channel_kind_str(c.channel_type));
    r.append(")");
    r
}

/// The line listing an open thread and who started it.
pub open spec fn thread_line(t: Thread, creator: Seq<char>) -> Seq<char> {
    "  ["@ + decimal_text(t.id as nat) + "] "@ + t.name@ + " (by "@ + creator + ")"@
}

pub fn format_thread(t: &Thread, creator: &str) -> (r: String)
    ensures
        r@ == thread_line(*t, creator@),
{
    let mut r = String::from_str("  [");
    let digits = decimal(t.id);
    r.append(digits.as_str());
    r.append("] ");
    r.append(t.name.as_str());
    r.append(" (by ");
    r.append(creator);
    r.append(")");
    r
}

// ---------------------------------------------------------------------------
// People
// ---------------------------------------------------------------------------

/// A role's name as the client prints it.
pub open spec fn role_name_text(role: MemberRole) -> Seq<char> {
    match role {
        MemberRole::Owner => "Owner"@,
        MemberRole::Admin => "Admin"@,
        MemberRole::Moderator => "Moderator"@,
        MemberRole::Member => "Member"@,
        MemberRole::Agent => "Agent"@,
    }
}

fn role_str(role: MemberRole) -> (s: &'static str)
    ensures
        s@ == role_name_text(role),
{
    match role {
        MemberRole::Owner => "Owner",
        MemberRole::Admin => "Admin",
        MemberRole::Moderator => "Moderator",
        MemberRole::Member => "Member",
        MemberRole::Agent => "Agent",
    }
}

/// The line listing a member: name, role, and whether they are online
/// (`online` is their presence, if they have one).
pub open spec fn member_line(name: Seq<char>, role: MemberRole, online: Option<bool>) -> Seq<char> {
    "  "@ + name + " ["@ + role_name_text(role) + "]"@ + (if online == Some(true) {
        " (online)"@
    } else {
        Seq::empty()
    })
}

pub fn format_member(name: &str, role: MemberRole, online: Option<bool>) -> (r: String)
    ensures
        r@ == member_line(name@, role, online),
{
    let mut r = String::from_str("  ");
    r.append(name);
    r.append(" [");
    r.append(role_str(role));
    r.append("]");
    if online == Some(true) {
        r.append(" (online)");
    }
    r
}

/// The line listing a user who is online, with their status when they set a
/// non-empty one.
pub open spec fn who_line(name: Seq<char>, status: Option<Seq<char>>) -> Seq<char> {
    match status {
        Some(text) => if text.len() == 0 {
            "  "@ + name
        } else {
            "  "@ + name + " - "@ + text
        },
        None => "  "@ + name,
    }
}

pub fn format_who(name: &str, status: &Option<String>) -> (r: String)
    ensures
        r@ == who_line(
            name@,
            match status {
                Some(t) => Some(t@),
                None => None,
            },
        ),
{
    let mut r = String::from_str("  ");
    r.append(name);
    match status {
        Some(text) => {
            if text.as_str().unicode_len() > 0 {
                r.append(" - ");
                r.append(text.as_str());
            }
        },
        None => {},
    }
    r
}

/// The note printed when a user's presence changes: coming online or going
/// offline; nothing when `online` did not change.
pub open spec fn presence_note(name: Seq<char>, was_online: bool, now_online: bool) -> Option<
    Seq<char>,
> {
    if !was_online && now_online {
        Some("[+] "@ + name + " came online"@)
    } else if was_online && !now_online {
        Some("[-] "@ + name + " went offline"@)
    } else {
        None
    }
}

pub fn format_presence_change(name: &str, was_online: bool, now_online: bool) -> (r: Option<
    String,
>)
    ensures
        match r {
            Some(t) => presence_note(name@, was_online, now_online) == Some(t@),
            None => presence_note(name@, was_online, now_online) is None,
        },
{
    if !was_online && now_online {
        let mut r = String::from_str("[+] ");
        r.append(name);
        r.append(" came online");
        Some(r)
    } else if was_online && !now_online {
        let mut r = String::from_str("[-] ");
        r.append(name);
        r.append(" went offline");
        Some(r)
    } else {
        None
    }
}

} // verus!
