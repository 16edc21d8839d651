//! What the command-line client shows of the tables it is subscribed to:
//! recent messages, channels by position, conversations by recency, unread
//! counts, threads, members and who is online.
use vstd::prelude::*;

use crate::client::{parse_u64, parsed_number, ClientState};
use crate::identity::Identity;
use crate::ordering::{is_stable_order, lemma_stable_order_unique, stable_order};
use crate::rows::{first_match, is_first_match, keep, lemma_first_match_at, lemma_first_match_none};
use crate::tables::{
    Channel, DirectConversation, DirectMessage, Message, Server, ServerMember, TableRow, Thread,
    UserPresence, UserProfile,
};
use crate::types::{ChannelType, MessageType};

verus! {

// ---------------------------------------------------------------------------
// Stable arrangement by a key
// ---------------------------------------------------------------------------

/// Rows that the client lists in the order of a key.
pub trait Ordered: TableRow {
    spec fn order_key(&self) -> i128;

    fn order_key_value(&self) -> (k: i128)
        ensures
            k == self.order_key(),
    ;
}

/// Messages are listed oldest first.
impl Ordered for Message {
    open spec fn order_key(&self) -> i128 {
        self.created_at.micros_since_unix_epoch as i128
    }

    fn order_key_value(&self) -> (k: i128) {
        self.created_at.micros_since_unix_epoch as i128
    }
}

/// Direct messages are listed oldest first.
impl Ordered for DirectMessage {
    open spec fn order_key(&self) -> i128 {
        self.created_at.micros_since_unix_epoch as i128
    }

    fn order_key_value(&self) -> (k: i128) {
        self.created_at.micros_since_unix_epoch as i128
    }
}

/// Channels are listed by position.
impl Ordered for Channel {
    open spec fn order_key(&self) -> i128 {
        self.position as i128
    }

    fn order_key_value(&self) -> (k: i128) {
        self.position as i128
    }
}

/// Conversations are listed most recently active first.
impl Ordered for DirectConversation {
    open spec fn order_key(&self) -> i128 {
        (-(self.last_message_at.micros_since_unix_epoch as int)) as i128
    }

    fn order_key_value(&self) -> (k: i128) {
        -(self.last_message_at.micros_since_unix_epoch as i128)
    }
}

pub open spec fn keys_of<T: Ordered>(s: Seq<T>) -> Seq<i128> {
    Seq::new(s.len(), |i: int| s[i].order_key())
}

/// The rows by increasing key, rows with equal keys in their original order:
/// what `sort_by_key` leaves.
pub open spec fn arranged<T: Ordered>(s: Seq<T>) -> Seq<T> {
    let o = choose|o: Seq<usize>| is_stable_order(keys_of(s), o);
    Seq::new(s.len(), |j: int| s[o[j] as int])
}

/// The last `n` rows (all of them when there are fewer).
pub open spec fn last_rows<T>(s: Seq<T>, n: nat) -> Seq<T> {
    if n >= s.len() {
        s
    } else {
        s.skip(s.len() - n)
    }
}

/// Arranges rows stably by their key.
pub fn arrange<T: Ordered>(rows: &Vec<T>) -> (r: Vec<T>)
    ensures
        r@ == arranged(rows@),
{
    let mut keys: Vec<i128> = Vec::new();
    let mut i: usize = 0;
    while i < rows.len()
        invariant
            i <= rows@.len(),
            keys@.len() == i,
            forall|j: int| 0 <= j < i ==> keys@[j] == #[trigger] rows@[j].order_key(),
        decreases rows@.len() - i,
    {
        keys.push(rows[i].order_key_value());
        i = i + 1;
    }
    assert(keys@ =~= keys_of(rows@));
    let order = stable_order(&keys);
    proof {
        let o = choose|o: Seq<usize>| is_stable_order(keys_of(rows@), o);
        lemma_stable_order_unique(keys@, order@, o);
    }
    let mut out: Vec<T> = Vec::new();
    let mut j: usize = 0;
    while j < order.len()
        invariant
            is_stable_order(keys@, order@),
            keys@ == keys_of(rows@),
            j <= order@.len(),
            out@.len() == j,
            forall|a: int| 0 <= a < j ==> #[trigger] out@[a] == rows@[order@[a] as int],
        decreases order@.len() - j,
    {
        out.push(rows[order[j]].duplicate());
        j = j + 1;
    }
    assert(out@ =~= arranged(rows@));
    out
}

/// The last `n` rows.
pub fn take_last<T: TableRow>(rows: &Vec<T>, n: usize) -> (r: Vec<T>)
    ensures
        r@ == last_rows(rows@, n as nat),
{
    let len = rows.len();
    let start = if n >= len {
        0
    } else {
        len - n
    };
    let mut out: Vec<T> = Vec::new();
    let mut j: usize = start;
    while j < len
        invariant
            len == rows@.len(),
            start <= j <= len,
            out@ == rows@.subrange(start as int, j as int),
        decreases len - j,
    {
        out.push(rows[j].duplicate());
        assert(rows@.subrange(start as int, j + 1) =~= rows@.subrange(start as int, j as int).push(
            rows@[j as int],
        ));
        j = j + 1;
    }
    assert(rows@.subrange(start as int, len as int) =~= last_rows(rows@, n as nat));
    out
}

// ---------------------------------------------------------------------------
// Messages
// ---------------------------------------------------------------------------

/// A channel message outside any thread.
pub open spec fn top_level_in(channel_id: u64) -> spec_fn(Message) -> bool {
    |m: Message| m.channel_id == channel_id && m.thread_id is None
}

/// The last `count` messages of a channel outside threads, oldest first.
pub fn recent_channel_messages(messages: &Vec<Message>, channel_id: u64, count: usize) -> (r: Vec<
    Message,
>)
    ensures
        r@ == last_rows(arranged(keep(messages@, top_level_in(channel_id))), count as nat),
{
    let mut sel: Vec<Message> = Vec::new();
    let mut i: usize = 0;
    while i < messages.len()
        invariant
            i <= messages@.len(),
            sel@ == keep(messages@.take(i as int), top_level_in(channel_id)),
        decreases messages@.len() - i,
    {
        assert(messages@.take(i as int + 1).drop_last() =~= messages@.take(i as int));
        if messages[i].channel_id == channel_id && messages[i].thread_id.is_none() {
            sel.push(messages[i].duplicate());
        }
        i = i + 1;
    }
    assert(messages@.take(messages@.len() as int) =~= messages@);
    take_last(&arrange(&sel), count)
}

pub open spec fn in_conversation(conversation_id: u64) -> spec_fn(DirectMessage) -> bool {
    |m: DirectMessage| m.conversation_id == conversation_id
}

/// The last `count` messages of a conversation, oldest first.
pub fn recent_conversation_messages(
    messages: &Vec<DirectMessage>,
    conversation_id: u64,
    count: usize,
) -> (r: Vec<DirectMessage>)
    ensures
        r@ == last_rows(arranged(keep(messages@, in_conversation(conversation_id))), count as nat),
{
    let mut sel: Vec<DirectMessage> = Vec::new();
    let mut i: usize = 0;
    while i < messages.len()
        invariant
            i <= messages@.len(),
            sel@ == keep(messages@.take(i as int), in_conversation(conversation_id)),
        decreases messages@.len() - i,
    {
        assert(messages@.take(i as int + 1).drop_last() =~= messages@.take(i as int));
        if messages[i].conversation_id == conversation_id {
            sel.push(messages[i].duplicate());
        }
        i = i + 1;
    }
    assert(messages@.take(messages@.len() as int) =~= messages@);
    take_last(&arrange(&sel), count)
}

/// An unread message of the conversation sent by someone other than `me`.
pub open spec fn unread_for(conversation_id: u64, me: Identity) -> spec_fn(DirectMessage) -> bool {
    |m: DirectMessage| m.conversation_id == conversation_id && m.sender != me && !m.read
}

/// How many messages of the conversation `me` has not read.
pub fn unread_count(messages: &Vec<DirectMessage>, conversation_id: u64, me: Identity) -> (r: usize)
    ensures
        r == keep(messages@, unread_for(conversation_id, me)).len(),
{
    let mut n: usize = 0;
    let mut i: usize = 0;
    while i < messages.len()
        invariant
            i <= messages@.len(),
            n == keep(messages@.take(i as int), unread_for(conversation_id, me)).len(),
            n <= i,
        decreases messages@.len() - i,
    {
        assert(messages@.take(i as int + 1).drop_last() =~= messages@.take(i as int));
        if messages[i].conversation_id == conversation_id && messages[i].sender != me
            && !messages[i].read {
            n = n + 1;
        }
        i = i + 1;
    }
    assert(messages@.take(messages@.len() as int) =~= messages@);
    n
}

/// The tag shown before a message of each kind.
pub open spec fn message_prefix(kind: MessageType) -> Seq<char> {
    match kind {
        MessageType::System => "[SYSTEM] "@,
        MessageType::Join => "[JOIN] "@,
        MessageType::Leave => "[LEAVE] "@,
        MessageType::AgentEvent => "[AGENT] "@,
        MessageType::Text => ""@,
    }
}

pub fn message_prefix_str(kind: MessageType) -> (s: &'static str)
    ensures
        s@ == message_prefix(kind),
{
    match kind {
        MessageType::System => "[SYSTEM] ",
        MessageType::Join => "[JOIN] ",
        MessageType::Leave => "[LEAVE] ",
        MessageType::AgentEvent => "[AGENT] ",
        MessageType::Text => "",
    }
}

// ---------------------------------------------------------------------------
// Channels, threads, members, presence
// ---------------------------------------------------------------------------

pub open spec fn channel_in(server_id: u64) -> spec_fn(Channel) -> bool {
    |c: Channel| c.server_id == server_id
}

/// The channels of a server by position.
pub fn channels_by_position(channels: &Vec<Channel>, server_id: u64) -> (r: Vec<Channel>)
    ensures
        r@ == arranged(keep(channels@, channel_in(server_id))),
{
    let mut sel: Vec<Channel> = Vec::new();
    let mut i: usize = 0;
    while i < channels.len()
        invariant
            i <= channels@.len(),
            sel@ == keep(channels@.take(i as int), channel_in(server_id)),
        decreases channels@.len() - i,
    {
        assert(channels@.take(i as int + 1).drop_last() =~= channels@.take(i as int));
        if channels[i].server_id == server_id {
            sel.push(channels[i].duplicate());
        }
        i = i + 1;
    }
    assert(channels@.take(channels@.len() as int) =~= channels@);
    arrange(&sel)
}

/// The tag shown after a channel of each kind.
pub open spec fn channel_tag(kind: ChannelType) -> Seq<char> {
    match kind {
        ChannelType::Text => ""@,
        ChannelType::Voice => " [voice]"@,
        ChannelType::Announcement => " [ann]"@,
        ChannelType::AgentLog => " [agent]"@,
    }
}

pub fn channel_tag_str(kind: ChannelType) -> (s: &'static str)
    ensures
        s@ == channel_tag(kind),
{
    match kind {
        ChannelType::Text => "",
        ChannelType::Voice => " [voice]",
        ChannelType::Announcement => " [ann]",
        ChannelType::AgentLog => " [agent]",
    }
}

pub open spec fn text_channel_in(server_id: u64) -> spec_fn(Channel) -> bool {
    |c: Channel| c.server_id == server_id && c.channel_type == ChannelType::Text
}

/// The first text channel of a server: the one the client makes active.
pub fn first_text_channel(channels: &Vec<Channel>, server_id: u64) -> (r: Option<usize>)
    ensures
        match r {
            Some(i) => is_first_match(channels@, text_channel_in(server_id), i as int)
                && first_match(channels@, text_channel_in(server_id)) == Some(channels@[i as int]),
            None => first_match(channels@, text_channel_in(server_id)) is None,
        },
{
    let mut i: usize = 0;
    while i < channels.len()
        invariant
            i <= channels@.len(),
            forall|j: int| 0 <= j < i ==> !(text_channel_in(server_id))(#[trigger] channels@[j]),
        decreases channels@.len() - i,
    {
        if channels[i].server_id == server_id && channels[i].channel_type == ChannelType::Text {
            proof {
                lemma_first_match_at(channels@, text_channel_in(server_id), i as int);
            }
            return Some(i);
        }
        i = i + 1;
    }
    proof {
        lemma_first_match_none(channels@, text_channel_in(server_id));
    }
    None
}

pub open spec fn open_thread_in(channel_id: u64) -> spec_fn(Thread) -> bool {
    |t: Thread| t.channel_id == channel_id && !t.archived
}

/// The threads of a channel that are not archived.
pub fn active_threads(threads: &Vec<Thread>, channel_id: u64) -> (r: Vec<Thread>)
    ensures
        r@ == keep(threads@, open_thread_in(channel_id)),
{
    let mut sel: Vec<Thread> = Vec::new();
    let mut i: usize = 0;
    while i < threads.len()
        invariant
            i <= threads@.len(),
            sel@ == keep(threads@.take(i as int), open_thread_in(channel_id)),
        decreases threads@.len() - i,
    {
        assert(threads@.take(i as int + 1).drop_last() =~= threads@.take(i as int));
        if threads[i].channel_id == channel_id && !threads[i].archived {
            sel.push(threads[i].duplicate());
        }
        i = i + 1;
    }
    assert(threads@.take(threads@.len() as int) =~= threads@);
    sel
}

pub open spec fn member_in(server_id: u64) -> spec_fn(ServerMember) -> bool {
    |m: ServerMember| m.server_id == server_id
}

/// The memberships of a server.
pub fn members_of_server(members: &Vec<ServerMember>, server_id: u64) -> (r: Vec<ServerMember>)
    ensures
        r@ == keep(members@, member_in(server_id)),
{
    let mut sel: Vec<ServerMember> = Vec::new();
    let mut i: usize = 0;
    while i < members.len()
        invariant
            i <= members@.len(),
            sel@ == keep(members@.take(i as int), member_in(server_id)),
        decreases members@.len() - i,
    {
        assert(members@.take(i as int + 1).drop_last() =~= members@.take(i as int));
        if members[i].server_id == server_id {
            sel.push(members[i].duplicate());
        }
        i = i + 1;
    }
    assert(members@.take(members@.len() as int) =~= members@);
    sel
}

pub open spec fn is_online() -> spec_fn(UserPresence) -> bool {
    |p: UserPresence| p.online
}

/// The users who are online.
pub fn online_users(presences: &Vec<UserPresence>) -> (r: Vec<UserPresence>)
    ensures
        r@ == keep(presences@, is_online()),
{
    let mut sel: Vec<UserPresence> = Vec::new();
    let mut i: usize = 0;
    while i < presences.len()
        invariant
            i <= presences@.len(),
            sel@ == keep(presences@.take(i as int), is_online()),
        decreases presences@.len() - i,
    {
        assert(presences@.take(i as int + 1).drop_last() =~= presences@.take(i as int));
        if presences[i].online {
            sel.push(presences[i].duplicate());
        }
        i = i + 1;
    }
    assert(presences@.take(presences@.len() as int) =~= presences@);
    sel
}

// ---------------------------------------------------------------------------
// Conversations and names
// ---------------------------------------------------------------------------

pub open spec fn involves(me: Identity) -> spec_fn(DirectConversation) -> bool {
    |c: DirectConversation| c.participant_a == me || c.participant_b == me
}

/// The conversations `me` takes part in, most recently active first.
pub fn conversations_by_recency(conversations: &Vec<DirectConversation>, me: Identity) -> (r: Vec<
    DirectConversation,
>)
    ensures
        r@ == arranged(keep(conversations@, involves(me))),
{
    let mut sel: Vec<DirectConversation> = Vec::new();
    let mut i: usize = 0;
    while i < conversations.len()
        invariant
            i <= conversations@.len(),
            sel@ == keep(conversations@.take(i as int), involves(me)),
        decreases conversations@.len() - i,
    {
        assert(conversations@.take(i as int + 1).drop_last() =~= conversations@.take(i as int));
        if conversations[i].participant_a == me || conversations[i].participant_b == me {
            sel.push(conversations[i].duplicate());
        }
        i = i + 1;
    }
    assert(conversations@.take(conversations@.len() as int) =~= conversations@);
    arrange(&sel)
}

/// The participant of a conversation who is not `me`.
pub fn other_participant(conversation: &DirectConversation, me: Identity) -> (r: Identity)
    ensures
        r == (if conversation.participant_a == me {
            conversation.participant_b
        } else {
            conversation.participant_a
        }),
{
    if conversation.participant_a == me {
        conversation.participant_b
    } else {
        conversation.participant_a
    }
}

pub open spec fn profile_with(id: Identity) -> spec_fn(UserProfile) -> bool {
    |p: UserProfile| p.identity == id
}

/// The name a user is shown under: the display name when set, else the
/// username; `None` when the user has no profile.
pub open spec fn shown_as(profiles: Seq<UserProfile>, id: Identity) -> Option<Seq<char>> {
    match first_match(profiles, profile_with(id)) {
        Some(p) => Some(
            match p.display_name {
                Some(d) => d@,
                None => p.username@,
            },
        ),
        None => None,
    }
}

pub fn display_name(profiles: &Vec<UserProfile>, id: Identity) -> (r: Option<String>)
    ensures
        match r {
            Some(s) => shown_as(profiles@, id) == Some(s@),
            None => shown_as(profiles@, id) is None,
        },
{
    let mut i: usize = 0;
    while i < profiles.len()
        invariant
            i <= profiles@.len(),
            forall|j: int| 0 <= j < i ==> !(profile_with(id))(#[trigger] profiles@[j]),
        decreases profiles@.len() - i,
    {
        if profiles[i].identity == id {
            proof {
                lemma_first_match_at(profiles@, profile_with(id), i as int);
            }
            return match &profiles[i].display_name {
                Some(d) => Some(d.clone()),
                None => Some(profiles[i].username.clone()),
            };
        }
        i = i + 1;
    }
    proof {
        lemma_first_match_none(profiles@, profile_with(id));
    }
    None
}

// ---------------------------------------------------------------------------
// Selecting a server or channel
// ---------------------------------------------------------------------------

/// The lowercase form of a string, as `str::to_lowercase` gives it.
pub uninterp spec fn lowercase(s: Seq<char>) -> Seq<char>;

/// Calls `str::to_lowercase` (Unicode lowercase mapping). The contract only
/// names the result: it depends on the string alone.
#[verifier::external_body]
fn to_lowercase(s: &str) -> (r: String)
    ensures
        r@ == lowercase(s@),
{
    s.to_lowercase()
}

/// What the client selects once subscribed: the first server, and its first
/// text channel (0 for none).
pub open spec fn startup_selection(servers: Seq<Server>, channels: Seq<Channel>) -> (u64, u64) {
    if servers.len() == 0 {
        (0, 0)
    } else {
        let sid = servers[0].id;
        (
            sid,
            match first_match(channels, text_channel_in(sid)) {
                Some(c) => c.id,
                None => 0,
            },
        )
    }
}

pub fn initial_selection(servers: &Vec<Server>, channels: &Vec<Channel>) -> (r: ClientState)
    ensures
        (r.server_id, r.channel_id) == startup_selection(servers@, channels@),
{
    let mut state = ClientState::new();
    if servers.len() > 0 {
        state.select_server(servers[0].id);
        if let Some(ci) = first_text_channel(channels, servers[0].id) {
            state.select_channel(channels[ci].id);
        }
    }
    state
}

pub open spec fn server_with_id(id: u64) -> spec_fn(Server) -> bool {
    |s: Server| s.id == id
}

pub open spec fn server_called(name: Seq<char>) -> spec_fn(Server) -> bool {
    |s: Server| lowercase(s.name@) == lowercase(name)
}

/// The server an argument selects: by id when it reads as a number, else by
/// name, ignoring case.
pub open spec fn server_for(servers: Seq<Server>, arg: Seq<char>) -> Option<Server> {
    match parsed_number(arg, u64::MAX as nat) {
        Some(id) => first_match(servers, server_with_id(id as u64)),
        None => first_match(servers, server_called(arg)),
    }
}

pub fn find_server_for_selection(servers: &Vec<Server>, arg: &str) -> (r: Option<usize>)
    ensures
        match r {
            Some(i) => i < servers@.len() && server_for(servers@, arg@) == Some(servers@[i as int]),
            None => server_for(servers@, arg@) is None,
        },
{
    match parse_u64(arg) {
        Some(id) => {
            let mut i: usize = 0;
            while i < servers.len()
                invariant
                    parsed_number(arg@, u64::MAX as nat) == Some(id as nat),
                    i <= servers@.len(),
                    forall|j: int| 0 <= j < i ==> !(server_with_id(id))(#[trigger] servers@[j]),
                decreases servers@.len() - i,
            {
                if servers[i].id == id {
                    proof {
                        lemma_first_match_at(servers@, server_with_id(id), i as int);
                    }
                    return Some(i);
                }
                i = i + 1;
            }
            proof {
                lemma_first_match_none(servers@, server_with_id(id));
            }
            None
        },
        None => {
            let wanted = to_lowercase(arg);
            let mut i: usize = 0;
            while i < servers.len()
                invariant
                    parsed_number(arg@, u64::MAX as nat) is None,
                    wanted@ == lowercase(arg@),
                    i <= servers@.len(),
                    forall|j: int| 0 <= j < i ==> !(server_called(arg@))(#[trigger] servers@[j]),
                decreases servers@.len() - i,
            {
                if to_lowercase(servers[i].name.as_str()) == wanted {
                    proof {
                        lemma_first_match_at(servers@, server_called(arg@), i as int);
                    }
                    return Some(i);
                }
                i = i + 1;
            }
            proof {
                lemma_first_match_none(servers@, server_called(arg@));
            }
            None
        },
    }
}

pub open spec fn channel_with_id(id: u64) -> spec_fn(Channel) -> bool {
    |c: Channel| c.id == id
}

pub open spec fn channel_called(server_id: u64, name: Seq<char>) -> spec_fn(Channel) -> bool {
    |c: Channel| c.server_id == server_id && lowercase(c.name@) == lowercase(name)
}

/// The channel an argument selects: by id when it reads as a number (in any
/// server), else by name in the active server, ignoring case.
pub open spec fn channel_for(channels: Seq<Channel>, server_id: u64, arg: Seq<char>) -> Option<Channel> {
    match parsed_number(arg, u64::MAX as nat) {
        Some(id) => first_match(channels, channel_with_id(id as u64)),
        None => first_match(channels, channel_called(server_id, arg)),
    }
}

pub fn find_channel_for_selection(channels: &Vec<Channel>, server_id: u64, arg: &str) -> (r: Option<
    usize,
>)
    ensures
        match r {
            Some(i) => i < channels@.len() && channel_for(channels@, server_id, arg@) == Some(
                channels@[i as int],
            ),
            None => channel_for(channels@, server_id, arg@) is None,
        },
{
    match parse_u64(arg) {
        Some(id) => {
            let mut i: usize = 0;
            while i < channels.len()
                invariant
                    parsed_number(arg@, u64::MAX as nat) == Some(id as nat),
                    i <= channels@.len(),
                    forall|j: int| 0 <= j < i ==> !(channel_with_id(id))(#[trigger] channels@[j]),
                decreases channels@.len() - i,
            {
                if channels[i].id == id {
                    proof {
                        lemma_first_match_at(channels@, channel_with_id(id), i as int);
                    }
                    return Some(i);
                }
                i = i + 1;
            }
            proof {
                lemma_first_match_none(channels@, channel_with_id(id));
            }
            None
        },
        None => {
            let wanted = to_lowercase(arg);
            let mut i: usize = 0;
            while i < channels.len()
                invariant
                    parsed_number(arg@, u64::MAX as nat) is None,
                    wanted@ == lowercase(arg@),
                    i <= channels@.len(),
                    forall|j: int|
                        0 <= j < i ==> !(channel_called(server_id, arg@))(#[trigger] channels@[j]),
                decreases channels@.len() - i,
            {
                if channels[i].server_id == server_id && to_lowercase(channels[i].name.as_str())
                    == wanted {
                    proof {
                        lemma_first_match_at(channels@, channel_called(server_id, arg@), i as int);
                    }
                    return Some(i);
                }
                i = i + 1;
            }
            proof {
                lemma_first_match_none(channels@, channel_called(server_id, arg@));
            }
            None
        },
    }
}

} // verus!
