//! The module's database: its tables, their constraints, and the context a reducer runs in.
use vstd::prelude::*;

use crate::identity::{spec_normalize, Identity, Timestamp};
use crate::rows::{
    any_match, first_index, first_match, is_first_match, keep, lemma_first_match_at, lemma_first_match_none,
    lemma_keep_contains, lemma_keep_no_conflicts, lemma_keep_table_ok, lemma_push_no_conflicts,
    lemma_push_table_ok, lemma_update_no_conflicts, lemma_update_table_ok, no_conflicts, table_ok,
};
use crate::tables::{
    Channel, ChannelReadState, DirectConversation, DirectMessage, Message, Reaction, Server,
    ServerMember, SystemNotification, Thread, TypingIndicator, UserPresence, UserProfile,
};
use crate::types::MemberRole;

verus! {

/// All tables of the module. Each table with an auto-incremented key has a
/// sequence counter: the key the next inserted row receives.
pub struct Database {
    pub user_profile: Vec<UserProfile>,
    pub user_presence: Vec<UserPresence>,
    pub server: Vec<Server>,
    pub server_next_id: u64,
    pub server_member: Vec<ServerMember>,
    pub server_member_next_id: u64,
    pub channel: Vec<Channel>,
    pub channel_next_id: u64,
    pub thread: Vec<Thread>,
    pub thread_next_id: u64,
    pub message: Vec<Message>,
    pub message_next_id: u64,
    pub reaction: Vec<Reaction>,
    pub reaction_next_id: u64,
    pub channel_read_state: Vec<ChannelReadState>,
    pub channel_read_state_next_id: u64,
    pub typing_indicator: Vec<TypingIndicator>,
    pub typing_indicator_next_id: u64,
    pub system_notification: Vec<SystemNotification>,
    pub system_notification_next_id: u64,
    pub direct_conversation: Vec<DirectConversation>,
    pub direct_conversation_next_id: u64,
    pub direct_message: Vec<DirectMessage>,
    pub direct_message_next_id: u64,
}

/// The context of one reducer call: the database, the caller and the call's time.
pub struct ReducerContext {
    pub db: Database,
    pub sender: Identity,
    pub timestamp: Timestamp,
}

impl ReducerContext {
    pub fn new(db: Database, sender: Identity, timestamp: Timestamp) -> (r: Self)
        ensures
            r.db == db,
            r.sender == sender,
            r.timestamp == timestamp,
    {
        ReducerContext { db, sender, timestamp }
    }

    /// The identity of the caller.
    pub fn sender(&self) -> (r: Identity)
        ensures
            r == self.sender,
    {
        self.sender
    }
}

// ---------------------------------------------------------------------------
// Row predicates
// ---------------------------------------------------------------------------

pub open spec fn profile_of(id: Identity) -> spec_fn(UserProfile) -> bool {
    |p: UserProfile| p.identity == id
}

pub open spec fn profile_named(name: Seq<char>) -> spec_fn(UserProfile) -> bool {
    |p: UserProfile| p.username@ == name
}

pub open spec fn presence_of(id: Identity) -> spec_fn(UserPresence) -> bool {
    |p: UserPresence| p.identity == id
}

pub open spec fn member_of(server_id: u64, id: Identity) -> spec_fn(ServerMember) -> bool {
    |m: ServerMember| m.server_id == server_id && m.identity == id
}

pub open spec fn general_channel_of(server_id: u64) -> spec_fn(Channel) -> bool {
    |c: Channel| c.server_id == server_id && c.name@ == "general"@
}

// ---------------------------------------------------------------------------
// Table constraints
// ---------------------------------------------------------------------------

/// Two profiles share an identity (the primary key) or a username (a unique column).
pub open spec fn profile_clash() -> spec_fn(UserProfile, UserProfile) -> bool {
    |a: UserProfile, b: UserProfile| a.identity == b.identity || a.username@ == b.username@
}

/// Two presence rows share an identity (the primary key).
pub open spec fn presence_clash() -> spec_fn(UserPresence, UserPresence) -> bool {
    |a: UserPresence, b: UserPresence| a.identity == b.identity
}

/// Two memberships of the same identity in the same server.
pub open spec fn membership_clash() -> spec_fn(ServerMember, ServerMember) -> bool {
    |a: ServerMember, b: ServerMember| a.server_id == b.server_id && a.identity == b.identity
}

/// Two reactions with the same emoji by the same identity on the same message.
pub open spec fn reaction_clash() -> spec_fn(Reaction, Reaction) -> bool {
    |a: Reaction, b: Reaction|
        a.message_id == b.message_id && a.identity == b.identity && a.emoji@ == b.emoji@
}

/// Two read states of the same identity for the same channel.
pub open spec fn read_state_clash() -> spec_fn(ChannelReadState, ChannelReadState) -> bool {
    |a: ChannelReadState, b: ChannelReadState|
        a.identity == b.identity && a.channel_id == b.channel_id
}

/// Two conversations between the same ordered pair of participants.
pub open spec fn conversation_clash() -> spec_fn(DirectConversation, DirectConversation) -> bool {
    |a: DirectConversation, b: DirectConversation|
        a.participant_a == b.participant_a && a.participant_b == b.participant_b
}

/// Only a server's owner ever holds the Owner role in it.
pub open spec fn owner_role_sound(members: Seq<ServerMember>, servers: Seq<Server>) -> bool {
    forall|i: int|
        0 <= i < members.len() && (#[trigger] members[i]).role == MemberRole::Owner ==> exists|
            j: int,
        |
            0 <= j < servers.len() && (#[trigger] servers[j]).id == members[i].server_id
                && servers[j].owner == members[i].identity
}

/// Every membership names a server id the server sequence has already handed out.
pub open spec fn member_servers_below(members: Seq<ServerMember>, next: u64) -> bool {
    forall|i: int| 0 <= i < members.len() ==> (#[trigger] members[i]).server_id < next
}

/// Every conversation stores its participants in normalized order.
pub open spec fn conversations_normalized(s: Seq<DirectConversation>) -> bool {
    forall|i: int|
        0 <= i < s.len() ==> spec_normalize((#[trigger] s[i]).participant_a, s[i].participant_b) == (
        s[i].participant_a,
        s[i].participant_b,
    )
}

/// Two contexts describe the same call: same caller, same time.
pub open spec fn same_call(a: ReducerContext, b: ReducerContext) -> bool {
    a.sender == b.sender && a.timestamp == b.timestamp
}

impl Database {
    /// An empty database; every sequence starts at 1.
    pub fn new() -> (r: Self)
        ensures
            r.wf(),
            r.user_profile@.len() == 0,
            r.user_presence@.len() == 0,
            r.server@.len() == 0,
            r.server_member@.len() == 0,
            r.channel@.len() == 0,
            r.thread@.len() == 0,
            r.message@.len() == 0,
            r.reaction@.len() == 0,
            r.channel_read_state@.len() == 0,
            r.typing_indicator@.len() == 0,
            r.system_notification@.len() == 0,
            r.direct_conversation@.len() == 0,
            r.direct_message@.len() == 0,
            r.all_sequences_at(1),
    {
        Database {
            user_profile: Vec::new(),
            user_presence: Vec::new(),
            server: Vec::new(),
            server_next_id: 1,
            server_member: Vec::new(),
            server_member_next_id: 1,
            channel: Vec::new(),
            channel_next_id: 1,
            thread: Vec::new(),
            thread_next_id: 1,
            message: Vec::new(),
            message_next_id: 1,
            reaction: Vec::new(),
            reaction_next_id: 1,
            channel_read_state: Vec::new(),
            channel_read_state_next_id: 1,
            typing_indicator: Vec::new(),
            typing_indicator_next_id: 1,
            system_notification: Vec::new(),
            system_notification_next_id: 1,
            direct_conversation: Vec::new(),
            direct_conversation_next_id: 1,
            direct_message: Vec::new(),
            direct_message_next_id: 1,
        }
    }

    pub open spec fn all_sequences_at(&self, n: u64) -> bool {
        &&& self.server_next_id == n
        &&& self.server_member_next_id == n
        &&& self.channel_next_id == n
        &&& self.thread_next_id == n
        &&& self.message_next_id == n
        &&& self.reaction_next_id == n
        &&& self.channel_read_state_next_id == n
        &&& self.typing_indicator_next_id == n
        &&& self.system_notification_next_id == n
        &&& self.direct_conversation_next_id == n
        &&& self.direct_message_next_id == n
    }

    /// The table constraints: keys unique and below their sequence, unique
    /// columns unique, and the Owner role held only by the server's owner.
    pub open spec fn wf(&self) -> bool {
        &&& table_ok(self.server@, self.server_next_id)
        &&& table_ok(self.server_member@, self.server_member_next_id)
        &&& table_ok(self.channel@, self.channel_next_id)
        &&& table_ok(self.thread@, self.thread_next_id)
        &&& table_ok(self.message@, self.message_next_id)
        &&& table_ok(self.reaction@, self.reaction_next_id)
        &&& table_ok(self.channel_read_state@, self.channel_read_state_next_id)
        &&& table_ok(self.typing_indicator@, self.typing_indicator_next_id)
        &&& table_ok(self.system_notification@, self.system_notification_next_id)
        &&& table_ok(self.direct_conversation@, self.direct_conversation_next_id)
        &&& table_ok(self.direct_message@, self.direct_message_next_id)
        &&& no_conflicts(self.user_profile@, profile_clash())
        &&& no_conflicts(self.user_presence@, presence_clash())
        &&& no_conflicts(self.server_member@, membership_clash())
        &&& no_conflicts(self.reaction@, reaction_clash())
        &&& no_conflicts(self.channel_read_state@, read_state_clash())
        &&& no_conflicts(self.direct_conversation@, conversation_clash())
        &&& owner_role_sound(self.server_member@, self.server@)
        &&& member_servers_below(self.server_member@, self.server_next_id)
        &&& conversations_normalized(self.direct_conversation@)
    }

    // -----------------------------------------------------------------------
    // Lookups
    // -----------------------------------------------------------------------

    pub open spec fn spec_profile(&self, id: Identity) -> Option<UserProfile> {
        first_match(self.user_profile@, profile_of(id))
    }

    pub open spec fn spec_presence(&self, id: Identity) -> Option<UserPresence> {
        first_match(self.user_presence@, presence_of(id))
    }

    pub open spec fn spec_membership(&self, server_id: u64, id: Identity) -> Option<ServerMember> {
        first_match(self.server_member@, member_of(server_id, id))
    }

    pub open spec fn username_taken(&self, name: Seq<char>) -> bool {
        any_match(self.user_profile@, profile_named(name))
    }

    /// The position of the caller's profile.
    pub fn find_profile(&self, id: Identity) -> (r: Option<usize>)
        ensures
            match r {
                Some(i) => is_first_match(self.user_profile@, profile_of(id), i as int)
                    && first_index(self.user_profile@, profile_of(id)) == i
                    && self.spec_profile(id) == Some(self.user_profile@[i as int]),
                None => self.spec_profile(id) is None && !any_match(
                    self.user_profile@,
                    profile_of(id),
                ),
            },
    {
        let mut i: usize = 0;
        while i < self.user_profile.len()
            invariant
                i <= self.user_profile@.len(),
                forall|j: int|
                    0 <= j < i ==> !(profile_of(id))(#[trigger] self.user_profile@[j]),
            decreases self.user_profile@.len() - i,
        {
            if self.user_profile[i].identity == id {
                proof {
                    lemma_first_match_at(self.user_profile@, profile_of(id), i as int);
                }
                return Some(i);
            }
            i = i + 1;
        }
        proof {
            lemma_first_match_none(self.user_profile@, profile_of(id));
        }
        None
    }

    /// The position of the first `#general` channel of a server.
    pub fn find_general_channel(&self, server_id: u64) -> (r: Option<usize>)
        ensures
            match r {
                Some(i) => is_first_match(self.channel@, general_channel_of(server_id), i as int)
                    && first_index(self.channel@, general_channel_of(server_id)) == i
                    && first_match(self.channel@, general_channel_of(server_id)) == Some(
                    self.channel@[i as int],
                ),
                None => first_match(self.channel@, general_channel_of(server_id)) is None,
            },
    {
        let general = String::from_str("general");
        let mut i: usize = 0;
        while i < self.channel.len()
            invariant
                general@ == "general"@,
                i <= self.channel@.len(),
                forall|j: int|
                    0 <= j < i ==> !(general_channel_of(server_id))(#[trigger] self.channel@[j]),
            decreases self.channel@.len() - i,
        {
            if self.channel[i].server_id == server_id && self.channel[i].name == general {
                proof {
                    lemma_first_match_at(self.channel@, general_channel_of(server_id), i as int);
                }
                return Some(i);
            }
            i = i + 1;
        }
        proof {
            lemma_first_match_none(self.channel@, general_channel_of(server_id));
        }
        None
    }

    /// Whether some profile has the given username.
    pub fn find_username(&self, name: &String) -> (r: bool)
        ensures
            r == self.username_taken(name@),
    {
        let mut i: usize = 0;
        while i < self.user_profile.len()
            invariant
                i <= self.user_profile@.len(),
                forall|j: int|
                    0 <= j < i ==> !(profile_named(name@))(#[trigger] self.user_profile@[j]),
            decreases self.user_profile@.len() - i,
        {
            if self.user_profile[i].username == *name {
                assert((profile_named(name@))(self.user_profile@[i as int]));
                return true;
            }
            i = i + 1;
        }
        false
    }

    /// The position of an identity's presence row.
    pub fn find_presence(&self, id: Identity) -> (r: Option<usize>)
        ensures
            match r {
                Some(i) => is_first_match(self.user_presence@, presence_of(id), i as int)
                    && first_index(self.user_presence@, presence_of(id)) == i
                    && self.spec_presence(id) == Some(self.user_presence@[i as int]),
                None => self.spec_presence(id) is None && !any_match(
                    self.user_presence@,
                    presence_of(id),
                ),
            },
    {
        let mut i: usize = 0;
        while i < self.user_presence.len()
            invariant
                i <= self.user_presence@.len(),
                forall|j: int|
                    0 <= j < i ==> !(presence_of(id))(#[trigger] self.user_presence@[j]),
            decreases self.user_presence@.len() - i,
        {
            if self.user_presence[i].identity == id {
                proof {
                    lemma_first_match_at(self.user_presence@, presence_of(id), i as int);
                }
                return Some(i);
            }
            i = i + 1;
        }
        proof {
            lemma_first_match_none(self.user_presence@, presence_of(id));
        }
        None
    }

    /// The position of the membership of `id` in server `server_id`.
    pub fn find_membership(&self, server_id: u64, id: Identity) -> (r: Option<usize>)
        ensures
            match r {
                Some(i) => is_first_match(self.server_member@, member_of(server_id, id), i as int)
                    && first_index(self.server_member@, member_of(server_id, id)) == i
                    && self.spec_membership(server_id, id) == Some(self.server_member@[i as int]),
                None => self.spec_membership(server_id, id) is None && !any_match(
                    self.server_member@,
                    member_of(server_id, id),
                ),
            },
    {
        let mut i: usize = 0;
        while i < self.server_member.len()
            invariant
                i <= self.server_member@.len(),
                forall|j: int|
                    0 <= j < i ==> !(member_of(server_id, id))(#[trigger] self.server_member@[j]),
            decreases self.server_member@.len() - i,
        {
            if self.server_member[i].server_id == server_id && self.server_member[i].identity == id {
                proof {
                    lemma_first_match_at(self.server_member@, member_of(server_id, id), i as int);
                }
                return Some(i);
            }
            i = i + 1;
        }
        proof {
            lemma_first_match_none(self.server_member@, member_of(server_id, id));
        }
        None
    }
}


// ---------------------------------------------------------------------------
// Keeping the constraints across changes of the membership table
// ---------------------------------------------------------------------------

/// Removing memberships keeps the constraints.
pub proof fn lemma_wf_members_keep(pre: Database, post: Database, f: spec_fn(ServerMember) -> bool)
    requires
        pre.wf(),
        post.server_member@ == keep(pre.server_member@, f),
        post == (Database { server_member: post.server_member, ..pre }),
    ensures
        post.wf(),
{
    lemma_keep_table_ok(pre.server_member@, f, pre.server_member_next_id);
    lemma_keep_no_conflicts(pre.server_member@, f, membership_clash());
    lemma_keep_contains(pre.server_member@, f);
    let ms = post.server_member@;
    assert forall|i: int| 0 <= i < ms.len() implies (#[trigger] ms[i]).server_id
        < pre.server_next_id by {
        assert(ms.contains(ms[i]));
    }
    assert forall|i: int|
        0 <= i < ms.len() && (#[trigger] ms[i]).role == MemberRole::Owner implies exists|j: int|
        0 <= j < pre.server@.len() && (#[trigger] pre.server@[j]).id == ms[i].server_id
            && pre.server@[j].owner == ms[i].identity by {
        assert(ms.contains(ms[i]));
        let k = choose|k: int| 0 <= k < pre.server_member@.len() && pre.server_member@[k] == ms[i];
        assert(pre.server_member@[k].role == MemberRole::Owner);
    }
}

/// Adding a membership that is new for its (server, identity), names a server id
/// already handed out, and is not an Owner membership keeps the constraints.
pub proof fn lemma_wf_member_push(pre: Database, post: Database, m: ServerMember)
    requires
        pre.wf(),
        pre.server_member_next_id < u64::MAX,
        m.id == pre.server_member_next_id,
        m.server_id < pre.server_next_id,
        m.role != MemberRole::Owner,
        !any_match(pre.server_member@, member_of(m.server_id, m.identity)),
        post.server_member@ == pre.server_member@.push(m),
        post == (Database {
            server_member: post.server_member,
            server_member_next_id: (pre.server_member_next_id + 1) as u64,
            ..pre
        }),
    ensures
        post.wf(),
{
    let ms = pre.server_member@;
    lemma_push_table_ok(ms, m, pre.server_member_next_id);
    assert forall|i: int| 0 <= i < ms.len() implies !(membership_clash())(#[trigger] ms[i], m)
        && !(membership_clash())(m, ms[i]) by {
        assert(!(member_of(m.server_id, m.identity))(ms[i]));
    }
    lemma_push_no_conflicts(ms, m, membership_clash());
    let ps = post.server_member@;
    assert forall|i: int| 0 <= i < ps.len() implies (#[trigger] ps[i]).server_id
        < post.server_next_id by {
        if i < ms.len() {
            assert(ps[i] == ms[i]);
        }
    }
    assert forall|i: int|
        0 <= i < ps.len() && (#[trigger] ps[i]).role == MemberRole::Owner implies exists|j: int|
        0 <= j < post.server@.len() && (#[trigger] post.server@[j]).id == ps[i].server_id
            && post.server@[j].owner == ps[i].identity by {
        if i < ms.len() {
            assert(ps[i] == ms[i]);
            let j = choose|j: int|
                0 <= j < pre.server@.len() && (#[trigger] pre.server@[j]).id == ms[i].server_id
                    && pre.server@[j].owner == ms[i].identity;
            assert(post.server@[j] == pre.server@[j]);
        } else {
            assert(ps[i] == m);
        }
    }
}

/// Changing the role of a membership to a role other than Owner keeps the constraints.
pub proof fn lemma_wf_member_update(pre: Database, post: Database, k: int, m: ServerMember)
    requires
        pre.wf(),
        0 <= k < pre.server_member@.len(),
        m.id == pre.server_member@[k].id,
        m.server_id == pre.server_member@[k].server_id,
        m.identity == pre.server_member@[k].identity,
        m.role != MemberRole::Owner,
        post.server_member@ == pre.server_member@.update(k, m),
        post == (Database { server_member: post.server_member, ..pre }),
    ensures
        post.wf(),
{
    let ms = pre.server_member@;
    lemma_update_table_ok(ms, k, m, pre.server_member_next_id);
    assert forall|i: int| 0 <= i < ms.len() && i != k implies !(membership_clash())(
        #[trigger] ms[i],
        m,
    ) && !(membership_clash())(m, ms[i]) by {
        assert(!(membership_clash())(ms[i], ms[k]));
    }
    lemma_update_no_conflicts(ms, k, m, membership_clash());
    let ps = post.server_member@;
    assert forall|i: int| 0 <= i < ps.len() implies (#[trigger] ps[i]).server_id
        < post.server_next_id by {
        if i != k {
            assert(ps[i] == ms[i]);
        }
    }
    assert forall|i: int|
        0 <= i < ps.len() && (#[trigger] ps[i]).role == MemberRole::Owner implies exists|j: int|
        0 <= j < post.server@.len() && (#[trigger] post.server@[j]).id == ps[i].server_id
            && post.server@[j].owner == ps[i].identity by {
        if i != k {
            assert(ps[i] == ms[i]);
            let j = choose|j: int|
                0 <= j < pre.server@.len() && (#[trigger] pre.server@[j]).id == ms[i].server_id
                    && pre.server@[j].owner == ms[i].identity;
            assert(post.server@[j] == pre.server@[j]);
        } else {
            assert(ps[i] == m);
        }
    }
}

} // verus!
