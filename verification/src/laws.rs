//! Properties of the library as a whole, stated over the reducers' contracts.
use vstd::prelude::*;

use crate::auth::{is_admin_in, role_check};
use crate::cascade::{
    channel_doomed, contents_cleared, message_doomed, message_kept, reaction_kept, thread_kept, Scope,
};
use crate::db::{
    conversation_clash, member_of, membership_clash, presence_of, profile_of, same_call, Database,
    ReducerContext,
};
use crate::identity::{
    hex_of, lemma_hex_injective, lemma_normalize_symmetric, spec_normalize, Identity,
};
use crate::lifecycle::{presence_set, welcomed};
use crate::reducers::channels::{
    create_channel_done, delete_channel_done, lemma_max_position_bounds, max_position,
    create_channel_error, delete_channel_error, update_channel_done, update_channel_error,
};
use crate::reducers::servers::{
    channel_outside, create_server_done, delete_server_done, join_server_done, join_server_error,
    joining_role, leave_server_done, leave_server_error, member_outside, update_member_role_done,
    delete_server_error, update_member_role_error, update_server_done, update_server_error,
};
use crate::reducers::messages::{
    delete_message_done, delete_message_error, edit_message_done, edit_message_error,
    reaction_not_on, send_message_done,
    add_reaction_done, add_reaction_error, mark_read_done, read_state_of, remove_reaction_done,
    remove_reaction_error, same_reaction, send_message_error,
};
use crate::reducers::direct_messages::{
    conversation_between, delete_direct_message_done, delete_direct_message_error, edit_direct_message_error,
    mark_dm_read_error, send_direct_message_done, spec_conversation,
};
use crate::reducers::threads::{archive_thread_done, archive_thread_error, create_thread_done};
use crate::reducers::users::{set_profile_done, set_profile_error};
use crate::rows::{
    any_match, has_key, first_index, first_match, is_first_match, keep, key_index, key_is_not, lemma_first_match_at,
    lemma_first_match_none, lemma_first_match_some, lemma_keep_all, lemma_keep_contains, lemma_key_index,
    lemma_update_table_ok, lookup,
};
use crate::tables::{Channel, DirectMessage, Message, Reaction, Server, ServerMember, TableRow, Thread, UserProfile};
use crate::types::{role_level, ChannelType, MemberRole, MessageType};
use crate::validation::dm_self_error;

verus! {

/// The role hierarchy: Owner > Admin > Moderator > Member = Agent, every level
/// between 1 and 4, and only the Owner at the top.
pub proof fn law_role_hierarchy(role: MemberRole)
    ensures
        1 <= role_level(role) <= 4,
        role_level(role) == 4 <==> role == MemberRole::Owner,
        role_level(MemberRole::Owner) > role_level(MemberRole::Admin),
        role_level(MemberRole::Admin) > role_level(MemberRole::Moderator),
        role_level(MemberRole::Moderator) > role_level(MemberRole::Member),
        role_level(MemberRole::Member) == role_level(MemberRole::Agent),
{
}

/// Only a server's owner ever holds the Owner role in it: every reducer keeps
/// `wf`, and `wf` says so.
pub proof fn law_owner_role_held_by_owner(db: Database, i: int)
    requires
        db.wf(),
        0 <= i < db.server_member@.len(),
        db.server_member@[i].role == MemberRole::Owner,
    ensures
        exists|j: int|
            0 <= j < db.server@.len() && #[trigger] db.server@[j].id == db.server_member@[i].server_id
                && db.server@[j].owner == db.server_member@[i].identity,
{
    assert(db.server_member@[i].role == MemberRole::Owner);
}

/// A direct message to oneself is refused, and only that: the hexadecimal
/// forms of two identities are equal exactly when the identities are.
pub proof fn law_dm_to_self_refused(a: Identity, b: Identity)
    ensures
        dm_self_error(hex_of(a), hex_of(b)) is Some <==> a == b,
{
    if hex_of(a) == hex_of(b) {
        lemma_hex_injective(a, b);
    }
}

/// Two users share at most one conversation, whichever of them started it.
pub proof fn law_one_conversation_per_pair(db: Database, i: int, j: int)
    requires
        db.wf(),
        0 <= i < db.direct_conversation@.len(),
        0 <= j < db.direct_conversation@.len(),
        i != j,
    ensures
        !(db.direct_conversation@[i].participant_a == db.direct_conversation@[j].participant_a
            && db.direct_conversation@[i].participant_b == db.direct_conversation@[j].participant_b),
        !(db.direct_conversation@[i].participant_a == db.direct_conversation@[j].participant_b
            && db.direct_conversation@[i].participant_b == db.direct_conversation@[j].participant_a),
{
    let ci = db.direct_conversation@[i];
    let cj = db.direct_conversation@[j];
    assert(!(conversation_clash())(ci, cj));
    if ci.participant_a == cj.participant_b && ci.participant_b == cj.participant_a {
        lemma_normalize_symmetric(ci.participant_a, ci.participant_b);
        assert(spec_normalize(ci.participant_a, ci.participant_b) == (ci.participant_a, ci.participant_b));
        assert(spec_normalize(cj.participant_a, cj.participant_b) == (cj.participant_a, cj.participant_b));
    }
}

/// Creating a server makes its creator its Owner member.
pub proof fn law_creator_owns_new_server(
    pre: ReducerContext,
    post: ReducerContext,
    name: String,
    description: Option<String>,
)
    requires
        pre.db.wf(),
        create_server_done(pre, post, name, description),
    ensures
        post.db.spec_membership(pre.db.server_next_id, pre.sender) matches Some(m) && m.role
            == MemberRole::Owner,
{
    let sid = pre.db.server_next_id;
    let ms = post.db.server_member@;
    let n = pre.db.server_member@.len();
    let f = member_of(sid, pre.sender);
    assert forall|j: int| 0 <= j < n implies !f(#[trigger] ms[j]) by {
        assert(ms[j] == pre.db.server_member@[j]);
        assert(pre.db.server_member@[j].server_id < sid);
    }
    assert(is_first_match(ms, f, n as int));
    lemma_first_match_at(ms, f, n as int);
}

/// Joining a server makes the caller a member (an Agent member for agents),
/// and joining it again is refused.
pub proof fn law_join_then_member(pre: ReducerContext, post: ReducerContext, server_id: u64)
    requires
        pre.db.wf(),
        join_server_error(pre, server_id) is None,
        join_server_done(pre, post, server_id),
        post.sender == pre.sender,
    ensures
        post.db.spec_membership(server_id, pre.sender) matches Some(m) && m.role == joining_role(
            pre.db.spec_profile(pre.sender).unwrap().is_agent,
        ),
        join_server_error(post, server_id) == Some("Already a member of this server"@),
{
    let ms = post.db.server_member@;
    let n = pre.db.server_member@.len();
    let f = member_of(server_id, pre.sender);
    assert forall|j: int| 0 <= j < n implies !f(#[trigger] ms[j]) by {
        assert(ms[j] == pre.db.server_member@[j]);
        if f(pre.db.server_member@[j]) {
            crate::rows::lemma_first_match_some(pre.db.server_member@, f, j);
        }
    }
    assert(is_first_match(ms, f, n as int));
    lemma_first_match_at(ms, f, n as int);
    assert(post.db.server == pre.db.server);
    assert(post.db.user_profile == pre.db.user_profile);
}


/// A role change that succeeds never touches the Owner role, and the actor
/// outranks both the target's old role and the new one; afterwards the target
/// holds the new role.
pub proof fn law_role_change_respects_hierarchy(
    pre: ReducerContext,
    post: ReducerContext,
    server_id: u64,
    target_identity: Identity,
    new_role: MemberRole,
)
    requires
        pre.db.wf(),
        update_member_role_error(pre, server_id, target_identity, new_role) is None,
        update_member_role_done(pre, post, server_id, target_identity, new_role),
    ensures
        ({
            let actor = pre.db.spec_membership(server_id, pre.sender).unwrap();
            let target = pre.db.spec_membership(server_id, target_identity).unwrap();
            &&& target.role != MemberRole::Owner
            &&& new_role != MemberRole::Owner
            &&& role_level(actor.role) > role_level(target.role)
            &&& role_level(actor.role) > role_level(new_role)
            &&& post.db.spec_membership(server_id, target_identity) == Some(
                ServerMember { role: new_role, ..target },
            )
        }),
{
    let ms = pre.db.server_member@;
    let f = member_of(server_id, target_identity);
    let target = pre.db.spec_membership(server_id, target_identity).unwrap();
    let i = first_index(ms, f);
    assert(is_first_match(ms, f, i));
    lemma_key_index(ms, i);
    let ps = post.db.server_member@;
    assert(is_first_match(ps, f, i)) by {
        assert forall|j: int| 0 <= j < i implies !f(#[trigger] ps[j]) by {
            assert(ps[j] == ms[j]);
        }
    }
    lemma_first_match_at(ps, f, i);
}

/// Leaving a server ends the caller's membership in it.
pub proof fn law_leave_then_not_member(pre: ReducerContext, post: ReducerContext, server_id: u64)
    requires
        pre.db.wf(),
        leave_server_error(pre, server_id) is None,
        leave_server_done(pre, post, server_id),
    ensures
        post.db.spec_membership(server_id, pre.sender) is None,
{
    let ms = pre.db.server_member@;
    let f = member_of(server_id, pre.sender);
    let m = pre.db.spec_membership(server_id, pre.sender).unwrap();
    let i = first_index(ms, f);
    assert(is_first_match(ms, f, i));
    let g = key_is_not::<ServerMember>(m.id);
    let ps = post.db.server_member@;
    lemma_keep_contains(ms, g);
    assert forall|j: int| 0 <= j < ps.len() implies !f(#[trigger] ps[j]) by {
        assert(ps.contains(ps[j]));
        let k = choose|k: int| 0 <= k < ms.len() && ms[k] == ps[j];
        if f(ps[j]) {
            if k != i {
                assert((membership_clash())(ms[k], ms[i]));
            }
        }
    }
    lemma_first_match_none(ps, f);
}

/// Marking a channel read records the message: afterwards the caller's read
/// state for the channel holds it.
pub proof fn law_mark_read_records(
    pre: ReducerContext,
    post: ReducerContext,
    channel_id: u64,
    message_id: u64,
)
    requires
        mark_read_done(pre, post, channel_id, message_id),
    ensures
        first_match(post.db.channel_read_state@, read_state_of(pre.sender, channel_id)) matches Some(
            rs,
        ) && rs.last_read_msg_id == message_id,
{
    let rs = pre.db.channel_read_state@;
    let ps = post.db.channel_read_state@;
    let f = read_state_of(pre.sender, channel_id);
    match first_match(rs, f) {
        Some(r) => {
            let i = first_index(rs, f);
            assert(is_first_match(rs, f, i));
            assert(is_first_match(ps, f, i)) by {
                assert forall|j: int| 0 <= j < i implies !f(#[trigger] ps[j]) by {
                    assert(ps[j] == rs[j]);
                }
            }
            lemma_first_match_at(ps, f, i);
        },
        None => {
            assert forall|j: int| 0 <= j < rs.len() implies !f(#[trigger] rs[j]) by {
                if f(rs[j]) {
                    lemma_first_match_some(rs, f, j);
                }
            }
            assert(is_first_match(ps, f, rs.len() as int)) by {
                assert forall|j: int| 0 <= j < rs.len() implies !f(#[trigger] ps[j]) by {
                    assert(ps[j] == rs[j]);
                }
            }
            lemma_first_match_at(ps, f, rs.len() as int);
        },
    }
}

/// A successful profile change is what the caller's profile then reads.
pub proof fn law_set_profile_takes_effect(
    pre: ReducerContext,
    post: ReducerContext,
    username: String,
    display_name: Option<String>,
    avatar_url: Option<String>,
    bio: Option<String>,
)
    requires
        set_profile_error(pre, username@) is None,
        set_profile_done(pre, post, username, display_name, avatar_url, bio),
    ensures
        post.db.spec_profile(pre.sender) == Some(
            UserProfile {
                username,
                display_name,
                avatar_url,
                bio,
                ..pre.db.spec_profile(pre.sender).unwrap()
            },
        ),
{
    let ps = pre.db.user_profile@;
    let qs = post.db.user_profile@;
    let f = profile_of(pre.sender);
    let i = first_index(ps, f);
    assert(is_first_match(ps, f, i));
    assert(is_first_match(qs, f, i)) by {
        assert forall|j: int| 0 <= j < i implies !f(#[trigger] qs[j]) by {
            assert(qs[j] == ps[j]);
        }
    }
    lemma_first_match_at(qs, f, i);
}

/// Connecting marks the caller online; disconnecting marks them offline.
pub proof fn law_presence_follows_connection(pre: Database, post: Database, who: Identity, online: bool, ctx: ReducerContext)
    requires
        presence_set(pre, post, who, online, ctx),
    ensures
        post.spec_presence(who) matches Some(p) && p.online == online,
{
    let ps = pre.user_presence@;
    let qs = post.user_presence@;
    let f = presence_of(who);
    match first_match(ps, f) {
        Some(_) => {
            let i = first_index(ps, f);
            assert(is_first_match(ps, f, i));
            assert(is_first_match(qs, f, i)) by {
                assert forall|j: int| 0 <= j < i implies !f(#[trigger] qs[j]) by {
                    assert(qs[j] == ps[j]);
                }
            }
            lemma_first_match_at(qs, f, i);
        },
        None => {
            assert forall|j: int| 0 <= j < ps.len() implies !f(#[trigger] qs[j]) by {
                assert(qs[j] == ps[j]);
                if f(ps[j]) {
                    lemma_first_match_some(ps, f, j);
                }
            }
            assert(is_first_match(qs, f, ps.len() as int));
            lemma_first_match_at(qs, f, ps.len() as int);
        },
    }
}

/// A new channel is placed after every existing channel of its server.
pub proof fn law_new_channel_goes_last(
    pre: ReducerContext,
    post: ReducerContext,
    server_id: u64,
    name: String,
    channel_type: ChannelType,
    i: int,
)
    requires
        create_channel_done(pre, post, server_id, name, channel_type),
        max_position(pre.db.channel@, server_id) < u32::MAX,
        0 <= i < pre.db.channel@.len(),
        pre.db.channel@[i].server_id == server_id,
    ensures
        pre.db.channel@[i].position < post.db.channel@.last().position,
{
    lemma_max_position_bounds(pre.db.channel@, server_id);
}

/// Deleting a channel leaves nothing of it: no channel with its id, no
/// message or thread in it, no reaction on a message that was in it.
pub proof fn law_delete_channel_cascades(pre: ReducerContext, post: ReducerContext, channel_id: u64)
    requires
        delete_channel_done(pre, post, channel_id),
    ensures
        forall|i: int| 0 <= i < post.db.channel@.len() ==> (#[trigger] post.db.channel@[i]).id != channel_id,
        forall|i: int|
            0 <= i < post.db.message@.len() ==> (#[trigger] post.db.message@[i]).channel_id != channel_id,
        forall|i: int|
            0 <= i < post.db.thread@.len() ==> (#[trigger] post.db.thread@[i]).channel_id != channel_id,
        forall|i: int|
            0 <= i < post.db.reaction@.len() ==> !message_doomed(
                pre.db,
                Scope::Channel(channel_id),
                (#[trigger] post.db.reaction@[i]).message_id,
            ),
{
    let mid = choose|mid: Database|
        {
            &&& contents_cleared(pre.db, mid, Scope::Channel(channel_id))
            &&& post.db.channel@ == keep(pre.db.channel@, key_is_not::<Channel>(channel_id))
            &&& post.db == Database { channel: post.db.channel, ..mid }
        };
    let scope = Scope::Channel(channel_id);
    lemma_keep_contains(pre.db.channel@, key_is_not::<Channel>(channel_id));
    lemma_keep_contains(pre.db.message@, message_kept(pre.db, scope));
    lemma_keep_contains(pre.db.thread@, thread_kept(pre.db, scope));
    lemma_keep_contains(pre.db.reaction@, reaction_kept(pre.db, scope));
    assert forall|i: int| 0 <= i < post.db.channel@.len() implies (#[trigger] post.db.channel@[i]).id
        != channel_id by {
        assert(post.db.channel@.contains(post.db.channel@[i]));
    }
    assert forall|i: int| 0 <= i < post.db.message@.len() implies (
    #[trigger] post.db.message@[i]).channel_id != channel_id by {
        assert(post.db.message@.contains(post.db.message@[i]));
    }
    assert forall|i: int| 0 <= i < post.db.thread@.len() implies (#[trigger] post.db.thread@[i]).channel_id
        != channel_id by {
        assert(post.db.thread@.contains(post.db.thread@[i]));
    }
    assert forall|i: int| 0 <= i < post.db.reaction@.len() implies !message_doomed(
        pre.db,
        scope,
        (#[trigger] post.db.reaction@[i]).message_id,
    ) by {
        assert(post.db.reaction@.contains(post.db.reaction@[i]));
    }
}

/// Deleting a server leaves nothing of it: no server with its id, no channel
/// or membership in it, no message or thread in any of its channels.
pub proof fn law_delete_server_cascades(pre: ReducerContext, post: ReducerContext, server_id: u64)
    requires
        delete_server_done(pre, post, server_id),
    ensures
        forall|i: int| 0 <= i < post.db.server@.len() ==> (#[trigger] post.db.server@[i]).id != server_id,
        forall|i: int|
            0 <= i < post.db.channel@.len() ==> (#[trigger] post.db.channel@[i]).server_id != server_id,
        forall|i: int|
            0 <= i < post.db.server_member@.len() ==> (#[trigger] post.db.server_member@[i]).server_id
                != server_id,
        forall|i: int|
            0 <= i < post.db.message@.len() ==> !channel_doomed(
                pre.db,
                Scope::Server(server_id),
                (#[trigger] post.db.message@[i]).channel_id,
            ),
        forall|i: int|
            0 <= i < post.db.thread@.len() ==> !channel_doomed(
                pre.db,
                Scope::Server(server_id),
                (#[trigger] post.db.thread@[i]).channel_id,
            ),
{
    let mid = choose|mid: Database|
        {
            &&& contents_cleared(pre.db, mid, Scope::Server(server_id))
            &&& post.db.channel@ == keep(pre.db.channel@, channel_outside(server_id))
            &&& post.db.server_member@ == keep(pre.db.server_member@, member_outside(server_id))
            &&& post.db.server@ == keep(pre.db.server@, key_is_not::<Server>(server_id))
            &&& post.db == Database {
                channel: post.db.channel,
                server_member: post.db.server_member,
                server: post.db.server,
                ..mid
            }
        };
    let scope = Scope::Server(server_id);
    lemma_keep_contains(pre.db.server@, key_is_not::<Server>(server_id));
    lemma_keep_contains(pre.db.channel@, channel_outside(server_id));
    lemma_keep_contains(pre.db.server_member@, member_outside(server_id));
    lemma_keep_contains(pre.db.message@, message_kept(pre.db, scope));
    lemma_keep_contains(pre.db.thread@, thread_kept(pre.db, scope));
    assert forall|i: int| 0 <= i < post.db.server@.len() implies (#[trigger] post.db.server@[i]).id
        != server_id by {
        assert(post.db.server@.contains(post.db.server@[i]));
    }
    assert forall|i: int| 0 <= i < post.db.channel@.len() implies (
    #[trigger] post.db.channel@[i]).server_id != server_id by {
        assert(post.db.channel@.contains(post.db.channel@[i]));
    }
    assert forall|i: int| 0 <= i < post.db.server_member@.len() implies (
    #[trigger] post.db.server_member@[i]).server_id != server_id by {
        assert(post.db.server_member@.contains(post.db.server_member@[i]));
    }
    assert forall|i: int| 0 <= i < post.db.message@.len() implies !channel_doomed(
        pre.db,
        scope,
        (#[trigger] post.db.message@[i]).channel_id,
    ) by {
        assert(post.db.message@.contains(post.db.message@[i]));
    }
    assert forall|i: int| 0 <= i < post.db.thread@.len() implies !channel_doomed(
        pre.db,
        scope,
        (#[trigger] post.db.thread@[i]).channel_id,
    ) by {
        assert(post.db.thread@.contains(post.db.thread@[i]));
    }
}

/// A user reacts with a given emoji at most once: after a reaction is added,
/// adding the same one again is refused.
pub proof fn law_reaction_once(pre: ReducerContext, post: ReducerContext, message_id: u64, emoji: String)
    requires
        add_reaction_error(pre, message_id, emoji@) is None,
        add_reaction_done(pre, post, message_id, emoji),
        same_call(pre, post),
    ensures
        add_reaction_error(post, message_id, emoji@) == Some("You already reacted with this emoji"@),
{
    let rs = post.db.reaction@;
    let n = pre.db.reaction@.len();
    assert(rs[n as int] == rs.last());
    assert((same_reaction(message_id, pre.sender, emoji@))(rs[n as int]));
    assert(post.db.message == pre.db.message);
    assert(post.db.channel == pre.db.channel);
    assert(post.db.server == pre.db.server);
    assert(post.db.server_member == pre.db.server_member);
}

/// An archived thread takes no more messages: once a thread is archived, a
/// message sent to it (where the channel and membership checks pass) is refused.
pub proof fn law_archived_thread_refuses_posts(
    pre: ReducerContext,
    post: ReducerContext,
    thread_id: u64,
    channel_id: u64,
    content: Seq<char>,
    reply_to_id: Option<u64>,
)
    requires
        pre.db.wf(),
        archive_thread_error(pre, thread_id) is None,
        archive_thread_done(pre, post, thread_id),
        send_message_error(post, channel_id, content, None, None) is None,
    ensures
        send_message_error(post, channel_id, content, Some(thread_id), reply_to_id) == Some(
            "Cannot post in an archived thread"@,
        ),
{
    let ts = pre.db.thread@;
    let k = key_index(ts, thread_id);
    let t = lookup(ts, thread_id).unwrap();
    let row = Thread { archived: true, ..t };
    lemma_key_index(ts, k);
    lemma_update_table_ok(ts, k, row, pre.db.thread_next_id);
    lemma_key_index(post.db.thread@, k);
    assert(post.db.thread@[k] == row);
}

/// Two messages that are the same row: every field equal, the text compared
/// by its characters.
pub open spec fn same_message(a: Message, b: Message) -> bool {
    &&& a.id == b.id
    &&& a.channel_id == b.channel_id
    &&& a.thread_id == b.thread_id
    &&& a.sender == b.sender
    &&& a.content@ == b.content@
    &&& a.message_type == b.message_type
    &&& a.created_at == b.created_at
    &&& a.edited_at == b.edited_at
    &&& a.reply_to_id == b.reply_to_id
}

/// Two message tables with the same rows in the same order.
pub open spec fn messages_agree(a: Seq<Message>, b: Seq<Message>) -> bool {
    a.len() == b.len() && forall|i: int| 0 <= i < a.len() ==> same_message(#[trigger] a[i], b[i])
}

/// Joining is deterministic: two runs from the same database, caller, time
/// and server fail with the same error, or both succeed and leave the same
/// database (memberships and messages compared by their contents).
pub proof fn law_join_deterministic(
    pre1: ReducerContext,
    post1: ReducerContext,
    pre2: ReducerContext,
    post2: ReducerContext,
    server_id: u64,
)
    requires
        pre1.db == pre2.db,
        pre1.sender == pre2.sender,
        pre1.timestamp == pre2.timestamp,
        join_server_error(pre1, server_id) is Some ==> post1.db == pre1.db,
        join_server_error(pre2, server_id) is Some ==> post2.db == pre2.db,
        join_server_error(pre1, server_id) is None ==> join_server_done(pre1, post1, server_id),
        join_server_error(pre2, server_id) is None ==> join_server_done(pre2, post2, server_id),
    ensures
        join_server_error(pre1, server_id) == join_server_error(pre2, server_id),
        post1.db == (Database {
            server_member: post1.db.server_member,
            message: post1.db.message,
            ..post2.db
        }),
        post1.db.server_member@ == post2.db.server_member@,
        messages_agree(post1.db.message@, post2.db.message@),
{
    assert(pre1 == pre2);
    if join_server_error(pre1, server_id) is Some {
        assert(messages_agree(post1.db.message@, post2.db.message@));
    } else {
        let a = post1.db.message@;
        let b = post2.db.message@;
        let p = pre1.db.message@;
        assert forall|i: int| 0 <= i < a.len() implies same_message(#[trigger] a[i], b[i]) by {
            if a.len() == p.len() {
                assert(a == p && b == p);
            } else if i < p.len() {
                assert(a[i] == a.drop_last()[i]);
                assert(b[i] == b.drop_last()[i]);
            } else {
                assert(a[i] == a.last());
                assert(b[i] == b.last());
            }
        }
    }
}

/// Reconnecting changes no profile and no membership: a user who already has a
/// profile is neither renamed nor joined to the hub again (even after leaving
/// it), and of the presence rows only the caller's own changes.
pub proof fn law_reconnect_keeps_profile_and_membership(pre: ReducerContext, post: ReducerContext)
    requires
        pre.db.spec_profile(pre.sender) is Some,
        presence_set(pre.db, post.db, pre.sender, true, pre),
        welcomed(pre.db, post.db, pre),
        post.db == (Database {
            user_presence: post.db.user_presence,
            user_profile: post.db.user_profile,
            server_member: post.db.server_member,
            server_member_next_id: post.db.server_member_next_id,
            ..pre.db
        }),
    ensures
        post.db.user_profile == pre.db.user_profile,
        post.db.server_member == pre.db.server_member,
        post.db == (Database { user_presence: post.db.user_presence, ..pre.db }),
        pre.db.user_presence@.len() <= post.db.user_presence@.len(),
        forall|i: int|
            0 <= i < pre.db.user_presence@.len() && (#[trigger] pre.db.user_presence@[i]).identity
                != pre.sender ==> post.db.user_presence@[i] == pre.db.user_presence@[i],
{
    let ps = pre.db.user_presence@;
    let f = presence_of(pre.sender);
    if first_match(ps, f) is Some {
        let k = first_index(ps, f);
        assert(is_first_match(ps, f, k));
    }
}

/// Removing a reaction right after adding it succeeds and restores the
/// reaction table; of the rest only the reaction sequence has moved on.
pub proof fn law_remove_undoes_add(
    pre: ReducerContext,
    mid: ReducerContext,
    post: ReducerContext,
    message_id: u64,
    emoji: String,
)
    requires
        pre.db.wf(),
        pre.db.reaction_next_id < u64::MAX,
        add_reaction_error(pre, message_id, emoji@) is None,
        add_reaction_done(pre, mid, message_id, emoji),
        same_call(pre, mid),
        remove_reaction_done(mid, post, message_id, emoji@),
    ensures
        remove_reaction_error(mid, message_id, emoji@) is None,
        post.db.reaction@ == pre.db.reaction@,
        post.db == (Database {
            reaction: post.db.reaction,
            reaction_next_id: post.db.reaction_next_id,
            ..pre.db
        }),
        post.db.reaction_next_id == pre.db.reaction_next_id + 1,
{
    let rs = pre.db.reaction@;
    let ms = mid.db.reaction@;
    let n = rs.len() as int;
    let f = same_reaction(message_id, pre.sender, emoji@);
    let added = Reaction { id: pre.db.reaction_next_id, message_id, identity: pre.sender, emoji };
    assert(ms[n] == added);
    assert forall|j: int| 0 <= j < n implies !f(#[trigger] ms[j]) by {
        assert(ms[j] == rs[j]);
        if f(rs[j]) {
            assert(any_match(rs, f));
        }
    }
    assert(is_first_match(ms, f, n));
    lemma_first_match_at(ms, f, n);
    let g = key_is_not::<Reaction>(added.id);
    assert(ms.drop_last() =~= rs);
    assert forall|i: int| 0 <= i < rs.len() implies g(#[trigger] rs[i]) by {
        assert(rs[i].key() < pre.db.reaction_next_id);
    }
    lemma_keep_all(rs, g);
    assert(keep(ms, g) == keep(rs, g));
}

/// A reply lands in the same conversation: after A's message to B, B's
/// message to A goes to the conversation A's message went to.
pub proof fn law_reply_shares_conversation(
    pre1: ReducerContext,
    post1: ReducerContext,
    pre2: ReducerContext,
    post2: ReducerContext,
    recipient1: Identity,
    content1: String,
    content2: String,
)
    requires
        send_direct_message_done(pre1, post1, recipient1, content1),
        pre2.db == post1.db,
        pre2.sender == recipient1,
        send_direct_message_done(pre2, post2, pre1.sender, content2),
    ensures
        post2.db.direct_message@.last().conversation_id == post1.db.direct_message@.last().conversation_id,
        spec_conversation(pre2.db, pre1.sender, recipient1) is Some,
{
    let (na, nb) = spec_normalize(pre1.sender, recipient1);
    let f = conversation_between(na, nb);
    lemma_normalize_symmetric(pre1.sender, recipient1);
    let cs = pre1.db.direct_conversation@;
    let ms = post1.db.direct_conversation@;
    let id1 = post1.db.direct_message@.last().conversation_id;
    match first_match(cs, f) {
        Some(c) => {
            let k = first_index(cs, f);
            assert(is_first_match(cs, f, k));
            assert(is_first_match(ms, f, k)) by {
                assert forall|j: int| 0 <= j < k implies !f(#[trigger] ms[j]) by {
                    assert(ms[j] == cs[j]);
                }
            }
            lemma_first_match_at(ms, f, k);
            assert(ms[k].id == id1);
        },
        None => {
            let n = cs.len() as int;
            assert forall|j: int| 0 <= j < n implies !f(#[trigger] ms[j]) by {
                assert(ms[j] == cs[j]);
                if f(cs[j]) {
                    lemma_first_match_some(cs, f, j);
                }
            }
            assert(is_first_match(ms, f, n));
            lemma_first_match_at(ms, f, n);
            assert(ms[n].id == id1);
        },
    }
}

/// Deleting a channel keeps everything outside it: every other channel, every
/// thread and message of another channel, and every reaction on a message
/// that was not in it.
pub proof fn law_delete_channel_keeps_the_rest(pre: ReducerContext, post: ReducerContext, channel_id: u64)
    requires
        delete_channel_done(pre, post, channel_id),
    ensures
        forall|i: int|
            0 <= i < pre.db.channel@.len() && (#[trigger] pre.db.channel@[i]).id != channel_id
                ==> post.db.channel@.contains(pre.db.channel@[i]),
        forall|i: int|
            0 <= i < pre.db.thread@.len() && (#[trigger] pre.db.thread@[i]).channel_id != channel_id
                ==> post.db.thread@.contains(pre.db.thread@[i]),
        forall|i: int|
            0 <= i < pre.db.message@.len() && (#[trigger] pre.db.message@[i]).channel_id != channel_id
                ==> post.db.message@.contains(pre.db.message@[i]),
        forall|i: int|
            0 <= i < pre.db.reaction@.len() && !(exists|j: int|
                0 <= j < pre.db.message@.len() && (#[trigger] pre.db.message@[j]).id
                    == pre.db.reaction@[i].message_id && pre.db.message@[j].channel_id == channel_id)
                ==> post.db.reaction@.contains(#[trigger] pre.db.reaction@[i]),
{
    let mid = choose|mid: Database|
        {
            &&& contents_cleared(pre.db, mid, Scope::Channel(channel_id))
            &&& post.db.channel@ == keep(pre.db.channel@, key_is_not::<Channel>(channel_id))
            &&& post.db == Database { channel: post.db.channel, ..mid }
        };
    let scope = Scope::Channel(channel_id);
    lemma_keep_contains(pre.db.channel@, key_is_not::<Channel>(channel_id));
    lemma_keep_contains(pre.db.message@, message_kept(pre.db, scope));
    lemma_keep_contains(pre.db.thread@, thread_kept(pre.db, scope));
    lemma_keep_contains(pre.db.reaction@, reaction_kept(pre.db, scope));
    assert forall|i: int|
        0 <= i < pre.db.channel@.len() && (#[trigger] pre.db.channel@[i]).id != channel_id implies post.db.channel@.contains(
        pre.db.channel@[i],
    ) by {
        assert(pre.db.channel@.contains(pre.db.channel@[i]));
    }
    assert forall|i: int|
        0 <= i < pre.db.thread@.len() && (#[trigger] pre.db.thread@[i]).channel_id
            != channel_id implies post.db.thread@.contains(pre.db.thread@[i]) by {
        assert(pre.db.thread@.contains(pre.db.thread@[i]));
    }
    assert forall|i: int|
        0 <= i < pre.db.message@.len() && (#[trigger] pre.db.message@[i]).channel_id
            != channel_id implies post.db.message@.contains(pre.db.message@[i]) by {
        assert(pre.db.message@.contains(pre.db.message@[i]));
    }
    assert forall|i: int|
        0 <= i < pre.db.reaction@.len() && !(exists|j: int|
            0 <= j < pre.db.message@.len() && (#[trigger] pre.db.message@[j]).id
                == pre.db.reaction@[i].message_id && pre.db.message@[j].channel_id
                == channel_id) implies post.db.reaction@.contains(#[trigger] pre.db.reaction@[i]) by {
        assert(pre.db.reaction@.contains(pre.db.reaction@[i]));
    }
}

/// Deleting a server keeps everything outside it: every other server, the
/// channels and memberships of other servers, and every thread, message and
/// reaction that does not belong to one of its channels.
pub proof fn law_delete_server_keeps_the_rest(pre: ReducerContext, post: ReducerContext, server_id: u64)
    requires
        delete_server_done(pre, post, server_id),
    ensures
        forall|i: int|
            0 <= i < pre.db.server@.len() && (#[trigger] pre.db.server@[i]).id != server_id
                ==> post.db.server@.contains(pre.db.server@[i]),
        forall|i: int|
            0 <= i < pre.db.channel@.len() && (#[trigger] pre.db.channel@[i]).server_id != server_id
                ==> post.db.channel@.contains(pre.db.channel@[i]),
        forall|i: int|
            0 <= i < pre.db.server_member@.len() && (#[trigger] pre.db.server_member@[i]).server_id
                != server_id ==> post.db.server_member@.contains(pre.db.server_member@[i]),
        forall|i: int|
            0 <= i < pre.db.thread@.len() && !(exists|k: int|
                0 <= k < pre.db.channel@.len() && (#[trigger] pre.db.channel@[k]).id
                    == pre.db.thread@[i].channel_id && pre.db.channel@[k].server_id == server_id)
                ==> post.db.thread@.contains(#[trigger] pre.db.thread@[i]),
        forall|i: int|
            0 <= i < pre.db.message@.len() && !(exists|k: int|
                0 <= k < pre.db.channel@.len() && (#[trigger] pre.db.channel@[k]).id
                    == pre.db.message@[i].channel_id && pre.db.channel@[k].server_id == server_id)
                ==> post.db.message@.contains(#[trigger] pre.db.message@[i]),
        forall|i: int|
            0 <= i < pre.db.reaction@.len() && !(exists|j: int, k: int|
                0 <= j < pre.db.message@.len() && 0 <= k < pre.db.channel@.len()
                    && (#[trigger] pre.db.message@[j]).id == pre.db.reaction@[i].message_id
                    && (#[trigger] pre.db.channel@[k]).id == pre.db.message@[j].channel_id
                    && pre.db.channel@[k].server_id == server_id)
                ==> post.db.reaction@.contains(#[trigger] pre.db.reaction@[i]),
{
    let mid = choose|mid: Database|
        {
            &&& contents_cleared(pre.db, mid, Scope::Server(server_id))
            &&& post.db.channel@ == keep(pre.db.channel@, channel_outside(server_id))
            &&& post.db.server_member@ == keep(pre.db.server_member@, member_outside(server_id))
            &&& post.db.server@ == keep(pre.db.server@, key_is_not::<Server>(server_id))
            &&& post.db == Database {
                channel: post.db.channel,
                server_member: post.db.server_member,
                server: post.db.server,
                ..mid
            }
        };
    let scope = Scope::Server(server_id);
    lemma_keep_contains(pre.db.server@, key_is_not::<Server>(server_id));
    lemma_keep_contains(pre.db.channel@, channel_outside(server_id));
    lemma_keep_contains(pre.db.server_member@, member_outside(server_id));
    lemma_keep_contains(pre.db.message@, message_kept(pre.db, scope));
    lemma_keep_contains(pre.db.thread@, thread_kept(pre.db, scope));
    lemma_keep_contains(pre.db.reaction@, reaction_kept(pre.db, scope));
    assert forall|i: int|
        0 <= i < pre.db.reaction@.len() && !(exists|j: int, k: int|
            0 <= j < pre.db.message@.len() && 0 <= k < pre.db.channel@.len()
                && (#[trigger] pre.db.message@[j]).id == pre.db.reaction@[i].message_id
                && (#[trigger] pre.db.channel@[k]).id == pre.db.message@[j].channel_id
                && pre.db.channel@[k].server_id == server_id) implies post.db.reaction@.contains(
        #[trigger] pre.db.reaction@[i],
    ) by {
        let r = pre.db.reaction@[i];
        if message_doomed(pre.db, scope, r.message_id) {
            let j = choose|j: int|
                0 <= j < pre.db.message@.len() && (#[trigger] pre.db.message@[j]).id == r.message_id
                    && channel_doomed(pre.db, scope, pre.db.message@[j].channel_id);
            let k = choose|k: int|
                0 <= k < pre.db.channel@.len() && (#[trigger] pre.db.channel@[k]).id
                    == pre.db.message@[j].channel_id && pre.db.channel@[k].server_id == server_id;
            assert(false);
        }
        assert(pre.db.reaction@.contains(r));
    }
    assert forall|i: int|
        0 <= i < pre.db.server@.len() && (#[trigger] pre.db.server@[i]).id
            != server_id implies post.db.server@.contains(pre.db.server@[i]) by {
        assert(pre.db.server@.contains(pre.db.server@[i]));
    }
    assert forall|i: int|
        0 <= i < pre.db.channel@.len() && (#[trigger] pre.db.channel@[i]).server_id
            != server_id implies post.db.channel@.contains(pre.db.channel@[i]) by {
        assert(pre.db.channel@.contains(pre.db.channel@[i]));
    }
    assert forall|i: int|
        0 <= i < pre.db.server_member@.len() && (#[trigger] pre.db.server_member@[i]).server_id
            != server_id implies post.db.server_member@.contains(pre.db.server_member@[i]) by {
        assert(pre.db.server_member@.contains(pre.db.server_member@[i]));
    }
    assert forall|i: int|
        0 <= i < pre.db.thread@.len() && !(exists|k: int|
            0 <= k < pre.db.channel@.len() && (#[trigger] pre.db.channel@[k]).id
                == pre.db.thread@[i].channel_id && pre.db.channel@[k].server_id
                == server_id) implies post.db.thread@.contains(#[trigger] pre.db.thread@[i]) by {
        assert(pre.db.thread@.contains(pre.db.thread@[i]));
    }
    assert forall|i: int|
        0 <= i < pre.db.message@.len() && !(exists|k: int|
            0 <= k < pre.db.channel@.len() && (#[trigger] pre.db.channel@[k]).id
                == pre.db.message@[i].channel_id && pre.db.channel@[k].server_id
                == server_id) implies post.db.message@.contains(#[trigger] pre.db.message@[i]) by {
        assert(pre.db.message@.contains(pre.db.message@[i]));
    }
}

/// Deleting a message removes it and the reactions on it, and only those:
/// every other message and every reaction on another message stays.
pub proof fn law_delete_message_keeps_the_rest(pre: ReducerContext, post: ReducerContext, message_id: u64)
    requires
        delete_message_done(pre, post, message_id),
    ensures
        forall|i: int|
            0 <= i < pre.db.reaction@.len() && (#[trigger] pre.db.reaction@[i]).message_id != message_id
                ==> post.db.reaction@.contains(pre.db.reaction@[i]),
        forall|i: int|
            0 <= i < post.db.reaction@.len() ==> (#[trigger] post.db.reaction@[i]).message_id != message_id
                && pre.db.reaction@.contains(post.db.reaction@[i]),
        forall|i: int|
            0 <= i < pre.db.message@.len() && (#[trigger] pre.db.message@[i]).id != message_id
                ==> post.db.message@.contains(pre.db.message@[i]),
        forall|i: int|
            0 <= i < post.db.message@.len() ==> (#[trigger] post.db.message@[i]).id != message_id
                && pre.db.message@.contains(post.db.message@[i]),
        post.db.thread == pre.db.thread,
        post.db.channel == pre.db.channel,
{
    lemma_keep_contains(pre.db.reaction@, reaction_not_on(message_id));
    lemma_keep_contains(pre.db.message@, key_is_not::<Message>(message_id));
    assert forall|i: int|
        0 <= i < pre.db.reaction@.len() && (#[trigger] pre.db.reaction@[i]).message_id
            != message_id implies post.db.reaction@.contains(pre.db.reaction@[i]) by {
        assert(pre.db.reaction@.contains(pre.db.reaction@[i]));
    }
    assert forall|i: int| 0 <= i < post.db.reaction@.len() implies (
    #[trigger] post.db.reaction@[i]).message_id != message_id && pre.db.reaction@.contains(
        post.db.reaction@[i],
    ) by {
        assert(post.db.reaction@.contains(post.db.reaction@[i]));
    }
    assert forall|i: int|
        0 <= i < pre.db.message@.len() && (#[trigger] pre.db.message@[i]).id
            != message_id implies post.db.message@.contains(pre.db.message@[i]) by {
        assert(pre.db.message@.contains(pre.db.message@[i]));
    }
    assert forall|i: int| 0 <= i < post.db.message@.len() implies (#[trigger] post.db.message@[i]).id
        != message_id && pre.db.message@.contains(post.db.message@[i]) by {
        assert(post.db.message@.contains(post.db.message@[i]));
    }
}

/// Updating a channel changes only what is given: a given name or topic
/// replaces the old one, an omitted one is kept, and every other field and
/// every other channel stays as it was.
pub proof fn law_update_channel_changes_only_what_is_given(
    pre: ReducerContext,
    post: ReducerContext,
    channel_id: u64,
    name: Option<String>,
    topic: Option<String>,
)
    requires
        pre.db.wf(),
        update_channel_error(pre, channel_id, name) is None,
        update_channel_done(pre, post, channel_id, name, topic),
    ensures
        post.db.channel@.len() == pre.db.channel@.len(),
        exists|i: int| 0 <= i < pre.db.channel@.len() && (#[trigger] pre.db.channel@[i]).id == channel_id,
        forall|i: int|
            0 <= i < pre.db.channel@.len() && (#[trigger] pre.db.channel@[i]).id != channel_id
                ==> post.db.channel@[i] == pre.db.channel@[i],
        forall|i: int|
            0 <= i < pre.db.channel@.len() && (#[trigger] pre.db.channel@[i]).id == channel_id ==> {
                let (a, b) = (pre.db.channel@[i], post.db.channel@[i]);
                &&& b.id == a.id
                &&& b.server_id == a.server_id
                &&& b.channel_type == a.channel_type
                &&& b.position == a.position
                &&& b.created_at == a.created_at
                &&& (name is None ==> b.name == a.name)
                &&& (name matches Some(n) ==> b.name == n)
                &&& (topic is None ==> b.topic == a.topic)
                &&& (topic matches Some(t) ==> b.topic == Some(t))
            },
        post.db == (Database { channel: post.db.channel, ..pre.db }),
{
    let cs = pre.db.channel@;
    let k = key_index(cs, channel_id);
    assert(has_key(cs, channel_id));
    assert(0 <= k < cs.len() && cs[k].id == channel_id);
    assert forall|i: int| 0 <= i < cs.len() && (#[trigger] cs[i]).id == channel_id implies i == k by {
        lemma_key_index(cs, i);
    }
}

/// The first message of a new thread is an ordinary text message from its
/// creator, in the thread's channel and inside the new thread; the thread
/// starts open, created by the caller.
pub proof fn law_thread_starts_with_a_text_message(
    pre: ReducerContext,
    post: ReducerContext,
    channel_id: u64,
    name: String,
    initial_message: String,
)
    requires
        create_thread_done(pre, post, channel_id, name, initial_message),
    ensures
        post.db.thread@.len() == pre.db.thread@.len() + 1,
        post.db.message@.len() == pre.db.message@.len() + 1,
        post.db.thread@.last().channel_id == channel_id,
        post.db.thread@.last().name == name,
        post.db.thread@.last().creator == pre.sender,
        !post.db.thread@.last().archived,
        post.db.message@.last().message_type == MessageType::Text,
        post.db.message@.last().sender == pre.sender,
        post.db.message@.last().content == initial_message,
        post.db.message@.last().channel_id == channel_id,
        post.db.message@.last().thread_id == Some(post.db.thread@.last().id),
        post.db.message@.last().reply_to_id is None,
        post.db.message@.last().edited_at is None,
{
}

/// Only a thread's creator or an Admin (or Owner) of its server can archive
/// it: an archive that is not refused had such a caller, and such a caller is
/// never refused for want of permission.
pub proof fn law_archive_needs_creator_or_admin(pre: ReducerContext, thread_id: u64)
    requires
        pre.db.wf(),
    ensures
        archive_thread_error(pre, thread_id) is None ==> exists|i: int|
            0 <= i < pre.db.thread@.len() && (#[trigger] pre.db.thread@[i]).id == thread_id && (
            pre.db.thread@[i].creator == pre.sender || exists|k: int, j: int|
                0 <= k < pre.db.channel@.len() && 0 <= j < pre.db.server_member@.len()
                    && (#[trigger] pre.db.channel@[k]).id == pre.db.thread@[i].channel_id
                    && (#[trigger] pre.db.server_member@[j]).server_id == pre.db.channel@[k].server_id
                    && pre.db.server_member@[j].identity == pre.sender && role_level(
                    pre.db.server_member@[j].role,
                ) >= 3),
        archive_thread_error(pre, thread_id) != Some(
            "Only the thread creator or an admin can archive a thread"@,
        ) || forall|i: int|
            0 <= i < pre.db.thread@.len() && (#[trigger] pre.db.thread@[i]).id == thread_id ==> (
            pre.db.thread@[i].creator != pre.sender && forall|k: int, j: int|
                0 <= k < pre.db.channel@.len() && 0 <= j < pre.db.server_member@.len()
                    && (#[trigger] pre.db.channel@[k]).id == pre.db.thread@[i].channel_id
                    && (#[trigger] pre.db.server_member@[j]).server_id == pre.db.channel@[k].server_id
                    && pre.db.server_member@[j].identity == pre.sender ==> role_level(
                    pre.db.server_member@[j].role,
                ) < 3),
{
    let ts = pre.db.thread@;
    let cs = pre.db.channel@;
    let ms = pre.db.server_member@;
    reveal_strlit("Channel not found");
    reveal_strlit("Server not found for channel");
    reveal_strlit("Only the thread creator or an admin can archive a thread");
    assert("Channel not found"@.len() != "Only the thread creator or an admin can archive a thread"@.len());
    assert("Server not found for channel"@.len()
        != "Only the thread creator or an admin can archive a thread"@.len());
    if has_key(ts, thread_id) {
        let i0 = key_index(ts, thread_id);
        let t = ts[i0];
        assert forall|i: int| 0 <= i < ts.len() && (#[trigger] ts[i]).id == thread_id implies i == i0 by {
            lemma_key_index(ts, i);
        }
        if has_key(cs, t.channel_id) {
            let k0 = key_index(cs, t.channel_id);
            let c = cs[k0];
            assert forall|k: int| 0 <= k < cs.len() && (#[trigger] cs[k]).id == t.channel_id implies k
                == k0 by {
                lemma_key_index(cs, k);
            }
            let f = member_of(c.server_id, pre.sender);
            if first_match(ms, f) is Some {
                let j0 = first_index(ms, f);
                assert(is_first_match(ms, f, j0));
                assert forall|j: int|
                    0 <= j < ms.len() && (#[trigger] ms[j]).server_id == c.server_id
                        && ms[j].identity == pre.sender implies j == j0 by {
                    if j != j0 {
                        assert(!(membership_clash())(ms[j], ms[j0]));
                    }
                }
                if archive_thread_error(pre, thread_id) == Some(
                    "Only the thread creator or an admin can archive a thread"@,
                ) {
                    assert(lookup(ts, thread_id) == Some(t));
                    assert(lookup(cs, t.channel_id) == Some(c));
                    assert(t.creator != pre.sender);
                    assert(!is_admin_in(pre.db, c.server_id, pre.sender));
                    assert(role_level(ms[j0].role) < 3);
                    assert forall|k: int, j: int|
                        0 <= k < cs.len() && 0 <= j < ms.len() && (#[trigger] cs[k]).id == ts[i0].channel_id
                            && (#[trigger] ms[j]).server_id == cs[k].server_id && ms[j].identity
                            == pre.sender implies role_level(ms[j].role) < 3 by {
                        assert(k == k0);
                        assert(j == j0);
                    }
                    assert forall|i: int| 0 <= i < ts.len() && (#[trigger] ts[i]).id == thread_id implies (
                    ts[i].creator != pre.sender && forall|k: int, j: int|
                        0 <= k < cs.len() && 0 <= j < ms.len() && (#[trigger] cs[k]).id == ts[i].channel_id
                            && (#[trigger] ms[j]).server_id == cs[k].server_id && ms[j].identity
                            == pre.sender ==> role_level(ms[j].role) < 3) by {
                        assert(i == i0);
                    }
                }
                if archive_thread_error(pre, thread_id) is None && t.creator != pre.sender {
                    assert(0 <= k0 < cs.len() && 0 <= j0 < ms.len() && cs[k0].id == ts[i0].channel_id
                        && ms[j0].server_id == cs[k0].server_id && ms[j0].identity == pre.sender
                        && role_level(ms[j0].role) >= 3);
                }
            } else {
                assert forall|j: int|
                    0 <= j < ms.len() && (#[trigger] ms[j]).server_id == c.server_id
                        && ms[j].identity == pre.sender implies false by {
                    lemma_first_match_some(ms, f, j);
                }
                if archive_thread_error(pre, thread_id) == Some(
                    "Only the thread creator or an admin can archive a thread"@,
                ) {
                    assert(lookup(ts, thread_id) == Some(t));
                    assert(lookup(cs, t.channel_id) == Some(c));
                    assert(t.creator != pre.sender);
                    assert forall|k: int, j: int|
                        0 <= k < cs.len() && 0 <= j < ms.len() && (#[trigger] cs[k]).id == ts[i0].channel_id
                            && (#[trigger] ms[j]).server_id == cs[k].server_id && ms[j].identity
                            == pre.sender implies role_level(ms[j].role) < 3 by {
                        assert(k == k0);
                    }
                    assert forall|i: int| 0 <= i < ts.len() && (#[trigger] ts[i]).id == thread_id implies (
                    ts[i].creator != pre.sender && forall|k: int, j: int|
                        0 <= k < cs.len() && 0 <= j < ms.len() && (#[trigger] cs[k]).id == ts[i].channel_id
                            && (#[trigger] ms[j]).server_id == cs[k].server_id && ms[j].identity
                            == pre.sender ==> role_level(ms[j].role) < 3) by {
                        assert(i == i0);
                    }
                }
            }
        }
        assert(0 <= i0 < ts.len() && ts[i0].id == thread_id);
    } else {
        assert forall|i: int| 0 <= i < ts.len() && (#[trigger] ts[i]).id == thread_id implies false by {
            assert(ts[i].key() == thread_id);
        }
    }
}

/// `who` holds a role of Admin level or above in server `server_id`.
pub open spec fn admin_row(db: Database, server_id: u64, who: Identity) -> bool {
    exists|j: int|
        0 <= j < db.server_member@.len() && (#[trigger] db.server_member@[j]).server_id == server_id
            && db.server_member@[j].identity == who && role_level(db.server_member@[j].role) >= 3
}

/// In a well-formed database, being an admin of a server is having a
/// membership row of Admin level or above there.
pub proof fn lemma_admin_row(db: Database, server_id: u64, who: Identity)
    requires
        db.wf(),
    ensures
        is_admin_in(db, server_id, who) <==> admin_row(db, server_id, who),
{
    let ms = db.server_member@;
    let f = member_of(server_id, who);
    if first_match(ms, f) is Some {
        let j0 = first_index(ms, f);
        assert(is_first_match(ms, f, j0));
        assert forall|j: int|
            0 <= j < ms.len() && (#[trigger] ms[j]).server_id == server_id && ms[j].identity
                == who implies j == j0 by {
            if j != j0 {
                assert(!(membership_clash())(ms[j], ms[j0]));
            }
        }
        if is_admin_in(db, server_id, who) {
            assert(ms[j0].server_id == server_id);
        }
    } else {
        assert forall|j: int|
            0 <= j < ms.len() && (#[trigger] ms[j]).server_id == server_id && ms[j].identity
                == who implies false by {
            lemma_first_match_some(ms, f, j);
        }
    }
}

/// Only a message's sender or an Admin (or Owner) of its server can delete
/// it: a delete that is not refused had such a caller, and a refusal for want
/// of permission means the caller is neither.
pub proof fn law_delete_message_needs_sender_or_admin(pre: ReducerContext, message_id: u64)
    requires
        pre.db.wf(),
    ensures
        delete_message_error(pre, message_id) is None ==> exists|i: int|
            0 <= i < pre.db.message@.len() && (#[trigger] pre.db.message@[i]).id == message_id && (
            pre.db.message@[i].sender == pre.sender || exists|k: int|
                0 <= k < pre.db.channel@.len() && (#[trigger] pre.db.channel@[k]).id
                    == pre.db.message@[i].channel_id && admin_row(
                    pre.db,
                    pre.db.channel@[k].server_id,
                    pre.sender,
                )),
        delete_message_error(pre, message_id) == Some(
            "You can only delete your own messages, or be an admin"@,
        ) ==> forall|i: int|
            0 <= i < pre.db.message@.len() && (#[trigger] pre.db.message@[i]).id == message_id ==> (
            pre.db.message@[i].sender != pre.sender && forall|k: int|
                0 <= k < pre.db.channel@.len() && (#[trigger] pre.db.channel@[k]).id
                    == pre.db.message@[i].channel_id ==> !admin_row(
                    pre.db,
                    pre.db.channel@[k].server_id,
                    pre.sender,
                )),
{
    let ms = pre.db.message@;
    let cs = pre.db.channel@;
    reveal_strlit("Channel not found");
    reveal_strlit("Server not found for channel");
    reveal_strlit("You can only delete your own messages, or be an admin");
    assert("Channel not found"@.len() != "You can only delete your own messages, or be an admin"@.len());
    assert("Server not found for channel"@.len()
        != "You can only delete your own messages, or be an admin"@.len());
    if has_key(ms, message_id) {
        let i0 = key_index(ms, message_id);
        let m = ms[i0];
        assert forall|i: int| 0 <= i < ms.len() && (#[trigger] ms[i]).id == message_id implies i == i0 by {
            lemma_key_index(ms, i);
        }
        assert(lookup(ms, message_id) == Some(m));
        if has_key(cs, m.channel_id) {
            let k0 = key_index(cs, m.channel_id);
            let c = cs[k0];
            assert forall|k: int| 0 <= k < cs.len() && (#[trigger] cs[k]).id == m.channel_id implies k
                == k0 by {
                lemma_key_index(cs, k);
            }
            assert(lookup(cs, m.channel_id) == Some(c));
            lemma_admin_row(pre.db, c.server_id, pre.sender);
            if delete_message_error(pre, message_id) is None && m.sender != pre.sender {
                assert(0 <= k0 < cs.len() && cs[k0].id == ms[i0].channel_id);
            }
            if delete_message_error(pre, message_id) == Some(
                "You can only delete your own messages, or be an admin"@,
            ) {
                assert(m.sender != pre.sender);
                assert(!admin_row(pre.db, c.server_id, pre.sender));
                assert forall|i: int| 0 <= i < ms.len() && (#[trigger] ms[i]).id == message_id implies (
                ms[i].sender != pre.sender && forall|k: int|
                    0 <= k < cs.len() && (#[trigger] cs[k]).id == ms[i].channel_id ==> !admin_row(
                        pre.db,
                        cs[k].server_id,
                        pre.sender,
                    )) by {
                    assert(i == i0);
                    assert forall|k: int|
                        0 <= k < cs.len() && (#[trigger] cs[k]).id == ms[i].channel_id implies !admin_row(
                        pre.db,
                        cs[k].server_id,
                        pre.sender,
                    ) by {
                        assert(k == k0);
                    }
                }
            }
        }
        assert(0 <= i0 < ms.len() && ms[i0].id == message_id);
    } else {
        assert forall|i: int| 0 <= i < ms.len() && (#[trigger] ms[i]).id == message_id implies false by {
            assert(ms[i].key() == message_id);
        }
    }
}

/// Updating a server changes only what is given: a given name or description
/// replaces the old one, an omitted one is kept, and every other field and
/// every other server stays as it was.
pub proof fn law_update_server_changes_only_what_is_given(
    pre: ReducerContext,
    post: ReducerContext,
    server_id: u64,
    name: Option<String>,
    description: Option<String>,
)
    requires
        pre.db.wf(),
        update_server_error(pre, server_id, name) is None,
        update_server_done(pre, post, server_id, name, description),
    ensures
        post.db.server@.len() == pre.db.server@.len(),
        exists|i: int| 0 <= i < pre.db.server@.len() && (#[trigger] pre.db.server@[i]).id == server_id,
        forall|i: int|
            0 <= i < pre.db.server@.len() && (#[trigger] pre.db.server@[i]).id != server_id
                ==> post.db.server@[i] == pre.db.server@[i],
        forall|i: int|
            0 <= i < pre.db.server@.len() && (#[trigger] pre.db.server@[i]).id == server_id ==> {
                let (a, b) = (pre.db.server@[i], post.db.server@[i]);
                &&& b.id == a.id
                &&& b.owner == a.owner
                &&& b.icon_url == a.icon_url
                &&& b.created_at == a.created_at
                &&& (name is None ==> b.name == a.name)
                &&& (name matches Some(n) ==> b.name == n)
                &&& (description is None ==> b.description == a.description)
                &&& (description matches Some(d) ==> b.description == Some(d))
            },
        post.db == (Database { server: post.db.server, ..pre.db }),
{
    let ss = pre.db.server@;
    let k = key_index(ss, server_id);
    assert(has_key(ss, server_id));
    assert(0 <= k < ss.len() && ss[k].id == server_id);
    assert forall|i: int| 0 <= i < ss.len() && (#[trigger] ss[i]).id == server_id implies i == k by {
        lemma_key_index(ss, i);
    }
}

/// A message sent to a channel is an ordinary text message from the caller,
/// with exactly the content, thread and reply it was sent with, and new and
/// unedited; no other message changes.
pub proof fn law_sent_message_is_text(
    pre: ReducerContext,
    post: ReducerContext,
    channel_id: u64,
    content: String,
    thread_id: Option<u64>,
    reply_to_id: Option<u64>,
)
    requires
        send_message_done(pre, post, channel_id, content, thread_id, reply_to_id),
    ensures
        post.db.message@.len() == pre.db.message@.len() + 1,
        post.db.message@.drop_last() == pre.db.message@,
        post.db.message@.last().message_type == MessageType::Text,
        post.db.message@.last().sender == pre.sender,
        post.db.message@.last().content == content,
        post.db.message@.last().channel_id == channel_id,
        post.db.message@.last().thread_id == thread_id,
        post.db.message@.last().reply_to_id == reply_to_id,
        post.db.message@.last().edited_at is None,
        post.db.message@.last().created_at == pre.timestamp,
{
    assert(post.db.message@.drop_last() =~= pre.db.message@);
}

/// Passing the Admin role check means holding a membership row of Admin level
/// or above.
pub proof fn lemma_role_check_admin(db: Database, server_id: u64, who: Identity)
    requires
        role_check(db, server_id, who, MemberRole::Admin) is Ok,
    ensures
        admin_row(db, server_id, who),
{
    let f = member_of(server_id, who);
    let j0 = first_index(db.server_member@, f);
    assert(is_first_match(db.server_member@, f, j0));
    assert(db.server_member@[j0].server_id == server_id);
}

/// The channel with id `channel_id` lies in a server where `who` is an Admin
/// or above.
pub open spec fn admin_of_channel(db: Database, channel_id: u64, who: Identity) -> bool {
    exists|k: int|
        0 <= k < db.channel@.len() && (#[trigger] db.channel@[k]).id == channel_id && admin_row(
            db,
            db.channel@[k].server_id,
            who,
        )
}

/// Creating, renaming and deleting channels and updating a server are for
/// its Admins and Owner: none of them goes through for anyone else.
pub proof fn law_management_needs_admin(
    pre: ReducerContext,
    server_id: u64,
    channel_id: u64,
    channel_name: Seq<char>,
    new_name: Option<String>,
)
    ensures
        create_channel_error(pre, server_id, channel_name) is None ==> admin_row(
            pre.db,
            server_id,
            pre.sender,
        ),
        update_server_error(pre, server_id, new_name) is None ==> admin_row(
            pre.db,
            server_id,
            pre.sender,
        ),
        update_channel_error(pre, channel_id, new_name) is None ==> admin_of_channel(
            pre.db,
            channel_id,
            pre.sender,
        ),
        delete_channel_error(pre, channel_id) is None ==> admin_of_channel(
            pre.db,
            channel_id,
            pre.sender,
        ),
{
    if create_channel_error(pre, server_id, channel_name) is None
        || update_server_error(pre, server_id, new_name) is None {
        lemma_role_check_admin(pre.db, server_id, pre.sender);
    }
    let cs = pre.db.channel@;
    if update_channel_error(pre, channel_id, new_name) is None || delete_channel_error(pre, channel_id)
        is None {
        let k = key_index(cs, channel_id);
        assert(has_key(cs, channel_id));
        lemma_role_check_admin(pre.db, cs[k].server_id, pre.sender);
        assert(0 <= k < cs.len() && cs[k].id == channel_id);
    }
}

/// Only a server's owner can delete it.
pub proof fn law_only_owner_deletes_server(pre: ReducerContext, server_id: u64)
    ensures
        delete_server_error(pre, server_id) is None ==> exists|i: int|
            0 <= i < pre.db.server@.len() && (#[trigger] pre.db.server@[i]).id == server_id
                && pre.db.server@[i].owner == pre.sender,
{
    let ss = pre.db.server@;
    if delete_server_error(pre, server_id) is None {
        let k = key_index(ss, server_id);
        assert(0 <= k < ss.len() && ss[k].id == server_id);
    }
}

/// Only a message's sender can edit it, and only a direct message's sender
/// can edit or delete it; only a participant can mark a conversation read.
pub proof fn law_only_sender_changes_own_messages(
    pre: ReducerContext,
    message_id: u64,
    conversation_id: u64,
    new_content: Seq<char>,
)
    ensures
        edit_message_error(pre, message_id, new_content) is None ==> exists|i: int|
            0 <= i < pre.db.message@.len() && (#[trigger] pre.db.message@[i]).id == message_id
                && pre.db.message@[i].sender == pre.sender,
        edit_direct_message_error(pre, message_id, new_content) is None ==> exists|i: int|
            0 <= i < pre.db.direct_message@.len() && (#[trigger] pre.db.direct_message@[i]).id
                == message_id && pre.db.direct_message@[i].sender == pre.sender,
        delete_direct_message_error(pre, message_id) is None ==> exists|i: int|
            0 <= i < pre.db.direct_message@.len() && (#[trigger] pre.db.direct_message@[i]).id
                == message_id && pre.db.direct_message@[i].sender == pre.sender,
        mark_dm_read_error(pre, conversation_id) is None ==> exists|i: int|
            0 <= i < pre.db.direct_conversation@.len() && (
            #[trigger] pre.db.direct_conversation@[i]).id == conversation_id && (
            pre.db.direct_conversation@[i].participant_a == pre.sender
                || pre.db.direct_conversation@[i].participant_b == pre.sender),
{
    let ms = pre.db.message@;
    let ds = pre.db.direct_message@;
    let cs = pre.db.direct_conversation@;
    if edit_message_error(pre, message_id, new_content) is None {
        let k = key_index(ms, message_id);
        assert(0 <= k < ms.len() && ms[k].id == message_id);
    }
    if edit_direct_message_error(pre, message_id, new_content) is None
        || delete_direct_message_error(pre, message_id) is None {
        let k = key_index(ds, message_id);
        assert(0 <= k < ds.len() && ds[k].id == message_id);
    }
    if mark_dm_read_error(pre, conversation_id) is None {
        let k = key_index(cs, conversation_id);
        assert(0 <= k < cs.len() && cs[k].id == conversation_id);
    }
}

/// Editing a message replaces its content and marks it edited now; its
/// sender, channel, thread, kind, time and reply stay, and so does every
/// other message.
pub proof fn law_edit_message_changes_only_the_text(
    pre: ReducerContext,
    post: ReducerContext,
    message_id: u64,
    new_content: String,
)
    requires
        pre.db.wf(),
        edit_message_error(pre, message_id, new_content@) is None,
        edit_message_done(pre, post, message_id, new_content),
    ensures
        post.db.message@.len() == pre.db.message@.len(),
        forall|i: int|
            0 <= i < pre.db.message@.len() && (#[trigger] pre.db.message@[i]).id != message_id
                ==> post.db.message@[i] == pre.db.message@[i],
        forall|i: int|
            0 <= i < pre.db.message@.len() && (#[trigger] pre.db.message@[i]).id == message_id ==> {
                let (a, b) = (pre.db.message@[i], post.db.message@[i]);
                &&& b.content == new_content
                &&& b.edited_at == Some(pre.timestamp)
                &&& b.id == a.id
                &&& b.sender == a.sender
                &&& b.channel_id == a.channel_id
                &&& b.thread_id == a.thread_id
                &&& b.message_type == a.message_type
                &&& b.created_at == a.created_at
                &&& b.reply_to_id == a.reply_to_id
            },
        post.db == (Database { message: post.db.message, ..pre.db }),
{
    let ms = pre.db.message@;
    let k = key_index(ms, message_id);
    assert(has_key(ms, message_id));
    assert forall|i: int| 0 <= i < ms.len() && (#[trigger] ms[i]).id == message_id implies i == k by {
        lemma_key_index(ms, i);
    }
}

/// Deleting a direct message removes that message only.
pub proof fn law_delete_direct_message_keeps_the_rest(
    pre: ReducerContext,
    post: ReducerContext,
    message_id: u64,
)
    requires
        delete_direct_message_done(pre, post, message_id),
    ensures
        forall|i: int|
            0 <= i < pre.db.direct_message@.len() && (#[trigger] pre.db.direct_message@[i]).id
                != message_id ==> post.db.direct_message@.contains(pre.db.direct_message@[i]),
        forall|i: int|
            0 <= i < post.db.direct_message@.len() ==> (#[trigger] post.db.direct_message@[i]).id
                != message_id && pre.db.direct_message@.contains(post.db.direct_message@[i]),
        post.db.direct_conversation == pre.db.direct_conversation,
{
    let ds = pre.db.direct_message@;
    lemma_keep_contains(ds, key_is_not::<DirectMessage>(message_id));
    assert forall|i: int|
        0 <= i < ds.len() && (#[trigger] ds[i]).id != message_id implies post.db.direct_message@.contains(
        ds[i],
    ) by {
        assert(ds.contains(ds[i]));
    }
    assert forall|i: int| 0 <= i < post.db.direct_message@.len() implies (
    #[trigger] post.db.direct_message@[i]).id != message_id && ds.contains(post.db.direct_message@[i]) by {
        assert(post.db.direct_message@.contains(post.db.direct_message@[i]));
    }
}

/// Leaving a server removes the caller's own membership there and no other.
pub proof fn law_leave_keeps_other_memberships(pre: ReducerContext, post: ReducerContext, server_id: u64)
    requires
        pre.db.wf(),
        leave_server_error(pre, server_id) is None,
        leave_server_done(pre, post, server_id),
    ensures
        forall|i: int|
            0 <= i < pre.db.server_member@.len() && !((#[trigger] pre.db.server_member@[i]).server_id
                == server_id && pre.db.server_member@[i].identity == pre.sender)
                ==> post.db.server_member@.contains(pre.db.server_member@[i]),
        forall|i: int|
            0 <= i < post.db.server_member@.len() ==> pre.db.server_member@.contains(
                #[trigger] post.db.server_member@[i],
            ),
{
    let ms = pre.db.server_member@;
    let f = member_of(server_id, pre.sender);
    let j0 = first_index(ms, f);
    assert(is_first_match(ms, f, j0));
    let m = ms[j0];
    lemma_keep_contains(ms, key_is_not::<ServerMember>(m.id));
    assert forall|i: int|
        0 <= i < ms.len() && !((#[trigger] ms[i]).server_id == server_id && ms[i].identity
            == pre.sender) implies post.db.server_member@.contains(ms[i]) by {
        if ms[i].id == m.id {
            lemma_key_index(ms, i);
            lemma_key_index(ms, j0);
        }
        assert(ms.contains(ms[i]));
    }
    assert forall|i: int| 0 <= i < post.db.server_member@.len() implies ms.contains(
        #[trigger] post.db.server_member@[i],
    ) by {
        assert(post.db.server_member@.contains(post.db.server_member@[i]));
    }
}

/// A role change changes the target's role in that server and nothing else:
/// every other membership, and every other field of the target's, stays.
pub proof fn law_role_change_touches_only_the_target(
    pre: ReducerContext,
    post: ReducerContext,
    server_id: u64,
    target_identity: Identity,
    new_role: MemberRole,
)
    requires
        pre.db.wf(),
        update_member_role_error(pre, server_id, target_identity, new_role) is None,
        update_member_role_done(pre, post, server_id, target_identity, new_role),
    ensures
        post.db.server_member@.len() == pre.db.server_member@.len(),
        forall|i: int|
            0 <= i < pre.db.server_member@.len() && !((#[trigger] pre.db.server_member@[i]).server_id
                == server_id && pre.db.server_member@[i].identity == target_identity)
                ==> post.db.server_member@[i] == pre.db.server_member@[i],
        forall|i: int|
            0 <= i < pre.db.server_member@.len() && (#[trigger] pre.db.server_member@[i]).server_id
                == server_id && pre.db.server_member@[i].identity == target_identity
                ==> post.db.server_member@[i] == (ServerMember {
                role: new_role,
                ..pre.db.server_member@[i]
            }),
        post.db == (Database { server_member: post.db.server_member, ..pre.db }),
{
    let ms = pre.db.server_member@;
    let f = member_of(server_id, target_identity);
    let j0 = first_index(ms, f);
    assert(is_first_match(ms, f, j0));
    let t = ms[j0];
    lemma_key_index(ms, j0);
    assert forall|i: int|
        0 <= i < ms.len() && (#[trigger] ms[i]).server_id == server_id && ms[i].identity
            == target_identity implies i == j0 by {
        if i != j0 {
            assert(!(membership_clash())(ms[i], ms[j0]));
        }
    }
}

} // verus!
