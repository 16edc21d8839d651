//! Servers: creation, update, deletion, membership and roles.
use vstd::prelude::*;

use crate::auth::{member_check, require_member, require_role, role_check, get_membership};
use crate::cascade::{clear_channel_contents, contents_cleared, Scope};
use crate::db::{
    general_channel_of, lemma_wf_member_push, lemma_wf_member_update, lemma_wf_members_keep,
    member_of, same_call, Database, ReducerContext,
};
use crate::identity::{Identity, Timestamp};
use crate::rows::{
    any_match, delete_by_key, find_key, first_match, get_by_key, keep, key_index, key_is_not,
    lemma_first_match_some, lemma_keep_contains, lemma_keep_table_ok, lemma_key_index, lemma_push_table_ok,
    lemma_update_table_ok, lookup, update_by_key,
};
use crate::tables::{copy_opt_string, Channel, Message, Server, ServerMember, TableRow};
use crate::types::{role_level, ChannelType, MemberRole, MessageType};
use crate::validation::{
    can_modify_role, error_text, guard_only_owner_deletes, guard_owner_cannot_leave,
    modify_role_error, name_error, outcome_is, owner_delete_error, owner_leave_error, validate_name,
};

verus! {

/// A server's default channel: `#general`, a text channel at position 0.
pub open spec fn is_default_channel(c: Channel, id: u64, server_id: u64, ctx: ReducerContext) -> bool {
    &&& c.id == id
    &&& c.server_id == server_id
    &&& c.name@ == "general"@
    &&& c.topic matches Some(t) && t@ == "General discussion"@
    &&& c.channel_type == ChannelType::Text
    &&& c.position == 0
    &&& c.created_at == ctx.timestamp
}

pub open spec fn create_server_error(ctx: ReducerContext, name: Seq<char>) -> Option<Seq<char>> {
    if name_error(name, "Server"@) is Some {
        name_error(name, "Server"@)
    } else if ctx.db.spec_profile(ctx.sender) is None {
        Some("Must be connected to create a server"@)
    } else {
        None
    }
}

/// The server is added, owned by the caller; the caller joins it as Owner;
/// its `#general` channel is added. Nothing else changes.
pub open spec fn create_server_done(
    pre: ReducerContext,
    post: ReducerContext,
    name: String,
    description: Option<String>,
) -> bool {
    let db = pre.db;
    let sid = db.server_next_id;
    &&& post.db.server@ == db.server@.push(
        Server {
            id: sid,
            name: name,
            description: description,
            icon_url: None,
            owner: pre.sender,
            created_at: pre.timestamp,
        },
    )
    &&& post.db.server_member@ == db.server_member@.push(
        ServerMember {
            id: db.server_member_next_id,
            server_id: sid,
            identity: pre.sender,
            role: MemberRole::Owner,
            joined_at: pre.timestamp,
        },
    )
    &&& post.db.channel@.len() == db.channel@.len() + 1
    &&& post.db.channel@.drop_last() == db.channel@
    &&& is_default_channel(post.db.channel@.last(), db.channel_next_id, sid, pre)
    &&& post.db == Database {
        server: post.db.server,
        server_next_id: (sid + 1) as u64,
        server_member: post.db.server_member,
        server_member_next_id: (db.server_member_next_id + 1) as u64,
        channel: post.db.channel,
        channel_next_id: (db.channel_next_id + 1) as u64,
        ..db
    }
}

/// Creates a server owned by the caller, with the caller as its Owner member
/// and a default `#general` channel.
pub fn create_server(ctx: &mut ReducerContext, name: String, description: Option<String>) -> (r:
    Result<(), String>)
    requires
        old(ctx).db.wf(),
        old(ctx).db.server_next_id < u64::MAX,
        old(ctx).db.server_member_next_id < u64::MAX,
        old(ctx).db.channel_next_id < u64::MAX,
    ensures
        outcome_is(r, create_server_error(*old(ctx), name@)),
        same_call(*old(ctx), *final(ctx)),
        final(ctx).db.wf(),
        r is Err ==> final(ctx).db == old(ctx).db,
        r is Ok ==> create_server_done(*old(ctx), *final(ctx), name, description),
{
    let ghost pre = *ctx;
    let ghost name_in = name;
    let ghost description_in = description;
    if let Err(e) = validate_name(name.as_str(), "Server") {
        return Err(e);
    }
    if ctx.db.find_profile(ctx.sender()).is_none() {
        return error_text("Must be connected to create a server");
    }
    let sid = ctx.db.server_next_id;
    let server = Server {
        id: sid,
        name,
        description,
        icon_url: None,
        owner: ctx.sender(),
        created_at: ctx.timestamp,
    };
    proof {
        lemma_push_table_ok(ctx.db.server@, server, sid);
    }
    ctx.db.server.push(server);
    ctx.db.server_next_id = sid + 1;

    // Add owner as member
    let mid = ctx.db.server_member_next_id;
    let member = ServerMember {
        id: mid,
        server_id: sid,
        identity: ctx.sender(),
        role: MemberRole::Owner,
        joined_at: ctx.timestamp,
    };
    proof {
        lemma_push_table_ok(ctx.db.server_member@, member, mid);
    }
    ctx.db.server_member.push(member);
    ctx.db.server_member_next_id = mid + 1;

    // Create default #general channel
    let cid = ctx.db.channel_next_id;
    let channel = Channel {
        id: cid,
        server_id: sid,
        name: String::from_str("general"),
        topic: Some(String::from_str("General discussion")),
        channel_type: ChannelType::Text,
        position: 0,
        created_at: ctx.timestamp,
    };
    proof {
        lemma_push_table_ok(ctx.db.channel@, channel, cid);
    }
    ctx.db.channel.push(channel);
    ctx.db.channel_next_id = cid + 1;
    proof {
        let db = ctx.db;
        assert(db.channel@.drop_last() =~= pre.db.channel@);
        assert forall|i: int|
            0 <= i < db.server_member@.len() && (#[trigger] db.server_member@[i]).role
                == MemberRole::Owner implies exists|j: int|
            0 <= j < db.server@.len() && (#[trigger] db.server@[j]).id == db.server_member@[i].server_id
                && db.server@[j].owner == db.server_member@[i].identity by {
            if i < pre.db.server_member@.len() {
                assert(db.server_member@[i] == pre.db.server_member@[i]);
                let j = choose|j: int|
                    0 <= j < pre.db.server@.len() && (#[trigger] pre.db.server@[j]).id
                        == pre.db.server_member@[i].server_id && pre.db.server@[j].owner
                        == pre.db.server_member@[i].identity;
                assert(db.server@[j] == pre.db.server@[j]);
            } else {
                assert(db.server@[db.server@.len() - 1].id == sid);
            }
        }
        assert forall|i: int, j: int|
            #![trigger db.server_member@[i], db.server_member@[j]]
            0 <= i < db.server_member@.len() && 0 <= j < db.server_member@.len() && i != j implies !(
            db.server_member@[i].server_id == db.server_member@[j].server_id
                && db.server_member@[i].identity == db.server_member@[j].identity) by {
            let n = pre.db.server_member@.len();
            if i < n && j < n {
                assert(db.server_member@[i] == pre.db.server_member@[i]);
                assert(db.server_member@[j] == pre.db.server_member@[j]);
            } else if i < n {
                assert(pre.db.server_member@[i].server_id < sid);
            } else {
                assert(pre.db.server_member@[j].server_id < sid);
            }
        }
        assert forall|i: int| 0 <= i < db.server_member@.len() implies (
        #[trigger] db.server_member@[i]).server_id < db.server_next_id by {
            if i < pre.db.server_member@.len() {
                assert(db.server_member@[i] == pre.db.server_member@[i]);
            }
        }
    }
    Ok(())
}


// ---------------------------------------------------------------------------
// update_server
// ---------------------------------------------------------------------------

/// The name a server gets from an update: the new one, or the old one kept.
pub open spec fn updated_name(name: Option<String>, old_name: String) -> String {
    match name {
        Some(n) => n,
        None => old_name,
    }
}

/// An optional text field after an update: the new value, or the old one kept.
pub open spec fn updated_text(new: Option<String>, old: Option<String>) -> Option<String> {
    match new {
        Some(v) => Some(v),
        None => old,
    }
}

pub open spec fn update_server_error(ctx: ReducerContext, server_id: u64, name: Option<String>) -> Option<
    Seq<char>,
> {
    match role_check(ctx.db, server_id, ctx.sender, MemberRole::Admin) {
        Err(msg) => Some(msg),
        Ok(_) => match lookup(ctx.db.server@, server_id) {
            None => Some("Server not found"@),
            Some(s) => name_error(updated_name(name, s.name)@, "Server"@),
        },
    }
}

/// The server row gets the new name and description (each kept when not given).
pub open spec fn update_server_done(
    pre: ReducerContext,
    post: ReducerContext,
    server_id: u64,
    name: Option<String>,
    description: Option<String>,
) -> bool {
    let db = pre.db;
    let s = lookup(db.server@, server_id).unwrap();
    &&& post.db.server@ == db.server@.update(
        key_index(db.server@, server_id),
        Server {
            name: updated_name(name, s.name),
            description: updated_text(description, s.description),
            ..s
        },
    )
    &&& post.db == Database { server: post.db.server, ..db }
}

/// Renames a server and/or changes its description; requires Admin or higher.
pub fn update_server(
    ctx: &mut ReducerContext,
    server_id: u64,
    name: Option<String>,
    description: Option<String>,
) -> (r: Result<(), String>)
    requires
        old(ctx).db.wf(),
    ensures
        outcome_is(r, update_server_error(*old(ctx), server_id, name)),
        same_call(*old(ctx), *final(ctx)),
        final(ctx).db.wf(),
        r is Err ==> final(ctx).db == old(ctx).db,
        r is Ok ==> update_server_done(*old(ctx), *final(ctx), server_id, name, description),
{
    let ghost pre = *ctx;
    if let Err(e) = require_role(ctx, server_id, MemberRole::Admin) {
        return Err(e);
    }
    let server = match get_by_key(&ctx.db.server, server_id) {
        Some(s) => s,
        None => return error_text("Server not found"),
    };
    let new_name = match name {
        Some(n) => n,
        None => server.name.clone(),
    };
    if let Err(e) = validate_name(new_name.as_str(), "Server") {
        return Err(e);
    }
    let new_description = match description {
        Some(d) => Some(d),
        None => copy_opt_string(&server.description),
    };
    let row = Server { name: new_name, description: new_description, ..server };
    proof {
        let k = key_index(pre.db.server@, server_id);
        lemma_update_table_ok(pre.db.server@, k, row, pre.db.server_next_id);
    }
    update_by_key(&mut ctx.db.server, row);
    proof {
        let db = ctx.db;
        let k = key_index(pre.db.server@, server_id);
        assert forall|i: int|
            0 <= i < db.server_member@.len() && (#[trigger] db.server_member@[i]).role
                == MemberRole::Owner implies exists|j: int|
            0 <= j < db.server@.len() && (#[trigger] db.server@[j]).id == db.server_member@[i].server_id
                && db.server@[j].owner == db.server_member@[i].identity by {
            let j = choose|j: int|
                0 <= j < pre.db.server@.len() && (#[trigger] pre.db.server@[j]).id
                    == pre.db.server_member@[i].server_id && pre.db.server@[j].owner
                    == pre.db.server_member@[i].identity;
            assert(db.server@[j].id == pre.db.server@[j].id);
        }
    }
    Ok(())
}

// ---------------------------------------------------------------------------
// delete_server
// ---------------------------------------------------------------------------

pub open spec fn channel_outside(server_id: u64) -> spec_fn(Channel) -> bool {
    |c: Channel| c.server_id != server_id
}

pub open spec fn member_outside(server_id: u64) -> spec_fn(ServerMember) -> bool {
    |m: ServerMember| m.server_id != server_id
}

pub open spec fn delete_server_error(ctx: ReducerContext, server_id: u64) -> Option<Seq<char>> {
    match lookup(ctx.db.server@, server_id) {
        None => Some("Server not found"@),
        Some(s) => owner_delete_error(s.owner == ctx.sender),
    }
}

/// The server is gone, with its channels, their messages, those messages'
/// reactions, the channels' threads, and the server's memberships.
pub open spec fn delete_server_done(pre: ReducerContext, post: ReducerContext, server_id: u64) -> bool {
    let db = pre.db;
    exists|mid: Database|
        {
            &&& contents_cleared(db, mid, Scope::Server(server_id))
            &&& post.db.channel@ == keep(db.channel@, channel_outside(server_id))
            &&& post.db.server_member@ == keep(db.server_member@, member_outside(server_id))
            &&& post.db.server@ == keep(db.server@, key_is_not::<Server>(server_id))
            &&& post.db == Database {
                channel: post.db.channel,
                server_member: post.db.server_member,
                server: post.db.server,
                ..mid
            }
        }
}

/// Deletes a server and everything in it; only its owner may.
pub fn delete_server(ctx: &mut ReducerContext, server_id: u64) -> (r: Result<(), String>)
    requires
        old(ctx).db.wf(),
    ensures
        outcome_is(r, delete_server_error(*old(ctx), server_id)),
        same_call(*old(ctx), *final(ctx)),
        final(ctx).db.wf(),
        r is Err ==> final(ctx).db == old(ctx).db,
        r is Ok ==> delete_server_done(*old(ctx), *final(ctx), server_id),
{
    let ghost pre = *ctx;
    let server = match get_by_key(&ctx.db.server, server_id) {
        Some(s) => s,
        None => return error_text("Server not found"),
    };
    if let Err(e) = guard_only_owner_deletes(server.owner == ctx.sender()) {
        return Err(e);
    }

    // Cascade delete: messages (with their reactions) and threads of the server's channels
    clear_channel_contents(&mut ctx.db, Scope::Server(server_id));
    let ghost mid = ctx.db;

    // Delete channels
    let mut channels: Vec<Channel> = Vec::new();
    let mut i: usize = 0;
    while i < ctx.db.channel.len()
        invariant
            ctx.db == mid,
            i <= ctx.db.channel@.len(),
            channels@ == keep(ctx.db.channel@.take(i as int), channel_outside(server_id)),
        decreases ctx.db.channel@.len() - i,
    {
        assert(ctx.db.channel@.take(i as int + 1).drop_last() =~= ctx.db.channel@.take(i as int));
        if ctx.db.channel[i].server_id != server_id {
            channels.push(ctx.db.channel[i].duplicate());
        }
        i = i + 1;
    }
    assert(ctx.db.channel@.take(ctx.db.channel@.len() as int) =~= ctx.db.channel@);
    proof {
        lemma_keep_table_ok(mid.channel@, channel_outside(server_id), mid.channel_next_id);
    }
    ctx.db.channel = channels;

    // Delete members
    let ghost mid2 = ctx.db;
    let mut members: Vec<ServerMember> = Vec::new();
    let mut i: usize = 0;
    while i < ctx.db.server_member.len()
        invariant
            ctx.db == mid2,
            i <= ctx.db.server_member@.len(),
            members@ == keep(ctx.db.server_member@.take(i as int), member_outside(server_id)),
        decreases ctx.db.server_member@.len() - i,
    {
        assert(ctx.db.server_member@.take(i as int + 1).drop_last() =~= ctx.db.server_member@.take(
            i as int,
        ));
        if ctx.db.server_member[i].server_id != server_id {
            members.push(ctx.db.server_member[i].duplicate());
        }
        i = i + 1;
    }
    assert(ctx.db.server_member@.take(ctx.db.server_member@.len() as int) =~= ctx.db.server_member@);
    ctx.db.server_member = members;
    proof {
        lemma_wf_members_keep(mid2, ctx.db, member_outside(server_id));
    }

    // Delete the server
    let ghost mid3 = ctx.db;
    delete_by_key(&mut ctx.db.server, server_id);
    proof {
        let db = ctx.db;
        lemma_keep_table_ok(mid3.server@, key_is_not::<Server>(server_id), mid3.server_next_id);
        lemma_keep_contains(mid3.server@, key_is_not::<Server>(server_id));
        assert forall|i: int|
            0 <= i < db.server_member@.len() && (#[trigger] db.server_member@[i]).role
                == MemberRole::Owner implies exists|j: int|
            0 <= j < db.server@.len() && (#[trigger] db.server@[j]).id == db.server_member@[i].server_id
                && db.server@[j].owner == db.server_member@[i].identity by {
            let m = db.server_member@[i];
            let j = choose|j: int|
                0 <= j < mid3.server@.len() && (#[trigger] mid3.server@[j]).id == m.server_id
                    && mid3.server@[j].owner == m.identity;
            lemma_keep_contains(mid2.server_member@, member_outside(server_id));
            assert(db.server_member@.contains(m));
            assert((key_is_not::<Server>(server_id))(mid3.server@[j]));
            assert(mid3.server@.contains(mid3.server@[j]));
            assert(db.server@.contains(mid3.server@[j]));
            let k = choose|k: int| 0 <= k < db.server@.len() && db.server@[k] == mid3.server@[j];
            assert(db.server@[k].id == m.server_id);
        }
        assert(delete_server_done(pre, *ctx, server_id));
    }
    Ok(())
}

// ---------------------------------------------------------------------------
// join_server / leave_server
// ---------------------------------------------------------------------------

/// A system message of the given kind and text, by `sender` at `ts`, in channel `channel_id`.
pub open spec fn is_announcement(
    m: Message,
    id: u64,
    channel_id: u64,
    sender: Identity,
    text: Seq<char>,
    kind: MessageType,
    ts: Timestamp,
) -> bool {
    &&& m.id == id
    &&& m.channel_id == channel_id
    &&& m.thread_id is None
    &&& m.sender == sender
    &&& m.content@ == text
    &&& m.message_type == kind
    &&& m.created_at == ts
    &&& m.edited_at is None
    &&& m.reply_to_id is None
}

/// When the server has a `#general` channel, the announcement is appended to
/// the messages; otherwise the messages stay as they were.
pub open spec fn announced(
    pre: Database,
    post: Database,
    server_id: u64,
    sender: Identity,
    text: Seq<char>,
    kind: MessageType,
    ts: Timestamp,
) -> bool {
    match first_match(pre.channel@, general_channel_of(server_id)) {
        None => post.message == pre.message && post.message_next_id == pre.message_next_id,
        Some(g) => {
            &&& post.message@.len() == pre.message@.len() + 1
            &&& post.message@.drop_last() == pre.message@
            &&& is_announcement(
                post.message@.last(),
                pre.message_next_id,
                g.id,
                sender,
                text,
                kind,
                ts,
            )
            &&& post.message_next_id == pre.message_next_id + 1
        },
    }
}

/// Posts a system message in the server's first `#general` channel, if it has one.
fn announce(
    db: &mut Database,
    server_id: u64,
    sender: Identity,
    content: String,
    kind: MessageType,
    ts: Timestamp,
)
    requires
        old(db).wf(),
        old(db).message_next_id < u64::MAX,
    ensures
        announced(*old(db), *final(db), server_id, sender, content@, kind, ts),
        *final(db) == (Database { message: final(db).message, message_next_id: final(db).message_next_id, ..*old(db) }),
        final(db).wf(),
{
    if let Some(gi) = db.find_general_channel(server_id) {
        let id = db.message_next_id;
        let msg = Message {
            id,
            channel_id: db.channel[gi].id,
            thread_id: None,
            sender,
            content,
            message_type: kind,
            created_at: ts,
            edited_at: None,
            reply_to_id: None,
        };
        proof {
            lemma_push_table_ok(db.message@, msg, id);
        }
        db.message.push(msg);
        db.message_next_id = id + 1;
        assert(db.message@.drop_last() =~= old(db).message@);
    }
}

pub open spec fn join_server_error(ctx: ReducerContext, server_id: u64) -> Option<Seq<char>> {
    if lookup(ctx.db.server@, server_id) is None {
        Some("Server not found"@)
    } else if ctx.db.spec_profile(ctx.sender) is None {
        Some("Must be connected to join a server"@)
    } else if ctx.db.spec_membership(server_id, ctx.sender) is Some {
        Some("Already a member of this server"@)
    } else {
        None
    }
}

/// The role a joining user gets: Agent for agents, Member otherwise.
pub open spec fn joining_role(is_agent: bool) -> MemberRole {
    if is_agent {
        MemberRole::Agent
    } else {
        MemberRole::Member
    }
}

/// The caller becomes a member (Agent if registered as an agent) and a join
/// message is posted in the server's `#general` channel.
pub open spec fn join_server_done(pre: ReducerContext, post: ReducerContext, server_id: u64) -> bool {
    let db = pre.db;
    let profile = db.spec_profile(pre.sender).unwrap();
    &&& post.db.server_member@ == db.server_member@.push(
        ServerMember {
            id: db.server_member_next_id,
            server_id: server_id,
            identity: pre.sender,
            role: joining_role(profile.is_agent),
            joined_at: pre.timestamp,
        },
    )
    &&& post.db.server_member_next_id == db.server_member_next_id + 1
    &&& announced(
        db,
        post.db,
        server_id,
        pre.sender,
        profile.username@ + " joined the server"@,
        MessageType::Join,
        pre.timestamp,
    )
    &&& post.db == Database {
        server_member: post.db.server_member,
        server_member_next_id: post.db.server_member_next_id,
        message: post.db.message,
        message_next_id: post.db.message_next_id,
        ..db
    }
}

/// Joins the caller to a server.
pub fn join_server(ctx: &mut ReducerContext, server_id: u64) -> (r: Result<(), String>)
    requires
        old(ctx).db.wf(),
        old(ctx).db.server_member_next_id < u64::MAX,
        old(ctx).db.message_next_id < u64::MAX,
    ensures
        outcome_is(r, join_server_error(*old(ctx), server_id)),
        same_call(*old(ctx), *final(ctx)),
        final(ctx).db.wf(),
        r is Err ==> final(ctx).db == old(ctx).db,
        r is Ok ==> join_server_done(*old(ctx), *final(ctx), server_id),
{
    let ghost pre = *ctx;
    if find_key(&ctx.db.server, server_id).is_none() {
        return error_text("Server not found");
    }
    let pi = match ctx.db.find_profile(ctx.sender()) {
        Some(i) => i,
        None => return error_text("Must be connected to join a server"),
    };

    // Check not already a member
    if get_membership(ctx, server_id, ctx.sender()).is_some() {
        return error_text("Already a member of this server");
    }

    let is_agent = ctx.db.user_profile[pi].is_agent;
    let role = if is_agent {
        MemberRole::Agent
    } else {
        MemberRole::Member
    };
    let id = ctx.db.server_member_next_id;
    let member = ServerMember {
        id,
        server_id,
        identity: ctx.sender(),
        role,
        joined_at: ctx.timestamp,
    };
    proof {
        let k = key_index(pre.db.server@, server_id);
        assert(pre.db.server@[k].key() == server_id);
        let f = member_of(server_id, pre.sender);
        if any_match(pre.db.server_member@, f) {
            let j = choose|j: int| 0 <= j < pre.db.server_member@.len() && f(#[trigger] pre.db.server_member@[j]);
            lemma_first_match_some(pre.db.server_member@, f, j);
        }
    }
    ctx.db.server_member.push(member);
    ctx.db.server_member_next_id = id + 1;
    proof {
        lemma_wf_member_push(pre.db, ctx.db, member);
    }

    // Post a system join message in general channel
    let content = ctx.db.user_profile[pi].username.clone().concat(" joined the server");
    let sender = ctx.sender();
    let ts = ctx.timestamp;
    announce(&mut ctx.db, server_id, sender, content, MessageType::Join, ts);
    Ok(())
}

pub open spec fn leave_server_error(ctx: ReducerContext, server_id: u64) -> Option<Seq<char>> {
    match lookup(ctx.db.server@, server_id) {
        None => Some("Server not found"@),
        Some(s) => if owner_leave_error(s.owner == ctx.sender) is Some {
            owner_leave_error(s.owner == ctx.sender)
        } else {
            match member_check(ctx.db, server_id, ctx.sender) {
                Err(msg) => Some(msg),
                Ok(_) => None,
            }
        },
    }
}

/// The name shown for a user in system messages: the username, or "Unknown".
pub open spec fn shown_name(db: Database, id: Identity) -> Seq<char> {
    match db.spec_profile(id) {
        Some(p) => p.username@,
        None => "Unknown"@,
    }
}

/// The caller's membership is removed and a leave message is posted in the
/// server's `#general` channel.
pub open spec fn leave_server_done(pre: ReducerContext, post: ReducerContext, server_id: u64) -> bool {
    let db = pre.db;
    let m = db.spec_membership(server_id, pre.sender).unwrap();
    &&& post.db.server_member@ == keep(db.server_member@, key_is_not::<ServerMember>(m.id))
    &&& announced(
        db,
        post.db,
        server_id,
        pre.sender,
        shown_name(db, pre.sender) + " left the server"@,
        MessageType::Leave,
        pre.timestamp,
    )
    &&& post.db == Database {
        server_member: post.db.server_member,
        message: post.db.message,
        message_next_id: post.db.message_next_id,
        ..db
    }
}

/// Removes the caller from a server; the owner cannot leave.
pub fn leave_server(ctx: &mut ReducerContext, server_id: u64) -> (r: Result<(), String>)
    requires
        old(ctx).db.wf(),
        old(ctx).db.message_next_id < u64::MAX,
    ensures
        outcome_is(r, leave_server_error(*old(ctx), server_id)),
        same_call(*old(ctx), *final(ctx)),
        final(ctx).db.wf(),
        r is Err ==> final(ctx).db == old(ctx).db,
        r is Ok ==> leave_server_done(*old(ctx), *final(ctx), server_id),
{
    let ghost pre = *ctx;
    let server = match get_by_key(&ctx.db.server, server_id) {
        Some(s) => s,
        None => return error_text("Server not found"),
    };
    if let Err(e) = guard_owner_cannot_leave(server.owner == ctx.sender()) {
        return Err(e);
    }
    let member = match require_member(ctx, server_id) {
        Ok(m) => m,
        Err(e) => return Err(e),
    };
    let content = match ctx.db.find_profile(ctx.sender()) {
        Some(pi) => ctx.db.user_profile[pi].username.clone().concat(" left the server"),
        None => String::from_str("Unknown").concat(" left the server"),
    };
    delete_by_key(&mut ctx.db.server_member, member.id);
    proof {
        lemma_wf_members_keep(pre.db, ctx.db, key_is_not::<ServerMember>(member.id));
    }

    // Post a system leave message
    let sender = ctx.sender();
    let ts = ctx.timestamp;
    let ghost mid = ctx.db;
    announce(&mut ctx.db, server_id, sender, content, MessageType::Leave, ts);
    proof {
        assert(first_match(mid.channel@, general_channel_of(server_id)) == first_match(
            pre.db.channel@,
            general_channel_of(server_id),
        ));
    }
    Ok(())
}

// ---------------------------------------------------------------------------
// update_member_role
// ---------------------------------------------------------------------------

pub open spec fn update_member_role_error(
    ctx: ReducerContext,
    server_id: u64,
    target_identity: Identity,
    new_role: MemberRole,
) -> Option<Seq<char>> {
    match member_check(ctx.db, server_id, ctx.sender) {
        Err(msg) => Some(msg),
        Ok(actor) => match ctx.db.spec_membership(server_id, target_identity) {
            None => Some("Target is not a member of this server"@),
            Some(target) => modify_role_error(
                role_level(actor.role),
                role_level(target.role),
                role_level(new_role),
                target.role == MemberRole::Owner,
                new_role == MemberRole::Owner,
            ),
        },
    }
}

/// The target's membership gets the new role; nothing else changes.
pub open spec fn update_member_role_done(
    pre: ReducerContext,
    post: ReducerContext,
    server_id: u64,
    target_identity: Identity,
    new_role: MemberRole,
) -> bool {
    let db = pre.db;
    let target = db.spec_membership(server_id, target_identity).unwrap();
    &&& post.db.server_member@ == db.server_member@.update(
        key_index(db.server_member@, target.id),
        ServerMember { role: new_role, ..target },
    )
    &&& post.db == Database { server_member: post.db.server_member, ..db }
}

/// Changes a member's role, following the role hierarchy rules of `can_modify_role`.
pub fn update_member_role(
    ctx: &mut ReducerContext,
    server_id: u64,
    target_identity: Identity,
    new_role: MemberRole,
) -> (r: Result<(), String>)
    requires
        old(ctx).db.wf(),
    ensures
        outcome_is(r, update_member_role_error(*old(ctx), server_id, target_identity, new_role)),
        same_call(*old(ctx), *final(ctx)),
        final(ctx).db.wf(),
        r is Err ==> final(ctx).db == old(ctx).db,
        r is Ok ==> update_member_role_done(
            *old(ctx),
            *final(ctx),
            server_id,
            target_identity,
            new_role,
        ),
{
    let ghost pre = *ctx;
    let actor = match require_member(ctx, server_id) {
        Ok(m) => m,
        Err(e) => return Err(e),
    };
    let ti = match ctx.db.find_membership(server_id, target_identity) {
        Some(i) => i,
        None => return error_text("Target is not a member of this server"),
    };
    let target = ctx.db.server_member[ti].duplicate();
    if let Err(e) = can_modify_role(
        actor.role.level(),
        target.role.level(),
        new_role.level(),
        target.role == MemberRole::Owner,
        new_role == MemberRole::Owner,
    ) {
        return Err(e);
    }
    let row = ServerMember { role: new_role, ..target };
    proof {
        lemma_key_index(pre.db.server_member@, ti as int);
    }
    update_by_key(&mut ctx.db.server_member, row);
    proof {
        lemma_wf_member_update(pre.db, ctx.db, ti as int, row);
    }
    Ok(())
}

} // verus!
