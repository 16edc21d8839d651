//! Channels: creation, update, and deletion with cascade.
use vstd::prelude::*;

use crate::auth::{channel_server_check, get_server_for_channel, require_role, role_check};
use crate::cascade::{clear_channel_contents, contents_cleared, Scope};
use crate::db::{same_call, Database, ReducerContext};
use crate::reducers::servers::{updated_name, updated_text};
use crate::rows::{
    delete_by_key, keep, key_index, key_is_not, lemma_keep_table_ok, lemma_key_index,
    lemma_push_table_ok, lemma_update_table_ok, update_by_key,
};
use crate::tables::{copy_opt_string, Channel};
use crate::types::{ChannelType, MemberRole};
use crate::validation::{name_error, outcome_is, validate_name};

verus! {

/// The highest position among the server's channels, or 0 when it has none.
pub open spec fn max_position(s: Seq<Channel>, server_id: u64) -> u32
    decreases s.len(),
{
    if s.len() == 0 {
        0
    } else {
        let m = max_position(s.drop_last(), server_id);
        let c = s.last();
        if c.server_id == server_id && c.position > m {
            c.position
        } else {
            m
        }
    }
}

/// `max_position` bounds every position of the server's channels.
pub proof fn lemma_max_position_bounds(s: Seq<Channel>, server_id: u64)
    ensures
        forall|i: int|
            0 <= i < s.len() && (#[trigger] s[i]).server_id == server_id ==> s[i].position
                <= max_position(s, server_id),
    decreases s.len(),
{
    if s.len() > 0 {
        lemma_max_position_bounds(s.drop_last(), server_id);
        assert forall|i: int|
            0 <= i < s.len() && (#[trigger] s[i]).server_id == server_id implies s[i].position
                <= max_position(s, server_id) by {
            if i < s.len() - 1 {
                assert(s.drop_last()[i] == s[i]);
            }
        }
    }
}

/// The highest position among the channels of a server (0 when it has none).
pub fn max_channel_position(db: &Database, server_id: u64) -> (r: u32)
    ensures
        r == max_position(db.channel@, server_id),
{
    let mut max_pos: u32 = 0;
    let mut i: usize = 0;
    while i < db.channel.len()
        invariant
            i <= db.channel@.len(),
            max_pos == max_position(db.channel@.take(i as int), server_id),
        decreases db.channel@.len() - i,
    {
        assert(db.channel@.take(i as int + 1).drop_last() =~= db.channel@.take(i as int));
        if db.channel[i].server_id == server_id && db.channel[i].position > max_pos {
            max_pos = db.channel[i].position;
        }
        i = i + 1;
    }
    assert(db.channel@.take(db.channel@.len() as int) =~= db.channel@);
    max_pos
}

pub open spec fn create_channel_error(ctx: ReducerContext, server_id: u64, name: Seq<char>) -> Option<
    Seq<char>,
> {
    if name_error(name, "Channel"@) is Some {
        name_error(name, "Channel"@)
    } else {
        match role_check(ctx.db, server_id, ctx.sender, MemberRole::Admin) {
            Err(msg) => Some(msg),
            Ok(_) => None,
        }
    }
}

/// The channel is appended after the server's last position; nothing else changes.
pub open spec fn create_channel_done(
    pre: ReducerContext,
    post: ReducerContext,
    server_id: u64,
    name: String,
    channel_type: ChannelType,
) -> bool {
    let db = pre.db;
    &&& post.db.channel@ == db.channel@.push(
        Channel {
            id: db.channel_next_id,
            server_id: server_id,
            name: name,
            topic: None,
            channel_type: channel_type,
            position: (max_position(db.channel@, server_id) + 1) as u32,
            created_at: pre.timestamp,
        },
    )
    &&& post.db == Database {
        channel: post.db.channel,
        channel_next_id: (db.channel_next_id + 1) as u64,
        ..db
    }
}

/// Creates a channel in a server, after its existing channels; requires Admin or higher.
pub fn create_channel(
    ctx: &mut ReducerContext,
    server_id: u64,
    name: String,
    channel_type: ChannelType,
) -> (r: Result<(), String>)
    requires
        old(ctx).db.wf(),
        old(ctx).db.channel_next_id < u64::MAX,
        create_channel_error(*old(ctx), server_id, name@) is None ==> max_position(
            old(ctx).db.channel@,
            server_id,
        ) < u32::MAX,
    ensures
        outcome_is(r, create_channel_error(*old(ctx), server_id, name@)),
        same_call(*old(ctx), *final(ctx)),
        final(ctx).db.wf(),
        r is Err ==> final(ctx).db == old(ctx).db,
        r is Ok ==> create_channel_done(*old(ctx), *final(ctx), server_id, name, channel_type),
{
    if let Err(e) = validate_name(name.as_str(), "Channel") {
        return Err(e);
    }
    if let Err(e) = require_role(ctx, server_id, MemberRole::Admin) {
        return Err(e);
    }

    // Determine next position
    let max_pos = max_channel_position(&ctx.db, server_id);

    let id = ctx.db.channel_next_id;
    let channel = Channel {
        id,
        server_id,
        name,
        topic: None,
        channel_type,
        position: max_pos + 1,
        created_at: ctx.timestamp,
    };
    proof {
        lemma_push_table_ok(ctx.db.channel@, channel, id);
    }
    ctx.db.channel.push(channel);
    ctx.db.channel_next_id = id + 1;
    Ok(())
}

pub open spec fn update_channel_error(ctx: ReducerContext, channel_id: u64, name: Option<String>) -> Option<
    Seq<char>,
> {
    match channel_server_check(ctx.db, channel_id) {
        Err(msg) => Some(msg),
        Ok((c, _)) => match role_check(ctx.db, c.server_id, ctx.sender, MemberRole::Admin) {
            Err(msg) => Some(msg),
            Ok(_) => name_error(updated_name(name, c.name)@, "Channel"@),
        },
    }
}

/// The channel row gets the new name and topic (each kept when not given).
pub open spec fn update_channel_done(
    pre: ReducerContext,
    post: ReducerContext,
    channel_id: u64,
    name: Option<String>,
    topic: Option<String>,
) -> bool {
    let db = pre.db;
    let c = channel_server_check(db, channel_id)->Ok_0.0;
    &&& post.db.channel@ == db.channel@.update(
        key_index(db.channel@, channel_id),
        Channel { name: updated_name(name, c.name), topic: updated_text(topic, c.topic), ..c },
    )
    &&& post.db == Database { channel: post.db.channel, ..db }
}

/// Renames a channel and/or changes its topic; requires Admin or higher in its server.
pub fn update_channel(
    ctx: &mut ReducerContext,
    channel_id: u64,
    name: Option<String>,
    topic: Option<String>,
) -> (r: Result<(), String>)
    requires
        old(ctx).db.wf(),
    ensures
        outcome_is(r, update_channel_error(*old(ctx), channel_id, name)),
        same_call(*old(ctx), *final(ctx)),
        final(ctx).db.wf(),
        r is Err ==> final(ctx).db == old(ctx).db,
        r is Ok ==> update_channel_done(*old(ctx), *final(ctx), channel_id, name, topic),
{
    let ghost pre = *ctx;
    let (channel, _server) = match get_server_for_channel(ctx, channel_id) {
        Ok(p) => p,
        Err(e) => return Err(e),
    };
    if let Err(e) = require_role(ctx, channel.server_id, MemberRole::Admin) {
        return Err(e);
    }
    let new_name = match name {
        Some(n) => n,
        None => channel.name.clone(),
    };
    if let Err(e) = validate_name(new_name.as_str(), "Channel") {
        return Err(e);
    }
    let new_topic = match topic {
        Some(t) => Some(t),
        None => copy_opt_string(&channel.topic),
    };
    let row = Channel { name: new_name, topic: new_topic, ..channel };
    proof {
        let k = key_index(pre.db.channel@, channel_id);
        lemma_update_table_ok(pre.db.channel@, k, row, pre.db.channel_next_id);
    }
    update_by_key(&mut ctx.db.channel, row);
    Ok(())
}

pub open spec fn delete_channel_error(ctx: ReducerContext, channel_id: u64) -> Option<Seq<char>> {
    match channel_server_check(ctx.db, channel_id) {
        Err(msg) => Some(msg),
        Ok((c, _)) => match role_check(ctx.db, c.server_id, ctx.sender, MemberRole::Admin) {
            Err(msg) => Some(msg),
            Ok(_) => None,
        },
    }
}

/// The channel is gone, with its messages, their reactions, and its threads.
pub open spec fn delete_channel_done(pre: ReducerContext, post: ReducerContext, channel_id: u64) -> bool {
    exists|mid: Database|
        {
            &&& contents_cleared(pre.db, mid, Scope::Channel(channel_id))
            &&& post.db.channel@ == keep(pre.db.channel@, key_is_not::<Channel>(channel_id))
            &&& post.db == Database { channel: post.db.channel, ..mid }
        }
}

/// Deletes a channel and everything in it; requires Admin or higher in its server.
pub fn delete_channel(ctx: &mut ReducerContext, channel_id: u64) -> (r: Result<(), String>)
    requires
        old(ctx).db.wf(),
    ensures
        outcome_is(r, delete_channel_error(*old(ctx), channel_id)),
        same_call(*old(ctx), *final(ctx)),
        final(ctx).db.wf(),
        r is Err ==> final(ctx).db == old(ctx).db,
        r is Ok ==> delete_channel_done(*old(ctx), *final(ctx), channel_id),
{
    let ghost pre = *ctx;
    let (channel, _server) = match get_server_for_channel(ctx, channel_id) {
        Ok(p) => p,
        Err(e) => return Err(e),
    };
    if let Err(e) = require_role(ctx, channel.server_id, MemberRole::Admin) {
        return Err(e);
    }

    // Cascade delete messages, reactions and threads
    clear_channel_contents(&mut ctx.db, Scope::Channel(channel_id));
    let ghost mid = ctx.db;

    delete_by_key(&mut ctx.db.channel, channel_id);
    proof {
        lemma_keep_table_ok(mid.channel@, key_is_not::<Channel>(channel_id), mid.channel_next_id);
        assert(delete_channel_done(pre, *ctx, channel_id));
    }
    Ok(())
}

} // verus!
