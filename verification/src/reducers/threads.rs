//! Threads: creation with an initial message, and archival.
use vstd::prelude::*;

use crate::auth::{
    channel_server_check, get_member_role, get_server_for_channel, is_admin_in, member_check,
    require_member,
};
use crate::db::{same_call, Database, ReducerContext};
use crate::rows::{
    get_by_key, key_index, lemma_push_table_ok, lemma_update_table_ok, lookup, update_by_key,
};
use crate::tables::{Message, Thread};
use crate::types::{MemberRole, MessageType};
use crate::validation::{
    archive_permission_error, guard_archive_permission, message_content_error, outcome_is,
    thread_name_error, validate_message_content, validate_thread_name, error_text,
};

verus! {

pub open spec fn create_thread_error(
    ctx: ReducerContext,
    channel_id: u64,
    name: Seq<char>,
    initial_message: Seq<char>,
) -> Option<Seq<char>> {
    if thread_name_error(name) is Some {
        thread_name_error(name)
    } else if message_content_error(initial_message) is Some {
        message_content_error(initial_message)
    } else {
        match channel_server_check(ctx.db, channel_id) {
            Err(msg) => Some(msg),
            Ok((c, _)) => match member_check(ctx.db, c.server_id, ctx.sender) {
                Err(msg) => Some(msg),
                Ok(_) => None,
            },
        }
    }
}

/// The thread is added, open, created by the caller, and its initial message is
/// added to the channel inside that thread.
pub open spec fn create_thread_done(
    pre: ReducerContext,
    post: ReducerContext,
    channel_id: u64,
    name: String,
    initial_message: String,
) -> bool {
    let db = pre.db;
    let tid = db.thread_next_id;
    &&& post.db.thread@ == db.thread@.push(
        Thread {
            id: tid,
            channel_id: channel_id,
            name: name,
            creator: pre.sender,
            created_at: pre.timestamp,
            archived: false,
            last_message_at: pre.timestamp,
        },
    )
    &&& post.db.message@ == db.message@.push(
        Message {
            id: db.message_next_id,
            channel_id: channel_id,
            thread_id: Some(tid),
            sender: pre.sender,
            content: initial_message,
            message_type: MessageType::Text,
            created_at: pre.timestamp,
            edited_at: None,
            reply_to_id: None,
        },
    )
    &&& post.db == Database {
        thread: post.db.thread,
        thread_next_id: (tid + 1) as u64,
        message: post.db.message,
        message_next_id: (db.message_next_id + 1) as u64,
        ..db
    }
}

/// Creates a thread in a channel, with its first message; requires membership.
pub fn create_thread(
    ctx: &mut ReducerContext,
    channel_id: u64,
    name: String,
    initial_message: String,
) -> (r: Result<(), String>)
    requires
        old(ctx).db.wf(),
        old(ctx).db.thread_next_id < u64::MAX,
        old(ctx).db.message_next_id < u64::MAX,
    ensures
        outcome_is(r, create_thread_error(*old(ctx), channel_id, name@, initial_message@)),
        same_call(*old(ctx), *final(ctx)),
        final(ctx).db.wf(),
        r is Err ==> final(ctx).db == old(ctx).db,
        r is Ok ==> create_thread_done(*old(ctx), *final(ctx), channel_id, name, initial_message),
{
    if let Err(e) = validate_thread_name(name.as_str()) {
        return Err(e);
    }
    if let Err(e) = validate_message_content(initial_message.as_str()) {
        return Err(e);
    }
    let (channel, _server) = match get_server_for_channel(ctx, channel_id) {
        Ok(p) => p,
        Err(e) => return Err(e),
    };
    if let Err(e) = require_member(ctx, channel.server_id) {
        return Err(e);
    }

    let tid = ctx.db.thread_next_id;
    let thread = Thread {
        id: tid,
        channel_id,
        name,
        creator: ctx.sender(),
        created_at: ctx.timestamp,
        archived: false,
        last_message_at: ctx.timestamp,
    };
    proof {
        lemma_push_table_ok(ctx.db.thread@, thread, tid);
    }
    ctx.db.thread.push(thread);
    ctx.db.thread_next_id = tid + 1;

    // Insert the initial message in the thread
    let mid = ctx.db.message_next_id;
    let msg = Message {
        id: mid,
        channel_id,
        thread_id: Some(tid),
        sender: ctx.sender(),
        content: initial_message,
        message_type: MessageType::Text,
        created_at: ctx.timestamp,
        edited_at: None,
        reply_to_id: None,
    };
    proof {
        lemma_push_table_ok(ctx.db.message@, msg, mid);
    }
    ctx.db.message.push(msg);
    ctx.db.message_next_id = mid + 1;
    Ok(())
}

pub open spec fn archive_thread_error(ctx: ReducerContext, thread_id: u64) -> Option<Seq<char>> {
    match lookup(ctx.db.thread@, thread_id) {
        None => Some("Thread not found"@),
        Some(t) => match channel_server_check(ctx.db, t.channel_id) {
            Err(msg) => Some(msg),
            Ok((c, _)) => archive_permission_error(
                t.creator == ctx.sender,
                is_admin_in(ctx.db, c.server_id, ctx.sender),
            ),
        },
    }
}

/// The thread is marked archived; nothing else changes.
pub open spec fn archive_thread_done(pre: ReducerContext, post: ReducerContext, thread_id: u64) -> bool {
    let db = pre.db;
    let t = lookup(db.thread@, thread_id).unwrap();
    &&& post.db.thread@ == db.thread@.update(
        key_index(db.thread@, thread_id),
        Thread { archived: true, ..t },
    )
    &&& post.db == Database { thread: post.db.thread, ..db }
}

/// Archives a thread; its creator or an Admin (or higher) of its server may.
pub fn archive_thread(ctx: &mut ReducerContext, thread_id: u64) -> (r: Result<(), String>)
    requires
        old(ctx).db.wf(),
    ensures
        outcome_is(r, archive_thread_error(*old(ctx), thread_id)),
        same_call(*old(ctx), *final(ctx)),
        final(ctx).db.wf(),
        r is Err ==> final(ctx).db == old(ctx).db,
        r is Ok ==> archive_thread_done(*old(ctx), *final(ctx), thread_id),
{
    let ghost pre = *ctx;
    let thread = match get_by_key(&ctx.db.thread, thread_id) {
        Some(t) => t,
        None => return error_text("Thread not found"),
    };
    let (channel, _server) = match get_server_for_channel(ctx, thread.channel_id) {
        Ok(p) => p,
        Err(e) => return Err(e),
    };

    // Creator or admin+ can archive
    let is_creator = thread.creator == ctx.sender();
    let is_admin = match get_member_role(ctx, channel.server_id, ctx.sender()) {
        Some(r) => r.level() >= MemberRole::Admin.level(),
        None => false,
    };
    if let Err(e) = guard_archive_permission(is_creator, is_admin) {
        return Err(e);
    }

    let row = Thread { archived: true, ..thread };
    proof {
        let k = key_index(pre.db.thread@, thread_id);
        lemma_update_table_ok(pre.db.thread@, k, row, pre.db.thread_next_id);
    }
    update_by_key(&mut ctx.db.thread, row);
    Ok(())
}

} // verus!
