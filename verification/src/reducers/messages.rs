//! Channel messages: sending, editing, deleting, reactions, typing and read state.
use vstd::prelude::*;

use crate::auth::{
    channel_server_check, get_member_role, get_server_for_channel, is_admin_in, member_check,
    require_member,
};
use crate::db::{read_state_clash, reaction_clash, same_call, Database, ReducerContext};
use crate::identity::Identity;
use crate::rows::{
    any_match, delete_by_key, find_key, first_index, first_match, get_by_key, is_first_match, keep,
    key_index, key_is_not, lemma_first_match_at, lemma_first_match_none, lemma_first_match_some,
    lemma_keep_no_conflicts, lemma_keep_table_ok, lemma_push_no_conflicts, lemma_push_table_ok,
    lemma_update_no_conflicts, lemma_update_table_ok, lookup, update_by_key,
};
use crate::tables::{ChannelReadState, Message, Reaction, TableRow, Thread, TypingIndicator};
use crate::types::{MemberRole, MessageType};
use crate::validation::{
    archived_error, delete_permission_error, emoji_error, error_text, guard_delete_permission,
    guard_message_owner, guard_thread_channel, guard_thread_not_archived, message_content_error,
    message_owner_error, outcome_is, thread_channel_error, validate_emoji,
    validate_message_content,
};

verus! {

// ---------------------------------------------------------------------------
// send_message
// ---------------------------------------------------------------------------

pub open spec fn send_message_error(
    ctx: ReducerContext,
    channel_id: u64,
    content: Seq<char>,
    thread_id: Option<u64>,
    reply_to_id: Option<u64>,
) -> Option<Seq<char>> {
    if message_content_error(content) is Some {
        message_content_error(content)
    } else {
        match channel_server_check(ctx.db, channel_id) {
            Err(msg) => Some(msg),
            Ok((c, _)) => match member_check(ctx.db, c.server_id, ctx.sender) {
                Err(msg) => Some(msg),
                Ok(_) => {
                    let thread_error = match thread_id {
                        None => None,
                        Some(tid) => match lookup(ctx.db.thread@, tid) {
                            None => Some("Thread not found"@),
                            Some(t) => if archived_error(t.archived) is Some {
                                archived_error(t.archived)
                            } else {
                                thread_channel_error(t.channel_id, channel_id)
                            },
                        },
                    };
                    if thread_error is Some {
                        thread_error
                    } else {
                        match reply_to_id {
                            Some(rid) => if lookup(ctx.db.message@, rid) is None {
                                Some("Reply target message not found"@)
                            } else {
                                None
                            },
                            None => None,
                        }
                    }
                },
            },
        }
    }
}

/// The message is appended; when it is posted in a thread, the thread's
/// last-message time becomes the call's time.
pub open spec fn send_message_done(
    pre: ReducerContext,
    post: ReducerContext,
    channel_id: u64,
    content: String,
    thread_id: Option<u64>,
    reply_to_id: Option<u64>,
) -> bool {
    let db = pre.db;
    &&& post.db.message@ == db.message@.push(
        Message {
            id: db.message_next_id,
            channel_id: channel_id,
            thread_id: thread_id,
            sender: pre.sender,
            content: content,
            message_type: MessageType::Text,
            created_at: pre.timestamp,
            edited_at: None,
            reply_to_id: reply_to_id,
        },
    )
    &&& post.db.thread@ == match thread_id {
        None => db.thread@,
        Some(tid) => db.thread@.update(
            key_index(db.thread@, tid),
            Thread { last_message_at: pre.timestamp, ..lookup(db.thread@, tid).unwrap() },
        ),
    }
    &&& post.db == Database {
        message: post.db.message,
        message_next_id: (db.message_next_id + 1) as u64,
        thread: post.db.thread,
        ..db
    }
}

/// Sends a message to a channel, optionally in a thread and as a reply; requires membership.
pub fn send_message(
    ctx: &mut ReducerContext,
    channel_id: u64,
    content: String,
    thread_id: Option<u64>,
    reply_to_id: Option<u64>,
) -> (r: Result<(), String>)
    requires
        old(ctx).db.wf(),
        old(ctx).db.message_next_id < u64::MAX,
    ensures
        outcome_is(r, send_message_error(*old(ctx), channel_id, content@, thread_id, reply_to_id)),
        same_call(*old(ctx), *final(ctx)),
        final(ctx).db.wf(),
        r is Err ==> final(ctx).db == old(ctx).db,
        r is Ok ==> send_message_done(
            *old(ctx),
            *final(ctx),
            channel_id,
            content,
            thread_id,
            reply_to_id,
        ),
{
    let ghost pre = *ctx;
    if let Err(e) = validate_message_content(content.as_str()) {
        return Err(e);
    }
    let (channel, _server) = match get_server_for_channel(ctx, channel_id) {
        Ok(p) => p,
        Err(e) => return Err(e),
    };
    if let Err(e) = require_member(ctx, channel.server_id) {
        return Err(e);
    }

    // Validate thread exists if specified
    let mut thread_update: Option<Thread> = None;
    if let Some(tid) = thread_id {
        let thread = match get_by_key(&ctx.db.thread, tid) {
            Some(t) => t,
            None => return error_text("Thread not found"),
        };
        if let Err(e) = guard_thread_not_archived(thread.archived) {
            return Err(e);
        }
        if let Err(e) = guard_thread_channel(thread.channel_id, channel_id) {
            return Err(e);
        }
        thread_update = Some(Thread { last_message_at: ctx.timestamp, ..thread });
    }

    // Validate reply target exists if specified
    if let Some(rid) = reply_to_id {
        if find_key(&ctx.db.message, rid).is_none() {
            return error_text("Reply target message not found");
        }
    }

    // Update thread's last_message_at
    if let Some(row) = thread_update {
        proof {
            let k = key_index(pre.db.thread@, thread_id.unwrap());
            lemma_update_table_ok(pre.db.thread@, k, row, pre.db.thread_next_id);
        }
        update_by_key(&mut ctx.db.thread, row);
    }

    let id = ctx.db.message_next_id;
    let msg = Message {
        id,
        channel_id,
        thread_id,
        sender: ctx.sender(),
        content,
        message_type: MessageType::Text,
        created_at: ctx.timestamp,
        edited_at: None,
        reply_to_id,
    };
    proof {
        lemma_push_table_ok(ctx.db.message@, msg, id);
    }
    ctx.db.message.push(msg);
    ctx.db.message_next_id = id + 1;
    Ok(())
}

// ---------------------------------------------------------------------------
// edit_message / delete_message
// ---------------------------------------------------------------------------

pub open spec fn edit_message_error(ctx: ReducerContext, message_id: u64, new_content: Seq<char>) -> Option<
    Seq<char>,
> {
    if message_content_error(new_content) is Some {
        message_content_error(new_content)
    } else {
        match lookup(ctx.db.message@, message_id) {
            None => Some("Message not found"@),
            Some(m) => message_owner_error(m.sender == ctx.sender),
        }
    }
}

/// The message gets the new content and is marked edited at the call's time.
pub open spec fn edit_message_done(
    pre: ReducerContext,
    post: ReducerContext,
    message_id: u64,
    new_content: String,
) -> bool {
    let db = pre.db;
    &&& post.db.message@ == db.message@.update(
        key_index(db.message@, message_id),
        Message {
            content: new_content,
            edited_at: Some(pre.timestamp),
            ..lookup(db.message@, message_id).unwrap()
        },
    )
    &&& post.db == Database { message: post.db.message, ..db }
}

/// Edits a message; only its sender may.
pub fn edit_message(ctx: &mut ReducerContext, message_id: u64, new_content: String) -> (r: Result<
    (),
    String,
>)
    requires
        old(ctx).db.wf(),
    ensures
        outcome_is(r, edit_message_error(*old(ctx), message_id, new_content@)),
        same_call(*old(ctx), *final(ctx)),
        final(ctx).db.wf(),
        r is Err ==> final(ctx).db == old(ctx).db,
        r is Ok ==> edit_message_done(*old(ctx), *final(ctx), message_id, new_content),
{
    let ghost pre = *ctx;
    if let Err(e) = validate_message_content(new_content.as_str()) {
        return Err(e);
    }
    let msg = match get_by_key(&ctx.db.message, message_id) {
        Some(m) => m,
        None => return error_text("Message not found"),
    };
    if let Err(e) = guard_message_owner(msg.sender == ctx.sender()) {
        return Err(e);
    }
    let row = Message { content: new_content, edited_at: Some(ctx.timestamp), ..msg };
    proof {
        let k = key_index(pre.db.message@, message_id);
        lemma_update_table_ok(pre.db.message@, k, row, pre.db.message_next_id);
    }
    update_by_key(&mut ctx.db.message, row);
    Ok(())
}

pub open spec fn reaction_not_on(message_id: u64) -> spec_fn(Reaction) -> bool {
    |r: Reaction| r.message_id != message_id
}

pub open spec fn delete_message_error(ctx: ReducerContext, message_id: u64) -> Option<Seq<char>> {
    match lookup(ctx.db.message@, message_id) {
        None => Some("Message not found"@),
        Some(m) => match channel_server_check(ctx.db, m.channel_id) {
            Err(msg) => Some(msg),
            Ok((c, _)) => delete_permission_error(
                m.sender == ctx.sender,
                is_admin_in(ctx.db, c.server_id, ctx.sender),
            ),
        },
    }
}

/// The message and its reactions are gone; nothing else changes.
pub open spec fn delete_message_done(pre: ReducerContext, post: ReducerContext, message_id: u64) -> bool {
    let db = pre.db;
    &&& post.db.reaction@ == keep(db.reaction@, reaction_not_on(message_id))
    &&& post.db.message@ == keep(db.message@, key_is_not::<Message>(message_id))
    &&& post.db == Database { reaction: post.db.reaction, message: post.db.message, ..db }
}

/// Deletes a message and its reactions; its sender or an Admin (or higher) may.
pub fn delete_message(ctx: &mut ReducerContext, message_id: u64) -> (r: Result<(), String>)
    requires
        old(ctx).db.wf(),
    ensures
        outcome_is(r, delete_message_error(*old(ctx), message_id)),
        same_call(*old(ctx), *final(ctx)),
        final(ctx).db.wf(),
        r is Err ==> final(ctx).db == old(ctx).db,
        r is Ok ==> delete_message_done(*old(ctx), *final(ctx), message_id),
{
    let ghost pre = *ctx;
    let msg = match get_by_key(&ctx.db.message, message_id) {
        Some(m) => m,
        None => return error_text("Message not found"),
    };
    let is_sender = msg.sender == ctx.sender();

    // Check if admin+ in the server
    let (channel, _server) = match get_server_for_channel(ctx, msg.channel_id) {
        Ok(p) => p,
        Err(e) => return Err(e),
    };
    let is_admin = match get_member_role(ctx, channel.server_id, ctx.sender()) {
        Some(r) => r.level() >= MemberRole::Admin.level(),
        None => false,
    };
    if let Err(e) = guard_delete_permission(is_sender, is_admin) {
        return Err(e);
    }

    // Delete reactions first
    let mut reactions: Vec<Reaction> = Vec::new();
    let mut i: usize = 0;
    while i < ctx.db.reaction.len()
        invariant
            ctx.db == pre.db,
            i <= ctx.db.reaction@.len(),
            reactions@ == keep(ctx.db.reaction@.take(i as int), reaction_not_on(message_id)),
        decreases ctx.db.reaction@.len() - i,
    {
        assert(ctx.db.reaction@.take(i as int + 1).drop_last() =~= ctx.db.reaction@.take(i as int));
        if ctx.db.reaction[i].message_id != message_id {
            reactions.push(ctx.db.reaction[i].duplicate());
        }
        i = i + 1;
    }
    assert(ctx.db.reaction@.take(ctx.db.reaction@.len() as int) =~= ctx.db.reaction@);
    proof {
        lemma_keep_table_ok(pre.db.reaction@, reaction_not_on(message_id), pre.db.reaction_next_id);
        lemma_keep_no_conflicts(pre.db.reaction@, reaction_not_on(message_id), reaction_clash());
    }
    ctx.db.reaction = reactions;

    delete_by_key(&mut ctx.db.message, message_id);
    proof {
        lemma_keep_table_ok(pre.db.message@, key_is_not::<Message>(message_id), pre.db.message_next_id);
    }
    Ok(())
}

// ---------------------------------------------------------------------------
// Reactions
// ---------------------------------------------------------------------------

/// The caller's reaction with this emoji on this message.
pub open spec fn same_reaction(message_id: u64, who: Identity, emoji: Seq<char>) -> spec_fn(
    Reaction,
) -> bool {
    |r: Reaction| r.message_id == message_id && r.identity == who && r.emoji@ == emoji
}

/// The position of the first reaction with this emoji by `who` on the message.
fn find_reaction(db: &Database, message_id: u64, who: Identity, emoji: &String) -> (r: Option<usize>)
    ensures
        match r {
            Some(i) => is_first_match(db.reaction@, same_reaction(message_id, who, emoji@), i as int)
                && first_index(db.reaction@, same_reaction(message_id, who, emoji@)) == i
                && first_match(db.reaction@, same_reaction(message_id, who, emoji@)) == Some(
                db.reaction@[i as int],
            ),
            None => first_match(db.reaction@, same_reaction(message_id, who, emoji@)) is None
                && !any_match(db.reaction@, same_reaction(message_id, who, emoji@)),
        },
{
    let mut i: usize = 0;
    while i < db.reaction.len()
        invariant
            i <= db.reaction@.len(),
            forall|j: int|
                0 <= j < i ==> !(same_reaction(message_id, who, emoji@))(#[trigger] db.reaction@[j]),
        decreases db.reaction@.len() - i,
    {
        if db.reaction[i].message_id == message_id && db.reaction[i].identity == who
            && db.reaction[i].emoji == *emoji {
            proof {
                lemma_first_match_at(db.reaction@, same_reaction(message_id, who, emoji@), i as int);
            }
            return Some(i);
        }
        i = i + 1;
    }
    proof {
        lemma_first_match_none(db.reaction@, same_reaction(message_id, who, emoji@));
    }
    None
}

pub open spec fn add_reaction_error(ctx: ReducerContext, message_id: u64, emoji: Seq<char>) -> Option<
    Seq<char>,
> {
    if emoji_error(emoji) is Some {
        emoji_error(emoji)
    } else {
        match lookup(ctx.db.message@, message_id) {
            None => Some("Message not found"@),
            Some(m) => match channel_server_check(ctx.db, m.channel_id) {
                Err(msg) => Some(msg),
                Ok((c, _)) => match member_check(ctx.db, c.server_id, ctx.sender) {
                    Err(msg) => Some(msg),
                    Ok(_) => if any_match(
                        ctx.db.reaction@,
                        same_reaction(message_id, ctx.sender, emoji),
                    ) {
                        Some("You already reacted with this emoji"@)
                    } else {
                        None
                    },
                },
            },
        }
    }
}

/// The caller's reaction is appended; nothing else changes.
pub open spec fn add_reaction_done(
    pre: ReducerContext,
    post: ReducerContext,
    message_id: u64,
    emoji: String,
) -> bool {
    let db = pre.db;
    &&& post.db.reaction@ == db.reaction@.push(
        Reaction { id: db.reaction_next_id, message_id, identity: pre.sender, emoji },
    )
    &&& post.db == Database {
        reaction: post.db.reaction,
        reaction_next_id: (db.reaction_next_id + 1) as u64,
        ..db
    }
}

/// Reacts to a message with an emoji, at most once per emoji; requires membership.
pub fn add_reaction(ctx: &mut ReducerContext, message_id: u64, emoji: String) -> (r: Result<
    (),
    String,
>)
    requires
        old(ctx).db.wf(),
        old(ctx).db.reaction_next_id < u64::MAX,
    ensures
        outcome_is(r, add_reaction_error(*old(ctx), message_id, emoji@)),
        same_call(*old(ctx), *final(ctx)),
        final(ctx).db.wf(),
        r is Err ==> final(ctx).db == old(ctx).db,
        r is Ok ==> add_reaction_done(*old(ctx), *final(ctx), message_id, emoji),
{
    let ghost pre = *ctx;
    if let Err(e) = validate_emoji(emoji.as_str()) {
        return Err(e);
    }
    let msg = match get_by_key(&ctx.db.message, message_id) {
        Some(m) => m,
        None => return error_text("Message not found"),
    };

    // Verify membership
    let (channel, _server) = match get_server_for_channel(ctx, msg.channel_id) {
        Ok(p) => p,
        Err(e) => return Err(e),
    };
    if let Err(e) = require_member(ctx, channel.server_id) {
        return Err(e);
    }

    // Check for duplicate reaction
    if find_reaction(&ctx.db, message_id, ctx.sender(), &emoji).is_some() {
        return error_text("You already reacted with this emoji");
    }

    let id = ctx.db.reaction_next_id;
    let reaction = Reaction { id, message_id, identity: ctx.sender(), emoji };
    proof {
        let rs = pre.db.reaction@;
        lemma_push_table_ok(rs, reaction, id);
        assert forall|i: int| 0 <= i < rs.len() implies !(reaction_clash())(#[trigger] rs[i], reaction)
            && !(reaction_clash())(reaction, rs[i]) by {
            assert(!(same_reaction(message_id, pre.sender, reaction.emoji@))(rs[i]));
        }
        lemma_push_no_conflicts(rs, reaction, reaction_clash());
    }
    ctx.db.reaction.push(reaction);
    ctx.db.reaction_next_id = id + 1;
    Ok(())
}

pub open spec fn remove_reaction_error(ctx: ReducerContext, message_id: u64, emoji: Seq<char>) -> Option<
    Seq<char>,
> {
    if first_match(ctx.db.reaction@, same_reaction(message_id, ctx.sender, emoji)) is None {
        Some("Reaction not found"@)
    } else {
        None
    }
}

/// The caller's reaction is gone; nothing else changes.
pub open spec fn remove_reaction_done(
    pre: ReducerContext,
    post: ReducerContext,
    message_id: u64,
    emoji: Seq<char>,
) -> bool {
    let db = pre.db;
    let found = first_match(db.reaction@, same_reaction(message_id, pre.sender, emoji)).unwrap();
    &&& post.db.reaction@ == keep(db.reaction@, key_is_not::<Reaction>(found.id))
    &&& post.db == Database { reaction: post.db.reaction, ..db }
}

/// Removes the caller's reaction with this emoji from a message.
pub fn remove_reaction(ctx: &mut ReducerContext, message_id: u64, emoji: String) -> (r: Result<
    (),
    String,
>)
    requires
        old(ctx).db.wf(),
    ensures
        outcome_is(r, remove_reaction_error(*old(ctx), message_id, emoji@)),
        same_call(*old(ctx), *final(ctx)),
        final(ctx).db.wf(),
        r is Err ==> final(ctx).db == old(ctx).db,
        r is Ok ==> remove_reaction_done(*old(ctx), *final(ctx), message_id, emoji@),
{
    let ghost pre = *ctx;
    let ri = match find_reaction(&ctx.db, message_id, ctx.sender(), &emoji) {
        Some(i) => i,
        None => return error_text("Reaction not found"),
    };
    let rid = ctx.db.reaction[ri].id;
    delete_by_key(&mut ctx.db.reaction, rid);
    proof {
        lemma_keep_table_ok(pre.db.reaction@, key_is_not::<Reaction>(rid), pre.db.reaction_next_id);
        lemma_keep_no_conflicts(pre.db.reaction@, key_is_not::<Reaction>(rid), reaction_clash());
    }
    Ok(())
}

// ---------------------------------------------------------------------------
// Typing and read state
// ---------------------------------------------------------------------------

pub open spec fn start_typing_error(ctx: ReducerContext, channel_id: u64) -> Option<Seq<char>> {
    match channel_server_check(ctx.db, channel_id) {
        Err(msg) => Some(msg),
        Ok((c, _)) => match member_check(ctx.db, c.server_id, ctx.sender) {
            Err(msg) => Some(msg),
            Ok(_) => None,
        },
    }
}

/// A typing indicator for the caller in the channel is appended; nothing else changes.
pub open spec fn start_typing_done(pre: ReducerContext, post: ReducerContext, channel_id: u64) -> bool {
    let db = pre.db;
    &&& post.db.typing_indicator@ == db.typing_indicator@.push(
        TypingIndicator { id: db.typing_indicator_next_id, channel_id, identity: pre.sender },
    )
    &&& post.db == Database {
        typing_indicator: post.db.typing_indicator,
        typing_indicator_next_id: (db.typing_indicator_next_id + 1) as u64,
        ..db
    }
}

/// Signals that the caller is typing in a channel; requires membership.
pub fn start_typing(ctx: &mut ReducerContext, channel_id: u64) -> (r: Result<(), String>)
    requires
        old(ctx).db.wf(),
        old(ctx).db.typing_indicator_next_id < u64::MAX,
    ensures
        outcome_is(r, start_typing_error(*old(ctx), channel_id)),
        same_call(*old(ctx), *final(ctx)),
        final(ctx).db.wf(),
        r is Err ==> final(ctx).db == old(ctx).db,
        r is Ok ==> start_typing_done(*old(ctx), *final(ctx), channel_id),
{
    let (channel, _server) = match get_server_for_channel(ctx, channel_id) {
        Ok(p) => p,
        Err(e) => return Err(e),
    };
    if let Err(e) = require_member(ctx, channel.server_id) {
        return Err(e);
    }
    let id = ctx.db.typing_indicator_next_id;
    let row = TypingIndicator { id, channel_id, identity: ctx.sender() };
    proof {
        lemma_push_table_ok(ctx.db.typing_indicator@, row, id);
    }
    ctx.db.typing_indicator.push(row);
    ctx.db.typing_indicator_next_id = id + 1;
    Ok(())
}

/// The read state of `who` for channel `channel_id`.
pub open spec fn read_state_of(who: Identity, channel_id: u64) -> spec_fn(ChannelReadState) -> bool {
    |rs: ChannelReadState| rs.identity == who && rs.channel_id == channel_id
}

/// The position of the first read state of `who` for the channel.
fn find_read_state(db: &Database, who: Identity, channel_id: u64) -> (r: Option<usize>)
    ensures
        match r {
            Some(i) => is_first_match(db.channel_read_state@, read_state_of(who, channel_id), i as int)
                && first_index(db.channel_read_state@, read_state_of(who, channel_id)) == i
                && first_match(db.channel_read_state@, read_state_of(who, channel_id)) == Some(
                db.channel_read_state@[i as int],
            ),
            None => first_match(db.channel_read_state@, read_state_of(who, channel_id)) is None
                && forall|j: int|
                0 <= j < db.channel_read_state@.len() ==> !(read_state_of(who, channel_id))(
                    #[trigger] db.channel_read_state@[j],
                ),
        },
{
    let mut i: usize = 0;
    while i < db.channel_read_state.len()
        invariant
            i <= db.channel_read_state@.len(),
            forall|j: int|
                0 <= j < i ==> !(read_state_of(who, channel_id))(
                    #[trigger] db.channel_read_state@[j],
                ),
        decreases db.channel_read_state@.len() - i,
    {
        if db.channel_read_state[i].identity == who && db.channel_read_state[i].channel_id
            == channel_id {
            proof {
                lemma_first_match_at(db.channel_read_state@, read_state_of(who, channel_id), i as int);
            }
            return Some(i);
        }
        i = i + 1;
    }
    proof {
        lemma_first_match_none(db.channel_read_state@, read_state_of(who, channel_id));
    }
    None
}

/// The caller's read state for the channel now records `message_id`: the
/// existing row is updated, or a new row is appended.
pub open spec fn mark_read_done(
    pre: ReducerContext,
    post: ReducerContext,
    channel_id: u64,
    message_id: u64,
) -> bool {
    let db = pre.db;
    let f = read_state_of(pre.sender, channel_id);
    &&& match first_match(db.channel_read_state@, f) {
        Some(rs) => {
            &&& post.db.channel_read_state@ == db.channel_read_state@.update(
                first_index(db.channel_read_state@, f),
                ChannelReadState { last_read_msg_id: message_id, ..rs },
            )
            &&& post.db.channel_read_state_next_id == db.channel_read_state_next_id
        },
        None => {
            &&& post.db.channel_read_state@ == db.channel_read_state@.push(
                ChannelReadState {
                    id: db.channel_read_state_next_id,
                    identity: pre.sender,
                    channel_id,
                    last_read_msg_id: message_id,
                },
            )
            &&& post.db.channel_read_state_next_id == db.channel_read_state_next_id + 1
        },
    }
    &&& post.db == Database {
        channel_read_state: post.db.channel_read_state,
        channel_read_state_next_id: post.db.channel_read_state_next_id,
        ..db
    }
}

/// Records the last message the caller has read in a channel. Never fails.
pub fn mark_read(ctx: &mut ReducerContext, channel_id: u64, message_id: u64) -> (r: Result<
    (),
    String,
>)
    requires
        old(ctx).db.wf(),
        old(ctx).db.channel_read_state_next_id < u64::MAX,
    ensures
        r is Ok,
        same_call(*old(ctx), *final(ctx)),
        final(ctx).db.wf(),
        mark_read_done(*old(ctx), *final(ctx), channel_id, message_id),
{
    let ghost pre = *ctx;
    let ghost f = read_state_of(ctx.sender, channel_id);
    let sender = ctx.sender();

    // Find existing read state for this user+channel
    let found = find_read_state(&ctx.db, sender, channel_id);
    let ghost rs_all = pre.db.channel_read_state@;
    match found {
        Some(k) => {
            let rs = ctx.db.channel_read_state[k].duplicate();
            let row = ChannelReadState { last_read_msg_id: message_id, ..rs };
            proof {
                lemma_update_table_ok(rs_all, k as int, row, pre.db.channel_read_state_next_id);
                assert forall|j: int| 0 <= j < rs_all.len() && j != k implies !(read_state_clash())(
                    #[trigger] rs_all[j],
                    row,
                ) && !(read_state_clash())(row, rs_all[j]) by {
                    assert(!(read_state_clash())(rs_all[j], rs_all[k as int]));
                }
                lemma_update_no_conflicts(rs_all, k as int, row, read_state_clash());
            }
            ctx.db.channel_read_state.set(k, row);
        },
        None => {
            let id = ctx.db.channel_read_state_next_id;
            let row = ChannelReadState { id, identity: sender, channel_id, last_read_msg_id: message_id };
            proof {
                lemma_push_table_ok(rs_all, row, id);
                assert forall|j: int| 0 <= j < rs_all.len() implies !(read_state_clash())(
                    #[trigger] rs_all[j],
                    row,
                ) && !(read_state_clash())(row, rs_all[j]) by {
                    assert(!f(rs_all[j]));
                }
                lemma_push_no_conflicts(rs_all, row, read_state_clash());
            }
            ctx.db.channel_read_state.push(row);
            ctx.db.channel_read_state_next_id = id + 1;
        },
    }
    Ok(())
}

} // verus!
