//! Direct messages between two users, grouped in one conversation per pair.
use vstd::prelude::*;

use crate::db::{conversation_clash, same_call, Database, ReducerContext};
use crate::identity::{
    hex_of, lemma_normalize_idempotent, lemma_normalize_symmetric, spec_normalize, str_lex_le,
    Identity,
};
use crate::rows::{
    delete_by_key, first_index, first_match, get_by_key, is_first_match, keep, key_index,
    key_is_not, lemma_first_match_at, lemma_first_match_none, lemma_keep_table_ok,
    lemma_push_no_conflicts, lemma_push_table_ok, lemma_update_no_conflicts, lemma_update_table_ok,
    lookup, update_by_key,
};
use crate::tables::{DirectConversation, DirectMessage, TableRow};
use crate::validation::{
    dm_self_error, error_text, guard_message_owner, message_content_error, message_owner_error,
    outcome_is, validate_dm_not_self, validate_message_content,
};

verus! {

/// Normalize two identities so the lexicographically smaller hex comes first.
/// This ensures a unique conversation per pair regardless of who initiates.
pub fn normalize_participants(a: Identity, b: Identity) -> (r: (Identity, Identity))
    ensures
        r == spec_normalize(a, b),
{
    if str_lex_le(a.to_hex().as_str(), b.to_hex().as_str()) {
        (a, b)
    } else {
        (b, a)
    }
}

/// The conversation between the ordered pair `(a, b)`.
pub open spec fn conversation_between(a: Identity, b: Identity) -> spec_fn(DirectConversation) -> bool {
    |c: DirectConversation| c.participant_a == a && c.participant_b == b
}

/// The conversation of two users, if they have one.
pub open spec fn spec_conversation(db: Database, a: Identity, b: Identity) -> Option<DirectConversation> {
    let (na, nb) = spec_normalize(a, b);
    first_match(db.direct_conversation@, conversation_between(na, nb))
}

fn find_conversation_index(db: &Database, a: Identity, b: Identity) -> (r: Option<usize>)
    ensures
        match r {
            Some(i) => is_first_match(db.direct_conversation@, conversation_between(a, b), i as int)
                && first_index(db.direct_conversation@, conversation_between(a, b)) == i
                && first_match(db.direct_conversation@, conversation_between(a, b)) == Some(
                db.direct_conversation@[i as int],
            ),
            None => first_match(db.direct_conversation@, conversation_between(a, b)) is None
                && forall|j: int|
                0 <= j < db.direct_conversation@.len() ==> !(conversation_between(a, b))(
                    #[trigger] db.direct_conversation@[j],
                ),
        },
{
    let mut i: usize = 0;
    while i < db.direct_conversation.len()
        invariant
            i <= db.direct_conversation@.len(),
            forall|j: int|
                0 <= j < i ==> !(conversation_between(a, b))(#[trigger] db.direct_conversation@[j]),
        decreases db.direct_conversation@.len() - i,
    {
        if db.direct_conversation[i].participant_a == a && db.direct_conversation[i].participant_b
            == b {
            proof {
                lemma_first_match_at(db.direct_conversation@, conversation_between(a, b), i as int);
            }
            return Some(i);
        }
        i = i + 1;
    }
    proof {
        lemma_first_match_none(db.direct_conversation@, conversation_between(a, b));
    }
    None
}

/// Find an existing conversation between two participants.
pub fn find_conversation(ctx: &ReducerContext, a: Identity, b: Identity) -> (r: Option<
    DirectConversation,
>)
    ensures
        r == spec_conversation(ctx.db, a, b),
{
    let (norm_a, norm_b) = normalize_participants(a, b);
    match find_conversation_index(&ctx.db, norm_a, norm_b) {
        Some(i) => Some(ctx.db.direct_conversation[i].duplicate()),
        None => None,
    }
}

/// Looking up the conversation of two users does not depend on their order.
pub proof fn lemma_conversation_symmetric(db: Database, a: Identity, b: Identity)
    ensures
        spec_conversation(db, a, b) == spec_conversation(db, b, a),
{
    lemma_normalize_symmetric(a, b);
}

// ---------------------------------------------------------------------------
// send_direct_message
// ---------------------------------------------------------------------------

pub open spec fn send_direct_message_error(
    ctx: ReducerContext,
    recipient: Identity,
    content: Seq<char>,
) -> Option<Seq<char>> {
    if dm_self_error(hex_of(ctx.sender), hex_of(recipient)) is Some {
        dm_self_error(hex_of(ctx.sender), hex_of(recipient))
    } else if message_content_error(content) is Some {
        message_content_error(content)
    } else if ctx.db.spec_profile(ctx.sender) is None {
        Some("Sender profile not found. Connect first."@)
    } else if ctx.db.spec_profile(recipient) is None {
        Some("Recipient not found"@)
    } else {
        None
    }
}

/// The message, unread and sent now, in the conversation `conversation_id`.
pub open spec fn is_new_dm(
    m: DirectMessage,
    id: u64,
    conversation_id: u64,
    ctx: ReducerContext,
    content: String,
) -> bool {
    m == DirectMessage {
        id,
        conversation_id,
        sender: ctx.sender,
        content,
        created_at: ctx.timestamp,
        edited_at: None,
        read: false,
    }
}

/// The pair's conversation is touched (its last-message time becomes now) or,
/// when they have none, created; the message is appended to it.
pub open spec fn send_direct_message_done(
    pre: ReducerContext,
    post: ReducerContext,
    recipient: Identity,
    content: String,
) -> bool {
    let db = pre.db;
    let (na, nb) = spec_normalize(pre.sender, recipient);
    let f = conversation_between(na, nb);
    &&& match first_match(db.direct_conversation@, f) {
        Some(c) => {
            &&& post.db.direct_conversation@ == db.direct_conversation@.update(
                first_index(db.direct_conversation@, f),
                DirectConversation { last_message_at: pre.timestamp, ..c },
            )
            &&& post.db.direct_conversation_next_id == db.direct_conversation_next_id
            &&& post.db.direct_message@.len() == db.direct_message@.len() + 1
            &&& post.db.direct_message@.drop_last() == db.direct_message@
            &&& is_new_dm(post.db.direct_message@.last(), db.direct_message_next_id, c.id, pre, content)
        },
        None => {
            &&& post.db.direct_conversation@ == db.direct_conversation@.push(
                DirectConversation {
                    id: db.direct_conversation_next_id,
                    participant_a: na,
                    participant_b: nb,
                    created_at: pre.timestamp,
                    last_message_at: pre.timestamp,
                },
            )
            &&& post.db.direct_conversation_next_id == db.direct_conversation_next_id + 1
            &&& post.db.direct_message@.len() == db.direct_message@.len() + 1
            &&& post.db.direct_message@.drop_last() == db.direct_message@
            &&& is_new_dm(
                post.db.direct_message@.last(),
                db.direct_message_next_id,
                db.direct_conversation_next_id,
                pre,
                content,
            )
        },
    }
    &&& post.db.direct_message_next_id == db.direct_message_next_id + 1
    &&& post.db == Database {
        direct_conversation: post.db.direct_conversation,
        direct_conversation_next_id: post.db.direct_conversation_next_id,
        direct_message: post.db.direct_message,
        direct_message_next_id: post.db.direct_message_next_id,
        ..db
    }
}

/// Sends a direct message to another user, opening their conversation if needed.
pub fn send_direct_message(ctx: &mut ReducerContext, recipient: Identity, content: String) -> (r:
    Result<(), String>)
    requires
        old(ctx).db.wf(),
        old(ctx).db.direct_conversation_next_id < u64::MAX,
        old(ctx).db.direct_message_next_id < u64::MAX,
    ensures
        outcome_is(r, send_direct_message_error(*old(ctx), recipient, content@)),
        same_call(*old(ctx), *final(ctx)),
        final(ctx).db.wf(),
        r is Err ==> final(ctx).db == old(ctx).db,
        r is Ok ==> send_direct_message_done(*old(ctx), *final(ctx), recipient, content),
{
    let ghost pre = *ctx;
    let sender = ctx.sender();
    if let Err(e) = validate_dm_not_self(sender.to_hex().as_str(), recipient.to_hex().as_str()) {
        return Err(e);
    }
    if let Err(e) = validate_message_content(content.as_str()) {
        return Err(e);
    }

    // Verify both users exist
    if ctx.db.find_profile(sender).is_none() {
        return error_text("Sender profile not found. Connect first.");
    }
    if ctx.db.find_profile(recipient).is_none() {
        return error_text("Recipient not found");
    }

    // Find or create conversation
    let (norm_a, norm_b) = normalize_participants(sender, recipient);
    let ghost cs = pre.db.direct_conversation@;
    let conversation_id = match find_conversation_index(&ctx.db, norm_a, norm_b) {
        Some(ci) => {
            let conv = ctx.db.direct_conversation[ci].duplicate();
            let row = DirectConversation { last_message_at: ctx.timestamp, ..conv };
            proof {
                lemma_update_table_ok(cs, ci as int, row, pre.db.direct_conversation_next_id);
                assert forall|j: int| 0 <= j < cs.len() && j != ci implies !(conversation_clash())(
                    #[trigger] cs[j],
                    row,
                ) && !(conversation_clash())(row, cs[j]) by {
                    assert(!(conversation_clash())(cs[j], cs[ci as int]));
                }
                lemma_update_no_conflicts(cs, ci as int, row, conversation_clash());
                let ns = cs.update(ci as int, row);
                assert forall|j: int| 0 <= j < ns.len() implies spec_normalize(
                    (#[trigger] ns[j]).participant_a,
                    ns[j].participant_b,
                ) == (ns[j].participant_a, ns[j].participant_b) by {
                    assert(ns[j].participant_a == cs[j].participant_a);
                    assert(ns[j].participant_b == cs[j].participant_b);
                }
            }
            ctx.db.direct_conversation.set(ci, row);
            conv.id
        },
        None => {
            let id = ctx.db.direct_conversation_next_id;
            let row = DirectConversation {
                id,
                participant_a: norm_a,
                participant_b: norm_b,
                created_at: ctx.timestamp,
                last_message_at: ctx.timestamp,
            };
            proof {
                lemma_push_table_ok(cs, row, id);
                assert forall|j: int| 0 <= j < cs.len() implies !(conversation_clash())(
                    #[trigger] cs[j],
                    row,
                ) && !(conversation_clash())(row, cs[j]) by {
                    assert(!(conversation_between(norm_a, norm_b))(cs[j]));
                }
                lemma_push_no_conflicts(cs, row, conversation_clash());
                lemma_normalize_idempotent(sender, recipient);
                let ns = cs.push(row);
                assert forall|j: int| 0 <= j < ns.len() implies spec_normalize(
                    (#[trigger] ns[j]).participant_a,
                    ns[j].participant_b,
                ) == (ns[j].participant_a, ns[j].participant_b) by {
                    if j < cs.len() {
                        assert(ns[j] == cs[j]);
                    }
                }
            }
            ctx.db.direct_conversation.push(row);
            ctx.db.direct_conversation_next_id = id + 1;
            id
        },
    };

    let id = ctx.db.direct_message_next_id;
    let msg = DirectMessage {
        id,
        conversation_id,
        sender,
        content,
        created_at: ctx.timestamp,
        edited_at: None,
        read: false,
    };
    proof {
        lemma_push_table_ok(ctx.db.direct_message@, msg, id);
    }
    ctx.db.direct_message.push(msg);
    ctx.db.direct_message_next_id = id + 1;
    assert(ctx.db.direct_message@.drop_last() =~= pre.db.direct_message@);
    Ok(())
}

// ---------------------------------------------------------------------------
// edit / delete / mark read
// ---------------------------------------------------------------------------

pub open spec fn edit_direct_message_error(
    ctx: ReducerContext,
    message_id: u64,
    new_content: Seq<char>,
) -> Option<Seq<char>> {
    if message_content_error(new_content) is Some {
        message_content_error(new_content)
    } else {
        match lookup(ctx.db.direct_message@, message_id) {
            None => Some("Direct message not found"@),
            Some(m) => message_owner_error(m.sender == ctx.sender),
        }
    }
}

/// The message gets the new content and is marked edited at the call's time.
pub open spec fn edit_direct_message_done(
    pre: ReducerContext,
    post: ReducerContext,
    message_id: u64,
    new_content: String,
) -> bool {
    let db = pre.db;
    &&& post.db.direct_message@ == db.direct_message@.update(
        key_index(db.direct_message@, message_id),
        DirectMessage {
            content: new_content,
            edited_at: Some(pre.timestamp),
            ..lookup(db.direct_message@, message_id).unwrap()
        },
    )
    &&& post.db == Database { direct_message: post.db.direct_message, ..db }
}

/// Edits a direct message; only its sender may.
pub fn edit_direct_message(ctx: &mut ReducerContext, message_id: u64, new_content: String) -> (r:
    Result<(), String>)
    requires
        old(ctx).db.wf(),
    ensures
        outcome_is(r, edit_direct_message_error(*old(ctx), message_id, new_content@)),
        same_call(*old(ctx), *final(ctx)),
        final(ctx).db.wf(),
        r is Err ==> final(ctx).db == old(ctx).db,
        r is Ok ==> edit_direct_message_done(*old(ctx), *final(ctx), message_id, new_content),
{
    let ghost pre = *ctx;
    if let Err(e) = validate_message_content(new_content.as_str()) {
        return Err(e);
    }
    let msg = match get_by_key(&ctx.db.direct_message, message_id) {
        Some(m) => m,
        None => return error_text("Direct message not found"),
    };
    if let Err(e) = guard_message_owner(msg.sender == ctx.sender()) {
        return Err(e);
    }
    let row = DirectMessage { content: new_content, edited_at: Some(ctx.timestamp), ..msg };
    proof {
        let k = key_index(pre.db.direct_message@, message_id);
        lemma_update_table_ok(pre.db.direct_message@, k, row, pre.db.direct_message_next_id);
    }
    update_by_key(&mut ctx.db.direct_message, row);
    Ok(())
}

pub open spec fn delete_direct_message_error(ctx: ReducerContext, message_id: u64) -> Option<
    Seq<char>,
> {
    match lookup(ctx.db.direct_message@, message_id) {
        None => Some("Direct message not found"@),
        Some(m) => message_owner_error(m.sender == ctx.sender),
    }
}

/// The message is gone; nothing else changes.
pub open spec fn delete_direct_message_done(pre: ReducerContext, post: ReducerContext, message_id: u64) -> bool {
    &&& post.db.direct_message@ == keep(pre.db.direct_message@, key_is_not::<DirectMessage>(message_id))
    &&& post.db == Database { direct_message: post.db.direct_message, ..pre.db }
}

/// Deletes a direct message; only its sender may.
pub fn delete_direct_message(ctx: &mut ReducerContext, message_id: u64) -> (r: Result<(), String>)
    requires
        old(ctx).db.wf(),
    ensures
        outcome_is(r, delete_direct_message_error(*old(ctx), message_id)),
        same_call(*old(ctx), *final(ctx)),
        final(ctx).db.wf(),
        r is Err ==> final(ctx).db == old(ctx).db,
        r is Ok ==> delete_direct_message_done(*old(ctx), *final(ctx), message_id),
{
    let ghost pre = *ctx;
    let msg = match get_by_key(&ctx.db.direct_message, message_id) {
        Some(m) => m,
        None => return error_text("Direct message not found"),
    };
    if let Err(e) = guard_message_owner(msg.sender == ctx.sender()) {
        return Err(e);
    }
    delete_by_key(&mut ctx.db.direct_message, message_id);
    proof {
        lemma_keep_table_ok(
            pre.db.direct_message@,
            key_is_not::<DirectMessage>(message_id),
            pre.db.direct_message_next_id,
        );
    }
    Ok(())
}

pub open spec fn mark_dm_read_error(ctx: ReducerContext, conversation_id: u64) -> Option<Seq<char>> {
    match lookup(ctx.db.direct_conversation@, conversation_id) {
        None => Some("Conversation not found"@),
        Some(c) => if c.participant_a != ctx.sender && c.participant_b != ctx.sender {
            Some("You are not a participant in this conversation"@)
        } else {
            None
        },
    }
}

/// A message after `reader` has read conversation `conversation_id`: unread
/// messages from the other participant become read.
pub open spec fn read_marked(conversation_id: u64, reader: Identity) -> spec_fn(DirectMessage) -> DirectMessage {
    |m: DirectMessage|
        if m.conversation_id == conversation_id && m.sender != reader && !m.read {
            DirectMessage { read: true, ..m }
        } else {
            m
        }
}

/// Marks as read every unread message of the conversation sent by the other participant.
pub fn mark_dm_read(ctx: &mut ReducerContext, conversation_id: u64) -> (r: Result<(), String>)
    requires
        old(ctx).db.wf(),
    ensures
        outcome_is(r, mark_dm_read_error(*old(ctx), conversation_id)),
        same_call(*old(ctx), *final(ctx)),
        final(ctx).db.wf(),
        r is Err ==> final(ctx).db == old(ctx).db,
        r is Ok ==> final(ctx).db.direct_message@ == old(ctx).db.direct_message@.map_values(
            read_marked(conversation_id, old(ctx).sender),
        ),
        r is Ok ==> final(ctx).db == (Database { direct_message: final(ctx).db.direct_message, ..old(ctx).db }),
{
    let ghost pre = *ctx;
    let conversation = match get_by_key(&ctx.db.direct_conversation, conversation_id) {
        Some(c) => c,
        None => return error_text("Conversation not found"),
    };

    // Verify the caller is a participant
    let sender = ctx.sender();
    if conversation.participant_a != sender && conversation.participant_b != sender {
        return error_text("You are not a participant in this conversation");
    }

    // Mark all unread messages from the other participant as read
    let ghost f = read_marked(conversation_id, sender);
    let ghost old_dms = pre.db.direct_message@;
    let mut i: usize = 0;
    while i < ctx.db.direct_message.len()
        invariant
            f == read_marked(conversation_id, sender),
            same_call(pre, *ctx),
            ctx.db == (Database { direct_message: ctx.db.direct_message, ..pre.db }),
            ctx.db.direct_message@.len() == old_dms.len(),
            i <= old_dms.len(),
            forall|j: int| 0 <= j < i ==> #[trigger] ctx.db.direct_message@[j] == f(old_dms[j]),
            forall|j: int| i <= j < old_dms.len() ==> #[trigger] ctx.db.direct_message@[j] == old_dms[j],
        decreases old_dms.len() - i,
    {
        let m = ctx.db.direct_message[i].duplicate();
        if m.conversation_id == conversation_id && m.sender != sender && !m.read {
            ctx.db.direct_message.set(i, DirectMessage { read: true, ..m });
        }
        i = i + 1;
    }
    assert(ctx.db.direct_message@ =~= old_dms.map_values(f));
    proof {
        let s = ctx.db.direct_message@;
        assert forall|a: int, b: int| 0 <= a < b < s.len() implies #[trigger] s[a].key() < #[trigger] s[b].key() by {
            assert(s[a].key() == old_dms[a].key());
            assert(s[b].key() == old_dms[b].key());
        }
        assert forall|a: int| 0 <= a < s.len() implies #[trigger] s[a].key() < pre.db.direct_message_next_id by {
            assert(s[a].key() == old_dms[a].key());
        }
    }
    Ok(())
}

} // verus!
