//! Cascading deletion of what lives in a channel: its messages, their
//! reactions, and its threads.
use vstd::prelude::*;

use crate::db::Database;
use crate::rows::{
    find_key, keep, keys_increasing, lemma_keep_no_conflicts, lemma_keep_table_ok, lemma_key_index,
};
use crate::tables::{Message, Reaction, TableRow, Thread};

verus! {

/// Which channels are being emptied: all channels of a server, or one channel.
#[derive(Clone, Copy, Debug, PartialEq, Eq, Structural)]
pub enum Scope {
    Server(u64),
    Channel(u64),
}

/// The channel with id `cid` is being emptied.
pub open spec fn channel_doomed(db: Database, scope: Scope, cid: u64) -> bool {
    match scope {
        Scope::Server(sid) => exists|i: int|
            0 <= i < db.channel@.len() && (#[trigger] db.channel@[i]).id == cid
                && db.channel@[i].server_id == sid,
        Scope::Channel(c) => cid == c,
    }
}

/// The message with id `mid` sits in a channel being emptied.
pub open spec fn message_doomed(db: Database, scope: Scope, mid: u64) -> bool {
    exists|i: int|
        0 <= i < db.message@.len() && (#[trigger] db.message@[i]).id == mid && channel_doomed(
            db,
            scope,
            db.message@[i].channel_id,
        )
}

pub open spec fn message_kept(db: Database, scope: Scope) -> spec_fn(Message) -> bool {
    |m: Message| !channel_doomed(db, scope, m.channel_id)
}

pub open spec fn reaction_kept(db: Database, scope: Scope) -> spec_fn(Reaction) -> bool {
    |r: Reaction| !message_doomed(db, scope, r.message_id)
}

pub open spec fn thread_kept(db: Database, scope: Scope) -> spec_fn(Thread) -> bool {
    |t: Thread| !channel_doomed(db, scope, t.channel_id)
}

/// What emptying the channels of `scope` leaves: every table as it was except
/// messages, reactions and threads, which lose the rows that belong there.
pub open spec fn contents_cleared(pre: Database, post: Database, scope: Scope) -> bool {
    &&& post.message@ == keep(pre.message@, message_kept(pre, scope))
    &&& post.reaction@ == keep(pre.reaction@, reaction_kept(pre, scope))
    &&& post.thread@ == keep(pre.thread@, thread_kept(pre, scope))
    &&& post == Database {
        message: post.message,
        reaction: post.reaction,
        thread: post.thread,
        ..pre
    }
}

fn is_channel_doomed(db: &Database, scope: Scope, cid: u64) -> (r: bool)
    ensures
        r == channel_doomed(*db, scope, cid),
{
    match scope {
        Scope::Server(sid) => {
            let mut i: usize = 0;
            while i < db.channel.len()
                invariant
                    scope == Scope::Server(sid),
                    i <= db.channel@.len(),
                    forall|j: int|
                        0 <= j < i ==> !((#[trigger] db.channel@[j]).id == cid
                            && db.channel@[j].server_id == sid),
                decreases db.channel@.len() - i,
            {
                if db.channel[i].id == cid && db.channel[i].server_id == sid {
                    assert(db.channel@[i as int].id == cid);
                    return true;
                }
                i = i + 1;
            }
            false
        },
        Scope::Channel(c) => cid == c,
    }
}

fn is_message_doomed(db: &Database, scope: Scope, mid: u64) -> (r: bool)
    requires
        keys_increasing(db.message@),
    ensures
        r == message_doomed(*db, scope, mid),
{
    match find_key(&db.message, mid) {
        Some(i) => {
            let r = is_channel_doomed(db, scope, db.message[i].channel_id);
            proof {
                assert(db.message@[i as int].id == mid);
                if message_doomed(*db, scope, mid) {
                    let j = choose|j: int|
                        0 <= j < db.message@.len() && (#[trigger] db.message@[j]).id == mid
                            && channel_doomed(*db, scope, db.message@[j].channel_id);
                    lemma_key_index(db.message@, j);
                    assert(j == i);
                }
            }
            r
        },
        None => {
            proof {
                if message_doomed(*db, scope, mid) {
                    let j = choose|j: int|
                        0 <= j < db.message@.len() && (#[trigger] db.message@[j]).id == mid
                            && channel_doomed(*db, scope, db.message@[j].channel_id);
                    assert(db.message@[j].key() == mid);
                }
            }
            false
        },
    }
}

/// Deletes the messages of the channels of `scope`, their reactions, and the
/// channels' threads.
pub fn clear_channel_contents(db: &mut Database, scope: Scope)
    requires
        old(db).wf(),
    ensures
        contents_cleared(*old(db), *final(db), scope),
        final(db).wf(),
{
    let ghost pre = *db;

    let mut reactions: Vec<Reaction> = Vec::new();
    let mut i: usize = 0;
    while i < db.reaction.len()
        invariant
            *db == pre,
            pre.wf(),
            i <= db.reaction@.len(),
            reactions@ == keep(db.reaction@.take(i as int), reaction_kept(pre, scope)),
        decreases db.reaction@.len() - i,
    {
        assert(db.reaction@.take(i as int + 1).drop_last() =~= db.reaction@.take(i as int));
        if !is_message_doomed(db, scope, db.reaction[i].message_id) {
            reactions.push(db.reaction[i].duplicate());
        }
        i = i + 1;
    }
    assert(db.reaction@.take(db.reaction@.len() as int) =~= db.reaction@);

    let mut messages: Vec<Message> = Vec::new();
    let mut i: usize = 0;
    while i < db.message.len()
        invariant
            *db == pre,
            i <= db.message@.len(),
            messages@ == keep(db.message@.take(i as int), message_kept(pre, scope)),
        decreases db.message@.len() - i,
    {
        assert(db.message@.take(i as int + 1).drop_last() =~= db.message@.take(i as int));
        if !is_channel_doomed(db, scope, db.message[i].channel_id) {
            messages.push(db.message[i].duplicate());
        }
        i = i + 1;
    }
    assert(db.message@.take(db.message@.len() as int) =~= db.message@);

    let mut threads: Vec<Thread> = Vec::new();
    let mut i: usize = 0;
    while i < db.thread.len()
        invariant
            *db == pre,
            i <= db.thread@.len(),
            threads@ == keep(db.thread@.take(i as int), thread_kept(pre, scope)),
        decreases db.thread@.len() - i,
    {
        assert(db.thread@.take(i as int + 1).drop_last() =~= db.thread@.take(i as int));
        if !is_channel_doomed(db, scope, db.thread[i].channel_id) {
            threads.push(db.thread[i].duplicate());
        }
        i = i + 1;
    }
    assert(db.thread@.take(db.thread@.len() as int) =~= db.thread@);

    proof {
        lemma_keep_table_ok(pre.reaction@, reaction_kept(pre, scope), pre.reaction_next_id);
        lemma_keep_no_conflicts(pre.reaction@, reaction_kept(pre, scope), crate::db::reaction_clash());
        lemma_keep_table_ok(pre.message@, message_kept(pre, scope), pre.message_next_id);
        lemma_keep_table_ok(pre.thread@, thread_kept(pre, scope), pre.thread_next_id);
    }
    db.reaction = reactions;
    db.message = messages;
    db.thread = threads;
}

} // verus!
