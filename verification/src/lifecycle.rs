//! Lifecycle reducers: seeding the database, and clients connecting and disconnecting.
use vstd::prelude::*;

use crate::db::{
    lemma_wf_member_push, member_of, presence_clash, presence_of, profile_clash, profile_named,
    profile_of, same_call, Database, ReducerContext,
};
use crate::identity::{hex_of, Identity};
use crate::reducers::servers::is_default_channel;
use crate::rows::{
    any_match, first_index, first_match, is_first_match, lemma_first_match_at,
    lemma_first_match_none, lemma_first_match_some, lemma_push_no_conflicts, lemma_push_table_ok,
    lemma_update_no_conflicts,
};
use crate::tables::{Channel, Server, ServerMember, TableRow, UserPresence, UserProfile};
use crate::types::{ChannelType, MemberRole};

verus! {

// ---------------------------------------------------------------------------
// init
// ---------------------------------------------------------------------------

/// A seeded channel: name, topic, type and position as given, in the hub.
pub open spec fn is_seed_channel(
    c: Channel,
    id: u64,
    server_id: u64,
    name: Seq<char>,
    topic: Seq<char>,
    channel_type: ChannelType,
    position: u32,
    ctx: ReducerContext,
) -> bool {
    &&& c.id == id
    &&& c.server_id == server_id
    &&& c.name@ == name
    &&& c.topic matches Some(t) && t@ == topic
    &&& c.channel_type == channel_type
    &&& c.position == position
    &&& c.created_at == ctx.timestamp
}

/// The "Spaces Hub" server is added, owned by the caller, with its `#general`,
/// `#agent-logs` and `#system` channels.
pub open spec fn init_done(pre: ReducerContext, post: ReducerContext) -> bool {
    let db = pre.db;
    let sid = db.server_next_id;
    let cid = db.channel_next_id;
    let n = db.channel@.len();
    let hub = post.db.server@.last();
    let cs = post.db.channel@;
    &&& post.db.server@.len() == db.server@.len() + 1
    &&& post.db.server@.drop_last() == db.server@
    &&& hub.id == sid
    &&& hub.name@ == "Spaces Hub"@
    &&& hub.description matches Some(d) && d@ == "Default server for the Spaces network"@
    &&& hub.icon_url is None
    &&& hub.owner == pre.sender
    &&& hub.created_at == pre.timestamp
    &&& cs.len() == n + 3
    &&& cs.subrange(0, n as int) == db.channel@
    &&& is_default_channel(cs[n as int], cid, sid, pre)
    &&& is_seed_channel(
        cs[n + 1int],
        (cid + 1) as u64,
        sid,
        "agent-logs"@,
        "Agent activity logs"@,
        ChannelType::AgentLog,
        1,
        pre,
    )
    &&& is_seed_channel(
        cs[n + 2int],
        (cid + 2) as u64,
        sid,
        "system"@,
        "System notifications"@,
        ChannelType::Announcement,
        2,
        pre,
    )
    &&& post.db == Database {
        server: post.db.server,
        server_next_id: (sid + 1) as u64,
        channel: post.db.channel,
        channel_next_id: (cid + 3) as u64,
        ..db
    }
}

fn push_channel(db: &mut Database, channel: Channel)
    requires
        old(db).wf(),
        channel.id == old(db).channel_next_id,
        old(db).channel_next_id < u64::MAX,
    ensures
        final(db).wf(),
        final(db).channel@ == old(db).channel@.push(channel),
        *final(db) == (Database {
            channel: final(db).channel,
            channel_next_id: (old(db).channel_next_id + 1) as u64,
            ..*old(db)
        }),
{
    proof {
        lemma_push_table_ok(db.channel@, channel, db.channel_next_id);
    }
    db.channel_next_id = channel.id + 1;
    db.channel.push(channel);
}

/// Seeds the database with the "Spaces Hub" server and its default channels.
pub fn init(ctx: &mut ReducerContext)
    requires
        old(ctx).db.wf(),
        old(ctx).db.server_next_id < u64::MAX,
        old(ctx).db.channel_next_id < u64::MAX - 2,
    ensures
        same_call(*old(ctx), *final(ctx)),
        final(ctx).db.wf(),
        init_done(*old(ctx), *final(ctx)),
{
    let ghost pre = *ctx;
    // Create the default "Spaces Hub" server
    let sid = ctx.db.server_next_id;
    let hub = Server {
        id: sid,
        name: String::from_str("Spaces Hub"),
        description: Some(String::from_str("Default server for the Spaces network")),
        icon_url: None,
        owner: ctx.sender(),
        created_at: ctx.timestamp,
    };
    proof {
        lemma_push_table_ok(ctx.db.server@, hub, sid);
    }
    ctx.db.server.push(hub);
    ctx.db.server_next_id = sid + 1;
    proof {
        let db = ctx.db;
        assert forall|i: int|
            0 <= i < db.server_member@.len() && (#[trigger] db.server_member@[i]).role
                == MemberRole::Owner implies exists|j: int|
            0 <= j < db.server@.len() && (#[trigger] db.server@[j]).id == db.server_member@[i].server_id
                && db.server@[j].owner == db.server_member@[i].identity by {
            let j = choose|j: int|
                0 <= j < pre.db.server@.len() && (#[trigger] pre.db.server@[j]).id
                    == pre.db.server_member@[i].server_id && pre.db.server@[j].owner
                    == pre.db.server_member@[i].identity;
            assert(db.server@[j] == pre.db.server@[j]);
        }
        assert forall|i: int| 0 <= i < db.server_member@.len() implies (
        #[trigger] db.server_member@[i]).server_id < db.server_next_id by {
            assert(pre.db.server_member@[i].server_id < pre.db.server_next_id);
        }
    }

    // Create default channels
    let cid = ctx.db.channel_next_id;
    push_channel(
        &mut ctx.db,
        Channel {
            id: cid,
            server_id: sid,
            name: String::from_str("general"),
            topic: Some(String::from_str("General discussion")),
            channel_type: ChannelType::Text,
            position: 0,
            created_at: ctx.timestamp,
        },
    );
    push_channel(
        &mut ctx.db,
        Channel {
            id: cid + 1,
            server_id: sid,
            name: String::from_str("agent-logs"),
            topic: Some(String::from_str("Agent activity logs")),
            channel_type: ChannelType::AgentLog,
            position: 1,
            created_at: ctx.timestamp,
        },
    );
    push_channel(
        &mut ctx.db,
        Channel {
            id: cid + 2,
            server_id: sid,
            name: String::from_str("system"),
            topic: Some(String::from_str("System notifications")),
            channel_type: ChannelType::Announcement,
            position: 2,
            created_at: ctx.timestamp,
        },
    );
    assert(ctx.db.server@.drop_last() =~= pre.db.server@);
    assert(ctx.db.channel@.subrange(0, pre.db.channel@.len() as int) =~= pre.db.channel@);
}

// ---------------------------------------------------------------------------
// client_connected / client_disconnected
// ---------------------------------------------------------------------------

/// The username a new user starts with: "user_" and the first eight hex digits of the identity.
pub open spec fn default_username(id: Identity) -> Seq<char> {
    "user_"@ + hex_of(id).subrange(0, 8)
}

/// The username a new user starts with.
pub fn default_username_for(id: Identity) -> (s: String)
    ensures
        s@ == default_username(id),
{
    let short_id = id.to_hex();
    String::from_str("user_").concat(short_id.as_str().substring_char(0, 8))
}

pub open spec fn server_named(name: Seq<char>) -> spec_fn(Server) -> bool {
    |s: Server| s.name@ == name
}

/// The caller's presence row says online since now: updated when it exists, appended otherwise.
pub open spec fn presence_set(pre: Database, post: Database, who: Identity, online: bool, ctx: ReducerContext) -> bool {
    match first_match(pre.user_presence@, presence_of(who)) {
        Some(p) => post.user_presence@ == pre.user_presence@.update(
            first_index(pre.user_presence@, presence_of(who)),
            UserPresence { online, last_seen: ctx.timestamp, ..p },
        ),
        None => online && post.user_presence@ == pre.user_presence@.push(
            UserPresence { identity: who, online: true, status_text: None, last_seen: ctx.timestamp },
        ),
    }
}

/// What a connection does besides presence: a new user gets a profile and,
/// when the "Spaces Hub" exists and they are not in it, a Member membership there.
pub open spec fn welcomed(pre: Database, post: Database, ctx: ReducerContext) -> bool {
    let who = ctx.sender;
    if pre.spec_profile(who) is Some {
        post.user_profile == pre.user_profile && post.server_member == pre.server_member
            && post.server_member_next_id == pre.server_member_next_id
    } else {
        &&& post.user_profile@.len() == pre.user_profile@.len() + 1
        &&& post.user_profile@.drop_last() == pre.user_profile@
        &&& ({
            let p = post.user_profile@.last();
            &&& p.identity == who
            &&& p.username@ == default_username(who)
            &&& p.display_name is None
            &&& p.avatar_url is None
            &&& p.bio is None
            &&& !p.is_agent
            &&& p.created_at == ctx.timestamp
        })
        &&& match first_match(pre.server@, server_named("Spaces Hub"@)) {
            Some(hub) => if any_match(pre.server_member@, member_of(hub.id, who)) {
                post.server_member == pre.server_member && post.server_member_next_id
                    == pre.server_member_next_id
            } else {
                &&& post.server_member@ == pre.server_member@.push(
                    ServerMember {
                        id: pre.server_member_next_id,
                        server_id: hub.id,
                        identity: who,
                        role: MemberRole::Member,
                        joined_at: ctx.timestamp,
                    },
                )
                &&& post.server_member_next_id == pre.server_member_next_id + 1
            },
            None => post.server_member == pre.server_member && post.server_member_next_id
                == pre.server_member_next_id,
        }
    }
}

/// Marks the caller online; a new caller gets a profile and joins the "Spaces Hub".
pub fn client_connected(ctx: &mut ReducerContext)
    requires
        old(ctx).db.wf(),
        old(ctx).db.spec_profile(old(ctx).sender) is None ==> old(ctx).db.server_member_next_id
            < u64::MAX,
        old(ctx).db.spec_profile(old(ctx).sender) is None ==> !old(ctx).db.username_taken(
            default_username(old(ctx).sender),
        ),
    ensures
        same_call(*old(ctx), *final(ctx)),
        final(ctx).db.wf(),
        presence_set(old(ctx).db, final(ctx).db, old(ctx).sender, true, *old(ctx)),
        welcomed(old(ctx).db, final(ctx).db, *old(ctx)),
        final(ctx).db == (Database {
            user_presence: final(ctx).db.user_presence,
            user_profile: final(ctx).db.user_profile,
            server_member: final(ctx).db.server_member,
            server_member_next_id: final(ctx).db.server_member_next_id,
            ..old(ctx).db
        }),
{
    let ghost pre = *ctx;
    let sender = ctx.sender();

    // Upsert UserPresence
    set_presence(&mut ctx.db, sender, true, ctx.timestamp);
    let ghost mid = ctx.db;

    // Create UserProfile if new
    if ctx.db.find_profile(sender).is_none() {
        let username = default_username_for(sender);
        let profile = UserProfile {
            identity: sender,
            username,
            display_name: None,
            avatar_url: None,
            bio: None,
            is_agent: false,
            created_at: ctx.timestamp,
        };
        proof {
            let ps = mid.user_profile@;
            assert forall|i: int| 0 <= i < ps.len() implies !(profile_clash())(#[trigger] ps[i], profile)
                && !(profile_clash())(profile, ps[i]) by {
                assert(!(profile_of(sender))(ps[i]));
                assert(!(profile_named(profile.username@))(ps[i]));
            }
            lemma_push_no_conflicts(ps, profile, profile_clash());
        }
        ctx.db.user_profile.push(profile);
        assert(ctx.db.user_profile@.drop_last() =~= mid.user_profile@);

        // Auto-join the Spaces Hub, found by name, unless already a member
        if let Some(hi) = find_server_named(&ctx.db, "Spaces Hub") {
            let hub_id = ctx.db.server[hi].id;
            let already_member = ctx.db.find_membership(hub_id, sender).is_some();
            if !already_member {
                let id = ctx.db.server_member_next_id;
                let member = ServerMember {
                    id,
                    server_id: hub_id,
                    identity: sender,
                    role: MemberRole::Member,
                    joined_at: ctx.timestamp,
                };
                let ghost before = ctx.db;
                ctx.db.server_member.push(member);
                ctx.db.server_member_next_id = id + 1;
                proof {
                    assert(before.server@[hi as int].key() < before.server_next_id);
                    lemma_wf_member_push(before, ctx.db, member);
                }
            } else {
                proof {
                    let f = member_of(hub_id, sender);
                    let k = choose|k: int| is_first_match(ctx.db.server_member@, f, k);
                    assert(f(ctx.db.server_member@[k]));
                }
            }
        }
    }
}

/// Marks the caller offline, when they have a presence row.
pub fn client_disconnected(ctx: &mut ReducerContext)
    requires
        old(ctx).db.wf(),
    ensures
        same_call(*old(ctx), *final(ctx)),
        final(ctx).db.wf(),
        match first_match(old(ctx).db.user_presence@, presence_of(old(ctx).sender)) {
            Some(p) => final(ctx).db.user_presence@ == old(ctx).db.user_presence@.update(
                first_index(old(ctx).db.user_presence@, presence_of(old(ctx).sender)),
                UserPresence { online: false, last_seen: old(ctx).timestamp, ..p },
            ),
            None => final(ctx).db.user_presence == old(ctx).db.user_presence,
        },
        final(ctx).db == (Database { user_presence: final(ctx).db.user_presence, ..old(ctx).db }),
{
    let sender = ctx.sender();
    if let Some(pi) = ctx.db.find_presence(sender) {
        update_presence(&mut ctx.db, pi, false, ctx.timestamp);
    }
}

/// Sets the presence row at `pi` online or offline, seen now.
fn update_presence(db: &mut Database, pi: usize, online: bool, ts: crate::identity::Timestamp)
    requires
        old(db).wf(),
        pi < old(db).user_presence@.len(),
    ensures
        final(db).wf(),
        final(db).user_presence@ == old(db).user_presence@.update(
            pi as int,
            UserPresence { online, last_seen: ts, ..old(db).user_presence@[pi as int] },
        ),
        *final(db) == (Database { user_presence: final(db).user_presence, ..*old(db) }),
{
    let presence = db.user_presence[pi].duplicate();
    let row = UserPresence { online, last_seen: ts, ..presence };
    proof {
        let ps = db.user_presence@;
        assert forall|i: int| 0 <= i < ps.len() && i != pi implies !(presence_clash())(
            #[trigger] ps[i],
            row,
        ) && !(presence_clash())(row, ps[i]) by {
            assert(!(presence_clash())(ps[i], ps[pi as int]));
        }
        lemma_update_no_conflicts(ps, pi as int, row, presence_clash());
    }
    db.user_presence.set(pi, row);
}

/// Upserts the presence row of `who`.
fn set_presence(db: &mut Database, who: Identity, online: bool, ts: crate::identity::Timestamp)
    requires
        old(db).wf(),
        online,
    ensures
        final(db).wf(),
        presence_set(
            *old(db),
            *final(db),
            who,
            online,
            ReducerContext { db: *old(db), sender: who, timestamp: ts },
        ),
        *final(db) == (Database { user_presence: final(db).user_presence, ..*old(db) }),
{
    match db.find_presence(who) {
        Some(pi) => update_presence(db, pi, online, ts),
        None => {
            let row = UserPresence { identity: who, online: true, status_text: None, last_seen: ts };
            proof {
                let ps = db.user_presence@;
                assert forall|i: int| 0 <= i < ps.len() implies !(presence_clash())(
                    #[trigger] ps[i],
                    row,
                ) && !(presence_clash())(row, ps[i]) by {
                    assert(!(presence_of(who))(ps[i]));
                }
                lemma_push_no_conflicts(ps, row, presence_clash());
            }
            db.user_presence.push(row);
        },
    }
}

/// The position of the first server with the given name.
fn find_server_named(db: &Database, name: &str) -> (r: Option<usize>)
    ensures
        match r {
            Some(i) => is_first_match(db.server@, server_named(name@), i as int)
                && first_match(db.server@, server_named(name@)) == Some(db.server@[i as int]),
            None => first_match(db.server@, server_named(name@)) is None,
        },
{
    let wanted = String::from_str(name);
    let mut i: usize = 0;
    while i < db.server.len()
        invariant
            wanted@ == name@,
            i <= db.server@.len(),
            forall|j: int| 0 <= j < i ==> !(server_named(name@))(#[trigger] db.server@[j]),
        decreases db.server@.len() - i,
    {
        if db.server[i].name == wanted {
            proof {
                lemma_first_match_at(db.server@, server_named(name@), i as int);
            }
            return Some(i);
        }
        i = i + 1;
    }
    proof {
        lemma_first_match_none(db.server@, server_named(name@));
    }
    None
}

} // verus!
