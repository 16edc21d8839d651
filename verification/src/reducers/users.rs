//! Users: profile changes and agent registration.
use vstd::prelude::*;

use crate::db::{profile_clash, profile_named, profile_of, same_call, Database, ReducerContext};
use crate::rows::{first_index, lemma_update_no_conflicts};
use crate::tables::UserProfile;
use crate::validation::{
    agent_name_error, already_agent_error, error_text, guard_not_already_agent, outcome_is,
    username_error, validate_agent_name, validate_username,
};

verus! {

/// The position of the caller's profile (meaningful when there is one).
pub open spec fn profile_index(db: Database, id: crate::identity::Identity) -> int {
    first_index(db.user_profile@, profile_of(id))
}

/// Replacing the profile at `k` by one with the same identity, whose username is
/// either unchanged or not taken, keeps the constraints.
pub proof fn lemma_wf_profile_update(pre: Database, post: Database, k: int, p: UserProfile)
    requires
        pre.wf(),
        0 <= k < pre.user_profile@.len(),
        p.identity == pre.user_profile@[k].identity,
        p.username@ == pre.user_profile@[k].username@ || !pre.username_taken(p.username@),
        post.user_profile@ == pre.user_profile@.update(k, p),
        post == (Database { user_profile: post.user_profile, ..pre }),
    ensures
        post.wf(),
{
    let ps = pre.user_profile@;
    assert forall|i: int| 0 <= i < ps.len() && i != k implies !(profile_clash())(
        #[trigger] ps[i],
        p,
    ) && !(profile_clash())(p, ps[i]) by {
        assert(!(profile_clash())(ps[i], ps[k]));
        if p.username@ != ps[k].username@ {
            assert(!(profile_named(p.username@))(ps[i]));
        }
    }
    lemma_update_no_conflicts(ps, k, p, profile_clash());
}

pub open spec fn set_profile_error(ctx: ReducerContext, username: Seq<char>) -> Option<Seq<char>> {
    if username_error(username) is Some {
        username_error(username)
    } else {
        match ctx.db.spec_profile(ctx.sender) {
            None => Some("User profile not found. Connect first."@),
            Some(p) => if p.username@ != username && ctx.db.username_taken(username) {
                Some("Username '"@ + username + "' is already taken"@)
            } else {
                None
            },
        }
    }
}

/// The caller's profile gets the new username, display name, avatar and bio.
pub open spec fn set_profile_done(
    pre: ReducerContext,
    post: ReducerContext,
    username: String,
    display_name: Option<String>,
    avatar_url: Option<String>,
    bio: Option<String>,
) -> bool {
    let db = pre.db;
    let p = db.spec_profile(pre.sender).unwrap();
    &&& post.db.user_profile@ == db.user_profile@.update(
        profile_index(db, pre.sender),
        UserProfile { username, display_name, avatar_url, bio, ..p },
    )
    &&& post.db == Database { user_profile: post.db.user_profile, ..db }
}

/// Sets the caller's username (kept unique), display name, avatar and bio.
pub fn set_profile(
    ctx: &mut ReducerContext,
    username: String,
    display_name: Option<String>,
    avatar_url: Option<String>,
    bio: Option<String>,
) -> (r: Result<(), String>)
    requires
        old(ctx).db.wf(),
    ensures
        outcome_is(r, set_profile_error(*old(ctx), username@)),
        same_call(*old(ctx), *final(ctx)),
        final(ctx).db.wf(),
        r is Err ==> final(ctx).db == old(ctx).db,
        r is Ok ==> set_profile_done(*old(ctx), *final(ctx), username, display_name, avatar_url, bio),
{
    let ghost pre = *ctx;
    if let Err(e) = validate_username(username.as_str()) {
        return Err(e);
    }
    let pi = match ctx.db.find_profile(ctx.sender()) {
        Some(i) => i,
        None => return error_text("User profile not found. Connect first."),
    };
    let profile = ctx.db.user_profile[pi].duplicate();

    // Check username uniqueness (if changing)
    if profile.username != username && ctx.db.find_username(&username) {
        let msg = String::from_str("Username '").concat(username.as_str()).concat(
            "' is already taken",
        );
        return Err(msg);
    }

    let row = UserProfile { username, display_name, avatar_url, bio, ..profile };
    ctx.db.user_profile.set(pi, row);
    proof {
        lemma_wf_profile_update(pre.db, ctx.db, pi as int, row);
    }
    Ok(())
}

pub open spec fn register_agent_error(ctx: ReducerContext, agent_name: Seq<char>) -> Option<Seq<char>> {
    if agent_name_error(agent_name) is Some {
        agent_name_error(agent_name)
    } else {
        match ctx.db.spec_profile(ctx.sender) {
            None => Some("User profile not found. Connect first."@),
            Some(p) => if already_agent_error(p.is_agent) is Some {
                already_agent_error(p.is_agent)
            } else if p.username@ != agent_name && ctx.db.username_taken(agent_name) {
                Some("Name '"@ + agent_name + "' is already taken"@)
            } else {
                None
            },
        }
    }
}

/// The caller's profile becomes an agent's: the agent name as username, the
/// description as bio.
pub open spec fn register_agent_done(
    pre: ReducerContext,
    post: ReducerContext,
    agent_name: String,
    description: String,
) -> bool {
    let db = pre.db;
    let p = db.spec_profile(pre.sender).unwrap();
    &&& post.db.user_profile@ == db.user_profile@.update(
        profile_index(db, pre.sender),
        UserProfile { username: agent_name, bio: Some(description), is_agent: true, ..p },
    )
    &&& post.db == Database { user_profile: post.db.user_profile, ..db }
}

/// Registers the caller as an agent under the given name.
pub fn register_agent(ctx: &mut ReducerContext, agent_name: String, description: String) -> (r:
    Result<(), String>)
    requires
        old(ctx).db.wf(),
    ensures
        outcome_is(r, register_agent_error(*old(ctx), agent_name@)),
        same_call(*old(ctx), *final(ctx)),
        final(ctx).db.wf(),
        r is Err ==> final(ctx).db == old(ctx).db,
        r is Ok ==> register_agent_done(*old(ctx), *final(ctx), agent_name, description),
{
    let ghost pre = *ctx;
    if let Err(e) = validate_agent_name(agent_name.as_str()) {
        return Err(e);
    }
    let pi = match ctx.db.find_profile(ctx.sender()) {
        Some(i) => i,
        None => return error_text("User profile not found. Connect first."),
    };
    let profile = ctx.db.user_profile[pi].duplicate();
    if let Err(e) = guard_not_already_agent(profile.is_agent) {
        return Err(e);
    }

    // Check username uniqueness if changing
    if profile.username != agent_name && ctx.db.find_username(&agent_name) {
        let msg = String::from_str("Name '").concat(agent_name.as_str()).concat(
            "' is already taken",
        );
        return Err(msg);
    }

    let row = UserProfile {
        username: agent_name,
        bio: Some(description),
        is_agent: true,
        ..profile
    };
    ctx.db.user_profile.set(pi, row);
    proof {
        lemma_wf_profile_update(pre.db, ctx.db, pi as int, row);
    }
    Ok(())
}

} // verus!
