//! Authorization: memberships, role requirements, and channel-to-server resolution.
use vstd::prelude::*;

use crate::db::{Database, ReducerContext};
use crate::identity::Identity;
use crate::rows::{find_key, lookup};
use crate::tables::{Channel, Server, ServerMember, TableRow};
use crate::types::{role_level, MemberRole};

verus! {

/// The name a role is printed with.
pub open spec fn role_name(role: MemberRole) -> Seq<char> {
    match role {
        MemberRole::Owner => "Owner"@,
        MemberRole::Admin => "Admin"@,
        MemberRole::Moderator => "Moderator"@,
        MemberRole::Member => "Member"@,
        MemberRole::Agent => "Agent"@,
    }
}

pub fn role_name_str(role: MemberRole) -> (s: &'static str)
    ensures
        s@ == role_name(role),
{
    match role {
        MemberRole::Owner => "Owner",
        MemberRole::Admin => "Admin",
        MemberRole::Moderator => "Moderator",
        MemberRole::Member => "Member",
        MemberRole::Agent => "Agent",
    }
}

/// The role `id` holds in server `server_id`, if any.
pub open spec fn spec_member_role(db: Database, server_id: u64, id: Identity) -> Option<MemberRole> {
    match db.spec_membership(server_id, id) {
        Some(m) => Some(m.role),
        None => None,
    }
}

/// `id` is at least an Admin in server `server_id`.
pub open spec fn is_admin_in(db: Database, server_id: u64, id: Identity) -> bool {
    match spec_member_role(db, server_id, id) {
        Some(role) => role_level(role) >= role_level(MemberRole::Admin),
        None => false,
    }
}

/// What `require_member` gives: the caller's membership, or the error text.
pub open spec fn member_check(db: Database, server_id: u64, id: Identity) -> Result<
    ServerMember,
    Seq<char>,
> {
    match db.spec_membership(server_id, id) {
        Some(m) => Ok(m),
        None => Err("You are not a member of this server"@),
    }
}

/// What `require_role` gives: the caller's membership when its role is at least
/// `min_role`, or the error text.
pub open spec fn role_check(db: Database, server_id: u64, id: Identity, min_role: MemberRole) -> Result<
    ServerMember,
    Seq<char>,
> {
    match db.spec_membership(server_id, id) {
        Some(m) => if role_level(m.role) >= role_level(min_role) {
            Ok(m)
        } else {
            Err("Insufficient permissions: requires "@ + role_name(min_role) + " or higher"@)
        },
        None => Err("You are not a member of this server"@),
    }
}

/// What `get_server_for_channel` gives: the channel and its server, or the error text.
pub open spec fn channel_server_check(db: Database, channel_id: u64) -> Result<
    (Channel, Server),
    Seq<char>,
> {
    match lookup(db.channel@, channel_id) {
        None => Err("Channel not found"@),
        Some(c) => match lookup(db.server@, c.server_id) {
            None => Err("Server not found for channel"@),
            Some(s) => Ok((c, s)),
        },
    }
}

/// `r` is the value `expected` describes, or an error with exactly its text.
pub open spec fn result_is<T>(r: Result<T, String>, expected: Result<T, Seq<char>>) -> bool {
    match expected {
        Ok(v) => r == Ok::<T, String>(v),
        Err(msg) => r matches Err(e) && e@ == msg,
    }
}

/// Get a user's membership in a server, if any.
pub fn get_membership(ctx: &ReducerContext, server_id: u64, identity: Identity) -> (r: Option<
    ServerMember,
>)
    ensures
        r == ctx.db.spec_membership(server_id, identity),
{
    match ctx.db.find_membership(server_id, identity) {
        Some(i) => Some(ctx.db.server_member[i].duplicate()),
        None => None,
    }
}

/// Get the role of a user in a server.
pub fn get_member_role(ctx: &ReducerContext, server_id: u64, identity: Identity) -> (r: Option<
    MemberRole,
>)
    ensures
        r == spec_member_role(ctx.db, server_id, identity),
{
    match get_membership(ctx, server_id, identity) {
        Some(m) => Some(m.role),
        None => None,
    }
}

/// Require that the caller is a member of the server. Returns the membership row.
pub fn require_member(ctx: &ReducerContext, server_id: u64) -> (r: Result<ServerMember, String>)
    ensures
        result_is(r, member_check(ctx.db, server_id, ctx.sender)),
{
    match get_membership(ctx, server_id, ctx.sender()) {
        Some(m) => Ok(m),
        None => Err(String::from_str("You are not a member of this server")),
    }
}

/// Require that the caller has at least the given role level.
pub fn require_role(ctx: &ReducerContext, server_id: u64, min_role: MemberRole) -> (r: Result<
    ServerMember,
    String,
>)
    ensures
        result_is(r, role_check(ctx.db, server_id, ctx.sender, min_role)),
{
    let member = match require_member(ctx, server_id) {
        Ok(m) => m,
        Err(e) => return Err(e),
    };
    if member.role.level() >= min_role.level() {
        Ok(member)
    } else {
        let msg = String::from_str("Insufficient permissions: requires ").concat(
            role_name_str(min_role),
        ).concat(" or higher");
        Err(msg)
    }
}

/// Look up a channel and its parent server. Returns (Channel, Server).
pub fn get_server_for_channel(ctx: &ReducerContext, channel_id: u64) -> (r: Result<
    (Channel, Server),
    String,
>)
    requires
        ctx.db.wf(),
    ensures
        result_is(r, channel_server_check(ctx.db, channel_id)),
{
    let ci = match find_key(&ctx.db.channel, channel_id) {
        Some(i) => i,
        None => return Err(String::from_str("Channel not found")),
    };
    let channel = ctx.db.channel[ci].duplicate();
    let si = match find_key(&ctx.db.server, channel.server_id) {
        Some(i) => i,
        None => return Err(String::from_str("Server not found for channel")),
    };
    let server = ctx.db.server[si].duplicate();
    Ok((channel, server))
}

} // verus!
