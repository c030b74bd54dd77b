//! The messages that peers exchange through the relay.

use vstd::prelude::*;

verus! {

/// One protocol message. Positions are in milli-pixels and directions are
/// scaled by `DIR_ONE`.
#[derive(Debug, Clone, PartialEq)]
pub enum Payload {
    /// player id, x, y
    Move(u32, i32, i32),
    Join(u32),
    Leave(u32),
    /// player id, x, y, direction x, direction y
    Shoot(u32, i32, i32, i32, i32),
    /// x, y, direction x, direction y
    BossShoot(i32, i32, i32, i32),
    /// player id, new health, damage amount
    PlayerHit(u32, u32, u32),
    /// new boss health
    BossHit(u32),
    /// x, y
    BossSpawn(i32, i32),
    BossDead,
    /// x, y, directions
    BossMultiShoot(i32, i32, Vec<(i32, i32)>),
    /// target x, target y
    BossDash(i32, i32),
    /// center x, center y
    BossAreaAttack(i32, i32),
    BossShield(bool),
    /// player id, x, y
    PlayerRespawn(u32, i32, i32),
    /// player id, direction x, direction y
    PlayerDirection(u32, i32, i32),
    /// killer id, victim id
    PlayerKill(u32, u32),
}

/// How the relay routes a message that a peer sent.
#[derive(Debug, Clone, Copy, PartialEq, Eq, Structural)]
pub enum RelayPolicy {
    /// Record the position, then forward to every peer but the sender.
    UpdateThenOthers,
    /// Replay the known peers to the sender, then forward to the others.
    ReplayThenOthers,
    /// Forget the leaving player's position, then forward to the others.
    ForgetThenOthers,
    /// Forward unchanged to every peer but the sender.
    Others,
    /// Forward unchanged to every peer, the sender included.
    All,
}

pub open spec fn policy_of(p: Payload) -> RelayPolicy {
    match p {
        Payload::Move(..) => RelayPolicy::UpdateThenOthers,
        Payload::Join(..) => RelayPolicy::ReplayThenOthers,
        Payload::Leave(..) => RelayPolicy::ForgetThenOthers,
        Payload::Shoot(..) | Payload::PlayerDirection(..) => RelayPolicy::Others,
        _ => RelayPolicy::All,
    }
}

/// The routing rule for a message.
pub fn relay_policy(p: &Payload) -> (r: RelayPolicy)
    ensures
        r == policy_of(*p),
{
    match p {
        Payload::Move(..) => RelayPolicy::UpdateThenOthers,
        Payload::Join(..) => RelayPolicy::ReplayThenOthers,
        Payload::Leave(..) => RelayPolicy::ForgetThenOthers,
        Payload::Shoot(..) | Payload::PlayerDirection(..) => RelayPolicy::Others,
        _ => RelayPolicy::All,
    }
}

} // verus!
