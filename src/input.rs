//! Turns one frame of the local player's input into state changes and
//! outgoing messages.

use vstd::prelude::*;
use crate::audio::SoundType;
use crate::bullet::{player_bullet, Bullet};
use crate::constants::{PLAYER_RADIUS, PLAYER_RESPAWN_TIME, PLAYER_SPEED};
use crate::geometry::{aim, aim_spec, sat_i32, saturate, Arena};
use crate::message::Payload;
use crate::player::{moved_by, Player};

verus! {

/// What the input layer captured this frame.
#[derive(Debug, Clone, Copy, PartialEq, Eq, Structural)]
pub struct InputState {
    pub left: bool,
    pub right: bool,
    pub up: bool,
    pub down: bool,
    /// A fire key or button was pressed this frame.
    pub fire: bool,
    pub mouse_x: i32,
    pub mouse_y: i32,
}

/// Handles the local player's input.
pub struct InputSystem;

/// Distance that a player covers in `dt` milliseconds.
pub open spec fn stride(dt: u32) -> int {
    sat_i32(PLAYER_SPEED * dt)
}

/// The player after the movement keys of one frame, applied left, right,
/// up, down.
pub open spec fn walked_player(p: Player, input: InputState, dt: u32, arena: Arena) -> Player {
    let s = stride(dt);
    let p1 = if input.left { moved_by(p, -s, 0, arena) } else { p };
    let p2 = if input.right { moved_by(p1, s, 0, arena) } else { p1 };
    let p3 = if input.up { moved_by(p2, 0, -s, arena) } else { p2 };
    if input.down { moved_by(p3, 0, s, arena) } else { p3 }
}

/// The player turned toward the mouse, unless the mouse is on the player.
pub open spec fn turned(p: Player, input: InputState) -> Player {
    if p.x == input.mouse_x && p.y == input.mouse_y {
        p
    } else {
        let d = aim_spec(p.x as int, p.y as int, input.mouse_x as int, input.mouse_y as int);
        Player { direction_x: d.0 as i32, direction_y: d.1 as i32, ..p }
    }
}

/// A dead player `l0` after a frame of `dt`: it counts toward respawning and,
/// once it may, comes back with full health somewhere in the lower half of
/// the arena, announcing where.
pub open spec fn respawn_step(l0: Player, l1: Player, o0: Seq<Payload>, o1: Seq<Payload>, c0: Seq<SoundType>, c1: Seq<SoundType>, dt: u32, arena: Arena) -> bool {
    let timer = l0.respawn_timer.saturating_add(dt);
    if timer >= PLAYER_RESPAWN_TIME {
        &&& l1 == (Player {
            x: l1.x,
            y: l1.y,
            health: l0.max_health,
            is_alive: true,
            respawn_timer: 0,
            ..l0
        })
        &&& PLAYER_RADIUS <= l1.x <= arena.width - PLAYER_RADIUS
        &&& arena.height / 2 <= l1.y <= arena.height - PLAYER_RADIUS
        &&& o1 == o0.push(Payload::PlayerRespawn(l1.id, l1.x, l1.y))
        &&& c1 == c0.push(SoundType::Join)
    } else {
        &&& l1 == (Player { respawn_timer: timer, ..l0 })
        &&& o1 == o0
        &&& c1 == c0
    }
}

/// One frame of input: the local player `l0` becomes `l1`, the bullets `b0`
/// become `b1`, the outbox `o0` becomes `o1` and the cues `c0` become `c1`;
/// `r` says whether the player moved. A living player turns toward the
/// mouse (announcing a change of facing), fires along its new facing when
/// asked (a bullet, a Shoot message and a cue), then walks.
pub open spec fn input_effect(
    l0: Player,
    l1: Player,
    b0: Seq<Bullet>,
    b1: Seq<Bullet>,
    o0: Seq<Payload>,
    o1: Seq<Payload>,
    c0: Seq<SoundType>,
    c1: Seq<SoundType>,
    input: InputState,
    dt: u32,
    arena: Arena,
    r: bool,
) -> bool {
    if !l0.is_alive {
        &&& !r
        &&& b1 == b0
        &&& respawn_step(l0, l1, o0, o1, c0, c1, dt, arena)
    } else {
        let t = turned(l0, input);
        let turn_msgs = if t.direction_x != l0.direction_x || t.direction_y != l0.direction_y {
            seq![Payload::PlayerDirection(t.id, t.direction_x, t.direction_y)]
        } else {
            Seq::empty()
        };
        let shot = player_bullet(t.x, t.y, t.direction_x, t.direction_y, t.id);
        &&& r == (input.left || input.right || input.up || input.down)
        &&& l1 == walked_player(t, input, dt, arena)
        &&& b1 == (if input.fire { b0.push(shot) } else { b0 })
        &&& o1 == o0 + turn_msgs + (if input.fire {
            seq![Payload::Shoot(t.id, t.x, t.y, t.direction_x, t.direction_y)]
        } else {
            Seq::empty()
        })
        &&& c1 == (if input.fire { c0.push(SoundType::PlayerShoot) } else { c0 })
    }
}

impl InputSystem {
    /// Applies one frame of input; says whether the player moved. A dead
    /// player only counts toward respawning, and respawns when it may.
    pub fn update_player_input(
        local_player: &mut Player,
        bullets: &mut Vec<Bullet>,
        input: &InputState,
        dt: u32,
        arena: Arena,
        outbox: &mut Vec<Payload>,
        cues: &mut Vec<SoundType>,
    ) -> (r: bool)
        requires
            arena.wf(),
        ensures
            input_effect(
                *old(local_player),
                *final(local_player),
                old(bullets)@,
                final(bullets)@,
                old(outbox)@,
                final(outbox)@,
                old(cues)@,
                final(cues)@,
                *input,
                dt,
                arena,
                r,
            ),
    {
        if !local_player.is_alive {
            Self::handle_respawn(local_player, dt, arena, outbox, cues);
            return false;
        }
        Self::update_mouse_direction(local_player, input, outbox);
        let ghost turned_out = outbox@;
        if input.fire {
            Self::handle_shooting(local_player, bullets, outbox, cues);
            assert(outbox@ =~= turned_out + seq![Payload::Shoot(local_player.id, local_player.x, local_player.y, local_player.direction_x, local_player.direction_y)]);
        }
        Self::handle_movement(local_player, input, dt, arena)
    }

    /// Counts a dead player toward respawning and brings it back when it
    /// may, announcing where.
    fn handle_respawn(
        local_player: &mut Player,
        dt: u32,
        arena: Arena,
        outbox: &mut Vec<Payload>,
        cues: &mut Vec<SoundType>,
    )
        requires
            arena.wf(),
            !old(local_player).is_alive,
        ensures
            respawn_step(*old(local_player), *final(local_player), old(outbox)@, final(outbox)@, old(cues)@, final(cues)@, dt, arena),
    {
        local_player.update_respawn(dt);
        if local_player.can_respawn() {
            local_player.respawn(arena);
            cues.push(SoundType::Join);
            outbox.push(Payload::PlayerRespawn(local_player.id, local_player.x, local_player.y));
        }
    }

    /// Applies the movement keys; says whether any was held.
    fn handle_movement(local_player: &mut Player, input: &InputState, dt: u32, arena: Arena) -> (r: bool)
        requires
            arena.wf(),
        ensures
            r == (input.left || input.right || input.up || input.down),
            *final(local_player) == walked_player(*old(local_player), *input, dt, arena),
    {
        let speed: i32 = saturate(PLAYER_SPEED as i128 * dt as i128);
        assert(speed == stride(dt));
        assert(speed >= 0);
        let mut moved = false;
        if input.left {
            local_player.move_by(-speed, 0, arena);
            moved = true;
        }
        if input.right {
            local_player.move_by(speed, 0, arena);
            moved = true;
        }
        if input.up {
            local_player.move_by(0, -speed, arena);
            moved = true;
        }
        if input.down {
            local_player.move_by(0, speed, arena);
            moved = true;
        }
        moved
    }

    /// Turns the player toward the mouse and announces a change of facing.
    fn update_mouse_direction(local_player: &mut Player, input: &InputState, outbox: &mut Vec<Payload>)
        ensures
            ({
                let t = turned(*old(local_player), *input);
                &&& *final(local_player) == t
                &&& final(outbox)@ == old(outbox)@ + (if t.direction_x != old(local_player).direction_x
                    || t.direction_y != old(local_player).direction_y {
                    seq![Payload::PlayerDirection(t.id, t.direction_x, t.direction_y)]
                } else {
                    Seq::empty()
                })
            }),
    {
        if let Some(d) = aim(local_player.x, local_player.y, input.mouse_x, input.mouse_y) {
            if local_player.set_direction(d.0, d.1) {
                outbox.push(Payload::PlayerDirection(local_player.id, local_player.direction_x, local_player.direction_y));
            }
        }
        assert(outbox@ =~= old(outbox)@ + (if local_player.direction_x != old(local_player).direction_x
            || local_player.direction_y != old(local_player).direction_y {
            seq![Payload::PlayerDirection(local_player.id, local_player.direction_x, local_player.direction_y)]
        } else {
            Seq::<Payload>::empty()
        }));
    }

    /// Fires a bullet along the player's facing and announces it.
    fn handle_shooting(
        local_player: &Player,
        bullets: &mut Vec<Bullet>,
        outbox: &mut Vec<Payload>,
        cues: &mut Vec<SoundType>,
    )
        ensures
            final(bullets)@ == old(bullets)@.push(player_bullet(local_player.x, local_player.y, local_player.direction_x, local_player.direction_y, local_player.id)),
            final(outbox)@ == old(outbox)@.push(Payload::Shoot(local_player.id, local_player.x, local_player.y, local_player.direction_x, local_player.direction_y)),
            final(cues)@ == old(cues)@.push(SoundType::PlayerShoot),
    {
        bullets.push(Bullet::new(
            local_player.x,
            local_player.y,
            local_player.direction_x,
            local_player.direction_y,
            local_player.id,
        ));
        cues.push(SoundType::PlayerShoot);
        outbox.push(Payload::Shoot(
            local_player.id,
            local_player.x,
            local_player.y,
            local_player.direction_x,
            local_player.direction_y,
        ));
    }
}

} // verus!
