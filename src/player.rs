//! A player: position, facing, health and respawn bookkeeping.

use vstd::prelude::*;
use crate::constants::{PLAYER_MAX_HEALTH, PLAYER_RADIUS, PLAYER_RESPAWN_TIME, DIR_ONE};
use crate::geometry::{
    clamp, clamp_spec, distance_sq, dist_sq, isqrt, sqrt_floor, within, within_spec, Arena,
    saturate,
};
use crate::rng::gen_range;

verus! {

#[derive(Debug, Clone, Copy, PartialEq, Eq, Structural)]
pub struct Player {
    pub id: u32,
    pub x: i32,
    pub y: i32,
    pub direction_x: i32,
    pub direction_y: i32,
    pub health: u32,
    pub max_health: u32,
    pub respawn_timer: u32,
    pub is_alive: bool,
    pub kills: u32,
}

/// A fresh player: full health, alive, facing up, no kills.
pub open spec fn fresh_player(id: u32, x: i32, y: i32) -> Player {
    Player {
        id,
        x,
        y,
        direction_x: 0,
        direction_y: (-DIR_ONE) as i32,
        health: PLAYER_MAX_HEALTH,
        max_health: PLAYER_MAX_HEALTH,
        respawn_timer: 0,
        is_alive: true,
        kills: 0,
    }
}

/// The player after taking `damage`; the flag says whether the hit was
/// fatal. A dead player takes no damage.
pub open spec fn damaged(p: Player, damage: u32) -> (Player, bool) {
    if !p.is_alive {
        (p, false)
    } else {
        let h = p.health.saturating_sub(damage);
        if h == 0 {
            (Player { health: 0, is_alive: false, respawn_timer: 0, ..p }, true)
        } else {
            (Player { health: h, ..p }, false)
        }
    }
}

/// `remotes[i]` is the first player with this id.
pub open spec fn is_first_with_id(remotes: Seq<Player>, id: u32, i: int) -> bool {
    &&& 0 <= i < remotes.len()
    &&& remotes[i].id == id
    &&& forall|j: int| 0 <= j < i ==> (#[trigger] remotes[j]).id != id
}

pub open spec fn first_with_id(remotes: Seq<Player>, id: u32) -> Option<int> {
    if exists|i: int| is_first_with_id(remotes, id, i) {
        Some(choose|i: int| is_first_with_id(remotes, id, i))
    } else {
        None
    }
}

pub open spec fn has_player(remotes: Seq<Player>, id: u32) -> bool {
    exists|i: int| 0 <= i < remotes.len() && (#[trigger] remotes[i]).id == id
}

/// The players with `f` applied to the first one with this id, if any.
pub open spec fn with_first_id(remotes: Seq<Player>, id: u32, f: spec_fn(Player) -> Player) -> Seq<Player> {
    match first_with_id(remotes, id) {
        Some(i) => remotes.update(i, f(remotes[i])),
        None => remotes,
    }
}

pub proof fn lemma_first_with_id(remotes: Seq<Player>, id: u32, i: int)
    requires
        is_first_with_id(remotes, id, i),
    ensures
        first_with_id(remotes, id) == Some(i),
{
    let k = choose|k: int| is_first_with_id(remotes, id, k);
    if k < i {
        assert(remotes[k].id != id);
    } else if i < k {
        assert(remotes[i].id != id);
    }
}

pub proof fn lemma_first_with_id_some(remotes: Seq<Player>, id: u32)
    ensures
        first_with_id(remotes, id).is_some() <==> has_player(remotes, id),
        first_with_id(remotes, id).is_some() ==> is_first_with_id(remotes, id, first_with_id(remotes, id).unwrap()),
{
    if has_player(remotes, id) {
        let mut k = choose|k: int| 0 <= k < remotes.len() && (#[trigger] remotes[k]).id == id;
        lemma_least_with_id(remotes, id, k);
    }
    if first_with_id(remotes, id).is_some() {
        let i = first_with_id(remotes, id).unwrap();
        assert(remotes[i].id == id);
    }
}

proof fn lemma_least_with_id(remotes: Seq<Player>, id: u32, k: int)
    requires
        0 <= k < remotes.len(),
        remotes[k].id == id,
    ensures
        exists|i: int| is_first_with_id(remotes, id, i),
    decreases k,
{
    if exists|j: int| 0 <= j < k && (#[trigger] remotes[j]).id == id {
        let j = choose|j: int| 0 <= j < k && (#[trigger] remotes[j]).id == id;
        lemma_least_with_id(remotes, id, j);
    } else {
        assert(is_first_with_id(remotes, id, k));
    }
}

/// The position of the first player with this id.
pub fn find_id(remotes: &Vec<Player>, id: u32) -> (r: Option<usize>)
    ensures
        match r {
            Some(i) => first_with_id(remotes@, id) == Some(i as int),
            None => first_with_id(remotes@, id).is_none() && !has_player(remotes@, id),
        },
{
    let mut i: usize = 0;
    while i < remotes.len()
        invariant
            i <= remotes@.len(),
            forall|j: int| 0 <= j < i ==> (#[trigger] remotes@[j]).id != id,
        decreases remotes.len() - i,
    {
        if remotes[i].id == id {
            proof {
                lemma_first_with_id(remotes@, id, i as int);
            }
            return Some(i);
        }
        i = i + 1;
    }
    proof {
        lemma_first_with_id_some(remotes@, id);
    }
    None
}

/// The player moved by an offset and kept inside the arena.
pub open spec fn moved_by(p: Player, vx: int, vy: int, arena: Arena) -> Player {
    Player {
        x: clamp_spec(p.x + vx, PLAYER_RADIUS as int, arena.width - PLAYER_RADIUS) as i32,
        y: clamp_spec(p.y + vy, PLAYER_RADIUS as int, arena.height - PLAYER_RADIUS) as i32,
        ..p
    }
}

impl Player {
    /// A new player at the given position.
    pub fn new(id: u32, x: i32, y: i32) -> (r: Player)
        ensures
            r == fresh_player(id, x, y),
    {
        Player {
            id,
            x,
            y,
            direction_x: 0,
            direction_y: -DIR_ONE,
            health: PLAYER_MAX_HEALTH,
            max_health: PLAYER_MAX_HEALTH,
            respawn_timer: 0,
            is_alive: true,
            kills: 0,
        }
    }

    /// A new player in the middle of the arena.
    pub fn new_at_center(id: u32, arena: Arena) -> (r: Player)
        requires
            arena.wf(),
        ensures
            r == fresh_player(id, (arena.width / 2) as i32, (arena.height / 2) as i32),
    {
        Player::new(id, arena.width / 2, arena.height / 2)
    }

    /// Advances the respawn countdown of a dead player.
    pub fn update_respawn(&mut self, dt: u32)
        ensures
            *final(self) == (if old(self).is_alive {
                *old(self)
            } else {
                Player { respawn_timer: old(self).respawn_timer.saturating_add(dt), ..*old(self) }
            }),
    {
        if !self.is_alive {
            self.respawn_timer = self.respawn_timer.saturating_add(dt);
        }
    }

    pub fn can_respawn(&self) -> (r: bool)
        ensures
            r == (!self.is_alive && self.respawn_timer >= PLAYER_RESPAWN_TIME),
    {
        !self.is_alive && self.respawn_timer >= PLAYER_RESPAWN_TIME
    }

    /// Brings the player back with full health at a random place in the
    /// lower half of the arena, away from the edges.
    pub fn respawn(&mut self, arena: Arena)
        requires
            arena.wf(),
        ensures
            PLAYER_RADIUS <= final(self).x <= arena.width - PLAYER_RADIUS,
            arena.height / 2 <= final(self).y <= arena.height - PLAYER_RADIUS,
            *final(self) == (Player {
                x: final(self).x,
                y: final(self).y,
                health: old(self).max_health,
                is_alive: true,
                respawn_timer: 0,
                ..*old(self)
            }),
    {
        let x = gen_range(PLAYER_RADIUS, arena.width - PLAYER_RADIUS);
        let y = gen_range(arena.height / 2, arena.height - PLAYER_RADIUS);
        self.respawn_at(x, y);
    }

    /// Brings the player back with full health at `(x, y)`.
    pub fn respawn_at(&mut self, x: i32, y: i32)
        ensures
            *final(self) == (Player {
                x,
                y,
                health: old(self).max_health,
                is_alive: true,
                respawn_timer: 0,
                ..*old(self)
            }),
    {
        self.x = x;
        self.y = y;
        self.health = self.max_health;
        self.is_alive = true;
        self.respawn_timer = 0;
    }

    /// Moves by the given offset, then keeps the player inside the arena.
    pub fn move_by(&mut self, velocity_x: i32, velocity_y: i32, arena: Arena)
        requires
            arena.wf(),
        ensures
            final(self).x == clamp_spec(
                old(self).x + velocity_x,
                PLAYER_RADIUS as int,
                arena.width - PLAYER_RADIUS,
            ),
            final(self).y == clamp_spec(
                old(self).y + velocity_y,
                PLAYER_RADIUS as int,
                arena.height - PLAYER_RADIUS,
            ),
            *final(self) == (Player { x: final(self).x, y: final(self).y, ..*old(self) }),
            *final(self) == moved_by(*old(self), velocity_x as int, velocity_y as int, arena),
    {
        self.x = saturate(self.x as i128 + velocity_x as i128);
        self.y = saturate(self.y as i128 + velocity_y as i128);
        self.clamp_to_screen(arena);
    }

    /// Turns the player; says whether the facing changed.
    pub fn set_direction(&mut self, direction_x: i32, direction_y: i32) -> (r: bool)
        ensures
            r == (old(self).direction_x != direction_x || old(self).direction_y != direction_y),
            *final(self) == (Player { direction_x, direction_y, ..*old(self) }),
    {
        let changed = self.direction_x != direction_x || self.direction_y != direction_y;
        self.direction_x = direction_x;
        self.direction_y = direction_y;
        changed
    }

    /// Keeps the whole player disc inside the arena.
    pub fn clamp_to_screen(&mut self, arena: Arena)
        requires
            arena.wf(),
        ensures
            final(self).x == clamp_spec(
                old(self).x as int,
                PLAYER_RADIUS as int,
                arena.width - PLAYER_RADIUS,
            ),
            final(self).y == clamp_spec(
                old(self).y as int,
                PLAYER_RADIUS as int,
                arena.height - PLAYER_RADIUS,
            ),
            *final(self) == (Player { x: final(self).x, y: final(self).y, ..*old(self) }),
    {
        self.x = clamp(self.x, PLAYER_RADIUS, arena.width - PLAYER_RADIUS);
        self.y = clamp(self.y, PLAYER_RADIUS, arena.height - PLAYER_RADIUS);
    }

    /// Takes damage and says whether it killed the player.
    pub fn take_damage(&mut self, damage: u32) -> (r: bool)
        ensures
            (*final(self), r) == damaged(*old(self), damage),
    {
        if !self.is_alive {
            return false;
        }
        self.health = self.health.saturating_sub(damage);
        if self.health == 0 {
            self.is_alive = false;
            self.respawn_timer = 0;
            true
        } else {
            false
        }
    }

    /// Time left before a dead player may respawn; zero while alive.
    pub fn respawn_time_remaining(&self) -> (r: u32)
        ensures
            r == (if self.is_alive {
                0
            } else {
                PLAYER_RESPAWN_TIME.saturating_sub(self.respawn_timer)
            }),
    {
        if self.is_alive {
            0
        } else {
            PLAYER_RESPAWN_TIME.saturating_sub(self.respawn_timer)
        }
    }

    /// Distance to a point, rounded down.
    pub fn distance_to(&self, x: i32, y: i32) -> (r: u128)
        ensures
            r == sqrt_floor(dist_sq(self.x as int, self.y as int, x as int, y as int)),
    {
        isqrt(distance_sq(self.x, self.y, x, y))
    }

    /// Whether a disc of `radius` at the point touches the player.
    pub fn collides_with_point(&self, x: i32, y: i32, radius: i32) -> (r: bool)
        requires
            0 <= radius,
        ensures
            r == within_spec(self.x as int, self.y as int, x as int, y as int, PLAYER_RADIUS + radius),
    {
        within(self.x, self.y, x, y, PLAYER_RADIUS as i64 + radius as i64)
    }
}

} // verus!
