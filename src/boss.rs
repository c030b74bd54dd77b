//! The boss: a timer-driven state machine that moves, dashes, shoots, uses
//! powers, takes damage behind an optional shield, dies and respawns.

use vstd::prelude::*;
use crate::constants::{
    BOSS_ARRIVE_DISTANCE, BOSS_DASH_INTERVAL, BOSS_DASH_SPEED, BOSS_DASH_STOP_DISTANCE,
    BOSS_MAX_HEALTH, BOSS_MIN_DISTANCE_FROM_EDGE, BOSS_MOVE_INTERVAL, BOSS_MOVEMENT_VARIANCE,
    BOSS_POWER_INTERVAL, BOSS_RADIUS, BOSS_RESPAWN_TIME, BOSS_SHIELD_DURATION,
    BOSS_SHOOT_INTERVAL, BOSS_SPAWN_Y, BOSS_SPEED, WARNING_DISPLAY_TIME,
};
use crate::geometry::{
    clamp, clamp_spec, dist_sq, distance_sq, isqrt, sqrt_floor, step_toward, step_toward_spec,
    within, within_spec, Arena, ARENA_MIN_SIDE,
};
use crate::player::Player;
use crate::rng::gen_range;

verus! {

#[derive(Debug, Clone, Copy, PartialEq, Eq, Structural)]
pub struct Boss {
    pub x: i32,
    pub y: i32,
    pub health: u32,
    pub max_health: u32,
    pub alive: bool,
    pub respawn_timer: u32,
    pub shoot_timer: u32,
    pub move_timer: u32,
    pub target_x: i32,
    pub target_y: i32,
    pub power_timer: u32,
    pub shield_timer: u32,
    pub shield_active: bool,
    pub dash_timer: u32,
    pub is_dashing: bool,
    pub dash_target_x: i32,
    pub dash_target_y: i32,
}

/// `players[i]` is the aggro target seen from `(x, y)`: alive, no further
/// than any other alive player, and strictly nearer than every alive player
/// before it.
pub open spec fn is_nearest(players: Seq<Player>, x: int, y: int, i: int) -> bool {
    &&& 0 <= i < players.len()
    &&& players[i].is_alive
    &&& forall|j: int|
        0 <= j < players.len() && #[trigger] players[j].is_alive ==> dist_sq(
            players[i].x as int,
            players[i].y as int,
            x,
            y,
        ) <= dist_sq(players[j].x as int, players[j].y as int, x, y)
    &&& forall|j: int|
        0 <= j < i && #[trigger] players[j].is_alive ==> dist_sq(
            players[i].x as int,
            players[i].y as int,
            x,
            y,
        ) < dist_sq(players[j].x as int, players[j].y as int, x, y)
}

pub open spec fn any_alive(players: Seq<Player>) -> bool {
    exists|j: int| 0 <= j < players.len() && #[trigger] players[j].is_alive
}

/// The nearest alive player, ties going to the earliest.
pub open spec fn nearest_spec(players: Seq<Player>, x: int, y: int) -> Option<Player> {
    if any_alive(players) {
        Some(players[choose|i: int| is_nearest(players, x, y, i)])
    } else {
        None
    }
}

/// The boss at its spawn point `(x, y)` with full health and every timer,
/// target and flag reset.
pub open spec fn spawned(b: Boss, x: i32, y: i32) -> Boss {
    Boss {
        x,
        y,
        health: b.max_health,
        alive: true,
        respawn_timer: 0,
        shoot_timer: 0,
        move_timer: 0,
        target_x: x,
        target_y: y,
        power_timer: 0,
        shield_timer: 0,
        shield_active: false,
        dash_timer: 0,
        is_dashing: false,
        dash_target_x: x,
        dash_target_y: y,
        ..b
    }
}

/// The boss after taking `damage`, and whether the hit killed it. A dead or
/// shielded boss ignores damage.
pub open spec fn boss_damaged(b: Boss, damage: u32) -> (Boss, bool) {
    if !b.alive || b.shield_active {
        (b, false)
    } else if b.health <= damage {
        (Boss { health: 0, alive: false, respawn_timer: 0, ..b }, true)
    } else {
        (Boss { health: (b.health - damage) as u32, ..b }, false)
    }
}

/// Every cooldown advanced by `dt`, the shield expiring once its duration
/// has run.
pub open spec fn timers_advanced(b: Boss, dt: u32) -> Boss {
    let shield_timer = b.shield_timer.saturating_add(dt);
    let b2 = Boss {
        shoot_timer: b.shoot_timer.saturating_add(dt),
        move_timer: b.move_timer.saturating_add(dt),
        power_timer: b.power_timer.saturating_add(dt),
        dash_timer: b.dash_timer.saturating_add(dt),
        ..b
    };
    if !b.shield_active {
        b2
    } else if shield_timer >= BOSS_SHIELD_DURATION {
        Boss { shield_active: false, shield_timer: 0, ..b2 }
    } else {
        Boss { shield_timer, ..b2 }
    }
}

/// One frame of a dash: a step toward the dash target at dash speed, or the
/// end of the dash once within the stop distance.
pub open spec fn dash_stepped(b: Boss, dt: u32) -> Boss {
    if dist_sq(b.dash_target_x as int, b.dash_target_y as int, b.x as int, b.y as int)
        > BOSS_DASH_STOP_DISTANCE * BOSS_DASH_STOP_DISTANCE {
        let p = step_toward_spec(
            b.x as int,
            b.y as int,
            b.dash_target_x as int,
            b.dash_target_y as int,
            BOSS_DASH_SPEED * dt,
        );
        Boss { x: p.0 as i32, y: p.1 as i32, ..b }
    } else {
        Boss { is_dashing: false, dash_timer: 0, ..b }
    }
}

/// One frame of normal movement: a step toward the movement target, unless
/// the boss is already close to it.
pub open spec fn walked(b: Boss, dt: u32) -> Boss {
    if dist_sq(b.target_x as int, b.target_y as int, b.x as int, b.y as int)
        > BOSS_ARRIVE_DISTANCE * BOSS_ARRIVE_DISTANCE {
        let p = step_toward_spec(
            b.x as int,
            b.y as int,
            b.target_x as int,
            b.target_y as int,
            BOSS_SPEED * dt,
        );
        Boss { x: p.0 as i32, y: p.1 as i32, ..b }
    } else {
        b
    }
}

/// `t` is a movement target coordinate near `c`: `c` moved by at most the
/// movement variance, then kept `BOSS_MIN_DISTANCE_FROM_EDGE` inside `0..=side`.
pub open spec fn near_target(t: int, c: int, side: int) -> bool {
    exists|o: int|
        -BOSS_MOVEMENT_VARIANCE <= o <= BOSS_MOVEMENT_VARIANCE && t == #[trigger] clamp_spec(
            c + o,
            BOSS_MIN_DISTANCE_FROM_EDGE as int,
            side - BOSS_MIN_DISTANCE_FROM_EDGE,
        )
}

/// `a` is the boss `b` after one frame of `dt` milliseconds among
/// `players`: a dead boss counts toward its respawn; a living one advances
/// its cooldowns, then either dashes or, when its move cooldown has run,
/// picks a new target near the nearest living player, and walks toward its
/// target.
pub open spec fn boss_stepped(b: Boss, a: Boss, dt: u32, players: Seq<Player>, arena: Arena) -> bool {
    if !b.alive {
        a == (Boss { respawn_timer: b.respawn_timer.saturating_add(dt), ..b })
    } else {
        let t = timers_advanced(b, dt);
        if t.is_dashing {
            a == dash_stepped(t, dt)
        } else {
            let retarget = t.move_timer >= BOSS_MOVE_INTERVAL;
            let near = nearest_spec(players, t.x as int, t.y as int);
            let aimed = Boss {
                target_x: a.target_x,
                target_y: a.target_y,
                move_timer: if retarget {
                    0
                } else {
                    t.move_timer
                },
                ..t
            };
            &&& a == walked(aimed, dt)
            &&& (retarget && near.is_some()) ==> {
                &&& near_target(a.target_x as int, near.unwrap().x as int, arena.width as int)
                &&& near_target(a.target_y as int, near.unwrap().y as int, arena.height as int)
            }
            &&& !(retarget && near.is_some()) ==> a.target_x == t.target_x && a.target_y
                == t.target_y
        }
    }
}

/// Whenever some player is alive there is a nearest one, so
/// `nearest_spec` names it; with nobody alive there is none.
pub proof fn lemma_nearest_exists(players: Seq<Player>, x: int, y: int)
    ensures
        any_alive(players) <==> exists|i: int| is_nearest(players, x, y, i),
        any_alive(players) ==> is_nearest(
            players,
            x,
            y,
            choose|i: int| is_nearest(players, x, y, i),
        ),
    decreases players.len(),
{
    if exists|i: int| is_nearest(players, x, y, i) {
        let i = choose|i: int| is_nearest(players, x, y, i);
        assert(players[i].is_alive);
    }
    if any_alive(players) {
        let n = players.len() - 1;
        let t = players.drop_last();
        let last = players[n];
        let dl = dist_sq(last.x as int, last.y as int, x, y);
        if any_alive(t) {
            let j = choose|j: int| 0 <= j < t.len() && #[trigger] t[j].is_alive;
            assert(players[j].is_alive);
            lemma_nearest_exists(t, x, y);
            let i = choose|i: int| is_nearest(t, x, y, i);
            let di = dist_sq(t[i].x as int, t[i].y as int, x, y);
            if last.is_alive && dl < di {
                assert forall|k: int| 0 <= k < players.len() && #[trigger] players[k].is_alive implies dl
                    <= dist_sq(players[k].x as int, players[k].y as int, x, y) by {
                    if k < n {
                        assert(t[k] == players[k]);
                    }
                }
                assert forall|k: int| 0 <= k < n && #[trigger] players[k].is_alive implies dl
                    < dist_sq(players[k].x as int, players[k].y as int, x, y) by {
                    assert(t[k] == players[k]);
                }
                assert(is_nearest(players, x, y, n));
            } else {
                assert forall|k: int| 0 <= k < players.len() && #[trigger] players[k].is_alive implies di
                    <= dist_sq(players[k].x as int, players[k].y as int, x, y) by {
                    if k < n {
                        assert(t[k] == players[k]);
                    }
                }
                assert forall|k: int| 0 <= k < i && #[trigger] players[k].is_alive implies di
                    < dist_sq(players[k].x as int, players[k].y as int, x, y) by {
                    assert(t[k] == players[k]);
                }
                assert(is_nearest(players, x, y, i));
            }
        } else {
            let j = choose|j: int| 0 <= j < players.len() && #[trigger] players[j].is_alive;
            if j < n {
                assert(t[j] == players[j]);
            }
            assert forall|k: int| 0 <= k < players.len() && #[trigger] players[k].is_alive implies k == n by {
                if k < n {
                    assert(t[k] == players[k]);
                }
            }
            assert(is_nearest(players, x, y, n));
        }
    }
}

proof fn lemma_nearest_unique(players: Seq<Player>, x: int, y: int, i: int, k: int)
    requires
        is_nearest(players, x, y, i),
        is_nearest(players, x, y, k),
    ensures
        i == k,
{
    if i < k {
        assert(players[i].is_alive);
    } else if k < i {
        assert(players[k].is_alive);
    }
}

/// The nearest alive player to `(x, y)`; among equally near players the
/// earliest wins.
pub fn nearest_alive(players: &Vec<Player>, x: i32, y: i32) -> (r: Option<Player>)
    ensures
        r == nearest_spec(players@, x as int, y as int),
        r.is_none() <==> !any_alive(players@),
        r.is_some() ==> exists|i: int| is_nearest(players@, x as int, y as int, i) && r == Some(
            players@[i],
        ),
{
    let mut best: Option<usize> = None;
    let mut best_d: u128 = 0;
    let mut i: usize = 0;
    while i < players.len()
        invariant
            i <= players@.len(),
            best.is_none() ==> forall|j: int| 0 <= j < i ==> !(#[trigger] players@[j].is_alive),
            best.is_some() ==> {
                let b = best.unwrap() as int;
                &&& b < i
                &&& players@[b].is_alive
                &&& best_d as int == dist_sq(players@[b].x as int, players@[b].y as int, x as int, y as int)
                &&& forall|j: int|
                    0 <= j < i && #[trigger] players@[j].is_alive ==> best_d as int <= dist_sq(
                        players@[j].x as int,
                        players@[j].y as int,
                        x as int,
                        y as int,
                    )
                &&& forall|j: int|
                    0 <= j < b && #[trigger] players@[j].is_alive ==> (best_d as int)
                        < dist_sq(players@[j].x as int, players@[j].y as int, x as int, y as int)
            },
        decreases players.len() - i,
    {
        let p = players[i];
        if p.is_alive {
            let d = distance_sq(p.x, p.y, x, y);
            match best {
                None => {
                    best = Some(i);
                    best_d = d;
                },
                Some(_) => {
                    if d < best_d {
                        best = Some(i);
                        best_d = d;
                    }
                },
            }
        }
        i = i + 1;
    }
    match best {
        None => {
            proof {
                if any_alive(players@) {
                    let j = choose|j: int| 0 <= j < players@.len() && #[trigger] players@[j].is_alive;
                    assert(!players@[j].is_alive);
                }
            }
            None
        },
        Some(b) => {
            proof {
                assert(is_nearest(players@, x as int, y as int, b as int));
                assert(any_alive(players@));
                let c = choose|c: int| is_nearest(players@, x as int, y as int, c);
                lemma_nearest_unique(players@, x as int, y as int, b as int, c);
            }
            Some(players[b])
        },
    }
}

impl Boss {
    /// A boss at the top middle of the arena with full health.
    pub fn new(arena: Arena) -> (r: Boss)
        requires
            arena.wf(),
        ensures
            r.max_health == BOSS_MAX_HEALTH,
            r == spawned(r, (arena.width / 2) as i32, BOSS_SPAWN_Y),
    {
        let x = arena.width / 2;
        let y = BOSS_SPAWN_Y;
        Boss {
            x,
            y,
            health: BOSS_MAX_HEALTH,
            max_health: BOSS_MAX_HEALTH,
            alive: true,
            respawn_timer: 0,
            shoot_timer: 0,
            move_timer: 0,
            target_x: x,
            target_y: y,
            power_timer: 0,
            shield_timer: 0,
            shield_active: false,
            dash_timer: 0,
            is_dashing: false,
            dash_target_x: x,
            dash_target_y: y,
        }
    }

    /// Brings the boss back at the spawn point with full health.
    pub fn respawn(&mut self, arena: Arena)
        requires
            arena.wf(),
        ensures
            *final(self) == spawned(*old(self), (arena.width / 2) as i32, BOSS_SPAWN_Y),
    {
        self.respawn_at(arena.width / 2, BOSS_SPAWN_Y);
    }

    /// Brings the boss back at `(x, y)` with full health.
    pub fn respawn_at(&mut self, x: i32, y: i32)
        ensures
            *final(self) == spawned(*old(self), x, y),
    {
        self.x = x;
        self.y = y;
        self.health = self.max_health;
        self.alive = true;
        self.reset_all_timers();
    }

    fn reset_all_timers(&mut self)
        ensures
            *final(self) == (Boss {
                health: old(self).health,
                alive: old(self).alive,
                ..spawned(*old(self), old(self).x, old(self).y)
            }),
    {
        self.respawn_timer = 0;
        self.shoot_timer = 0;
        self.move_timer = 0;
        self.target_x = self.x;
        self.target_y = self.y;
        self.power_timer = 0;
        self.shield_timer = 0;
        self.shield_active = false;
        self.dash_timer = 0;
        self.is_dashing = false;
        self.dash_target_x = self.x;
        self.dash_target_y = self.y;
    }

    /// Advances the boss by `dt` milliseconds: a dead boss counts toward its
    /// respawn; a living one advances its cooldowns, then either dashes or
    /// picks a new target near the nearest living player when its move
    /// cooldown has run and walks toward its target.
    pub fn update(&mut self, dt: u32, players: &Vec<Player>, arena: Arena)
        requires
            arena.wf(),
        ensures
            boss_stepped(*old(self), *final(self), dt, players@, arena),
    {
        if !self.alive {
            self.respawn_timer = self.respawn_timer.saturating_add(dt);
            return;
        }
        self.update_timers(dt);
        if self.is_dashing {
            self.update_dash(dt);
            return;
        }
        self.update_target_selection(players, arena);
        self.move_towards_target(dt);
    }

    fn update_timers(&mut self, dt: u32)
        ensures
            *final(self) == timers_advanced(*old(self), dt),
    {
        self.shoot_timer = self.shoot_timer.saturating_add(dt);
        self.move_timer = self.move_timer.saturating_add(dt);
        self.power_timer = self.power_timer.saturating_add(dt);
        self.dash_timer = self.dash_timer.saturating_add(dt);
        if self.shield_active {
            self.shield_timer = self.shield_timer.saturating_add(dt);
            if self.shield_timer >= BOSS_SHIELD_DURATION {
                self.shield_active = false;
                self.shield_timer = 0;
            }
        }
    }

    fn update_dash(&mut self, dt: u32)
        ensures
            *final(self) == dash_stepped(*old(self), dt),
    {
        let n = distance_sq(self.dash_target_x, self.dash_target_y, self.x, self.y);
        let stop: u128 = (BOSS_DASH_STOP_DISTANCE as u128) * (BOSS_DASH_STOP_DISTANCE as u128);
        if n > stop {
            let step: u64 = BOSS_DASH_SPEED as u64 * dt as u64;
            let p = step_toward(self.x, self.y, self.dash_target_x, self.dash_target_y, step);
            self.x = p.0;
            self.y = p.1;
        } else {
            self.is_dashing = false;
            self.dash_timer = 0;
        }
    }

    fn update_target_selection(&mut self, players: &Vec<Player>, arena: Arena)
        requires
            arena.wf(),
        ensures
            ({
                let retarget = old(self).move_timer >= BOSS_MOVE_INTERVAL;
                let near = nearest_spec(players@, old(self).x as int, old(self).y as int);
                &&& *final(self) == (Boss {
                    target_x: final(self).target_x,
                    target_y: final(self).target_y,
                    move_timer: if retarget {
                        0
                    } else {
                        old(self).move_timer
                    },
                    ..*old(self)
                })
                &&& (retarget && near.is_some()) ==> {
                    &&& near_target(final(self).target_x as int, near.unwrap().x as int, arena.width as int)
                    &&& near_target(final(self).target_y as int, near.unwrap().y as int, arena.height as int)
                }
                &&& !(retarget && near.is_some()) ==> final(self).target_x == old(self).target_x
                    && final(self).target_y == old(self).target_y
            }),
    {
        if self.move_timer >= BOSS_MOVE_INTERVAL {
            if let Some(nearest_player) = self.find_nearest_player_to_boss(players) {
                self.set_random_target_near_player(&nearest_player, arena);
            }
            self.move_timer = 0;
        }
    }

    /// The nearest living player to the boss.
    pub fn find_nearest_player_to_boss(&self, players: &Vec<Player>) -> (r: Option<Player>)
        ensures
            r == nearest_spec(players@, self.x as int, self.y as int),
            r.is_none() <==> !any_alive(players@),
            r.is_some() ==> exists|i: int| is_nearest(players@, self.x as int, self.y as int, i) && r == Some(
                players@[i],
            ),
    {
        nearest_alive(players, self.x, self.y)
    }

    fn set_random_target_near_player(&mut self, player: &Player, arena: Arena)
        requires
            arena.wf(),
        ensures
            near_target(final(self).target_x as int, player.x as int, arena.width as int),
            near_target(final(self).target_y as int, player.y as int, arena.height as int),
            *final(self) == (Boss {
                target_x: final(self).target_x,
                target_y: final(self).target_y,
                ..*old(self)
            }),
    {
        let ox = gen_range(-BOSS_MOVEMENT_VARIANCE, BOSS_MOVEMENT_VARIANCE);
        let oy = gen_range(-BOSS_MOVEMENT_VARIANCE, BOSS_MOVEMENT_VARIANCE);
        self.set_target_near(player.x, player.y, ox, oy, arena);
        assert(near_target(self.target_x as int, player.x as int, arena.width as int)) by {
            assert(self.target_x == clamp_spec(
                player.x + ox,
                BOSS_MIN_DISTANCE_FROM_EDGE as int,
                arena.width - BOSS_MIN_DISTANCE_FROM_EDGE,
            ));
        }
        assert(near_target(self.target_y as int, player.y as int, arena.height as int)) by {
            assert(self.target_y == clamp_spec(
                player.y + oy,
                BOSS_MIN_DISTANCE_FROM_EDGE as int,
                arena.height - BOSS_MIN_DISTANCE_FROM_EDGE,
            ));
        }
    }

    /// Sets the movement target to the point `(px, py)` moved by the offsets,
    /// kept the edge margin inside the arena.
    pub fn set_target_near(&mut self, px: i32, py: i32, offset_x: i32, offset_y: i32, arena: Arena)
        requires
            arena.wf(),
        ensures
            final(self).target_x == clamp_spec(
                px + offset_x,
                BOSS_MIN_DISTANCE_FROM_EDGE as int,
                arena.width - BOSS_MIN_DISTANCE_FROM_EDGE,
            ),
            final(self).target_y == clamp_spec(
                py + offset_y,
                BOSS_MIN_DISTANCE_FROM_EDGE as int,
                arena.height - BOSS_MIN_DISTANCE_FROM_EDGE,
            ),
            *final(self) == (Boss {
                target_x: final(self).target_x,
                target_y: final(self).target_y,
                ..*old(self)
            }),
    {
        self.target_x = near_edge_clamp(px, offset_x, arena.width);
        self.target_y = near_edge_clamp(py, offset_y, arena.height);
    }

    fn move_towards_target(&mut self, dt: u32)
        ensures
            *final(self) == walked(*old(self), dt),
    {
        let n = distance_sq(self.target_x, self.target_y, self.x, self.y);
        let arrive: u128 = (BOSS_ARRIVE_DISTANCE as u128) * (BOSS_ARRIVE_DISTANCE as u128);
        if n > arrive {
            let step: u64 = BOSS_SPEED as u64 * dt as u64;
            let p = step_toward(self.x, self.y, self.target_x, self.target_y, step);
            self.x = p.0;
            self.y = p.1;
        }
    }

    pub open spec fn should_shoot_spec(&self) -> bool {
        self.alive && self.shoot_timer >= BOSS_SHOOT_INTERVAL
    }

    pub open spec fn should_use_power_spec(&self) -> bool {
        self.alive && self.power_timer >= BOSS_POWER_INTERVAL && !self.is_dashing
    }

    pub open spec fn should_dash_spec(&self) -> bool {
        self.alive && self.dash_timer >= BOSS_DASH_INTERVAL && !self.is_dashing
    }

    pub open spec fn should_respawn_spec(&self) -> bool {
        !self.alive && self.respawn_timer >= BOSS_RESPAWN_TIME
    }

    pub fn should_shoot(&self) -> (r: bool)
        ensures
            r == self.should_shoot_spec(),
    {
        self.alive && self.shoot_timer >= BOSS_SHOOT_INTERVAL
    }

    pub fn reset_shoot_timer(&mut self)
        ensures
            *final(self) == (Boss { shoot_timer: 0, ..*old(self) }),
    {
        self.shoot_timer = 0;
    }

    pub fn should_use_power(&self) -> (r: bool)
        ensures
            r == self.should_use_power_spec(),
    {
        self.alive && self.power_timer >= BOSS_POWER_INTERVAL && !self.is_dashing
    }

    pub fn should_dash(&self) -> (r: bool)
        ensures
            r == self.should_dash_spec(),
    {
        self.alive && self.dash_timer >= BOSS_DASH_INTERVAL && !self.is_dashing
    }

    pub fn should_respawn(&self) -> (r: bool)
        ensures
            r == self.should_respawn_spec(),
    {
        !self.alive && self.respawn_timer >= BOSS_RESPAWN_TIME
    }

    /// Takes damage and says whether it killed the boss; a dead or shielded
    /// boss is unaffected.
    pub fn take_damage(&mut self, damage: u32) -> (r: bool)
        ensures
            (*final(self), r) == boss_damaged(*old(self), damage),
    {
        if !self.alive || self.shield_active {
            return false;
        }
        if self.health <= damage {
            self.health = 0;
            self.alive = false;
            self.respawn_timer = 0;
            true
        } else {
            self.health = self.health - damage;
            false
        }
    }

    pub fn activate_shield(&mut self)
        ensures
            *final(self) == (Boss { shield_active: true, shield_timer: 0, ..*old(self) }),
    {
        self.shield_active = true;
        self.shield_timer = 0;
    }

    pub fn start_dash(&mut self, target_x: i32, target_y: i32)
        ensures
            *final(self) == (Boss {
                is_dashing: true,
                dash_target_x: target_x,
                dash_target_y: target_y,
                dash_timer: 0,
                ..*old(self)
            }),
    {
        self.is_dashing = true;
        self.dash_target_x = target_x;
        self.dash_target_y = target_y;
        self.dash_timer = 0;
    }

    pub fn reset_power_timer(&mut self)
        ensures
            *final(self) == (Boss { power_timer: 0, ..*old(self) }),
    {
        self.power_timer = 0;
    }

    /// Distance to a point, rounded down.
    pub fn distance_to(&self, x: i32, y: i32) -> (r: u128)
        ensures
            r == sqrt_floor(dist_sq(self.x as int, self.y as int, x as int, y as int)),
    {
        isqrt(distance_sq(self.x, self.y, x, y))
    }

    /// Whether a disc of `radius` at the point touches the boss.
    pub fn collides_with_point(&self, x: i32, y: i32, radius: i32) -> (r: bool)
        requires
            0 <= radius,
        ensures
            r == within_spec(self.x as int, self.y as int, x as int, y as int, BOSS_RADIUS + radius),
    {
        within(self.x, self.y, x, y, BOSS_RADIUS as i64 + radius as i64)
    }

    /// Time left before the next power, while within the warning window;
    /// zero otherwise.
    pub fn power_warning_time(&self) -> (r: u32)
        ensures
            r == warning(BOSS_POWER_INTERVAL, self.power_timer),
    {
        warning_time(BOSS_POWER_INTERVAL, self.power_timer)
    }

    /// Time left before the next dash, while within the warning window; zero
    /// otherwise.
    pub fn dash_warning_time(&self) -> (r: u32)
        ensures
            r == warning(BOSS_DASH_INTERVAL, self.dash_timer),
    {
        warning_time(BOSS_DASH_INTERVAL, self.dash_timer)
    }

    /// Time left before a dead boss respawns; zero while alive.
    pub fn respawn_time_remaining(&self) -> (r: u32)
        ensures
            r == (if self.alive {
                0
            } else {
                BOSS_RESPAWN_TIME.saturating_sub(self.respawn_timer)
            }),
    {
        if self.alive {
            0
        } else {
            BOSS_RESPAWN_TIME.saturating_sub(self.respawn_timer)
        }
    }
}

/// Time left before a cooldown of `interval` runs out, shown only in the
/// last `WARNING_DISPLAY_TIME`.
pub open spec fn warning(interval: u32, timer: u32) -> u32 {
    if timer < interval && interval - timer <= WARNING_DISPLAY_TIME {
        (interval - timer) as u32
    } else {
        0
    }
}

fn warning_time(interval: u32, timer: u32) -> (r: u32)
    ensures
        r == warning(interval, timer),
{
    if timer < interval && interval - timer <= WARNING_DISPLAY_TIME {
        interval - timer
    } else {
        0
    }
}

/// `c + offset`, kept the edge margin inside `0..=side`.
pub fn near_edge_clamp(c: i32, offset: i32, side: i32) -> (r: i32)
    requires
        ARENA_MIN_SIDE <= side,
    ensures
        r == clamp_spec(
            c + offset,
            BOSS_MIN_DISTANCE_FROM_EDGE as int,
            side - BOSS_MIN_DISTANCE_FROM_EDGE,
        ),
{
    let v = crate::geometry::saturate(c as i128 + offset as i128);
    clamp(v, BOSS_MIN_DISTANCE_FROM_EDGE, side - BOSS_MIN_DISTANCE_FROM_EDGE)
}

/// Under a shield the boss's health does not change, whatever the damage.
/// Unshielded, a living boss ends at `max(0, health - damage)`, and reaching
/// zero leaves it dead with its respawn countdown at zero. A dead boss is
/// left as it is.
pub proof fn lemma_boss_damage_shield(b: Boss, damage: u32)
    ensures
        b.shield_active ==> boss_damaged(b, damage).0.health == b.health,
        !b.shield_active && b.alive ==> {
            let a = boss_damaged(b, damage).0;
            &&& a.health == (if b.health >= damage {
                b.health - damage
            } else {
                0
            })
            &&& a.health == 0 ==> !a.alive && a.respawn_timer == 0
        },
        !b.alive ==> boss_damaged(b, damage).0 == b,
{
}

} // verus!
