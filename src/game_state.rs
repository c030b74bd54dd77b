//! The client's simulation: entities, the boss's abilities, bullet and
//! effect ageing, collisions and the application of relayed messages. What
//! the simulation wants sent and played accumulates in `outbox` and `cues`.

use vstd::prelude::*;
use crate::audio::SoundType;
use crate::boss::{any_alive, is_nearest, boss_stepped, nearest_alive, nearest_spec, spawned, Boss};
use crate::bullet::{boss_bullet, bullet_gone, bullet_moved, Bullet};
use crate::collision::{resolve_all, survivors, CollisionSystem};
use crate::constants::{
    AREA_ATTACK_DAMAGE, AREA_ATTACK_DURATION, AREA_ATTACK_RADIUS, BOSS_SPAWN_Y, DIR_ONE,
    MAX_MESSAGES_PER_FRAME, SPREAD_COS, SPREAD_SIN,
};
use crate::effects::{AreaAttack, DamageIndicator};
use crate::geometry::{
    aim, aim_spec, dist_sq, lemma_sqrt_floor_unique, lemma_trunc_div_neg, rotate, rotate_spec,
    within_spec, Arena,
};
use crate::input::{input_effect, InputState, InputSystem};
use crate::message::Payload;
use crate::network::{
    areas_after, boss_after, bullets_after, cues_after, indicator, indicators_after, local_after,
    remotes_after, volley, NetworkSystem,
};
use crate::player::{damaged, fresh_player, Player};
use crate::rng::gen_range;

verus! {

/// The multi-shot fan around the aim direction `a`: two angular steps on
/// each side of it, in order from the most clockwise.
pub open spec fn fan_spec(a: (int, int)) -> Seq<(int, int)> {
    let r1 = rotate_spec(a.0, a.1, SPREAD_COS as int, SPREAD_SIN as int);
    let r2 = rotate_spec(r1.0, r1.1, SPREAD_COS as int, SPREAD_SIN as int);
    let l1 = rotate_spec(a.0, a.1, SPREAD_COS as int, -SPREAD_SIN);
    let l2 = rotate_spec(l1.0, l1.1, SPREAD_COS as int, -SPREAD_SIN);
    seq![l2, l1, a, r1, r2]
}

pub open spec fn as_ints(v: Seq<(i32, i32)>) -> Seq<(int, int)> {
    v.map_values(|d: (i32, i32)| (d.0 as int, d.1 as int))
}

/// The five directions of a multi-shot aimed along `(ax, ay)`.
pub fn spread_directions(ax: i32, ay: i32) -> (r: Vec<(i32, i32)>)
    requires
        -DIR_ONE <= ax <= DIR_ONE,
        -DIR_ONE <= ay <= DIR_ONE,
    ensures
        as_ints(r@) == fan_spec((ax as int, ay as int)),
{
    let r1 = rotate(ax, ay, SPREAD_COS, SPREAD_SIN);
    let r2 = rotate(r1.0, r1.1, SPREAD_COS, SPREAD_SIN);
    let l1 = rotate(ax, ay, SPREAD_COS, -SPREAD_SIN);
    let l2 = rotate(l1.0, l1.1, SPREAD_COS, -SPREAD_SIN);
    let mut r: Vec<(i32, i32)> = Vec::new();
    r.push(l2);
    r.push(l1);
    r.push((ax, ay));
    r.push(r1);
    r.push(r2);
    assert(as_ints(r@) =~= fan_spec((ax as int, ay as int)));
    r
}

/// A multi-shot at a target due east of the boss fans out symmetrically:
/// five directions, the middle one the straight aim `(DIR_ONE, 0)`, each
/// pair mirrored across the east axis, and each neighbour one fixed rotation
/// step from the next.
pub proof fn lemma_multi_shot_fan(bx: int, by: int, tx: int)
    requires
        bx < tx,
        tx - bx <= 0x1_0000_0000,
    ensures
        aim_spec(bx, by, tx, by) == (DIR_ONE as int, 0int),
        fan_spec(aim_spec(bx, by, tx, by)).len() == 5,
        fan_spec(aim_spec(bx, by, tx, by))[2] == aim_spec(bx, by, tx, by),
        forall|k: int|
            1 <= k <= 2 ==> #[trigger] fan_spec(aim_spec(bx, by, tx, by))[2 + k] == (
                fan_spec(aim_spec(bx, by, tx, by))[2 - k].0,
                -fan_spec(aim_spec(bx, by, tx, by))[2 - k].1,
            ),
        forall|k: int|
            2 <= k < 4 ==> #[trigger] fan_spec(aim_spec(bx, by, tx, by))[k + 1] == rotate_spec(
                fan_spec(aim_spec(bx, by, tx, by))[k].0,
                fan_spec(aim_spec(bx, by, tx, by))[k].1,
                SPREAD_COS as int,
                SPREAD_SIN as int,
            ),
        forall|k: int|
            0 < k <= 2 ==> #[trigger] fan_spec(aim_spec(bx, by, tx, by))[k - 1] == rotate_spec(
                fan_spec(aim_spec(bx, by, tx, by))[k].0,
                fan_spec(aim_spec(bx, by, tx, by))[k].1,
                SPREAD_COS as int,
                -SPREAD_SIN,
            ),
{
    let d = tx - bx;
    assert(dist_sq(tx, by, bx, by) == d * d);
    assert(d * d < (d + 1) * (d + 1)) by (nonlinear_arith)
        requires
            d > 0,
    ;
    lemma_sqrt_floor_unique(d * d, d);
    vstd::arithmetic::div_mod::lemma_div_by_multiple(1000, d);
    assert(d * 1000 == 1000 * d) by (nonlinear_arith);
    assert(0int / d == 0) by (nonlinear_arith)
        requires
            d > 0,
    ;
    let a = aim_spec(bx, by, tx, by);
    assert(a == (1000int, 0int));
    let c = SPREAD_COS as int;
    let s = SPREAD_SIN as int;
    let r1 = rotate_spec(1000, 0, c, s);
    let l1 = rotate_spec(1000, 0, c, -s);
    assert(1000 * (-s) == -(1000 * s));
    lemma_trunc_div_neg(1000 * s, 1000000);
    assert(l1 == (r1.0, -r1.1));
    let (x, y) = r1;
    let r2 = rotate_spec(x, y, c, s);
    let l2 = rotate_spec(x, -y, c, -s);
    assert(x * c - (-y) * (-s) == x * c - y * s) by (nonlinear_arith);
    assert(x * (-s) + (-y) * c == -(x * s + y * c)) by (nonlinear_arith);
    lemma_trunc_div_neg(x * s + y * c, 1000000);
    assert(l2 == (r2.0, -r2.1));
}

/// The living players that the boss can target: the local player first,
/// then the remote players in roster order.
pub open spec fn targets_spec(local: Player, remotes: Seq<Player>) -> Seq<Player> {
    let head = if local.is_alive {
        seq![local]
    } else {
        Seq::<Player>::empty()
    };
    head + remotes.filter(|p: Player| p.is_alive)
}

/// Bullets after a frame of flight, without those that expired or left.
pub open spec fn aged_bullets(bs: Seq<Bullet>, dt: u32, arena: Arena) -> Seq<Bullet>
    decreases bs.len(),
{
    if bs.len() == 0 {
        Seq::empty()
    } else {
        let rest = aged_bullets(bs.drop_last(), dt, arena);
        let b = bullet_moved(bs.last(), dt);
        if bullet_gone(b, arena) {
            rest
        } else {
            rest.push(b)
        }
    }
}

/// Area attacks after a frame, without those that have run their course.
pub open spec fn aged_areas(s: Seq<AreaAttack>, dt: u32) -> Seq<AreaAttack>
    decreases s.len(),
{
    if s.len() == 0 {
        Seq::empty()
    } else {
        let rest = aged_areas(s.drop_last(), dt);
        let a = AreaAttack { timer: s.last().timer.saturating_add(dt), ..s.last() };
        if a.timer >= a.max_time {
            rest
        } else {
            rest.push(a)
        }
    }
}

/// Damage indicators after a frame, without those that have faded.
pub open spec fn aged_indicators(s: Seq<DamageIndicator>, dt: u32) -> Seq<DamageIndicator>
    decreases s.len(),
{
    if s.len() == 0 {
        Seq::empty()
    } else {
        let rest = aged_indicators(s.drop_last(), dt);
        let d = DamageIndicator {
            timer: s.last().timer.saturating_add(dt),
            y: crate::geometry::sat_i32(s.last().y - crate::constants::DAMAGE_INDICATOR_FLOAT_SPEED * dt) as i32,
            ..s.last()
        };
        if d.timer >= d.max_time {
            rest
        } else {
            rest.push(d)
        }
    }
}

/// What the reconciliation layer acts on: the local player, the remote
/// players, the boss, bullets, area attacks, damage indicators and cues.
pub type World = (Player, Seq<Player>, Boss, Seq<Bullet>, Seq<AreaAttack>, Seq<DamageIndicator>, Seq<SoundType>);

pub open spec fn world_step(m: Payload, w: World, arena: Arena) -> World {
    (
        local_after(m, w.0),
        remotes_after(m, w.0, w.1, arena),
        boss_after(m, w.2),
        bullets_after(m, w.0, w.3),
        areas_after(m, w.4),
        indicators_after(m, w.0, w.1, w.5),
        cues_after(m, w.0, w.1, w.6),
    )
}

/// The messages applied one after another.
pub open spec fn world_after(w: World, msgs: Seq<Payload>, arena: Arena) -> World
    decreases msgs.len(),
{
    if msgs.len() == 0 {
        w
    } else {
        world_step(msgs.last(), world_after(w, msgs.drop_last(), arena), arena)
    }
}

/// Every part of `n` is as in `o`, except the boss, which is `b`.
pub open spec fn same_but_boss(o: GameState, n: GameState, b: Boss) -> bool {
    &&& n.boss == b
    &&& n.local_player == o.local_player
    &&& n.remote_players@ == o.remote_players@
    &&& n.bullets@ == o.bullets@
    &&& n.area_attacks@ == o.area_attacks@
    &&& n.damage_indicators@ == o.damage_indicators@
    &&& n.outbox@ == o.outbox@
    &&& n.cues@ == o.cues@
}

/// `n` is `o` after the multi-shot power aimed at the nearest of `players`,
/// the boss ending as `b`.
pub open spec fn multi_shot_effect(o: GameState, n: GameState, players: Seq<Player>, b: Boss) -> bool {
    let near = nearest_spec(players, o.boss.x as int, o.boss.y as int);
    let bx = o.boss.x;
    let by = o.boss.y;
    if near.is_none() {
        same_but_boss(o, n, b)
    } else {
        let t = near.unwrap();
        &&& n.boss == b
        &&& n.local_player == o.local_player
        &&& n.remote_players@ == o.remote_players@
        &&& n.area_attacks@ == o.area_attacks@
        &&& n.damage_indicators@ == o.damage_indicators@
        &&& n.cues@ == o.cues@.push(SoundType::PowerUp)
        &&& n.outbox@.len() == o.outbox@.len() + 1
        &&& n.outbox@.drop_last() == o.outbox@
        &&& match n.outbox@.last() {
            Payload::BossMultiShoot(x, y, v) => {
                &&& x == bx && y == by
                &&& (if bx == t.x && by == t.y {
                    v@.len() == 0
                } else {
                    as_ints(v@) == fan_spec(aim_spec(bx as int, by as int, t.x as int, t.y as int))
                })
                &&& n.bullets@ == o.bullets@ + volley(bx, by, v@)
            },
            _ => false,
        }
    }
}

/// `n` is `o` after an area attack dropped on the nearest of `players`,
/// the boss ending as `b`.
pub open spec fn area_attack_effect(o: GameState, n: GameState, players: Seq<Player>, b: Boss) -> bool {
    let near = nearest_spec(players, o.boss.x as int, o.boss.y as int);
    if near.is_none() {
        same_but_boss(o, n, b)
    } else {
        let t = near.unwrap();
        let l = o.local_player;
        let hit = l.is_alive && within_spec(t.x as int, t.y as int, l.x as int, l.y as int, AREA_ATTACK_RADIUS as int);
        let l2 = if hit { damaged(l, AREA_ATTACK_DAMAGE).0 } else { l };
        &&& n.local_player == l2
        &&& n.damage_indicators@ == (if hit {
            o.damage_indicators@.push(indicator(l.x, l.y, AREA_ATTACK_DAMAGE))
        } else {
            o.damage_indicators@
        })
        &&& n.area_attacks@ == o.area_attacks@.push(
            AreaAttack { x: t.x, y: t.y, timer: 0, max_time: AREA_ATTACK_DURATION },
        )
        &&& n.outbox@ == (if hit {
            o.outbox@.push(Payload::PlayerHit(l.id, l2.health, AREA_ATTACK_DAMAGE))
        } else {
            o.outbox@
        }).push(Payload::BossAreaAttack(t.x, t.y))
        &&& n.cues@ == o.cues@.push(SoundType::PowerUp)
        &&& n.boss == b
        &&& n.remote_players@ == o.remote_players@
        &&& n.bullets@ == o.bullets@
    }
}

/// `n` is `o` with the shield announced, the boss ending as `b`.
pub open spec fn shield_effect(o: GameState, n: GameState, b: Boss) -> bool {
    &&& n.boss == b
    &&& n.cues@ == o.cues@.push(SoundType::PowerUp)
    &&& n.outbox@ == o.outbox@.push(Payload::BossShield(true))
    &&& n.local_player == o.local_player
    &&& n.remote_players@ == o.remote_players@
    &&& n.bullets@ == o.bullets@
    &&& n.area_attacks@ == o.area_attacks@
    &&& n.damage_indicators@ == o.damage_indicators@
}

/// `n` is `o` after power number `power` (0 multi-shot, 1 area attack, 2
/// shield, anything else none), with the power cooldown restarted.
pub open spec fn power_effect(o: GameState, n: GameState, players: Seq<Player>, power: i32) -> bool {
    let b = Boss { power_timer: 0, ..o.boss };
    if power == 0 {
        multi_shot_effect(o, n, players, b)
    } else if power == 1 {
        area_attack_effect(o, n, players, b)
    } else if power == 2 {
        shield_effect(o, n, Boss { shield_active: true, shield_timer: 0, ..b })
    } else {
        same_but_boss(o, n, b)
    }
}

/// `n` is `o` after the dash check: a due dash at the nearest of `players`
/// starts and is announced; otherwise nothing changes.
pub open spec fn dash_effect(o: GameState, n: GameState, players: Seq<Player>) -> bool {
    let near = nearest_spec(players, o.boss.x as int, o.boss.y as int);
    if o.boss.should_dash_spec() && near.is_some() {
        let t = near.unwrap();
        let b = Boss {
            is_dashing: true,
            dash_target_x: t.x,
            dash_target_y: t.y,
            dash_timer: 0,
            ..o.boss
        };
        &&& n.boss == b
        &&& n.cues@ == o.cues@.push(SoundType::Dash)
        &&& n.outbox@ == o.outbox@.push(Payload::BossDash(t.x, t.y))
        &&& n.local_player == o.local_player
        &&& n.remote_players@ == o.remote_players@
        &&& n.bullets@ == o.bullets@
        &&& n.area_attacks@ == o.area_attacks@
        &&& n.damage_indicators@ == o.damage_indicators@
    } else {
        same_but_boss(o, n, o.boss)
    }
}

/// `n` is `o` after the shooting check: a due shot with a clear aim at the
/// nearest of `players` is fired, announced, and restarts the cooldown;
/// otherwise nothing changes.
pub open spec fn shoot_effect(o: GameState, n: GameState, players: Seq<Player>) -> bool {
    let b = o.boss;
    let near = nearest_spec(players, b.x as int, b.y as int);
    if b.should_shoot_spec() && !b.is_dashing && near.is_some() && !(near.unwrap().x == b.x
        && near.unwrap().y == b.y) {
        let d = aim_spec(b.x as int, b.y as int, near.unwrap().x as int, near.unwrap().y as int);
        &&& n.boss == (Boss { shoot_timer: 0, ..b })
        &&& n.bullets@ == o.bullets@.push(boss_bullet(b.x, b.y, d.0 as i32, d.1 as i32))
        &&& n.cues@ == o.cues@.push(SoundType::BossShoot)
        &&& n.outbox@ == o.outbox@.push(Payload::BossShoot(b.x, b.y, d.0 as i32, d.1 as i32))
        &&& n.local_player == o.local_player
        &&& n.remote_players@ == o.remote_players@
        &&& n.area_attacks@ == o.area_attacks@
        &&& n.damage_indicators@ == o.damage_indicators@
    } else {
        same_but_boss(o, n, b)
    }
}

/// `n` is `o` after the respawn check: a boss whose countdown has run comes
/// back at the spawn point, announced; otherwise nothing changes.
pub open spec fn respawn_effect(o: GameState, n: GameState, arena: Arena) -> bool {
    if o.boss.should_respawn_spec() {
        let b = spawned(o.boss, (arena.width / 2) as i32, BOSS_SPAWN_Y);
        &&& n.boss == b
        &&& n.cues@ == o.cues@.push(SoundType::Join)
        &&& n.outbox@ == o.outbox@.push(Payload::BossSpawn(b.x, b.y))
        &&& n.local_player == o.local_player
        &&& n.remote_players@ == o.remote_players@
        &&& n.bullets@ == o.bullets@
        &&& n.area_attacks@ == o.area_attacks@
        &&& n.damage_indicators@ == o.damage_indicators@
    } else {
        same_but_boss(o, n, o.boss)
    }
}

/// The boss's turn through the intermediate states `g1` (after its state
/// machine step), `g2` (after a power, `power` being the drawn one), `g3`
/// (after the dash check) and `g4` (after the shooting check).
pub open spec fn boss_turn_via(
    o: GameState,
    g1: GameState,
    g2: GameState,
    g3: GameState,
    g4: GameState,
    power: i32,
    n: GameState,
    targets: Seq<Player>,
    dt: u32,
    arena: Arena,
) -> bool {
    &&& same_but_boss(o, g1, g1.boss)
    &&& boss_stepped(o.boss, g1.boss, dt, targets, arena)
    &&& if targets.len() == 0 {
        same_but_boss(g1, n, g1.boss)
    } else {
        &&& (if g1.boss.should_use_power_spec() {
            0 <= power <= 3 && power_effect(g1, g2, targets, power)
        } else {
            same_but_boss(g1, g2, g1.boss)
        })
        &&& dash_effect(g2, g3, targets)
        &&& shoot_effect(g3, g4, targets)
        &&& respawn_effect(g4, n, arena)
    }
}

/// `n` is `o` after one boss turn against `targets`: the state machine
/// step, then, while anyone can be targeted, a power when one is due (drawn
/// at random), the dash, the shot and the respawn checks.
pub open spec fn boss_turn(o: GameState, n: GameState, targets: Seq<Player>, dt: u32, arena: Arena) -> bool {
    exists|g1: GameState, g2: GameState, g3: GameState, g4: GameState, power: i32|
        #[trigger] boss_turn_via(o, g1, g2, g3, g4, power, n, targets, dt, arena)
}

/// Remote players after a frame of respawn countdown.
pub open spec fn respawn_counted(remotes: Seq<Player>, dt: u32) -> Seq<Player> {
    remotes.map_values(
        |p: Player|
            if p.is_alive {
                p
            } else {
                Player { respawn_timer: p.respawn_timer.saturating_add(dt), ..p }
            },
    )
}

/// One frame through the intermediate states `a` (bullets flown, effects
/// aged, remote respawn countdowns advanced) and `b` (after the boss's
/// turn), ending with every bullet resolved against its targets.
pub open spec fn frame_via(o: GameState, a: GameState, b: GameState, n: GameState, dt: u32, arena: Arena) -> bool {
    let r = resolve_all(b.local_player, b.remote_players@, b.boss, b.bullets@);
    &&& a.bullets@ == aged_bullets(o.bullets@, dt, arena)
    &&& a.area_attacks@ == aged_areas(o.area_attacks@, dt)
    &&& a.damage_indicators@ == aged_indicators(o.damage_indicators@, dt)
    &&& a.remote_players@ == respawn_counted(o.remote_players@, dt)
    &&& a.local_player == o.local_player
    &&& a.boss == o.boss
    &&& a.outbox@ == o.outbox@
    &&& a.cues@ == o.cues@
    &&& boss_turn(a, b, targets_spec(a.local_player, a.remote_players@), dt, arena)
    &&& n.local_player == r.0
    &&& n.remote_players@ == r.1
    &&& n.boss == r.2
    &&& n.damage_indicators@ == b.damage_indicators@ + r.3
    &&& n.outbox@ == b.outbox@ + r.4
    &&& n.cues@ == b.cues@ + r.5
    &&& n.bullets@ == survivors(b.bullets@, r.6)
    &&& n.area_attacks@ == b.area_attacks@
}

/// `n` is `o` after one frame of `dt` milliseconds.
pub open spec fn frame_spec(o: GameState, n: GameState, dt: u32, arena: Arena) -> bool {
    exists|a: GameState, b: GameState| #[trigger] frame_via(o, a, b, n, dt, arena)
}

pub struct GameState {
    pub local_player: Player,
    pub remote_players: Vec<Player>,
    pub bullets: Vec<Bullet>,
    pub boss: Boss,
    pub area_attacks: Vec<AreaAttack>,
    pub damage_indicators: Vec<DamageIndicator>,
    /// Messages for the relay, oldest first.
    pub outbox: Vec<Payload>,
    /// Sound cues for the audio layer, oldest first.
    pub cues: Vec<SoundType>,
    pub collision_system: CollisionSystem,
}

impl GameState {
    pub open spec fn world(&self) -> World {
        (
            self.local_player,
            self.remote_players@,
            self.boss,
            self.bullets@,
            self.area_attacks@,
            self.damage_indicators@,
            self.cues@,
        )
    }

    /// A new game: the local player in the middle, a fresh boss, nothing
    /// else.
    pub fn new(player_id: u32, arena: Arena) -> (r: GameState)
        requires
            arena.wf(),
        ensures
            r.local_player == fresh_player(player_id, (arena.width / 2) as i32, (arena.height / 2) as i32),
            r.boss == spawned(r.boss, (arena.width / 2) as i32, BOSS_SPAWN_Y),
            r.boss.max_health == crate::constants::BOSS_MAX_HEALTH,
            r.remote_players@.len() == 0,
            r.bullets@.len() == 0,
            r.area_attacks@.len() == 0,
            r.damage_indicators@.len() == 0,
            r.outbox@.len() == 0,
            r.cues@.len() == 0,
    {
        GameState {
            local_player: Player::new_at_center(player_id, arena),
            remote_players: Vec::new(),
            bullets: Vec::new(),
            boss: Boss::new(arena),
            area_attacks: Vec::new(),
            damage_indicators: Vec::new(),
            outbox: Vec::new(),
            cues: Vec::new(),
            collision_system: CollisionSystem::new(),
        }
    }

    /// Applies one frame of the local player's input; says whether the
    /// player moved, and when it did, queues a Move with its new position.
    pub fn update_input(&mut self, input: &InputState, dt: u32, arena: Arena) -> (r: bool)
        requires
            arena.wf(),
        ensures
            input_effect(
                old(self).local_player,
                final(self).local_player,
                old(self).bullets@,
                final(self).bullets@,
                old(self).outbox@,
                if r {
                    final(self).outbox@.drop_last()
                } else {
                    final(self).outbox@
                },
                old(self).cues@,
                final(self).cues@,
                *input,
                dt,
                arena,
                r,
            ),
            r ==> final(self).outbox@.len() > 0 && final(self).outbox@.last() == Payload::Move(
                final(self).local_player.id,
                final(self).local_player.x,
                final(self).local_player.y,
            ),
            final(self).boss == old(self).boss,
            final(self).remote_players@ == old(self).remote_players@,
            final(self).area_attacks@ == old(self).area_attacks@,
            final(self).damage_indicators@ == old(self).damage_indicators@,
    {
        let moved = InputSystem::update_player_input(
            &mut self.local_player,
            &mut self.bullets,
            input,
            dt,
            arena,
            &mut self.outbox,
            &mut self.cues,
        );
        if moved {
            let ghost before = self.outbox@;
            self.outbox.push(Payload::Move(self.local_player.id, self.local_player.x, self.local_player.y));
            assert(self.outbox@.drop_last() =~= before);
        }
        moved
    }

    /// Queues the local player's Join for the relay.
    pub fn send_join_message(&mut self)
        ensures
            final(self).outbox@ == old(self).outbox@.push(Payload::Join(old(self).local_player.id)),
            final(self).world() == old(self).world(),
    {
        self.outbox.push(Payload::Join(self.local_player.id));
    }

    /// The nearest living player to the boss.
    pub fn find_nearest_player_to_boss(&self, players: &Vec<Player>) -> (r: Option<Player>)
        ensures
            r == nearest_spec(players@, self.boss.x as int, self.boss.y as int),
            r.is_none() <==> !any_alive(players@),
            r.is_some() ==> exists|i: int|
                is_nearest(players@, self.boss.x as int, self.boss.y as int, i) && r == Some(players@[i]),
    {
        nearest_alive(players, self.boss.x, self.boss.y)
    }

    /// Fires the multi-shot fan at the nearest living player and announces
    /// it; nothing happens without a target.
    pub fn execute_boss_multi_shot(&mut self, players: &Vec<Player>)
        ensures
            multi_shot_effect(*old(self), *final(self), players@, old(self).boss),
    {
        if let Some(target_player) = self.find_nearest_player_to_boss(players) {
            let bx = self.boss.x;
            let by = self.boss.y;
            let directions: Vec<(i32, i32)> = match aim(bx, by, target_player.x, target_player.y) {
                Some(a) => spread_directions(a.0, a.1),
                None => Vec::new(),
            };
            let mut i: usize = 0;
            while i < directions.len()
                invariant
                    i <= directions@.len(),
                    self.bullets@ == old(self).bullets@ + volley(bx, by, directions@.subrange(0, i as int)),
                    self.boss == old(self).boss,
                    self.local_player == old(self).local_player,
                    self.remote_players == old(self).remote_players,
                    self.area_attacks == old(self).area_attacks,
                    self.damage_indicators == old(self).damage_indicators,
                    self.cues == old(self).cues,
                    self.outbox == old(self).outbox,
                    bx == self.boss.x,
                    by == self.boss.y,
                decreases directions.len() - i,
            {
                let (dx, dy) = directions[i];
                self.bullets.push(Bullet::new_boss_bullet(bx, by, dx, dy));
                assert(volley(bx, by, directions@.subrange(0, i + 1)) =~= volley(bx, by, directions@.subrange(0, i as int)).push(boss_bullet(bx, by, dx, dy)));
                i = i + 1;
            }
            assert(directions@.subrange(0, directions@.len() as int) =~= directions@);
            self.cues.push(SoundType::PowerUp);
            let ghost dirs = directions@;
            self.outbox.push(Payload::BossMultiShoot(bx, by, directions));
            assert(self.outbox@.drop_last() =~= old(self).outbox@);
            assert(match self.outbox@.last() {
                Payload::BossMultiShoot(x, y, v) => x == bx && y == by && v@ == dirs,
                _ => false,
            });
            assert(self.bullets@ == old(self).bullets@ + volley(bx, by, dirs));
            assert(if bx == target_player.x && by == target_player.y {
                dirs.len() == 0
            } else {
                as_ints(dirs) == fan_spec(aim_spec(bx as int, by as int, target_player.x as int, target_player.y as int))
            });
            assert(self.outbox@.len() == old(self).outbox@.len() + 1);
        }
    }

    /// Drops an area attack on the nearest living player; a living local
    /// player inside its radius is hit once, right away.
    pub fn execute_boss_area_attack(&mut self, players: &Vec<Player>)
        ensures
            area_attack_effect(*old(self), *final(self), players@, old(self).boss),
    {
        if let Some(target_player) = self.find_nearest_player_to_boss(players) {
            let area_center_x = target_player.x;
            let area_center_y = target_player.y;
            let area_attack = AreaAttack::new(area_center_x, area_center_y);
            if self.local_player.is_alive && area_attack.affects_point(
                self.local_player.x,
                self.local_player.y,
            ) {
                let damage = area_attack.damage();
                self.local_player.take_damage(damage);
                self.damage_indicators.push(
                    DamageIndicator::new(self.local_player.x, self.local_player.y, damage, false),
                );
                self.outbox.push(
                    Payload::PlayerHit(self.local_player.id, self.local_player.health, damage),
                );
            }
            self.area_attacks.push(area_attack);
            self.cues.push(SoundType::PowerUp);
            self.outbox.push(Payload::BossAreaAttack(area_center_x, area_center_y));
        }
    }

    /// Raises the boss's shield and announces it.
    pub fn execute_boss_shield(&mut self)
        ensures
            shield_effect(*old(self), *final(self), Boss { shield_active: true, shield_timer: 0, ..old(self).boss }),
    {
        self.boss.activate_shield();
        self.cues.push(SoundType::PowerUp);
        self.outbox.push(Payload::BossShield(true));
    }

    /// Uses the power numbered `power`: 0 multi-shot, 1 area attack, 2
    /// shield, anything else none; the power cooldown restarts either way.
    pub fn use_power(&mut self, power: i32, players: &Vec<Player>)
        ensures
            power_effect(*old(self), *final(self), players@, power),
    {
        if power == 0 {
            self.execute_boss_multi_shot(players);
        } else if power == 1 {
            self.execute_boss_area_attack(players);
        } else if power == 2 {
            self.execute_boss_shield();
        }
        self.boss.reset_power_timer();
    }

    /// When the power cooldown has run, uses one of the three powers at
    /// random.
    fn handle_boss_powers(&mut self, players: &Vec<Player>)
        ensures
            old(self).boss.should_use_power_spec() ==> exists|power: i32|
                0 <= power <= 3 && #[trigger] power_effect(*old(self), *final(self), players@, power),
            !old(self).boss.should_use_power_spec() ==> same_but_boss(*old(self), *final(self), old(self).boss),
    {
        if self.boss.should_use_power() {
            let power = gen_range(0, 3);
            self.use_power(power, players);
        }
    }

    /// When the dash cooldown has run, dashes at the nearest living player.
    pub fn handle_boss_dash(&mut self, players: &Vec<Player>)
        ensures
            dash_effect(*old(self), *final(self), players@),
    {
        if self.boss.should_dash() {
            if let Some(target_player) = self.find_nearest_player_to_boss(players) {
                self.boss.start_dash(target_player.x, target_player.y);
                self.cues.push(SoundType::Dash);
                self.outbox.push(Payload::BossDash(target_player.x, target_player.y));
            }
        }
    }

    /// When the shoot cooldown has run and the boss is not dashing, fires one
    /// bullet straight at the nearest living player. The cooldown restarts
    /// only when a bullet is fired: with nobody to aim at (or the target
    /// standing on the boss's centre) the boss tries again next frame.
    pub fn handle_boss_shooting(&mut self, players: &Vec<Player>)
        ensures
            shoot_effect(*old(self), *final(self), players@),
    {
        if self.boss.should_shoot() && !self.boss.is_dashing {
            if let Some(target_player) = self.find_nearest_player_to_boss(players) {
                if let Some(d) = aim(self.boss.x, self.boss.y, target_player.x, target_player.y) {
                    let bullet = Bullet::new_boss_bullet(self.boss.x, self.boss.y, d.0, d.1);
                    self.bullets.push(bullet);
                    self.cues.push(SoundType::BossShoot);
                    self.outbox.push(Payload::BossShoot(self.boss.x, self.boss.y, d.0, d.1));
                    self.boss.reset_shoot_timer();
                }
            }
        }
    }

    /// Brings a dead boss back once its countdown has run, and announces it.
    pub fn handle_boss_respawn(&mut self, arena: Arena)
        requires
            arena.wf(),
        ensures
            respawn_effect(*old(self), *final(self), arena),
    {
        if self.boss.should_respawn() {
            self.boss.respawn(arena);
            self.cues.push(SoundType::Join);
            self.outbox.push(Payload::BossSpawn(self.boss.x, self.boss.y));
        }
    }

    /// The living players that the boss can target.
    pub fn boss_targets(&self) -> (r: Vec<Player>)
        ensures
            r@ == targets_spec(self.local_player, self.remote_players@),
    {
        let mut all: Vec<Player> = Vec::new();
        if self.local_player.is_alive {
            all.push(self.local_player);
        }
        let ghost head = all@;
        let mut i: usize = 0;
        while i < self.remote_players.len()
            invariant
                i <= self.remote_players@.len(),
                all@ == head + self.remote_players@.subrange(0, i as int).filter(|p: Player| p.is_alive),
            decreases self.remote_players.len() - i,
        {
            proof {
                reveal(Seq::filter);
                assert(self.remote_players@.subrange(0, i + 1).last() == self.remote_players@[i as int]);
                assert(self.remote_players@.subrange(0, i + 1).drop_last() =~= self.remote_players@.subrange(0, i as int));
            }
            let p = self.remote_players[i];
            if p.is_alive {
                all.push(p);
                assert(all@ =~= head + self.remote_players@.subrange(0, i + 1).filter(|p: Player| p.is_alive));
            }
            i = i + 1;
        }
        assert(self.remote_players@.subrange(0, self.remote_players@.len() as int) =~= self.remote_players@);
        all
    }

    /// One frame of the boss: its state machine, then, while anyone can be
    /// targeted, its powers, dash, shot and respawn.
    pub fn update_boss(&mut self, dt: u32, arena: Arena)
        requires
            arena.wf(),
        ensures
            boss_turn(*old(self), *final(self), targets_spec(old(self).local_player, old(self).remote_players@), dt, arena),
    {
        let all_players = self.boss_targets();
        self.boss.update(dt, &all_players, arena);
        let ghost g1 = *self;
        if all_players.len() == 0 {
            assert(boss_turn_via(*old(self), g1, g1, g1, g1, 0, *self, all_players@, dt, arena));
            return;
        }
        self.handle_boss_powers(&all_players);
        let ghost g2 = *self;
        self.handle_boss_dash(&all_players);
        let ghost g3 = *self;
        self.handle_boss_shooting(&all_players);
        let ghost g4 = *self;
        self.handle_boss_respawn(arena);
        proof {
            let power: i32 = if g1.boss.should_use_power_spec() {
                choose|power: i32| 0 <= power <= 3 && #[trigger] power_effect(g1, g2, all_players@, power)
            } else {
                0
            };
            assert(boss_turn_via(*old(self), g1, g2, g3, g4, power, *self, all_players@, dt, arena));
        }
    }

    /// One frame of simulation: bullets fly and expire, effects age, remote
    /// players count toward respawn, the boss acts, and bullets are
    /// resolved against their targets.
    pub fn update_entities(&mut self, dt: u32, arena: Arena)
        requires
            arena.wf(),
        ensures
            frame_spec(*old(self), *final(self), dt, arena),
    {
        self.age_bullets(dt, arena);
        self.age_area_attacks(dt);
        self.age_damage_indicators(dt);
        self.count_remote_respawns(dt);
        let ghost a = *self;
        self.update_boss(dt, arena);
        let ghost b = *self;
        self.collision_system.check_bullet_collisions(
            &mut self.bullets,
            &mut self.local_player,
            &mut self.remote_players,
            &mut self.boss,
            &mut self.damage_indicators,
            &mut self.outbox,
            &mut self.cues,
        );
        assert(frame_via(*old(self), a, b, *self, dt, arena));
    }

    fn age_bullets(&mut self, dt: u32, arena: Arena)
        ensures
            final(self).bullets@ == aged_bullets(old(self).bullets@, dt, arena),
            final(self).world() == (old(self).local_player, old(self).remote_players@, old(self).boss, final(self).bullets@, old(self).area_attacks@, old(self).damage_indicators@, old(self).cues@),
            final(self).outbox == old(self).outbox,
    {
        let mut kept: Vec<Bullet> = Vec::new();
        let mut i: usize = 0;
        while i < self.bullets.len()
            invariant
                i <= self.bullets@.len(),
                self.bullets == old(self).bullets,
                kept@ == aged_bullets(self.bullets@.subrange(0, i as int), dt, arena),
            decreases self.bullets.len() - i,
        {
            proof {
                assert(self.bullets@.subrange(0, i + 1).drop_last() =~= self.bullets@.subrange(0, i as int));
            }
            let mut b = self.bullets[i];
            if !b.update(dt, arena) {
                kept.push(b);
            }
            i = i + 1;
        }
        assert(self.bullets@.subrange(0, self.bullets@.len() as int) =~= self.bullets@);
        self.bullets = kept;
    }

    fn age_area_attacks(&mut self, dt: u32)
        ensures
            final(self).area_attacks@ == aged_areas(old(self).area_attacks@, dt),
            final(self).world() == (old(self).local_player, old(self).remote_players@, old(self).boss, old(self).bullets@, final(self).area_attacks@, old(self).damage_indicators@, old(self).cues@),
            final(self).outbox == old(self).outbox,
    {
        let mut kept: Vec<AreaAttack> = Vec::new();
        let mut i: usize = 0;
        while i < self.area_attacks.len()
            invariant
                i <= self.area_attacks@.len(),
                self.area_attacks == old(self).area_attacks,
                kept@ == aged_areas(self.area_attacks@.subrange(0, i as int), dt),
            decreases self.area_attacks.len() - i,
        {
            proof {
                assert(self.area_attacks@.subrange(0, i + 1).drop_last() =~= self.area_attacks@.subrange(0, i as int));
            }
            let mut a = self.area_attacks[i];
            if !a.update(dt) {
                kept.push(a);
            }
            i = i + 1;
        }
        assert(self.area_attacks@.subrange(0, self.area_attacks@.len() as int) =~= self.area_attacks@);
        self.area_attacks = kept;
    }

    fn age_damage_indicators(&mut self, dt: u32)
        ensures
            final(self).damage_indicators@ == aged_indicators(old(self).damage_indicators@, dt),
            final(self).world() == (old(self).local_player, old(self).remote_players@, old(self).boss, old(self).bullets@, old(self).area_attacks@, final(self).damage_indicators@, old(self).cues@),
            final(self).outbox == old(self).outbox,
    {
        let mut kept: Vec<DamageIndicator> = Vec::new();
        let mut i: usize = 0;
        while i < self.damage_indicators.len()
            invariant
                i <= self.damage_indicators@.len(),
                self.damage_indicators == old(self).damage_indicators,
                kept@ == aged_indicators(self.damage_indicators@.subrange(0, i as int), dt),
            decreases self.damage_indicators.len() - i,
        {
            proof {
                assert(self.damage_indicators@.subrange(0, i + 1).drop_last() =~= self.damage_indicators@.subrange(0, i as int));
            }
            let mut d = self.damage_indicators[i];
            if !d.update(dt) {
                kept.push(d);
            }
            i = i + 1;
        }
        assert(self.damage_indicators@.subrange(0, self.damage_indicators@.len() as int) =~= self.damage_indicators@);
        self.damage_indicators = kept;
    }

    fn count_remote_respawns(&mut self, dt: u32)
        ensures
            final(self).remote_players@ == respawn_counted(old(self).remote_players@, dt),
            final(self).remote_players@.len() == old(self).remote_players@.len(),
            forall|i: int| 0 <= i < old(self).remote_players@.len() ==> {
                let p = old(self).remote_players@[i];
                #[trigger] final(self).remote_players@[i] == (if p.is_alive {
                    p
                } else {
                    Player { respawn_timer: p.respawn_timer.saturating_add(dt), ..p }
                })
            },
            final(self).local_player == old(self).local_player,
            final(self).boss == old(self).boss,
            final(self).bullets == old(self).bullets,
            final(self).area_attacks == old(self).area_attacks,
            final(self).damage_indicators == old(self).damage_indicators,
            final(self).outbox == old(self).outbox,
            final(self).cues == old(self).cues,
    {
        let mut i: usize = 0;
        while i < self.remote_players.len()
            invariant
                i <= self.remote_players@.len(),
                self.remote_players@.len() == old(self).remote_players@.len(),
                forall|j: int| i <= j < old(self).remote_players@.len() ==> #[trigger] self.remote_players@[j] == old(self).remote_players@[j],
                forall|j: int| 0 <= j < i ==> {
                    let p = old(self).remote_players@[j];
                    #[trigger] self.remote_players@[j] == (if p.is_alive {
                        p
                    } else {
                        Player { respawn_timer: p.respawn_timer.saturating_add(dt), ..p }
                    })
                },
                self.local_player == old(self).local_player,
                self.boss == old(self).boss,
                self.bullets == old(self).bullets,
                self.area_attacks == old(self).area_attacks,
                self.damage_indicators == old(self).damage_indicators,
                self.outbox == old(self).outbox,
                self.cues == old(self).cues,
            decreases self.remote_players.len() - i,
        {
            let mut p = self.remote_players[i];
            p.update_respawn(dt);
            self.remote_players.set(i, p);
            i = i + 1;
        }
        assert(self.remote_players@ =~= respawn_counted(old(self).remote_players@, dt));
    }

    /// Applies at most `MAX_MESSAGES_PER_FRAME` relayed messages, in order;
    /// returns how many it applied. The rest wait for the next frame.
    pub fn process_network_messages(&mut self, messages: &Vec<Payload>, arena: Arena) -> (r: usize)
        requires
            arena.wf(),
        ensures
            r == if messages@.len() < MAX_MESSAGES_PER_FRAME { messages@.len() } else { MAX_MESSAGES_PER_FRAME as nat },
            final(self).world() == world_after(old(self).world(), messages@.subrange(0, r as int), arena),
            final(self).outbox == old(self).outbox,
    {
        let mut processed: usize = 0;
        while processed < messages.len() && processed < MAX_MESSAGES_PER_FRAME
            invariant
                processed <= messages@.len(),
                processed <= MAX_MESSAGES_PER_FRAME,
                self.world() == world_after(old(self).world(), messages@.subrange(0, processed as int), arena),
                self.outbox == old(self).outbox,
                arena.wf(),
            decreases messages.len() - processed,
        {
            proof {
                assert(messages@.subrange(0, processed + 1).drop_last() =~= messages@.subrange(0, processed as int));
            }
            NetworkSystem::handle_message(
                &messages[processed],
                &mut self.local_player,
                &mut self.remote_players,
                &mut self.boss,
                &mut self.bullets,
                &mut self.area_attacks,
                &mut self.damage_indicators,
                &mut self.cues,
                arena,
            );
            processed = processed + 1;
        }
        processed
    }

    /// Queues the local player's Leave for the relay.
    pub fn send_leave_message(&mut self)
        ensures
            final(self).outbox@ == old(self).outbox@.push(Payload::Leave(old(self).local_player.id)),
            final(self).world() == old(self).world(),
    {
        self.outbox.push(Payload::Leave(self.local_player.id));
    }
}

} // verus!
