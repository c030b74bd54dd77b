//! Reconciliation of relayed events with the local view of the game.

use vstd::prelude::*;
use crate::audio::SoundType;
use crate::boss::{spawned, Boss};
use crate::bullet::{boss_bullet, player_bullet, Bullet};
use crate::constants::{AREA_ATTACK_DAMAGE, AREA_ATTACK_DURATION, AREA_ATTACK_RADIUS, DAMAGE_INDICATOR_DURATION};
use crate::effects::{AreaAttack, DamageIndicator};
use crate::geometry::{within_spec, Arena};
use crate::message::Payload;
use crate::player::{
    damaged, find_id, first_with_id, fresh_player, has_player, lemma_first_with_id_some,
    with_first_id, Player,
};

verus! {

/// Applies relayed messages to the local state.
pub struct NetworkSystem;

pub open spec fn moved_to(x: i32, y: i32) -> spec_fn(Player) -> Player {
    |p: Player| Player { x, y, ..p }
}

/// Health as a damage notice reports it; zero health means death.
pub open spec fn health_set(h: u32) -> spec_fn(Player) -> Player {
    |p: Player|
        if h == 0 {
            Player { health: 0, is_alive: false, respawn_timer: 0, ..p }
        } else {
            Player { health: h, ..p }
        }
}

pub open spec fn revived(x: i32, y: i32) -> spec_fn(Player) -> Player {
    |p: Player| Player { x, y, health: p.max_health, is_alive: true, respawn_timer: 0, ..p }
}

pub open spec fn facing(dx: i32, dy: i32) -> spec_fn(Player) -> Player {
    |p: Player| Player { direction_x: dx, direction_y: dy, ..p }
}

pub open spec fn kill_added() -> spec_fn(Player) -> Player {
    |p: Player| Player { kills: p.kills.saturating_add(1), ..p }
}

pub open spec fn killed() -> spec_fn(Player) -> Player {
    |p: Player| Player { is_alive: false, respawn_timer: 0, health: 0, ..p }
}

pub open spec fn not_player(id: u32) -> spec_fn(Player) -> bool {
    |p: Player| p.id != id
}

pub open spec fn area_hits_local(local: Player, cx: i32, cy: i32) -> bool {
    local.is_alive && within_spec(cx as int, cy as int, local.x as int, local.y as int, AREA_ATTACK_RADIUS as int)
}

/// The remote roster after a message.
pub open spec fn remotes_after(m: Payload, local: Player, remotes: Seq<Player>, arena: Arena) -> Seq<Player> {
    match m {
        Payload::Move(id, x, y) => if has_player(remotes, id) {
            with_first_id(remotes, id, moved_to(x, y))
        } else if id != local.id {
            remotes.push(fresh_player(id, x, y))
        } else {
            remotes
        },
        Payload::Join(id) => if id == local.id || has_player(remotes, id) {
            remotes
        } else {
            remotes.push(fresh_player(id, (arena.width / 2) as i32, (arena.height / 2) as i32))
        },
        Payload::Leave(id) => remotes.filter(not_player(id)),
        Payload::PlayerHit(id, h, _) => if id == local.id {
            remotes
        } else {
            with_first_id(remotes, id, health_set(h))
        },
        Payload::PlayerRespawn(id, x, y) => if id == local.id {
            remotes
        } else {
            with_first_id(remotes, id, revived(x, y))
        },
        Payload::PlayerDirection(id, dx, dy) => with_first_id(remotes, id, facing(dx, dy)),
        Payload::PlayerKill(killer, victim) => {
            let r = if killer == local.id {
                remotes
            } else {
                with_first_id(remotes, killer, kill_added())
            };
            if victim == local.id {
                r
            } else {
                with_first_id(r, victim, killed())
            }
        },
        _ => remotes,
    }
}

/// The local player after a message.
pub open spec fn local_after(m: Payload, local: Player) -> Player {
    match m {
        Payload::PlayerHit(id, h, _) => if id == local.id {
            health_set(h)(local)
        } else {
            local
        },
        Payload::BossAreaAttack(cx, cy) => if area_hits_local(local, cx, cy) {
            damaged(local, AREA_ATTACK_DAMAGE).0
        } else {
            local
        },
        _ => local,
    }
}

/// The boss after a message.
pub open spec fn boss_after(m: Payload, boss: Boss) -> Boss {
    match m {
        Payload::BossHit(h) => Boss { health: h, ..boss },
        Payload::BossSpawn(x, y) => spawned(boss, x, y),
        Payload::BossDead => Boss { alive: false, health: 0, respawn_timer: 0, ..boss },
        Payload::BossDash(tx, ty) => Boss {
            is_dashing: true,
            dash_target_x: tx,
            dash_target_y: ty,
            dash_timer: 0,
            ..boss
        },
        Payload::BossShield(active) => Boss { shield_active: active, shield_timer: 0, ..boss },
        _ => boss,
    }
}

pub open spec fn volley(x: i32, y: i32, dirs: Seq<(i32, i32)>) -> Seq<Bullet> {
    dirs.map_values(|d: (i32, i32)| boss_bullet(x, y, d.0, d.1))
}

/// The bullets after a message.
pub open spec fn bullets_after(m: Payload, local: Player, bullets: Seq<Bullet>) -> Seq<Bullet> {
    match m {
        Payload::Shoot(id, x, y, dx, dy) => if id != local.id {
            bullets.push(player_bullet(x, y, dx, dy, id))
        } else {
            bullets
        },
        Payload::BossShoot(x, y, dx, dy) => bullets.push(boss_bullet(x, y, dx, dy)),
        Payload::BossMultiShoot(x, y, dirs) => bullets + volley(x, y, dirs@),
        _ => bullets,
    }
}

/// The area attacks after a message.
pub open spec fn areas_after(m: Payload, areas: Seq<AreaAttack>) -> Seq<AreaAttack> {
    match m {
        Payload::BossAreaAttack(cx, cy) => areas.push(
            AreaAttack { x: cx, y: cy, timer: 0, max_time: AREA_ATTACK_DURATION },
        ),
        _ => areas,
    }
}

pub open spec fn indicator(x: i32, y: i32, damage: u32) -> DamageIndicator {
    DamageIndicator { x, y, damage, timer: 0, max_time: DAMAGE_INDICATOR_DURATION, from_player: false }
}

/// The damage indicators after a message: one over a damaged remote player,
/// one over the local player caught by an area attack.
pub open spec fn indicators_after(m: Payload, local: Player, remotes: Seq<Player>, inds: Seq<DamageIndicator>) -> Seq<DamageIndicator> {
    match m {
        Payload::PlayerHit(id, _, dmg) => if id != local.id && has_player(remotes, id) {
            let p = remotes[first_with_id(remotes, id).unwrap()];
            inds.push(indicator(p.x, p.y, dmg))
        } else {
            inds
        },
        Payload::BossAreaAttack(cx, cy) => if area_hits_local(local, cx, cy) {
            inds.push(indicator(local.x, local.y, AREA_ATTACK_DAMAGE))
        } else {
            inds
        },
        _ => inds,
    }
}

/// The sound cues after a message: a new remote player or a remote respawn.
pub open spec fn cues_after(m: Payload, local: Player, remotes: Seq<Player>, cues: Seq<SoundType>) -> Seq<SoundType> {
    match m {
        Payload::Join(id) => if id == local.id || has_player(remotes, id) {
            cues
        } else {
            cues.push(SoundType::Join)
        },
        Payload::PlayerRespawn(id, _, _) => if id != local.id && has_player(remotes, id) {
            cues.push(SoundType::Join)
        } else {
            cues
        },
        _ => cues,
    }
}

impl NetworkSystem {
    /// Applies one relayed message to the local state.
    pub fn handle_message(
        payload: &Payload,
        local_player: &mut Player,
        remote_players: &mut Vec<Player>,
        boss: &mut Boss,
        bullets: &mut Vec<Bullet>,
        area_attacks: &mut Vec<AreaAttack>,
        damage_indicators: &mut Vec<DamageIndicator>,
        cues: &mut Vec<SoundType>,
        arena: Arena,
    )
        requires
            arena.wf(),
        ensures
            final(remote_players)@ == remotes_after(*payload, *old(local_player), old(remote_players)@, arena),
            *final(local_player) == local_after(*payload, *old(local_player)),
            *final(boss) == boss_after(*payload, *old(boss)),
            final(bullets)@ == bullets_after(*payload, *old(local_player), old(bullets)@),
            final(area_attacks)@ == areas_after(*payload, old(area_attacks)@),
            final(damage_indicators)@ == indicators_after(*payload, *old(local_player), old(remote_players)@, old(damage_indicators)@),
            final(cues)@ == cues_after(*payload, *old(local_player), old(remote_players)@, old(cues)@),
    {
        match payload {
            Payload::Move(player_id, x, y) => {
                Self::handle_player_move(*player_id, *x, *y, local_player, remote_players);
            },
            Payload::Join(id) => {
                Self::handle_player_join(*id, local_player, remote_players, cues, arena);
            },
            Payload::Leave(id) => {
                Self::handle_player_leave(*id, remote_players);
            },
            Payload::Shoot(player_id, x, y, direction_x, direction_y) => {
                if *player_id != local_player.id {
                    bullets.push(Bullet::new(*x, *y, *direction_x, *direction_y, *player_id));
                }
            },
            Payload::BossShoot(x, y, direction_x, direction_y) => {
                bullets.push(Bullet::new_boss_bullet(*x, *y, *direction_x, *direction_y));
            },
            Payload::PlayerHit(player_id, new_health, damage) => {
                Self::handle_player_hit(
                    *player_id,
                    *new_health,
                    *damage,
                    local_player,
                    remote_players,
                    damage_indicators,
                );
            },
            Payload::BossHit(new_health) => {
                boss.health = *new_health;
            },
            Payload::BossSpawn(x, y) => {
                boss.respawn_at(*x, *y);
            },
            Payload::BossDead => {
                boss.alive = false;
                boss.health = 0;
                boss.respawn_timer = 0;
            },
            Payload::BossMultiShoot(x, y, directions) => {
                Self::handle_boss_multi_shoot(*x, *y, directions, bullets);
            },
            Payload::BossDash(target_x, target_y) => {
                boss.start_dash(*target_x, *target_y);
            },
            Payload::BossAreaAttack(center_x, center_y) => {
                Self::handle_boss_area_attack(
                    *center_x,
                    *center_y,
                    local_player,
                    area_attacks,
                    damage_indicators,
                );
            },
            Payload::BossShield(active) => {
                boss.shield_active = *active;
                boss.shield_timer = 0;
            },
            Payload::PlayerRespawn(player_id, x, y) => {
                Self::handle_player_respawn(*player_id, *x, *y, local_player, remote_players, cues);
            },
            Payload::PlayerDirection(player_id, direction_x, direction_y) => {
                if let Some(i) = find_id(remote_players, *player_id) {
                    let mut p = remote_players[i];
                    p.direction_x = *direction_x;
                    p.direction_y = *direction_y;
                    remote_players.set(i, p);
                }
            },
            Payload::PlayerKill(killer_id, victim_id) => {
                Self::handle_player_kill(*killer_id, *victim_id, local_player, remote_players);
            },
        }
    }

    /// Moves a known remote player, or adds one that was missed joining.
    pub fn handle_player_move(
        player_id: u32,
        x: i32,
        y: i32,
        local_player: &Player,
        remote_players: &mut Vec<Player>,
    )
        ensures
            final(remote_players)@ == remotes_after(Payload::Move(player_id, x, y), *local_player, old(remote_players)@, Arena { width: 0, height: 0 }),
    {
        if let Some(i) = find_id(remote_players, player_id) {
            proof {
                lemma_first_with_id_some(remote_players@, player_id);
            }
            let mut p = remote_players[i];
            p.x = x;
            p.y = y;
            remote_players.set(i, p);
        } else if player_id != local_player.id {
            remote_players.push(Player::new(player_id, x, y));
        }
    }

    /// Adds a remote player at the arena's centre, unless it is the local
    /// player or already known.
    pub fn handle_player_join(
        player_id: u32,
        local_player: &Player,
        remote_players: &mut Vec<Player>,
        cues: &mut Vec<SoundType>,
        arena: Arena,
    )
        requires
            arena.wf(),
        ensures
            final(remote_players)@ == remotes_after(Payload::Join(player_id), *local_player, old(remote_players)@, arena),
            final(cues)@ == cues_after(Payload::Join(player_id), *local_player, old(remote_players)@, old(cues)@),
    {
        if player_id == local_player.id {
            return;
        }
        if let Some(_) = find_id(remote_players, player_id) {
            proof {
                lemma_first_with_id_some(remote_players@, player_id);
            }
            return;
        }
        remote_players.push(Player::new_at_center(player_id, arena));
        cues.push(SoundType::Join);
    }

    /// Removes every remote player with this id.
    pub fn handle_player_leave(player_id: u32, remote_players: &mut Vec<Player>)
        ensures
            final(remote_players)@ == old(remote_players)@.filter(not_player(player_id)),
    {
        let mut kept: Vec<Player> = Vec::new();
        let mut i: usize = 0;
        while i < remote_players.len()
            invariant
                i <= remote_players@.len(),
                kept@ == remote_players@.subrange(0, i as int).filter(not_player(player_id)),
            decreases remote_players.len() - i,
        {
            proof {
                reveal(Seq::filter);
                assert(remote_players@.subrange(0, i + 1).last() == remote_players@[i as int]);
                assert(remote_players@.subrange(0, i + 1).drop_last() =~= remote_players@.subrange(0, i as int));
            }
            let p = remote_players[i];
            if p.id != player_id {
                kept.push(p);
            }
            i = i + 1;
        }
        assert(remote_players@.subrange(0, remote_players@.len() as int) =~= remote_players@);
        *remote_players = kept;
    }

    fn handle_player_hit(
        player_id: u32,
        new_health: u32,
        damage: u32,
        local_player: &mut Player,
        remote_players: &mut Vec<Player>,
        damage_indicators: &mut Vec<DamageIndicator>,
    )
        ensures
            final(remote_players)@ == remotes_after(Payload::PlayerHit(player_id, new_health, damage), *old(local_player), old(remote_players)@, Arena { width: 0, height: 0 }),
            *final(local_player) == local_after(Payload::PlayerHit(player_id, new_health, damage), *old(local_player)),
            final(damage_indicators)@ == indicators_after(Payload::PlayerHit(player_id, new_health, damage), *old(local_player), old(remote_players)@, old(damage_indicators)@),
    {
        if player_id == local_player.id {
            local_player.health = new_health;
            if local_player.health == 0 {
                local_player.is_alive = false;
                local_player.respawn_timer = 0;
            }
        } else if let Some(i) = find_id(remote_players, player_id) {
            proof {
                lemma_first_with_id_some(remote_players@, player_id);
            }
            let mut p = remote_players[i];
            p.health = new_health;
            if p.health == 0 {
                p.is_alive = false;
                p.respawn_timer = 0;
            }
            remote_players.set(i, p);
            damage_indicators.push(DamageIndicator::new(p.x, p.y, damage, false));
        }
    }

    fn handle_boss_multi_shoot(x: i32, y: i32, directions: &Vec<(i32, i32)>, bullets: &mut Vec<Bullet>)
        ensures
            final(bullets)@ == old(bullets)@ + volley(x, y, directions@),
    {
        let mut i: usize = 0;
        while i < directions.len()
            invariant
                i <= directions@.len(),
                bullets@ == old(bullets)@ + volley(x, y, directions@.subrange(0, i as int)),
            decreases directions.len() - i,
        {
            let (direction_x, direction_y) = directions[i];
            bullets.push(Bullet::new_boss_bullet(x, y, direction_x, direction_y));
            assert(volley(x, y, directions@.subrange(0, i + 1)) =~= volley(x, y, directions@.subrange(0, i as int)).push(boss_bullet(x, y, direction_x, direction_y)));
            i = i + 1;
        }
        assert(directions@.subrange(0, directions@.len() as int) =~= directions@);
    }

    fn handle_boss_area_attack(
        center_x: i32,
        center_y: i32,
        local_player: &mut Player,
        area_attacks: &mut Vec<AreaAttack>,
        damage_indicators: &mut Vec<DamageIndicator>,
    )
        ensures
            *final(local_player) == local_after(Payload::BossAreaAttack(center_x, center_y), *old(local_player)),
            final(area_attacks)@ == areas_after(Payload::BossAreaAttack(center_x, center_y), old(area_attacks)@),
            final(damage_indicators)@ == indicators_after(Payload::BossAreaAttack(center_x, center_y), *old(local_player), Seq::empty(), old(damage_indicators)@),
    {
        area_attacks.push(AreaAttack::new(center_x, center_y));
        if local_player.is_alive {
            let area_attack = AreaAttack::new(center_x, center_y);
            if area_attack.affects_point(local_player.x, local_player.y) {
                let damage = area_attack.damage();
                local_player.take_damage(damage);
                damage_indicators.push(DamageIndicator::new(local_player.x, local_player.y, damage, false));
            }
        }
    }

    fn handle_player_respawn(
        player_id: u32,
        x: i32,
        y: i32,
        local_player: &Player,
        remote_players: &mut Vec<Player>,
        cues: &mut Vec<SoundType>,
    )
        ensures
            final(remote_players)@ == remotes_after(Payload::PlayerRespawn(player_id, x, y), *local_player, old(remote_players)@, Arena { width: 0, height: 0 }),
            final(cues)@ == cues_after(Payload::PlayerRespawn(player_id, x, y), *local_player, old(remote_players)@, old(cues)@),
    {
        if player_id != local_player.id {
            if let Some(i) = find_id(remote_players, player_id) {
                proof {
                    lemma_first_with_id_some(remote_players@, player_id);
                }
                let mut p = remote_players[i];
                p.x = x;
                p.y = y;
                p.health = p.max_health;
                p.is_alive = true;
                p.respawn_timer = 0;
                remote_players.set(i, p);
                cues.push(SoundType::Join);
            }
        }
    }

    fn handle_player_kill(
        killer_id: u32,
        victim_id: u32,
        local_player: &Player,
        remote_players: &mut Vec<Player>,
    )
        ensures
            final(remote_players)@ == remotes_after(Payload::PlayerKill(killer_id, victim_id), *local_player, old(remote_players)@, Arena { width: 0, height: 0 }),
    {
        if killer_id != local_player.id {
            if let Some(i) = find_id(remote_players, killer_id) {
                let mut p = remote_players[i];
                p.kills = p.kills.saturating_add(1);
                remote_players.set(i, p);
            }
        }
        if victim_id != local_player.id {
            if let Some(i) = find_id(remote_players, victim_id) {
                let mut p = remote_players[i];
                p.is_alive = false;
                p.respawn_timer = 0;
                p.health = 0;
                remote_players.set(i, p);
            }
        }
    }
}

/// Sending Join for an id twice leaves the remote roster as the first Join
/// left it: the same players, so the same size.
pub proof fn lemma_join_idempotent(local: Player, remotes: Seq<Player>, id: u32, arena: Arena)
    ensures
        ({
            let once = remotes_after(Payload::Join(id), local, remotes, arena);
            &&& remotes_after(Payload::Join(id), local, once, arena) == once
            &&& has_player(remotes, id) ==> once == remotes
        }),
{
    let once = remotes_after(Payload::Join(id), local, remotes, arena);
    if !(id == local.id || has_player(remotes, id)) {
        assert(once[remotes.len() as int].id == id);
        assert(has_player(once, id));
    }
}

} // verus!
