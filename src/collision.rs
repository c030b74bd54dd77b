//! Per-frame resolution of bullets against players and the boss, and of
//! area attacks against the local player.

use vstd::prelude::*;
use crate::audio::{hit_cue, hit_sound, SoundType};
use crate::boss::{boss_damaged, Boss};
use crate::bullet::{bullet_damage, bullet_hits, Bullet};
use crate::constants::{AREA_ATTACK_DAMAGE, AREA_ATTACK_RADIUS, BOSS_RADIUS, DAMAGE_BOSS, PLAYER_RADIUS};
use crate::effects::{AreaAttack, DamageIndicator};
use crate::geometry::within_spec;
use crate::message::Payload;
use crate::player::{damaged, find_id, first_with_id, Player};

verus! {

/// What resolving one bullet does: the local player, the remote players and
/// the boss afterwards; the damage indicators, outgoing messages and sound
/// cues it adds; and whether the bullet is used up.
pub type Resolution = (Player, Seq<Player>, Boss, Seq<DamageIndicator>, Seq<Payload>, Seq<SoundType>, bool);

pub open spec fn hits_player(p: Player, b: Bullet) -> bool {
    p.is_alive && bullet_hits(b, p.x as int, p.y as int, PLAYER_RADIUS as int)
}

/// `remotes[i]` is the first living remote player that the bullet hits.
pub open spec fn is_first_hit(remotes: Seq<Player>, b: Bullet, i: int) -> bool {
    &&& 0 <= i < remotes.len()
    &&& hits_player(remotes[i], b)
    &&& forall|j: int| 0 <= j < i ==> !hits_player(#[trigger] remotes[j], b)
}

pub open spec fn first_hit(remotes: Seq<Player>, b: Bullet) -> Option<int> {
    if exists|i: int| is_first_hit(remotes, b, i) {
        Some(choose|i: int| is_first_hit(remotes, b, i))
    } else {
        None
    }
}

/// One more kill for the remote player with this id, if there is one.
pub open spec fn credit_kill_spec(remotes: Seq<Player>, id: u32) -> Seq<Player> {
    match first_with_id(remotes, id) {
        Some(i) => remotes.update(i, Player { kills: remotes[i].kills.saturating_add(1), ..remotes[i] }),
        None => remotes,
    }
}

pub open spec fn untouched(local: Player, remotes: Seq<Player>, boss: Boss) -> Resolution {
    (local, remotes, boss, Seq::empty(), Seq::empty(), Seq::empty(), false)
}

/// The effect of one bullet, in the order of the rules: a boss bullet
/// against the local player; a local bullet against the first remote player
/// it hits; a remote bullet against the local player; any player bullet
/// against the boss, which takes `DAMAGE_BOSS` from it.
pub open spec fn resolve_one(local: Player, remotes: Seq<Player>, boss: Boss, b: Bullet) -> Resolution {
    let dmg = bullet_damage(b);
    if b.is_boss_bullet {
        if hits_player(local, b) {
            let (l2, died) = damaged(local, dmg);
            (
                l2,
                remotes,
                boss,
                seq![DamageIndicator { x: l2.x, y: l2.y, damage: dmg, timer: 0, max_time: crate::constants::DAMAGE_INDICATOR_DURATION, from_player: false }],
                seq![Payload::PlayerHit(local.id, l2.health, dmg)],
                seq![hit_cue(died)],
                true,
            )
        } else {
            untouched(local, remotes, boss)
        }
    } else if b.owner_id == local.id && first_hit(remotes, b).is_some() {
        let p = remotes[first_hit(remotes, b).unwrap()];
        let nh = p.health.saturating_sub(dmg);
        if nh == 0 {
            (
                Player { kills: local.kills.saturating_add(1), ..local },
                remotes,
                boss,
                Seq::empty(),
                seq![Payload::PlayerHit(p.id, nh, dmg), Payload::PlayerKill(local.id, p.id)],
                seq![hit_cue(true)],
                true,
            )
        } else {
            (
                local,
                remotes,
                boss,
                Seq::empty(),
                seq![Payload::PlayerHit(p.id, nh, dmg)],
                seq![hit_cue(false)],
                true,
            )
        }
    } else if b.owner_id != local.id && hits_player(local, b) {
        let (l2, died) = damaged(local, dmg);
        (
            l2,
            if died {
                credit_kill_spec(remotes, b.owner_id)
            } else {
                remotes
            },
            boss,
            seq![DamageIndicator { x: l2.x, y: l2.y, damage: dmg, timer: 0, max_time: crate::constants::DAMAGE_INDICATOR_DURATION, from_player: true }],
            seq![Payload::PlayerHit(local.id, l2.health, dmg)],
            seq![hit_cue(died)],
            true,
        )
    } else if boss.alive && bullet_hits(b, boss.x as int, boss.y as int, BOSS_RADIUS as int) {
        let (b2, died) = boss_damaged(boss, DAMAGE_BOSS);
        (
            local,
            remotes,
            b2,
            seq![DamageIndicator { x: boss.x, y: boss.y, damage: DAMAGE_BOSS, timer: 0, max_time: crate::constants::DAMAGE_INDICATOR_DURATION, from_player: false }],
            seq![
                if died {
                    Payload::BossDead
                } else {
                    Payload::BossHit(b2.health)
                },
            ],
            seq![hit_cue(died)],
            true,
        )
    } else {
        untouched(local, remotes, boss)
    }
}

/// The bullets resolved one after another, each against the state that the
/// earlier ones left; the last component flags the bullets used up.
pub open spec fn resolve_all(local: Player, remotes: Seq<Player>, boss: Boss, bullets: Seq<Bullet>) -> (Player, Seq<Player>, Boss, Seq<DamageIndicator>, Seq<Payload>, Seq<SoundType>, Seq<bool>)
    decreases bullets.len(),
{
    if bullets.len() == 0 {
        (local, remotes, boss, Seq::empty(), Seq::empty(), Seq::empty(), Seq::empty())
    } else {
        let p = resolve_all(local, remotes, boss, bullets.drop_last());
        let o = resolve_one(p.0, p.1, p.2, bullets.last());
        (o.0, o.1, o.2, p.3 + o.3, p.4 + o.4, p.5 + o.5, p.6.push(o.6))
    }
}

/// The bullets whose flag is not set, in order.
pub open spec fn survivors(bullets: Seq<Bullet>, used: Seq<bool>) -> Seq<Bullet>
    decreases bullets.len(),
{
    if bullets.len() == 0 {
        Seq::empty()
    } else {
        let s = survivors(bullets.drop_last(), used.drop_last());
        if used.last() {
            s
        } else {
            s.push(bullets.last())
        }
    }
}

/// What area attacks do to the local player: each one that covers a living
/// local player deals its damage.
pub open spec fn area_all(local: Player, attacks: Seq<AreaAttack>) -> (Player, Seq<DamageIndicator>, Seq<Payload>, Seq<SoundType>)
    decreases attacks.len(),
{
    if attacks.len() == 0 {
        (local, Seq::empty(), Seq::empty(), Seq::empty())
    } else {
        let p = area_all(local, attacks.drop_last());
        let a = attacks.last();
        let l = p.0;
        if l.is_alive && within_spec(a.x as int, a.y as int, l.x as int, l.y as int, AREA_ATTACK_RADIUS as int) {
            let (l2, died) = damaged(l, AREA_ATTACK_DAMAGE);
            (
                l2,
                p.1.push(DamageIndicator { x: l2.x, y: l2.y, damage: AREA_ATTACK_DAMAGE, timer: 0, max_time: crate::constants::DAMAGE_INDICATOR_DURATION, from_player: false }),
                p.2.push(Payload::PlayerHit(l2.id, l2.health, AREA_ATTACK_DAMAGE)),
                p.3.push(hit_cue(died)),
            )
        } else {
            p
        }
    }
}

proof fn lemma_first_hit(remotes: Seq<Player>, b: Bullet, i: int)
    requires
        is_first_hit(remotes, b, i),
    ensures
        first_hit(remotes, b) == Some(i),
{
    let k = choose|k: int| is_first_hit(remotes, b, k);
    if k < i {
        assert(!hits_player(remotes[k], b));
    } else if i < k {
        assert(!hits_player(remotes[i], b));
    }
}

/// Resolving bullets never adds or drops a remote player, and never
/// changes the local player's id.
pub proof fn lemma_resolve_keeps_players(local: Player, remotes: Seq<Player>, boss: Boss, bullets: Seq<Bullet>)
    ensures
        resolve_all(local, remotes, boss, bullets).1.len() == remotes.len(),
        resolve_all(local, remotes, boss, bullets).0.id == local.id,
    decreases bullets.len(),
{
    if bullets.len() > 0 {
        lemma_resolve_keeps_players(local, remotes, boss, bullets.drop_last());
    }
}

/// The index of the first living remote player that the bullet hits.
fn find_hit(remotes: &Vec<Player>, b: &Bullet) -> (r: Option<usize>)
    ensures
        match r {
            Some(i) => first_hit(remotes@, *b) == Some(i as int),
            None => first_hit(remotes@, *b).is_none(),
        },
{
    let mut i: usize = 0;
    while i < remotes.len()
        invariant
            i <= remotes@.len(),
            forall|j: int| 0 <= j < i ==> !hits_player(#[trigger] remotes@[j], *b),
        decreases remotes.len() - i,
    {
        let p = remotes[i];
        if p.is_alive && b.collides_with(p.x, p.y, PLAYER_RADIUS) {
            proof {
                lemma_first_hit(remotes@, *b, i as int);
            }
            return Some(i);
        }
        i = i + 1;
    }
    proof {
        if exists|k: int| is_first_hit(remotes@, *b, k) {
            let k = choose|k: int| is_first_hit(remotes@, *b, k);
            assert(!hits_player(remotes@[k], *b));
        }
    }
    None
}

/// Credits a kill to the first remote player with this id, if any.
fn credit_kill(remotes: &mut Vec<Player>, id: u32)
    ensures
        final(remotes)@ == credit_kill_spec(old(remotes)@, id),
{
    if let Some(i) = find_id(remotes, id) {
        let mut p = remotes[i];
        p.kills = p.kills.saturating_add(1);
        remotes.set(i, p);
    }
}

/// Resolves bullets against the players and the boss once per frame.
pub struct CollisionSystem {
    bullets_to_remove: Vec<usize>,
}

impl Default for CollisionSystem {
    fn default() -> (r: CollisionSystem)
        ensures
            r.removed().len() == 0,
    {
        CollisionSystem::new()
    }
}

impl CollisionSystem {
    pub fn new() -> (r: CollisionSystem)
        ensures
            r.removed().len() == 0,
    {
        CollisionSystem { bullets_to_remove: Vec::new() }
    }

    /// Positions, in the bullet list as it was, of the bullets that the
    /// last pass used up.
    pub closed spec fn removed(&self) -> Seq<usize> {
        self.bullets_to_remove@
    }

    /// Number of bullets that the last pass used up.
    pub fn removed_count(&self) -> (r: usize)
        ensures
            r == self.removed().len(),
    {
        self.bullets_to_remove.len()
    }

    /// Resolves every bullet in order against the state that the earlier
    /// ones left, and removes the bullets that hit something.
    #[verifier::rlimit(50)]
    pub fn check_bullet_collisions(
        &mut self,
        bullets: &mut Vec<Bullet>,
        local_player: &mut Player,
        remote_players: &mut Vec<Player>,
        boss: &mut Boss,
        damage_indicators: &mut Vec<DamageIndicator>,
        outbox: &mut Vec<Payload>,
        cues: &mut Vec<SoundType>,
    )
        ensures
            ({
                let r = resolve_all(*old(local_player), old(remote_players)@, *old(boss), old(bullets)@);
                &&& *final(local_player) == r.0
                &&& final(remote_players)@ == r.1
                &&& *final(boss) == r.2
                &&& final(damage_indicators)@ == old(damage_indicators)@ + r.3
                &&& final(outbox)@ == old(outbox)@ + r.4
                &&& final(cues)@ == old(cues)@ + r.5
                &&& final(bullets)@ == survivors(old(bullets)@, r.6)
            }),
    {
        self.bullets_to_remove.clear();
        let mut kept: Vec<Bullet> = Vec::new();
        let ghost flags: Seq<bool> = Seq::empty();
        let mut i: usize = 0;
        while i < bullets.len()
            invariant
                i <= bullets@.len(),
                bullets@ == old(bullets)@,
                ({
                    let r = resolve_all(*old(local_player), old(remote_players)@, *old(boss), bullets@.subrange(0, i as int));
                    &&& *local_player == r.0
                    &&& remote_players@ == r.1
                    &&& *boss == r.2
                    &&& damage_indicators@ == old(damage_indicators)@ + r.3
                    &&& outbox@ == old(outbox)@ + r.4
                    &&& cues@ == old(cues)@ + r.5
                    &&& flags == r.6
                    &&& flags.len() == i
                    &&& kept@ == survivors(bullets@.subrange(0, i as int), flags)
                }),
            decreases bullets.len() - i,
        {
            let ghost pre = bullets@.subrange(0, i as int);
            let ghost p = resolve_all(*old(local_player), old(remote_players)@, *old(boss), pre);
            let b = bullets[i];
            let used = self.handle_bullet_collision(
                &b,
                local_player,
                remote_players,
                boss,
                damage_indicators,
                outbox,
                cues,
            );
            if used {
                self.bullets_to_remove.push(i);
            } else {
                kept.push(b);
            }
            proof {
                let next = bullets@.subrange(0, i + 1);
                assert(next.drop_last() =~= pre);
                assert(next.last() == b);
                let o = resolve_one(p.0, p.1, p.2, b);
                assert(damage_indicators@ =~= old(damage_indicators)@ + (p.3 + o.3));
                assert(outbox@ =~= old(outbox)@ + (p.4 + o.4));
                assert(cues@ =~= old(cues)@ + (p.5 + o.5));
                flags = flags.push(used);
                assert(flags.drop_last() =~= p.6);
            }
            i = i + 1;
        }
        assert(bullets@.subrange(0, bullets@.len() as int) =~= bullets@);
        *bullets = kept;
    }

    /// Resolves one bullet; says whether it is used up.
    fn handle_bullet_collision(
        &self,
        bullet: &Bullet,
        local_player: &mut Player,
        remote_players: &mut Vec<Player>,
        boss: &mut Boss,
        damage_indicators: &mut Vec<DamageIndicator>,
        outbox: &mut Vec<Payload>,
        cues: &mut Vec<SoundType>,
    ) -> (r: bool)
        ensures
            ({
                let o = resolve_one(*old(local_player), old(remote_players)@, *old(boss), *bullet);
                &&& *final(local_player) == o.0
                &&& final(remote_players)@ == o.1
                &&& *final(boss) == o.2
                &&& final(damage_indicators)@ == old(damage_indicators)@ + o.3
                &&& final(outbox)@ == old(outbox)@ + o.4
                &&& final(cues)@ == old(cues)@ + o.5
                &&& r == o.6
            }),
    {
        if bullet.is_boss_bullet {
            self.handle_boss_bullet_collision(bullet, local_player, damage_indicators, outbox, cues)
        } else {
            self.handle_player_bullet_collision(
                bullet,
                local_player,
                remote_players,
                boss,
                damage_indicators,
                outbox,
                cues,
            )
        }
    }

    fn handle_boss_bullet_collision(
        &self,
        bullet: &Bullet,
        local_player: &mut Player,
        damage_indicators: &mut Vec<DamageIndicator>,
        outbox: &mut Vec<Payload>,
        cues: &mut Vec<SoundType>,
    ) -> (r: bool)
        requires
            bullet.is_boss_bullet,
        ensures
            forall|remotes: Seq<Player>, boss: Boss| {
                let o = #[trigger] resolve_one(*old(local_player), remotes, boss, *bullet);
                &&& *final(local_player) == o.0
                &&& final(damage_indicators)@ == old(damage_indicators)@ + o.3
                &&& final(outbox)@ == old(outbox)@ + o.4
                &&& final(cues)@ == old(cues)@ + o.5
                &&& r == o.6
            },
    {
        if local_player.is_alive && bullet.collides_with(local_player.x, local_player.y, PLAYER_RADIUS) {
            let damage = bullet.damage();
            let died = local_player.take_damage(damage);
            cues.push(hit_sound(died));
            damage_indicators.push(DamageIndicator::new(local_player.x, local_player.y, damage, false));
            outbox.push(Payload::PlayerHit(local_player.id, local_player.health, damage));
            return true;
        }
        false
    }

    fn handle_player_bullet_collision(
        &self,
        bullet: &Bullet,
        local_player: &mut Player,
        remote_players: &mut Vec<Player>,
        boss: &mut Boss,
        damage_indicators: &mut Vec<DamageIndicator>,
        outbox: &mut Vec<Payload>,
        cues: &mut Vec<SoundType>,
    ) -> (r: bool)
        requires
            !bullet.is_boss_bullet,
        ensures
            ({
                let o = resolve_one(*old(local_player), old(remote_players)@, *old(boss), *bullet);
                &&& *final(local_player) == o.0
                &&& final(remote_players)@ == o.1
                &&& *final(boss) == o.2
                &&& final(damage_indicators)@ == old(damage_indicators)@ + o.3
                &&& final(outbox)@ == old(outbox)@ + o.4
                &&& final(cues)@ == old(cues)@ + o.5
                &&& r == o.6
            }),
    {
        if bullet.owner_id == local_player.id {
            if let Some(k) = find_hit(remote_players, bullet) {
                let hit_player = remote_players[k];
                let damage = bullet.damage();
                let new_health = hit_player.health.saturating_sub(damage);
                outbox.push(Payload::PlayerHit(hit_player.id, new_health, damage));
                cues.push(hit_sound(new_health == 0));
                if new_health == 0 {
                    local_player.kills = local_player.kills.saturating_add(1);
                    outbox.push(Payload::PlayerKill(local_player.id, hit_player.id));
                }
                return true;
            }
        }
        if bullet.owner_id != local_player.id && local_player.is_alive && bullet.collides_with(
            local_player.x,
            local_player.y,
            PLAYER_RADIUS,
        ) {
            let damage = bullet.damage();
            let died = local_player.take_damage(damage);
            cues.push(hit_sound(died));
            if died {
                credit_kill(remote_players, bullet.owner_id);
            }
            damage_indicators.push(DamageIndicator::new(local_player.x, local_player.y, damage, true));
            outbox.push(Payload::PlayerHit(local_player.id, local_player.health, damage));
            return true;
        }
        if boss.alive && bullet.collides_with(boss.x, boss.y, BOSS_RADIUS) {
            let damage = DAMAGE_BOSS;
            let bx = boss.x;
            let by = boss.y;
            let boss_died = boss.take_damage(damage);
            cues.push(hit_sound(boss_died));
            damage_indicators.push(DamageIndicator::new(bx, by, damage, false));
            if boss_died {
                outbox.push(Payload::BossDead);
            } else {
                outbox.push(Payload::BossHit(boss.health));
            }
            return true;
        }
        false
    }

    /// Applies every area attack that covers the living local player.
    pub fn check_area_attack_collisions(
        &self,
        area_attacks: &Vec<AreaAttack>,
        local_player: &mut Player,
        damage_indicators: &mut Vec<DamageIndicator>,
        outbox: &mut Vec<Payload>,
        cues: &mut Vec<SoundType>,
    )
        ensures
            ({
                let r = area_all(*old(local_player), area_attacks@);
                &&& *final(local_player) == r.0
                &&& final(damage_indicators)@ == old(damage_indicators)@ + r.1
                &&& final(outbox)@ == old(outbox)@ + r.2
                &&& final(cues)@ == old(cues)@ + r.3
            }),
    {
        let mut i: usize = 0;
        while i < area_attacks.len()
            invariant
                i <= area_attacks@.len(),
                ({
                    let r = area_all(*old(local_player), area_attacks@.subrange(0, i as int));
                    &&& *local_player == r.0
                    &&& damage_indicators@ == old(damage_indicators)@ + r.1
                    &&& outbox@ == old(outbox)@ + r.2
                    &&& cues@ == old(cues)@ + r.3
                }),
            decreases area_attacks.len() - i,
        {
            proof {
                assert(area_attacks@.subrange(0, i + 1).drop_last() =~= area_attacks@.subrange(0, i as int));
            }
            let area_attack = area_attacks[i];
            if local_player.is_alive && area_attack.affects_point(local_player.x, local_player.y) {
                let damage = area_attack.damage();
                let died = local_player.take_damage(damage);
                cues.push(hit_sound(died));
                damage_indicators.push(DamageIndicator::new(local_player.x, local_player.y, damage, false));
                outbox.push(Payload::PlayerHit(local_player.id, local_player.health, damage));
            }
            i = i + 1;
        }
        assert(area_attacks@.subrange(0, area_attacks@.len() as int) =~= area_attacks@);
    }
}

} // verus!
