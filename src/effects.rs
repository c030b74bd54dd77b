//! Area attacks and floating damage numbers.

use vstd::prelude::*;
use crate::constants::{
    AREA_ATTACK_DAMAGE, AREA_ATTACK_DURATION, AREA_ATTACK_RADIUS, DAMAGE_INDICATOR_DURATION,
    DAMAGE_INDICATOR_FLOAT_SPEED, PROGRESS_ONE,
};
use crate::geometry::{saturate, sat_i32, within, within_spec};

verus! {

/// A ground attack of the boss: a fixed radius around a centre, shown for a
/// fixed time.
#[derive(Debug, Clone, Copy, PartialEq, Eq, Structural)]
pub struct AreaAttack {
    pub x: i32,
    pub y: i32,
    /// Milliseconds since the attack appeared.
    pub timer: u32,
    pub max_time: u32,
}

/// A damage number that floats up and fades.
#[derive(Debug, Clone, Copy, PartialEq, Eq, Structural)]
pub struct DamageIndicator {
    pub x: i32,
    pub y: i32,
    pub damage: u32,
    pub timer: u32,
    pub max_time: u32,
    pub from_player: bool,
}

/// Elapsed share of a duration in thousandths, at most one whole.
pub open spec fn progress_spec(timer: u32, max_time: u32) -> u32 {
    if max_time == 0 || timer >= max_time {
        PROGRESS_ONE
    } else {
        (timer as int * PROGRESS_ONE as int / max_time as int) as u32
    }
}

fn progress_of(timer: u32, max_time: u32) -> (r: u32)
    ensures
        r == progress_spec(timer, max_time),
        r <= PROGRESS_ONE,
{
    if max_time == 0 || timer >= max_time {
        PROGRESS_ONE
    } else {
        let p: u64 = timer as u64 * 1000;
        let q: u64 = p / max_time as u64;
        assert(q <= 1000) by (nonlinear_arith)
            requires
                q == (timer * 1000) / (max_time as int),
                timer < max_time,
                max_time > 0,
        ;
        q as u32
    }
}

impl AreaAttack {
    pub fn new(x: i32, y: i32) -> (r: AreaAttack)
        ensures
            r == (AreaAttack { x, y, timer: 0, max_time: AREA_ATTACK_DURATION }),
    {
        AreaAttack { x, y, timer: 0, max_time: AREA_ATTACK_DURATION }
    }

    /// Ages the attack; says whether it has run its course.
    pub fn update(&mut self, dt: u32) -> (r: bool)
        ensures
            *final(self) == (AreaAttack { timer: old(self).timer.saturating_add(dt), ..*old(self) }),
            r == (final(self).timer >= final(self).max_time),
    {
        self.timer = self.timer.saturating_add(dt);
        self.timer >= self.max_time
    }

    /// How far the animation has run, in thousandths.
    pub fn progress(&self) -> (r: u32)
        ensures
            r == progress_spec(self.timer, self.max_time),
    {
        progress_of(self.timer, self.max_time)
    }

    /// Whether the point lies within the attack's radius (boundary included).
    pub fn affects_point(&self, x: i32, y: i32) -> (r: bool)
        ensures
            r == within_spec(self.x as int, self.y as int, x as int, y as int, AREA_ATTACK_RADIUS as int),
    {
        within(self.x, self.y, x, y, AREA_ATTACK_RADIUS as i64)
    }

    pub fn damage(&self) -> (r: u32)
        ensures
            r == AREA_ATTACK_DAMAGE,
    {
        AREA_ATTACK_DAMAGE
    }
}

impl DamageIndicator {
    pub fn new(x: i32, y: i32, damage: u32, from_player: bool) -> (r: DamageIndicator)
        ensures
            r == (DamageIndicator {
                x,
                y,
                damage,
                timer: 0,
                max_time: DAMAGE_INDICATOR_DURATION,
                from_player,
            }),
    {
        DamageIndicator { x, y, damage, timer: 0, max_time: DAMAGE_INDICATOR_DURATION, from_player }
    }

    /// Ages the indicator and floats it upward; says whether it has faded.
    pub fn update(&mut self, dt: u32) -> (r: bool)
        ensures
            *final(self) == (DamageIndicator {
                timer: old(self).timer.saturating_add(dt),
                y: sat_i32(old(self).y - DAMAGE_INDICATOR_FLOAT_SPEED * dt) as i32,
                ..*old(self)
            }),
            r == (final(self).timer >= final(self).max_time),
    {
        self.timer = self.timer.saturating_add(dt);
        assert(0 <= 30 * dt <= 30 * 0x1_0000_0000) by (nonlinear_arith)
            requires
                0 <= dt <= 0x1_0000_0000,
        ;
        let rise: i128 = DAMAGE_INDICATOR_FLOAT_SPEED as i128 * dt as i128;
        self.y = saturate(self.y as i128 - rise);
        self.timer >= self.max_time
    }

    /// How far the fade has run, in thousandths.
    pub fn progress(&self) -> (r: u32)
        ensures
            r == progress_spec(self.timer, self.max_time),
    {
        progress_of(self.timer, self.max_time)
    }
}

} // verus!
