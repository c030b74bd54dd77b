//! Game configuration.
//!
//! Units: lengths in milli-pixels, durations in milliseconds, speeds in
//! milli-pixels per millisecond, directions scaled by `DIR_ONE`.

use vstd::prelude::*;

verus! {

/// One pixel, in milli-pixels.
pub const PIXEL: i32 = 1000;

/// The length of a unit direction vector.
pub const DIR_ONE: i32 = 1000;

pub const PLAYER_RADIUS: i32 = 15000;
pub const PLAYER_SPEED: i32 = 200;
pub const PLAYER_MAX_HEALTH: u32 = 100;
pub const PLAYER_RESPAWN_TIME: u32 = 5000;

pub const BOSS_RADIUS: i32 = 60000;
pub const BOSS_MAX_HEALTH: u32 = 500;
pub const BOSS_SPEED: i32 = 60;
pub const BOSS_DASH_SPEED: i32 = 600;
pub const BOSS_SHOOT_INTERVAL: u32 = 1400;
pub const BOSS_MOVE_INTERVAL: u32 = 1500;
pub const BOSS_POWER_INTERVAL: u32 = 6000;
pub const BOSS_DASH_INTERVAL: u32 = 4000;
pub const BOSS_SHIELD_DURATION: u32 = 3000;
pub const BOSS_RESPAWN_TIME: u32 = 5000;
pub const BOSS_SPAWN_Y: i32 = 100000;
pub const BOSS_MOVEMENT_VARIANCE: i32 = 250000;
pub const BOSS_MIN_DISTANCE_FROM_EDGE: i32 = 50000;
pub const BOSS_DASH_STOP_DISTANCE: i32 = 10000;
/// Below this distance from its movement target the boss holds position.
pub const BOSS_ARRIVE_DISTANCE: i32 = 5000;

pub const BULLET_RADIUS: i32 = 3000;
pub const BOSS_BULLET_RADIUS: i32 = 5000;
pub const PLAYER_BULLET_SPEED: i32 = 400;
pub const BOSS_BULLET_SPEED: i32 = 300;
pub const PLAYER_BULLET_LIFETIME: u32 = 3000;
pub const BOSS_BULLET_LIFETIME: u32 = 4000;
pub const DAMAGE_PLAYER: u32 = 15;
pub const DAMAGE_BOSS: u32 = 10;
pub const DAMAGE_BOSS_TO_PLAYER: u32 = 10;

pub const AREA_ATTACK_RADIUS: i32 = 100000;
pub const AREA_ATTACK_DURATION: u32 = 1000;
pub const AREA_ATTACK_DAMAGE: u32 = 20;

pub const DAMAGE_INDICATOR_DURATION: u32 = 1500;
pub const DAMAGE_INDICATOR_FLOAT_SPEED: i32 = 30;

/// Number of bullets in the boss's multi-shot fan.
pub const MULTI_SHOT_BULLET_COUNT: usize = 5;
/// Scale of the rotation coefficients below.
pub const ROT_ONE: i64 = 1000000;
/// cos(0.2 rad), the angular step of the multi-shot fan, scaled by `ROT_ONE`.
pub const SPREAD_COS: i64 = 980067;
/// sin(0.2 rad), scaled by `ROT_ONE`.
pub const SPREAD_SIN: i64 = 198669;

/// Time before a boss power or dash during which a warning is shown.
pub const WARNING_DISPLAY_TIME: u32 = 2000;

/// Largest number of inbound messages applied in one simulation step.
pub const MAX_MESSAGES_PER_FRAME: usize = 100;

/// Progress ratios are expressed in thousandths.
pub const PROGRESS_ONE: u32 = 1000;

} // verus!
