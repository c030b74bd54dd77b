//! Projectiles fired by players and by the boss.

use vstd::prelude::*;
use crate::constants::{
    BOSS_BULLET_LIFETIME, BOSS_BULLET_RADIUS, BOSS_BULLET_SPEED, BULLET_RADIUS,
    DAMAGE_BOSS_TO_PLAYER, DAMAGE_PLAYER, DIR_ONE, PLAYER_BULLET_LIFETIME, PLAYER_BULLET_SPEED,
};
use crate::geometry::{
    dist_sq, distance_sq, div_trunc, isqrt, sat_i32, saturate, sqrt_floor, trunc_div, within,
    within_spec, Arena,
};

verus! {

/// Owner id that marks a bullet fired by the boss.
pub const BOSS_OWNER: u32 = 0;

#[derive(Debug, Clone, Copy, PartialEq, Eq, Structural)]
pub struct Bullet {
    pub x: i32,
    pub y: i32,
    /// Milli-pixels per millisecond.
    pub velocity_x: i32,
    pub velocity_y: i32,
    /// Milliseconds left before the bullet expires.
    pub lifetime: u32,
    pub owner_id: u32,
    pub is_boss_bullet: bool,
}

/// The velocity of a bullet fired along `direction` at `speed`.
pub open spec fn velocity(direction: int, speed: int) -> int {
    trunc_div(direction * speed, DIR_ONE as int)
}

pub open spec fn player_bullet(x: i32, y: i32, direction_x: i32, direction_y: i32, owner_id: u32) -> Bullet {
    Bullet {
        x,
        y,
        velocity_x: velocity(direction_x as int, PLAYER_BULLET_SPEED as int) as i32,
        velocity_y: velocity(direction_y as int, PLAYER_BULLET_SPEED as int) as i32,
        lifetime: PLAYER_BULLET_LIFETIME,
        owner_id,
        is_boss_bullet: false,
    }
}

pub open spec fn boss_bullet(x: i32, y: i32, direction_x: i32, direction_y: i32) -> Bullet {
    Bullet {
        x,
        y,
        velocity_x: velocity(direction_x as int, BOSS_BULLET_SPEED as int) as i32,
        velocity_y: velocity(direction_y as int, BOSS_BULLET_SPEED as int) as i32,
        lifetime: BOSS_BULLET_LIFETIME,
        owner_id: BOSS_OWNER,
        is_boss_bullet: true,
    }
}

pub open spec fn bullet_radius(b: Bullet) -> int {
    if b.is_boss_bullet {
        BOSS_BULLET_RADIUS as int
    } else {
        BULLET_RADIUS as int
    }
}

/// The bullet touches a disc of `radius` centred on the point: the distance
/// between centres is at most the sum of the radii.
pub open spec fn bullet_hits(b: Bullet, x: int, y: int, radius: int) -> bool {
    within_spec(b.x as int, b.y as int, x, y, bullet_radius(b) + radius)
}

pub open spec fn bullet_damage(b: Bullet) -> u32 {
    if b.is_boss_bullet {
        DAMAGE_BOSS_TO_PLAYER
    } else {
        DAMAGE_PLAYER
    }
}

/// The bullet after flying for `dt` milliseconds.
pub open spec fn bullet_moved(b: Bullet, dt: u32) -> Bullet {
    Bullet {
        x: sat_i32(b.x + b.velocity_x * dt) as i32,
        y: sat_i32(b.y + b.velocity_y * dt) as i32,
        lifetime: b.lifetime.saturating_sub(dt),
        ..b
    }
}

/// The bullet has expired or left the arena.
pub open spec fn bullet_gone(b: Bullet, arena: Arena) -> bool {
    b.lifetime == 0 || off_screen(b.x as int, b.y as int, arena)
}

pub open spec fn off_screen(x: int, y: int, arena: Arena) -> bool {
    x < 0 || x > arena.width || y < 0 || y > arena.height
}

/// A bullet whose velocity is `direction * speed` in `DIR_ONE` units.
fn scaled_velocity(direction: i32, speed: i32) -> (r: i32)
    requires
        0 <= speed <= DIR_ONE,
    ensures
        r == velocity(direction as int, speed as int),
{
    assert(-(crate::geometry::abs(direction as int) * 1000) <= direction * speed
        <= crate::geometry::abs(direction as int) * 1000) by (nonlinear_arith)
        requires
            0 <= speed <= 1000,
    ;
    assert(-0x8000_0000 * 1000 <= direction * speed <= 0x8000_0000 * 1000) by (nonlinear_arith)
        requires
            -0x8000_0000 <= direction <= 0x8000_0000,
            0 <= speed <= 1000,
    ;
    let p: i128 = direction as i128 * speed as i128;
    proof {
        crate::geometry::lemma_trunc_div_bound(p as int, 1000, crate::geometry::abs(direction as int));
    }
    let q = div_trunc(p, DIR_ONE as i128);
    q as i32
}

impl Bullet {
    /// A player's bullet.
    pub fn new(x: i32, y: i32, direction_x: i32, direction_y: i32, owner_id: u32) -> (r: Bullet)
        ensures
            r.x == x && r.y == y,
            r.velocity_x == velocity(direction_x as int, PLAYER_BULLET_SPEED as int),
            r.velocity_y == velocity(direction_y as int, PLAYER_BULLET_SPEED as int),
            r.lifetime == PLAYER_BULLET_LIFETIME,
            r.owner_id == owner_id,
            !r.is_boss_bullet,
            r == player_bullet(x, y, direction_x, direction_y, owner_id),
    {
        Bullet {
            x,
            y,
            velocity_x: scaled_velocity(direction_x, PLAYER_BULLET_SPEED),
            velocity_y: scaled_velocity(direction_y, PLAYER_BULLET_SPEED),
            lifetime: PLAYER_BULLET_LIFETIME,
            owner_id,
            is_boss_bullet: false,
        }
    }

    /// A bullet fired by the boss.
    pub fn new_boss_bullet(x: i32, y: i32, direction_x: i32, direction_y: i32) -> (r: Bullet)
        ensures
            r.x == x && r.y == y,
            r.velocity_x == velocity(direction_x as int, BOSS_BULLET_SPEED as int),
            r.velocity_y == velocity(direction_y as int, BOSS_BULLET_SPEED as int),
            r.lifetime == BOSS_BULLET_LIFETIME,
            r.owner_id == BOSS_OWNER,
            r.is_boss_bullet,
            r == boss_bullet(x, y, direction_x, direction_y),
    {
        Bullet {
            x,
            y,
            velocity_x: scaled_velocity(direction_x, BOSS_BULLET_SPEED),
            velocity_y: scaled_velocity(direction_y, BOSS_BULLET_SPEED),
            lifetime: BOSS_BULLET_LIFETIME,
            owner_id: BOSS_OWNER,
            is_boss_bullet: true,
        }
    }

    /// Moves the bullet for `dt` milliseconds and ages it; says whether it
    /// should be removed (expired or outside the arena).
    pub fn update(&mut self, dt: u32, arena: Arena) -> (r: bool)
        ensures
            *final(self) == bullet_moved(*old(self), dt),
            r == bullet_gone(*final(self), arena),
    {
        assert(-0x8000_0000 * 0x1_0000_0000 <= self.velocity_x * dt <= 0x8000_0000 * 0x1_0000_0000)
            by (nonlinear_arith)
            requires
                -0x8000_0000 <= self.velocity_x <= 0x8000_0000,
                0 <= dt <= 0x1_0000_0000,
        ;
        assert(-0x8000_0000 * 0x1_0000_0000 <= self.velocity_y * dt <= 0x8000_0000 * 0x1_0000_0000)
            by (nonlinear_arith)
            requires
                -0x8000_0000 <= self.velocity_y <= 0x8000_0000,
                0 <= dt <= 0x1_0000_0000,
        ;
        let dx: i128 = self.velocity_x as i128 * dt as i128;
        let dy: i128 = self.velocity_y as i128 * dt as i128;
        self.x = saturate(self.x as i128 + dx);
        self.y = saturate(self.y as i128 + dy);
        self.lifetime = self.lifetime.saturating_sub(dt);
        self.lifetime == 0 || self.is_off_screen(arena)
    }

    fn is_off_screen(&self, arena: Arena) -> (r: bool)
        ensures
            r == off_screen(self.x as int, self.y as int, arena),
    {
        self.x < 0 || self.x > arena.width || self.y < 0 || self.y > arena.height
    }

    /// Distance to a point, rounded down.
    pub fn distance_to(&self, x: i32, y: i32) -> (r: u128)
        ensures
            r == sqrt_floor(dist_sq(self.x as int, self.y as int, x as int, y as int)),
    {
        isqrt(distance_sq(self.x, self.y, x, y))
    }

    /// Whether the bullet touches a disc of `radius` at the point; the
    /// boundary counts as a hit.
    pub fn collides_with(&self, x: i32, y: i32, radius: i32) -> (r: bool)
        requires
            0 <= radius,
        ensures
            r == bullet_hits(*self, x as int, y as int, radius as int),
    {
        let bullet_radius = if self.is_boss_bullet {
            BOSS_BULLET_RADIUS
        } else {
            BULLET_RADIUS
        };
        within(self.x, self.y, x, y, bullet_radius as i64 + radius as i64)
    }

    /// Damage that the bullet deals on a hit.
    pub fn damage(&self) -> (r: u32)
        ensures
            r == bullet_damage(*self),
    {
        if self.is_boss_bullet {
            DAMAGE_BOSS_TO_PLAYER
        } else {
            DAMAGE_PLAYER
        }
    }
}

/// A bullet whose centre is exactly the sum of the two radii away from a
/// target's centre hits it: the collision test is closed.
pub proof fn lemma_collision_boundary_inclusive(b: Bullet, x: int, y: int, radius: int)
    requires
        radius >= 0,
        dist_sq(b.x as int, b.y as int, x, y) == (bullet_radius(b) + radius) * (bullet_radius(
            b,
        ) + radius),
    ensures
        bullet_hits(b, x, y, radius),
{
}

} // verus!
