use dungeon::boss::Boss;
use dungeon::bullet::Bullet;
use dungeon::constants::{
    AREA_ATTACK_DURATION, BOSS_MAX_HEALTH, BULLET_RADIUS, DIR_ONE, PIXEL, PLAYER_RADIUS,
    PLAYER_RESPAWN_TIME,
};
use dungeon::effects::{AreaAttack, DamageIndicator};
use dungeon::geometry::Arena;
use dungeon::player::Player;

fn arena() -> Arena {
    Arena::new(800 * PIXEL, 600 * PIXEL).unwrap()
}

#[test]
fn test_area_attack_creation() {
    let attack = AreaAttack::new(100 * PIXEL, 200 * PIXEL);
    assert_eq!(attack.x, 100 * PIXEL);
    assert_eq!(attack.y, 200 * PIXEL);
    assert_eq!(attack.timer, 0);
    assert_eq!(attack.max_time, AREA_ATTACK_DURATION);
}

#[test]
fn test_area_attack_affects_point() {
    let attack = AreaAttack::new(100 * PIXEL, 100 * PIXEL);
    assert!(attack.affects_point(150 * PIXEL, 150 * PIXEL));
    assert!(!attack.affects_point(300 * PIXEL, 300 * PIXEL));
}

#[test]
fn test_damage_indicator_progress() {
    let mut indicator = DamageIndicator::new(0, 0, 10, false);
    assert_eq!(indicator.progress(), 0);

    indicator.timer = indicator.max_time / 2;
    assert_eq!(indicator.progress(), 500);

    indicator.timer = indicator.max_time;
    assert_eq!(indicator.progress(), 1000);
}

#[test]
fn test_bullet_player_collision() {
    let player = Player::new(1, 100 * PIXEL, 100 * PIXEL);
    let bullet = Bullet::new(100 * PIXEL, 100 * PIXEL, DIR_ONE, 0, 2);
    assert!(bullet.collides_with(player.x, player.y, PLAYER_RADIUS));
}

#[test]
fn collision_boundary_is_inclusive() {
    let player = Player::new(1, 0, 0);
    let reach = PLAYER_RADIUS + BULLET_RADIUS;
    let at_edge = Bullet::new(reach, 0, DIR_ONE, 0, 2);
    assert!(at_edge.collides_with(player.x, player.y, PLAYER_RADIUS));
    let beyond = Bullet::new(reach + 1, 0, DIR_ONE, 0, 2);
    assert!(!beyond.collides_with(player.x, player.y, PLAYER_RADIUS));
    // a 3-4-5 triangle: exactly 18 pixels away on a diagonal
    let diagonal = Bullet::new(reach * 3 / 5, reach * 4 / 5, 0, DIR_ONE, 2);
    assert!(diagonal.collides_with(player.x, player.y, PLAYER_RADIUS));
}

#[test]
fn bullet_velocity_and_flight() {
    let mut b = Bullet::new(100 * PIXEL, 100 * PIXEL, DIR_ONE, 0, 7);
    assert_eq!(b.velocity_x, 400);
    assert_eq!(b.velocity_y, 0);
    assert_eq!(b.damage(), 15);
    let gone = b.update(10, arena());
    assert!(!gone);
    assert_eq!(b.x, 100 * PIXEL + 4000);
    assert_eq!(b.lifetime, 2990);
    let boss_bullet = Bullet::new_boss_bullet(0, 0, 0, -DIR_ONE);
    assert_eq!(boss_bullet.velocity_y, -300);
    assert_eq!(boss_bullet.owner_id, 0);
    assert_eq!(boss_bullet.damage(), 10);
}

#[test]
fn bullet_leaves_arena() {
    let mut b = Bullet::new(799 * PIXEL, 100 * PIXEL, DIR_ONE, 0, 7);
    assert!(b.update(10, arena()));
    let mut expiring = Bullet::new(100 * PIXEL, 100 * PIXEL, 0, 0, 7);
    assert!(expiring.update(3000, arena()));
}

#[test]
fn player_damage_and_respawn_countdown() {
    let mut p = Player::new(3, 0, 0);
    assert!(!p.take_damage(40));
    assert_eq!(p.health, 60);
    assert!(p.take_damage(200));
    assert_eq!(p.health, 0);
    assert!(!p.is_alive);
    assert!(!p.take_damage(10));
    assert_eq!(p.respawn_time_remaining(), PLAYER_RESPAWN_TIME);
    p.update_respawn(2000);
    assert_eq!(p.respawn_time_remaining(), 3000);
    assert!(!p.can_respawn());
    p.update_respawn(3000);
    assert!(p.can_respawn());
}

#[test]
fn player_respawn_lands_in_lower_half() {
    let a = arena();
    let mut xs = Vec::new();
    for _ in 0..20 {
        let mut p = Player::new(3, 0, 0);
        p.take_damage(1000);
        p.respawn(a);
        assert!(p.is_alive);
        assert_eq!(p.health, p.max_health);
        assert!(p.x >= PLAYER_RADIUS && p.x <= a.width - PLAYER_RADIUS);
        assert!(p.y >= a.height / 2 && p.y <= a.height - PLAYER_RADIUS);
        xs.push(p.x);
    }
    assert!(xs.iter().any(|&x| x != PLAYER_RADIUS));
    assert!(xs.iter().any(|&x| x != xs[0]));
}

#[test]
fn player_moves_within_arena() {
    let a = arena();
    let mut p = Player::new(1, 20 * PIXEL, 20 * PIXEL);
    p.move_by(-100 * PIXEL, 5 * PIXEL, a);
    assert_eq!(p.x, PLAYER_RADIUS);
    assert_eq!(p.y, 25 * PIXEL);
    assert!(p.set_direction(DIR_ONE, 0));
    assert!(!p.set_direction(DIR_ONE, 0));
}

#[test]
fn arena_rejects_tiny_sizes() {
    assert!(Arena::new(10, 600 * PIXEL).is_none());
    assert!(Arena::new(800 * PIXEL, 600 * PIXEL).is_some());
}

#[test]
fn boss_damage_respects_shield() {
    let mut boss = Boss::new(arena());
    assert_eq!(boss.x, 400 * PIXEL);
    assert_eq!(boss.y, 100 * PIXEL);
    assert_eq!(boss.health, BOSS_MAX_HEALTH);
    boss.activate_shield();
    assert!(!boss.take_damage(100));
    assert_eq!(boss.health, 500);
    boss.shield_active = false;
    assert!(!boss.take_damage(100));
    assert_eq!(boss.health, 400);
    boss.respawn_timer = 1234;
    assert!(boss.take_damage(1000));
    assert_eq!(boss.health, 0);
    assert!(!boss.alive);
    assert_eq!(boss.respawn_timer, 0);
}

#[test]
fn boss_timers_and_warnings() {
    let a = arena();
    let mut boss = Boss::new(a);
    let players: Vec<Player> = Vec::new();
    boss.update(5000, &players, a);
    assert!(boss.should_shoot());
    assert!(boss.should_dash());
    assert!(!boss.should_use_power());
    assert_eq!(boss.power_warning_time(), 1000);
    assert_eq!(boss.dash_warning_time(), 0);
    boss.activate_shield();
    boss.update(3000, &players, a);
    assert!(!boss.shield_active);
    boss.take_damage(10000);
    assert_eq!(boss.respawn_time_remaining(), 5000);
    boss.update(5000, &players, a);
    assert!(boss.should_respawn());
    boss.respawn(a);
    assert!(boss.alive);
    assert_eq!(boss.health, 500);
}

#[test]
fn boss_walks_and_dashes() {
    let a = arena();
    let mut boss = Boss::new(a);
    boss.target_x = boss.x + 100 * PIXEL;
    boss.target_y = boss.y;
    let players: Vec<Player> = Vec::new();
    boss.update(100, &players, a);
    assert_eq!(boss.x, 400 * PIXEL + 6000);
    boss.start_dash(boss.x, boss.y + 200 * PIXEL);
    boss.update(100, &players, a);
    assert_eq!(boss.y, 100 * PIXEL + 60000);
    boss.update(200, &players, a);
    assert_eq!(boss.y, 280 * PIXEL);
    boss.update(100, &players, a);
    assert_eq!(boss.y, 340 * PIXEL);
    assert!(boss.is_dashing);
    boss.update(50, &players, a);
    assert_eq!(boss.y, 310 * PIXEL);
    boss.update(10, &players, a);
    assert!(!boss.is_dashing);
    assert_eq!(boss.y, 310 * PIXEL);
    assert_eq!(boss.dash_timer, 0);
}

#[test]
fn boss_steps_take_the_full_stride() {
    let a = arena();
    let players: Vec<Player> = Vec::new();
    let mut walker = Boss::new(a);
    walker.x = 100 * PIXEL;
    walker.y = 200 * PIXEL;
    walker.target_x = 120 * PIXEL;
    walker.target_y = 200 * PIXEL;
    walker.update(400, &players, a);
    assert_eq!(walker.x, 124 * PIXEL);
    let mut dasher = Boss::new(a);
    dasher.x = 100 * PIXEL;
    dasher.y = 200 * PIXEL;
    dasher.start_dash(120 * PIXEL, 200 * PIXEL);
    dasher.update(100, &players, a);
    assert_eq!(dasher.x, 160 * PIXEL);
    assert!(dasher.is_dashing);
}

#[test]
fn boss_retargets_near_nearest_player() {
    let a = arena();
    let mut boss = Boss::new(a);
    let players = vec![Player::new(5, 700 * PIXEL, 500 * PIXEL)];
    boss.update(1500, &players, a);
    assert_eq!(boss.move_timer, 0);
    assert!((boss.target_x - 700 * PIXEL).abs() <= 250 * PIXEL);
    assert!(boss.target_y <= 550 * PIXEL && boss.target_y >= 250 * PIXEL);
}

#[test]
fn boss_distance_and_collision() {
    let boss = Boss::new(arena());
    assert_eq!(boss.distance_to(boss.x + 3000, boss.y + 4000), 5000);
    assert!(boss.collides_with_point(boss.x + 63 * PIXEL, boss.y, 3 * PIXEL));
    assert!(!boss.collides_with_point(boss.x + 63 * PIXEL + 1, boss.y, 3 * PIXEL));
}

#[test]
fn boss_target_is_offset_then_kept_off_the_edges() {
    let a = arena();
    let mut boss = Boss::new(a);
    boss.set_target_near(700 * PIXEL, 100 * PIXEL, 200 * PIXEL, -100 * PIXEL, a);
    assert_eq!((boss.target_x, boss.target_y), (750 * PIXEL, 50 * PIXEL));
    boss.set_target_near(300 * PIXEL, 300 * PIXEL, -20 * PIXEL, 10 * PIXEL, a);
    assert_eq!((boss.target_x, boss.target_y), (280 * PIXEL, 310 * PIXEL));
    assert_eq!(dungeon::boss::near_edge_clamp(0, -5, 600 * PIXEL), 50 * PIXEL);
}

#[test]
fn no_living_player_means_no_target() {
    let boss = Boss::new(arena());
    let mut p = Player::new(2, 0, 0);
    p.take_damage(1000);
    assert!(boss.find_nearest_player_to_boss(&vec![p]).is_none());
}

#[test]
fn collision_accepts_large_radii() {
    let b = Bullet::new(0, 0, DIR_ONE, 0, 2);
    assert!(b.collides_with(i32::MAX, 0, i32::MAX));
}

#[test]
fn respawn_at_restores_the_player_there() {
    let mut p = Player::new(3, 0, 0);
    p.take_damage(1000);
    p.kills = 2;
    p.respawn_at(40 * PIXEL, 500 * PIXEL);
    assert!(p.is_alive);
    assert_eq!((p.x, p.y, p.health, p.respawn_timer, p.kills), (40 * PIXEL, 500 * PIXEL, 100, 0, 2));
}
