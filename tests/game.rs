use dungeon::audio::SoundType;
use dungeon::boss::Boss;
use dungeon::bullet::Bullet;
use dungeon::collision::CollisionSystem;
use dungeon::constants::{DIR_ONE, PIXEL, SPREAD_COS, SPREAD_SIN, ROT_ONE, MAX_MESSAGES_PER_FRAME};
use dungeon::effects::{AreaAttack, DamageIndicator};
use dungeon::game_state::{spread_directions, GameState};
use dungeon::geometry::Arena;
use dungeon::input::{InputState, InputSystem};
use dungeon::leaderboard::{leaderboard, Standing};
use dungeon::message::Payload;
use dungeon::network::NetworkSystem;
use dungeon::player::Player;

fn arena() -> Arena {
    Arena::new(800 * PIXEL, 600 * PIXEL).unwrap()
}

#[test]
fn test_sound_type_file_paths() {
    assert_eq!(SoundType::PlayerShoot.file_path(), "assets/bullet.wav");
    assert_eq!(SoundType::BossShoot.file_path(), "assets/boss_bullet.wav");
    assert_eq!(SoundType::Hit.file_path(), "assets/hit.wav");
    assert_eq!(SoundType::Explosion.file_path(), "assets/explosion.wav");
    assert_eq!(SoundType::Join.file_path(), "assets/join.wav");
    assert_eq!(SoundType::PowerUp.file_path(), "assets/powerup.wav");
    assert_eq!(SoundType::Dash.file_path(), "assets/dash.wav");
}

#[test]
fn test_collision_system_creation() {
    let system = CollisionSystem::new();
    assert_eq!(system.removed_count(), 0);
}

#[test]
fn test_game_state_creation() {
    let game_state = GameState::new(1, arena());
    assert_eq!(game_state.local_player.id, 1);
    assert_eq!(game_state.remote_players.len(), 0);
    assert_eq!(game_state.bullets.len(), 0);
    assert!(game_state.boss.alive);
}

#[test]
fn test_find_nearest_player_to_boss() {
    let game_state = GameState::new(1, Arena::new(300 * PIXEL, 300 * PIXEL).unwrap());
    let players = vec![
        Player::new(2, 100 * PIXEL, 100 * PIXEL),
        Player::new(3, 200 * PIXEL, 200 * PIXEL),
    ];
    let nearest = game_state.find_nearest_player_to_boss(&players);
    assert!(nearest.is_some());
    assert_eq!(nearest.unwrap().id, 2);
}

#[test]
fn nearest_player_tie_goes_to_first() {
    let game_state = GameState::new(1, arena());
    let mut dead = Player::new(9, 400 * PIXEL, 100 * PIXEL);
    dead.take_damage(1000);
    let players = vec![
        dead,
        Player::new(4, 300 * PIXEL, 100 * PIXEL),
        Player::new(5, 500 * PIXEL, 100 * PIXEL),
    ];
    assert_eq!(game_state.find_nearest_player_to_boss(&players).unwrap().id, 4);
}

#[test]
fn test_input_system_creation() {
    let _system = InputSystem;
}

#[test]
fn test_network_system_creation() {
    let _system = NetworkSystem;
}

#[test]
fn test_handle_player_join() {
    let local_player = Player::new(1, 100 * PIXEL, 100 * PIXEL);
    let mut remote_players = Vec::new();
    let mut cues = Vec::new();

    NetworkSystem::handle_player_join(2, &local_player, &mut remote_players, &mut cues, arena());
    assert_eq!(remote_players.len(), 1);
    assert_eq!(remote_players[0].id, 2);

    NetworkSystem::handle_player_join(2, &local_player, &mut remote_players, &mut cues, arena());
    assert_eq!(remote_players.len(), 1);
    assert_eq!(cues, vec![SoundType::Join]);
}

#[test]
fn join_for_local_player_is_ignored() {
    let local_player = Player::new(1, 0, 0);
    let mut remote_players = Vec::new();
    let mut cues = Vec::new();
    NetworkSystem::handle_player_join(1, &local_player, &mut remote_players, &mut cues, arena());
    assert!(remote_players.is_empty());
}

#[test]
fn test_handle_player_leave() {
    let mut remote_players = vec![
        Player::new(2, 100 * PIXEL, 100 * PIXEL),
        Player::new(3, 200 * PIXEL, 200 * PIXEL),
    ];
    NetworkSystem::handle_player_leave(2, &mut remote_players);
    assert_eq!(remote_players.len(), 1);
    assert_eq!(remote_players[0].id, 3);
}

#[test]
fn move_for_unknown_player_creates_it() {
    let local_player = Player::new(1, 0, 0);
    let mut remote_players = Vec::new();
    NetworkSystem::handle_player_move(7, 50, 60, &local_player, &mut remote_players);
    assert_eq!(remote_players.len(), 1);
    assert_eq!((remote_players[0].x, remote_players[0].y), (50, 60));
    NetworkSystem::handle_player_move(7, 70, 80, &local_player, &mut remote_players);
    assert_eq!(remote_players.len(), 1);
    assert_eq!((remote_players[0].x, remote_players[0].y), (70, 80));
    NetworkSystem::handle_player_move(1, 70, 80, &local_player, &mut remote_players);
    assert_eq!(remote_players.len(), 1);
}

#[test]
fn relayed_messages_update_state() {
    let mut g = GameState::new(1, arena());
    let msgs = vec![
        Payload::Join(2),
        Payload::PlayerHit(2, 0, 15),
        Payload::PlayerKill(1, 2),
        Payload::BossHit(321),
        Payload::BossShield(true),
        Payload::BossMultiShoot(0, 0, vec![(DIR_ONE, 0), (0, DIR_ONE)]),
        Payload::Shoot(2, 5, 5, DIR_ONE, 0),
        Payload::Shoot(1, 5, 5, DIR_ONE, 0),
        Payload::BossSpawn(10 * PIXEL, 20 * PIXEL),
    ];
    let n = g.process_network_messages(&msgs, arena());
    assert_eq!(n, msgs.len());
    assert_eq!(g.remote_players.len(), 1);
    assert!(!g.remote_players[0].is_alive);
    assert_eq!(g.remote_players[0].health, 0);
    assert_eq!(g.damage_indicators.len(), 1);
    assert_eq!(g.bullets.len(), 3);
    assert_eq!(g.boss.x, 10 * PIXEL);
    assert_eq!(g.boss.y, 20 * PIXEL);
    assert_eq!(g.boss.health, 500);
    assert!(!g.boss.shield_active);
}

#[test]
fn message_processing_is_capped_per_frame() {
    let mut g = GameState::new(1, arena());
    let msgs: Vec<Payload> = (0..150).map(|i| Payload::BossHit(i)).collect();
    let n = g.process_network_messages(&msgs, arena());
    assert_eq!(n, MAX_MESSAGES_PER_FRAME);
    assert_eq!(g.boss.health, 99);
}

#[test]
fn area_attack_message_zaps_local_player_once() {
    let mut local = Player::new(1, 100 * PIXEL, 100 * PIXEL);
    let mut remotes = Vec::new();
    let mut boss = Boss::new(arena());
    let mut bullets: Vec<Bullet> = Vec::new();
    let mut areas: Vec<AreaAttack> = Vec::new();
    let mut indicators: Vec<DamageIndicator> = Vec::new();
    let mut cues = Vec::new();
    NetworkSystem::handle_message(
        &Payload::BossAreaAttack(150 * PIXEL, 150 * PIXEL),
        &mut local,
        &mut remotes,
        &mut boss,
        &mut bullets,
        &mut areas,
        &mut indicators,
        &mut cues,
        arena(),
    );
    assert_eq!(local.health, 80);
    assert_eq!(areas.len(), 1);
    assert_eq!(indicators.len(), 1);
}

#[test]
fn boss_scenario_hits_then_death() {
    let a = arena();
    let mut g = GameState::new(1, a);
    assert_eq!((g.boss.x, g.boss.y), (400 * PIXEL, 100 * PIXEL));
    assert_eq!((g.boss.health, g.boss.max_health), (500, 500));
    let (bx, by) = (g.boss.x, g.boss.y);

    let mut system = CollisionSystem::new();
    let mut bullets = vec![Bullet::new(bx, by, DIR_ONE, 0, 1)];
    system.check_bullet_collisions(
        &mut bullets,
        &mut g.local_player,
        &mut g.remote_players,
        &mut g.boss,
        &mut g.damage_indicators,
        &mut g.outbox,
        &mut g.cues,
    );
    assert_eq!(g.boss.health, 490);
    assert!(g.boss.alive);
    assert!(bullets.is_empty());
    assert_eq!(g.outbox, vec![Payload::BossHit(490)]);

    let mut g5 = GameState::new(1, a);
    let mut five: Vec<Bullet> = (0..5).map(|_| Bullet::new(bx, by, DIR_ONE, 0, 1)).collect();
    system.check_bullet_collisions(
        &mut five,
        &mut g5.local_player,
        &mut g5.remote_players,
        &mut g5.boss,
        &mut g5.damage_indicators,
        &mut g5.outbox,
        &mut g5.cues,
    );
    assert_eq!(g5.boss.health, 450);
    assert!(five.is_empty());
    assert_eq!(system.removed_count(), 5);

    g.boss.health = 8;
    g.outbox.clear();
    let mut last = vec![Bullet::new(bx, by, DIR_ONE, 0, 1)];
    system.check_bullet_collisions(
        &mut last,
        &mut g.local_player,
        &mut g.remote_players,
        &mut g.boss,
        &mut g.damage_indicators,
        &mut g.outbox,
        &mut g.cues,
    );
    assert_eq!(g.boss.health, 0);
    assert!(!g.boss.alive);
    assert_eq!(g.outbox, vec![Payload::BossDead]);
    assert_eq!(g.cues.last(), Some(&SoundType::Explosion));
}

#[test]
fn pvp_kill_is_attributed() {
    let mut system = CollisionSystem::new();
    let mut local = Player::new(1, 100 * PIXEL, 100 * PIXEL);
    let mut victim = Player::new(2, 300 * PIXEL, 300 * PIXEL);
    victim.health = 15;
    let mut remotes = vec![victim];
    let mut boss = Boss::new(arena());
    let mut inds = Vec::new();
    let mut outbox = Vec::new();
    let mut cues = Vec::new();
    let mut bullets = vec![
        Bullet::new(300 * PIXEL, 300 * PIXEL, DIR_ONE, 0, 1),
        Bullet::new(700 * PIXEL, 500 * PIXEL, DIR_ONE, 0, 1),
    ];
    system.check_bullet_collisions(&mut bullets, &mut local, &mut remotes, &mut boss, &mut inds, &mut outbox, &mut cues);
    assert_eq!(outbox, vec![Payload::PlayerHit(2, 0, 15), Payload::PlayerKill(1, 2)]);
    assert_eq!(local.kills, 1);
    assert_eq!(bullets.len(), 1);
    assert_eq!(remotes[0].health, 15);
}

#[test]
fn incoming_fatal_bullet_credits_shooter() {
    let mut system = CollisionSystem::new();
    let mut local = Player::new(1, 100 * PIXEL, 100 * PIXEL);
    local.health = 10;
    let mut remotes = vec![Player::new(2, 300 * PIXEL, 300 * PIXEL)];
    let mut boss = Boss::new(arena());
    let mut inds = Vec::new();
    let mut outbox = Vec::new();
    let mut cues = Vec::new();
    let mut bullets = vec![Bullet::new(100 * PIXEL, 100 * PIXEL, DIR_ONE, 0, 2)];
    system.check_bullet_collisions(&mut bullets, &mut local, &mut remotes, &mut boss, &mut inds, &mut outbox, &mut cues);
    assert!(!local.is_alive);
    assert_eq!(remotes[0].kills, 1);
    assert_eq!(outbox, vec![Payload::PlayerHit(1, 0, 15)]);
    assert!(inds[0].from_player);
}

#[test]
fn boss_bullet_hits_local_player() {
    let mut system = CollisionSystem::new();
    let mut local = Player::new(1, 100 * PIXEL, 100 * PIXEL);
    let mut remotes = Vec::new();
    let mut boss = Boss::new(arena());
    let mut inds = Vec::new();
    let mut outbox = Vec::new();
    let mut cues = Vec::new();
    let mut bullets = vec![Bullet::new_boss_bullet(110 * PIXEL, 100 * PIXEL, DIR_ONE, 0)];
    system.check_bullet_collisions(&mut bullets, &mut local, &mut remotes, &mut boss, &mut inds, &mut outbox, &mut cues);
    assert_eq!(local.health, 90);
    assert_eq!(outbox, vec![Payload::PlayerHit(1, 90, 10)]);
    assert_eq!(cues, vec![SoundType::Hit]);
}

#[test]
fn area_attack_collisions_damage_local_player() {
    let system = CollisionSystem::new();
    let mut local = Player::new(1, 100 * PIXEL, 100 * PIXEL);
    let attacks = vec![AreaAttack::new(100 * PIXEL, 200 * PIXEL), AreaAttack::new(500 * PIXEL, 500 * PIXEL)];
    let mut inds = Vec::new();
    let mut outbox = Vec::new();
    let mut cues = Vec::new();
    system.check_area_attack_collisions(&attacks, &mut local, &mut inds, &mut outbox, &mut cues);
    assert_eq!(local.health, 80);
    assert_eq!(outbox, vec![Payload::PlayerHit(1, 80, 20)]);
}

#[test]
fn multi_shot_fan_due_east() {
    let a = arena();
    let mut g = GameState::new(1, a);
    let (bx, by) = (g.boss.x, g.boss.y);
    let players = vec![Player::new(2, bx + 200 * PIXEL, by)];
    g.execute_boss_multi_shot(&players);
    assert_eq!(g.bullets.len(), 5);
    let dirs = match g.outbox.last() {
        Some(Payload::BossMultiShoot(x, y, d)) => {
            assert_eq!((*x, *y), (bx, by));
            d.clone()
        }
        _ => panic!("no multi-shot message"),
    };
    assert_eq!(dirs.len(), 5);
    assert_eq!(dirs[2], (DIR_ONE, 0));
    assert_eq!(dirs[1], (dirs[3].0, -dirs[3].1));
    assert_eq!(dirs[0], (dirs[4].0, -dirs[4].1));
    assert!(dirs[3].1 > 0 && dirs[4].1 > dirs[3].1);
    let c = SPREAD_COS;
    let s = SPREAD_SIN;
    let step = |v: (i32, i32)| {
        (
            ((v.0 as i64 * c - v.1 as i64 * s) / ROT_ONE) as i32,
            ((v.0 as i64 * s + v.1 as i64 * c) / ROT_ONE) as i32,
        )
    };
    assert_eq!(dirs[3], step(dirs[2]));
    assert_eq!(dirs[4], step(dirs[3]));
    assert_eq!(dirs[3], (980, 198));
    assert_eq!(spread_directions(DIR_ONE, 0), dirs);
    assert_eq!(g.cues, vec![SoundType::PowerUp]);
}

#[test]
fn boss_shoots_at_nearest_player() {
    let a = arena();
    let mut g = GameState::new(1, a);
    g.boss.shoot_timer = 2000;
    let (bx, by) = (g.boss.x, g.boss.y);
    let players = vec![Player::new(2, bx, by + 300 * PIXEL)];
    g.handle_boss_shooting(&players);
    assert_eq!(g.outbox, vec![Payload::BossShoot(bx, by, 0, DIR_ONE)]);
    assert_eq!(g.boss.shoot_timer, 0);
    assert_eq!(g.bullets.len(), 1);
}

#[test]
fn boss_area_attack_zaps_local_player() {
    let a = arena();
    let mut g = GameState::new(1, a);
    let (lx, ly) = (g.local_player.x, g.local_player.y);
    let players = vec![g.local_player];
    g.execute_boss_area_attack(&players);
    assert_eq!(g.local_player.health, 80);
    assert_eq!(
        g.outbox,
        vec![Payload::PlayerHit(1, 80, 20), Payload::BossAreaAttack(lx, ly)]
    );
    assert_eq!(g.area_attacks.len(), 1);
}

#[test]
fn boss_dash_and_shield() {
    let a = arena();
    let mut g = GameState::new(1, a);
    g.boss.dash_timer = 4000;
    let players = vec![Player::new(2, 100 * PIXEL, 300 * PIXEL)];
    g.handle_boss_dash(&players);
    assert!(g.boss.is_dashing);
    assert_eq!(g.outbox, vec![Payload::BossDash(100 * PIXEL, 300 * PIXEL)]);
    g.execute_boss_shield();
    assert!(g.boss.shield_active);
    g.use_power(7, &players);
    assert_eq!(g.boss.power_timer, 0);
    assert_eq!(g.outbox.len(), 2);
}

#[test]
fn frame_update_ages_entities() {
    let a = arena();
    let mut g = GameState::new(1, a);
    g.area_attacks.push(AreaAttack::new(0, 0));
    g.damage_indicators.push(DamageIndicator::new(0, 50 * PIXEL, 5, false));
    g.update_entities(500, a);
    assert_eq!(g.area_attacks.len(), 1);
    assert_eq!(g.damage_indicators[0].y, 50 * PIXEL - 15000);
    g.update_entities(500, a);
    assert!(g.area_attacks.is_empty());
}

#[test]
fn input_moves_turns_and_fires() {
    let a = arena();
    let mut p = Player::new(1, 400 * PIXEL, 300 * PIXEL);
    let mut bullets = Vec::new();
    let mut outbox = Vec::new();
    let mut cues = Vec::new();
    let input = InputState {
        left: false,
        right: true,
        up: false,
        down: false,
        fire: true,
        mouse_x: 500 * PIXEL,
        mouse_y: 300 * PIXEL,
    };
    let moved = InputSystem::update_player_input(&mut p, &mut bullets, &input, 10, a, &mut outbox, &mut cues);
    assert!(moved);
    assert_eq!(p.x, 400 * PIXEL + 2000);
    assert_eq!((p.direction_x, p.direction_y), (DIR_ONE, 0));
    assert_eq!(
        outbox,
        vec![
            Payload::PlayerDirection(1, DIR_ONE, 0),
            Payload::Shoot(1, 400 * PIXEL, 300 * PIXEL, DIR_ONE, 0)
        ]
    );
    assert_eq!(bullets.len(), 1);
    assert_eq!(cues, vec![SoundType::PlayerShoot]);
}

#[test]
fn dead_player_respawns_after_countdown() {
    let a = arena();
    let mut p = Player::new(1, 400 * PIXEL, 300 * PIXEL);
    p.take_damage(1000);
    let mut bullets = Vec::new();
    let mut outbox = Vec::new();
    let mut cues = Vec::new();
    let input = InputState { left: true, right: false, up: false, down: false, fire: true, mouse_x: 0, mouse_y: 0 };
    assert!(!InputSystem::update_player_input(&mut p, &mut bullets, &input, 4000, a, &mut outbox, &mut cues));
    assert!(!p.is_alive);
    assert!(!InputSystem::update_player_input(&mut p, &mut bullets, &input, 1000, a, &mut outbox, &mut cues));
    assert!(p.is_alive);
    assert_eq!(outbox, vec![Payload::PlayerRespawn(1, p.x, p.y)]);
    assert!(bullets.is_empty());
}

#[test]
fn leave_message_is_queued() {
    let mut g = GameState::new(9, arena());
    g.send_leave_message();
    assert_eq!(g.outbox, vec![Payload::Leave(9)]);
}

#[test]
fn boss_holds_fire_without_a_clear_aim() {
    let mut g = GameState::new(1, arena());
    g.boss.shoot_timer = 2000;
    let (bx, by) = (g.boss.x, g.boss.y);
    let players = vec![Player::new(2, bx, by)];
    g.handle_boss_shooting(&players);
    assert!(g.outbox.is_empty());
    assert_eq!(g.boss.shoot_timer, 2000);
    let nobody: Vec<Player> = Vec::new();
    g.handle_boss_shooting(&nobody);
    assert_eq!(g.boss.shoot_timer, 2000);
}

#[test]
fn leaderboard_orders_by_kills_and_keeps_ties() {
    let mut local = Player::new(1, 0, 0);
    local.kills = 2;
    let mut remotes = Vec::new();
    for (id, kills) in [(2u32, 5u32), (3, 2), (4, 0), (5, 7), (6, 2), (7, 1)] {
        let mut p = Player::new(id, 0, 0);
        p.kills = kills;
        remotes.push(p);
    }
    let board = leaderboard(&local, &remotes);
    let ids: Vec<u32> = board.iter().map(|s| s.id).collect();
    assert_eq!(ids, vec![5, 2, 1, 3, 6]);
    assert!(board[2].is_local);
    assert_eq!(board[0].kills, 7);
    let alone = leaderboard(&local, &Vec::new());
    assert_eq!(alone, vec![Standing { id: 1, kills: 2, is_local: true }]);
}

#[test]
fn moving_queues_a_move_and_joining_a_join() {
    let a = arena();
    let mut g = GameState::new(4, a);
    g.send_join_message();
    assert_eq!(g.outbox, vec![Payload::Join(4)]);
    g.outbox.clear();
    let (x, y) = (g.local_player.x, g.local_player.y);
    let still = InputState { left: false, right: false, up: false, down: false, fire: false, mouse_x: x, mouse_y: y };
    assert!(!g.update_input(&still, 10, a));
    assert!(g.outbox.is_empty());
    let down = InputState { down: true, ..still };
    assert!(g.update_input(&down, 10, a));
    assert_eq!(g.outbox, vec![Payload::Move(4, x, y + 2000)]);
}
