use clodwyr_in_space::game::combat::{
    check_alien_hit_ship, check_bullet_hit, check_invasion, fire, fire_alien_bullet,
    step_alien_bullets, step_bullet, step_grid, tick_explosions, tick_ground_explosions,
};
use clodwyr_in_space::game::levels::{
    advance_level, build_alien_grid, check_level_clear, level_spec, quit_game, reset_game,
    tick_level_clear, LEVEL_1, LEVEL_COUNT,
};
use clodwyr_in_space::game::phase::{pause_game, tick_game_over};
use clodwyr_in_space::game::state::{
    all_aliens_dead, alive_count, AlienBullet, AlienKind, Bullet, GamePhase, GameState,
    GroundExplosion, Ship, Ufo, EXPLOSION_FRAMES, GRID_TICK_MAX, LEVEL_CLEAR_PAUSE, MAX_ALIEN_BULLETS,
};

const CELL_W: f64 = 64.0;
const CELL_H: f64 = 48.0;
const GRID_H: f64 = 5.0 * CELL_H;
const SHIP_HALF_W: f64 = 27.5;
const SHIP_HALF_H: f64 = 10.0;

fn new_state() -> GameState<f64> {
    GameState::new(800, 600, Ship { x: 400.0, y: 560.0 }, 0.0)
}

/// Hit boxes for a grid at (0, 0), as the renderer draws them.
fn in_hit_boxes(state: &GameState<f64>) -> Vec<bool> {
    let b = state.bullet.as_ref().unwrap();
    state
        .aliens
        .iter()
        .map(|a| {
            let (w, h) = match a.sprite {
                AlienKind::Crab => (48.0, 24.0),
                AlienKind::Squid => (32.0, 32.0),
                AlienKind::Octopus => (52.0, 32.0),
            };
            let left = a.col as f64 * CELL_W + (CELL_W - w) / 2.0;
            let top = a.row as f64 * CELL_H + (CELL_H - h) / 2.0;
            b.x >= left - 2.0 && b.x < left + w + 2.0 && b.y >= top && b.y < top + h
        })
        .collect()
}

fn spawn_points(state: &GameState<f64>) -> (Vec<f64>, Vec<f64>) {
    let xs = state.aliens.iter().map(|a| a.col as f64 * CELL_W + CELL_W / 2.0).collect();
    let ys = state.aliens.iter().map(|a| a.row as f64 * CELL_H + CELL_H).collect();
    (xs, ys)
}

fn step_bullets(state: &mut GameState<f64>, floor: f64) {
    let ys: Vec<f64> =
        state.alien_bullets.iter().map(|b| b.y + b.kind.bullet_profile().speed as f64).collect();
    let past: Vec<bool> = ys.iter().map(|y| *y > floor).collect();
    step_alien_bullets(state, &ys, &past, floor);
}

fn ship_overlaps(state: &GameState<f64>) -> Vec<bool> {
    let (sx, sy) = (state.ship.x, state.ship.y);
    state
        .alien_bullets
        .iter()
        .map(|b| b.x >= sx - SHIP_HALF_W && b.x <= sx + SHIP_HALF_W && b.y >= sy - SHIP_HALF_H && b.y <= sy + SHIP_HALF_H)
        .collect()
}

fn invasion_flags(state: &GameState<f64>, grid_top: f64, offset_y: f64) -> Vec<bool> {
    state
        .aliens
        .iter()
        .map(|a| grid_top + offset_y + (a.row as f64 + 1.0) * CELL_H >= state.ship.y)
        .collect()
}

fn grid_step(state: &mut GameState<f64>, max_offset_x: f64) {
    let moved = state.grid.offset_x + state.grid.direction as f64 * 4.0;
    step_grid(state, GRID_TICK_MAX, moved, moved.abs() >= max_offset_x);
}

fn prime_tick(state: &mut GameState<f64>) {
    state.grid.tick = GRID_TICK_MAX - 1;
}

fn state_with_bullet_at_alien(col: u32, row: u32) -> GameState<f64> {
    let mut state = new_state();
    state.aliens = build_alien_grid(LEVEL_1);
    state.bullet = Some(Bullet {
        x: col as f64 * CELL_W + CELL_W / 2.0,
        y: row as f64 * CELL_H + CELL_H / 2.0,
    });
    state
}

#[test]
fn game_state_initialises_with_correct_dimensions() {
    let state = new_state();
    assert_eq!(state.width, 800);
    assert_eq!(state.height, 600);
}

#[test]
fn score_starts_at_zero() {
    assert_eq!(new_state().score, 0);
}

#[test]
fn lives_start_at_three() {
    assert_eq!(new_state().lives, 3);
}

#[test]
fn phase_starts_as_attract() {
    assert_eq!(new_state().phase, GamePhase::Attract);
}

#[test]
fn level_starts_at_zero() {
    assert_eq!(new_state().level, 0);
}

// ── Shooting ────────────────────────────────────────────────────────────────

#[test]
fn fire_spawns_bullet_at_ship_position() {
    let mut state = new_state();
    fire(&mut state);
    let b = state.bullet.as_ref().expect("bullet should exist after firing");
    assert_eq!(b.x, state.ship.x);
    assert_eq!(b.y, state.ship.y);
}

#[test]
fn fire_does_nothing_when_bullet_already_in_flight() {
    let mut state = new_state();
    fire(&mut state);
    state.ship.x = 100.0;
    fire(&mut state);
    assert_eq!(state.bullet.as_ref().unwrap().x, 400.0);
}

#[test]
fn step_bullet_moves_upward() {
    let mut state = new_state();
    fire(&mut state);
    let start_y = state.bullet.as_ref().unwrap().y;
    let y = start_y - 14.0;
    step_bullet(&mut state, y, y < 0.0);
    assert_eq!(state.bullet.as_ref().unwrap().y, start_y - 14.0);
    assert_eq!(state.bullet.as_ref().unwrap().x, 400.0);
}

#[test]
fn step_bullet_clears_when_above_boundary_top() {
    let mut state = new_state();
    fire(&mut state);
    state.bullet.as_mut().unwrap().y = 100.0;
    let y = 100.0 - 14.0;
    step_bullet(&mut state, y, y < 110.0);
    assert!(state.bullet.is_none());
}

#[test]
fn step_bullet_without_bullet_changes_nothing() {
    let mut state = new_state();
    step_bullet(&mut state, 0.0, true);
    assert!(state.bullet.is_none());
}

#[test]
fn can_fire_again_after_bullet_clears() {
    let mut state = new_state();
    fire(&mut state);
    state.bullet.as_mut().unwrap().y = 50.0;
    step_bullet(&mut state, 36.0, 36.0 < 100.0);
    assert!(state.bullet.is_none());
    fire(&mut state);
    assert!(state.bullet.is_some());
}

#[test]
fn fire_increments_ufo_shot_counter() {
    let mut state = new_state();
    fire(&mut state);
    assert_eq!(state.ufo_shot_counter, 1);
}

#[test]
fn fire_does_not_increment_counter_when_bullet_in_flight() {
    let mut state = new_state();
    fire(&mut state);
    fire(&mut state);
    assert_eq!(state.ufo_shot_counter, 1);
}

// ── Grid movement ───────────────────────────────────────────────────────────

#[test]
fn step_grid_does_not_move_before_interval() {
    let mut state = new_state();
    state.aliens = build_alien_grid(LEVEL_1);
    grid_step(&mut state, 100.0);
    assert_eq!(state.grid.offset_x, 0.0);
    assert_eq!(state.grid.tick, 1);
}

#[test]
fn step_grid_moves_right_by_step() {
    let mut state = new_state();
    state.aliens = build_alien_grid(LEVEL_1);
    prime_tick(&mut state);
    grid_step(&mut state, 100.0);
    assert_eq!(state.grid.offset_x, 4.0);
    assert_eq!(state.grid.offset_rows, 0);
}

#[test]
fn step_grid_reverses_and_drops_at_right_wall() {
    let mut state = new_state();
    state.grid.offset_x = 99.0;
    state.aliens = build_alien_grid(LEVEL_1);
    prime_tick(&mut state);
    grid_step(&mut state, 100.0);
    assert_eq!(state.grid.direction, -1);
    assert_eq!(state.grid.offset_rows, 1);
    assert_eq!(state.grid.offset_x, 99.0);
}

#[test]
fn step_grid_reverses_and_drops_at_left_wall() {
    let mut state = new_state();
    state.grid.offset_x = -99.0;
    state.grid.direction = -1;
    state.aliens = build_alien_grid(LEVEL_1);
    prime_tick(&mut state);
    grid_step(&mut state, 100.0);
    assert_eq!(state.grid.direction, 1);
    assert_eq!(state.grid.offset_rows, 1);
    assert_eq!(state.grid.offset_x, -99.0);
}

#[test]
fn step_grid_noop_when_no_alive_aliens() {
    let mut state = new_state();
    grid_step(&mut state, 100.0);
    assert_eq!(state.grid.tick, 0);
    let mut state2 = new_state();
    state2.aliens = build_alien_grid(LEVEL_1);
    for a in &mut state2.aliens {
        a.alive = false;
    }
    prime_tick(&mut state2);
    grid_step(&mut state2, 100.0);
    assert_eq!(state2.grid.offset_x, 0.0);
    assert_eq!(state2.grid.tick, GRID_TICK_MAX - 1);
}

#[test]
fn step_grid_toggles_anim_frame_on_move() {
    let mut state = new_state();
    state.aliens = build_alien_grid(LEVEL_1);
    prime_tick(&mut state);
    assert!(!state.grid.anim_frame);
    grid_step(&mut state, 100.0);
    assert!(state.grid.anim_frame);
}

#[test]
fn step_grid_does_not_toggle_anim_frame_when_gated() {
    let mut state = new_state();
    state.aliens = build_alien_grid(LEVEL_1);
    grid_step(&mut state, 100.0);
    assert!(!state.grid.anim_frame);
}

#[test]
fn step_grid_anim_frame_alternates_each_move() {
    let mut state = new_state();
    state.aliens = build_alien_grid(LEVEL_1);
    prime_tick(&mut state);
    grid_step(&mut state, 100.0);
    assert!(state.grid.anim_frame);
    state.grid.tick = GRID_TICK_MAX - 1;
    grid_step(&mut state, 100.0);
    assert!(!state.grid.anim_frame);
}

#[test]
fn step_grid_tick_wraps_around() {
    let mut state = new_state();
    state.aliens = build_alien_grid(LEVEL_1);
    state.grid.tick = u32::MAX;
    step_grid(&mut state, 7, 4.0, false);
    assert_eq!(state.grid.tick, 0);
    // 0 is a multiple of every interval: the grid moves
    assert_eq!(state.grid.offset_x, 4.0);
}

// ── Collisions ──────────────────────────────────────────────────────────────

#[test]
fn bullet_hit_marks_alien_dead() {
    let mut state = state_with_bullet_at_alien(0, 0);
    let hits = in_hit_boxes(&state);
    check_bullet_hit(&mut state, &hits);
    let hit = state.aliens.iter().find(|a| a.col == 0 && a.row == 0).unwrap();
    assert!(!hit.alive);
}

#[test]
fn bullet_hit_clears_bullet() {
    let mut state = state_with_bullet_at_alien(0, 0);
    let hits = in_hit_boxes(&state);
    check_bullet_hit(&mut state, &hits);
    assert!(state.bullet.is_none());
}

#[test]
fn bullet_hit_increments_score() {
    let mut state = state_with_bullet_at_alien(0, 0);
    let hits = in_hit_boxes(&state);
    check_bullet_hit(&mut state, &hits);
    assert_eq!(state.score, 1);
}

#[test]
fn bullet_hit_starts_explosion_timer() {
    let mut state = state_with_bullet_at_alien(0, 0);
    let hits = in_hit_boxes(&state);
    check_bullet_hit(&mut state, &hits);
    let hit = state.aliens.iter().find(|a| a.col == 0 && a.row == 0).unwrap();
    assert_eq!(hit.explosion_timer, EXPLOSION_FRAMES);
}

#[test]
fn bullet_miss_leaves_all_aliens_alive() {
    let mut state = new_state();
    state.aliens = build_alien_grid(LEVEL_1);
    state.bullet = Some(Bullet { x: -100.0, y: -100.0 });
    let hits = in_hit_boxes(&state);
    check_bullet_hit(&mut state, &hits);
    assert!(state.aliens.iter().all(|a| a.alive));
    assert_eq!(state.score, 0);
    assert!(state.bullet.is_some());
}

#[test]
fn bullet_only_hits_one_alien_per_shot() {
    let mut state = state_with_bullet_at_alien(5, 4);
    // Pretend every alien's box holds the bullet: still only the first alive one dies.
    state.aliens[0].alive = false;
    let hits = vec![true; state.aliens.len()];
    check_bullet_hit(&mut state, &hits);
    let dead: Vec<_> = state.aliens.iter().filter(|a| !a.alive).collect();
    assert_eq!(dead.len(), 2);
    assert!(!state.aliens[1].alive);
    assert_eq!(state.score, 1);
}

#[test]
fn bullet_within_margin_of_hit_box_edge_hits_alien() {
    let mut state = new_state();
    state.aliens = build_alien_grid(LEVEL_1);
    state.bullet = Some(Bullet { x: 15.0, y: CELL_H / 2.0 });
    let hits = in_hit_boxes(&state);
    check_bullet_hit(&mut state, &hits);
    assert!(!state.aliens.iter().find(|a| a.row == 0 && a.col == 0).unwrap().alive);
}

#[test]
fn bullet_misses_squid_at_cell_left_edge() {
    let mut state = new_state();
    state.aliens = build_alien_grid(LEVEL_1);
    state.bullet = Some(Bullet { x: 0.0, y: CELL_H / 2.0 });
    let hits = in_hit_boxes(&state);
    check_bullet_hit(&mut state, &hits);
    assert!(state.aliens.iter().find(|a| a.row == 0 && a.col == 0).unwrap().alive);
}

// ── Alien shooting ──────────────────────────────────────────────────────────

#[test]
fn fire_alien_bullet_spawns_from_lowest_alien_in_col() {
    let mut state = new_state();
    state.aliens = build_alien_grid(LEVEL_1);
    let (xs, ys) = spawn_points(&state);
    fire_alien_bullet(&mut state, 0, &xs, &ys);
    let ab = state.alien_bullets.last().expect("alien bullet should exist");
    assert_eq!(ab.x, CELL_W / 2.0);
    assert_eq!(ab.y, 4.0 * CELL_H + CELL_H);
}

#[test]
fn fire_alien_bullet_does_not_exceed_max_when_full() {
    let mut state = new_state();
    state.aliens = build_alien_grid(LEVEL_1);
    let (xs, ys) = spawn_points(&state);
    for _ in 0..MAX_ALIEN_BULLETS {
        fire_alien_bullet(&mut state, 0, &xs, &ys);
    }
    assert_eq!(state.alien_bullets.len(), MAX_ALIEN_BULLETS);
    fire_alien_bullet(&mut state, 5, &xs, &ys);
    assert_eq!(state.alien_bullets.len(), MAX_ALIEN_BULLETS);
}

#[test]
fn fire_alien_bullet_skips_dead_aliens_in_col() {
    let mut state = new_state();
    state.aliens = build_alien_grid(LEVEL_1);
    for a in state.aliens.iter_mut() {
        if a.col == 3 && (a.row == 4 || a.row == 3) {
            a.alive = false;
        }
    }
    let (xs, ys) = spawn_points(&state);
    fire_alien_bullet(&mut state, 3, &xs, &ys);
    let ab = state.alien_bullets.last().expect("should fire from row 2");
    assert_eq!(ab.y, 2.0 * CELL_H + CELL_H);
}

#[test]
fn fire_alien_bullet_does_nothing_if_col_empty() {
    let mut state = new_state();
    state.aliens = build_alien_grid(LEVEL_1);
    for a in state.aliens.iter_mut() {
        if a.col == 2 {
            a.alive = false;
        }
    }
    let (xs, ys) = spawn_points(&state);
    fire_alien_bullet(&mut state, 2, &xs, &ys);
    assert!(state.alien_bullets.is_empty());
}

#[test]
fn fire_alien_bullet_sets_kind_from_firing_alien() {
    let mut state = new_state();
    state.aliens = build_alien_grid(LEVEL_1);
    for a in state.aliens.iter_mut() {
        if a.col == 0 && a.row > 0 {
            a.alive = false;
        }
    }
    let (xs, ys) = spawn_points(&state);
    fire_alien_bullet(&mut state, 0, &xs, &ys);
    let ab = state.alien_bullets.last().unwrap();
    assert!(matches!(ab.kind, AlienKind::Squid));
}

#[test]
fn fire_alien_bullet_respects_max_alien_bullets_from_state() {
    let mut state = new_state();
    state.aliens = build_alien_grid(LEVEL_1);
    state.max_alien_bullets = 2;
    let (xs, ys) = spawn_points(&state);
    for _ in 0..3 {
        fire_alien_bullet(&mut state, 0, &xs, &ys);
    }
    assert_eq!(state.alien_bullets.len(), 2);
}

#[test]
fn fire_alien_bullet_can_fire_second_when_first_in_flight() {
    let mut state = new_state();
    state.aliens = build_alien_grid(LEVEL_1);
    state.alien_bullets.push(AlienBullet { x: 999.0, y: 999.0, kind: AlienKind::Crab });
    let (xs, ys) = spawn_points(&state);
    fire_alien_bullet(&mut state, 5, &xs, &ys);
    assert_eq!(state.alien_bullets.len(), 2);
}

#[test]
fn fire_alien_bullet_capped_at_max_alien_bullets() {
    let mut state = new_state();
    state.aliens = build_alien_grid(LEVEL_1);
    for _ in 0..MAX_ALIEN_BULLETS {
        state.alien_bullets.push(AlienBullet { x: 0.0, y: 0.0, kind: AlienKind::Crab });
    }
    let (xs, ys) = spawn_points(&state);
    fire_alien_bullet(&mut state, 0, &xs, &ys);
    assert_eq!(state.alien_bullets.len(), MAX_ALIEN_BULLETS);
}

#[test]
fn fire_alien_bullet_ties_pick_the_last_alien() {
    let mut state = new_state();
    state.aliens = build_alien_grid(LEVEL_1);
    // Move alien 0 (col 0, row 0) down to row 4 as well: two candidates at row 4.
    state.aliens[0].row = 4;
    let xs: Vec<f64> = (0..state.aliens.len()).map(|i| i as f64).collect();
    let ys = xs.clone();
    fire_alien_bullet(&mut state, 0, &xs, &ys);
    // The last alien of column 0 in the list is index 44 (col 0, row 4).
    assert_eq!(state.alien_bullets[0].x, 44.0);
}

#[test]
fn step_alien_bullets_moves_downward() {
    let mut state = new_state();
    state.alien_bullets.push(AlienBullet { x: 100.0, y: 200.0, kind: AlienKind::Crab });
    step_bullets(&mut state, 600.0);
    let expected = 200.0 + AlienKind::Crab.bullet_profile().speed as f64;
    assert_eq!(state.alien_bullets[0].y, expected);
}

#[test]
fn step_alien_bullets_clears_when_below_canvas() {
    let mut state = new_state();
    state.alien_bullets.push(AlienBullet { x: 100.0, y: 598.0, kind: AlienKind::Crab });
    step_bullets(&mut state, 600.0);
    assert!(state.alien_bullets.is_empty());
}

#[test]
fn alien_bullet_carries_kind() {
    let b = AlienBullet { x: 0.0, y: 0.0, kind: AlienKind::Squid };
    assert!(matches!(b.kind, AlienKind::Squid));
}

#[test]
fn squid_bullet_profile_faster_than_octopus() {
    assert!(AlienKind::Squid.bullet_profile().speed > AlienKind::Octopus.bullet_profile().speed);
}

#[test]
fn bullet_profiles_match_alien_kinds() {
    assert_eq!(AlienKind::Squid.bullet_profile().speed, 6);
    assert_eq!(AlienKind::Crab.bullet_profile().speed, 4);
    assert_eq!(AlienKind::Octopus.bullet_profile().speed, 3);
    assert_eq!(AlienKind::Squid.bullet_profile().color, "#ff2244");
    assert!(!AlienKind::Octopus.bullet_profile().ground_explosion);
}

#[test]
fn step_alien_bullets_uses_per_kind_speed() {
    let mut state = new_state();
    state.alien_bullets.push(AlienBullet { x: 100.0, y: 100.0, kind: AlienKind::Squid });
    state.alien_bullets.push(AlienBullet { x: 200.0, y: 100.0, kind: AlienKind::Octopus });
    step_bullets(&mut state, 600.0);
    assert!(state.alien_bullets[0].y > state.alien_bullets[1].y, "squid bullet should move further in one step");
}

#[test]
fn ground_explosion_spawned_when_bullet_with_profile_hits_floor() {
    let mut state = new_state();
    let kind = AlienKind::Squid;
    assert!(kind.bullet_profile().ground_explosion, "test relies on squid having ground_explosion");
    state.alien_bullets.push(AlienBullet { x: 100.0, y: 598.0, kind });
    step_bullets(&mut state, 600.0);
    assert_eq!(state.ground_explosions.len(), 1);
    assert_eq!(state.ground_explosions[0].x, 100.0);
    assert_eq!(state.ground_explosions[0].y, 600.0);
    assert_eq!(state.ground_explosions[0].timer, 15);
}

#[test]
fn no_ground_explosion_when_crab_bullet_hits_floor() {
    let mut state = new_state();
    assert!(!AlienKind::Crab.bullet_profile().ground_explosion);
    state.alien_bullets.push(AlienBullet { x: 100.0, y: 598.0, kind: AlienKind::Crab });
    step_bullets(&mut state, 600.0);
    assert!(state.ground_explosions.is_empty());
}

#[test]
fn step_alien_bullets_moves_all() {
    let mut state = new_state();
    state.alien_bullets = vec![
        AlienBullet { x: 100.0, y: 50.0, kind: AlienKind::Crab },
        AlienBullet { x: 200.0, y: 80.0, kind: AlienKind::Crab },
    ];
    step_bullets(&mut state, 600.0);
    assert_eq!(state.alien_bullets[0].y, 54.0);
    assert_eq!(state.alien_bullets[1].y, 84.0);
}

#[test]
fn step_alien_bullets_clears_bullets_past_canvas_bottom() {
    let mut state = new_state();
    state.alien_bullets = vec![
        AlienBullet { x: 100.0, y: 598.0, kind: AlienKind::Crab },
        AlienBullet { x: 200.0, y: 10.0, kind: AlienKind::Crab },
    ];
    step_bullets(&mut state, 600.0);
    assert_eq!(state.alien_bullets.len(), 1);
    assert_eq!(state.alien_bullets[0].x, 200.0);
}

#[test]
fn tick_ground_explosions_decrements_timer() {
    let mut state = new_state();
    state.ground_explosions.push(GroundExplosion { x: 100.0, y: 500.0, timer: 10 });
    tick_ground_explosions(&mut state);
    assert_eq!(state.ground_explosions[0].timer, 9);
}

#[test]
fn tick_ground_explosions_removes_expired() {
    let mut state = new_state();
    state.ground_explosions.push(GroundExplosion { x: 100.0, y: 500.0, timer: 1 });
    state.ground_explosions.push(GroundExplosion { x: 1.0, y: 5.0, timer: 0 });
    state.ground_explosions.push(GroundExplosion { x: 2.0, y: 5.0, timer: 3 });
    tick_ground_explosions(&mut state);
    assert_eq!(state.ground_explosions.len(), 1);
    assert_eq!(state.ground_explosions[0].x, 2.0);
    assert_eq!(state.ground_explosions[0].timer, 2);
}

#[test]
fn check_alien_hit_ship_decrements_lives_on_overlap() {
    let mut state = new_state();
    state.alien_bullets.push(AlienBullet { x: state.ship.x, y: state.ship.y, kind: AlienKind::Crab });
    let o = ship_overlaps(&state);
    check_alien_hit_ship(&mut state, &o);
    assert_eq!(state.lives, 2);
}

#[test]
fn check_alien_hit_ship_clears_alien_bullet_on_hit() {
    let mut state = new_state();
    state.alien_bullets.push(AlienBullet { x: state.ship.x, y: state.ship.y, kind: AlienKind::Crab });
    let o = ship_overlaps(&state);
    check_alien_hit_ship(&mut state, &o);
    assert!(state.alien_bullets.is_empty());
}

#[test]
fn check_alien_hit_ship_does_nothing_when_bullet_misses() {
    let mut state = new_state();
    state.alien_bullets.push(AlienBullet { x: 0.0, y: 0.0, kind: AlienKind::Crab });
    let o = ship_overlaps(&state);
    check_alien_hit_ship(&mut state, &o);
    assert_eq!(state.lives, 3);
    assert_eq!(state.alien_bullets.len(), 1);
}

#[test]
fn check_alien_hit_ship_no_bullet_does_nothing() {
    let mut state = new_state();
    check_alien_hit_ship(&mut state, &Vec::new());
    assert_eq!(state.lives, 3);
}

#[test]
fn check_alien_hit_ship_sets_game_over_when_last_life_lost() {
    let mut state = new_state();
    state.lives = 1;
    state.alien_bullets.push(AlienBullet { x: state.ship.x, y: state.ship.y, kind: AlienKind::Crab });
    let o = ship_overlaps(&state);
    check_alien_hit_ship(&mut state, &o);
    assert_eq!(state.lives, 0);
    assert_eq!(state.phase, GamePhase::GameOver);
}

#[test]
fn check_alien_hit_ship_stays_playing_while_lives_remain() {
    let mut state = new_state();
    state.phase = GamePhase::Playing;
    state.lives = 2;
    state.alien_bullets.push(AlienBullet { x: state.ship.x, y: state.ship.y, kind: AlienKind::Crab });
    let o = ship_overlaps(&state);
    check_alien_hit_ship(&mut state, &o);
    assert_eq!(state.phase, GamePhase::Playing);
}

#[test]
fn check_alien_hit_ship_removes_hitting_bullet_from_vec() {
    let mut state = new_state();
    state.lives = 3;
    state.alien_bullets = vec![
        AlienBullet { x: -999.0, y: -999.0, kind: AlienKind::Crab },
        AlienBullet { x: state.ship.x, y: state.ship.y, kind: AlienKind::Crab },
    ];
    let o = ship_overlaps(&state);
    check_alien_hit_ship(&mut state, &o);
    assert_eq!(state.lives, 2);
    assert_eq!(state.alien_bullets.len(), 1);
    assert_eq!(state.alien_bullets[0].x, -999.0);
}

#[test]
fn check_alien_hit_ship_with_no_lives_left_stays_at_zero() {
    let mut state = new_state();
    state.lives = 0;
    state.phase = GamePhase::Playing;
    state.alien_bullets.push(AlienBullet { x: 1.0, y: 1.0, kind: AlienKind::Crab });
    check_alien_hit_ship(&mut state, &vec![true]);
    assert_eq!(state.lives, 0);
    assert_eq!(state.phase, GamePhase::GameOver);
}

// ── Invasion ────────────────────────────────────────────────────────────────

#[test]
fn check_invasion_sets_game_over_when_grid_reaches_ship() {
    let mut state = new_state();
    state.aliens = build_alien_grid(LEVEL_1);
    let flags = invasion_flags(&state, 0.0, state.ship.y - GRID_H);
    check_invasion(&mut state, &flags);
    assert_eq!(state.phase, GamePhase::GameOver);
}

#[test]
fn check_invasion_does_nothing_while_grid_above_ship() {
    let mut state = new_state();
    state.aliens = build_alien_grid(LEVEL_1);
    let flags = invasion_flags(&state, 0.0, 0.0);
    check_invasion(&mut state, &flags);
    assert_ne!(state.phase, GamePhase::GameOver);
}

#[test]
fn check_invasion_does_nothing_when_no_aliens() {
    let mut state = new_state();
    check_invasion(&mut state, &Vec::new());
    assert_ne!(state.phase, GamePhase::GameOver);
}

#[test]
fn check_invasion_does_not_trigger_when_only_top_row_alive_and_grid_not_descended() {
    let mut state = new_state();
    state.aliens = build_alien_grid(LEVEL_1);
    for a in &mut state.aliens {
        if a.row != 0 {
            a.alive = false;
        }
    }
    state.phase = GamePhase::Playing;
    let flags = invasion_flags(&state, 0.0, state.ship.y - GRID_H);
    check_invasion(&mut state, &flags);
    assert_ne!(state.phase, GamePhase::GameOver);
}

#[test]
fn check_invasion_triggers_when_lowest_alive_row_reaches_ship() {
    let mut state = new_state();
    state.aliens = build_alien_grid(LEVEL_1);
    for a in &mut state.aliens {
        if a.row != 0 {
            a.alive = false;
        }
    }
    state.phase = GamePhase::Playing;
    let flags = invasion_flags(&state, 0.0, state.ship.y - CELL_H);
    check_invasion(&mut state, &flags);
    assert_eq!(state.phase, GamePhase::GameOver);
}

// ── Levels ──────────────────────────────────────────────────────────────────

#[test]
fn all_aliens_dead_true_when_all_dead() {
    let mut state = new_state();
    state.aliens = build_alien_grid(LEVEL_1);
    for a in &mut state.aliens {
        a.alive = false;
    }
    assert!(all_aliens_dead(&state));
    assert_eq!(alive_count(&state), 0);
}

#[test]
fn all_aliens_dead_false_when_any_alive() {
    let mut state = new_state();
    state.aliens = build_alien_grid(LEVEL_1);
    assert!(!all_aliens_dead(&state));
    assert_eq!(alive_count(&state), 55);
}

#[test]
fn all_aliens_dead_true_when_grid_empty() {
    let state = new_state();
    assert!(all_aliens_dead(&state));
}

#[test]
fn all_aliens_dead_ignores_exploding_aliens() {
    let mut state = new_state();
    state.aliens = build_alien_grid(LEVEL_1);
    for a in &mut state.aliens {
        a.alive = false;
    }
    state.aliens[0].explosion_timer = 5;
    assert!(all_aliens_dead(&state));
}

#[test]
fn advance_level_increments_level_index() {
    let mut state = new_state();
    state.aliens = build_alien_grid(LEVEL_1);
    advance_level(&mut state, 0.0);
    assert_eq!(state.level, 1);
}

#[test]
fn advance_level_loads_new_alien_grid() {
    let mut state = new_state();
    state.aliens = build_alien_grid(LEVEL_1);
    for a in &mut state.aliens {
        a.alive = false;
    }
    advance_level(&mut state, 0.0);
    assert!(state.aliens.iter().any(|a| a.alive));
}

#[test]
fn advance_level_resets_grid_motion() {
    let mut state = new_state();
    state.grid.offset_x = 40.0;
    state.grid.offset_rows = 2;
    state.grid.direction = -1;
    advance_level(&mut state, 0.0);
    assert_eq!(state.grid.offset_x, 0.0);
    assert_eq!(state.grid.offset_rows, level_spec(1).grid_y_offset_rows);
    assert_eq!(state.grid.direction, 1);
}

#[test]
fn advance_level_clears_bullets() {
    let mut state = new_state();
    state.bullet = Some(Bullet { x: 100.0, y: 100.0 });
    state.alien_bullets.push(AlienBullet { x: 200.0, y: 200.0, kind: AlienKind::Crab });
    advance_level(&mut state, 0.0);
    assert!(state.bullet.is_none());
    assert!(state.alien_bullets.is_empty());
}

#[test]
fn advance_level_wraps_to_level_zero_after_last() {
    let mut state = new_state();
    state.level = LEVEL_COUNT - 1;
    advance_level(&mut state, 0.0);
    assert_eq!(state.level, 0);
}

#[test]
fn reset_game_loads_max_alien_bullets_from_level1_spec() {
    let mut state = new_state();
    reset_game(&mut state, 400.0, 0.0);
    assert_eq!(state.max_alien_bullets, level_spec(0).max_alien_bullets);
}

#[test]
fn advance_level_loads_max_alien_bullets_from_spec() {
    let mut state = new_state();
    reset_game(&mut state, 400.0, 0.0);
    advance_level(&mut state, 0.0);
    assert_eq!(state.max_alien_bullets, level_spec(1).max_alien_bullets);
}

#[test]
fn reset_game_loads_level1_fire_interval_into_state() {
    let mut state = new_state();
    reset_game(&mut state, 400.0, 0.0);
    assert_eq!(state.alien_fire_interval, level_spec(0).alien_fire_interval);
}

#[test]
fn advance_level_loads_fire_interval_from_spec() {
    let mut state = new_state();
    reset_game(&mut state, 400.0, 0.0);
    advance_level(&mut state, 0.0);
    assert_eq!(state.alien_fire_interval, level_spec(1).alien_fire_interval);
}

#[test]
fn advance_level_loads_speed_scale_from_spec() {
    let mut state = new_state();
    reset_game(&mut state, 400.0, 0.0);
    advance_level(&mut state, 0.0);
    assert_eq!(state.speed_scale_percent, level_spec(1).speed_scale_percent);
}

#[test]
fn advance_level_sets_grid_y_offset_from_spec() {
    let mut state = new_state();
    reset_game(&mut state, 400.0, 0.0);
    advance_level(&mut state, 0.0);
    assert_eq!(state.grid.offset_rows, level_spec(1).grid_y_offset_rows);
}

#[test]
fn advance_level_resets_ufo_threshold_from_spec() {
    let mut state = new_state();
    state.ufo_shot_counter = 9;
    advance_level(&mut state, 0.0);
    assert_eq!(state.ufo_shot_counter, 0);
    assert_eq!(state.ufo_shots_to_next, level_spec(1).ufo_first_shot);
}

// ── Level-clear pause ───────────────────────────────────────────────────────

#[test]
fn check_level_clear_transitions_when_all_aliens_dead() {
    let mut state = new_state();
    state.phase = GamePhase::Playing;
    state.aliens = build_alien_grid(LEVEL_1);
    for a in &mut state.aliens {
        a.alive = false;
    }
    check_level_clear(&mut state);
    assert_eq!(state.phase, GamePhase::LevelClear);
}

#[test]
fn check_level_clear_resets_pause_timer() {
    let mut state = new_state();
    state.phase = GamePhase::Playing;
    state.aliens = build_alien_grid(LEVEL_1);
    for a in &mut state.aliens {
        a.alive = false;
    }
    state.pause_timer = 99;
    check_level_clear(&mut state);
    assert_eq!(state.pause_timer, 0);
}

#[test]
fn check_level_clear_does_nothing_while_aliens_remain() {
    let mut state = new_state();
    state.phase = GamePhase::Playing;
    state.aliens = build_alien_grid(LEVEL_1);
    check_level_clear(&mut state);
    assert_eq!(state.phase, GamePhase::Playing);
}

#[test]
fn check_level_clear_waits_if_ufo_active() {
    let mut state = new_state();
    state.phase = GamePhase::Playing;
    state.aliens = build_alien_grid(LEVEL_1);
    for a in &mut state.aliens {
        a.alive = false;
    }
    state.ufo = Some(Ufo { x: 100.0, y: 90.0, direction: 1, explosion_timer: 0, score: 0 });
    check_level_clear(&mut state);
    assert_eq!(state.phase, GamePhase::Playing);
}

#[test]
fn tick_level_clear_increments_pause_timer() {
    let mut state = new_state();
    state.phase = GamePhase::LevelClear;
    tick_level_clear(&mut state, 0.0);
    assert_eq!(state.pause_timer, 1);
}

#[test]
fn tick_level_clear_does_nothing_when_not_level_clear() {
    let mut state = new_state();
    state.aliens = build_alien_grid(LEVEL_1);
    tick_level_clear(&mut state, 0.0);
    assert_eq!(state.pause_timer, 0);
    assert_ne!(state.phase, GamePhase::LevelClear);
}

#[test]
fn tick_level_clear_advances_level_after_pause() {
    let mut state = new_state();
    state.aliens = build_alien_grid(LEVEL_1);
    state.phase = GamePhase::LevelClear;
    state.pause_timer = LEVEL_CLEAR_PAUSE - 1;
    tick_level_clear(&mut state, 0.0);
    assert_eq!(state.phase, GamePhase::Playing);
    assert_eq!(state.level, 1);
    assert!(state.aliens.iter().any(|a| a.alive));
}

#[test]
fn tick_level_clear_does_not_advance_before_pause_expires() {
    let mut state = new_state();
    state.aliens = build_alien_grid(LEVEL_1);
    for a in &mut state.aliens {
        a.alive = false;
    }
    state.phase = GamePhase::LevelClear;
    state.pause_timer = LEVEL_CLEAR_PAUSE - 2;
    tick_level_clear(&mut state, 0.0);
    assert_eq!(state.phase, GamePhase::LevelClear);
    assert!(!state.aliens.iter().any(|a| a.alive));
}

// ── reset / quit ────────────────────────────────────────────────────────────

#[test]
fn reset_game_sets_phase_to_playing() {
    let mut state = new_state();
    state.phase = GamePhase::GameOver;
    reset_game(&mut state, 400.0, 0.0);
    assert_eq!(state.phase, GamePhase::Playing);
}

#[test]
fn reset_game_restores_lives() {
    let mut state = new_state();
    state.lives = 0;
    reset_game(&mut state, 400.0, 0.0);
    assert_eq!(state.lives, 3);
}

#[test]
fn reset_game_clears_score() {
    let mut state = new_state();
    state.score = 500;
    reset_game(&mut state, 400.0, 0.0);
    assert_eq!(state.score, 0);
}

#[test]
fn reset_game_resets_to_level_zero() {
    let mut state = new_state();
    state.level = 2;
    reset_game(&mut state, 400.0, 0.0);
    assert_eq!(state.level, 0);
}

#[test]
fn reset_game_loads_fresh_alien_grid() {
    let mut state = new_state();
    reset_game(&mut state, 400.0, 0.0);
    assert_eq!(state.aliens.iter().filter(|a| a.alive).count(), 55);
}

#[test]
fn reset_game_clears_bullets() {
    let mut state = new_state();
    state.bullet = Some(Bullet { x: 100.0, y: 100.0 });
    state.alien_bullets.push(AlienBullet { x: 200.0, y: 200.0, kind: AlienKind::Crab });
    reset_game(&mut state, 400.0, 0.0);
    assert!(state.bullet.is_none());
    assert!(state.alien_bullets.is_empty());
}

#[test]
fn reset_game_resets_ship_to_centre() {
    let mut state = new_state();
    state.ship.x = 100.0;
    reset_game(&mut state, 400.0, 0.0);
    assert_eq!(state.ship.x, 400.0);
    assert_eq!(state.ship.y, 560.0);
}

#[test]
fn reset_game_resets_game_over_timer() {
    let mut state = new_state();
    state.game_over_timer = 99;
    reset_game(&mut state, 400.0, 0.0);
    assert_eq!(state.game_over_timer, 0);
}

#[test]
fn reset_game_clears_ufo_state() {
    let mut state = new_state();
    state.ufo = Some(Ufo { x: 100.0, y: 90.0, direction: 1, explosion_timer: 0, score: 0 });
    state.ufo_shot_counter = 10;
    state.ufo_shots_to_next = 15;
    reset_game(&mut state, 400.0, 0.0);
    assert!(state.ufo.is_none());
    assert_eq!(state.ufo_shot_counter, 0);
    assert_eq!(state.ufo_shots_to_next, 23);
}

#[test]
fn reset_game_clears_name_input() {
    let mut state = new_state();
    state.name_input = "ACE".to_string();
    reset_game(&mut state, 400.0, 0.0);
    assert!(state.name_input.is_empty());
}

#[test]
fn quit_game_resets_to_attract() {
    let mut state = new_state();
    state.phase = GamePhase::Playing;
    state.score = 100;
    quit_game(&mut state, 400.0, 0.0);
    assert_eq!(state.phase, GamePhase::Attract);
    assert_eq!(state.score, 0);
}

// ── Timers ──────────────────────────────────────────────────────────────────

#[test]
fn game_over_timer_starts_at_zero() {
    assert_eq!(new_state().game_over_timer, 0);
}

#[test]
fn tick_game_over_increments_timer_during_game_over() {
    let mut state = new_state();
    state.phase = GamePhase::GameOver;
    tick_game_over(&mut state);
    assert_eq!(state.game_over_timer, 1);
}

#[test]
fn tick_game_over_does_nothing_outside_game_over() {
    let mut state = new_state();
    tick_game_over(&mut state);
    assert_eq!(state.game_over_timer, 0);
}

#[test]
fn tick_game_over_does_not_overflow() {
    let mut state = new_state();
    state.phase = GamePhase::GameOver;
    state.game_over_timer = u32::MAX;
    tick_game_over(&mut state);
    assert_eq!(state.game_over_timer, u32::MAX);
}

#[test]
fn tick_explosions_decrements_timer() {
    let mut state = new_state();
    state.aliens = build_alien_grid(LEVEL_1);
    state.aliens[0].alive = false;
    state.aliens[0].explosion_timer = 10;
    tick_explosions(&mut state);
    assert_eq!(state.aliens[0].explosion_timer, 9);
}

#[test]
fn tick_explosions_does_not_decrement_alive_aliens() {
    let mut state = new_state();
    state.aliens = build_alien_grid(LEVEL_1);
    state.aliens[0].explosion_timer = 10;
    tick_explosions(&mut state);
    assert_eq!(state.aliens[0].explosion_timer, 10);
}

#[test]
fn tick_explosions_stops_at_zero() {
    let mut state = new_state();
    state.aliens = build_alien_grid(LEVEL_1);
    state.aliens[0].alive = false;
    tick_explosions(&mut state);
    assert_eq!(state.aliens[0].explosion_timer, 0);
}

// ── Pause ───────────────────────────────────────────────────────────────────

#[test]
fn pause_game_transitions_playing_to_paused() {
    let mut state = new_state();
    state.phase = GamePhase::Playing;
    pause_game(&mut state);
    assert_eq!(state.phase, GamePhase::Paused);
}

#[test]
fn pause_game_transitions_paused_to_playing() {
    let mut state = new_state();
    state.phase = GamePhase::Paused;
    pause_game(&mut state);
    assert_eq!(state.phase, GamePhase::Playing);
}

#[test]
fn pause_game_does_nothing_outside_playing_and_paused() {
    let mut state = new_state();
    state.phase = GamePhase::GameOver;
    pause_game(&mut state);
    assert_eq!(state.phase, GamePhase::GameOver);
}

#[test]
fn pause_game_twice_restores_phase() {
    let mut state = new_state();
    state.phase = GamePhase::Playing;
    pause_game(&mut state);
    pause_game(&mut state);
    assert_eq!(state.phase, GamePhase::Playing);
}

#[test]
fn step_grid_row_count_stops_at_its_limit() {
    let mut state = GameState::new(800, 600, Ship { x: 400.0, y: 560.0 }, 0.0);
    state.aliens = build_alien_grid(LEVEL_1);
    state.grid.offset_rows = u32::MAX;
    state.grid.tick = GRID_TICK_MAX - 1;
    step_grid(&mut state, GRID_TICK_MAX, 0.0, true);
    assert_eq!(state.grid.offset_rows, u32::MAX);
    assert_eq!(state.grid.direction, -1);
}
