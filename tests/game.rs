use carket::entities::{Circle, CircleDraw, Triangle, CIRCLE_RADIUS, PALETTE_SIZE};
use carket::game::{Game, GameState, Hint, Input, Key, MouseButton, TickDraws};
use carket::music::Cue;
use rand::rngs::StdRng;
use rand::{Rng, SeedableRng};

fn quiet_draws() -> TickDraws {
    TickDraws {
        spawn_roll: 999_999,
        circle: CircleDraw {
            horizontal_edge: true,
            first_side: true,
            offset: 0,
            factor_x: 1_000,
            factor_y: 1_000,
            outside: 0,
            inside: 0,
        },
        triangle: Triangle::placed(100_000, 100_000, 4),
    }
}

fn session(difficulty: u64) -> Game {
    let mut g = Game::new();
    g.init(difficulty);
    // Keep the cursor on the centre so the player stays at the origin.
    g.mx = g.scx;
    g.my = g.scy;
    g
}

fn still_circle(x: i64, y: i64, outside: usize, inside: usize) -> Circle {
    Circle { x, y, vx: 0, vy: 0, radius: CIRCLE_RADIUS, outside_colour: outside, inside_colour: inside, to_delete: false }
}

#[test]
fn first_tick_keeps_baseline_and_zero_score() {
    let mut g = session(10);
    assert_eq!(g.player.radius, 40_000);
    g.advance(100, &quiet_draws());
    assert_eq!(g.player.radius, 40_000);
    assert_eq!(g.score, 0);
    assert_eq!(g.time_elapsed, 100);
    assert_eq!(g.grown, 0);
}

#[test]
fn centred_matching_circle_is_absorbed_at_once() {
    let mut g = session(10);
    g.circles.push(still_circle(0, 0, 0, 3));
    let cues = g.advance(16, &quiet_draws());
    assert_eq!(g.grown, 1);
    assert_eq!(g.player.radius, 42_000);
    assert_eq!(g.player.colour_state, 3);
    assert!(g.circles.is_empty());
    assert!(cues.contains(&Cue::Absorb));
    assert_eq!(g.score, 10_000_000);
}

#[test]
fn absorb_adds_one_step_whatever_the_radius() {
    let mut g = session(10);
    g.player.radius = 120_000;
    let before = carket::rules::shrink_radius(120_000, 16);
    g.circles.push(still_circle(0, 0, 0, 1));
    g.advance(16, &quiet_draws());
    assert_eq!(g.grown, 1);
    assert_eq!(g.player.radius, before + 2_000);
}

#[test]
fn unshielded_mismatch_ends_session() {
    let mut g = session(10);
    g.circles.push(still_circle(0, 0, 2, 1));
    g.circles.push(still_circle(0, 0, 0, 1));
    let cues = g.advance(16, &quiet_draws());
    assert_eq!(g.game_state, GameState::End);
    assert!(cues.contains(&Cue::Death));
    assert!(!cues.contains(&Cue::Absorb));
    assert_eq!(g.grown, 0);
    assert_eq!(g.score, 0);
}

#[test]
fn left_shield_takes_the_hit() {
    let mut g = session(10);
    g.col_left = Some(4);
    g.circles.push(still_circle(0, 0, 2, 1));
    let cues = g.advance(16, &quiet_draws());
    assert_eq!(g.game_state, GameState::Game);
    assert_eq!(g.col_left, None);
    assert!(g.circles.is_empty());
    assert!(cues.contains(&Cue::LoseShield));
}

#[test]
fn right_shield_takes_the_hit() {
    let mut g = session(10);
    g.col_right = Some(4);
    g.circles.push(still_circle(0, 0, 2, 1));
    g.advance(16, &quiet_draws());
    assert_eq!(g.game_state, GameState::Game);
    assert_eq!(g.col_right, None);
    assert!(g.circles.is_empty());
}

#[test]
fn both_shields_spend_the_right_one_first() {
    let mut g = session(10);
    g.col_left = Some(4);
    g.col_right = Some(5);
    g.circles.push(still_circle(0, 0, 2, 1));
    g.advance(16, &quiet_draws());
    assert_eq!((g.col_left, g.col_right), (Some(4), None));
}

#[test]
fn triangle_pickup_fills_left_then_right_then_nothing() {
    let mut g = session(10);
    g.triangles.push(Triangle::placed(0, 0, 1));
    let cues = g.advance(16, &quiet_draws());
    assert!(cues.contains(&Cue::Pickup));
    assert_eq!((g.col_left, g.col_right), (Some(1), None));
    assert!(g.triangles.is_empty());
    g.triangles.push(Triangle::placed(0, 0, 2));
    g.advance(16, &quiet_draws());
    assert_eq!((g.col_left, g.col_right), (Some(1), Some(2)));
    g.triangles.push(Triangle::placed(0, 0, 3));
    g.advance(16, &quiet_draws());
    assert_eq!((g.col_left, g.col_right), (Some(1), Some(2)));
    assert!(g.triangles.is_empty());
}

#[test]
fn sweep_removes_circles_off_the_field() {
    let mut g = session(10);
    let mut c = still_circle(1_199_000, 0, 1, 1);
    c.vx = 100;
    g.circles.push(c);
    g.circles.push(still_circle(500_000, 500_000, 1, 1));
    g.advance(16, &quiet_draws());
    assert_eq!(g.circles.len(), 1);
    assert!(g.circles.iter().all(|c| !c.to_delete));
    assert_eq!(g.circles[0].x, 500_000);
}

#[test]
fn radius_is_cut_back_to_ceiling() {
    let mut g = session(10);
    g.player.radius = 250_000;
    g.advance(16, &quiet_draws());
    assert!(g.player.radius <= 200_000);
    assert!(g.player.radius >= 40_000);
}

#[test]
fn first_triangle_lands_near_centre() {
    let mut g = session(10);
    g.next_place_triangle = -1;
    g.advance(16, &quiet_draws());
    assert_eq!(g.triangles.len(), 1);
    assert_eq!((g.triangles[0].x, g.triangles[0].y), (60_000, 60_000));
    assert_eq!(g.triangles[0].colour, 4);
    assert_eq!(g.next_place_triangle, 10_000);
    assert_eq!(g.tris, 1);
    g.next_place_triangle = -1;
    g.advance(16, &quiet_draws());
    assert_eq!((g.triangles[1].x, g.triangles[1].y), (100_000, 100_000));
}

#[test]
fn triangle_interval_grows_with_difficulty() {
    for &(d, wait) in &[(10u64, 10_000i64), (20, 20_000)] {
        let mut g = session(d);
        g.next_place_triangle = -1;
        g.advance(16, &quiet_draws());
        assert_eq!(g.next_place_triangle, wait);
    }
}

#[test]
fn circle_spawns_under_chance_and_cap() {
    let mut g = session(10);
    g.time_elapsed = 100_000;
    let mut d = quiet_draws();
    d.spawn_roll = 0;
    g.advance(16, &d);
    assert_eq!(g.circles.len(), 1);
    let c = g.circles[0];
    assert!(c.vx > 0 && c.vy > 0);
    assert_eq!((c.x, c.y), (-960_000 + c.vx * 16, -960_000 + c.vy * 16));
    let mut h = session(10);
    h.time_elapsed = 100_000;
    h.advance(16, &quiet_draws());
    assert!(h.circles.is_empty());
}

#[test]
fn pause_freezes_the_session() {
    let mut g = session(10);
    g.on_input(Input::KeyReleased(Key::P));
    assert!(g.is_paused);
    let cues = g.advance(16, &quiet_draws());
    assert!(cues.is_empty());
    assert_eq!(g.time_elapsed, 0);
    g.on_input(Input::KeyReleased(Key::P));
    assert!(!g.is_paused);
}

#[test]
fn menu_keys_start_sessions_at_each_difficulty() {
    for &(k, d) in &[(Key::D1, 3u64), (Key::D2, 6), (Key::D3, 10), (Key::D4, 20), (Key::D0, 50)] {
        let mut g = Game::new();
        assert_eq!(g.game_state, GameState::MainMenu);
        g.on_input(Input::KeyReleased(k));
        assert_eq!(g.game_state, GameState::Game);
        assert_eq!(g.difficulty, d);
        assert_eq!(g.score, 0);
    }
}

#[test]
fn menu_credits_and_end_screens() {
    let mut g = Game::new();
    g.on_input(Input::KeyReleased(Key::P));
    assert_eq!(g.game_state, GameState::MainMenu);
    g.on_input(Input::KeyReleased(Key::C));
    assert_eq!(g.game_state, GameState::Credits);
    g.on_input(Input::KeyReleased(Key::C));
    assert_eq!(g.game_state, GameState::Credits);
    g.on_input(Input::KeyReleased(Key::Return));
    assert_eq!(g.game_state, GameState::MainMenu);
    g.on_input(Input::KeyReleased(Key::D3));
    g.on_input(Input::KeyReleased(Key::Escape));
    assert_eq!(g.game_state, GameState::MainMenu);
    g.game_state = GameState::End;
    g.on_input(Input::MouseReleased(MouseButton::Left));
    assert_eq!(g.game_state, GameState::End);
    g.on_input(Input::KeyReleased(Key::Return));
    assert_eq!(g.game_state, GameState::MainMenu);
}

#[test]
fn mouse_buttons_swap_power_up_colours() {
    let mut g = session(10);
    g.on_input(Input::MouseReleased(MouseButton::Left));
    assert_eq!((g.player.colour_state, g.col_left), (0, None));
    g.col_left = Some(2);
    g.col_right = Some(5);
    g.on_input(Input::MouseReleased(MouseButton::Left));
    assert_eq!((g.player.colour_state, g.col_left), (2, Some(0)));
    g.on_input(Input::MouseReleased(MouseButton::Right));
    assert_eq!((g.player.colour_state, g.col_right), (5, Some(2)));
}

#[test]
fn cursor_moves_the_target() {
    let mut g = session(10);
    g.on_input(Input::Cursor(400_000, 100_000));
    assert_eq!((g.mx, g.my), (400_000, 100_000));
    g.advance(100, &quiet_draws());
    // Target (100, -200) px from the centre; 50 px along it.
    assert_eq!((g.player.x, g.player.y), (22_360, -44_721));
}

#[test]
fn viewport_sets_the_centre() {
    let mut g = Game::new();
    g.set_viewport(1_081, 720);
    assert_eq!((g.scx, g.scy), (540_000, 360_000));
}

#[test]
fn hud_values() {
    let mut g = session(10);
    assert_eq!(g.hint(), Hint::Movement);
    g.time_elapsed = 12_345;
    assert_eq!(g.time_tenths(), 123);
    assert_eq!(g.hint(), Hint::PowerUps);
    g.time_elapsed = 100_000;
    assert_eq!(g.background_hue(), 1_000 % 628);
    assert_eq!(g.hint(), Hint::Nothing);
    g.score = 12_345_678;
    assert_eq!(g.score_tenths(), 123);
    g.circles.push(still_circle(0, 0, 1, 1));
    assert_eq!(g.object_count(), 1);
}

#[test]
fn random_ticks_keep_the_game_sound() {
    let mut rng = StdRng::seed_from_u64(7);
    let mut g = session(50);
    g.time_elapsed = 60_000;
    g.next_place_triangle = -1;
    let mut spawned = 0usize;
    for i in 0..2_000 {
        if g.game_state != GameState::Game {
            break;
        }
        g.mx = g.scx + ((i * 37) % 400) as i64 * 1_000;
        let before = g.circles.len();
        g.on_update(16, &mut rng);
        if g.circles.len() > before {
            spawned += 1;
        }
        assert!(g.player.radius >= 40_000);
        assert!(g.circles.iter().all(|c| !c.to_delete && c.outside_colour < PALETTE_SIZE));
        assert!(g.triangles.iter().all(|t| !t.to_delete && t.colour < PALETTE_SIZE));
    }
    assert!(spawned > 0);
}

#[test]
fn drawn_values_stay_in_range() {
    let mut rng = StdRng::seed_from_u64(11);
    let mut offsets = Vec::new();
    for _ in 0..50 {
        let d = TickDraws::new_rand(&mut rng, 540_000, 360_000);
        assert!(d.spawn_roll < 1_000_000);
        assert!(d.circle.offset < 1_920_000);
        assert!((500..1_500).contains(&d.circle.factor_x));
        assert!((500..1_500).contains(&d.circle.factor_y));
        assert!(d.circle.outside < 6 && d.circle.inside < 6);
        assert!(d.triangle.x >= -540_000 && d.triangle.x < 540_000);
        assert!(d.triangle.y >= -360_000 && d.triangle.y < 360_000);
        offsets.push(d.circle.offset);
    }
    offsets.dedup();
    assert!(offsets.len() > 1);
    let c = Circle::new_rand(&mut rng, 1_000);
    assert!(c.x.abs() == 960_000 || c.y.abs() == 960_000);
    let t = Triangle::new(&mut rng, 5, 6);
    assert_eq!((t.x, t.y), (5, 6));
    assert!(t.colour < 6);
}

#[test]
fn headroom_tracks_session_limits() {
    let mut g = session(10);
    assert!(g.can_advance(16));
    g.time_elapsed = carket::rules::TIME_LIMIT - 10;
    assert!(g.can_advance(10));
    assert!(!g.can_advance(11));
    g.time_elapsed = 0;
    g.grown = carket::rules::GROWN_LIMIT - 1;
    assert!(g.can_advance(16));
    g.circles.push(still_circle(0, 0, 1, 1));
    assert!(!g.can_advance(16));
}

#[test]
fn idle_ticks_leave_the_generator_alone() {
    let mut used = StdRng::seed_from_u64(3);
    let mut fresh = StdRng::seed_from_u64(3);
    let mut g = Game::new();
    assert!(g.on_update(16, &mut used).is_empty());
    g.init(10);
    g.on_input(Input::KeyReleased(Key::P));
    assert!(g.on_update(16, &mut used).is_empty());
    assert_eq!(g.time_elapsed, 0);
    assert_eq!(used.gen::<u64>(), fresh.gen::<u64>());
}

#[test]
fn new_game_starts_on_the_menu_at_rest() {
    let g = Game::new();
    assert_eq!(g.game_state, GameState::MainMenu);
    assert!(!g.is_paused);
    assert_eq!((g.time_elapsed, g.grown, g.score, g.tris), (0, 0, 0, 0));
    assert_eq!((g.col_left, g.col_right), (None, None));
    assert_eq!(g.player, carket::entities::Player::new());
    assert_eq!((g.player.x, g.player.y, g.player.radius), (0, 0, 40_000));
    assert_eq!(g.next_place_triangle, 10_000);
    assert_eq!(g.music, carket::music::Music::new());
}

#[test]
fn far_cursor_on_the_menu_is_ignored() {
    let mut g = Game::new();
    g.on_input(Input::Cursor(i64::MAX, i64::MIN));
    assert_eq!((g.mx, g.my), (0, 0));
    assert_eq!(g.game_state, GameState::MainMenu);
}
