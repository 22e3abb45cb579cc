use carket::arith::isqrt;
use carket::entities::{Circle, CircleDraw, Triangle, CIRCLE_RADIUS, TRIANGLE_LIFETIME};
use carket::music::{Cue, Music};
use carket::rules::{
    cap_of_circles, chance_of_spawn, multiplier_of_speed, score_gain, seek_toward, shrink_radius,
    touches,
};

#[test]
fn isqrt_rounds_down() {
    assert_eq!(isqrt(0), 0);
    assert_eq!(isqrt(1), 1);
    assert_eq!(isqrt(15), 3);
    assert_eq!(isqrt(16), 4);
    assert_eq!(isqrt(u64::MAX), 4_294_967_295);
}

#[test]
fn overlap_uses_doubled_distance() {
    // Two radii of 40 pixels touch only closer than 40 pixels apart.
    assert!(touches(0, 0, 40_000, 0, 0, 40_000));
    assert!(touches(0, 0, 40_000, 39_999, 0, 40_000));
    assert!(!touches(0, 0, 40_000, 40_000, 0, 40_000));
    assert!(!touches(0, 0, 40_000, 30_000, 30_000, 40_000));
}

#[test]
fn radius_decay_formula() {
    assert_eq!(shrink_radius(40_000, 100), 40_000);
    assert_eq!(shrink_radius(250_000, 0), 200_000);
    // 130 px for one second: 90^2 / 9000 = 0.9 px.
    assert_eq!(shrink_radius(130_000, 1_000), 129_100);
    // Above the ceiling the radius is cut back first: 160^2 / 9000 * 0.5 s.
    assert_eq!(shrink_radius(300_000, 500), 200_000 - 1_422);
}

#[test]
fn radius_stays_in_band_after_long_tick() {
    let r = shrink_radius(200_000, 50_000);
    assert!(r >= 40_000 && r <= 200_000);
}

#[test]
fn score_gain_formula() {
    assert_eq!(score_gain(10, 0, 40_000, 0), 0);
    // difficulty 1, one second, radius 40 px, nothing grown: 0.0001 points.
    assert_eq!(score_gain(10, 1_000, 40_000, 0), 100);
    // difficulty 2, 4 s, radius 50 px, grown 3: 4 * 2 * 2 * 2 / 10000 = 0.0032.
    assert_eq!(score_gain(20, 4_000, 50_000, 3), 3_200);
}

#[test]
fn spawn_chance_formula() {
    assert_eq!(chance_of_spawn(0, 0), 15_000);
    assert_eq!(chance_of_spawn(1_000, 8), 16_100);
}

#[test]
fn spawn_cap_formula() {
    assert_eq!(cap_of_circles(100_000, 0, 10), 30);
    assert_eq!(cap_of_circles(0, 100, 10), 5);
    assert_eq!(cap_of_circles(0, 0, 50), 0);
}

#[test]
fn speed_multiplier_formula() {
    assert_eq!(multiplier_of_speed(0, 0, 10), 1_000);
    assert_eq!(multiplier_of_speed(100_000, 0, 10), 2_000);
    assert_eq!(multiplier_of_speed(0, 10, 20), 3_000);
}

#[test]
fn doubling_difficulty_never_lowers_cadence() {
    for &(t, g) in &[(0u64, 0u64), (50_000, 4), (1_000_000, 100), (7_777, 31)] {
        for &d in &[3u64, 6, 10, 20, 50] {
            assert!(cap_of_circles(t, g, 2 * d) >= cap_of_circles(t, g, d));
            assert!(multiplier_of_speed(t, g, 2 * d) >= multiplier_of_speed(t, g, d));
        }
    }
    assert_eq!(cap_of_circles(0, 400, 20), 20);
    assert_eq!(cap_of_circles(0, 400, 10), 10);
}

#[test]
fn seek_snaps_when_close() {
    assert_eq!(seek_toward(0, 0, 3_000, 4_000 - 1, 16), (3_000, 3_999));
}

#[test]
fn seek_moves_at_fixed_speed() {
    // 500 px/s for 0.1 s along +x.
    assert_eq!(seek_toward(0, 0, 100_000, 0, 100), (50_000, 0));
    // Along a 3-4-5 direction.
    assert_eq!(seek_toward(0, 0, -300_000, 400_000, 100), (-30_000, 40_000));
}

#[test]
fn circle_aims_inward_from_top_edge() {
    let d = CircleDraw {
        horizontal_edge: true,
        first_side: true,
        offset: 960_000,
        factor_x: 1_000,
        factor_y: 1_000,
        outside: 2,
        inside: 5,
    };
    let c = Circle::from_draw(&d, 1_000);
    assert_eq!((c.x, c.y), (0, -960_000));
    assert_eq!((c.vx, c.vy), (0, 100));
    assert_eq!((c.outside_colour, c.inside_colour), (2, 5));
    assert_eq!(c.radius, CIRCLE_RADIUS);
    assert!(!c.to_delete);
}

#[test]
fn circle_aims_inward_from_right_edge() {
    let d = CircleDraw {
        horizontal_edge: false,
        first_side: false,
        offset: 1_920_000 - 1,
        factor_x: 500,
        factor_y: 1_499,
        outside: 0,
        inside: 0,
    };
    let c = Circle::from_draw(&d, 2_000);
    assert_eq!((c.x, c.y), (960_000, 959_999));
    assert!(c.vx < 0 && c.vy < 0);
}

#[test]
fn circle_moves_by_velocity() {
    let mut c = Circle::new2(10, -10);
    c.vx = 100;
    c.vy = -50;
    c.update(20);
    assert_eq!((c.x, c.y), (2_010, -1_010));
    assert_eq!(Circle::new(), Circle::new2(0, 0));
}

#[test]
fn triangle_expires() {
    let mut t = Triangle::placed(0, 0, 1);
    assert_eq!(t.lifetime, TRIANGLE_LIFETIME);
    t.update(30_000);
    assert!(!t.to_delete);
    t.update(1);
    assert!(t.to_delete);
}

#[test]
fn music_first_tick_plays_base_layer() {
    let mut m = Music::new();
    let cues = m.update(16, 0, 0, 40_000);
    assert_eq!(cues, vec![Cue::Bass2]);
    assert_eq!(m.next_bass2, 18_000_000 / 1_778);
    assert_eq!(m.next_bass, -100);
    let cues = m.update(16, 10_001, 0, 40_000);
    assert_eq!(cues, vec![Cue::Bass]);
}

#[test]
fn music_combo_escalates() {
    let mut m = Music::new();
    m.next_bass2 = 1_000_000;
    // Radius 44 px: growth 5 px >= 4 * 1 px.
    let cues = m.update(16, 0, 0, 44_000);
    assert_eq!(cues, vec![Cue::Combo1]);
    assert_eq!((m.combo_meter, m.last_combo), (1, 5_000));
    let cues = m.update(16, 0, 0, 59_000);
    assert_eq!(cues, vec![Cue::Combo1]);
    assert_eq!(m.combo_meter, 2);
    assert_eq!(m.next_combo2, 300 - 16);
    // Falling below 80% of the threshold resets the meter.
    let cues = m.update(16, 0, 0, 40_000);
    assert!(cues.is_empty());
    assert_eq!((m.combo_meter, m.last_combo), (0, 1_000));
}
