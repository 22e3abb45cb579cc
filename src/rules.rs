use vstd::prelude::*;
use crate::arith::{floor_sqrt, isqrt, lemma_floor_sqrt_at_most, lemma_mul_le};
use crate::entities::{
    abs, COORD_LIMIT, MAX_TICK, MULTIPLIER_LIMIT, PLAYER_MAX_RADIUS, PLAYER_MIN_RADIUS,
};

verus! {

/// Longest session, in milliseconds.
pub const TIME_LIMIT: u64 = 10_000_000_000;
/// Most circles a session can absorb.
pub const GROWN_LIMIT: u64 = 1_000_000;
/// Highest difficulty, in tenths.
pub const DIFFICULTY_LIMIT: u64 = 1_000;
/// Largest radius the player can reach within a tick.
pub const RADIUS_BOUND: u64 = 2_000_200_000;
/// Bound on coordinates that the overlap test accepts.
pub const POS_LIMIT: i64 = 1_099_511_627_776;
/// Distance under which the player jumps onto its target.
pub const SNAP_DISTANCE: i64 = 5_000;
/// The player's speed, in thousandths of a pixel per millisecond.
pub const PLAYER_SPEED: u64 = 500;
/// Bound on the player's coordinates.
pub const PLAYER_LIMIT: i64 = 225_000_000;
/// Denominator of the per-tick circle spawn chance.
pub const CHANCE_SCALE: u64 = 1_000_000;

/// Two circles overlap when twice the distance of their centres is below
/// the sum of their radii.
pub open spec fn overlaps(ax: int, ay: int, ar: int, bx: int, by: int, br: int) -> bool {
    4 * ((ax - bx) * (ax - bx) + (ay - by) * (ay - by)) < (ar + br) * (ar + br)
}

/// Whether the circles at `(ax, ay)` and `(bx, by)` overlap.
pub fn touches(ax: i64, ay: i64, ar: u64, bx: i64, by: i64, br: u64) -> (r: bool)
    requires
        abs(ax as int) <= POS_LIMIT,
        abs(ay as int) <= POS_LIMIT,
        abs(bx as int) <= POS_LIMIT,
        abs(by as int) <= POS_LIMIT,
        ar <= POS_LIMIT,
        br <= POS_LIMIT,
    ensures
        r == overlaps(ax as int, ay as int, ar as int, bx as int, by as int, br as int),
{
    let dx: i128 = ax as i128 - bx as i128;
    let dy: i128 = ay as i128 - by as i128;
    let rs: i128 = ar as i128 + br as i128;
    assert(dx * dx <= 4 * POS_LIMIT * POS_LIMIT) by (nonlinear_arith)
        requires
            -2 * POS_LIMIT <= dx <= 2 * POS_LIMIT,
    ;
    assert(dy * dy <= 4 * POS_LIMIT * POS_LIMIT) by (nonlinear_arith)
        requires
            -2 * POS_LIMIT <= dy <= 2 * POS_LIMIT,
    ;
    assert(0 <= dx * dx && 0 <= dy * dy) by (nonlinear_arith);
    assert(0 <= rs * rs <= 4 * POS_LIMIT * POS_LIMIT) by (nonlinear_arith)
        requires
            0 <= rs <= 2 * POS_LIMIT,
    ;
    4 * (dx * dx + dy * dy) < rs * rs
}

/// The player's radius after a tick of `dt` milliseconds: cut back to the
/// ceiling, then, above the baseline, shrunk by `dt * (r - base)^2 / 9000`
/// (in pixels and seconds).
pub open spec fn shrunk_radius(r: int, dt: int) -> int {
    let c = if r > PLAYER_MAX_RADIUS { PLAYER_MAX_RADIUS as int } else { r };
    if c > PLAYER_MIN_RADIUS {
        c - dt * (c - PLAYER_MIN_RADIUS) * (c - PLAYER_MIN_RADIUS) / 9_000_000_000
    } else {
        c
    }
}

/// Cuts the radius back to the ceiling and shrinks it toward the baseline.
pub fn shrink_radius(r: u64, dt: u64) -> (s: u64)
    requires
        PLAYER_MIN_RADIUS <= r,
        dt <= MAX_TICK,
    ensures
        s == shrunk_radius(r as int, dt as int),
        PLAYER_MIN_RADIUS <= s <= PLAYER_MAX_RADIUS,
{
    let c: u64 = if r > PLAYER_MAX_RADIUS { PLAYER_MAX_RADIUS } else { r };
    if c > PLAYER_MIN_RADIUS {
        let a: u64 = c - PLAYER_MIN_RADIUS;
        proof {
            lemma_mul_le(dt as int, a as int, MAX_TICK as int, 160_000);
            lemma_mul_le(dt * a, a as int, MAX_TICK * 160_000, 160_000);
            assert(dt * a * a <= 9_000_000_000 * a) by (nonlinear_arith)
                requires
                    dt * a <= MAX_TICK * 160_000,
                    0 <= a,
            ;
            vstd::arithmetic::div_mod::lemma_div_is_ordered(
                dt * a * a,
                9_000_000_000 * a,
                9_000_000_000,
            );
            vstd::arithmetic::div_mod::lemma_div_multiples_vanish(a as int, 9_000_000_000);
        }
        c - dt * a * a / 9_000_000_000
    } else {
        c
    }
}

/// Score gained in one tick, in millionths of a point: difficulty squared
/// times the root of the elapsed seconds times `(radius - 30) / 10` times
/// the root of `grown + 1`, over ten thousand (in pixels, seconds and whole
/// difficulty). The two roots are taken together.
pub open spec fn tick_gain(difficulty: int, time: int, radius: int, grown: int) -> int {
    difficulty * difficulty * floor_sqrt((1000 * time * (grown + 1)) as nat) * (radius - 30_000)
        / 10_000_000
}

/// The score gained in one tick.
pub fn score_gain(difficulty: u64, time: u64, radius: u64, grown: u64) -> (s: u64)
    requires
        difficulty <= DIFFICULTY_LIMIT,
        time <= TIME_LIMIT,
        grown <= GROWN_LIMIT,
        PLAYER_MIN_RADIUS <= radius <= RADIUS_BOUND,
    ensures
        s == tick_gain(difficulty as int, time as int, radius as int, grown as int),
{
    proof {
        lemma_mul_le(1000 * time, grown + 1, 1000 * TIME_LIMIT, GROWN_LIMIT + 1);
        assert(1000 * TIME_LIMIT * (GROWN_LIMIT + 1) == 10_000_010_000_000_000_000int)
            by (nonlinear_arith);
        assert(3_200_000_000 * 3_200_000_000 == 10_240_000_000_000_000_000);
    }
    let n: u64 = 1000 * time * (grown + 1);
    let root: u64 = isqrt(n);
    proof {
        lemma_floor_sqrt_at_most(n as nat, 3_200_000_000);
        lemma_mul_le(difficulty as int, difficulty as int, DIFFICULTY_LIMIT as int, DIFFICULTY_LIMIT as int);
        lemma_mul_le(difficulty * difficulty, root as int, DIFFICULTY_LIMIT * DIFFICULTY_LIMIT, 3_200_000_000);
        lemma_mul_le(
            difficulty * difficulty * root,
            radius - 30_000,
            DIFFICULTY_LIMIT * DIFFICULTY_LIMIT * 3_200_000_000,
            RADIUS_BOUND as int,
        );
        let big: int = DIFFICULTY_LIMIT * DIFFICULTY_LIMIT * 3_200_000_000 * RADIUS_BOUND;
        vstd::arithmetic::div_mod::lemma_div_is_ordered(
            difficulty * difficulty * root * (radius - 30_000),
            big,
            10_000_000,
        );
        assert(big == 10_000_000 * 640_064_000_000_000_000);
        vstd::arithmetic::div_mod::lemma_div_multiples_vanish(640_064_000_000_000_000, 10_000_000);
    }
    let p: u128 = difficulty as u128 * difficulty as u128 * root as u128 * (radius - 30_000) as u128;
    (p / 10_000_000) as u64
}

/// Chance that a circle spawns in one tick, in millionths:
/// `0.015 + sqrt(seconds) / 10000 + grown / 8000`.
pub open spec fn spawn_chance(time: int, grown: int) -> int {
    15_000 + floor_sqrt((10 * time) as nat) + 125 * grown
}

pub fn chance_of_spawn(time: u64, grown: u64) -> (c: u64)
    requires
        time <= TIME_LIMIT,
        grown <= GROWN_LIMIT,
    ensures
        c == spawn_chance(time as int, grown as int),
{
    let root = isqrt(10 * time);
    proof {
        lemma_floor_sqrt_at_most((10 * time) as nat, 400_000);
    }
    15_000 + root + 125 * grown
}

/// Most circles that may be on the field at once:
/// `sqrt(seconds) * 3 + sqrt(grown) * 5 * 0.1 * difficulty`, rounded down.
pub open spec fn spawn_cap(time: int, grown: int, difficulty: int) -> int {
    (3 * floor_sqrt((1000 * time) as nat) + floor_sqrt((1_000_000 * grown) as nat) * difficulty / 20)
        / 1000
}

pub fn cap_of_circles(time: u64, grown: u64, difficulty: u64) -> (c: u64)
    requires
        time <= TIME_LIMIT,
        grown <= GROWN_LIMIT,
        difficulty <= DIFFICULTY_LIMIT,
    ensures
        c == spawn_cap(time as int, grown as int, difficulty as int),
{
    let a = isqrt(1000 * time);
    let b = isqrt(1_000_000 * grown);
    proof {
        lemma_floor_sqrt_at_most((1000 * time) as nat, 4_000_000);
        lemma_floor_sqrt_at_most((1_000_000 * grown) as nat, 1_000_000);
        lemma_mul_le(b as int, difficulty as int, 1_000_000, DIFFICULTY_LIMIT as int);
    }
    (3 * a + b * difficulty / 20) / 1000
}

/// Speed multiplier of new circles, in thousandths:
/// `1 + sqrt(seconds / 100 + grown / 10) * difficulty`.
pub open spec fn speed_multiplier(time: int, grown: int, difficulty: int) -> int {
    1000 + floor_sqrt((10 * (time + 10_000 * grown)) as nat) * difficulty / 10
}

pub fn multiplier_of_speed(time: u64, grown: u64, difficulty: u64) -> (m: u64)
    requires
        time <= TIME_LIMIT,
        grown <= GROWN_LIMIT,
        difficulty <= DIFFICULTY_LIMIT,
    ensures
        m == speed_multiplier(time as int, grown as int, difficulty as int),
        m <= MULTIPLIER_LIMIT,
{
    let root = isqrt(10 * (time + 10_000 * grown));
    proof {
        lemma_floor_sqrt_at_most((10 * (time + 10_000 * grown)) as nat, 447_214);
        lemma_mul_le(root as int, difficulty as int, 447_214, DIFFICULTY_LIMIT as int);
    }
    1000 + root * difficulty / 10
}

/// Chance, in millionths, that a circle spawns in a tick with `count`
/// circles on the field: the spawn chance while under the cap, else none.
pub open spec fn spawn_odds(time: int, grown: int, difficulty: int, count: int) -> int {
    if count < spawn_cap(time, grown, difficulty) {
        let c = spawn_chance(time, grown);
        if c > CHANCE_SCALE { CHANCE_SCALE as int } else { c }
    } else {
        0
    }
}

/// Milliseconds between two triangles: ten seconds times the difficulty.
pub open spec fn triangle_interval(difficulty: int) -> int {
    1000 * difficulty
}

/// Where one axis of the player lands when it moves `step` along a
/// direction whose component on that axis is `d` out of `len`, rounded
/// toward the start.
pub open spec fn seek_axis(p: int, d: int, len: int, step: int) -> int {
    if d >= 0 {
        p + step * d / len
    } else {
        p - step * (-d) / len
    }
}

/// The player's position after `dt` milliseconds of moving from `(px, py)`
/// toward `(fx, fy)`: it jumps onto the target when closer than the snap
/// distance, and otherwise moves at its fixed speed along the direction.
pub open spec fn seek(px: int, py: int, fx: int, fy: int, dt: int) -> (int, int) {
    let dx = fx - px;
    let dy = fy - py;
    let sq = dx * dx + dy * dy;
    if sq < SNAP_DISTANCE * SNAP_DISTANCE {
        (fx, fy)
    } else {
        let len = floor_sqrt(sq as nat) as int;
        (seek_axis(px, dx, len, dt * PLAYER_SPEED), seek_axis(py, dy, len, dt * PLAYER_SPEED))
    }
}

proof fn lemma_seek_axis_bound(p: int, d: int, len: int, step: int)
    requires
        abs(d) <= len,
        0 < len,
        0 <= step <= PLAYER_SPEED * MAX_TICK,
        abs(p) <= PLAYER_LIMIT,
        abs(p + d) <= 2 * COORD_LIMIT,
    ensures
        abs(seek_axis(p, d, len, step)) <= PLAYER_LIMIT,
{
    let m = step * abs(d) / len;
    assert(step * abs(d) <= step * len) by (nonlinear_arith)
        requires
            abs(d) <= len,
            0 <= step,
    ;
    assert(0 <= step * abs(d)) by (nonlinear_arith)
        requires
            0 <= step,
            0 <= abs(d),
    ;
    vstd::arithmetic::div_mod::lemma_div_is_ordered(step * abs(d), step * len, len);
    vstd::arithmetic::div_mod::lemma_div_multiples_vanish(step, len);
    assert(step * len == len * step) by (nonlinear_arith);
    vstd::arithmetic::div_mod::lemma_div_pos_is_pos(step * abs(d), len);
    assert(0 <= m <= step);
}

/// Moves from `(px, py)` toward `(fx, fy)` for `dt` milliseconds.
pub fn seek_toward(px: i64, py: i64, fx: i64, fy: i64, dt: u64) -> (r: (i64, i64))
    requires
        abs(px as int) <= PLAYER_LIMIT,
        abs(py as int) <= PLAYER_LIMIT,
        abs(fx as int) <= 2 * COORD_LIMIT,
        abs(fy as int) <= 2 * COORD_LIMIT,
        dt <= MAX_TICK,
    ensures
        r.0 as int == seek(px as int, py as int, fx as int, fy as int, dt as int).0,
        r.1 as int == seek(px as int, py as int, fx as int, fy as int, dt as int).1,
        abs(r.0 as int) <= PLAYER_LIMIT,
        abs(r.1 as int) <= PLAYER_LIMIT,
{
    let dx: i64 = fx - px;
    let dy: i64 = fy - py;
    assert(0 <= dx * dx <= 425_000_000 * 425_000_000) by (nonlinear_arith)
        requires
            -425_000_000 <= dx <= 425_000_000,
    ;
    assert(0 <= dy * dy <= 425_000_000 * 425_000_000) by (nonlinear_arith)
        requires
            -425_000_000 <= dy <= 425_000_000,
    ;
    let sq: i64 = dx * dx + dy * dy;
    if sq < SNAP_DISTANCE * SNAP_DISTANCE {
        (fx, fy)
    } else {
        let len: u64 = isqrt(sq as u64);
        assert(SNAP_DISTANCE <= len) by (nonlinear_arith)
            requires
                SNAP_DISTANCE * SNAP_DISTANCE <= sq,
                sq < (len + 1) * (len + 1),
        ;
        assert(abs(dx as int) <= len && abs(dy as int) <= len) by (nonlinear_arith)
            requires
                dx * dx + dy * dy < (len + 1) * (len + 1),
                0 <= len,
        ;
        let step: u64 = dt * PLAYER_SPEED;
        proof {
            lemma_seek_axis_bound(px as int, dx as int, len as int, step as int);
            lemma_seek_axis_bound(py as int, dy as int, len as int, step as int);
        }
        let nx = seek_axis_exec(px, dx, len, step);
        let ny = seek_axis_exec(py, dy, len, step);
        (nx, ny)
    }
}

fn seek_axis_exec(p: i64, d: i64, len: u64, step: u64) -> (r: i64)
    requires
        abs(d as int) <= len,
        0 < len,
        step <= PLAYER_SPEED * MAX_TICK,
        abs(seek_axis(p as int, d as int, len as int, step as int)) <= PLAYER_LIMIT,
        abs(d as int) <= 425_000_000,
    ensures
        r == seek_axis(p as int, d as int, len as int, step as int),
{
    let mag: u64 = if d >= 0 { d as u64 } else { (-d) as u64 };
    proof {
        lemma_mul_le(step as int, mag as int, (PLAYER_SPEED * MAX_TICK) as int, 425_000_000);
    }
    let m: u64 = step * mag / len;
    if d >= 0 {
        p + m as i64
    } else {
        p - m as i64
    }
}

} // verus!
