use vstd::prelude::*;
use rand::rngs::StdRng;
use crate::arith::{isqrt, floor_sqrt, lemma_mul_le};
use crate::random::{draw_below, draw_flag};

verus! {

/// Number of colours in the palette; every colour index is below it.
pub const PALETTE_SIZE: usize = 6;
/// The player's smallest radius, the baseline it shrinks back to.
pub const PLAYER_MIN_RADIUS: u64 = 40_000;
/// The player's radius is cut back to this at the start of each tick.
pub const PLAYER_MAX_RADIUS: u64 = 200_000;
/// What one absorbed circle adds to the player's radius.
pub const GROWTH_PER_ABSORB: u64 = 2_000;
/// Radius of every circle.
pub const CIRCLE_RADIUS: u64 = 40_000;
/// Radius of every triangle.
pub const TRIANGLE_RADIUS: u64 = 20_000;
/// How long a triangle stays on the field, in milliseconds.
pub const TRIANGLE_LIFETIME: i64 = 30_000;
/// Circles spawn on the edges of the square with this half-width.
pub const SPAWN_EDGE: i64 = 960_000;
/// Length of one spawn edge.
pub const SPAWN_SPAN: u64 = 1_920_000;
/// Lowest random speed factor, in thousandths (inclusive).
pub const SPEED_FACTOR_LOW: u64 = 500;
/// Highest random speed factor, in thousandths (exclusive).
pub const SPEED_FACTOR_HIGH: u64 = 1_500;
/// Bound on a circle's speed multiplier, in thousandths.
pub const MULTIPLIER_LIMIT: u64 = 50_000_000;
/// Bound on each component of a circle's velocity, in thousandths of a pixel per millisecond.
pub const VELOCITY_LIMIT: i64 = 10_000_000;
/// Bound on the cursor and screen-centre coordinates.
pub const COORD_LIMIT: i64 = 100_000_000;
/// Longest single tick, in milliseconds.
pub const MAX_TICK: u64 = 50_000;

pub open spec fn abs(v: int) -> int {
    if v < 0 { -v } else { v }
}

/// The player: a circle that follows the cursor.
#[derive(Clone, Copy, Debug, PartialEq, Eq, Structural)]
pub struct Player {
    pub x: i64,
    pub y: i64,
    pub radius: u64,
    pub colour_state: usize,
}

impl Player {
    /// A player at the centre, at the baseline radius, with the first colour.
    pub fn new() -> (p: Player)
        ensures
            p.x == 0 && p.y == 0,
            p.radius == PLAYER_MIN_RADIUS,
            p.colour_state == 0,
    {
        Player { x: 0, y: 0, radius: PLAYER_MIN_RADIUS, colour_state: 0 }
    }
}

/// A moving circle with an outer and an inner colour.
#[derive(Clone, Copy, Debug, PartialEq, Eq, Structural)]
pub struct Circle {
    pub x: i64,
    pub y: i64,
    pub vx: i64,
    pub vy: i64,
    pub radius: u64,
    pub outside_colour: usize,
    pub inside_colour: usize,
    pub to_delete: bool,
}

/// The random choices that place a new circle.
#[derive(Clone, Copy, Debug, PartialEq, Eq, Structural)]
pub struct CircleDraw {
    /// On the top or bottom edge rather than the left or right one.
    pub horizontal_edge: bool,
    /// On the top (or left) edge rather than the bottom (or right) one.
    pub first_side: bool,
    /// Position along the edge, below `SPAWN_SPAN`.
    pub offset: u64,
    /// Speed factors of the two axes, in thousandths, in `[500, 1500)`.
    pub factor_x: u64,
    pub factor_y: u64,
    /// Colour draws, each below `PALETTE_SIZE`.
    pub outside: u64,
    pub inside: u64,
}

impl CircleDraw {
    pub open spec fn valid(&self) -> bool {
        &&& self.offset < SPAWN_SPAN
        &&& SPEED_FACTOR_LOW <= self.factor_x < SPEED_FACTOR_HIGH
        &&& SPEED_FACTOR_LOW <= self.factor_y < SPEED_FACTOR_HIGH
        &&& self.outside < PALETTE_SIZE
        &&& self.inside < PALETTE_SIZE
    }
}

/// Where a circle appears: on one of the four edges of the spawn square.
pub open spec fn edge_point(horizontal_edge: bool, first_side: bool, offset: int) -> (int, int) {
    let along = offset - SPAWN_EDGE;
    if horizontal_edge {
        if first_side { (along, -SPAWN_EDGE as int) } else { (along, SPAWN_EDGE as int) }
    } else {
        if first_side { (-SPAWN_EDGE as int, along) } else { (SPAWN_EDGE as int, along) }
    }
}

/// One component of the velocity of a circle at `c` on that axis, pointing
/// back toward the centre: `-c / norm` scaled by a hundred pixels per second,
/// the speed multiplier and the random factor (both in thousandths),
/// rounded toward zero.
pub open spec fn inward_velocity(c: int, norm: int, multiplier: int, factor: int) -> int {
    if c >= 0 {
        -((c * multiplier * factor) / (norm * 10_000))
    } else {
        ((-c) * multiplier * factor) / (norm * 10_000)
    }
}

fn inward(c: i64, norm: u64, multiplier: u64, factor: u64) -> (v: i64)
    requires
        -SPAWN_EDGE <= c <= SPAWN_EDGE,
        SPAWN_EDGE <= norm,
        multiplier <= MULTIPLIER_LIMIT,
        factor < SPEED_FACTOR_HIGH,
    ensures
        v == inward_velocity(c as int, norm as int, multiplier as int, factor as int),
        -VELOCITY_LIMIT <= v <= VELOCITY_LIMIT,
{
    let mag: u64 = if c >= 0 { c as u64 } else { (-c) as u64 };
    let bound: Ghost<int> = Ghost(SPAWN_EDGE * MULTIPLIER_LIMIT * SPEED_FACTOR_HIGH);
    proof {
        lemma_mul_le(mag as int, multiplier as int, SPAWN_EDGE as int, MULTIPLIER_LIMIT as int);
        lemma_mul_le(
            mag * multiplier,
            factor as int,
            SPAWN_EDGE * MULTIPLIER_LIMIT,
            SPEED_FACTOR_HIGH as int,
        );
    }
    let num: u128 = mag as u128 * multiplier as u128 * factor as u128;
    let den: u128 = norm as u128 * 10_000;
    let q: u128 = num / den;
    proof {
        let bound = bound@;
        vstd::arithmetic::div_mod::lemma_div_is_ordered_by_denominator(
            num as int,
            SPAWN_EDGE * 10_000,
            den as int,
        );
        vstd::arithmetic::div_mod::lemma_div_is_ordered(num as int, bound, SPAWN_EDGE * 10_000);
        assert(bound == (SPAWN_EDGE * 10_000) * 7_500_000);
        vstd::arithmetic::div_mod::lemma_div_multiples_vanish(7_500_000, SPAWN_EDGE * 10_000);
    }
    if c >= 0 {
        -(q as i64)
    } else {
        q as i64
    }
}

impl Circle {
    /// A still circle at the centre.
    pub fn new() -> (c: Circle)
        ensures
            c == Circle::new2_spec(0, 0),
    {
        Circle::new2(0, 0)
    }

    pub open spec fn new2_spec(x: i64, y: i64) -> Circle {
        Circle {
            x,
            y,
            vx: 0,
            vy: 0,
            radius: CIRCLE_RADIUS,
            outside_colour: 0,
            inside_colour: 1,
            to_delete: false,
        }
    }

    /// A still circle at `(x, y)`, outside colour 0, inside colour 1.
    pub fn new2(x: i64, y: i64) -> (c: Circle)
        ensures
            c == Circle::new2_spec(x, y),
    {
        Circle {
            x,
            y,
            vx: 0,
            vy: 0,
            radius: CIRCLE_RADIUS,
            outside_colour: 0,
            inside_colour: 1,
            to_delete: false,
        }
    }

    /// The circle that `d` places, moving inward with the speed multiplier
    /// `multiplier` (in thousandths).
    pub open spec fn drawn(d: CircleDraw, multiplier: int) -> Circle {
        let (x, y) = edge_point(d.horizontal_edge, d.first_side, d.offset as int);
        let norm = floor_sqrt((x * x + y * y) as nat) as int;
        Circle {
            x: x as i64,
            y: y as i64,
            vx: inward_velocity(x, norm, multiplier, d.factor_x as int) as i64,
            vy: inward_velocity(y, norm, multiplier, d.factor_y as int) as i64,
            radius: CIRCLE_RADIUS,
            outside_colour: d.outside as usize,
            inside_colour: d.inside as usize,
            to_delete: false,
        }
    }

    /// A circle on an edge of the spawn square, aimed back toward the centre.
    pub fn from_draw(d: &CircleDraw, multiplier: u64) -> (c: Circle)
        requires
            d.valid(),
            multiplier <= MULTIPLIER_LIMIT,
        ensures
            c == Circle::drawn(*d, multiplier as int),
            c.wf(),
    {
        let along: i64 = d.offset as i64 - SPAWN_EDGE;
        let (x, y): (i64, i64) = if d.horizontal_edge {
            if d.first_side { (along, -SPAWN_EDGE) } else { (along, SPAWN_EDGE) }
        } else {
            if d.first_side { (-SPAWN_EDGE, along) } else { (SPAWN_EDGE, along) }
        };
        assert(x * x <= SPAWN_EDGE * SPAWN_EDGE) by (nonlinear_arith)
            requires
                -SPAWN_EDGE <= x <= SPAWN_EDGE,
        ;
        assert(y * y <= SPAWN_EDGE * SPAWN_EDGE) by (nonlinear_arith)
            requires
                -SPAWN_EDGE <= y <= SPAWN_EDGE,
        ;
        assert(SPAWN_EDGE * SPAWN_EDGE <= x * x + y * y) by (nonlinear_arith)
            requires
                x == SPAWN_EDGE || x == -SPAWN_EDGE || y == SPAWN_EDGE || y == -SPAWN_EDGE,
        ;
        let sq: u64 = (x * x + y * y) as u64;
        let norm = isqrt(sq);
        assert(SPAWN_EDGE <= norm) by (nonlinear_arith)
            requires
                SPAWN_EDGE * SPAWN_EDGE <= sq,
                sq < (norm + 1) * (norm + 1),
        ;
        let vx = inward(x, norm, multiplier, d.factor_x);
        let vy = inward(y, norm, multiplier, d.factor_y);
        Circle {
            x,
            y,
            vx,
            vy,
            radius: CIRCLE_RADIUS,
            outside_colour: d.outside as usize,
            inside_colour: d.inside as usize,
            to_delete: false,
        }
    }

    /// A circle on a random edge of the spawn square with random colours,
    /// aimed back toward the centre at a random share of its speed.
    pub fn new_rand(rng: &mut StdRng, multiplier: u64) -> (c: Circle)
        requires
            multiplier <= MULTIPLIER_LIMIT,
        ensures
            exists|d: CircleDraw| d.valid() && c == #[trigger] Circle::drawn(d, multiplier as int),
    {
        let d = CircleDraw::new_rand(rng);
        Circle::from_draw(&d, multiplier)
    }

    /// A live circle with sane colours and a bounded velocity.
    pub open spec fn wf(&self) -> bool {
        &&& self.outside_colour < PALETTE_SIZE
        &&& self.inside_colour < PALETTE_SIZE
        &&& -VELOCITY_LIMIT <= self.vx <= VELOCITY_LIMIT
        &&& -VELOCITY_LIMIT <= self.vy <= VELOCITY_LIMIT
        &&& self.radius == CIRCLE_RADIUS
    }

    /// Moves the circle by its velocity over `dt` milliseconds.
    pub fn update(&mut self, dt: u64)
        requires
            old(self).wf(),
            dt <= MAX_TICK,
            abs(old(self).x as int) <= i64::MAX / 2,
            abs(old(self).y as int) <= i64::MAX / 2,
        ensures
            *final(self) == (Circle {
                x: (old(self).x + old(self).vx * dt) as i64,
                y: (old(self).y + old(self).vy * dt) as i64,
                ..*old(self)
            }),
    {
        assert(-VELOCITY_LIMIT * MAX_TICK <= self.vx * dt <= VELOCITY_LIMIT * MAX_TICK)
            by (nonlinear_arith)
            requires
                -VELOCITY_LIMIT <= self.vx <= VELOCITY_LIMIT,
                dt <= MAX_TICK,
        ;
        assert(-VELOCITY_LIMIT * MAX_TICK <= self.vy * dt <= VELOCITY_LIMIT * MAX_TICK)
            by (nonlinear_arith)
            requires
                -VELOCITY_LIMIT <= self.vy <= VELOCITY_LIMIT,
                dt <= MAX_TICK,
        ;
        self.x = self.x + self.vx * (dt as i64);
        self.y = self.y + self.vy * (dt as i64);
    }
}

impl CircleDraw {
    /// Draws the choices for one circle from `rng`.
    pub fn new_rand(rng: &mut StdRng) -> (d: CircleDraw)
        ensures
            d.valid(),
    {
        let horizontal_edge = draw_flag(rng);
        let first_side = draw_flag(rng);
        let offset = draw_below(rng, SPAWN_SPAN);
        let factor_x = SPEED_FACTOR_LOW + draw_below(rng, SPEED_FACTOR_HIGH - SPEED_FACTOR_LOW);
        let factor_y = SPEED_FACTOR_LOW + draw_below(rng, SPEED_FACTOR_HIGH - SPEED_FACTOR_LOW);
        let outside = draw_below(rng, PALETTE_SIZE as u64);
        let inside = draw_below(rng, PALETTE_SIZE as u64);
        CircleDraw { horizontal_edge, first_side, offset, factor_x, factor_y, outside, inside }
    }
}

/// A power-up triangle that waits on the field for the player.
#[derive(Clone, Copy, Debug, PartialEq, Eq, Structural)]
pub struct Triangle {
    pub x: i64,
    pub y: i64,
    pub radius: u64,
    pub colour: usize,
    /// Milliseconds left before it disappears.
    pub lifetime: i64,
    pub to_delete: bool,
}

impl Triangle {
    pub open spec fn placed_spec(x: i64, y: i64, colour: usize) -> Triangle {
        Triangle {
            x,
            y,
            radius: TRIANGLE_RADIUS,
            colour,
            lifetime: TRIANGLE_LIFETIME,
            to_delete: false,
        }
    }

    /// A fresh triangle at `(x, y)` with the given colour.
    pub fn placed(x: i64, y: i64, colour: usize) -> (t: Triangle)
        ensures
            t == Triangle::placed_spec(x, y, colour),
    {
        Triangle { x, y, radius: TRIANGLE_RADIUS, colour, lifetime: TRIANGLE_LIFETIME, to_delete: false }
    }

    /// A fresh triangle at `(px, py)` with a random colour.
    pub fn new(rng: &mut StdRng, px: i64, py: i64) -> (t: Triangle)
        ensures
            t == Triangle::placed_spec(px, py, t.colour),
            t.colour < PALETTE_SIZE,
    {
        let colour = draw_below(rng, PALETTE_SIZE as u64) as usize;
        Triangle::placed(px, py, colour)
    }

    /// Where a uniform draw `u` below `span` lands on an axis of that length
    /// centred on the origin.
    pub open spec fn across(u: int, span: int) -> int {
        u - span / 2
    }

    /// A fresh triangle with a random colour at a random point of the
    /// `bx` by `by` rectangle centred on the origin.
    pub fn new_rand(rng: &mut StdRng, bx: u64, by: u64) -> (t: Triangle)
        requires
            bx <= 2 * COORD_LIMIT,
            by <= 2 * COORD_LIMIT,
        ensures
            t == Triangle::placed_spec(t.x, t.y, t.colour),
            t.colour < PALETTE_SIZE,
            bx == 0 ==> t.x == 0,
            by == 0 ==> t.y == 0,
            bx > 0 ==> -(bx / 2) <= t.x < bx - bx / 2,
            by > 0 ==> -(by / 2) <= t.y < by - by / 2,
    {
        let ux: u64 = if bx > 0 { draw_below(rng, bx) } else { 0 };
        let uy: u64 = if by > 0 { draw_below(rng, by) } else { 0 };
        let x: i64 = ux as i64 - (bx / 2) as i64;
        let y: i64 = uy as i64 - (by / 2) as i64;
        let colour = draw_below(rng, PALETTE_SIZE as u64) as usize;
        Triangle::placed(x, y, colour)
    }

    /// Counts `dt` milliseconds off the lifetime; a triangle whose time has
    /// run out is marked for deletion.
    pub fn update(&mut self, dt: u64)
        requires
            dt <= MAX_TICK,
            old(self).lifetime >= -(MAX_TICK as int),
        ensures
            *final(self) == (Triangle {
                lifetime: (old(self).lifetime - dt) as i64,
                to_delete: old(self).to_delete || old(self).lifetime - dt < 0,
                ..*old(self)
            }),
    {
        self.lifetime = self.lifetime - dt as i64;
        if self.lifetime < 0 {
            self.to_delete = true;
        }
    }
}

} // verus!
