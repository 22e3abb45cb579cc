use vstd::prelude::*;
use rand::rngs::StdRng;
use crate::entities::{
    abs, Circle, CircleDraw, Player, Triangle, COORD_LIMIT, GROWTH_PER_ABSORB, MAX_TICK,
    PALETTE_SIZE, PLAYER_MAX_RADIUS, VELOCITY_LIMIT, SPAWN_EDGE, PLAYER_MIN_RADIUS, TRIANGLE_LIFETIME, TRIANGLE_RADIUS,
};
use crate::music::{Cue, Music, COMBO_FLOOR, IDLE_TIMER, TIMER_LIMIT};
use crate::rules::{
    cap_of_circles, chance_of_spawn, multiplier_of_speed, overlaps, score_gain, seek, seek_toward,
    shrink_radius, spawn_cap, spawn_chance, speed_multiplier, tick_gain, touches,
    triangle_interval, shrunk_radius, CHANCE_SCALE, DIFFICULTY_LIMIT, GROWN_LIMIT, PLAYER_LIMIT,
    RADIUS_BOUND, TIME_LIMIT,
};
use crate::random::draw_below;

verus! {

/// Circles that drift beyond this distance on either axis are dropped.
pub const FIELD_LIMIT: i64 = 1_200_000;
/// Bonus for an absorbed circle, per circle absorbed so far, in millionths of a point.
pub const ABSORB_BONUS: u64 = 10_000_000;

/// Which screen the game is on.
#[derive(Clone, Copy, Debug, PartialEq, Eq, Structural)]
pub enum GameState {
    MainMenu,
    Game,
    Credits,
    End,
}

/// What a tick changes of the player and the session while circles and
/// triangles meet it, one after another.
#[derive(Clone, Copy, Debug, PartialEq, Eq, Structural)]
pub struct Standing {
    pub x: i64,
    pub y: i64,
    pub radius: u64,
    pub colour: usize,
    pub grown: u64,
    pub score: u64,
    pub left: Option<usize>,
    pub right: Option<usize>,
    pub ended: bool,
}

/// `a + b`, held at the largest `u64`.
pub open spec fn sat_add(a: int, b: int) -> u64 {
    if a + b > u64::MAX { u64::MAX } else { (a + b) as u64 }
}

/// The circle beyond the field on some axis.
pub open spec fn out_of_field(c: Circle) -> bool {
    c.x > FIELD_LIMIT || c.x < -FIELD_LIMIT || c.y > FIELD_LIMIT || c.y < -FIELD_LIMIT
}

/// The circle `c` after it has moved for `dt` milliseconds.
pub open spec fn moved(c: Circle, dt: int) -> Circle {
    Circle { x: (c.x + c.vx * dt) as i64, y: (c.y + c.vy * dt) as i64, ..c }
}

/// One circle meets the player: it moves, and if it overlaps the player it is
/// absorbed when its outer colour is the player's, and otherwise either ends
/// the session (no power-up held) or costs a power-up (the left one when the
/// right slot is empty). A circle that does not overlap is marked once it
/// has left the field. Once the session has ended, circles are left alone.
pub open spec fn meet(s: Standing, c: Circle, dt: int) -> (Standing, Circle, Seq<Cue>) {
    let m = moved(c, dt);
    if s.ended {
        (s, c, seq![])
    } else if overlaps(s.x as int, s.y as int, s.radius as int, m.x as int, m.y as int, m.radius as int) {
        if m.outside_colour == s.colour {
            (
                Standing {
                    grown: (s.grown + 1) as u64,
                    radius: (s.radius + GROWTH_PER_ABSORB) as u64,
                    colour: m.inside_colour,
                    score: sat_add(s.score as int, ABSORB_BONUS * (s.grown + 1)),
                    ..s
                },
                Circle { to_delete: true, ..m },
                seq![Cue::Absorb],
            )
        } else if s.left is None && s.right is None {
            (Standing { ended: true, ..s }, m, seq![Cue::Death])
        } else if s.right is None {
            (Standing { left: None, ..s }, Circle { to_delete: true, ..m }, seq![Cue::LoseShield])
        } else {
            (Standing { right: None, ..s }, Circle { to_delete: true, ..m }, seq![Cue::LoseShield])
        }
    } else {
        (s, Circle { to_delete: out_of_field(m), ..m }, seq![])
    }
}

/// The circles `cs` meet the player in order.
pub open spec fn meet_all(s: Standing, cs: Seq<Circle>, dt: int) -> (Standing, Seq<Circle>, Seq<Cue>)
    decreases cs.len(),
{
    if cs.len() == 0 {
        (s, seq![], seq![])
    } else {
        let (s1, done, cues) = meet_all(s, cs.drop_last(), dt);
        let (s2, c, q) = meet(s1, cs.last(), dt);
        (s2, done.push(c), cues + q)
    }
}

/// What a power-up pickup of colour `colour` does to the two slots: fill the
/// left one if empty, else the right one if empty, else nothing.
pub open spec fn picked_up(left: Option<usize>, right: Option<usize>, colour: usize) -> (Option<usize>, Option<usize>) {
    if left is None {
        (Some(colour), right)
    } else if right is None {
        (left, Some(colour))
    } else {
        (left, right)
    }
}

/// The triangle `t` after `dt` milliseconds of its lifetime.
pub open spec fn aged(t: Triangle, dt: int) -> Triangle {
    Triangle { lifetime: (t.lifetime - dt) as i64, to_delete: t.to_delete || t.lifetime - dt < 0, ..t }
}

/// One triangle meets the player: it ages, and if it overlaps the player it
/// is picked up into a power-up slot and removed.
pub open spec fn touch(s: Standing, t: Triangle, dt: int) -> (Standing, Triangle, Seq<Cue>) {
    let u = aged(t, dt);
    if overlaps(s.x as int, s.y as int, s.radius as int, u.x as int, u.y as int, u.radius as int) {
        let (l, r) = picked_up(s.left, s.right, u.colour);
        (Standing { left: l, right: r, ..s }, Triangle { to_delete: true, ..u }, seq![Cue::Pickup])
    } else {
        (s, u, seq![])
    }
}

/// The triangles `ts` meet the player in order.
pub open spec fn touch_all(s: Standing, ts: Seq<Triangle>, dt: int) -> (Standing, Seq<Triangle>, Seq<Cue>)
    decreases ts.len(),
{
    if ts.len() == 0 {
        (s, seq![], seq![])
    } else {
        let (s1, done, cues) = touch_all(s, ts.drop_last(), dt);
        let (s2, t, q) = touch(s1, ts.last(), dt);
        (s2, done.push(t), cues + q)
    }
}

/// The circles of `cs` that are not marked, in their order.
pub open spec fn live_circles(cs: Seq<Circle>) -> Seq<Circle> {
    cs.filter(|c: Circle| !c.to_delete)
}

/// The triangles of `ts` that are not marked, in their order.
pub open spec fn live_triangles(ts: Seq<Triangle>) -> Seq<Triangle> {
    ts.filter(|t: Triangle| !t.to_delete)
}

/// Circles that absorb nothing leave the score alone; the count of
/// absorbed circles never falls.
pub proof fn lemma_meet_all_grown(s: Standing, cs: Seq<Circle>, dt: int)
    requires
        s.grown + cs.len() <= GROWN_LIMIT,
    ensures
        meet_all(s, cs, dt).0.grown >= s.grown,
        meet_all(s, cs, dt).0.grown <= s.grown + cs.len(),
        meet_all(s, cs, dt).0.grown == s.grown ==> meet_all(s, cs, dt).0.score == s.score,
    decreases cs.len(),
{
    if cs.len() > 0 {
        lemma_meet_all_grown(s, cs.drop_last(), dt);
    }
}

/// After the sweep no circle is marked, and each one was there before it.
pub proof fn lemma_swept_circles(cs: Seq<Circle>)
    ensures
        forall|i: int|
            0 <= i < live_circles(cs).len() ==> !(#[trigger] live_circles(cs)[i]).to_delete
                && cs.contains(live_circles(cs)[i]),
{
    let f = |c: Circle| !c.to_delete;
    assert forall|i: int| 0 <= i < live_circles(cs).len() implies !(#[trigger] live_circles(cs)[i]).to_delete
        && cs.contains(live_circles(cs)[i]) by {
        cs.lemma_filter_pred(f, i);
        assert(cs.filter(f).contains(cs.filter(f)[i]));
        cs.lemma_filter_contains_rev(f, cs.filter(f)[i]);
    }
}

/// After the sweep no triangle is marked, and each one was there before it.
pub proof fn lemma_swept_triangles(ts: Seq<Triangle>)
    ensures
        forall|i: int|
            0 <= i < live_triangles(ts).len() ==> !(#[trigger] live_triangles(ts)[i]).to_delete
                && ts.contains(live_triangles(ts)[i]),
{
    let f = |t: Triangle| !t.to_delete;
    assert forall|i: int| 0 <= i < live_triangles(ts).len() implies !(#[trigger] live_triangles(ts)[i]).to_delete
        && ts.contains(live_triangles(ts)[i]) by {
        ts.lemma_filter_pred(f, i);
        assert(ts.filter(f).contains(ts.filter(f)[i]));
        ts.lemma_filter_contains_rev(f, ts.filter(f)[i]);
    }
}

fn push_all(a: &mut Vec<Cue>, b: &Vec<Cue>)
    ensures
        final(a)@ == old(a)@ + b@,
{
    let mut i: usize = 0;
    while i < b.len()
        invariant
            i <= b@.len(),
            a@ == old(a)@ + b@.take(i as int),
        decreases b.len() - i,
    {
        a.push(b[i]);
        assert(b@.take(i + 1) =~= b@.take(i as int).push(b@[i as int]));
        i = i + 1;
    }
    assert(b@.take(b@.len() as int) =~= b@);
}

/// Drops the marked circles, keeping the order of the rest.
pub fn keep_live_circles(v: &Vec<Circle>) -> (r: Vec<Circle>)
    ensures
        r@ == live_circles(v@),
{
    let mut r: Vec<Circle> = Vec::new();
    let mut i: usize = 0;
    while i < v.len()
        invariant
            i <= v@.len(),
            r@ == live_circles(v@.take(i as int)),
        decreases v.len() - i,
    {
        if !v[i].to_delete {
            r.push(v[i]);
        }
        proof {
            reveal(Seq::filter);
            assert(v@.take(i + 1).drop_last() =~= v@.take(i as int));
        }
        i = i + 1;
    }
    assert(v@.take(v@.len() as int) =~= v@);
    r
}

/// Drops the marked triangles, keeping the order of the rest.
pub fn keep_live_triangles(v: &Vec<Triangle>) -> (r: Vec<Triangle>)
    ensures
        r@ == live_triangles(v@),
{
    let mut r: Vec<Triangle> = Vec::new();
    let mut i: usize = 0;
    while i < v.len()
        invariant
            i <= v@.len(),
            r@ == live_triangles(v@.take(i as int)),
        decreases v.len() - i,
    {
        if !v[i].to_delete {
            r.push(v[i]);
        }
        proof {
            reveal(Seq::filter);
            assert(v@.take(i + 1).drop_last() =~= v@.take(i as int));
        }
        i = i + 1;
    }
    assert(v@.take(v@.len() as int) =~= v@);
    r
}

pub open spec fn slot_ok(s: Option<usize>) -> bool {
    match s {
        Some(c) => c < PALETTE_SIZE,
        None => true,
    }
}

/// A circle on the field: sane, not marked, and (while a session runs)
/// within the field.
pub open spec fn circle_ok(c: Circle, in_play: bool) -> bool {
    &&& c.wf()
    &&& !c.to_delete
    &&& in_play ==> -FIELD_LIMIT <= c.x <= FIELD_LIMIT && -FIELD_LIMIT <= c.y <= FIELD_LIMIT
}

/// A triangle on the field: sane, not marked, with time left.
pub open spec fn triangle_ok(t: Triangle) -> bool {
    &&& t.colour < PALETTE_SIZE
    &&& !t.to_delete
    &&& 0 <= t.lifetime <= TRIANGLE_LIFETIME
    &&& abs(t.x as int) <= COORD_LIMIT
    &&& abs(t.y as int) <= COORD_LIMIT
    &&& t.radius == TRIANGLE_RADIUS
}

/// Where the first triangle of a session appears, on both axes.
pub const FIRST_TRIANGLE_OFFSET: i64 = 60_000;
/// Milliseconds before the first triangle of a session.
pub const FIRST_TRIANGLE_DELAY: i64 = 10_000;

/// The random values one tick may use.
#[derive(Clone, Copy, Debug, PartialEq, Eq, Structural)]
pub struct TickDraws {
    /// Decides whether a circle spawns, below `CHANCE_SCALE`.
    pub spawn_roll: u64,
    /// Places the circle, if one spawns.
    pub circle: CircleDraw,
    /// The triangle to place, if one is due and it is not the session's first.
    pub triangle: Triangle,
}

impl TickDraws {
    pub open spec fn valid(&self) -> bool {
        &&& self.spawn_roll < CHANCE_SCALE
        &&& self.circle.valid()
        &&& self.triangle == Triangle::placed_spec(self.triangle.x, self.triangle.y, self.triangle.colour)
        &&& triangle_ok(self.triangle)
    }

    /// Draws the values of one tick from `rng`; triangles land within the
    /// screen whose centre is `(scx, scy)`.
    pub fn new_rand(rng: &mut StdRng, scx: i64, scy: i64) -> (d: TickDraws)
        requires
            0 <= scx <= COORD_LIMIT,
            0 <= scy <= COORD_LIMIT,
        ensures
            d.valid(),
    {
        let spawn_roll = draw_below(rng, CHANCE_SCALE);
        let circle = CircleDraw::new_rand(rng);
        let triangle = Triangle::new_rand(rng, 2 * scx as u64, 2 * scy as u64);
        TickDraws { spawn_roll, circle, triangle }
    }
}

/// A keyboard key, as far as the game tells keys apart.
#[derive(Clone, Copy, Debug, PartialEq, Eq, Structural)]
pub enum Key {
    D0,
    D1,
    D2,
    D3,
    D4,
    C,
    P,
    Escape,
    Return,
    Other,
}

/// A mouse button, as far as the game tells buttons apart.
#[derive(Clone, Copy, Debug, PartialEq, Eq, Structural)]
pub enum MouseButton {
    Left,
    Right,
    Other,
}

/// An input event.
#[derive(Clone, Copy, Debug, PartialEq, Eq, Structural)]
pub enum Input {
    /// The cursor moved to this point of the screen.
    Cursor(i64, i64),
    KeyReleased(Key),
    MouseReleased(MouseButton),
    Other,
}

impl Input {
    pub open spec fn valid(&self) -> bool {
        match *self {
            Input::Cursor(x, y) => abs(x as int) <= COORD_LIMIT && abs(y as int) <= COORD_LIMIT,
            _ => true,
        }
    }
}

/// The text shown over a running session.
#[derive(Clone, Copy, Debug, PartialEq, Eq, Structural)]
pub enum Hint {
    /// How to move and eat; for the first ten seconds.
    Movement,
    /// How power-ups work; for the next ten.
    PowerUps,
    Nothing,
}

/// The difficulty, in tenths, that a key picks on the main menu.
pub open spec fn difficulty_of(k: Key) -> Option<u64> {
    match k {
        Key::D1 => Some(3u64),
        Key::D2 => Some(6u64),
        Key::D3 => Some(10u64),
        Key::D4 => Some(20u64),
        Key::D0 => Some(50u64),
        _ => None,
    }
}

/// The player's colour and a power-up slot after the slot is used: a held
/// colour trades places with the player's.
pub open spec fn swapped(colour: usize, slot: Option<usize>) -> (usize, Option<usize>) {
    match slot {
        Some(c) => (c, Some(colour)),
        None => (colour, None),
    }
}

/// What an input does to `g`, apart from a main-menu key that starts a
/// session: on a running session the cursor moves, P pauses or resumes,
/// Escape leaves for the menu, and a mouse button uses its power-up slot;
/// on the menu C opens the credits; on the credits and the end screen
/// Return goes back to the menu. Everything else is ignored.
pub open spec fn after_input(g: Game, input: Input) -> Game {
    match g.game_state {
        GameState::Game => match input {
            Input::Cursor(x, y) => Game { mx: x, my: y, ..g },
            Input::KeyReleased(Key::P) => Game { is_paused: !g.is_paused, ..g },
            Input::KeyReleased(Key::Escape) => Game { game_state: GameState::MainMenu, ..g },
            Input::MouseReleased(MouseButton::Left) => {
                let (c, slot) = swapped(g.player.colour_state, g.col_left);
                Game { player: Player { colour_state: c, ..g.player }, col_left: slot, ..g }
            },
            Input::MouseReleased(MouseButton::Right) => {
                let (c, slot) = swapped(g.player.colour_state, g.col_right);
                Game { player: Player { colour_state: c, ..g.player }, col_right: slot, ..g }
            },
            _ => g,
        },
        GameState::MainMenu => match input {
            Input::KeyReleased(Key::C) => Game { game_state: GameState::Credits, ..g },
            _ => g,
        },
        _ => match input {
            Input::KeyReleased(Key::Return) => Game { game_state: GameState::MainMenu, ..g },
            _ => g,
        },
    }
}

/// The input starts a session from the main menu.
pub open spec fn starts_session(g: Game, input: Input) -> bool {
    g.game_state == GameState::MainMenu && match input {
        Input::KeyReleased(k) => difficulty_of(k) is Some,
        _ => false,
    }
}

/// What one running, unpaused tick makes of a session.
pub struct TickView {
    pub standing: Standing,
    pub circles: Seq<Circle>,
    pub triangles: Seq<Triangle>,
    pub cues: Seq<Cue>,
    pub music: Music,
    pub time_elapsed: u64,
    pub next_place_triangle: i64,
    pub tris: u64,
}

/// One running, unpaused tick of `dt` milliseconds on `g` with the random
/// values `d`, phase by phase: the music scheduler; the score gain at the
/// session time before the tick; the clock; the radius cut back and shrunk;
/// a due triangle; a possible new circle (at the new session time); the
/// player's move; the circles meeting the player, then swept; the triangles
/// meeting the player, then swept.
pub open spec fn tick_view(g: Game, dt: int, d: TickDraws) -> TickView {
    let (music, cues1) = g.music.updated(dt, g.time_elapsed as int, g.grown as int, g.player.radius as int);
    let score = sat_add(
        g.score as int,
        tick_gain(g.difficulty as int, g.time_elapsed as int, g.player.radius as int, g.grown as int),
    );
    let time = g.time_elapsed + dt;
    let radius = shrunk_radius(g.player.radius as int, dt);
    let due = g.next_place_triangle < 0;
    let ts1 = if due {
        g.triangles@.push(
            if g.tris == 0 {
                Triangle::placed_spec(FIRST_TRIANGLE_OFFSET, FIRST_TRIANGLE_OFFSET, d.triangle.colour)
            } else {
                d.triangle
            },
        )
    } else {
        g.triangles@
    };
    let cs1 = if d.spawn_roll < spawn_chance(time, g.grown as int) && g.circles@.len() < spawn_cap(
        time,
        g.grown as int,
        g.difficulty as int,
    ) {
        g.circles@.push(Circle::drawn(d.circle, speed_multiplier(time, g.grown as int, g.difficulty as int)))
    } else {
        g.circles@
    };
    let (x, y) = seek(g.player.x as int, g.player.y as int, g.mx - g.scx, g.my - g.scy, dt);
    let s1 = Standing { x: x as i64, y: y as i64, radius: radius as u64, score, ..g.standing() };
    let (s2, cs2, cues2) = meet_all(s1, cs1, dt);
    let (s3, ts2, cues3) = touch_all(s2, ts1, dt);
    TickView {
        standing: s3,
        circles: live_circles(cs2),
        triangles: live_triangles(ts2),
        cues: cues1 + cues2 + cues3,
        music,
        time_elapsed: time as u64,
        next_place_triangle: if due { triangle_interval(g.difficulty as int) as i64 } else { (g.next_place_triangle - dt) as i64 },
        tris: if due { sat_add(g.tris as int, 1) } else { g.tris },
    }
}

/// The whole state of the game.
pub struct Game {
    pub is_paused: bool,
    pub game_state: GameState,
    /// Session time, in milliseconds.
    pub time_elapsed: u64,
    /// Circles absorbed this session.
    pub grown: u64,
    /// The screen centre.
    pub scx: i64,
    pub scy: i64,
    /// The cursor, in screen coordinates.
    pub mx: i64,
    pub my: i64,
    pub player: Player,
    pub circles: Vec<Circle>,
    pub triangles: Vec<Triangle>,
    /// Milliseconds until the next triangle.
    pub next_place_triangle: i64,
    /// Triangles placed this session.
    pub tris: u64,
    pub col_left: Option<usize>,
    pub col_right: Option<usize>,
    /// Score, in millionths of a point.
    pub score: u64,
    pub music: Music,
    /// Difficulty, in tenths.
    pub difficulty: u64,
}

impl Game {
    pub open spec fn wf(&self) -> bool {
        &&& self.difficulty <= DIFFICULTY_LIMIT
        &&& self.time_elapsed <= TIME_LIMIT
        &&& self.grown <= GROWN_LIMIT
        &&& PLAYER_MIN_RADIUS <= self.player.radius <= RADIUS_BOUND
        &&& self.player.colour_state < PALETTE_SIZE
        &&& abs(self.player.x as int) <= PLAYER_LIMIT
        &&& abs(self.player.y as int) <= PLAYER_LIMIT
        &&& 0 <= self.scx <= COORD_LIMIT
        &&& 0 <= self.scy <= COORD_LIMIT
        &&& abs(self.mx as int) <= COORD_LIMIT
        &&& abs(self.my as int) <= COORD_LIMIT
        &&& slot_ok(self.col_left)
        &&& slot_ok(self.col_right)
        &&& forall|i: int|
            0 <= i < self.circles@.len() ==> circle_ok(
                #[trigger] self.circles@[i],
                self.game_state == GameState::Game,
            )
        &&& forall|i: int| 0 <= i < self.triangles@.len() ==> triangle_ok(#[trigger] self.triangles@[i])
        &&& self.music.wf()
        &&& -(MAX_TICK as int) <= self.next_place_triangle <= 1000 * DIFFICULTY_LIMIT
    }

    /// The state a session starts in at difficulty `difficulty`; the screen,
    /// the cursor and the music carry over from `g`.
    pub open spec fn initialised(&self, g: Game, difficulty: u64) -> bool {
        &&& self.circles@.len() == 0
        &&& self.triangles@.len() == 0
        &&& self.score == 0
        &&& self.next_place_triangle == FIRST_TRIANGLE_DELAY
        &&& !self.is_paused
        &&& self.time_elapsed == 0
        &&& self.grown == 0
        &&& self.col_left is None && self.col_right is None
        &&& self.tris == 0
        &&& self.player == (Player { x: 0, y: 0, radius: PLAYER_MIN_RADIUS, colour_state: 0 })
        &&& self.difficulty == difficulty
        &&& self.game_state == GameState::Game
        &&& self.scx == g.scx && self.scy == g.scy && self.mx == g.mx && self.my == g.my
        &&& self.music == g.music
    }

    /// A game on the main menu, on a 600 by 600 pixel screen.
    pub fn new() -> (g: Game)
        ensures
            g.wf(),
            g.game_state == GameState::MainMenu,
            g.scx == 300_000 && g.scy == 300_000,
            g.circles@.len() == 0 && g.triangles@.len() == 0,
            g.difficulty == 0,
            !g.is_paused,
            g.time_elapsed == 0,
            g.grown == 0,
            g.score == 0,
            g.col_left is None && g.col_right is None,
            g.player == (Player { x: 0, y: 0, radius: PLAYER_MIN_RADIUS, colour_state: 0 }),
            g.tris == 0,
            g.next_place_triangle == FIRST_TRIANGLE_DELAY,
            g.mx == 0 && g.my == 0,
            g.music == (Music {
                next_bass: -100i64,
                next_bass2: -100i64,
                next_bass3: -100i64,
                last_combo: COMBO_FLOOR,
                combo_meter: 0,
                next_combo2: IDLE_TIMER,
                next_combo3: TIMER_LIMIT,
            }),
    {
        Game {
            is_paused: false,
            game_state: GameState::MainMenu,
            time_elapsed: 0,
            grown: 0,
            scx: 300_000,
            scy: 300_000,
            mx: 0,
            my: 0,
            player: Player::new(),
            circles: Vec::new(),
            triangles: Vec::new(),
            next_place_triangle: FIRST_TRIANGLE_DELAY,
            tris: 0,
            col_left: None,
            col_right: None,
            score: 0,
            music: Music::new(),
            difficulty: 0,
        }
    }

    /// Starts a session at difficulty `difficulty` (in tenths).
    pub fn init(&mut self, difficulty: u64)
        requires
            old(self).wf(),
            difficulty <= DIFFICULTY_LIMIT,
        ensures
            final(self).initialised(*old(self), difficulty),
            final(self).wf(),
    {
        self.circles.clear();
        self.triangles.clear();
        self.score = 0;
        self.next_place_triangle = FIRST_TRIANGLE_DELAY;
        self.is_paused = false;
        self.time_elapsed = 0;
        self.grown = 0;
        self.col_left = None;
        self.col_right = None;
        self.tris = 0;
        self.player = Player::new();
        self.difficulty = difficulty;
        self.game_state = GameState::Game;
    }

    /// Room for one more tick of `dt` milliseconds within the session's
    /// limits, whatever the tick absorbs.
    pub open spec fn has_headroom(&self, dt: u64) -> bool {
        &&& self.time_elapsed + dt <= TIME_LIMIT
        &&& self.grown + self.circles@.len() + 1 <= GROWN_LIMIT
    }

    /// Whether one more tick of `dt` milliseconds fits the session's limits.
    pub fn can_advance(&self, dt: u64) -> (r: bool)
        requires
            self.wf(),
        ensures
            r == self.has_headroom(dt),
    {
        dt <= TIME_LIMIT - self.time_elapsed
            && self.grown < GROWN_LIMIT
            && self.circles.len() as u64 <= GROWN_LIMIT - 1 - self.grown
    }

    /// Counts down to the next triangle; when it is due, places it (the
    /// session's first near the centre, later ones at `draw`) and starts
    /// the next countdown.
    pub fn place_triangle(&mut self, dt: u64, draw: &Triangle)
        requires
            old(self).wf(),
            dt <= MAX_TICK,
            *draw == Triangle::placed_spec(draw.x, draw.y, draw.colour),
            triangle_ok(*draw),
        ensures
            final(self).wf(),
            final(self).standing() == old(self).standing(),
            final(self).circles@ == old(self).circles@,
            final(self).game_state == old(self).game_state,
            final(self).time_elapsed == old(self).time_elapsed,
            final(self).difficulty == old(self).difficulty,
            final(self).music == old(self).music,
            final(self).mx == old(self).mx && final(self).my == old(self).my,
            final(self).scx == old(self).scx && final(self).scy == old(self).scy,
            final(self).is_paused == old(self).is_paused,
            old(self).next_place_triangle < 0 ==> {
                &&& final(self).triangles@ == old(self).triangles@.push(
                    if old(self).tris == 0 {
                        Triangle::placed_spec(FIRST_TRIANGLE_OFFSET, FIRST_TRIANGLE_OFFSET, draw.colour)
                    } else {
                        *draw
                    },
                )
                &&& final(self).tris == sat_add(old(self).tris as int, 1)
                &&& final(self).next_place_triangle == triangle_interval(old(self).difficulty as int)
            },
            old(self).next_place_triangle >= 0 ==> {
                &&& final(self).triangles@ == old(self).triangles@
                &&& final(self).tris == old(self).tris
                &&& final(self).next_place_triangle == old(self).next_place_triangle - dt
            },
    {
        if self.next_place_triangle < 0 {
            if self.tris == 0 {
                self.triangles.push(Triangle::placed(FIRST_TRIANGLE_OFFSET, FIRST_TRIANGLE_OFFSET, draw.colour));
            } else {
                self.triangles.push(*draw);
            }
            self.tris = self.tris.saturating_add(1);
            self.next_place_triangle = (1000 * self.difficulty) as i64;
        } else {
            self.next_place_triangle = self.next_place_triangle - dt as i64;
        }
        proof {
            assert forall|i: int| 0 <= i < self.triangles@.len() implies triangle_ok(
                #[trigger] self.triangles@[i],
            ) by {
                if i < old(self).triangles@.len() {
                    assert(self.triangles@[i] == old(self).triangles@[i]);
                }
            }
        }
    }

    /// A new circle joins the field when the roll falls under the spawn
    /// chance and the field holds fewer circles than the cap.
    pub fn spawn_circle(&mut self, roll: u64, draw: &CircleDraw)
        requires
            old(self).wf(),
            draw.valid(),
            old(self).game_state == GameState::Game,
        ensures
            final(self).wf(),
            final(self).standing() == old(self).standing(),
            final(self).same_session(*old(self)),
            final(self).triangles@ == old(self).triangles@,
            final(self).game_state == old(self).game_state,
            ({
                let t = old(self).time_elapsed as int;
                let g = old(self).grown as int;
                let d = old(self).difficulty as int;
                if roll < spawn_chance(t, g) && old(self).circles@.len() < spawn_cap(t, g, d) {
                    final(self).circles@ == old(self).circles@.push(Circle::drawn(*draw, speed_multiplier(t, g, d)))
                } else {
                    final(self).circles@ == old(self).circles@
                }
            }),
    {
        let chance = chance_of_spawn(self.time_elapsed, self.grown);
        let cap = cap_of_circles(self.time_elapsed, self.grown, self.difficulty);
        if roll < chance && (self.circles.len() as u64) < cap {
            let m = multiplier_of_speed(self.time_elapsed, self.grown, self.difficulty);
            let c = Circle::from_draw(draw, m);
            assert(-SPAWN_EDGE <= c.x <= SPAWN_EDGE && -SPAWN_EDGE <= c.y <= SPAWN_EDGE);
            self.circles.push(c);
            proof {
                assert forall|i: int| 0 <= i < self.circles@.len() implies circle_ok(
                    #[trigger] self.circles@[i],
                    self.game_state == GameState::Game,
                ) by {
                    if i < old(self).circles@.len() {
                        assert(self.circles@[i] == old(self).circles@[i]);
                    }
                }
            }
        }
    }

    /// The player moves toward the cursor, seen from the screen centre.
    pub fn move_player(&mut self, dt: u64)
        requires
            old(self).wf(),
            dt <= MAX_TICK,
        ensures
            final(self).wf(),
            final(self).player.x as int == seek(
                old(self).player.x as int,
                old(self).player.y as int,
                old(self).mx - old(self).scx,
                old(self).my - old(self).scy,
                dt as int,
            ).0,
            final(self).player.y as int == seek(
                old(self).player.x as int,
                old(self).player.y as int,
                old(self).mx - old(self).scx,
                old(self).my - old(self).scy,
                dt as int,
            ).1,
            final(self).player.radius == old(self).player.radius,
            final(self).player.colour_state == old(self).player.colour_state,
            final(self).circles@ == old(self).circles@,
            final(self).triangles@ == old(self).triangles@,
            final(self).same_session(*old(self)),
            final(self).game_state == old(self).game_state,
            final(self).grown == old(self).grown && final(self).score == old(self).score,
            final(self).col_left == old(self).col_left && final(self).col_right == old(self).col_right,
    {
        let (x, y) = seek_toward(self.player.x, self.player.y, self.mx - self.scx, self.my - self.scy, dt);
        self.player.x = x;
        self.player.y = y;
    }

    /// What holds of `self` when it is what a tick of `dt` milliseconds made
    /// of `g`, with the cues `cues`: the game stays well formed, nothing moves
    /// outside a running unpaused session, and within one the clock
    /// advances, the radius stays at or above the baseline and at most the
    /// ceiling plus what this tick absorbed, and if nothing was absorbed the
    /// score grew by exactly the tick's gain.
    pub open spec fn ticked(&self, g: Game, dt: u64, cues: Seq<Cue>) -> bool {
        &&& self.wf()
        &&& !(g.game_state == GameState::Game && !g.is_paused) ==> {
            &&& self.standing() == g.standing()
            &&& self.circles@ == g.circles@
            &&& self.triangles@ == g.triangles@
            &&& self.same_session(g)
            &&& self.game_state == g.game_state
            &&& cues.len() == 0
        }
        &&& g.game_state == GameState::Game && !g.is_paused ==> {
            &&& self.time_elapsed == g.time_elapsed + dt
            &&& self.music == g.music.updated(
                dt as int,
                g.time_elapsed as int,
                g.grown as int,
                g.player.radius as int,
            ).0
            &&& self.difficulty == g.difficulty
            &&& self.grown >= g.grown
            &&& PLAYER_MIN_RADIUS <= self.player.radius
            &&& self.player.radius <= PLAYER_MAX_RADIUS + GROWTH_PER_ABSORB * (self.grown - g.grown)
            &&& self.game_state == GameState::Game || self.game_state == GameState::End
            &&& self.grown == g.grown ==> self.score == sat_add(
                g.score as int,
                tick_gain(
                    g.difficulty as int,
                    g.time_elapsed as int,
                    g.player.radius as int,
                    g.grown as int,
                ),
            )
        }
    }

    /// `self` is the session `g` after a tick whose outcome is `v`, with
    /// the cues `cues`.
    pub open spec fn matches_view(&self, g: Game, v: TickView, cues: Seq<Cue>) -> bool {
        &&& self.standing() == v.standing
        &&& self.circles@ == v.circles
        &&& self.triangles@ == v.triangles
        &&& cues == v.cues
        &&& self.music == v.music
        &&& self.time_elapsed == v.time_elapsed
        &&& self.next_place_triangle == v.next_place_triangle
        &&& self.tris == v.tris
        &&& self.is_paused == g.is_paused
        &&& self.difficulty == g.difficulty
        &&& self.mx == g.mx && self.my == g.my && self.scx == g.scx && self.scy == g.scy
        &&& self.game_state == (if v.standing.ended { GameState::End } else { GameState::Game })
    }

    /// One update tick of `dt` milliseconds. Outside a running, unpaused
    /// session nothing changes. Otherwise, in order: the music scheduler
    /// runs; the score grows by `tick_gain` at the session time before the
    /// tick; the clock advances; the radius is cut back and shrinks; a due
    /// triangle is placed; a circle may spawn; the player moves; the circles
    /// meet the player and the marked ones are swept; then the triangles.
    /// Returns the cues to play, in order.
    pub fn advance(&mut self, dt: u64, draws: &TickDraws) -> (cues: Vec<Cue>)
        requires
            old(self).wf(),
            dt <= MAX_TICK,
            old(self).has_headroom(dt),
            draws.valid(),
        ensures
            final(self).ticked(*old(self), dt, cues@),
            old(self).game_state == GameState::Game && !old(self).is_paused ==> final(self).matches_view(
                *old(self),
                tick_view(*old(self), dt as int, *draws),
                cues@,
            ),
    {
        if !matches!(self.game_state, GameState::Game) || self.is_paused {
            return Vec::new();
        }
        let mut cues = self.music.update(dt, self.time_elapsed, self.grown, self.player.radius);
        let gain = score_gain(self.difficulty, self.time_elapsed, self.player.radius, self.grown);
        self.score = self.score.saturating_add(gain);
        self.time_elapsed = self.time_elapsed + dt;
        self.player.radius = shrink_radius(self.player.radius, dt);
        self.place_triangle(dt, &draws.triangle);
        self.spawn_circle(draws.spawn_roll, &draws.circle);
        self.move_player(dt);
        let ghost s_mid = self.standing();
        let ghost cs_mid = self.circles@;
        let hits = self.collide_circles(dt);
        proof {
            lemma_meet_all_grown(s_mid, cs_mid, dt as int);
        }
        push_all(&mut cues, &hits);
        let ghost pre = self.circles@;
        proof {
            lemma_swept_circles(pre);
        }
        self.circles = keep_live_circles(&self.circles);
        proof {
            let cs = self.circles@;
            assert forall|i: int| 0 <= i < cs.len() implies circle_ok(
                #[trigger] cs[i],
                self.game_state == GameState::Game,
            ) by {
                assert(pre.contains(live_circles(pre)[i]));
                let k = choose|k: int| 0 <= k < pre.len() && pre[k] == cs[i];
                assert(pre[k].wf());
            }
        }
        let picks = self.collide_triangles(dt);
        push_all(&mut cues, &picks);
        let ghost pre_t = self.triangles@;
        proof {
            lemma_swept_triangles(pre_t);
        }
        self.triangles = keep_live_triangles(&self.triangles);
        proof {
            let ts = self.triangles@;
            assert forall|i: int| 0 <= i < ts.len() implies triangle_ok(#[trigger] ts[i]) by {
                assert(pre_t.contains(live_triangles(pre_t)[i]));
                let k = choose|k: int| 0 <= k < pre_t.len() && pre_t[k] == ts[i];
                assert(!pre_t[k].to_delete);
            }
        }
        cues
    }

    /// Runs one update tick of `dt` milliseconds, drawing what it needs
    /// from `rng`, and returns the cues to play. Outside a running,
    /// unpaused session the generator is not touched.
    pub fn on_update(&mut self, dt: u64, rng: &mut StdRng) -> (cues: Vec<Cue>)
        requires
            old(self).wf(),
            dt <= MAX_TICK,
            old(self).has_headroom(dt),
        ensures
            final(self).ticked(*old(self), dt, cues@),
            old(self).game_state == GameState::Game && !old(self).is_paused ==> exists|d: TickDraws|
                d.valid() && #[trigger] final(self).matches_view(
                    *old(self),
                    tick_view(*old(self), dt as int, d),
                    cues@,
                ),
            !(old(self).game_state == GameState::Game && !old(self).is_paused) ==> *final(rng) == *old(rng),
    {
        if !matches!(self.game_state, GameState::Game) || self.is_paused {
            return Vec::new();
        }
        let draws = TickDraws::new_rand(rng, self.scx, self.scy);
        let ghost g0 = *self;
        let cues = self.advance(dt, &draws);
        proof {
            if g0.game_state == GameState::Game && !g0.is_paused {
                assert(self.matches_view(g0, tick_view(g0, dt as int, draws), cues@));
            }
        }
        cues
    }

    /// Handles one input event.
    pub fn on_input(&mut self, input: Input)
        requires
            old(self).wf(),
            old(self).game_state == GameState::Game ==> input.valid(),
        ensures
            final(self).wf(),
            starts_session(*old(self), input) ==> match input {
                Input::KeyReleased(k) => final(self).initialised(*old(self), difficulty_of(k)->Some_0),
                _ => false,
            },
            !starts_session(*old(self), input) ==> *final(self) == after_input(*old(self), input),
    {
        match self.game_state {
            GameState::Game => match input {
                Input::Cursor(x, y) => {
                    self.mx = x;
                    self.my = y;
                },
                Input::KeyReleased(Key::P) => {
                    self.is_paused = !self.is_paused;
                },
                Input::KeyReleased(Key::Escape) => {
                    self.game_state = GameState::MainMenu;
                },
                Input::MouseReleased(MouseButton::Left) => {
                    if let Some(c) = self.col_left {
                        self.col_left = Some(self.player.colour_state);
                        self.player.colour_state = c;
                    }
                },
                Input::MouseReleased(MouseButton::Right) => {
                    if let Some(c) = self.col_right {
                        self.col_right = Some(self.player.colour_state);
                        self.player.colour_state = c;
                    }
                },
                _ => {},
            },
            GameState::MainMenu => match input {
                Input::KeyReleased(Key::D1) => self.init(3),
                Input::KeyReleased(Key::D2) => self.init(6),
                Input::KeyReleased(Key::D3) => self.init(10),
                Input::KeyReleased(Key::D4) => self.init(20),
                Input::KeyReleased(Key::D0) => self.init(50),
                Input::KeyReleased(Key::C) => {
                    self.game_state = GameState::Credits;
                },
                _ => {},
            },
            _ => match input {
                Input::KeyReleased(Key::Return) => {
                    self.game_state = GameState::MainMenu;
                },
                _ => {},
            },
        }
    }

    /// Takes the size of the screen, in whole pixels; the centre is half
    /// of it, rounded down.
    pub fn set_viewport(&mut self, width: u64, height: u64)
        requires
            old(self).wf(),
            width <= 200_000,
            height <= 200_000,
        ensures
            final(self).wf(),
            final(self).scx == (width / 2) * 1000,
            final(self).scy == (height / 2) * 1000,
            *final(self) == (Game { scx: final(self).scx, scy: final(self).scy, ..*old(self) }),
    {
        self.scx = ((width / 2) * 1000) as i64;
        self.scy = ((height / 2) * 1000) as i64;
    }

    /// Session time in tenths of a second, rounded down.
    pub fn time_tenths(&self) -> (r: u64)
        ensures
            r == self.time_elapsed / 100,
    {
        self.time_elapsed / 100
    }

    /// Score in tenths of a point, rounded down.
    pub fn score_tenths(&self) -> (r: u64)
        ensures
            r == self.score / 100_000,
    {
        self.score / 100_000
    }

    /// Circles on the field.
    pub fn object_count(&self) -> (r: usize)
        ensures
            r == self.circles@.len(),
    {
        self.circles.len()
    }

    /// The hint for the current session time.
    pub fn hint(&self) -> (h: Hint)
        ensures
            self.time_elapsed < 10_000 ==> h == Hint::Movement,
            10_000 <= self.time_elapsed < 20_000 ==> h == Hint::PowerUps,
            20_000 <= self.time_elapsed ==> h == Hint::Nothing,
    {
        if self.time_elapsed < 10_000 {
            Hint::Movement
        } else if self.time_elapsed < 20_000 {
            Hint::PowerUps
        } else {
            Hint::Nothing
        }
    }

    /// Hue of the background, in hundredths of a radian: the square of the
    /// session's seconds over ten, rounded down, modulo 628.
    pub fn background_hue(&self) -> (r: u64)
        ensures
            r == (self.time_elapsed * self.time_elapsed / 10_000_000) % 628,
            r < 628,
    {
        let t = self.time_elapsed as u128;
        assert(t * t <= 0xffff_ffff_ffff_ffff * 0xffff_ffff_ffff_ffff) by (nonlinear_arith)
            requires
                t <= 0xffff_ffff_ffff_ffff,
        ;
        ((t * t / 10_000_000) % 628) as u64
    }

    /// What the collisions of a tick work on.
    pub open spec fn standing(&self) -> Standing {
        Standing {
            x: self.player.x,
            y: self.player.y,
            radius: self.player.radius,
            colour: self.player.colour_state,
            grown: self.grown,
            score: self.score,
            left: self.col_left,
            right: self.col_right,
            ended: self.game_state == GameState::End,
        }
    }

    /// The session fields that collisions do not touch are those of `g`.
    pub open spec fn same_session(&self, g: Game) -> bool {
        &&& self.is_paused == g.is_paused
        &&& self.time_elapsed == g.time_elapsed
        &&& self.scx == g.scx && self.scy == g.scy
        &&& self.mx == g.mx && self.my == g.my
        &&& self.next_place_triangle == g.next_place_triangle
        &&& self.tris == g.tris
        &&& self.music == g.music
        &&& self.difficulty == g.difficulty
    }

    /// The circles meet the player, in order; marked circles stay in the
    /// list until the sweep.
    pub fn collide_circles(&mut self, dt: u64) -> (cues: Vec<Cue>)
        requires
            old(self).wf(),
            old(self).game_state == GameState::Game,
            old(self).player.radius <= PLAYER_MAX_RADIUS,
            dt <= MAX_TICK,
            old(self).grown + old(self).circles@.len() <= GROWN_LIMIT,
        ensures
            (final(self).standing(), final(self).circles@, cues@)
                == meet_all(old(self).standing(), old(self).circles@, dt as int),
            final(self).same_session(*old(self)),
            final(self).triangles@ == old(self).triangles@,
            final(self).player.radius <= PLAYER_MAX_RADIUS + GROWTH_PER_ABSORB * (final(self).grown - old(self).grown),
            final(self).grown <= old(self).grown + old(self).circles@.len(),
            final(self).game_state == GameState::Game || final(self).game_state == GameState::End,
            final(self).player.x == old(self).player.x && final(self).player.y == old(self).player.y,
            PLAYER_MIN_RADIUS <= final(self).player.radius,
            final(self).player.colour_state < PALETTE_SIZE,
            slot_ok(final(self).col_left) && slot_ok(final(self).col_right),
            forall|i: int| 0 <= i < final(self).circles@.len() ==> (#[trigger] final(self).circles@[i]).wf(),
            final(self).game_state == GameState::Game ==> forall|i: int|
                0 <= i < final(self).circles@.len() && !(#[trigger] final(self).circles@[i]).to_delete
                    ==> -FIELD_LIMIT <= final(self).circles@[i].x <= FIELD_LIMIT
                    && -FIELD_LIMIT <= final(self).circles@[i].y <= FIELD_LIMIT,
    {
        let ghost g0 = *self;
        let ghost s0 = self.standing();
        let ghost cs0 = self.circles@;
        let n = self.circles.len();
        let mut cues: Vec<Cue> = Vec::new();
        let mut i: usize = 0;
        while i < n
            invariant
                i <= n == self.circles@.len() == cs0.len(),
                (self.standing(), self.circles@.take(i as int), cues@)
                    == meet_all(s0, cs0.take(i as int), dt as int),
                forall|j: int| i <= j < n ==> self.circles@[j] == cs0[j],
                self.same_session(g0),
                self.triangles@ == g0.triangles@,
                g0.wf(),
                cs0 == g0.circles@,
                s0 == g0.standing(),
                g0.game_state == GameState::Game,
                g0.player.radius <= PLAYER_MAX_RADIUS,
                g0.grown + n <= GROWN_LIMIT,
                dt <= MAX_TICK,
                self.grown <= g0.grown + i,
                self.player.radius <= PLAYER_MAX_RADIUS + GROWTH_PER_ABSORB * (self.grown - g0.grown),
                PLAYER_MIN_RADIUS <= self.player.radius,
                self.player.x == g0.player.x && self.player.y == g0.player.y,
                self.player.colour_state < PALETTE_SIZE,
                slot_ok(self.col_left) && slot_ok(self.col_right),
                self.game_state == GameState::Game || self.game_state == GameState::End,
                forall|j: int| 0 <= j < i ==> (#[trigger] self.circles@[j]).wf(),
                self.game_state == GameState::Game ==> forall|j: int|
                    0 <= j < i && !(#[trigger] self.circles@[j]).to_delete
                        ==> -FIELD_LIMIT <= self.circles@[j].x <= FIELD_LIMIT
                        && -FIELD_LIMIT <= self.circles@[j].y <= FIELD_LIMIT,
            decreases n - i,
        {
            let ghost s_before = self.standing();
            let ghost cues_before = cues@;
            let mut c = self.circles[i];
            assert(circle_ok(cs0[i as int], true));
            if !matches!(self.game_state, GameState::End) {
                proof {
                    let v = cs0[i as int];
                    assert(-VELOCITY_LIMIT * MAX_TICK <= v.vx * dt <= VELOCITY_LIMIT * MAX_TICK)
                        by (nonlinear_arith)
                        requires
                            -VELOCITY_LIMIT <= v.vx <= VELOCITY_LIMIT,
                            dt <= MAX_TICK,
                    ;
                    assert(-VELOCITY_LIMIT * MAX_TICK <= v.vy * dt <= VELOCITY_LIMIT * MAX_TICK)
                        by (nonlinear_arith)
                        requires
                            -VELOCITY_LIMIT <= v.vy <= VELOCITY_LIMIT,
                            dt <= MAX_TICK,
                    ;
                }
                c.update(dt);
                assert(c == moved(cs0[i as int], dt as int));
                if touches(self.player.x, self.player.y, self.player.radius, c.x, c.y, c.radius) {
                    if c.outside_colour == self.player.colour_state {
                        self.grown = self.grown + 1;
                        self.player.radius = self.player.radius + GROWTH_PER_ABSORB;
                        self.player.colour_state = c.inside_colour;
                        c.to_delete = true;
                        self.score = self.score.saturating_add(ABSORB_BONUS * self.grown);
                        cues.push(Cue::Absorb);
                    } else if self.col_left.is_none() && self.col_right.is_none() {
                        self.game_state = GameState::End;
                        cues.push(Cue::Death);
                    } else if self.col_right.is_none() {
                        self.col_left = None;
                        c.to_delete = true;
                        cues.push(Cue::LoseShield);
                    } else {
                        self.col_right = None;
                        c.to_delete = true;
                        cues.push(Cue::LoseShield);
                    }
                } else if c.x > FIELD_LIMIT || c.x < -FIELD_LIMIT || c.y > FIELD_LIMIT || c.y < -FIELD_LIMIT {
                    c.to_delete = true;
                }
            }
            self.circles.set(i, c);
            proof {
                let (s1, c1, q1) = meet(s_before, cs0[i as int], dt as int);
                assert(cs0.take(i + 1).drop_last() =~= cs0.take(i as int));
                assert(cs0.take(i + 1).last() == cs0[i as int]);
                assert(self.circles@.take(i + 1) =~= self.circles@.take(i as int).push(c));
                assert(self.standing() == s1);
                assert(c == c1);
                assert(cues@ =~= cues_before + q1);
            }
            i = i + 1;
        }
        proof {
            assert(cs0.take(n as int) =~= cs0);
            assert(self.circles@.take(n as int) =~= self.circles@);
        }
        cues
    }

    /// The triangles age and meet the player, in order; marked triangles
    /// stay in the list until the sweep.
    pub fn collide_triangles(&mut self, dt: u64) -> (cues: Vec<Cue>)
        requires
            forall|i: int| 0 <= i < old(self).triangles@.len() ==> triangle_ok(#[trigger] old(self).triangles@[i]),
            abs(old(self).player.x as int) <= PLAYER_LIMIT,
            abs(old(self).player.y as int) <= PLAYER_LIMIT,
            old(self).player.radius <= RADIUS_BOUND,
            dt <= MAX_TICK,
        ensures
            (final(self).standing(), final(self).triangles@, cues@)
                == touch_all(old(self).standing(), old(self).triangles@, dt as int),
            final(self).same_session(*old(self)),
            final(self).circles@ == old(self).circles@,
            final(self).game_state == old(self).game_state,
            final(self).player == old(self).player,
            final(self).grown == old(self).grown && final(self).score == old(self).score,
            slot_ok(old(self).col_left) && slot_ok(old(self).col_right) ==> slot_ok(final(self).col_left)
                && slot_ok(final(self).col_right),
            forall|i: int| 0 <= i < final(self).triangles@.len() && !(#[trigger] final(self).triangles@[i]).to_delete
                ==> triangle_ok(final(self).triangles@[i]),
    {
        let ghost g0 = *self;
        let ghost s0 = self.standing();
        let ghost ts0 = self.triangles@;
        let n = self.triangles.len();
        let mut cues: Vec<Cue> = Vec::new();
        let mut i: usize = 0;
        while i < n
            invariant
                i <= n == self.triangles@.len() == ts0.len(),
                (self.standing(), self.triangles@.take(i as int), cues@)
                    == touch_all(s0, ts0.take(i as int), dt as int),
                forall|j: int| i <= j < n ==> self.triangles@[j] == ts0[j],
                self.same_session(g0),
                self.circles@ == g0.circles@,
                self.game_state == g0.game_state,
                self.player == g0.player,
                self.grown == g0.grown && self.score == g0.score,
                slot_ok(g0.col_left) && slot_ok(g0.col_right) ==> slot_ok(self.col_left) && slot_ok(self.col_right),
                ts0 == g0.triangles@,
                s0 == g0.standing(),
                forall|j: int| 0 <= j < n ==> triangle_ok(#[trigger] ts0[j]),
                abs(g0.player.x as int) <= PLAYER_LIMIT,
                abs(g0.player.y as int) <= PLAYER_LIMIT,
                g0.player.radius <= RADIUS_BOUND,
                dt <= MAX_TICK,
                forall|j: int| 0 <= j < i && !(#[trigger] self.triangles@[j]).to_delete
                    ==> triangle_ok(self.triangles@[j]),
            decreases n - i,
        {
            let ghost s_before = self.standing();
            let ghost cues_before = cues@;
            let mut t = self.triangles[i];
            assert(triangle_ok(ts0[i as int]));
            t.update(dt);
            if touches(self.player.x, self.player.y, self.player.radius, t.x, t.y, t.radius) {
                if self.col_left.is_none() {
                    self.col_left = Some(t.colour);
                } else if self.col_right.is_none() {
                    self.col_right = Some(t.colour);
                }
                t.to_delete = true;
                cues.push(Cue::Pickup);
            }
            self.triangles.set(i, t);
            proof {
                let (s1, t1, q1) = touch(s_before, ts0[i as int], dt as int);
                assert(ts0.take(i + 1).drop_last() =~= ts0.take(i as int));
                assert(ts0.take(i + 1).last() == ts0[i as int]);
                assert(self.triangles@.take(i + 1) =~= self.triangles@.take(i as int).push(t));
                assert(self.standing() == s1);
                assert(t == t1);
                assert(cues@ =~= cues_before + q1);
            }
            i = i + 1;
        }
        proof {
            assert(ts0.take(n as int) =~= ts0);
            assert(self.triangles@.take(n as int) =~= self.triangles@);
        }
        cues
    }
}

} // verus!
