use vstd::prelude::*;
use crate::arith::{floor_sqrt, isqrt, lemma_floor_sqrt_is, lemma_floor_sqrt_monotone};
use crate::entities::{MAX_TICK, PLAYER_MIN_RADIUS};
use crate::rules::{GROWN_LIMIT, RADIUS_BOUND};

verus! {

/// A sound that the game asks to be played.
#[derive(Clone, Copy, Debug, PartialEq, Eq, Structural)]
pub enum Cue {
    Absorb,
    Pickup,
    LoseShield,
    Death,
    Bass,
    Bass2,
    Bass3,
    Combo1,
    Combo2,
    Combo3,
}

/// A disarmed one-shot timer waits this long, in milliseconds.
pub const IDLE_TIMER: i64 = 100_000_000;
/// The radius offset that combo sizes are measured from.
pub const COMBO_ORIGIN: u64 = 39_000;
/// Smallest combo threshold.
pub const COMBO_FLOOR: u64 = 1_000;
/// Delays of the second and third combo cues, in milliseconds.
pub const COMBO2_DELAY: i64 = 300;
pub const COMBO3_DELAY: i64 = 600;
/// Session time after which the second and third loop layers join.
pub const BASS_START: u64 = 10_000;
pub const BASS3_START: u64 = 20_000;
/// Bound on every timer.
pub const TIMER_LIMIT: i64 = 1_000_000_000;

/// Milliseconds between two plays of a loop layer: `k` seconds over the
/// fourth root of `grown + 10`.
pub open spec fn loop_period(k: int, grown: int) -> int {
    k * 1_000_000 / floor_sqrt(floor_sqrt((1_000_000_000_000 * (grown + 10)) as nat)) as int
}

/// A repeating timer: once it has run below zero it fires and starts over
/// at `period`; otherwise it counts down by `dt`.
pub open spec fn tick_timer(next: int, dt: int, period: int) -> (int, bool) {
    if next < 0 {
        (period, true)
    } else {
        (next - dt, false)
    }
}

/// The countdown timers of the three loop layers and the combo tracker.
#[derive(Clone, Copy, Debug, PartialEq, Eq, Structural)]
pub struct Music {
    pub next_bass: i64,
    pub next_bass2: i64,
    pub next_bass3: i64,
    /// The radius growth, over `COMBO_ORIGIN`, at the last combo step.
    pub last_combo: u64,
    pub combo_meter: u64,
    pub next_combo2: i64,
    pub next_combo3: i64,
}

pub open spec fn timer_ok(t: i64) -> bool {
    -(MAX_TICK as int) <= t <= TIMER_LIMIT
}

/// The state of the combo tracker after a tick at combo size `size`:
/// its new threshold and meter, whether the first combo cue fires, and the
/// new delays of the second and third.
pub open spec fn combo_step(m: Music, size: int) -> (u64, u64, bool, i64, i64) {
    if size >= 4 * m.last_combo {
        let meter = if m.combo_meter == u64::MAX { m.combo_meter } else { (m.combo_meter + 1) as u64 };
        (
            size as u64,
            meter,
            true,
            if meter >= 2 { COMBO2_DELAY } else { m.next_combo2 },
            if meter >= 3 { COMBO3_DELAY } else { m.next_combo3 },
        )
    } else if 5 * size < 4 * m.last_combo {
        (if size < COMBO_FLOOR { COMBO_FLOOR } else { size as u64 }, 0, false, m.next_combo2, m.next_combo3)
    } else {
        (m.last_combo, m.combo_meter, false, m.next_combo2, m.next_combo3)
    }
}

/// A one-shot timer: it fires once it has run below zero and is then
/// disarmed; otherwise it counts down by `dt`.
pub open spec fn tick_one_shot(next: int, dt: int) -> (int, bool) {
    tick_timer(next, dt, IDLE_TIMER as int)
}

impl Music {
    /// Every loop layer due at once, the combo tracker at rest.
    pub fn new() -> (m: Music)
        ensures
            m.wf(),
            m.next_bass == -100 && m.next_bass2 == -100 && m.next_bass3 == -100,
            m.last_combo == COMBO_FLOOR && m.combo_meter == 0,
            m.next_combo2 == IDLE_TIMER && m.next_combo3 == TIMER_LIMIT,
    {
        Music {
            next_bass: -100,
            next_bass2: -100,
            next_bass3: -100,
            last_combo: COMBO_FLOOR,
            combo_meter: 0,
            next_combo2: IDLE_TIMER,
            next_combo3: TIMER_LIMIT,
        }
    }

    pub open spec fn wf(&self) -> bool {
        &&& timer_ok(self.next_bass)
        &&& timer_ok(self.next_bass2)
        &&& timer_ok(self.next_bass3)
        &&& timer_ok(self.next_combo2)
        &&& timer_ok(self.next_combo3)
        &&& COMBO_FLOOR <= self.last_combo <= RADIUS_BOUND
    }

    /// The scheduler after a tick of `dt` milliseconds, at session time
    /// `time`, with `grown` circles absorbed and the player at `radius`,
    /// with the cues it fires in order.
    pub open spec fn updated(self, dt: int, time: int, grown: int, radius: int) -> (Music, Seq<Cue>) {
        let (b2, f2) = tick_timer(self.next_bass2 as int, dt, loop_period(18, grown));
        let (b1, f1) = if time > BASS_START {
            tick_timer(self.next_bass as int, dt, loop_period(9, grown))
        } else {
            (self.next_bass as int, false)
        };
        let (b3, f3) = if time > BASS3_START {
            tick_timer(self.next_bass3 as int, dt, loop_period(6, grown))
        } else {
            (self.next_bass3 as int, false)
        };
        let (last, meter, c1, n2, n3) = combo_step(self, radius - COMBO_ORIGIN);
        let (t2, c2) = tick_one_shot(n2 as int, dt);
        let (t3, c3) = tick_one_shot(n3 as int, dt);
        let m = Music {
            next_bass: b1 as i64,
            next_bass2: b2 as i64,
            next_bass3: b3 as i64,
            last_combo: last,
            combo_meter: meter,
            next_combo2: t2 as i64,
            next_combo3: t3 as i64,
        };
        let cues = (if f2 { seq![Cue::Bass2] } else { seq![] })
            + (if f1 { seq![Cue::Bass] } else { seq![] })
            + (if f3 { seq![Cue::Bass3] } else { seq![] })
            + (if c1 { seq![Cue::Combo1] } else { seq![] })
            + (if c2 { seq![Cue::Combo2] } else { seq![] })
            + (if c3 { seq![Cue::Combo3] } else { seq![] });
        (m, cues)
    }

    /// Advances every timer and the combo tracker by one tick and returns
    /// the cues that fire, in order.
    pub fn update(&mut self, dt: u64, time: u64, grown: u64, radius: u64) -> (cues: Vec<Cue>)
        requires
            old(self).wf(),
            dt <= MAX_TICK,
            grown <= GROWN_LIMIT,
            PLAYER_MIN_RADIUS <= radius <= RADIUS_BOUND,
        ensures
            *final(self) == old(self).updated(dt as int, time as int, grown as int, radius as int).0,
            cues@ == old(self).updated(dt as int, time as int, grown as int, radius as int).1,
            final(self).wf(),
    {
        let ghost m0 = *self;
        let mut cues: Vec<Cue> = Vec::new();
        let root = fourth_root_milli(grown);
        let (b2, f2) = step_timer(self.next_bass2, dt, 18_000_000 / root);
        self.next_bass2 = b2;
        if f2 {
            cues.push(Cue::Bass2);
        }
        if time > BASS_START {
            let (b1, f1) = step_timer(self.next_bass, dt, 9_000_000 / root);
            self.next_bass = b1;
            if f1 {
                cues.push(Cue::Bass);
            }
        }
        if time > BASS3_START {
            let (b3, f3) = step_timer(self.next_bass3, dt, 6_000_000 / root);
            self.next_bass3 = b3;
            if f3 {
                cues.push(Cue::Bass3);
            }
        }
        let size: u64 = radius - COMBO_ORIGIN;
        if size >= 4 * self.last_combo {
            self.combo_meter = self.combo_meter.saturating_add(1);
            cues.push(Cue::Combo1);
            if self.combo_meter >= 2 {
                self.next_combo2 = COMBO2_DELAY;
            }
            if self.combo_meter >= 3 {
                self.next_combo3 = COMBO3_DELAY;
            }
            self.last_combo = size;
        } else if 5 * size < 4 * self.last_combo {
            self.combo_meter = 0;
            self.last_combo = if size < COMBO_FLOOR { COMBO_FLOOR } else { size };
        }
        let (t2, c2) = step_timer(self.next_combo2, dt, IDLE_TIMER as u64);
        self.next_combo2 = t2;
        if c2 {
            cues.push(Cue::Combo2);
        }
        let (t3, c3) = step_timer(self.next_combo3, dt, IDLE_TIMER as u64);
        self.next_combo3 = t3;
        if c3 {
            cues.push(Cue::Combo3);
        }
        proof {
            let (m1, q) = m0.updated(dt as int, time as int, grown as int, radius as int);
            assert(*self == m1);
            assert(cues@ =~= q);
        }
        cues
    }
}

/// A thousand times the fourth root of `grown + 10`, rounded down.
fn fourth_root_milli(grown: u64) -> (r: u64)
    requires
        grown <= GROWN_LIMIT,
    ensures
        r == floor_sqrt(floor_sqrt((1_000_000_000_000 * (grown + 10)) as nat)),
        1_778 <= r,
{
    let inner = isqrt(1_000_000_000_000 * (grown + 10));
    let r = isqrt(inner);
    proof {
        assert(3_162_277nat * 3_162_277nat <= 10_000_000_000_000nat < 3_162_278nat * 3_162_278nat)
            by (nonlinear_arith);
        lemma_floor_sqrt_is(10_000_000_000_000, 3_162_277);
        lemma_floor_sqrt_monotone(10_000_000_000_000, (1_000_000_000_000 * (grown + 10)) as nat);
        assert(1_778nat * 1_778nat <= 3_162_277nat < 1_779nat * 1_779nat) by (nonlinear_arith);
        lemma_floor_sqrt_is(3_162_277, 1_778);
        lemma_floor_sqrt_monotone(3_162_277, inner as nat);
    }
    r
}

fn step_timer(next: i64, dt: u64, period: u64) -> (r: (i64, bool))
    requires
        timer_ok(next),
        dt <= MAX_TICK,
        period <= TIMER_LIMIT,
    ensures
        r.0 as int == tick_timer(next as int, dt as int, period as int).0,
        r.1 == tick_timer(next as int, dt as int, period as int).1,
        timer_ok(r.0),
{
    if next < 0 {
        (period as i64, true)
    } else {
        (next - dt as i64, false)
    }
}

} // verus!
