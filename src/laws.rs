use vstd::prelude::*;
use crate::entities::{Circle, Triangle, CIRCLE_RADIUS, GROWTH_PER_ABSORB};
use crate::game::{
    live_circles, live_triangles, lemma_swept_circles, lemma_swept_triangles, meet, meet_all,
    moved, aged, touch, touch_all, picked_up, tick_view, Game, GameState, Standing, TickDraws,
};
use crate::rules::{
    overlaps, spawn_cap, spawn_odds, speed_multiplier, triangle_interval,
    DIFFICULTY_LIMIT, GROWN_LIMIT, RADIUS_BOUND,
};

verus! {

/// The sweep leaves no circle and no triangle marked for deletion.
pub proof fn law_sweep_leaves_none_marked(cs: Seq<Circle>, ts: Seq<Triangle>)
    ensures
        forall|i: int| 0 <= i < live_circles(cs).len() ==> !(#[trigger] live_circles(cs)[i]).to_delete,
        forall|i: int| 0 <= i < live_triangles(ts).len() ==> !(#[trigger] live_triangles(ts)[i]).to_delete,
{
    lemma_swept_circles(cs);
    lemma_swept_triangles(ts);
}

/// Between ticks (and so after every tick's sweep) no live circle or
/// triangle is marked for deletion.
pub proof fn law_no_marked_between_ticks(g: Game)
    requires
        g.wf(),
    ensures
        forall|i: int| 0 <= i < g.circles@.len() ==> !(#[trigger] g.circles@[i]).to_delete,
        forall|i: int| 0 <= i < g.triangles@.len() ==> !(#[trigger] g.triangles@[i]).to_delete,
{
    assert forall|i: int| 0 <= i < g.circles@.len() implies !(#[trigger] g.circles@[i]).to_delete by {
        assert(crate::game::circle_ok(g.circles@[i], g.game_state == GameState::Game));
    }
    assert forall|i: int| 0 <= i < g.triangles@.len() implies !(#[trigger] g.triangles@[i]).to_delete by {
        assert(crate::game::triangle_ok(g.triangles@[i]));
    }
}

/// Absorbing a circle of the player's colour adds exactly one to the count
/// of absorbed circles and exactly one growth step to the radius, whatever
/// the radius was; the player takes the circle's inner colour and the
/// circle is removed.
pub proof fn law_absorb_grows(s: Standing, c: Circle, dt: int)
    requires
        !s.ended,
        s.grown < GROWN_LIMIT,
        s.radius <= RADIUS_BOUND,
        overlaps(s.x as int, s.y as int, s.radius as int, moved(c, dt).x as int, moved(c, dt).y as int, c.radius as int),
        c.outside_colour == s.colour,
    ensures
        meet(s, c, dt).0.grown == s.grown + 1,
        meet(s, c, dt).0.radius == s.radius + GROWTH_PER_ABSORB,
        meet(s, c, dt).0.colour == c.inside_colour,
        meet(s, c, dt).1.to_delete,
        !meet(s, c, dt).0.ended,
{
}

/// Once the session has ended, further circles change nothing of the
/// player or the session.
pub proof fn lemma_ended_stays(s: Standing, cs: Seq<Circle>, dt: int)
    requires
        s.ended,
    ensures
        meet_all(s, cs, dt).0 == s,
    decreases cs.len(),
{
    if cs.len() > 0 {
        lemma_ended_stays(s, cs.drop_last(), dt);
    }
}

/// A circle of another colour that hits a player holding no power-up ends
/// the session, and neither this circle nor any after it in the same tick
/// changes the count of absorbed circles or the score.
pub proof fn law_unshielded_hit_ends(s: Standing, c: Circle, rest: Seq<Circle>, dt: int)
    requires
        !s.ended,
        overlaps(s.x as int, s.y as int, s.radius as int, moved(c, dt).x as int, moved(c, dt).y as int, c.radius as int),
        c.outside_colour != s.colour,
        s.left is None,
        s.right is None,
    ensures
        meet(s, c, dt).0.ended,
        meet(s, c, dt).0.grown == s.grown,
        meet(s, c, dt).0.score == s.score,
        meet_all(meet(s, c, dt).0, rest, dt).0.grown == s.grown,
        meet_all(meet(s, c, dt).0, rest, dt).0.score == s.score,
{
    lemma_ended_stays(meet(s, c, dt).0, rest, dt);
}

/// A circle of another colour that hits a player holding exactly one
/// power-up uses that power-up up, is removed, and the session goes on.
pub proof fn law_one_shield_absorbs_hit(s: Standing, c: Circle, dt: int)
    requires
        !s.ended,
        overlaps(s.x as int, s.y as int, s.radius as int, moved(c, dt).x as int, moved(c, dt).y as int, c.radius as int),
        c.outside_colour != s.colour,
        (s.left is Some) != (s.right is Some),
    ensures
        meet(s, c, dt).0.left is None,
        meet(s, c, dt).0.right is None,
        meet(s, c, dt).1.to_delete,
        !meet(s, c, dt).0.ended,
        meet(s, c, dt).0.grown == s.grown,
        meet(s, c, dt).0.score == s.score,
{
}

/// A triangle that touches the player fills the left slot if it is empty,
/// else the right one if it is empty, else neither; it is removed in every
/// case.
pub proof fn law_pickup_fills_slots(s: Standing, t: Triangle, dt: int)
    requires
        overlaps(s.x as int, s.y as int, s.radius as int, aged(t, dt).x as int, aged(t, dt).y as int, t.radius as int),
    ensures
        touch(s, t, dt).1.to_delete,
        s.left is None ==> touch(s, t, dt).0.left == Some(t.colour) && touch(s, t, dt).0.right == s.right,
        s.left is Some && s.right is None ==> touch(s, t, dt).0.left == s.left
            && touch(s, t, dt).0.right == Some(t.colour),
        s.left is Some && s.right is Some ==> touch(s, t, dt).0.left == s.left
            && touch(s, t, dt).0.right == s.right,
        (touch(s, t, dt).0.left, touch(s, t, dt).0.right) == picked_up(s.left, s.right, t.colour),
{
}

/// Doubling the difficulty never shortens the wait between triangles, never
/// lowers the cap on circles or the chance that one spawns in a tick, and
/// never slows new circles down.
pub proof fn law_difficulty_scaling(time: nat, grown: nat, difficulty: nat, count: nat)
    ensures
        triangle_interval((2 * difficulty) as int) >= triangle_interval(difficulty as int),
        spawn_cap(time as int, grown as int, (2 * difficulty) as int) >= spawn_cap(time as int, grown as int, difficulty as int),
        spawn_odds(time as int, grown as int, (2 * difficulty) as int, count as int)
            >= spawn_odds(time as int, grown as int, difficulty as int, count as int),
        speed_multiplier(time as int, grown as int, (2 * difficulty) as int)
            >= speed_multiplier(time as int, grown as int, difficulty as int),
{
    let a = crate::arith::floor_sqrt((1_000_000 * grown) as nat) as int;
    assert(a * difficulty <= a * ((2 * difficulty) as int)) by (nonlinear_arith)
        requires
            0 <= a,
            0 <= difficulty,
    ;
    vstd::arithmetic::div_mod::lemma_div_is_ordered(a * difficulty, a * ((2 * difficulty) as int), 20);
    let base = 3 * crate::arith::floor_sqrt((1000 * time) as nat) as int;
    vstd::arithmetic::div_mod::lemma_div_is_ordered(
        base + a * difficulty / 20,
        base + a * ((2 * difficulty) as int) / 20,
        1000,
    );
    let r = crate::arith::floor_sqrt((10 * (time + 10_000 * grown)) as nat) as int;
    assert(r * difficulty <= r * ((2 * difficulty) as int)) by (nonlinear_arith)
        requires
            0 <= r,
            0 <= difficulty,
    ;
    vstd::arithmetic::div_mod::lemma_div_is_ordered(r * difficulty, r * ((2 * difficulty) as int), 10);
}

/// A circle that, once moved, sits exactly on the player and has the
/// player's colour is absorbed in that same step.
pub proof fn law_centred_circle_absorbed(s: Standing, c: Circle, dt: int)
    requires
        !s.ended,
        s.grown < GROWN_LIMIT,
        s.radius <= RADIUS_BOUND,
        c.radius == CIRCLE_RADIUS,
        moved(c, dt).x == s.x,
        moved(c, dt).y == s.y,
        c.outside_colour == s.colour,
    ensures
        meet(s, c, dt).0.grown == s.grown + 1,
        meet(s, c, dt).1.to_delete,
{
    let rs = s.radius + c.radius;
    assert(0 < rs * rs) by (nonlinear_arith)
        requires
            0 < rs,
    ;
}

/// When a tick places a triangle, the wait for the next one is ten seconds
/// times the difficulty, so a session at twice the difficulty waits twice
/// as long.
pub proof fn law_tick_triangle_wait(g1: Game, g2: Game, dt: int, d1: TickDraws, d2: TickDraws)
    requires
        g1.next_place_triangle < 0,
        g2.next_place_triangle < 0,
        g2.difficulty == 2 * g1.difficulty,
        g2.difficulty <= DIFFICULTY_LIMIT,
    ensures
        tick_view(g1, dt, d1).next_place_triangle == 1000 * g1.difficulty,
        tick_view(g2, dt, d2).next_place_triangle == 2 * tick_view(g1, dt, d1).next_place_triangle,
        tick_view(g2, dt, d2).next_place_triangle >= tick_view(g1, dt, d1).next_place_triangle,
{
}

/// The circle passes the player by: once moved, it does not overlap.
pub open spec fn passes_by(s: Standing, c: Circle, dt: int) -> bool {
    !overlaps(s.x as int, s.y as int, s.radius as int, moved(c, dt).x as int, moved(c, dt).y as int, c.radius as int)
}

/// Circles that all pass the player by leave the player and the session alone.
pub proof fn lemma_passing_circles(s: Standing, cs: Seq<Circle>, dt: int)
    requires
        forall|i: int| 0 <= i < cs.len() ==> passes_by(s, #[trigger] cs[i], dt),
    ensures
        meet_all(s, cs, dt).0 == s,
    decreases cs.len(),
{
    if cs.len() > 0 {
        assert forall|i: int| 0 <= i < cs.drop_last().len() implies passes_by(s, #[trigger] cs.drop_last()[i], dt) by {
            assert(cs.drop_last()[i] == cs[i]);
        }
        lemma_passing_circles(s, cs.drop_last(), dt);
        assert(passes_by(s, cs[cs.len() - 1], dt));
    }
}

/// Circles meet the player one after another: a list split in two is the
/// first part, then the second from where the first left off.
pub proof fn lemma_meet_all_append(s: Standing, a: Seq<Circle>, b: Seq<Circle>, dt: int)
    ensures
        meet_all(s, a + b, dt).0 == meet_all(meet_all(s, a, dt).0, b, dt).0,
    decreases b.len(),
{
    if b.len() == 0 {
        assert(a + b =~= a);
    } else {
        assert((a + b).drop_last() =~= a + b.drop_last());
        assert((a + b).last() == b.last());
        lemma_meet_all_append(s, a, b.drop_last(), dt);
    }
}

/// When one circle `c` is the only one in the tick's list that touches the
/// player (those before it pass the player as it was, those after it pass
/// the player as `c` left it), the player and the session end the pass
/// exactly as that one contact leaves them; the contact laws above then
/// say what that is.
pub proof fn law_lone_circle_contact(s: Standing, before: Seq<Circle>, c: Circle, after: Seq<Circle>, dt: int)
    requires
        forall|i: int| 0 <= i < before.len() ==> passes_by(s, #[trigger] before[i], dt),
        forall|i: int| 0 <= i < after.len() ==> passes_by(meet(s, c, dt).0, #[trigger] after[i], dt),
    ensures
        meet_all(s, before + seq![c] + after, dt).0 == meet(s, c, dt).0,
{
    lemma_passing_circles(s, before, dt);
    lemma_meet_all_append(s, before + seq![c], after, dt);
    lemma_meet_all_append(s, before, seq![c], dt);
    assert(seq![c].drop_last() =~= Seq::<Circle>::empty());
    assert(seq![c].last() == c);
    assert(meet_all(s, Seq::<Circle>::empty(), dt).0 == s);
    assert(meet_all(s, seq![c], dt).0 == meet(s, c, dt).0);
    lemma_passing_circles(meet(s, c, dt).0, after, dt);
}

/// The triangle misses the player: once aged, it does not overlap.
pub open spec fn misses(s: Standing, t: Triangle, dt: int) -> bool {
    !overlaps(s.x as int, s.y as int, s.radius as int, aged(t, dt).x as int, aged(t, dt).y as int, t.radius as int)
}

/// Triangles that all miss the player leave the player and the slots alone.
pub proof fn lemma_missing_triangles(s: Standing, ts: Seq<Triangle>, dt: int)
    requires
        forall|i: int| 0 <= i < ts.len() ==> misses(s, #[trigger] ts[i], dt),
    ensures
        touch_all(s, ts, dt).0 == s,
    decreases ts.len(),
{
    if ts.len() > 0 {
        assert forall|i: int| 0 <= i < ts.drop_last().len() implies misses(s, #[trigger] ts.drop_last()[i], dt) by {
            assert(ts.drop_last()[i] == ts[i]);
        }
        lemma_missing_triangles(s, ts.drop_last(), dt);
        assert(misses(s, ts[ts.len() - 1], dt));
    }
}

/// Triangles meet the player one after another.
pub proof fn lemma_touch_all_append(s: Standing, a: Seq<Triangle>, b: Seq<Triangle>, dt: int)
    ensures
        touch_all(s, a + b, dt).0 == touch_all(touch_all(s, a, dt).0, b, dt).0,
    decreases b.len(),
{
    if b.len() == 0 {
        assert(a + b =~= a);
    } else {
        assert((a + b).drop_last() =~= a + b.drop_last());
        assert((a + b).last() == b.last());
        lemma_touch_all_append(s, a, b.drop_last(), dt);
    }
}

/// When one triangle `t` is the only one that touches the player, the
/// power-up slots end the pass as that one pickup leaves them.
pub proof fn law_lone_triangle_pickup(s: Standing, before: Seq<Triangle>, t: Triangle, after: Seq<Triangle>, dt: int)
    requires
        forall|i: int| 0 <= i < before.len() ==> misses(s, #[trigger] before[i], dt),
        forall|i: int| 0 <= i < after.len() ==> misses(touch(s, t, dt).0, #[trigger] after[i], dt),
    ensures
        touch_all(s, before + seq![t] + after, dt).0 == touch(s, t, dt).0,
{
    lemma_missing_triangles(s, before, dt);
    lemma_touch_all_append(s, before + seq![t], after, dt);
    lemma_touch_all_append(s, before, seq![t], dt);
    assert(seq![t].drop_last() =~= Seq::<Triangle>::empty());
    assert(seq![t].last() == t);
    assert(touch_all(s, Seq::<Triangle>::empty(), dt).0 == s);
    assert(touch_all(s, seq![t], dt).0 == touch(s, t, dt).0);
    lemma_missing_triangles(touch(s, t, dt).0, after, dt);
}

} // verus!
