//! Laws of the game's state machine, proved once and for all over the
//! mathematical model: movement under constant velocity, the effect of food
//! consumption on score and length, the hazard reset, the length bounds, and
//! the inverse directional keys.

use crate::game::{ArrowKey, GameModel, InputEvent};
use crate::screen::{digits, lemma_digits_len_below, pow10, DrawCmd};
use crate::{HEIGHT, WIDTH};
use vstd::arithmetic::div_mod::{
    lemma_add_mod_noop, lemma_mod_bound, lemma_mod_multiples_vanish, lemma_small_mod,
};
use vstd::prelude::*;

verus! {

/// The state after `n` ticks.
pub open spec fn tick_n(m: GameModel, n: nat) -> GameModel
    decreases n,
{
    if n == 0 {
        m
    } else {
        tick_n(m, (n - 1) as nat).tick_state()
    }
}

/// Count of body/food coincidences from pair `(i, j)` on, in scan order:
/// food entries `j..` for body segment `i`, then all entries for segments
/// `i+1 .. bound`.
pub open spec fn hits_from(m: GameModel, bound: int, i: int, j: int) -> int
    decreases bound - i, m.food.len() - j,
{
    if i >= bound {
        0
    } else if j >= m.food.len() {
        hits_from(m, bound, i + 1, 0)
    } else {
        (if m.food_hit(i, j) {
            1int
        } else {
            0int
        }) + hits_from(m, bound, i, j + 1)
    }
}

/// Total count of body/food coincidences in one consumption pass.
pub open spec fn total_hits(m: GameModel) -> int {
    hits_from(m, m.length, 0, 0)
}

/// Moving keeps everything but the position, and keeps the position on the
/// board.
proof fn lemma_moved_wf(m: GameModel)
    requires
        m.wf(),
    ensures
        m.moved().wf(),
{
    lemma_mod_bound(m.col + m.dx, WIDTH as int);
    lemma_mod_bound(m.row + m.dy, HEIGHT as int);
}

/// One food consumption keeps the state well formed.
proof fn lemma_eat_one_wf(m: GameModel)
    requires
        m.wf(),
    ensures
        m.eat_one().wf(),
{
    lemma_mod_bound(m.next_letter + 1, WIDTH as int);
}

/// The consumption pass keeps the position, the velocity and the two lists;
/// it can only grow the body (up to capacity) and the score.
proof fn lemma_consume_from_frame(m: GameModel, bound: int, i: int, j: int)
    requires
        m.wf(),
    ensures
        ({
            let r = m.consume_from(bound, i, j);
            &&& r.wf()
            &&& r.col == m.col
            &&& r.row == m.row
            &&& r.dx == m.dx
            &&& r.dy == m.dy
            &&& r.food == m.food
            &&& r.hazards == m.hazards
            &&& m.length <= r.length <= WIDTH
            &&& m.score <= r.score
        }),
    decreases bound - i, m.food.len() - j,
{
    if i >= bound {
    } else if j >= m.food.len() {
        lemma_consume_from_frame(m, bound, i + 1, 0);
    } else if m.food_hit(i, j) {
        lemma_eat_one_wf(m);
        lemma_consume_from_frame(m.eat_one(), bound, i, j + 1);
    } else {
        lemma_consume_from_frame(m, bound, i, j + 1);
    }
}

/// Two states that agree on position, row and food list see the same hits.
proof fn lemma_hits_same(m1: GameModel, m2: GameModel, bound: int, i: int, j: int)
    requires
        m1.col == m2.col,
        m1.row == m2.row,
        m1.food == m2.food,
    ensures
        hits_from(m1, bound, i, j) == hits_from(m2, bound, i, j),
    decreases bound - i, m1.food.len() - j,
{
    if i >= bound {
    } else if j >= m1.food.len() {
        lemma_hits_same(m1, m2, bound, i + 1, 0);
    } else {
        lemma_hits_same(m1, m2, bound, i, j + 1);
    }
}

/// Each coincidence in the consumption pass adds exactly one to the score,
/// and one to the length until the capacity is reached.
proof fn lemma_consume_from_count(m: GameModel, bound: int, i: int, j: int)
    requires
        m.wf(),
    ensures
        0 <= hits_from(m, bound, i, j),
        m.consume_from(bound, i, j).score == m.score + hits_from(m, bound, i, j),
        m.consume_from(bound, i, j).length == (if m.length + hits_from(m, bound, i, j) <= WIDTH {
            m.length + hits_from(m, bound, i, j)
        } else {
            WIDTH as int
        }),
    decreases bound - i, m.food.len() - j,
{
    if i >= bound {
    } else if j >= m.food.len() {
        lemma_consume_from_count(m, bound, i + 1, 0);
    } else if m.food_hit(i, j) {
        lemma_eat_one_wf(m);
        lemma_consume_from_count(m.eat_one(), bound, i, j + 1);
        lemma_hits_same(m, m.eat_one(), bound, i, j + 1);
    } else {
        lemma_consume_from_count(m, bound, i, j + 1);
    }
}

/// One tick keeps the state well formed.
pub proof fn lemma_tick_wf(m: GameModel)
    requires
        m.wf(),
    ensures
        m.tick_state().wf(),
{
    lemma_moved_wf(m);
    let m1 = m.moved();
    lemma_consume_from_frame(m1, m1.length, 0, 0);
}

/// Any number of ticks keeps the state well formed.
pub proof fn lemma_tick_n_wf(m: GameModel, n: nat)
    requires
        m.wf(),
    ensures
        tick_n(m, n).wf(),
    decreases n,
{
    if n > 0 {
        lemma_tick_n_wf(m, (n - 1) as nat);
        lemma_tick_wf(tick_n(m, (n - 1) as nat));
    }
}

/// The body length never exceeds the board width and never falls below one,
/// over any number of ticks.
pub proof fn lemma_length_bounds(m: GameModel, n: nat)
    requires
        m.wf(),
    ensures
        1 <= tick_n(m, n).length <= WIDTH,
{
    lemma_tick_n_wf(m, n);
}

/// A tick whose consumption pass meets exactly one food cell raises the
/// score by exactly one; if no hazard is hit, it also grows the body by
/// exactly one segment, up to the capacity cap.
pub proof fn lemma_eat_one_tick(m: GameModel)
    requires
        m.wf(),
        total_hits(m.moved()) == 1,
    ensures
        m.tick_state().score == m.score + 1,
        !m.moved().consumed().hazard_hit() ==> m.tick_state().length == (if m.length < WIDTH {
            m.length + 1
        } else {
            m.length
        }),
{
    lemma_moved_wf(m);
    let m1 = m.moved();
    lemma_consume_from_count(m1, m1.length, 0, 0);
}

/// A hazard collision restores position, velocity, length, glyph slot and
/// glyph buffer to their construction values within the same tick; the two
/// coordinate lists are kept, and the reset leaves the score as the tick's
/// consumption pass left it.
pub proof fn lemma_hazard_reset(m: GameModel)
    requires
        m.wf(),
        m.moved().consumed().hazard_hit(),
    ensures
        m.tick_state().col == GameModel::initial().col,
        m.tick_state().row == GameModel::initial().row,
        m.tick_state().dx == 0,
        m.tick_state().dy == 0,
        m.tick_state().length == 1,
        m.tick_state().next_letter == 1,
        m.tick_state().letters == GameModel::initial().letters,
        m.tick_state().score == m.moved().consumed().score,
        m.tick_state().food == m.food,
        m.tick_state().hazards == m.hazards,
{
    lemma_moved_wf(m);
    let m1 = m.moved();
    lemma_consume_from_frame(m1, m1.length, 0, 0);
    assert(m.tick_state().letters =~= GameModel::initial().letters);
}

/// With constant velocity and no hazard contact, `n` ticks advance the head
/// by `n` times the velocity, modulo the board dimensions.
pub proof fn lemma_constant_velocity(m: GameModel, n: nat)
    requires
        m.wf(),
        forall|k: nat| k < n ==> !(#[trigger] tick_n(m, k)).moved().consumed().hazard_hit(),
    ensures
        tick_n(m, n).wf(),
        tick_n(m, n).dx == m.dx,
        tick_n(m, n).dy == m.dy,
        tick_n(m, n).col == (m.col + n * m.dx) % (WIDTH as int),
        tick_n(m, n).row == (m.row + n * m.dy) % (HEIGHT as int),
    decreases n,
{
    if n == 0 {
        assert(n * m.dx == 0) by (nonlinear_arith)
            requires
                n == 0,
        ;
        assert(n * m.dy == 0) by (nonlinear_arith)
            requires
                n == 0,
        ;
        lemma_small_mod(m.col as nat, WIDTH as nat);
        lemma_small_mod(m.row as nat, HEIGHT as nat);
    } else {
        let p = (n - 1) as nat;
        lemma_constant_velocity(m, p);
        let prev = tick_n(m, p);
        assert(!prev.moved().consumed().hazard_hit());
        lemma_moved_wf(prev);
        lemma_consume_from_frame(prev.moved(), prev.moved().length, 0, 0);
        assert(tick_n(m, n) == prev.moved().consumed());
        assert(p * m.dx + m.dx == n * m.dx) by (nonlinear_arith)
            requires
                p == n - 1,
        ;
        assert(p * m.dy + m.dy == n * m.dy) by (nonlinear_arith)
            requires
                p == n - 1,
        ;
        lemma_small_mod(m.dx as nat, WIDTH as nat);
        lemma_small_mod(m.dy as nat, HEIGHT as nat);
        lemma_add_mod_noop(m.col + p * m.dx, m.dx, WIDTH as int);
        lemma_add_mod_noop(m.row + p * m.dy, m.dy, HEIGHT as int);
    }
}

/// With velocity zero and no hazard contact, the head never moves, over any
/// sequence of ticks.
pub proof fn lemma_stationary(m: GameModel, n: nat)
    requires
        m.wf(),
        m.dx == 0,
        m.dy == 0,
        forall|k: nat| k < n ==> !(#[trigger] tick_n(m, k)).moved().consumed().hazard_hit(),
    ensures
        tick_n(m, n).col == m.col,
        tick_n(m, n).row == m.row,
{
    lemma_constant_velocity(m, n);
    assert(n * m.dx == 0) by (nonlinear_arith)
        requires
            m.dx == 0,
    ;
    assert(n * m.dy == 0) by (nonlinear_arith)
        requires
            m.dy == 0,
    ;
    lemma_small_mod(m.col as nat, WIDTH as nat);
    lemma_small_mod(m.row as nat, HEIGHT as nat);
}

/// Every command of one piece of a frame addresses a cell of the board.
proof fn lemma_body_cmds_in_bounds(m: GameModel)
    requires
        m.wf(),
    ensures
        forall|k: int|
            0 <= k < m.food_cmds().len() ==> (#[trigger] m.food_cmds()[k]).in_bounds(),
        forall|k: int|
            0 <= k < m.hazard_cmds().len() ==> (#[trigger] m.hazard_cmds()[k]).in_bounds(),
        forall|k: int|
            0 <= k < m.clear_cmds().len() ==> (#[trigger] m.clear_cmds()[k]).in_bounds(),
        forall|k: int|
            0 <= k < m.snake_cmds().len() ==> (#[trigger] m.snake_cmds()[k]).in_bounds(),
{
    assert forall|k: int| 0 <= k < m.clear_cmds().len() implies (
    #[trigger] m.clear_cmds()[k]).in_bounds() by {
        lemma_mod_bound(m.col + k, WIDTH as int);
    }
    assert forall|k: int| 0 <= k < m.snake_cmds().len() implies (
    #[trigger] m.snake_cmds()[k]).in_bounds() by {
        lemma_mod_bound(m.col + k, WIDTH as int);
    }
}

/// The renderer is never addressed out of range: every command a tick emits
/// lies on the board, as long as the score fits the machine word.
pub proof fn lemma_tick_cmds_in_bounds(m: GameModel)
    requires
        m.wf(),
        m.score <= isize::MAX,
    ensures
        forall|k: int| 0 <= k < m.tick_cmds().len() ==> (#[trigger] m.tick_cmds()[k]).in_bounds(),
{
    let m1 = m.moved();
    lemma_moved_wf(m);
    let m2 = m1.consumed();
    lemma_consume_from_frame(m1, m1.length, 0, 0);
    lemma_body_cmds_in_bounds(m);
    lemma_body_cmds_in_bounds(m1);
    lemma_body_cmds_in_bounds(m2);
    assert(pow10(19) == 10_000_000_000_000_000_000) by {
        reveal_with_fuel(pow10, 20);
    }
    lemma_digits_len_below(m.score, 19);
    assert forall|k: int| 0 <= k < m.score_cmds().len() implies (
    #[trigger] m.score_cmds()[k]).in_bounds() by {
        assert(m.score_cmds()[k].col == k);
        assert(k < digits(m.score).len() <= 19);
    }
    assert forall|k: int| 0 <= k < m.tick_cmds().len() implies (
    #[trigger] m.tick_cmds()[k]).in_bounds() by {
        let a = m.food_cmds();
        let b = m.hazard_cmds();
        let c = m.score_cmds();
        let d = m.clear_cmds();
        let e = m1.snake_cmds();
        let f = if m2.hazard_hit() {
            m2.clear_cmds()
        } else {
            Seq::<DrawCmd>::empty()
        };
        assert(m.tick_cmds() == a + b + c + d + e + f);
        if k < a.len() {
            assert(m.tick_cmds()[k] == a[k]);
        } else if k < a.len() + b.len() {
            assert(m.tick_cmds()[k] == b[k - a.len()]);
        } else if k < a.len() + b.len() + c.len() {
            assert(m.tick_cmds()[k] == c[k - a.len() - b.len()]);
        } else if k < a.len() + b.len() + c.len() + d.len() {
            assert(m.tick_cmds()[k] == d[k - a.len() - b.len() - c.len()]);
        } else if k < a.len() + b.len() + c.len() + d.len() + e.len() {
            assert(m.tick_cmds()[k] == e[k - a.len() - b.len() - c.len() - d.len()]);
        } else {
            assert(m.tick_cmds()[k] == f[k - a.len() - b.len() - c.len() - d.len() - e.len()]);
        }
    }
}

/// Pressing Right then Left (or Left then Right) returns the horizontal
/// velocity to its prior value: the two presses are inverse under modular
/// addition.
pub proof fn lemma_direction_inverse(m: GameModel)
    requires
        m.wf(),
    ensures
        m.key_state(InputEvent::RawDirectional(ArrowKey::Right)).key_state(
            InputEvent::RawDirectional(ArrowKey::Left),
        ).dx == m.dx,
        m.key_state(InputEvent::RawDirectional(ArrowKey::Left)).key_state(
            InputEvent::RawDirectional(ArrowKey::Right),
        ).dx == m.dx,
{
    let w = WIDTH as int;
    lemma_small_mod(1, WIDTH as nat);
    lemma_small_mod((w - 1) as nat, WIDTH as nat);
    lemma_small_mod(m.dx as nat, WIDTH as nat);
    lemma_add_mod_noop(m.dx + 1, w - 1, w);
    lemma_add_mod_noop(m.dx + w - 1, 1, w);
    lemma_mod_multiples_vanish(1, m.dx, w);
}

} // verus!
