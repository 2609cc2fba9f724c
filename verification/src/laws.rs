//! Laws of the automaton and of the timer, proved from the model.

use crate::model::{
    cell_at, generations, height, is_board, live_neighbours, next_cell, next_generation, next_row, same_shape,
    width, wrap,
};
use crate::timer::{fresh, observed, observed_times, signals, valid, TimerModel, TimerPhase};
use vstd::prelude::*;

verus! {

/// One if the cell is alive, zero otherwise.
pub open spec fn one_if(alive: bool) -> nat {
    if alive {
        1
    } else {
        0
    }
}

/// Every cell of the board is dead.
pub open spec fn all_dead(m: Seq<Seq<bool>>) -> bool {
    forall|x: int, y: int| 0 <= x < width(m) && 0 <= y < height(m) ==> !(#[trigger] m[y][x])
}

/// The cell at `(cx, cy)` is the only live cell of the board.
pub open spec fn only_alive(m: Seq<Seq<bool>>, cx: int, cy: int) -> bool {
    &&& 0 <= cx < width(m)
    &&& 0 <= cy < height(m)
    &&& forall|x: int, y: int|
        0 <= x < width(m) && 0 <= y < height(m) ==> (#[trigger] m[y][x]) == (x == cx && y == cy)
}

/// The live cells of the board are exactly the two-by-two block whose first
/// corner is `(bx, by)`; the block may reach round the edge.
pub open spec fn is_block(m: Seq<Seq<bool>>, bx: int, by: int) -> bool {
    &&& 0 <= bx < width(m)
    &&& 0 <= by < height(m)
    &&& forall|x: int, y: int|
        0 <= x < width(m) && 0 <= y < height(m) ==> (#[trigger] m[y][x]) == ((x == bx || x == wrap(
            bx + 1,
            width(m),
        )) && (y == by || y == wrap(by + 1, height(m))))
}

/// The live cells of the board are exactly three in a row, the middle one at
/// `(cx, cy)`; the row may reach round the edge.
pub open spec fn is_horizontal_blinker(m: Seq<Seq<bool>>, cx: int, cy: int) -> bool {
    &&& 0 <= cx < width(m)
    &&& 0 <= cy < height(m)
    &&& forall|x: int, y: int|
        0 <= x < width(m) && 0 <= y < height(m) ==> (#[trigger] m[y][x]) == (y == cy && (x == wrap(
            cx - 1,
            width(m),
        ) || x == cx || x == wrap(cx + 1, width(m))))
}

/// The live cells of the board are exactly three in a column, the middle one
/// at `(cx, cy)`; the column may reach round the edge.
pub open spec fn is_vertical_blinker(m: Seq<Seq<bool>>, cx: int, cy: int) -> bool {
    &&& 0 <= cx < width(m)
    &&& 0 <= cy < height(m)
    &&& forall|x: int, y: int|
        0 <= x < width(m) && 0 <= y < height(m) ==> (#[trigger] m[y][x]) == (x == cx && (y == wrap(
            cy - 1,
            height(m),
        ) || y == cy || y == wrap(cy + 1, height(m))))
}

/// The scratch rows after the rows named in `order` have been written, one
/// after the other, each from the board `m` alone.
pub open spec fn swept(m: Seq<Seq<bool>>, scratch: Seq<Seq<bool>>, order: Seq<int>) -> Seq<Seq<bool>>
    decreases order.len(),
{
    if order.len() == 0 {
        scratch
    } else {
        swept(m, scratch, order.drop_last()).update(order.last(), next_row(m, order.last()))
    }
}

/// What a sweep leaves in each row: the next generation's row where the row
/// was written, the old scratch row where it was not.
proof fn lemma_swept_rows(m: Seq<Seq<bool>>, scratch: Seq<Seq<bool>>, order: Seq<int>)
    requires
        scratch.len() == height(m),
        forall|i: int| 0 <= i < order.len() ==> 0 <= #[trigger] order[i] < height(m),
    ensures
        swept(m, scratch, order).len() == height(m),
        forall|y: int|
            0 <= y < height(m) ==> #[trigger] swept(m, scratch, order)[y] == if order.contains(y) {
                next_row(m, y)
            } else {
                scratch[y]
            },
    decreases order.len(),
{
    if order.len() > 0 {
        let front = order.drop_last();
        lemma_swept_rows(m, scratch, front);
        assert forall|y: int| 0 <= y < height(m) implies #[trigger] swept(m, scratch, order)[y] == if order.contains(
            y,
        ) {
            next_row(m, y)
        } else {
            scratch[y]
        } by {
            if y == order.last() {
                assert(order[order.len() - 1] == y);
            } else if front.contains(y) {
                let i = choose|i: int| 0 <= i < front.len() && front[i] == y;
                assert(order[i] == y);
            } else if order.contains(y) {
                let i = choose|i: int| 0 <= i < order.len() && order[i] == y;
                assert(front[i] == y);
            }
        }
    }
}

/// Determinism of a step: in whatever order the rows of the scratch buffer
/// are written, and whatever the buffer held before, once every row has been
/// written it holds the next generation of the active board.
pub proof fn lemma_sweep_order_independent(m: Seq<Seq<bool>>, scratch: Seq<Seq<bool>>, order: Seq<int>)
    requires
        is_board(m),
        scratch.len() == height(m),
        forall|i: int| 0 <= i < order.len() ==> 0 <= #[trigger] order[i] < height(m),
        forall|y: int| 0 <= y < height(m) ==> order.contains(y),
    ensures
        swept(m, scratch, order) == next_generation(m),
{
    lemma_swept_rows(m, scratch, order);
    assert(swept(m, scratch, order) =~= next_generation(m));
}

/// Determinism of a run: `a` generations followed by `b` more give the board
/// that `a + b` generations give.
pub proof fn lemma_generations_compose(m: Seq<Seq<bool>>, a: nat, b: nat)
    ensures
        generations(generations(m, a), b) == generations(m, a + b),
    decreases b,
{
    if b > 0 {
        lemma_generations_compose(m, a, (b - 1) as nat);
        assert(a + b - 1 == a + (b - 1) as nat);
    }
}

/// Toroidal wrap at the corner: on a board at least two cells wide and high,
/// the cell at `(0, 0)` counts the cells in the last column and the last row,
/// the opposite corner among them.
pub proof fn lemma_corner_neighbours(m: Seq<Seq<bool>>)
    requires
        is_board(m),
        width(m) >= 2,
        height(m) >= 2,
    ensures
        live_neighbours(m, 0, 0) == one_if(m[1][0]) + one_if(m[1][1]) + one_if(m[0][1]) + one_if(
            m[height(m) - 1][1],
        ) + one_if(m[height(m) - 1][0]) + one_if(m[height(m) - 1][width(m) - 1]) + one_if(
            m[0][width(m) - 1],
        ) + one_if(m[1][width(m) - 1]),
{
}

/// A neighbour beyond any edge is the cell on the opposite edge.
pub proof fn lemma_wrap_is_toroidal(m: Seq<Seq<bool>>, x: int, y: int)
    requires
        is_board(m),
        0 <= x < width(m),
        0 <= y < height(m),
    ensures
        cell_at(m, -1, y) == m[y][width(m) - 1],
        cell_at(m, width(m), y) == m[y][0],
        cell_at(m, x, -1) == m[height(m) - 1][x],
        cell_at(m, x, height(m)) == m[0][x],
        cell_at(m, x, y) == m[y][x],
        0 <= wrap(x - 1, width(m)) < width(m),
        0 <= wrap(x + 1, width(m)) < width(m),
        0 <= wrap(y - 1, height(m)) < height(m),
        0 <= wrap(y + 1, height(m)) < height(m),
{
}

/// A dead board stays dead for one generation.
pub proof fn lemma_dead_stays_dead_once(m: Seq<Seq<bool>>)
    requires
        is_board(m),
        all_dead(m),
    ensures
        all_dead(next_generation(m)),
        same_shape(m, next_generation(m)),
{
    let next = next_generation(m);
    assert forall|x: int, y: int| 0 <= x < width(next) && 0 <= y < height(next) implies !(#[trigger] next[y][x]) by {
        lemma_no_live_neighbours(m, x, y);
        assert(!m[y][x]);
    }
}

/// On a dead board no cell has a live neighbour.
proof fn lemma_no_live_neighbours(m: Seq<Seq<bool>>, x: int, y: int)
    requires
        is_board(m),
        all_dead(m),
        0 <= x < width(m),
        0 <= y < height(m),
    ensures
        live_neighbours(m, x, y) == 0,
{
    let w = width(m);
    let h = height(m);
    let l = wrap(x - 1, w);
    let r = wrap(x + 1, w);
    let u = wrap(y - 1, h);
    let d = wrap(y + 1, h);
    assert(!m[d][x] && !m[d][r] && !m[y][r] && !m[u][r] && !m[u][x] && !m[u][l] && !m[y][l] && !m[d][l]);
}

/// An all-dead board stays all-dead after any number of generations.
pub proof fn lemma_dead_stays_dead(m: Seq<Seq<bool>>, n: nat)
    requires
        is_board(m),
        all_dead(m),
    ensures
        all_dead(generations(m, n)),
        same_shape(m, generations(m, n)),
    decreases n,
{
    if n > 0 {
        lemma_dead_stays_dead(m, (n - 1) as nat);
        lemma_dead_stays_dead_once(generations(m, (n - 1) as nat));
    }
}

/// A live cell with no live neighbour is dead one generation later.
pub proof fn lemma_isolated_cell_dies(m: Seq<Seq<bool>>, x: int, y: int)
    requires
        is_board(m),
        0 <= x < width(m),
        0 <= y < height(m),
        m[y][x],
        live_neighbours(m, x, y) == 0,
    ensures
        !next_generation(m)[y][x],
{
}

/// A single live cell on a board at least two cells wide and high leaves
/// an all-dead board after one generation.
pub proof fn lemma_lonely_cell_leaves_dead_board(m: Seq<Seq<bool>>, cx: int, cy: int)
    requires
        is_board(m),
        width(m) >= 2,
        height(m) >= 2,
        only_alive(m, cx, cy),
    ensures
        all_dead(next_generation(m)),
{
    let next = next_generation(m);
    assert forall|x: int, y: int| 0 <= x < width(next) && 0 <= y < height(next) implies !(#[trigger] next[y][x]) by {
        let w = width(m);
        let h = height(m);
        let l = wrap(x - 1, w);
        let r = wrap(x + 1, w);
        let u = wrap(y - 1, h);
        let d = wrap(y + 1, h);
        assert(m[d][x] == (x == cx && d == cy));
        assert(m[d][r] == (r == cx && d == cy));
        assert(m[y][r] == (r == cx && y == cy));
        assert(m[u][r] == (r == cx && u == cy));
        assert(m[u][x] == (x == cx && u == cy));
        assert(m[u][l] == (l == cx && u == cy));
        assert(m[y][l] == (l == cx && y == cy));
        assert(m[d][l] == (l == cx && d == cy));
        assert(m[y][x] == (x == cx && y == cy));
        assert(live_neighbours(m, x, y) != 3);
        assert(m[y][x] ==> live_neighbours(m, x, y) == 0);
    }
}

/// Still life: on a board at least four cells wide and high, a two-by-two
/// block of live cells with nothing else alive is its own next generation.
pub proof fn lemma_block_is_still(m: Seq<Seq<bool>>, bx: int, by: int)
    requires
        is_board(m),
        width(m) >= 4,
        height(m) >= 4,
        is_block(m, bx, by),
    ensures
        next_generation(m) == m,
        forall|n: nat| generations(m, n) == m,
{
    let next = next_generation(m);
    let w = width(m);
    let h = height(m);
    let bx2 = wrap(bx + 1, w);
    let by2 = wrap(by + 1, h);
    assert forall|x: int, y: int| 0 <= x < w && 0 <= y < h implies next_cell(m, x, y) == m[y][x] by {
        let l = wrap(x - 1, w);
        let r = wrap(x + 1, w);
        let u = wrap(y - 1, h);
        let d = wrap(y + 1, h);
        assert(m[d][x] == ((x == bx || x == bx2) && (d == by || d == by2)));
        assert(m[d][r] == ((r == bx || r == bx2) && (d == by || d == by2)));
        assert(m[y][r] == ((r == bx || r == bx2) && (y == by || y == by2)));
        assert(m[u][r] == ((r == bx || r == bx2) && (u == by || u == by2)));
        assert(m[u][x] == ((x == bx || x == bx2) && (u == by || u == by2)));
        assert(m[u][l] == ((l == bx || l == bx2) && (u == by || u == by2)));
        assert(m[y][l] == ((l == bx || l == bx2) && (y == by || y == by2)));
        assert(m[d][l] == ((l == bx || l == bx2) && (d == by || d == by2)));
        assert(m[y][x] == ((x == bx || x == bx2) && (y == by || y == by2)));
        let cols = one_if(l == bx || l == bx2) + one_if(x == bx || x == bx2) + one_if(r == bx || r == bx2);
        let rows = one_if(u == by || u == by2) + one_if(y == by || y == by2) + one_if(d == by || d == by2);
        assert(cols <= 2 && rows <= 2);
        assert((x == bx || x == bx2) ==> cols == 2);
        assert((y == by || y == by2) ==> rows == 2);
    }
    assert forall|y: int| 0 <= y < h implies #[trigger] next[y] == m[y] by {
        assert forall|x: int| 0 <= x < w implies next[y][x] == m[y][x] by {
            assert(next[y][x] == next_cell(m, x, y));
        }
        assert(m[y].len() == w);
        assert(next[y] =~= m[y]);
    }
    assert(next =~= m);
    assert forall|n: nat| generations(m, n) == m by {
        lemma_fixed_point(m, n);
    }
}

/// A board that is its own next generation stays as it is.
pub proof fn lemma_fixed_point(m: Seq<Seq<bool>>, n: nat)
    requires
        next_generation(m) == m,
    ensures
        generations(m, n) == m,
    decreases n,
{
    if n > 0 {
        lemma_fixed_point(m, (n - 1) as nat);
    }
}

/// Observations keep a timer in a state that is valid, never take elapsed
/// time back, and never leave the finished state.
pub proof fn lemma_timer_progress(t: TimerModel)
    requires
        valid(t),
    ensures
        valid(observed(t)),
        observed(t).elapsed >= t.elapsed,
        observed(t).total_ticks == t.total_ticks,
        t.phase == TimerPhase::Finished ==> observed(t) == t && !signals(t),
        signals(t) <==> t.phase != TimerPhase::Finished && observed(t).phase == TimerPhase::Finished,
{
}

/// The number of the observation of a fresh timer that signals shutdown:
/// the first observation starts the countdown, and the budget is used up
/// that many ticks later, or on the first tick where the budget is zero.
pub open spec fn firing_observation(total_ticks: nat) -> nat {
    if total_ticks == 0 {
        2
    } else {
        total_ticks + 1
    }
}

/// Where a fresh timer stands after `n` observations.
proof fn lemma_timer_state(total_ticks: nat, n: nat)
    ensures
        n == 0 ==> observed_times(fresh(total_ticks), n) == fresh(total_ticks),
        0 < n < firing_observation(total_ticks) ==> observed_times(fresh(total_ticks), n) == (TimerModel {
            total_ticks,
            elapsed: (n - 1) as nat,
            phase: TimerPhase::Running,
        }),
        n >= firing_observation(total_ticks) ==> observed_times(fresh(total_ticks), n) == (TimerModel {
            total_ticks,
            elapsed: total_ticks,
            phase: TimerPhase::Finished,
        }),
    decreases n,
{
    if n > 0 {
        lemma_timer_state(total_ticks, (n - 1) as nat);
    }
}

/// Timer termination: of the observations of a fresh timer, numbered from
/// one, exactly one signals shutdown, and it is the one after `total_ticks`
/// ticks have been counted. Observation `n` is the one made after `n - 1`
/// earlier ones.
pub proof fn lemma_timer_fires_exactly_once(total_ticks: nat, n: nat)
    requires
        n >= 1,
    ensures
        signals(observed_times(fresh(total_ticks), (n - 1) as nat)) <==> n == firing_observation(total_ticks),
{
    lemma_timer_state(total_ticks, (n - 1) as nat);
}

/// Oscillator, first half: on a board at least four cells wide and high, a
/// horizontal blinker becomes the vertical blinker with the same middle.
pub proof fn lemma_blinker_turns_vertical(m: Seq<Seq<bool>>, cx: int, cy: int)
    requires
        is_board(m),
        width(m) >= 4,
        height(m) >= 4,
        is_horizontal_blinker(m, cx, cy),
    ensures
        same_shape(m, next_generation(m)),
        is_vertical_blinker(next_generation(m), cx, cy),
{
    let next = next_generation(m);
    let w = width(m);
    let h = height(m);
    let x1 = wrap(cx - 1, w);
    let x2 = wrap(cx + 1, w);
    let y1 = wrap(cy - 1, h);
    let y2 = wrap(cy + 1, h);
    assert forall|x: int, y: int| 0 <= x < w && 0 <= y < h implies (#[trigger] next[y][x]) == (x == cx && (y
        == y1 || y == cy || y == y2)) by {
        let l = wrap(x - 1, w);
        let r = wrap(x + 1, w);
        let u = wrap(y - 1, h);
        let d = wrap(y + 1, h);
        assert(m[d][x] == (d == cy && (x == x1 || x == cx || x == x2)));
        assert(m[d][r] == (d == cy && (r == x1 || r == cx || r == x2)));
        assert(m[y][r] == (y == cy && (r == x1 || r == cx || r == x2)));
        assert(m[u][r] == (u == cy && (r == x1 || r == cx || r == x2)));
        assert(m[u][x] == (u == cy && (x == x1 || x == cx || x == x2)));
        assert(m[u][l] == (u == cy && (l == x1 || l == cx || l == x2)));
        assert(m[y][l] == (y == cy && (l == x1 || l == cx || l == x2)));
        assert(m[d][l] == (d == cy && (l == x1 || l == cx || l == x2)));
        assert(m[y][x] == (y == cy && (x == x1 || x == cx || x == x2)));
        assert(next[y][x] == next_cell(m, x, y));
    }
}

/// Oscillator, second half: on a board at least four cells wide and high, a
/// vertical blinker becomes the horizontal blinker with the same middle.
pub proof fn lemma_blinker_turns_horizontal(m: Seq<Seq<bool>>, cx: int, cy: int)
    requires
        is_board(m),
        width(m) >= 4,
        height(m) >= 4,
        is_vertical_blinker(m, cx, cy),
    ensures
        same_shape(m, next_generation(m)),
        is_horizontal_blinker(next_generation(m), cx, cy),
{
    let next = next_generation(m);
    let w = width(m);
    let h = height(m);
    let x1 = wrap(cx - 1, w);
    let x2 = wrap(cx + 1, w);
    let y1 = wrap(cy - 1, h);
    let y2 = wrap(cy + 1, h);
    assert forall|x: int, y: int| 0 <= x < w && 0 <= y < h implies (#[trigger] next[y][x]) == (y == cy && (x
        == x1 || x == cx || x == x2)) by {
        let l = wrap(x - 1, w);
        let r = wrap(x + 1, w);
        let u = wrap(y - 1, h);
        let d = wrap(y + 1, h);
        assert(m[d][x] == (x == cx && (d == y1 || d == cy || d == y2)));
        assert(m[d][r] == (r == cx && (d == y1 || d == cy || d == y2)));
        assert(m[y][r] == (r == cx && (y == y1 || y == cy || y == y2)));
        assert(m[u][r] == (r == cx && (u == y1 || u == cy || u == y2)));
        assert(m[u][x] == (x == cx && (u == y1 || u == cy || u == y2)));
        assert(m[u][l] == (l == cx && (u == y1 || u == cy || u == y2)));
        assert(m[y][l] == (l == cx && (y == y1 || y == cy || y == y2)));
        assert(m[d][l] == (l == cx && (d == y1 || d == cy || d == y2)));
        assert(m[y][x] == (x == cx && (y == y1 || y == cy || y == y2)));
        assert(next[y][x] == next_cell(m, x, y));
    }
}

/// Two boards of one shape whose cells agree are the same board.
proof fn lemma_boards_equal(a: Seq<Seq<bool>>, b: Seq<Seq<bool>>)
    requires
        same_shape(a, b),
        forall|x: int, y: int| 0 <= x < width(a) && 0 <= y < height(a) ==> (#[trigger] a[y][x]) == b[y][x],
    ensures
        a == b,
{
    assert forall|y: int| 0 <= y < height(a) implies #[trigger] a[y] == b[y] by {
        assert(a[y].len() == b[y].len());
        assert forall|x: int| 0 <= x < a[y].len() implies a[y][x] == b[y][x] by {
            assert(a[y][x] == b[y][x]);
        }
        assert(a[y] =~= b[y]);
    }
    assert(a =~= b);
}

/// Oscillator: on a board at least four cells wide and high, a horizontal
/// blinker is vertical after one generation and itself again after two.
pub proof fn lemma_blinker_has_period_two(m: Seq<Seq<bool>>, cx: int, cy: int)
    requires
        is_board(m),
        width(m) >= 4,
        height(m) >= 4,
        is_horizontal_blinker(m, cx, cy),
    ensures
        is_vertical_blinker(generations(m, 1), cx, cy),
        generations(m, 1) != m,
        generations(m, 2) == m,
{
    let once = next_generation(m);
    let twice = next_generation(once);
    assert(generations(m, 1) == once) by {
        assert(generations(m, 0) == m);
    }
    assert(generations(m, 2) == twice);
    lemma_blinker_turns_vertical(m, cx, cy);
    lemma_blinker_turns_horizontal(once, cx, cy);
    lemma_boards_equal(twice, m);
    let side = wrap(cx + 1, width(m));
    assert(m[cy][side]);
    assert(!once[cy][side]);
}

/// Within one step of the board a wrapped coordinate is the coordinate
/// modulo the limit.
pub proof fn lemma_wrap_is_modulo(v: int, limit: int)
    requires
        limit > 0,
        -1 <= v <= limit,
    ensures
        wrap(v, limit) == v % limit,
{
    if v == -1 {
        assert((-1int) % limit == limit - 1) by (nonlinear_arith)
            requires
                limit > 0,
        ;
    } else if v == limit {
        assert(limit % limit == 0) by (nonlinear_arith)
            requires
                limit > 0,
        ;
    } else {
        assert(v % limit == v) by (nonlinear_arith)
            requires
                0 <= v < limit,
        ;
    }
}

} // verus!
