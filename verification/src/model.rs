//! The mathematical model of the automaton: a board is a sequence of rows,
//! each row a sequence of cell states, on a torus.

use vstd::prelude::*;

verus! {

/// A board is a non-empty rectangle: at least one row, at least one column,
/// and every row as wide as the first.
pub open spec fn is_board(m: Seq<Seq<bool>>) -> bool {
    &&& m.len() > 0
    &&& m[0].len() > 0
    &&& forall|y: int| 0 <= y < m.len() ==> (#[trigger] m[y]).len() == m[0].len()
}

/// Number of columns.
pub open spec fn width(m: Seq<Seq<bool>>) -> int {
    m[0].len() as int
}

/// Number of rows.
pub open spec fn height(m: Seq<Seq<bool>>) -> int {
    m.len() as int
}

/// Two boards of the same shape.
pub open spec fn same_shape(a: Seq<Seq<bool>>, b: Seq<Seq<bool>>) -> bool {
    &&& is_board(a)
    &&& is_board(b)
    &&& width(a) == width(b)
    &&& height(a) == height(b)
}

/// Brings a coordinate that is at most one step outside `0..limit` back onto
/// the torus.
pub open spec fn wrap(v: int, limit: int) -> int {
    if v == -1 {
        limit - 1
    } else if v == limit {
        0
    } else {
        v
    }
}

/// The state of the cell at `(x, y)`, where either coordinate may be one step
/// outside the board.
pub open spec fn cell_at(m: Seq<Seq<bool>>, x: int, y: int) -> bool {
    m[wrap(y, height(m))][wrap(x, width(m))]
}

/// One if the cell at `(x, y)` is alive, zero otherwise.
pub open spec fn alive_at(m: Seq<Seq<bool>>, x: int, y: int) -> nat {
    if cell_at(m, x, y) {
        1
    } else {
        0
    }
}

/// How many of the eight positions around `(x, y)` hold a live cell. On a
/// board narrower or lower than three cells a position is counted once for
/// each offset that lands on it.
pub open spec fn live_neighbours(m: Seq<Seq<bool>>, x: int, y: int) -> nat {
    alive_at(m, x, y + 1) + alive_at(m, x + 1, y + 1) + alive_at(m, x + 1, y) + alive_at(
        m,
        x + 1,
        y - 1,
    ) + alive_at(m, x, y - 1) + alive_at(m, x - 1, y - 1) + alive_at(m, x - 1, y) + alive_at(
        m,
        x - 1,
        y + 1,
    )
}

/// The state of the cell at `(x, y)` one generation later.
pub open spec fn next_cell(m: Seq<Seq<bool>>, x: int, y: int) -> bool {
    crate::rule::rule(m[y][x], live_neighbours(m, x, y))
}

/// Row `y` of the next generation.
pub open spec fn next_row(m: Seq<Seq<bool>>, y: int) -> Seq<bool> {
    Seq::new(width(m) as nat, |x: int| next_cell(m, x, y))
}

/// The whole next generation.
pub open spec fn next_generation(m: Seq<Seq<bool>>) -> Seq<Seq<bool>> {
    Seq::new(height(m) as nat, |y: int| next_row(m, y))
}

/// The board after `n` generations.
pub open spec fn generations(m: Seq<Seq<bool>>, n: nat) -> Seq<Seq<bool>>
    decreases n,
{
    if n == 0 {
        m
    } else {
        next_generation(generations(m, (n - 1) as nat))
    }
}

/// A generation keeps the shape of the board.
pub proof fn lemma_next_generation_shape(m: Seq<Seq<bool>>)
    requires
        is_board(m),
    ensures
        same_shape(m, next_generation(m)),
{
}

/// Any number of generations keeps the shape of the board.
pub proof fn lemma_generations_shape(m: Seq<Seq<bool>>, n: nat)
    requires
        is_board(m),
    ensures
        same_shape(m, generations(m, n)),
    decreases n,
{
    if n > 0 {
        lemma_generations_shape(m, (n - 1) as nat);
        lemma_next_generation_shape(generations(m, (n - 1) as nat));
    }
}

} // verus!
