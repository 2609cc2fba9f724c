//! The birth and survival rule of the automaton, and the one-step wrap that
//! keeps a neighbour's coordinate on the torus.

use crate::model::wrap;
use vstd::prelude::*;

verus! {

/// Whether a cell lives in the next generation, given whether it lives now and
/// how many of the eight positions around it hold a live cell.
pub open spec fn rule(alive: bool, live_neighbours: nat) -> bool {
    if alive {
        live_neighbours == 2 || live_neighbours == 3
    } else {
        live_neighbours == 3
    }
}

/// Applies the classic rule: a live cell survives with two or three live
/// neighbours, a dead cell is born with exactly three.
pub fn next_state(alive: bool, live_neighbor_count: u8) -> (next: bool)
    ensures
        next == rule(alive, live_neighbor_count as nat),
{
    if alive {
        live_neighbor_count == 2 || live_neighbor_count == 3
    } else {
        live_neighbor_count == 3
    }
}

/// The coordinate one step before `v` on a ring of `limit` positions.
pub fn wrap_before(v: usize, limit: usize) -> (r: usize)
    requires
        v < limit,
    ensures
        r == wrap(v - 1, limit as int),
        r < limit,
{
    if v == 0 {
        limit - 1
    } else {
        v - 1
    }
}

/// The coordinate one step after `v` on a ring of `limit` positions.
pub fn wrap_after(v: usize, limit: usize) -> (r: usize)
    requires
        v < limit,
    ensures
        r == wrap(v + 1, limit as int),
        r < limit,
{
    if v == limit - 1 {
        0
    } else {
        v + 1
    }
}

} // verus!
