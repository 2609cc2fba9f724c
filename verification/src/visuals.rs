//! What the display needs from the engine: which of two assets shows a cell,
//! and when a key press closes a window.

use vstd::prelude::*;

verus! {

/// The two assets a cell is drawn with, one for each state.
#[derive(Debug)]
pub struct CellAssets<H> {
    pub alive_cell: H,
    pub dead_cell: H,
}

impl<H> CellAssets<H> {
    /// The asset that shows a cell in the given state.
    pub fn for_cell(&self, alive: bool) -> (asset: &H)
        ensures
            *asset == if alive {
                self.alive_cell
            } else {
                self.dead_cell
            },
    {
        if alive {
            &self.alive_cell
        } else {
            &self.dead_cell
        }
    }
}

/// Whether a window closes: it does when it has the focus and the escape key
/// has just been pressed.
pub fn close_on_esc(focused: bool, escape_just_pressed: bool) -> (close: bool)
    ensures
        close == (focused && escape_just_pressed),
{
    focused && escape_just_pressed
}

} // verus!
