//! The active brush: the selected tile, its atlas sub-index, and the mode.
use vstd::prelude::*;

use crate::catalog::Tile;

verus! {

/// How many cells one paint action affects.
#[derive(Clone, Copy, Debug, PartialEq, Eq, Structural)]
pub enum BrushState {
    /// One cell per action.
    Single,
    /// Declared, with no behaviour of its own yet: painting acts as `Single`.
    Fill,
}

/// The active brush. Nothing is validated: the atlas index may lie outside
/// the tile's atlas.
#[derive(Clone, Debug)]
pub struct Selection {
    pub tile: Option<Tile>,
    pub atlas_index: Option<usize>,
    pub mode: BrushState,
}

impl Selection {
    /// No tile selected, single-cell mode.
    pub fn new() -> (r: Selection)
        ensures
            r.tile is None,
            r.atlas_index is None,
            r.mode == BrushState::Single,
    {
        Selection { tile: None, atlas_index: None, mode: BrushState::Single }
    }

    /// Makes `tile`, at `atlas_index`, the active brush; the last call wins.
    pub fn select(&mut self, tile: Tile, atlas_index: Option<usize>)
        ensures
            final(self).tile == Some(tile),
            final(self).atlas_index == atlas_index,
            final(self).mode == old(self).mode,
    {
        self.tile = Some(tile);
        self.atlas_index = atlas_index;
    }

    /// Switches the brush mode, keeping the selected tile.
    pub fn set_mode(&mut self, mode: BrushState)
        ensures
            final(self).mode == mode,
            final(self).tile == old(self).tile,
            final(self).atlas_index == old(self).atlas_index,
    {
        self.mode = mode;
    }

    /// Whether the selected tile has this name.
    pub fn is_selected(&self, name: &String) -> (r: bool)
        ensures
            r == (self.tile matches Some(t) && t.name@ == name@),
    {
        match &self.tile {
            Some(t) => t.name == *name,
            None => false,
        }
    }
}

} // verus!
