//! One cell of the picture.

use vstd::prelude::*;

verus! {

/// The glyph every tile starts with, and the one a hidden tile shows.
pub const BLANK: char = '.';

/// A single character tile: the glyph it holds and whether it is covered.
#[derive(Debug, Clone, Copy, PartialEq, Eq, Structural)]
pub struct Tile {
    pub glyph: char,
    pub hidden: bool,
}

impl Tile {
    /// The character that stands for this tile on screen: the blank while
    /// the tile is hidden, its own glyph once it is revealed.
    pub open spec fn shown(self) -> char {
        if self.hidden {
            BLANK
        } else {
            self.glyph
        }
    }

    /// A hidden tile holding the blank glyph.
    pub open spec fn blank() -> Tile {
        Tile { glyph: BLANK, hidden: true }
    }

    /// A tile with the given glyph and cover.
    pub fn new(glyph: char, hidden: bool) -> (tile: Tile)
        ensures
            tile == (Tile { glyph, hidden }),
    {
        Tile { glyph, hidden }
    }

    /// The glyph this tile holds, whether or not it is hidden.
    pub fn glyph(&self) -> (c: char)
        ensures
            c == self.glyph,
    {
        self.glyph
    }

    /// Whether the tile is covered.
    pub fn is_hidden(&self) -> (h: bool)
        ensures
            h == self.hidden,
    {
        self.hidden
    }

    /// The character to draw for this tile.
    pub fn display(&self) -> (c: char)
        ensures
            c == self.shown(),
    {
        if self.hidden {
            BLANK
        } else {
            self.glyph
        }
    }

    /// Replaces the glyph and leaves the cover as it is.
    pub fn set_glyph(&mut self, c: char)
        ensures
            *final(self) == (Tile { glyph: c, hidden: old(self).hidden }),
    {
        self.glyph = c;
    }

    /// Covers or uncovers the tile and leaves the glyph as it is.
    pub fn set_hidden(&mut self, hid: bool)
        ensures
            *final(self) == (Tile { glyph: old(self).glyph, hidden: hid }),
    {
        self.hidden = hid;
    }
}

impl Default for Tile {
    /// The default tile is the blank one.
    fn default() -> (tile: Tile)
        ensures
            tile == Tile::blank(),
    {
        Tile { glyph: BLANK, hidden: true }
    }
}

} // verus!
