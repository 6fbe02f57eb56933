//! The picture: a fixed rectangle of tiles, loaded from text and uncovered
//! row by row.

use vstd::prelude::*;
use crate::text::chars_of;
use crate::text::lines_of;
use crate::text::rows_view;
use crate::text::split_lines;
use crate::picture::blank_picture;
use crate::picture::hidden_below;
use crate::picture::hidden_rows;
use crate::picture::lemma_hidden_below_step;
use crate::picture::lemma_text_index;
use crate::picture::loaded;
use crate::picture::loaded_tile;
use crate::picture::rendered;
use crate::picture::revealed;
use crate::picture::row_hidden;
use crate::picture::shaped;
use crate::picture::text_index;
use crate::picture::written;
use crate::picture::Picture;
use crate::picture::COLS;
use crate::picture::LINE_WIDTH;
use crate::picture::ROWS;
use crate::text::LINE_FEED;
use crate::tile::Tile;
use crate::tile::BLANK;

verus! {

/// Why a picture could not be loaded.
#[derive(Debug, Clone, Copy, PartialEq, Eq, Structural)]
pub enum LoadError {
    /// The text of the picture could not be obtained.
    Unreadable,
}

/// A `ROWS` by `COLS` rectangle of tiles, addressed by row and column, both
/// counted from zero. Its size never changes, and every cell holds a tile.
#[derive(Debug, Clone, Copy)]
pub struct Grid {
    cells: [[Tile; COLS]; ROWS],
}

/// The picture that rows of tiles stand for.
pub open spec fn picture_of(cells: [[Tile; COLS]; ROWS]) -> Picture {
    Seq::new(ROWS as nat, |r: int| cells[r]@)
}

impl View for Grid {
    type V = Picture;

    closed spec fn view(&self) -> Picture {
        picture_of(self.cells)
    }
}

impl Grid {
    /// Every grid stands for a picture of the fixed size.
    pub proof fn lemma_shaped(self)
        ensures
            shaped(self@),
    {
    }

    /// A grid whose tiles are all blank and hidden.
    pub fn new() -> (grid: Grid)
        ensures
            grid@ == blank_picture(),
    {
        let row: [Tile; COLS] = [Tile { glyph: BLANK, hidden: true }; COLS];
        let cells: [[Tile; COLS]; ROWS] = [row; ROWS];
        let grid = Grid { cells };
        proof {
            // What vstd states of an array filled with copies of one value.
            vstd::array::axiom_spec_array_fill_for_copy_type::<Tile, COLS>(Tile::blank());
            vstd::array::axiom_spec_array_fill_for_copy_type::<[Tile; COLS], ROWS>(row);
            assert(row@ =~= blank_picture()[0]);
            assert forall|r: int| 0 <= r < ROWS implies #[trigger] grid@[r]
                == blank_picture()[r] by {
                assert(cells@[r] == row);
                assert(blank_picture()[r] =~= blank_picture()[0]);
            }
            assert(grid@ =~= blank_picture());
        }
        grid
    }

    /// A grid holding the given rows of tiles.
    pub fn from_cells(cells: [[Tile; COLS]; ROWS]) -> (grid: Grid)
        ensures
            grid@ == picture_of(cells),
    {
        Grid { cells }
    }

    /// The rows of tiles, copied out.
    pub fn cells(&self) -> (cells: [[Tile; COLS]; ROWS])
        ensures
            picture_of(cells) == self@,
    {
        self.cells
    }

    /// The tile at row `r`, column `c`.
    pub fn tile(&self, r: usize, c: usize) -> (t: Tile)
        requires
            r < ROWS,
            c < COLS,
        ensures
            t == self@[r as int][c as int],
    {
        self.cells[r][c]
    }

    /// The text of the picture: one line per row, each of `COLS` characters
    /// and a line feed. A hidden tile shows as the blank whatever its glyph, a
    /// revealed tile shows its glyph.
    pub fn render_text(&self) -> (text: String)
        ensures
            text@ == rendered(self@),
    {
        let mut text = String::new();
        let mut r: usize = 0;
        while r < ROWS
            invariant
                r <= ROWS,
                text@ == rendered(self@).take(text_index(r as int, 0)),
            decreases ROWS - r,
        {
            let mut c: usize = 0;
            while c < COLS
                invariant
                    r < ROWS,
                    c <= COLS,
                    text@ == rendered(self@).take(text_index(r as int, c as int)),
                decreases COLS - c,
            {
                proof {
                    lemma_text_index(r as int, c as int);
                }
                text.push(self.cells[r][c].display());
                c += 1;
                assert(text@ =~= rendered(self@).take(text_index(r as int, c as int)));
            }
            proof {
                lemma_text_index(r as int, COLS as int);
            }
            text.push(LINE_FEED);
            r += 1;
            proof {
                lemma_text_index(r as int, 0);
            }
            assert(text@ =~= rendered(self@).take(text_index(r as int, 0)));
        }
        assert(text@ =~= rendered(self@));
        text
    }

    /// Whether row `row` holds at least one hidden tile.
    pub fn row_is_hidden(&self, row: usize) -> (hidden: bool)
        requires
            row < ROWS,
        ensures
            hidden == row_hidden(self@, row as int),
    {
        let mut c: usize = 0;
        while c < COLS
            invariant
                row < ROWS,
                c <= COLS,
                forall|k: int| 0 <= k < c ==> !(#[trigger] self@[row as int][k]).hidden,
            decreases COLS - c,
        {
            if self.cells[row][c].hidden {
                assert(self@[row as int][c as int].hidden);
                return true;
            }
            c += 1;
        }
        false
    }

    /// The numbers of the rows that hold at least one hidden tile, ascending.
    pub fn hidden_rows(&self) -> (rows: Vec<usize>)
        ensures
            rows@ == hidden_rows(self@),
    {
        let mut rows: Vec<usize> = Vec::new();
        let mut r: usize = 0;
        proof {
            lemma_hidden_below_step(self@, 0);
        }
        while r < ROWS
            invariant
                r <= ROWS,
                rows@ == hidden_below(self@, r as nat),
            decreases ROWS - r,
        {
            proof {
                lemma_hidden_below_step(self@, r as nat + 1);
            }
            if self.row_is_hidden(r) {
                rows.push(r);
            }
            r += 1;
        }
        rows
    }

    /// Uncovers every tile of row `row` and says whether that changed
    /// anything, that is whether the row held a hidden tile before.
    pub fn reveal_row(&mut self, row: usize) -> (changed: bool)
        requires
            row < ROWS,
        ensures
            final(self)@ == revealed(old(self)@, row as int),
            changed == row_hidden(old(self)@, row as int),
    {
        let changed = self.row_is_hidden(row);
        let mut c: usize = 0;
        while c < COLS
            invariant
                row < ROWS,
                c <= COLS,
                forall|r: int, k: int|
                    0 <= r < ROWS && 0 <= k < COLS ==> #[trigger] self@[r][k] == (if r == row
                        && k < c {
                        Tile { glyph: old(self)@[r][k].glyph, hidden: false }
                    } else {
                        old(self)@[r][k]
                    }),
            decreases COLS - c,
        {
            let ghost prev = self@;
            self.cells[row][c].hidden = false;
            assert forall|r: int, k: int|
                0 <= r < ROWS && 0 <= k < COLS implies #[trigger] self@[r][k] == (if r == row
                && k == c {
                Tile { glyph: prev[r][k].glyph, hidden: false }
            } else {
                prev[r][k]
            }) by {
            }
            c += 1;
        }
        proof {
            assert forall|r: int| 0 <= r < ROWS implies #[trigger] self@[r] =~= revealed(
                old(self)@,
                row as int,
            )[r] by {
            }
            assert(self@ =~= revealed(old(self)@, row as int));
        }
        changed
    }

    /// Lays the rows of `lines` over the grid from the top left corner.
    pub fn fill(&mut self, lines: &Vec<Vec<char>>)
        ensures
            final(self)@ == loaded(old(self)@, rows_view(lines@)),
    {
        let ghost want = loaded(old(self)@, rows_view(lines@));
        let mut r: usize = 0;
        while r < ROWS && r < lines.len()
            invariant
                r <= ROWS,
                want == loaded(old(self)@, rows_view(lines@)),
                forall|i: int, k: int|
                    0 <= i < ROWS && 0 <= k < COLS ==> #[trigger] self@[i][k] == (if i < r {
                        want[i][k]
                    } else {
                        old(self)@[i][k]
                    }),
            decreases ROWS - r,
        {
            let line = &lines[r];
            let mut c: usize = 0;
            while c < COLS && c < line.len()
                invariant
                    r < ROWS,
                    r < lines.len(),
                    c <= COLS,
                    line@ == rows_view(lines@)[r as int],
                    want == loaded(old(self)@, rows_view(lines@)),
                    forall|i: int, k: int|
                        0 <= i < ROWS && 0 <= k < COLS ==> #[trigger] self@[i][k] == (if i < r || (i
                            == r && k < c) {
                            want[i][k]
                        } else {
                            old(self)@[i][k]
                        }),
                decreases COLS - c,
            {
                let ghost prev = self@;
                self.cells[r][c] = Tile { glyph: line[c], hidden: true };
                assert(written(rows_view(lines@), r as int, c as int));
                assert(want[r as int][c as int] == loaded_tile(
                    old(self)@,
                    rows_view(lines@),
                    r as int,
                    c as int,
                ));
                assert forall|i: int, k: int|
                    0 <= i < ROWS && 0 <= k < COLS implies #[trigger] self@[i][k] == (if i == r
                    && k == c {
                    want[i][k]
                } else {
                    prev[i][k]
                }) by {
                }
                c += 1;
            }
            assert forall|k: int| c <= k < COLS implies #[trigger] want[r as int][k] == old(
                self,
            )@[r as int][k] by {
                assert(!written(rows_view(lines@), r as int, k));
            }
            r += 1;
        }
        proof {
            assert forall|i: int, k: int|
                r <= i < ROWS && 0 <= k < COLS implies #[trigger] want[i][k]
                == old(self)@[i][k] by {
                assert(!written(rows_view(lines@), i, k));
            }
            assert forall|i: int| 0 <= i < ROWS implies #[trigger] self@[i] =~= want[i] by {
            }
            assert(self@ =~= want);
        }
    }

    /// Loads a picture from `text`, whose rows are parted by line breaks.
    ///
    /// The character at row `r`, column `c` of the text becomes the glyph of
    /// the tile there, and that tile is hidden. Characters beyond the last
    /// column and rows beyond the last row are dropped; tiles that the text
    /// does not reach keep their glyph and cover. Text that is at hand can
    /// always be loaded.
    pub fn load(&mut self, text: &str) -> (outcome: Result<(), LoadError>)
        ensures
            outcome is Ok,
            final(self)@ == loaded(old(self)@, lines_of(text@)),
    {
        let chars = chars_of(text);
        let lines = split_lines(&chars);
        self.fill(&lines);
        Ok(())
    }
}

} // verus!
