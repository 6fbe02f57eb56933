//! The picture as a value: what a grid holds, and what loading, revealing
//! and rendering make of it.

use vstd::prelude::*;
use crate::text::LINE_FEED;
use crate::tile::Tile;
use crate::tile::BLANK;

verus! {

/// Number of rows of the picture.
pub const ROWS: usize = 20;

/// Number of tiles in each row.
pub const COLS: usize = 40;

/// Number of characters that one row takes in the rendered text: its tiles
/// and the line feed after them.
pub const LINE_WIDTH: usize = COLS + 1;

/// The tiles of a grid as a value: its rows from top to bottom, each from
/// left to right.
pub type Picture = Seq<Seq<Tile>>;

/// A picture has `ROWS` rows of `COLS` tiles each.
pub open spec fn shaped(p: Picture) -> bool {
    &&& p.len() == ROWS
    &&& forall|r: int| 0 <= r < ROWS ==> (#[trigger] p[r]).len() == COLS
}

/// The picture whose tiles are all blank and hidden.
pub open spec fn blank_picture() -> Picture {
    Seq::new(ROWS as nat, |r: int| Seq::new(COLS as nat, |c: int| Tile::blank()))
}

/// Row `r` holds at least one hidden tile.
pub open spec fn row_hidden(p: Picture, r: int) -> bool {
    exists|c: int| 0 <= c < COLS && (#[trigger] p[r][c]).hidden
}

/// The predicate that picks the hidden rows of `p` out of the row numbers.
pub open spec fn is_hidden_row(p: Picture) -> spec_fn(usize) -> bool {
    |r: usize| row_hidden(p, r as int)
}

/// The numbers of the first `n` rows, ascending.
pub open spec fn rows_below(n: nat) -> Seq<usize> {
    Seq::new(n, |r: int| r as usize)
}

/// The numbers of the rows that hold a hidden tile, ascending.
pub open spec fn hidden_rows(p: Picture) -> Seq<usize> {
    rows_below(ROWS as nat).filter(is_hidden_row(p))
}

/// `p` with every tile of row `row` uncovered; glyphs and the other rows stay.
pub open spec fn revealed(p: Picture, row: int) -> Picture {
    Seq::new(
        ROWS as nat,
        |r: int|
            Seq::new(
                COLS as nat,
                |c: int|
                    if r == row {
                        Tile { glyph: p[r][c].glyph, hidden: false }
                    } else {
                        p[r][c]
                    },
            ),
    )
}

/// The character at row `r`, column `c` of `lines` falls inside the grid.
pub open spec fn written(lines: Seq<Seq<char>>, r: int, c: int) -> bool {
    0 <= r < ROWS && r < lines.len() && 0 <= c < COLS && c < lines[r].len()
}

/// The tile at row `r`, column `c` after `lines` were laid over `p`: under a
/// character, a hidden tile with that glyph; elsewhere the tile of `p`.
pub open spec fn loaded_tile(p: Picture, lines: Seq<Seq<char>>, r: int, c: int) -> Tile {
    if written(lines, r, c) {
        Tile { glyph: lines[r][c], hidden: true }
    } else {
        p[r][c]
    }
}

/// `p` after the rows of characters `lines` were laid over it from the top
/// left corner: a tile under a character takes it as its glyph and is
/// hidden, characters outside the grid are dropped, and a tile that no
/// character covers stays as it was.
pub open spec fn loaded(p: Picture, lines: Seq<Seq<char>>) -> Picture {
    Seq::new(
        ROWS as nat,
        |r: int| Seq::new(COLS as nat, |c: int| loaded_tile(p, lines, r, c)),
    )
}

/// What row `r` of `p` shows: one character for each of its tiles.
pub open spec fn rendered_row(p: Picture, r: int) -> Seq<char> {
    Seq::new(COLS as nat, |c: int| p[r][c].shown())
}

/// The text of `p`: for each row its `COLS` shown characters and a line feed.
pub open spec fn rendered(p: Picture) -> Seq<char> {
    Seq::new(
        (ROWS * LINE_WIDTH) as nat,
        |i: int|
            if i % (LINE_WIDTH as int) == COLS {
                LINE_FEED
            } else {
                p[i / (LINE_WIDTH as int)][i % (LINE_WIDTH as int)].shown()
            },
    )
}

/// Where the character of row `r`, column `c` stands in the rendered text;
/// column `COLS` is the row's line feed.
pub open spec fn text_index(r: int, c: int) -> int {
    r * (LINE_WIDTH as int) + c
}

/// A place in the rendered text gives back its row and column, and the
/// place after it is the next column, or the start of the next row after a
/// line feed.
pub proof fn lemma_text_index(r: int, c: int)
    requires
        0 <= r,
        0 <= c <= COLS,
    ensures
        text_index(r, c) / (LINE_WIDTH as int) == r,
        text_index(r, c) % (LINE_WIDTH as int) == c,
        0 <= text_index(r, c) < (r + 1) * LINE_WIDTH,
        text_index(r, c) + 1 == if c == COLS {
            text_index(r + 1, 0)
        } else {
            text_index(r, c + 1)
        },
{
    let w = LINE_WIDTH as int;
    assert((r * w + c) / w == r && (r * w + c) % w == c && 0 <= r * w + c < (r + 1) * w && (r + 1)
        * w == r * w + w) by (nonlinear_arith)
        requires
            0 <= r,
            0 <= c < w,
    ;
}

/// The hidden rows among the first `n` rows of `p`, ascending.
pub open spec fn hidden_below(p: Picture, n: nat) -> Seq<usize> {
    rows_below(n).filter(is_hidden_row(p))
}

/// How the hidden rows among the first `n` rows grow with `n`: none among
/// no rows, and row `n - 1` comes last where it is hidden.
pub proof fn lemma_hidden_below_step(p: Picture, n: nat)
    requires
        n <= ROWS,
    ensures
        n == 0 ==> hidden_below(p, n) == Seq::<usize>::empty(),
        n > 0 ==> hidden_below(p, n) == if row_hidden(p, n - 1) {
            hidden_below(p, (n - 1) as nat).push((n - 1) as usize)
        } else {
            hidden_below(p, (n - 1) as nat)
        },
        n == ROWS ==> hidden_below(p, n) == hidden_rows(p),
{
    reveal(Seq::filter);
    if n > 0 {
        assert(rows_below(n).drop_last() =~= rows_below((n - 1) as nat));
    }
}

/// The hidden rows among the first `n` rows are numbers below `n`, strictly
/// ascending; each is a hidden row, and each hidden row below `n` is among
/// them.
pub proof fn lemma_hidden_below(p: Picture, n: nat)
    requires
        n <= ROWS,
    ensures
        hidden_below(p, n).len() <= n,
        forall|i: int|
            0 <= i < hidden_below(p, n).len() ==> (#[trigger] hidden_below(p, n)[i]) < n
                && row_hidden(p, hidden_below(p, n)[i] as int),
        forall|i: int, j: int|
            0 <= i < j < hidden_below(p, n).len() ==> hidden_below(p, n)[i] < hidden_below(p, n)[j],
        forall|r: int|
            0 <= r < n && row_hidden(p, r) ==> hidden_below(p, n).contains(r as usize),
    decreases n,
{
    lemma_hidden_below_step(p, n);
    if n > 0 {
        let m = (n - 1) as nat;
        let before = hidden_below(p, m);
        let now = hidden_below(p, n);
        lemma_hidden_below(p, m);
        assert forall|r: int| 0 <= r < n && row_hidden(p, r) implies now.contains(r as usize) by {
            if r < m {
                let i = choose|i: int| 0 <= i < before.len() && before[i] == r as usize;
                assert(now[i] == r as usize);
            } else {
                assert(now[now.len() - 1] == r as usize);
            }
        }
    }
}

/// The hidden rows are rows of the grid, strictly ascending; each holds a
/// hidden tile, and each row that holds one is among them.
pub proof fn lemma_hidden_rows(p: Picture)
    ensures
        hidden_rows(p).len() <= ROWS,
        forall|i: int|
            0 <= i < hidden_rows(p).len() ==> (#[trigger] hidden_rows(p)[i]) < ROWS && row_hidden(
                p,
                hidden_rows(p)[i] as int,
            ),
        forall|i: int, j: int|
            0 <= i < j < hidden_rows(p).len() ==> hidden_rows(p)[i] < hidden_rows(p)[j],
        forall|r: int| 0 <= r < ROWS && row_hidden(p, r) ==> hidden_rows(p).contains(r as usize),
{
    lemma_hidden_below(p, ROWS as nat);
    lemma_hidden_below_step(p, ROWS as nat);
}


/// A row of blanks, as a row of the rendered text shows it.
pub open spec fn dots() -> Seq<char> {
    Seq::new(COLS as nat, |c: int| BLANK)
}

/// Line `r` of a rendered text, without its line feed.
pub open spec fn text_line(text: Seq<char>, r: int) -> Seq<char> {
    text.subrange(text_index(r, 0), text_index(r, COLS as int))
}

/// The rendered text is made of `ROWS` lines: line `r` holds what row `r`
/// shows, and a line feed ends it.
pub proof fn lemma_rendered_lines(p: Picture)
    ensures
        rendered(p).len() == ROWS * LINE_WIDTH,
        forall|r: int|
            0 <= r < ROWS ==> #[trigger] text_line(rendered(p), r) == rendered_row(p, r)
                && rendered(p)[text_index(r, COLS as int)] == LINE_FEED,
{
    assert forall|r: int| 0 <= r < ROWS implies #[trigger] text_line(rendered(p), r)
        == rendered_row(p, r) && rendered(p)[text_index(r, COLS as int)] == LINE_FEED by {
        lemma_text_index(r, 0);
        lemma_text_index(r, COLS as int);
        assert forall|c: int| 0 <= c < COLS implies text_line(rendered(p), r)[c] == rendered_row(
            p,
            r,
        )[c] by {
            lemma_text_index(r, c);
        }
        assert(text_line(rendered(p), r) =~= rendered_row(p, r));
    }
}

/// Pictures whose rows show the same render to the same text.
pub proof fn lemma_rendered_by_rows(p: Picture, q: Picture)
    requires
        forall|r: int| 0 <= r < ROWS ==> rendered_row(p, r) == rendered_row(q, r),
    ensures
        rendered(p) == rendered(q),
{
    assert forall|i: int| 0 <= i < ROWS * LINE_WIDTH implies rendered(p)[i] == rendered(q)[i] by {
        let r = i / (LINE_WIDTH as int);
        let c = i % (LINE_WIDTH as int);
        if c != COLS {
            assert(rendered_row(p, r)[c] == rendered_row(q, r)[c]);
        }
    }
    assert(rendered(p) =~= rendered(q));
}

/// A fresh picture renders as `ROWS` lines of `COLS` blanks.
pub proof fn lemma_blank_renders_dots()
    ensures
        rendered(blank_picture()).len() == ROWS * LINE_WIDTH,
        forall|r: int|
            0 <= r < ROWS ==> #[trigger] text_line(rendered(blank_picture()), r) == dots()
                && rendered(blank_picture())[text_index(r, COLS as int)] == LINE_FEED,
{
    lemma_rendered_lines(blank_picture());
    assert forall|r: int| 0 <= r < ROWS implies rendered_row(blank_picture(), r) == dots() by {
        assert(rendered_row(blank_picture(), r) =~= dots());
    }
}

/// Loading hides what it writes: where every tile that `lines` do not reach
/// shows a blank before the load, the loaded picture renders as a fresh one,
/// all blanks, whatever `lines` hold.
pub proof fn lemma_load_renders_dots(p: Picture, lines: Seq<Seq<char>>)
    requires
        forall|r: int, c: int|
            0 <= r < ROWS && 0 <= c < COLS && !written(lines, r, c) ==> (#[trigger] p[r][c]).shown()
                == BLANK,
    ensures
        rendered(loaded(p, lines)) == rendered(blank_picture()),
{
    let q = loaded(p, lines);
    assert forall|r: int| 0 <= r < ROWS implies rendered_row(q, r) == rendered_row(
        blank_picture(),
        r,
    ) by {
        assert forall|c: int| 0 <= c < COLS implies q[r][c].shown() == BLANK by {
            assert(q[r][c] == loaded_tile(p, lines, r, c));
            if !written(lines, r, c) {
                assert(p[r][c].shown() == BLANK);
            }
        }
        assert(rendered_row(q, r) =~= rendered_row(blank_picture(), r));
    }
    lemma_rendered_by_rows(q, blank_picture());
}

/// A picture loaded into a fresh grid renders as all blanks.
pub proof fn lemma_fresh_load_renders_dots(lines: Seq<Seq<char>>)
    ensures
        rendered(loaded(blank_picture(), lines)) == rendered(blank_picture()),
{
    lemma_load_renders_dots(blank_picture(), lines);
}

/// The glyphs of row `r`, covered or not.
pub open spec fn glyph_row(p: Picture, r: int) -> Seq<char> {
    Seq::new(COLS as nat, |c: int| p[r][c].glyph)
}

/// After row `r` is revealed, line `r` of the text shows the glyphs of the
/// row, and every other line shows what it showed before.
pub proof fn lemma_reveal_shows_row(p: Picture, r: int)
    requires
        0 <= r < ROWS,
    ensures
        text_line(rendered(revealed(p, r)), r) == glyph_row(p, r),
        forall|other: int|
            0 <= other < ROWS && other != r ==> #[trigger] text_line(
                rendered(revealed(p, r)),
                other,
            ) == text_line(rendered(p), other),
{
    let q = revealed(p, r);
    lemma_rendered_lines(p);
    lemma_rendered_lines(q);
    assert(rendered_row(q, r) =~= glyph_row(p, r));
    assert forall|other: int| 0 <= other < ROWS && other != r implies #[trigger] text_line(
        rendered(q),
        other,
    ) == text_line(rendered(p), other) by {
        assert(rendered_row(q, other) =~= rendered_row(p, other));
    }
}

/// The glyphs that a load leaves in row `r`: the characters of row `r` of
/// `lines` as far as they reach, and after them the glyphs that were there.
pub proof fn lemma_loaded_glyphs(p: Picture, lines: Seq<Seq<char>>, r: int)
    requires
        0 <= r < ROWS,
    ensures
        glyph_row(loaded(p, lines), r) == Seq::new(
            COLS as nat,
            |c: int|
                if written(lines, r, c) {
                    lines[r][c]
                } else {
                    p[r][c].glyph
                },
        ),
{
    let q = loaded(p, lines);
    let want = Seq::new(
        COLS as nat,
        |c: int|
            if written(lines, r, c) {
                lines[r][c]
            } else {
                p[r][c].glyph
            },
    );
    assert forall|c: int| 0 <= c < COLS implies glyph_row(q, r)[c] == want[c] by {
        assert(q[r][c] == loaded_tile(p, lines, r, c));
    }
    assert(glyph_row(q, r) =~= want);
}

/// Load into a fresh grid, reveal row `r`: line `r` of the text then shows
/// the characters that the load wrote into the row, and blanks in the
/// columns that it did not write.
pub proof fn lemma_reveal_shows_loaded_row(lines: Seq<Seq<char>>, r: int)
    requires
        0 <= r < ROWS,
    ensures
        text_line(rendered(revealed(loaded(blank_picture(), lines), r)), r) == Seq::new(
            COLS as nat,
            |c: int|
                if written(lines, r, c) {
                    lines[r][c]
                } else {
                    BLANK
                },
        ),
{
    let q = loaded(blank_picture(), lines);
    lemma_reveal_shows_row(q, r);
    lemma_loaded_glyphs(blank_picture(), lines, r);
    assert(glyph_row(q, r) =~= Seq::new(
        COLS as nat,
        |c: int|
            if written(lines, r, c) {
                lines[r][c]
            } else {
                BLANK
            },
    ));
}


/// Revealing row `r` takes the cover off row `r` and leaves the cover of
/// every other row as it was.
pub proof fn lemma_row_hidden_after_reveal(p: Picture, r: int, x: int)
    requires
        0 <= r < ROWS,
        0 <= x < ROWS,
    ensures
        row_hidden(revealed(p, r), x) <==> x != r && row_hidden(p, x),
{
    let q = revealed(p, r);
    if row_hidden(q, x) {
        let c = choose|c: int| 0 <= c < COLS && (#[trigger] q[x][c]).hidden;
        assert(x != r);
        assert(p[x][c].hidden);
    }
    if x != r && row_hidden(p, x) {
        let c = choose|c: int| 0 <= c < COLS && (#[trigger] p[x][c]).hidden;
        assert(q[x][c].hidden);
    }
}

/// A row number is among the hidden rows exactly if it is a row of the grid
/// that holds a hidden tile.
pub proof fn lemma_hidden_rows_contains(p: Picture, x: usize)
    ensures
        hidden_rows(p).contains(x) <==> x < ROWS && row_hidden(p, x as int),
{
    lemma_hidden_rows(p);
    if hidden_rows(p).contains(x) {
        let i = choose|i: int| 0 <= i < hidden_rows(p).len() && hidden_rows(p)[i] == x;
        assert(hidden_rows(p)[i] < ROWS);
    }
}

/// How revealing row `r` changes the hidden rows among the first `n` rows.
proof fn lemma_hidden_below_after_reveal(p: Picture, r: int, n: nat)
    requires
        0 <= r < ROWS,
        n <= ROWS,
    ensures
        n <= r || !row_hidden(p, r) ==> hidden_below(revealed(p, r), n) == hidden_below(p, n),
        n > r && row_hidden(p, r) ==> hidden_below(revealed(p, r), n).len() + 1 == hidden_below(
            p,
            n,
        ).len(),
    decreases n,
{
    let q = revealed(p, r);
    lemma_hidden_below_step(p, n);
    lemma_hidden_below_step(q, n);
    if n > 0 {
        lemma_hidden_below_after_reveal(p, r, (n - 1) as nat);
        lemma_row_hidden_after_reveal(p, r, n - 1);
    }
}

/// Revealing a row takes exactly that row out of the hidden rows: the
/// others stay, one row fewer is hidden if the row was hidden before, and
/// nothing changes if it was not.
pub proof fn lemma_reveal_hidden_rows(p: Picture, r: int)
    requires
        0 <= r < ROWS,
    ensures
        forall|x: usize|
            hidden_rows(revealed(p, r)).contains(x) <==> hidden_rows(p).contains(x) && x != r,
        row_hidden(p, r) ==> hidden_rows(p).contains(r as usize) && hidden_rows(
            revealed(p, r),
        ).len() == hidden_rows(p).len() - 1,
        !row_hidden(p, r) ==> hidden_rows(revealed(p, r)) == hidden_rows(p),
{
    let q = revealed(p, r);
    lemma_hidden_below_after_reveal(p, r, ROWS as nat);
    lemma_hidden_below_step(p, ROWS as nat);
    lemma_hidden_below_step(q, ROWS as nat);
    lemma_hidden_rows_contains(p, r as usize);
    assert forall|x: usize|
        hidden_rows(q).contains(x) <==> hidden_rows(p).contains(x) && x != r by {
        lemma_hidden_rows_contains(p, x);
        lemma_hidden_rows_contains(q, x);
        if x < ROWS {
            lemma_row_hidden_after_reveal(p, r, x as int);
        }
    }
}

/// Revealing a row twice is revealing it once.
pub proof fn lemma_reveal_twice(p: Picture, r: int)
    requires
        0 <= r < ROWS,
    ensures
        revealed(revealed(p, r), r) == revealed(p, r),
        !row_hidden(revealed(p, r), r),
{
    let q = revealed(p, r);
    assert forall|x: int| 0 <= x < ROWS implies #[trigger] revealed(q, r)[x] == q[x] by {
        assert(revealed(q, r)[x] =~= q[x]);
    }
    assert(revealed(q, r) =~= q);
    lemma_row_hidden_after_reveal(p, r, r);
}

/// In a fresh picture, and in one loaded into a fresh grid, every row is
/// hidden.
pub proof fn lemma_fresh_load_hides_every_row(lines: Seq<Seq<char>>)
    ensures
        hidden_rows(blank_picture()) == rows_below(ROWS as nat),
        hidden_rows(loaded(blank_picture(), lines)) == rows_below(ROWS as nat),
{
    assert forall|r: int| 0 <= r < ROWS implies row_hidden(blank_picture(), r) by {
        assert(blank_picture()[r][0].hidden);
    }
    lemma_all_hidden(blank_picture(), ROWS as nat);
    let q = loaded(blank_picture(), lines);
    assert forall|r: int| 0 <= r < ROWS implies row_hidden(q, r) by {
        assert(q[r][0] == loaded_tile(blank_picture(), lines, r, 0));
        assert(q[r][0].hidden);
    }
    lemma_all_hidden(q, ROWS as nat);
    lemma_hidden_below_step(blank_picture(), ROWS as nat);
    lemma_hidden_below_step(q, ROWS as nat);
}

/// Where each of the first `n` rows is hidden, the hidden rows among them
/// are all of them.
proof fn lemma_all_hidden(p: Picture, n: nat)
    requires
        n <= ROWS,
        forall|r: int| 0 <= r < n ==> row_hidden(p, r),
    ensures
        hidden_below(p, n) == rows_below(n),
    decreases n,
{
    lemma_hidden_below_step(p, n);
    if n > 0 {
        lemma_all_hidden(p, (n - 1) as nat);
        assert(rows_below((n - 1) as nat).push((n - 1) as usize) =~= rows_below(n));
    } else {
        assert(rows_below(0) =~= Seq::<usize>::empty());
    }
}

} // verus!
