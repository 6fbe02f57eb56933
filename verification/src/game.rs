//! The course of a puzzle: what a run of reveal steps makes of a session.

use vstd::prelude::*;
use crate::app::pick_fits;
use crate::app::stepped;
use crate::app::AppState;
use crate::app::AppView;
use crate::picture::blank_picture;
use crate::picture::hidden_rows;
use crate::picture::lemma_fresh_load_hides_every_row;
use crate::picture::lemma_hidden_rows;
use crate::picture::lemma_hidden_rows_contains;
use crate::picture::lemma_reveal_hidden_rows;
use crate::picture::lemma_row_hidden_after_reveal;
use crate::picture::loaded;
use crate::picture::row_hidden;
use crate::picture::ROWS;

verus! {

/// The session after the reveal steps that drew `picks`, one after another.
pub open spec fn played(a: AppView, picks: Seq<int>) -> AppView
    decreases picks.len(),
{
    if picks.len() == 0 {
        a
    } else {
        stepped(played(a, picks.drop_last()), picks.last())
    }
}

/// Each of `picks` is a place among the rows that are hidden when it is
/// drawn.
pub open spec fn picks_fit(a: AppView, picks: Seq<int>) -> bool {
    forall|k: int| 0 <= k < picks.len() ==> pick_fits(#[trigger] played(a, picks.take(k)), picks[k])
}

/// The row that step `k` of the run uncovers.
pub open spec fn drawn_row(a: AppView, picks: Seq<int>, k: int) -> int {
    hidden_rows(played(a, picks.take(k)).grid)[picks[k]] as int
}

/// A run of fitting picks, cut short, is a run of fitting picks.
proof fn lemma_picks_fit_prefix(a: AppView, picks: Seq<int>, n: int)
    requires
        picks_fit(a, picks),
        0 <= n <= picks.len(),
    ensures
        picks_fit(a, picks.take(n)),
{
    assert forall|k: int| 0 <= k < n implies pick_fits(
        #[trigger] played(a, picks.take(n).take(k)),
        picks.take(n)[k],
    ) by {
        assert(picks.take(n).take(k) =~= picks.take(k));
        assert(pick_fits(played(a, picks.take(k)), picks[k]));
    }
}

/// While rows are hidden, each reveal step uncovers one of them and changes
/// nothing else: after `k` steps, no more than there were hidden rows, `k`
/// rows fewer are hidden, screen and running flag are as they were, and a
/// row that is not hidden then was either not hidden at the start or drawn
/// by one of the steps.
pub proof fn lemma_played(a: AppView, picks: Seq<int>)
    requires
        picks_fit(a, picks),
        picks.len() <= hidden_rows(a.grid).len(),
    ensures
        hidden_rows(played(a, picks).grid).len() == hidden_rows(a.grid).len() - picks.len(),
        played(a, picks).state == a.state,
        played(a, picks).running == a.running,
        forall|k: int|
            0 <= k < picks.len() ==> 0 <= #[trigger] drawn_row(a, picks, k) < ROWS && row_hidden(
                a.grid,
                drawn_row(a, picks, k),
            ) && !row_hidden(played(a, picks).grid, drawn_row(a, picks, k)),
        forall|x: int|
            0 <= x < ROWS && row_hidden(played(a, picks).grid, x) ==> row_hidden(a.grid, x),
    decreases picks.len(),
{
    if picks.len() > 0 {
        let n = picks.len() - 1;
        let before = picks.drop_last();
        let mid = played(a, before);
        assert(before =~= picks.take(n));
        lemma_picks_fit_prefix(a, picks, n);
        lemma_played(a, before);
        assert(pick_fits(played(a, picks.take(n)), picks[n]));
        let hidden = hidden_rows(mid.grid);
        let row = hidden[picks.last()] as int;
        assert(row == drawn_row(a, picks, n));
        lemma_hidden_rows(mid.grid);
        lemma_reveal_hidden_rows(mid.grid, row);
        assert forall|x: int|
            0 <= x < ROWS && row_hidden(played(a, picks).grid, x) implies row_hidden(a.grid, x) by {
            lemma_row_hidden_after_reveal(mid.grid, row, x);
        }
        lemma_row_hidden_after_reveal(mid.grid, row, row);
        assert forall|k: int| 0 <= k < picks.len() implies 0 <= #[trigger] drawn_row(a, picks, k)
            < ROWS && row_hidden(a.grid, drawn_row(a, picks, k)) && !row_hidden(
            played(a, picks).grid,
            drawn_row(a, picks, k),
        ) by {
            if k < n {
                assert(before.take(k) =~= picks.take(k));
                assert(drawn_row(a, before, k) == drawn_row(a, picks, k));
                lemma_row_hidden_after_reveal(mid.grid, row, drawn_row(a, picks, k));
            }
        }
    }
}

/// No row is drawn twice: the steps of a run, no more of them than there
/// were hidden rows, uncover rows that differ from one another.
pub proof fn lemma_drawn_rows_differ(a: AppView, picks: Seq<int>, j: int, k: int)
    requires
        picks_fit(a, picks),
        picks.len() <= hidden_rows(a.grid).len(),
        0 <= j < k < picks.len(),
    ensures
        drawn_row(a, picks, j) != drawn_row(a, picks, k),
{
    // After its first `k` steps the run has uncovered the row of step `j`,
    // and step `k` draws a row that is hidden then.
    let upto = picks.take(k);
    lemma_picks_fit_prefix(a, picks, k);
    lemma_played(a, upto);
    assert(upto.take(j) =~= picks.take(j));
    assert(drawn_row(a, upto, j) == drawn_row(a, picks, j));
    assert(!row_hidden(played(a, upto).grid, drawn_row(a, picks, j)));
    assert(pick_fits(played(a, picks.take(k)), picks[k]));
    lemma_hidden_rows(played(a, upto).grid);
}

/// Once no row is hidden, a reveal step brings up the selection screen and
/// changes nothing else, whatever was drawn.
pub proof fn lemma_step_at_the_end(a: AppView, pick: int)
    requires
        hidden_rows(a.grid).len() == 0,
    ensures
        stepped(a, pick) == (AppView { state: AppState::Menu, ..a }),
{
}

/// A whole puzzle, whatever is drawn: from a picture freshly loaded into a
/// blank grid, with the puzzle screen up, each of the first `ROWS` reveal
/// steps uncovers a row of its own and leaves the puzzle screen up; after
/// them no row is hidden; and the step after them brings up the selection
/// screen and leaves the grid alone.
pub proof fn lemma_whole_puzzle(running: bool, lines: Seq<Seq<char>>, picks: Seq<int>)
    requires
        picks.len() == ROWS + 1,
        picks_fit(
            AppView { running, state: AppState::Draw, grid: loaded(blank_picture(), lines) },
            picks,
        ),
    ensures
        ({
            let start = AppView {
                running,
                state: AppState::Draw,
                grid: loaded(blank_picture(), lines),
            };
            &&& forall|k: int|
                0 <= k <= ROWS ==> hidden_rows(#[trigger] played(start, picks.take(k)).grid).len()
                    == ROWS - k && played(start, picks.take(k)).state == AppState::Draw
            &&& forall|j: int, k: int|
                0 <= j < k < ROWS ==> drawn_row(start, picks, j) != drawn_row(start, picks, k)
            &&& hidden_rows(played(start, picks.take(ROWS as int)).grid).len() == 0
            &&& played(start, picks) == (AppView {
                state: AppState::Menu,
                ..played(start, picks.take(ROWS as int))
            })
        }),
{
    let start = AppView { running, state: AppState::Draw, grid: loaded(blank_picture(), lines) };
    lemma_fresh_load_hides_every_row(lines);
    assert(hidden_rows(start.grid).len() == ROWS);
    assert forall|k: int| 0 <= k <= ROWS implies hidden_rows(
        #[trigger] played(start, picks.take(k)).grid,
    ).len() == ROWS - k && played(start, picks.take(k)).state == AppState::Draw by {
        lemma_picks_fit_prefix(start, picks, k);
        lemma_played(start, picks.take(k));
    }
    let most = picks.take(ROWS as int);
    lemma_picks_fit_prefix(start, picks, ROWS as int);
    assert forall|j: int, k: int| 0 <= j < k < ROWS implies drawn_row(start, picks, j) != drawn_row(
        start,
        picks,
        k,
    ) by {
        lemma_drawn_rows_differ(start, most, j, k);
        assert(most.take(j) =~= picks.take(j));
        assert(most.take(k) =~= picks.take(k));
    }
    assert(picks.drop_last() =~= most);
    assert(hidden_rows(played(start, most).grid).len() == 0);
    lemma_step_at_the_end(played(start, most), picks.last());
}

} // verus!
