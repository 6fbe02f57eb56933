//! The session: the grid, the screen that is up, and the running flag.

use vstd::prelude::*;
use crate::grid::picture_of;
use crate::grid::Grid;
use crate::grid::LoadError;
use crate::picture::blank_picture;
use crate::picture::hidden_rows;
use crate::picture::lemma_hidden_rows;
use crate::picture::loaded;
use crate::picture::rendered;
use crate::picture::revealed;
use crate::picture::shaped;
use crate::picture::Picture;
use crate::picture::COLS;
use crate::picture::ROWS;
use crate::random::pick_below;
use crate::random::pick_below_unseeded;
use crate::text::lines_of;
use crate::tile::Tile;

verus! {

/// The screen that is up.
#[derive(Debug, Clone, Copy, PartialEq, Eq, Structural)]
pub enum AppState {
    /// The selection screen, where a new picture may be asked for.
    Menu,
    /// The puzzle, where each key uncovers a row.
    Draw,
}

/// The session as a value.
pub struct AppView {
    pub running: bool,
    pub state: AppState,
    pub grid: Picture,
}

/// The session after one reveal step that drew `pick`.
///
/// While a row is hidden, the row that stands at place `pick` among the
/// hidden rows is uncovered and the screen stays. Once no row is hidden, the
/// grid stays and the selection screen comes up.
pub open spec fn stepped(a: AppView, pick: int) -> AppView {
    let hidden = hidden_rows(a.grid);
    if hidden.len() == 0 {
        AppView { state: AppState::Menu, ..a }
    } else {
        AppView { grid: revealed(a.grid, hidden[pick] as int), ..a }
    }
}

/// `pick` is a place among the hidden rows of `a`; any number will do once
/// no row is hidden.
pub open spec fn pick_fits(a: AppView, pick: int) -> bool {
    hidden_rows(a.grid).len() == 0 || 0 <= pick < hidden_rows(a.grid).len()
}

/// The other screen.
pub open spec fn toggled(state: AppState) -> AppState {
    match state {
        AppState::Menu => AppState::Draw,
        AppState::Draw => AppState::Menu,
    }
}

/// The session: it owns the grid, and knows which screen is up and whether
/// the program is to go on.
#[derive(Debug)]
pub struct App {
    running: bool,
    state: AppState,
    image: Grid,
}

impl View for App {
    type V = AppView;

    closed spec fn view(&self) -> AppView {
        AppView { running: self.running, state: self.state, grid: self.image@ }
    }
}

impl Default for App {
    /// A running session on the selection screen, with a blank grid.
    fn default() -> (app: App)
        ensures
            app@ == (AppView { running: true, state: AppState::Menu, grid: blank_picture() }),
    {
        App { running: true, state: AppState::Menu, image: Grid::new() }
    }
}

impl App {
    /// The grid of every session has the fixed size.
    pub proof fn lemma_shaped(self)
        ensures
            shaped(self@.grid),
    {
        self.image.lemma_shaped();
    }

    /// A running session on the given screen, with a blank grid.
    pub fn new(state: AppState) -> (app: App)
        ensures
            app@ == (AppView { running: true, state, grid: blank_picture() }),
    {
        App { running: true, state, image: Grid::new() }
    }

    /// The passing of time changes nothing.
    pub fn tick(&self) {
    }

    /// Whether the program is to go on.
    pub fn running(&self) -> (running: bool)
        ensures
            running == self@.running,
    {
        self.running
    }

    /// The screen that is up.
    pub fn state(&self) -> (state: AppState)
        ensures
            state == self@.state,
    {
        self.state
    }

    /// The grid.
    pub fn grid(&self) -> (grid: &Grid)
        ensures
            grid@ == self@.grid,
    {
        &self.image
    }

    /// The tiles of the grid, copied out row by row.
    pub fn image(&self) -> (cells: [[Tile; COLS]; ROWS])
        ensures
            picture_of(cells) == self@.grid,
    {
        self.image.cells()
    }

    /// The text of the picture as the screen shows it: hidden tiles as
    /// blanks, revealed tiles as their glyphs, a line feed after each row.
    pub fn image_as_string(&self) -> (text: String)
        ensures
            text@ == rendered(self@.grid),
    {
        self.image.render_text()
    }

    /// Ends the program: the running flag drops, and nothing else changes.
    pub fn quit(&mut self)
        ensures
            final(self)@ == (AppView { running: false, ..old(self)@ }),
    {
        self.running = false;
    }

    /// Brings up the other screen, and changes nothing else.
    pub fn change_state(&mut self)
        ensures
            final(self)@ == (AppView { state: toggled(old(self)@.state), ..old(self)@ }),
    {
        self.state = match self.state {
            AppState::Menu => AppState::Draw,
            AppState::Draw => AppState::Menu,
        };
    }

    /// Lays the picture `text` over the grid; screen and running flag stay.
    pub fn load_random_image(&mut self, text: &str)
        ensures
            final(self)@ == (AppView {
                grid: loaded(old(self)@.grid, lines_of(text@)),
                ..old(self)@
            }),
    {
        let _ = self.image.load(text);
    }

    /// Lays the picture that `source` holds over the grid. Without a picture
    /// the load fails as unreadable and the session stays as it was.
    pub fn load_image(&mut self, source: Option<&str>) -> (outcome: Result<(), LoadError>)
        ensures
            match source {
                Some(text) => outcome is Ok && final(self)@ == (AppView {
                    grid: loaded(old(self)@.grid, lines_of(text@)),
                    ..old(self)@
                }),
                None => outcome == Err::<(), LoadError>(LoadError::Unreadable) && final(self)@
                    == old(self)@,
            },
    {
        match source {
            Some(text) => self.image.load(text),
            None => Err(LoadError::Unreadable),
        }
    }

    /// Starts a puzzle: the picture that `source` holds is laid over the grid
    /// and the puzzle screen comes up. Without a picture the start fails as
    /// unreadable and the session stays as it was.
    pub fn start_drawing(&mut self, source: Option<&str>) -> (outcome: Result<(), LoadError>)
        ensures
            match source {
                Some(text) => outcome is Ok && final(self)@ == (AppView {
                    state: AppState::Draw,
                    grid: loaded(old(self)@.grid, lines_of(text@)),
                    ..old(self)@
                }),
                None => outcome == Err::<(), LoadError>(LoadError::Unreadable) && final(self)@
                    == old(self)@,
            },
    {
        match self.load_image(source) {
            Ok(()) => {
                self.state = AppState::Draw;
                Ok(())
            },
            Err(e) => Err(e),
        }
    }

    /// One reveal step with the draw already made: uncovers the hidden row
    /// at place `pick` among the hidden rows, or brings up the selection
    /// screen once no row is hidden.
    pub fn reveal_nth(&mut self, pick: usize)
        requires
            pick_fits(old(self)@, pick as int),
        ensures
            final(self)@ == stepped(old(self)@, pick as int),
    {
        let hidden = self.image.hidden_rows();
        if hidden.len() == 0 {
            self.state = AppState::Menu;
        } else {
            proof {
                lemma_hidden_rows(self@.grid);
            }
            self.image.reveal_row(hidden[pick]);
        }
    }

    /// One reveal step: while a row is hidden, one of the hidden rows, drawn
    /// with `rng` among those hidden now, is uncovered and the screen stays;
    /// once no row is hidden, the grid stays and the selection screen comes
    /// up. Which row is drawn is up to `rng`.
    pub fn reveal_step(&mut self, rng: &mut rand::rngs::StdRng)
        ensures
            exists|pick: int|
                pick_fits(old(self)@, pick) && final(self)@ == #[trigger] stepped(old(self)@, pick),
    {
        let count: usize = self.image.hidden_rows().len();
        let pick: usize = if count == 0 {
            0
        } else {
            pick_below(rng, count)
        };
        self.reveal_nth(pick);
        assert(pick_fits(old(self)@, pick as int));
    }

    /// One reveal step, as `reveal_step` makes it, with the row drawn from
    /// the generator of the running thread.
    pub fn reveal_part(&mut self)
        ensures
            exists|pick: int|
                pick_fits(old(self)@, pick) && final(self)@ == #[trigger] stepped(old(self)@, pick),
    {
        let count: usize = self.image.hidden_rows().len();
        let pick: usize = if count == 0 {
            0
        } else {
            pick_below_unseeded(count)
        };
        self.reveal_nth(pick);
        assert(pick_fits(old(self)@, pick as int));
    }
}

} // verus!
