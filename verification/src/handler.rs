//! What each key does on each screen.

use vstd::prelude::*;
use crate::app::pick_fits;
use crate::app::stepped;
use crate::app::App;
use crate::app::AppState;
use crate::app::AppView;
use crate::picture::loaded;
use crate::grid::LoadError;
use crate::text::lines_of;

verus! {

/// The key that ends the program.
pub const QUIT_KEY: char = 'q';

/// The key that asks for a new picture on the selection screen.
pub const NEW_IMAGE_KEY: char = ' ';

/// A key press, as far as the session tells keys apart.
#[derive(Debug, Clone, Copy, PartialEq, Eq, Structural)]
pub enum Key {
    /// A key that types a character.
    Char(char),
    /// Any other key.
    Other,
}

/// What a key press asks of the session.
#[derive(Debug, Clone, Copy, PartialEq, Eq, Structural)]
pub enum Action {
    /// End the program.
    Quit,
    /// Load a picture and start the puzzle.
    NewImage,
    /// Make one reveal step.
    Reveal,
    /// Nothing.
    Ignore,
}

/// The action of `key` on the screen `state`: the quit key quits on either
/// screen; on the selection screen the new-image key starts a puzzle and
/// every other key is ignored; on the puzzle screen every other key makes a
/// reveal step.
pub open spec fn action_of(state: AppState, key: Key) -> Action {
    if key == Key::Char(QUIT_KEY) {
        Action::Quit
    } else if state == AppState::Draw {
        Action::Reveal
    } else if key == Key::Char(NEW_IMAGE_KEY) {
        Action::NewImage
    } else {
        Action::Ignore
    }
}

/// The action that `key` asks for while the screen `state` is up.
pub fn key_action(state: AppState, key: Key) -> (action: Action)
    ensures
        action == action_of(state, key),
{
    match state {
        AppState::Menu => match key {
            Key::Char(c) => {
                if c == QUIT_KEY {
                    Action::Quit
                } else if c == NEW_IMAGE_KEY {
                    Action::NewImage
                } else {
                    Action::Ignore
                }
            },
            Key::Other => Action::Ignore,
        },
        AppState::Draw => match key {
            Key::Char(c) => {
                if c == QUIT_KEY {
                    Action::Quit
                } else {
                    Action::Reveal
                }
            },
            Key::Other => Action::Reveal,
        },
    }
}

/// Lets the session act on a key press.
///
/// `source` is the picture to load should the key ask for a new one; it is
/// not looked at otherwise. `rng` draws the row should the key ask for a
/// reveal step. Only a new picture can fail, when `source` holds none: the
/// session then stays as it was.
pub fn handle_key_events(
    key_event: Key,
    app: &mut App,
    source: Option<&str>,
    rng: &mut rand::rngs::StdRng,
) -> (outcome: Result<(), LoadError>)
    ensures
        match action_of(old(app)@.state, key_event) {
            Action::Quit => outcome is Ok && final(app)@ == (AppView {
                running: false,
                ..old(app)@
            }),
            Action::NewImage => match source {
                Some(text) => outcome is Ok && final(app)@ == (AppView {
                    state: AppState::Draw,
                    grid: loaded(old(app)@.grid, lines_of(text@)),
                    ..old(app)@
                }),
                None => outcome == Err::<(), LoadError>(LoadError::Unreadable) && final(app)@
                    == old(app)@,
            },
            Action::Reveal => outcome is Ok && exists|pick: int|
                pick_fits(old(app)@, pick) && final(app)@ == #[trigger] stepped(old(app)@, pick),
            Action::Ignore => outcome is Ok && final(app)@ == old(app)@,
        },
{
    match key_action(app.state(), key_event) {
        Action::Quit => {
            app.quit();
            Ok(())
        },
        Action::NewImage => app.start_drawing(source),
        Action::Reveal => {
            app.reveal_step(rng);
            Ok(())
        },
        Action::Ignore => Ok(()),
    }
}

} // verus!
