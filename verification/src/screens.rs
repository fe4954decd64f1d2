//! Which screen is shown.

use vstd::prelude::*;

verus! {

/// The screens of the program: the game itself, the question before
/// leaving, and the welcome.
#[derive(Copy, Clone, Debug, PartialEq, Eq, Structural)]
pub enum Screen {
    Main,
    Exit,
    Start,
}

impl Screen {
    /// The screen that follows this one.
    pub open spec fn next(self, key_pressed: bool) -> Screen {
        match self {
            Screen::Main => Screen::Main,
            Screen::Exit | Screen::Start => if key_pressed {
                Screen::Main
            } else {
                self
            },
        }
    }

    /// The screen to show next: a key pressed on the welcome or on the
    /// question leads to the game, and the game stays.
    pub fn advance(&self, key_pressed: bool) -> (screen: Screen)
        ensures
            screen == self.next(key_pressed),
    {
        match *self {
            Screen::Main => Screen::Main,
            Screen::Exit | Screen::Start => {
                if key_pressed {
                    Screen::Main
                } else {
                    *self
                }
            },
        }
    }
}

} // verus!
