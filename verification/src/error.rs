//! What can go wrong in a game.

use vstd::prelude::*;

verus! {

/// The failures that the game reports to its caller. Neither is fatal, and
/// neither leaves the game changed.
#[derive(Copy, Clone, Debug, PartialEq, Eq, Structural)]
pub enum GameError {
    /// A tile was asked of a bag that holds none.
    EmptyBag,
    /// The word is not in the dictionary.
    InvalidWord,
}

} // verus!
