//! Failures reported by the cipher.
use vstd::prelude::*;

verus! {

/// Why a text could not be transformed.
#[derive(Debug, Clone, Copy, PartialEq, Eq, Structural)]
pub enum PlayfairError {
    /// The encoded text has an odd number of characters.
    OddLength,
    /// The encoded text holds a 'J', which the cipher never emits.
    ForbiddenCharacter,
    /// A letter of the text has no position in the key grid.
    CharacterNotInGrid,
}

impl PlayfairError {
    /// A short description of the failure.
    pub fn message(&self) -> (r: String) {
        match self {
            PlayfairError::OddLength => String::from_str("encoded text must have an even number of characters"),
            PlayfairError::ForbiddenCharacter => String::from_str("encoded text must not contain 'J'"),
            PlayfairError::CharacterNotInGrid => String::from_str("text holds a letter that is not in the key grid"),
        }
    }
}

} // verus!
