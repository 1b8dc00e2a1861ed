//! The Playfair digraph cipher over a 5×5 letter grid.
pub mod cipher;
pub mod error;
pub mod grid;
pub mod laws;
pub mod text;

pub use error::PlayfairError;
pub use grid::Playfair;
pub use text::{prepare, prepare_decode, prepare_uppercase};
