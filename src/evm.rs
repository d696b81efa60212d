//! The recovery logic and the pieces it is built from.
pub mod word;
pub mod precompile;
pub mod ecdsa;
