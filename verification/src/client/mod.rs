//! The client side of the library.

pub mod error;
