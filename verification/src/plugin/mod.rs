//! Plugins loaded at run time.

pub mod wasm;
