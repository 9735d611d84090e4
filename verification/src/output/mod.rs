//! Outputs and their arrangement.
pub mod layout;

pub use layout::{OutputLayout, OutputPlacement};
