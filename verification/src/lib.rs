//! Core of a view-count badge service: a color scale with linear
//! interpolation, a three-part badge template with marker substitution,
//! a per-key view counter, and the request handler that composes them.

pub mod colors;
pub mod counter;
pub mod error;
pub mod handler;
pub mod options;
pub mod svg;
pub mod text;
