//! Source-format independent analysis, the splitting engine and the sources.
pub mod aiff;
pub mod common;
pub mod wav;
