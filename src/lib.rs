//! Reads one value out of a TOML document by a dotted key path and renders
//! it as printable lines.

pub mod value;
pub mod resolve;
pub mod render;
pub mod document;
pub mod run;
