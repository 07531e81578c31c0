//! A library for loading 3D and CAD file formats into one shared in-memory
//! scene representation.
//!
//! The heart of the crate is the importer for a binary plant/piping format: a
//! byte-stream parser that resynchronizes on section keywords, a decoder for
//! fixed-layout big-endian primitive records, and an assembly builder that
//! grows a node tree from the parsed sections.  Geometric quantities read from
//! the wire are carried as their raw 32-bit words, so every structural step of
//! the import is specified and verified; turning those words into rendered
//! triangles is left to the embedding application.

mod basic_types;
mod error;
pub mod loader;
pub mod structure;
mod units;

pub use basic_types::Color;
pub use basic_types::ID;
pub use basic_types::IDCounter;
pub use basic_types::RGB;
pub use basic_types::RGBA;
pub use error::Error;
pub use units::Length;
