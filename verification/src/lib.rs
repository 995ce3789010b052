//! A loader and documentation generator for a small interface-description
//! language of modules, type names, records, variants and interfaces.
//!
//! ```text
//! /// A point in the plane.
//! record point { x: u32, y: u32 }
//!
//! variant shape { circle: u32, polygon: list<point>, nothing }
//!
//! interface canvas {
//!     /// Draws a shape and tells whether it was visible.
//!     func draw(what: shape, at: point) -> bool
//! }
//! ```
//!
//! [`load::load`] takes the sources as text, lexes and parses each, checks
//! them against each other and links them into a [`model::Document`], or
//! says what is wrong in a [`error::LoadError`]. [`model::Document::to_text`]
//! renders a document as Markdown. Nothing here reads or writes a file.
//!
//! Every function is verified against a contract: what the lexer and the
//! parser yield is stated by the grammar in [`lexer`] and [`parser`], what a
//! load yields by [`load::load_verdict`], what a document renders to by
//! [`render::rendering`]. [`laws`] holds what follows for every load.

pub mod declared;
pub mod error;
pub mod graph;
pub mod index;
pub mod laws;
pub mod lexer;
pub mod load;
pub mod model;
pub mod namespace;
pub mod parser;
pub mod render;
pub mod resolve;
pub mod syntax;
pub mod text;
pub mod token;
pub mod validate;
