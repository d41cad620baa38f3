//! Turns ASCII and Unicode box-drawing diagrams into SVG documents.
//!
//! A grid of character cells is read three times: a circle pass and an
//! enhancement pass claim multi-cell shapes and consume their cells, then
//! a per-cell pass turns each remaining cell into line, arc, circle or
//! text fragments according to the character property table. The
//! fragments are lowered to elements with exact integer coordinates (in
//! eighths of a cell), merged to a fixed point by the reducer, and
//! rendered as an SVG document.

pub mod element;
pub mod focus;
pub mod focus_char;
pub mod geom;
pub mod grid;
pub mod laws;
pub mod order;
pub mod passes;
pub mod properties;
pub mod reducer;
pub mod settings;
pub mod svg;
pub mod text;
pub mod unicode;
