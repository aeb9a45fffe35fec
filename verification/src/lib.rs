//! Verified parser for Wavefront OBJ geometry text.
//!
//! The library turns directive lines (`v`, `f`, `o`, `g`, `s`, `usemtl`,
//! `mtllib`, ...) into an in-memory geometry model: homogeneous vertices,
//! polygonal faces with optional texture and normal references, and scalar
//! metadata. Vertex coordinates are held as their validated source tokens,
//! so the whole model is made of plain values; consumers turn the tokens
//! into numeric form at the boundary where the model is handed onward.

pub mod coord;
pub mod directive;
pub mod face;
pub mod laws;
pub mod numbers;
pub mod parser;
pub mod text;
pub mod util;
