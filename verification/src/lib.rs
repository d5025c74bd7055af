//! The rules of an offline ray tracer, with their proofs.
//!
//! The library holds what a ray tracer decides: which crossings of a ray with
//! a primitive count, how the crossings with the operands of a combination
//! are filtered, which crossing is the hit, in which media a ray travels
//! before and behind it, and which secondary rays are cast with which
//! budget. It holds the scene tree, the boxes of its primitives, the tables
//! that matrices are, the text form of pictures and the reading of model
//! files.
//!
//! Numbers come in as ordered keys: integers that compare as the binary64
//! numbers they stand for (see `scalar`). What is computed with numbers, the
//! solving of quadratics, the products of matrices, the colours, is left to
//! the program that uses the library; the library compares, selects and
//! orders. Materials and transforms are known to it by keys that the program
//! gives them.

pub mod canvas;
pub mod color;
pub mod cone;
pub mod csg;
pub mod cube;
pub mod cylinder;
pub mod intersection;
pub mod light;
pub mod material;
pub mod matrix;
pub mod matrix2;
pub mod matrix3;
pub mod matrix4;
pub mod misc;
pub mod obj;
pub mod pattern;
pub mod plane;
pub mod probe;
pub mod scalar;
pub mod shape;
pub mod sphere;
pub mod triangle;
pub mod tuple;
pub mod world;
