//! The verified core of a small stochastic path tracer and of its
//! companions: what in them is decided on integers, bytes and text.
//!
//! Everything that computes on floating point numbers stays with the
//! programs that use this library. The library walks the scene list, deals
//! out and joins the rows of an image, frames bitmap files, reads the
//! structure of mesh texts, plays tic-tac-toe, draws its board and writes
//! the source of the vector types.
pub mod ascii;
pub mod bmp;
pub mod codegen;
pub mod game;
pub mod image;
pub mod obj;
pub mod scene;
pub mod screen;
pub mod shading;
pub mod vector;
