//! Writers of the source of the vector and matrix types.
pub mod families;
pub mod matrix;
pub mod ops;
pub mod swizzle;
pub mod text;
