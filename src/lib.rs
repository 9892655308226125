//! Splitting of combined shader source files into per-stage blocks, and the
//! decisions taken on the status reports of shader compilation and program
//! linking.

pub mod gl_consts;
pub mod laws;
pub mod outcome;
pub mod shader;
pub mod text;
