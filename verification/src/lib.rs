//! A named-dimension shape algebra: every axis of an array shape carries a
//! symbolic name and a size that is either a known integer or unknown, and
//! the operations over such shapes (lookup, editing, flattening,
//! broadcasting, matrix-multiply, concatenation and reduction inference)
//! are verified against sequence-level models.

pub mod access;
pub mod broadcast;
pub mod dim;
pub mod edit;
pub mod error;
pub mod flatten;
pub mod index;
pub mod keepdim;
pub mod kind;
pub mod laws;
pub mod list;
pub mod marker;
pub mod matmul;
pub mod misc;
pub mod reduce;
pub mod remove;
pub mod size;
