//! MATLAB level-5 MAT files: the byte layout, the writer and the reader.

pub mod bytes;
pub mod format;
pub mod element;
pub mod types;
pub mod error;
pub mod encode;
pub mod writer;
pub mod data;
pub mod reader;
pub mod laws;
