#![allow(unused_imports)]
//! Media container and codec probing with verified parsers.
pub mod bits;
pub mod bytes;
pub mod error;
pub mod io;
pub mod metadata;
pub mod format;
pub mod codec;
pub mod text;
pub mod tool;
