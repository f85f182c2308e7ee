//! What a decoder produces, and the byte cursor it reads with.

pub mod internal;
pub mod types;
