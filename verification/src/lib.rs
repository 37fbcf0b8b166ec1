//! Decoder for RSV, a binary format of rows of string values in which reserved
//! bytes end a value, end a row or stand for a null value. The decoder renders
//! such a stream as text, between delimiters that the caller chooses.

pub mod args;
pub mod error;
pub mod transcoder;
pub mod model;
pub mod laws;
pub mod document;
