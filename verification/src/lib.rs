//! Decoding of the per-frame control structures of a JPEG XL codestream:
//! the frame header and the table of contents that follows it.
//!
//! Every record of the stream is decoded field by field, in the order of the
//! stream. A field is read where its condition holds and takes its default
//! where it does not, and both may depend on the fields before it and on
//! what the caller knows of the image. The rules are in `headers::record`,
//! the codings of single values in `headers::encodings`, and each record in
//! a module of its own. What a decoder yields is stated over the bytes of the
//! buffer and the position of the cursor, for every buffer.

pub mod bit_reader;
pub mod cli;
pub mod error;
pub mod frame;
pub mod headers;
pub mod image;
