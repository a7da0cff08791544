//! What belongs to the contents of a frame.

pub mod modular;
