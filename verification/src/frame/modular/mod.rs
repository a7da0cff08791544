//! The modular mode of coding a frame.

pub mod predict;
