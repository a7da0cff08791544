//! The headers of a frame and what they are made of.

pub mod binary32;
pub mod blending;
pub mod encodings;
pub mod extensions;
pub mod extra_channels;
pub mod frame_header;
pub mod passes;
pub mod record;
pub mod restoration_filter;
pub mod strings;
pub mod toc;
pub mod toc_size;
pub mod validation;
