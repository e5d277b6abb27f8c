//! Byte-level decoder for the Aseprite file layout, version 1.3.
//!
//! Every decoder takes the bytes that are left and gives back the value it
//! read together with the bytes that follow it. Each one is specified by a
//! function over `Seq<u8>` of the same name with the prefix `spec_`.

pub mod blend_mode;
pub mod chunk;
pub mod chunk_type;
pub mod chunks;
pub mod color_depth;
pub mod errors;
pub mod header;
pub mod image;
pub mod palette;
pub mod raw_file;
pub mod raw_frame;
pub mod repeat;
pub mod scalars;
