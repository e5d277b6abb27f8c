//! Decoder for the Aseprite sprite file format and a compositor that flattens
//! the decoded layers of a frame into RGBA pixels.
//!
//! [`binary`] holds the byte-level decoder. [`assembly`] folds the chunks
//! that it yields into the parts of a sprite, which [`wrappers`] describes,
//! and [`loader`] puts the sprite together, with the pixels of its images
//! from [`resolve`]. [`make_image`] blends the cels of a frame into one
//! image with the arithmetic of [`blend`], and [`output`] groups the frames
//! into named animations.

pub mod assembly;
pub mod binary;
pub mod blend;
pub mod hash_maps;
pub mod inflate;
pub mod keywords;
pub mod loader;
pub mod make_image;
pub mod output;
pub mod pixels;
pub mod resolve;
pub mod wrappers;
