//! One decoder for each kind of chunk.

pub mod cel;
pub mod cel_extra;
pub mod color_profile;
pub mod external_files;
pub mod layer;
pub mod mask;
pub mod old_palette;
pub mod palette;
pub mod slice;
pub mod tags;
pub mod tileset;
pub mod user_data;
