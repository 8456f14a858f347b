//! A read-only table of bundled asset files (fonts, images, data fixtures,
//! plugins) keyed by their relative path, with lookup by path, lookup by bare
//! file name, and enumeration of the fonts.

pub mod bytes;
pub mod table;
pub mod laws;
pub mod paths;

pub use paths::{asset_paths, BUNDLED_COUNT};
pub use table::{fonts, get, get_by_name, AssetTable, Entry};
