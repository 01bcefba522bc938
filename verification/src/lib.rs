//! Terrain tile database core: the cloud-optimised GeoTIFF header format,
//! overview level selection, tile naming, the start-up of a data set, the
//! in-memory tile cache, grids of samples and their meshes, the things kept
//! on the ground, and the geodetic value types that carry positions through
//! the database.
use vstd::prelude::*;

pub mod le;
pub mod tiff;
pub mod names;
pub mod cog;
pub mod header;
pub mod levels;
pub mod lru;
pub mod index;
pub mod geodesy;
pub mod options;
pub mod geotiff;
pub mod startup;
pub mod text;
pub mod attachments;
pub mod db;
pub mod mesh;
pub mod tiles;

