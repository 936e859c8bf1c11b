//! Terrain meshes from elevation samples, and their exchange documents.
//!
//! Every length is held in fixed point: an integer count of hundredths of a
//! metre, which is the precision the exchange format writes.

pub mod bbox;
pub mod error;
pub mod export;
pub mod fixed;
pub mod mesh;
pub mod pipeline;
pub mod prelude;
pub mod processing;
pub mod providers;
pub mod text;
pub mod vertex;
