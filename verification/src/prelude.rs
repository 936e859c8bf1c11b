//! The names that most callers want.

pub use crate::bbox::BBox;
pub use crate::error::{DecodeReason, FetchError, GeometryError, TerrainError};
pub use crate::export::ifc::IfcWriter;
pub use crate::export::ProjectMetadata;
pub use crate::mesh::{delaunay_triangulation, triangulate_grid, Mesh};
pub use crate::processing::surface::{apply_gaussian_blur, Kernel, PostProcessParams};
pub use crate::processing::{CompressionParams, FilterParams};
pub use crate::providers::batch::{Action, BatchFetch};
pub use crate::providers::geonorge::TerrainProvider;
pub use crate::providers::grid::{construct_grid, Grid, TriangleCoord};
pub use crate::providers::{CoordResponse, Punkt};
pub use crate::vertex::Vertex;
