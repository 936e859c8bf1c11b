use ems_terrain::error::{DecodeReason, FetchError, GeometryError, TerrainError};

#[test]
fn a_fetch_failure_in_words() {
    assert_eq!(
        FetchError::Transport { status: Some(404) }.message(),
        "Failed to fetch data: HTTP 404"
    );
    assert_eq!(FetchError::Transport { status: None }.message(), "Request error: no answer");
    assert_eq!(
        FetchError::Decode { reason: DecodeReason::Unreadable }.message(),
        "Failed to decode raster: not a readable raster"
    );
    assert_eq!(
        FetchError::Decode { reason: DecodeReason::SampleCount { expected: 12, found: 9 } }
            .message(),
        "Failed to decode raster: expected 12 samples, found 9"
    );
    assert_eq!(
        FetchError::Decode { reason: DecodeReason::MissingSample { index: 7 } }.message(),
        "Failed to decode raster: no value at cell 7"
    );
    assert_eq!(FetchError::Batch { index: 3 }.message(), "Failed to fetch data: batch 3");
}

#[test]
fn a_geometry_failure_in_words() {
    assert_eq!(GeometryError::NoVertices.message(), "Invalid geometry: no vertices");
    assert_eq!(
        GeometryError::PartialTriangle { index_count: 4 }.message(),
        "Invalid geometry: 4 indices are no whole triangles"
    );
    assert_eq!(
        GeometryError::IndexOutOfRange { at: 10 }.message(),
        "Invalid geometry: index 10 names no vertex"
    );
    assert_eq!(
        GeometryError::Grown { index_count: 30 }.message(),
        "Invalid geometry: simplified to 30 indices, more than before"
    );
    assert_eq!(
        GeometryError::TooLarge.message(),
        "Invalid geometry: too large for 32-bit indices"
    );
}

#[test]
fn the_pipeline_error_tells_fetching_from_processing() {
    let fetch = TerrainError::Fetch(FetchError::Batch { index: 0 });
    let geometry = TerrainError::Geometry(GeometryError::NoVertices);
    assert_ne!(fetch, geometry);
    assert_eq!(fetch.message(), "Failed to fetch data: batch 0");
    assert_eq!(geometry.message(), "Invalid geometry: no vertices");
}
