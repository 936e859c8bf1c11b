//! What can go wrong between a request and its document.

use crate::text::{decimal, push_decimal};
use vstd::prelude::*;
use vstd::string::*;

verus! {

/// Why a raster could not be turned into elevation samples.
#[derive(Clone, Copy, Debug, PartialEq, Eq)]
pub enum DecodeReason {
    /// The payload is no raster that the decoder reads.
    Unreadable,
    /// The decoded raster holds another number of samples than the grid has cells.
    SampleCount { expected: usize, found: usize },
    /// The raster holds no value at the grid cell with this row-major index.
    MissingSample { index: usize },
}

/// A failure while elevation samples were fetched.
#[derive(Clone, Copy, Debug, PartialEq, Eq)]
pub enum FetchError {
    /// The request did not complete (`status` is `None`), or the service
    /// answered with a status outside `200..=299`.
    Transport { status: Option<u16> },
    /// The raster payload could not be decoded.
    Decode { reason: DecodeReason },
    /// The point batch with this submission index failed.
    Batch { index: usize },
}

/// A mesh that a triangulation or simplification step cannot take or has
/// not produced.
#[derive(Clone, Copy, Debug, PartialEq, Eq)]
pub enum GeometryError {
    /// There is no vertex to work on.
    NoVertices,
    /// The index buffer does not hold whole triangles.
    PartialTriangle { index_count: usize },
    /// The index at this place of the index buffer names no vertex.
    IndexOutOfRange { at: usize },
    /// The step returned more indices than it was given.
    Grown { index_count: usize },
    /// The grid has more cells than 32-bit indices can name.
    TooLarge,
}

/// The one error of the whole pipeline: fetching failed, or processing did.
#[derive(Clone, Copy, Debug, PartialEq, Eq)]
pub enum TerrainError {
    Fetch(FetchError),
    Geometry(GeometryError),
}

/// Whether an HTTP status counts as success.
pub open spec fn is_success(status: u16) -> bool {
    200 <= status <= 299
}

/// Turns the status of an answered request into the fetch's verdict.
pub fn check_status(status: u16) -> (r: Result<(), FetchError>)
    ensures
        r is Ok <==> is_success(status),
        r is Err ==> r == Err::<(), FetchError>(FetchError::Transport { status: Some(status) }),
{
    if 200 <= status && status <= 299 {
        Ok(())
    } else {
        Err(FetchError::Transport { status: Some(status) })
    }
}

/// What a fetch failure reads like.
pub open spec fn fetch_message(e: FetchError) -> Seq<char> {
    match e {
        FetchError::Transport { status: Some(status) } => "Failed to fetch data: HTTP "@ + decimal(
            status as nat,
        ),
        FetchError::Transport { status: None } => "Request error: no answer"@,
        FetchError::Decode { reason: DecodeReason::Unreadable } =>
            "Failed to decode raster: not a readable raster"@,
        FetchError::Decode { reason: DecodeReason::SampleCount { expected, found } } =>
            "Failed to decode raster: expected "@ + decimal(expected as nat) + " samples, found "@
                + decimal(found as nat),
        FetchError::Decode { reason: DecodeReason::MissingSample { index } } =>
            "Failed to decode raster: no value at cell "@ + decimal(index as nat),
        FetchError::Batch { index } => "Failed to fetch data: batch "@ + decimal(index as nat),
    }
}

/// What a geometry failure reads like.
pub open spec fn geometry_message(e: GeometryError) -> Seq<char> {
    match e {
        GeometryError::NoVertices => "Invalid geometry: no vertices"@,
        GeometryError::PartialTriangle { index_count } => "Invalid geometry: "@ + decimal(
            index_count as nat,
        ) + " indices are no whole triangles"@,
        GeometryError::IndexOutOfRange { at } => "Invalid geometry: index "@ + decimal(at as nat)
            + " names no vertex"@,
        GeometryError::Grown { index_count } => "Invalid geometry: simplified to "@ + decimal(
            index_count as nat,
        ) + " indices, more than before"@,
        GeometryError::TooLarge => "Invalid geometry: too large for 32-bit indices"@,
    }
}

impl FetchError {
    /// The failure in words, with the status, the reason or the batch.
    pub fn message(&self) -> (text: String)
        ensures
            text@ == fetch_message(*self),
    {
        let mut text = String::new();
        match *self {
            FetchError::Transport { status: Some(status) } => {
                text.append("Failed to fetch data: HTTP ");
                push_decimal(&mut text, status as u64);
            },
            FetchError::Transport { status: None } => {
                text.append("Request error: no answer");
            },
            FetchError::Decode { reason: DecodeReason::Unreadable } => {
                text.append("Failed to decode raster: not a readable raster");
            },
            FetchError::Decode { reason: DecodeReason::SampleCount { expected, found } } => {
                text.append("Failed to decode raster: expected ");
                push_decimal(&mut text, expected as u64);
                text.append(" samples, found ");
                push_decimal(&mut text, found as u64);
            },
            FetchError::Decode { reason: DecodeReason::MissingSample { index } } => {
                text.append("Failed to decode raster: no value at cell ");
                push_decimal(&mut text, index as u64);
            },
            FetchError::Batch { index } => {
                text.append("Failed to fetch data: batch ");
                push_decimal(&mut text, index as u64);
            },
        }
        assert(text@ =~= fetch_message(*self));
        text
    }
}

impl GeometryError {
    /// The failure in words, with the place or the size.
    pub fn message(&self) -> (text: String)
        ensures
            text@ == geometry_message(*self),
    {
        let mut text = String::new();
        match *self {
            GeometryError::NoVertices => {
                text.append("Invalid geometry: no vertices");
            },
            GeometryError::PartialTriangle { index_count } => {
                text.append("Invalid geometry: ");
                push_decimal(&mut text, index_count as u64);
                text.append(" indices are no whole triangles");
            },
            GeometryError::IndexOutOfRange { at } => {
                text.append("Invalid geometry: index ");
                push_decimal(&mut text, at as u64);
                text.append(" names no vertex");
            },
            GeometryError::Grown { index_count } => {
                text.append("Invalid geometry: simplified to ");
                push_decimal(&mut text, index_count as u64);
                text.append(" indices, more than before");
            },
            GeometryError::TooLarge => {
                text.append("Invalid geometry: too large for 32-bit indices");
            },
        }
        assert(text@ =~= geometry_message(*self));
        text
    }
}

impl TerrainError {
    /// The failure in words.
    pub fn message(&self) -> (text: String)
        ensures
            text@ == match *self {
                TerrainError::Fetch(e) => fetch_message(e),
                TerrainError::Geometry(e) => geometry_message(e),
            },
    {
        match self {
            TerrainError::Fetch(e) => e.message(),
            TerrainError::Geometry(e) => e.message(),
        }
    }
}

} // verus!
