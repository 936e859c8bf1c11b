//! Elevation sources: the raster service and the point service.

use crate::error::{is_success, FetchError};
use vstd::prelude::*;

pub mod batch;
pub mod geonorge;
pub mod grid;

verus! {

/// One point of the point service: a query holds `x` and `y`, an answer
/// also `z`. Lengths are hundredths.
#[derive(Clone, Copy, Debug, PartialEq, Eq)]
pub struct Punkt {
    pub x: Option<i32>,
    pub y: Option<i32>,
    pub z: Option<i32>,
}

/// The answer of the point service to one batch.
#[derive(Debug, PartialEq, Eq)]
pub struct CoordResponse {
    pub koordsys: usize,
    pub punkter: Vec<Punkt>,
}

/// Gives the fetch's verdict on what came back: the body where the service
/// answered with a success status, and a transport failure otherwise, with
/// the status where the service answered at all.
pub fn classify_response(response: Option<(u16, Vec<u8>)>) -> (r: Result<Vec<u8>, FetchError>)
    ensures
        match response {
            Some((status, body)) => if is_success(status) {
                r == Ok::<Vec<u8>, FetchError>(body)
            } else {
                r == Err::<Vec<u8>, FetchError>(FetchError::Transport { status: Some(status) })
            },
            None => r == Err::<Vec<u8>, FetchError>(FetchError::Transport { status: None }),
        },
{
    match response {
        Some((status, body)) => {
            if 200 <= status && status <= 299 {
                Ok(body)
            } else {
                Err(FetchError::Transport { status: Some(status) })
            }
        },
        None => Err(FetchError::Transport { status: None }),
    }
}

} // verus!
