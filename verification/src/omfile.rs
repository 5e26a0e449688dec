//! Layout checks of the spatial OMfiles: names of the nodes, chunking of
//! the arrays, and the shapes a file accepts before anything is written.

use vstd::prelude::*;

verus! {

/// Name of the array node of an anomaly file.
pub const ANOMALY_VARIABLE: &'static str = "temperature_2m_anomaly";

/// Name of the scalar child holding the JSON metadata.
pub const METADATA_CHILD: &'static str = "metadata";

/// Name of the temperature node of Open-Meteo's ARPEGE files.
pub const OPENMETEO_TEMPERATURE_VARIABLE: &'static str = "temperature_2m";

/// Largest chunk side.
pub const MAX_CHUNK: u64 = 64;

/// Chunk of an `[ny, nx]` array: each side capped at 64.
pub fn chunk_dims(ny: usize, nx: usize) -> (r: (u64, u64))
    ensures
        r.0 == (if ny < MAX_CHUNK {
            ny as int
        } else {
            MAX_CHUNK as int
        }),
        r.1 == (if nx < MAX_CHUNK {
            nx as int
        } else {
            MAX_CHUNK as int
        }),
{
    let cy = if (ny as u64) < MAX_CHUNK {
        ny as u64
    } else {
        MAX_CHUNK
    };
    let cx = if (nx as u64) < MAX_CHUNK {
        nx as u64
    } else {
        MAX_CHUNK
    };
    (cy, cx)
}

/// Why a set of variables cannot be written to one file.
#[derive(Debug, Clone, Copy, PartialEq, Eq, Structural)]
pub enum LayoutError {
    /// No variable to write.
    NoVariables,
    /// Variable `index` is `actual_ny × actual_nx`, not the grid's shape.
    ShapeMismatch { index: usize, actual_ny: usize, actual_nx: usize },
}

/// Checks a multi-variable file: at least one variable, and every array
/// `[ny, nx]` of the grid. Reports the first variable of another shape.
pub fn check_variable_shapes(shapes: &Vec<(usize, usize)>, ny: usize, nx: usize) -> (r: Result<
    (),
    LayoutError,
>)
    ensures
        shapes@.len() == 0 ==> r == Err::<(), LayoutError>(LayoutError::NoVariables),
        shapes@.len() > 0 ==> !(r matches Err(LayoutError::NoVariables)),
        shapes@.len() > 0 && (forall|i: int| 0 <= i < shapes@.len() ==> shapes@[i] == (ny, nx))
            ==> r is Ok,
        r matches Err(LayoutError::ShapeMismatch { index, actual_ny, actual_nx }) ==> {
            &&& index < shapes@.len()
            &&& shapes@[index as int] == (actual_ny, actual_nx)
            &&& shapes@[index as int] != (ny, nx)
            &&& forall|k: int| 0 <= k < index ==> shapes@[k] == (ny, nx)
        },
        r is Ok <==> (shapes@.len() > 0 && forall|i: int|
            0 <= i < shapes@.len() ==> shapes@[i] == (ny, nx)),
{
    if shapes.len() == 0 {
        return Err(LayoutError::NoVariables);
    }
    let mut i: usize = 0;
    while i < shapes.len()
        invariant
            0 <= i <= shapes@.len(),
            forall|k: int| 0 <= k < i ==> shapes@[k] == (ny, nx),
        decreases shapes@.len() - i,
    {
        let (a, b) = shapes[i];
        if a != ny || b != nx {
            return Err(LayoutError::ShapeMismatch { index: i, actual_ny: a, actual_nx: b });
        }
        i = i + 1;
    }
    Ok(())
}

/// Checks that an array read from a file has two dimensions.
pub fn check_rank(dims: usize) -> (r: Result<(), usize>)
    ensures
        dims == 2 ==> r is Ok,
        dims != 2 ==> r == Err::<(), usize>(dims),
{
    if dims == 2 {
        Ok(())
    } else {
        Err(dims)
    }
}

} // verus!
