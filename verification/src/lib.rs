//! A small library for planning image resize and rescale operations:
//! it computes target dimensions, derives output file paths, and drives
//! the actual resampling through the `image` crate.

use vstd::prelude::*;

pub mod dims;
pub mod paths;
pub mod transform;

verus! {

/// Wraps a message in an `Err`, the library's uniform failure result
/// for callers that report errors as plain strings.
pub fn return_error(msg: String) -> (res: Result<(), String>)
    ensures
        res == Result::<(), String>::Err(msg),
{
    Err(msg)
}

} // verus!
