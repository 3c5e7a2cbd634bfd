use vstd::prelude::*;

pub mod frame;
pub mod model;
pub mod path;
pub mod raster;

verus! {

} // verus!
