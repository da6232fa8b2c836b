//! Physics support that does not touch the physics engine itself.
use vstd::prelude::*;

pub mod mesh;
pub mod debug_names;

verus! {

} // verus!
