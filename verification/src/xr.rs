//! The OpenXR side: version numbers, controller tags and session events.
use vstd::prelude::*;

pub mod version;
pub mod controller;
pub mod events;

verus! {

} // verus!
