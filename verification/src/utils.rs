//! Small general-purpose pieces: decimal numbers and object synchronisation.
use vstd::prelude::*;

pub mod decimal;
pub mod object_sync;
pub mod sync_laws;
pub mod text;

verus! {

} // verus!
