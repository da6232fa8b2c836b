//! Verified core of the WasserXR standard library: the terminal console's
//! state machines, the keyboard decoder, list and scroll arithmetic, object
//! synchronisation and version handling.
use vstd::prelude::*;

pub mod console;
pub mod utils;
pub mod xr;
pub mod my_console;
pub mod physics;
pub mod material;
pub mod render_select;

verus! {

} // verus!
