//! The terminal console: key decoding, navigation arithmetic and the screen
//! state machines.
use vstd::prelude::*;

pub mod keys;
pub mod navigation;
pub mod state;
pub mod console_app;
pub mod failure;
pub mod screen;
pub mod scene_calls;
pub mod logs;
pub mod layout;
pub mod transition;
pub mod laws;
pub mod labels;
pub mod capture;
pub mod console_system;

verus! {

} // verus!
