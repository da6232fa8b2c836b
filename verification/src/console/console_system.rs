//! The component-driven console: one key press applied to the console
//! state kept on the console entity.
use vstd::prelude::*;
use wasserxr::error::SceneError;
use wasserxr::scene::Scene;
use crate::console::keys::Key;
use crate::console::scene_calls::{
    entity_ids,
    exit_requested,
    reload,
    reload_outcome,
    request_exit,
    scene_entity_ids,
};
use crate::console::state::AppState;

verus! {

/// Applies a key press: `q` asks the scene to exit and `r` to reload, both
/// leaving the state as it is; every other key moves the state and then
/// pulls the entity selection into the scene's entity list.
pub fn handle_input(scene: &mut Scene, state: AppState, key: Key) -> (r: AppState)
    ensures
        key == Key::Char('q') || key == Key::Char('r') ==> r == state,
        key == Key::Char('q') ==> exit_requested(*old(scene), *final(scene)),
        key == Key::Char('r') ==> exists|reply: Result<(), SceneError>|
            #![trigger reload_outcome(*old(scene), *final(scene), reply)]
            reload_outcome(*old(scene), *final(scene), reply),
        !(key == Key::Char('q') || key == Key::Char('r')) ==> r == state.after_key(key).normalized_for(
            scene_entity_ids(*old(scene)).len() as int,
        ) && *final(scene) == *old(scene),
{
    if key == Key::Char('q') {
        request_exit(scene);
        state
    } else if key == Key::Char('r') {
        let _ = reload(scene);
        state
    } else {
        let ids = entity_ids(scene);
        state.handle_input(key).normalize_entity_selection(ids.len())
    }
}

} // verus!
