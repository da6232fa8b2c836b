//! The minimal threaded console: a terminal thread that asks the scene to
//! add entities, and the system that carries out what it asked and reports
//! the scene's entities back.
use vstd::prelude::*;
use wasserxr::scene::Scene;
use crate::console::keys::Key;
use crate::console::scene_calls::{
    add_entity,
    entity_added,
    entity_id_text,
    entity_ids,
    scene_entity_ids,
    uuid_text,
};
use crate::utils::text::concat3;

verus! {

/// What the terminal thread asks the scene to do.
#[derive(Clone, Copy, Debug, PartialEq, Eq, Structural)]
pub enum MyConsoleAction {
    AddEntity,
}

/// The action the terminal thread left for the next tick, if any.
pub struct ActionSlot {
    pub pending: Option<MyConsoleAction>,
}

impl ActionSlot {
    /// The action waiting in the slot.
    pub open spec fn pending(self) -> Option<MyConsoleAction> {
        self.pending
    }

    /// An empty slot.
    pub fn new() -> (r: ActionSlot)
        ensures
            r.pending() is None,
    {
        ActionSlot { pending: None }
    }
}

/// The slot after `action` was left in it.
pub open spec fn slot_set(slot: ActionSlot, action: MyConsoleAction) -> ActionSlot {
    ActionSlot { pending: Some(action) }
}

/// What taking from the slot gives, and the slot afterwards.
pub open spec fn slot_take(slot: ActionSlot) -> (Option<MyConsoleAction>, ActionSlot) {
    (slot.pending, ActionSlot { pending: None })
}

/// Leaves `action` for the next tick, replacing any earlier one.
pub fn set_action(slot: &mut ActionSlot, action: MyConsoleAction)
    ensures
        *final(slot) == slot_set(*old(slot), action),
{
    slot.pending = Some(action);
}

/// Takes the waiting action out of the slot.
pub fn take_action(slot: &mut ActionSlot) -> (r: Option<MyConsoleAction>)
    ensures
        (r, *final(slot)) == slot_take(*old(slot)),
{
    let r = slot.pending;
    slot.pending = None;
    r
}

/// Taking right after leaving an action gives that action; a second take
/// gives nothing.
pub proof fn law_set_then_take(slot: ActionSlot, action: MyConsoleAction)
    ensures
        slot_take(slot_set(slot, action)).0 == Some(action),
        slot_take(slot_take(slot_set(slot, action)).1).0 is None,
{
}

/// What the terminal thread does after a key event.
#[derive(Clone, Copy, Debug, PartialEq, Eq, Structural)]
pub enum AppControl {
    Continue,
    Stop,
}

/// A key event in the terminal thread: a pressed `q` stops it, a pressed
/// `e` asks for a new entity; releases and other keys change nothing.
pub fn handle_app_key(slot: &mut ActionSlot, key: Key, pressed: bool) -> (r: AppControl)
    ensures
        pressed && key == Key::Char('q') ==> r == AppControl::Stop && final(slot).pending()
            == old(slot).pending(),
        pressed && key == Key::Char('e') ==> r == AppControl::Continue && final(slot).pending()
            == Some(MyConsoleAction::AddEntity),
        !(pressed && (key == Key::Char('q') || key == Key::Char('e'))) ==> r == AppControl::Continue
            && final(slot).pending() == old(slot).pending(),
{
    if pressed && key == Key::Char('q') {
        AppControl::Stop
    } else if pressed && key == Key::Char('e') {
        set_action(slot, MyConsoleAction::AddEntity);
        AppControl::Continue
    } else {
        AppControl::Continue
    }
}

/// One tick of the console system: carries out the waiting action and gives
/// the scene's entities to publish.
pub fn my_console_step(scene: &mut Scene, slot: &mut ActionSlot) -> (r: Vec<u128>)
    ensures
        final(slot).pending() is None,
        old(slot).pending() is None ==> *final(scene) == *old(scene),
        old(slot).pending() == Some(MyConsoleAction::AddEntity) ==> exists|id: u128|
            #![trigger entity_added(*old(scene), *final(scene), id)]
            entity_added(*old(scene), *final(scene), id),
        r@ == scene_entity_ids(*final(scene)),
{
    match take_action(slot) {
        Some(MyConsoleAction::AddEntity) => {
            add_entity(scene);
        },
        None => {},
    }
    entity_ids(scene)
}

/// The lines that list the entities, one `Entity: <id>` line each.
pub open spec fn entity_lines(ids: Seq<u128>) -> Seq<char>
    decreases ids.len(),
{
    if ids.len() == 0 {
        Seq::empty()
    } else {
        entity_lines(ids.drop_last()) + "Entity: "@ + uuid_text(ids.last()) + "\n"@
    }
}

/// The text the console thread draws: a greeting and the entity lines.
pub fn render_text(ids: &Vec<u128>) -> (r: String)
    ensures
        r@ == "Hello WasserXR\n"@ + entity_lines(ids@),
{
    let mut out = String::from_str("Hello WasserXR\n");
    let mut i: usize = 0;
    assert(ids@.take(0) =~= Seq::<u128>::empty());
    while i < ids.len()
        invariant
            i <= ids@.len(),
            out@ == "Hello WasserXR\n"@ + entity_lines(ids@.take(i as int)),
        decreases ids@.len() - i,
    {
        let id_text = entity_id_text(ids[i]);
        let line = concat3("Entity: ", id_text.as_str(), "\n");
        out.append(line.as_str());
        proof {
            assert(ids@.take(i + 1).drop_last() =~= ids@.take(i as int));
            assert(ids@.take(i + 1).last() == ids@[i as int]);
        }
        i = i + 1;
    }
    assert(ids@.take(ids@.len() as int) =~= ids@);
    out
}

/// The listing has one line of the same width per entity, in the order of
/// the ids: the `i`-th line is `Entity: ` with the `i`-th id and a line
/// break.
pub proof fn law_entity_lines_one_per_id(ids: Seq<u128>)
    ensures
        entity_lines(ids).len() == 45 * ids.len(),
        forall|i: int|
            0 <= i < ids.len() ==> #[trigger] entity_lines(ids).subrange(45 * i, 45 * i + 45) == "Entity: "@
                + uuid_text(ids[i]) + "\n"@,
    decreases ids.len(),
{
    reveal_strlit("Entity: ");
    reveal_strlit("\n");
    if ids.len() > 0 {
        let init = ids.drop_last();
        law_entity_lines_one_per_id(init);
        let prev = entity_lines(init);
        let line = "Entity: "@ + uuid_text(ids.last()) + "\n"@;
        assert(line.len() == 45);
        assert(entity_lines(ids) == prev + line);
        assert forall|i: int| 0 <= i < ids.len() implies #[trigger] entity_lines(ids).subrange(
            45 * i,
            45 * i + 45,
        ) == "Entity: "@ + uuid_text(ids[i]) + "\n"@ by {
            if i < ids.len() - 1 {
                assert(init[i] == ids[i]);
                assert(prev.subrange(45 * i, 45 * i + 45) == "Entity: "@ + uuid_text(init[i]) + "\n"@);
                assert(entity_lines(ids).subrange(45 * i, 45 * i + 45) =~= prev.subrange(45 * i, 45 * i + 45));
            } else {
                assert(entity_lines(ids).subrange(45 * i, 45 * i + 45) =~= line);
            }
        }
    }
}

} // verus!
