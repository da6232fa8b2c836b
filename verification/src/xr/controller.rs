//! The component that tags an entity as a VR controller.
use vstd::prelude::*;

verus! {

/// Which hand a controller entity belongs to.
#[derive(Clone, Copy, Debug, PartialEq, Eq, Structural)]
pub enum XRControllerType {
    LeftHandController,
    RightHandController,
}

/// Tags an entity as the visible representation of a VR controller; the
/// controller sync keeps the entity's transform at the controller's pose.
#[derive(Clone, Copy, Debug, PartialEq, Eq, Structural)]
pub struct XRController {
    pub controller_type: XRControllerType,
}

/// The component a newly tagged entity gets: the left-hand controller.
pub fn create_xr_controller() -> (r: XRController)
    ensures
        r.controller_type == XRControllerType::LeftHandController,
{
    XRController { controller_type: XRControllerType::LeftHandController }
}

/// The index of a hand in the per-hand tables: left first, then right.
pub fn hand_index(hand: XRControllerType) -> (r: usize)
    ensures
        r < 2,
        r == 0 <==> hand == XRControllerType::LeftHandController,
{
    match hand {
        XRControllerType::LeftHandController => 0,
        XRControllerType::RightHandController => 1,
    }
}

/// The position of the first entity tagged for `hand`, given the hand each
/// tagged entity reports (`None` where it could not be read).
pub open spec fn first_for_hand(hands: Seq<Option<XRControllerType>>, hand: XRControllerType) -> Option<int>
    decreases hands.len(),
{
    if hands.len() == 0 {
        None
    } else if hands[0] == Some(hand) {
        Some(0)
    } else {
        match first_for_hand(hands.drop_first(), hand) {
            Some(i) => Some(i + 1),
            None => None,
        }
    }
}

proof fn lemma_first_for_hand(hands: Seq<Option<XRControllerType>>, hand: XRControllerType, i: int)
    requires
        0 <= i <= hands.len(),
        forall|j: int| 0 <= j < i ==> hands[j] != Some(hand),
    ensures
        i < hands.len() && hands[i] == Some(hand) ==> first_for_hand(hands, hand) == Some(i),
        i == hands.len() ==> first_for_hand(hands, hand) is None,
    decreases hands.len(),
{
    if hands.len() > 0 && i > 0 {
        let t = hands.drop_first();
        assert forall|j: int| 0 <= j < i - 1 implies t[j] != Some(hand) by {
            assert(t[j] == hands[j + 1]);
        }
        lemma_first_for_hand(t, hand, i - 1);
        if i < hands.len() && hands[i] == Some(hand) {
            assert(t[i - 1] == hands[i]);
        }
    }
}

/// Which tagged entity stands for `hand`: the first one tagged with that
/// hand; extra entities with the same hand are ignored.
pub fn controller_for_hand(hands: &Vec<Option<XRControllerType>>, hand: XRControllerType) -> (r: Option<usize>)
    ensures
        match r {
            Some(i) => first_for_hand(hands@, hand) == Some(i as int),
            None => first_for_hand(hands@, hand) is None,
        },
{
    let mut i: usize = 0;
    while i < hands.len()
        invariant
            i <= hands@.len(),
            forall|j: int| 0 <= j < i ==> hands@[j] != Some(hand),
        decreases hands@.len() - i,
    {
        if hands[i] == Some(hand) {
            proof {
                lemma_first_for_hand(hands@, hand, i as int);
            }
            return Some(i);
        }
        i = i + 1;
    }
    proof {
        lemma_first_for_hand(hands@, hand, i as int);
    }
    None
}

/// The entity found for a hand is tagged with that hand and no entity before
/// it is; none is found exactly when no entity is tagged with that hand.
pub proof fn law_first_for_hand(hands: Seq<Option<XRControllerType>>, hand: XRControllerType)
    ensures
        first_for_hand(hands, hand) matches Some(i) ==> 0 <= i < hands.len() && hands[i] == Some(hand)
            && forall|j: int| 0 <= j < i ==> hands[j] != Some(hand),
        first_for_hand(hands, hand) is None <==> forall|j: int| 0 <= j < hands.len() ==> hands[j] != Some(
            hand,
        ),
    decreases hands.len(),
{
    if hands.len() > 0 {
        let t = hands.drop_first();
        law_first_for_hand(t, hand);
        assert forall|j: int| 0 < j < hands.len() implies hands[j] == t[j - 1] by {}
        if hands[0] != Some(hand) {
            if first_for_hand(t, hand) is None {
                assert forall|j: int| 0 <= j < hands.len() implies hands[j] != Some(hand) by {
                    if j > 0 {
                        assert(hands[j] == t[j - 1]);
                    }
                }
            } else {
                let k = first_for_hand(t, hand)->0;
                assert(hands[k + 1] == t[k]);
            }
        }
    }
}

} // verus!
