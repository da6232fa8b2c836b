use wasserxr::scene::Scene;
use wasserxr_core::physics::debug_names::{debug_name, is_debug_name, is_orphan_debug};
use wasserxr_core::physics::mesh::append_shifted_triangles;
use wasserxr_core::xr::events::{session_step, SessionCommand};
use wasserxr_core::xr::version::required_opengl_version;
use wasserxr_core::console::keys::Key;
use wasserxr_core::my_console::{
    handle_app_key, my_console_step, render_text, set_action, take_action, ActionSlot, AppControl,
    MyConsoleAction,
};
use wasserxr_core::xr::controller::{controller_for_hand, create_xr_controller, hand_index, XRControllerType};
use wasserxr_core::xr::events::{any_termination, XREvent, XRSessionState};
use wasserxr_core::xr::version::{core_version, engine_version, parse_version, version_u32};

#[test]
fn versions_parse_into_three_numbers() {
    assert_eq!(parse_version("0.2.4"), Ok((0, 2, 4)));
    assert_eq!(parse_version("1.20.300.7"), Ok((1, 20, 300)));
    assert_eq!(parse_version("+1.2.3"), Ok((1, 2, 3)));
    assert_eq!(parse_version("1"), Err("Missing minor version".to_owned()));
    assert_eq!(parse_version("1.2"), Err("Missing patch version".to_owned()));
    assert_eq!(parse_version(""), Err("Invalid major version: cannot parse integer from empty string".to_owned()));
    assert_eq!(parse_version("a.2.3"), Err("Invalid major version: invalid digit found in string".to_owned()));
    assert_eq!(parse_version("1.70000.3"), Err("Invalid minor version: number too large to fit in target type".to_owned()));
    assert_eq!(parse_version("1.2.-3"), Err("Invalid patch version: invalid digit found in string".to_owned()));
    assert_eq!(parse_version("65535.65535.4294967295"), Ok((65535, 65535, 4294967295)));
}

#[test]
fn core_version_reads_the_package_numbers() {
    assert_eq!(core_version("0", "1", "0"), Ok((0, 1, 0)));
    assert_eq!(
        core_version("0", "x", "0"),
        Err("Invalid WasserXR-Core minor version: invalid digit found in string".to_owned())
    );
}

#[test]
fn engine_version_is_read_from_the_manifest() {
    let inline = "[dependencies]\nserde = \"1\"\nwasserxr = { version = \"0.2.4\", features = [] }\n";
    assert_eq!(engine_version(inline), Ok((0, 2, 4)));
    let table = "[package]\nversion = \"9.9.9\"\n\n[dependencies.wasserxr]\n  path = \"../engine\"\r\n  version = \"1.5.0\"\r\n";
    assert_eq!(engine_version(table), Ok((1, 5, 0)));
    assert_eq!(
        engine_version("[dependencies]\nserde = \"1\"\n"),
        Err("Failed to read WasserXR dependency version".to_owned())
    );
    assert_eq!(
        engine_version("wasserxr = { version = \"0.x.1\" }"),
        Err("Invalid minor version: invalid digit found in string".to_owned())
    );
}

#[test]
fn version_numbers_are_decimal_groups() {
    assert_eq!(version_u32((0, 2, 4)), 2004);
    assert_eq!(version_u32((1, 0, 0)), 1_000_000);
    assert_eq!(version_u32((4294, 967, 295)), 4_294_967_295);
}

#[test]
fn termination_events() {
    assert!(XREvent::InstanceLossPending.is_termination());
    assert!(XREvent::SessionStateChanged(XRSessionState::Exiting).is_termination());
    assert!(XREvent::SessionStateChanged(XRSessionState::Stopping).is_termination());
    assert!(XREvent::SessionStateChanged(XRSessionState::LossPending).is_termination());
    assert!(!XREvent::SessionStateChanged(XRSessionState::Focused).is_termination());
    assert!(!any_termination(&vec![]));
    assert!(!any_termination(&vec![XREvent::SessionStateChanged(XRSessionState::Ready)]));
    assert!(any_termination(&vec![
        XREvent::SessionStateChanged(XRSessionState::Ready),
        XREvent::InstanceLossPending,
    ]));
}

#[test]
fn controllers_are_found_per_hand() {
    assert_eq!(create_xr_controller().controller_type, XRControllerType::LeftHandController);
    assert_eq!(hand_index(XRControllerType::LeftHandController), 0);
    assert_eq!(hand_index(XRControllerType::RightHandController), 1);
    let hands = vec![
        None,
        Some(XRControllerType::RightHandController),
        Some(XRControllerType::LeftHandController),
        Some(XRControllerType::RightHandController),
    ];
    assert_eq!(controller_for_hand(&hands, XRControllerType::RightHandController), Some(1));
    assert_eq!(controller_for_hand(&hands, XRControllerType::LeftHandController), Some(2));
    assert_eq!(controller_for_hand(&vec![None], XRControllerType::LeftHandController), None);
}

#[test]
fn action_slot_hands_out_an_action_once() {
    let mut slot = ActionSlot::new();
    assert_eq!(take_action(&mut slot), None);
    set_action(&mut slot, MyConsoleAction::AddEntity);
    assert_eq!(take_action(&mut slot), Some(MyConsoleAction::AddEntity));
    assert_eq!(take_action(&mut slot), None);
}

#[test]
fn terminal_keys_stop_or_ask_for_entities() {
    let mut slot = ActionSlot::new();
    assert_eq!(handle_app_key(&mut slot, Key::Char('e'), false), AppControl::Continue);
    assert_eq!(take_action(&mut slot), None);
    assert_eq!(handle_app_key(&mut slot, Key::Char('e'), true), AppControl::Continue);
    assert_eq!(handle_app_key(&mut slot, Key::Char('q'), true), AppControl::Stop);
    assert_eq!(take_action(&mut slot), Some(MyConsoleAction::AddEntity));
}

#[test]
fn console_tick_adds_the_requested_entity() {
    let mut scene = Scene::new();
    let mut slot = ActionSlot::new();
    assert!(my_console_step(&mut scene, &mut slot).is_empty());
    set_action(&mut slot, MyConsoleAction::AddEntity);
    let ids = my_console_step(&mut scene, &mut slot);
    assert_eq!(ids.len(), 1);
    assert_eq!(ids[0], scene.get_entities()[0].as_u128());
    assert_eq!(my_console_step(&mut scene, &mut slot).len(), 1);
    let text = render_text(&ids);
    assert_eq!(text, format!("Hello WasserXR\nEntity: {}\n", scene.get_entities()[0]));
    assert_eq!(render_text(&vec![]), "Hello WasserXR\n");
}

#[test]
fn session_state_changes_begin_and_end_rendering() {
    assert_eq!(session_step(XRSessionState::Ready, false), (SessionCommand::Begin, true));
    assert_eq!(session_step(XRSessionState::Stopping, true), (SessionCommand::End, false));
    assert_eq!(session_step(XRSessionState::Focused, true), (SessionCommand::Keep, true));
    assert_eq!(session_step(XRSessionState::Idle, false), (SessionCommand::Keep, false));
}

#[test]
fn opengl_version_is_at_least_three_three() {
    assert_eq!(required_opengl_version((1, 0, 0), (4, 6, 0)), (3, 3));
    assert_eq!(required_opengl_version((4, 1, 2), (4, 6, 0)), (4, 1));
    assert_eq!(required_opengl_version((3, 3, 0), (3, 3, 0)), (3, 3));
}

#[test]
fn mesh_triangles_are_shifted_and_joined() {
    let mut triangles = Vec::new();
    append_shifted_triangles(&mut triangles, &[0, 1, 2, 2, 1, 3, 9], 0);
    append_shifted_triangles(&mut triangles, &[0, 1, 2], 4);
    assert_eq!(triangles, vec![[0, 1, 2], [2, 1, 3], [4, 5, 6]]);
}

#[test]
fn debug_entities_are_recognised_by_name() {
    assert_eq!(debug_name("crate"), "crate_physics_debug");
    assert!(is_debug_name("crate_physics_debug"));
    assert!(!is_debug_name("crate_physics_debu"));
    assert!(!is_debug_name("debug"));
    assert!(is_orphan_debug(5, &vec![1, 2], Some("box_physics_debug")));
    assert!(!is_orphan_debug(2, &vec![1, 2], Some("box_physics_debug")));
    assert!(!is_orphan_debug(5, &vec![1, 2], Some("box")));
    assert!(!is_orphan_debug(5, &vec![], None));
}
