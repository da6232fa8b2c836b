use wasserxr::scene::logging::LogLevel;
use wasserxr::scene::Scene;
use wasserxr_core::console::keys::Key;
use wasserxr_core::console::layout::Rect;
use wasserxr_core::console::logs::log_display_line_count;
use wasserxr_core::console::navigation::max_log_scroll;
use wasserxr_core::console::screen::Screen;
use wasserxr_core::console::transition::{import_found_scene, load_found_plugin, transition, InputContext};

fn ctx() -> InputContext {
    InputContext { visible_log_lines: 5, log_area_width: 40 }
}

fn press(scene: &mut Scene, state: Screen, keys: &[Key]) -> Screen {
    let mut state = state;
    for key in keys {
        state = transition(scene, *key, ctx(), state);
    }
    state
}

fn type_text(scene: &mut Scene, state: Screen, text: &str) -> Screen {
    let keys: Vec<Key> = text.chars().map(Key::Char).collect();
    press(scene, state, &keys)
}

fn sorted_entities(scene: &Scene) -> Vec<wasserxr::Uuid> {
    scene.get_entities()
}

#[test]
fn adding_an_entity_names_it_and_opens_it() {
    let mut scene = Scene::new();
    let state = press(&mut scene, Screen::EntityList(0), &[Key::Char('a')]);
    match &state {
        Screen::Prompt(p) => {
            assert_eq!(p.title, "New Entity Name");
            assert!(p.text.is_empty());
            assert_eq!(p.offset, 0);
        }
        _ => panic!("expected the name prompt"),
    }
    let state = type_text(&mut scene, state, "ship");
    let state = press(&mut scene, state, &[Key::Enter]);
    let entities = sorted_entities(&scene);
    assert_eq!(entities.len(), 1);
    match state {
        Screen::EntityDetails(id, 0) => {
            assert_eq!(id, entities[0].as_u128());
            assert_eq!(scene.get_entity_name(entities[0]).unwrap(), "ship");
        }
        _ => panic!("expected the new entity's details"),
    }
}

#[test]
fn entity_cursor_wraps_both_ways() {
    let mut scene = Scene::new();
    scene.add_entity();
    scene.add_entity();
    let state = press(&mut scene, Screen::EntityList(0), &[Key::Char('j')]);
    assert!(matches!(state, Screen::EntityList(1)));
    let state = press(&mut scene, state, &[Key::Down]);
    assert!(matches!(state, Screen::EntityList(0)));
    let state = press(&mut scene, state, &[Key::Up]);
    assert!(matches!(state, Screen::EntityList(1)));
    let state = press(&mut scene, state, &[Key::Char('k'), Key::Char('k')]);
    assert!(matches!(state, Screen::EntityList(1)));
}

#[test]
fn enter_and_escape_come_back_to_the_same_entity() {
    let mut scene = Scene::new();
    scene.add_entity();
    scene.add_entity();
    scene.add_entity();
    let ids = sorted_entities(&scene);
    let state = press(&mut scene, Screen::EntityList(2), &[Key::Enter]);
    match state {
        Screen::EntityDetails(id, 0) => assert_eq!(id, ids[2].as_u128()),
        _ => panic!("expected entity details"),
    }
    let state = press(&mut scene, state, &[Key::Esc]);
    assert!(matches!(state, Screen::EntityList(2)));
}

#[test]
fn escape_from_a_deleted_entity_goes_to_the_top() {
    let mut scene = Scene::new();
    let state = press(&mut scene, Screen::EntityDetails(42, 3), &[Key::Esc]);
    assert!(matches!(state, Screen::EntityList(0)));
}

#[test]
fn deleting_the_last_entity_moves_the_cursor_up() {
    let mut scene = Scene::new();
    scene.add_entity();
    scene.add_entity();
    scene.add_entity();
    let state = press(&mut scene, Screen::EntityList(2), &[Key::Char('D')]);
    assert!(matches!(state, Screen::EntityList(1)));
    assert_eq!(scene.get_entities().len(), 2);
    let state = press(&mut scene, Screen::EntityList(0), &[Key::Char('D')]);
    assert!(matches!(state, Screen::EntityList(0)));
    assert_eq!(scene.get_entities().len(), 1);
}

#[test]
fn deleting_from_an_empty_list_does_nothing() {
    let mut scene = Scene::new();
    let state = press(&mut scene, Screen::EntityList(0), &[Key::Char('D')]);
    assert!(matches!(state, Screen::EntityList(0)));
}

#[test]
fn tabs_cycle_right_and_left() {
    let mut scene = Scene::new();
    let state = press(&mut scene, Screen::EntityList(5), &[Key::Char('l')]);
    assert!(matches!(state, Screen::PluginList(0)));
    let state = press(&mut scene, state, &[Key::Right]);
    assert!(matches!(state, Screen::SystemList { index: 0, error: None }));
    let state = press(&mut scene, state, &[Key::Char('l')]);
    assert!(matches!(state, Screen::LogList { level: LogLevel::DEBUG, scroll: 0, follow: true }));
    let state = press(&mut scene, state, &[Key::Char('l')]);
    assert!(matches!(state, Screen::EntityList(0)));
    let state = press(&mut scene, state, &[Key::Char('h')]);
    assert!(matches!(state, Screen::LogList { level: LogLevel::DEBUG, scroll: 0, follow: true }));
    let state = press(&mut scene, state, &[Key::Char('h')]);
    assert!(matches!(state, Screen::SystemList { index: 0, error: None }));
    let state = press(&mut scene, state, &[Key::Left]);
    assert!(matches!(state, Screen::PluginList(0)));
    let state = press(&mut scene, state, &[Key::Char('h')]);
    assert!(matches!(state, Screen::EntityList(0)));
}

#[test]
fn prompt_editing_moves_the_cursor_and_erases() {
    let mut scene = Scene::new();
    let state = press(&mut scene, Screen::EntityList(0), &[Key::Char('a')]);
    let state = type_text(&mut scene, state, "abc");
    let state = press(&mut scene, state, &[Key::Left, Key::Left, Key::Backspace]);
    match &state {
        Screen::Prompt(p) => {
            assert_eq!(p.text.iter().collect::<String>(), "bc");
            assert_eq!(p.offset, 0);
        }
        _ => panic!("expected the prompt"),
    }
    let state = press(&mut scene, state, &[Key::Backspace, Key::Char('x'), Key::Right, Key::Right, Key::Right]);
    match &state {
        Screen::Prompt(p) => {
            assert_eq!(p.text.iter().collect::<String>(), "xbc");
            assert_eq!(p.offset, 3);
        }
        _ => panic!("expected the prompt"),
    }
    let state = press(&mut scene, state, &[Key::Esc]);
    assert!(matches!(state, Screen::EntityList(0)));
    assert!(scene.get_entities().is_empty());
}

#[test]
fn system_priority_must_be_a_number() {
    let mut scene = Scene::new();
    let state = press(&mut scene, Screen::SystemList { index: 0, error: None }, &[Key::Char('a')]);
    let state = type_text(&mut scene, state, "spin");
    let state = press(&mut scene, state, &[Key::Enter]);
    match &state {
        Screen::Prompt(p) => assert_eq!(p.title, "System Priority"),
        _ => panic!("expected the priority prompt"),
    }
    let state = type_text(&mut scene, state, "soon");
    let state = press(&mut scene, state, &[Key::Enter]);
    match state {
        Screen::SystemList { index: 0, error: Some(e) } => {
            assert_eq!(e, "System priority must be a usize")
        }
        _ => panic!("expected the notice"),
    }
}

#[test]
fn a_missing_plugin_file_is_reported() {
    let mut scene = Scene::new();
    let state = press(&mut scene, Screen::PluginList(0), &[Key::Char('a')]);
    let state = type_text(&mut scene, state, "no-such-plugin.so");
    let state = press(&mut scene, state, &[Key::Enter]);
    match &state {
        Screen::Error(e) => {
            assert_eq!(e.message, "plugin path `no-such-plugin.so` was not found");
            assert!(matches!(*e.on_close, Screen::PluginList(0)));
        }
        _ => panic!("expected an error"),
    }
    let state = press(&mut scene, state, &[Key::Char('x')]);
    assert!(matches!(state, Screen::Error(_)));
    let state = press(&mut scene, state, &[Key::Enter]);
    assert!(matches!(state, Screen::PluginList(0)));
}

#[test]
fn a_missing_scene_file_is_reported_and_returns() {
    let mut scene = Scene::new();
    let state = press(&mut scene, Screen::SystemList { index: 0, error: None }, &[Key::Char('i')]);
    let state = type_text(&mut scene, state, "missing.scene");
    let state = press(&mut scene, state, &[Key::Enter]);
    match &state {
        Screen::Error(e) => assert_eq!(e.message, "scene path `missing.scene` was not found"),
        _ => panic!("expected an error"),
    }
    let state = press(&mut scene, state, &[Key::Esc]);
    assert!(matches!(state, Screen::SystemList { index: 0, error: None }));
}

#[test]
fn unknown_component_creation_fails_with_a_message() {
    let mut scene = Scene::new();
    let id = scene.add_entity().as_u128();
    let state = press(&mut scene, Screen::EntityDetails(id, 0), &[Key::Char('a')]);
    let state = type_text(&mut scene, state, "Nothing");
    let state = press(&mut scene, state, &[Key::Enter]);
    match &state {
        Screen::Error(e) => {
            assert!(!e.message.is_empty());
            assert!(matches!(*e.on_close, Screen::EntityDetails(back, 0) if back == id));
        }
        _ => panic!("expected an error"),
    }
}

#[test]
fn rename_prompt_names_the_entity() {
    let mut scene = Scene::new();
    let uuid = scene.add_entity();
    let state = press(&mut scene, Screen::EntityDetails(uuid.as_u128(), 0), &[Key::Char('r')]);
    match &state {
        Screen::Prompt(p) => assert_eq!(p.title, format!("Rename Entity: {}", uuid)),
        _ => panic!("expected the rename prompt"),
    }
    let state = type_text(&mut scene, state, "hull");
    let state = press(&mut scene, state, &[Key::Enter]);
    assert!(matches!(state, Screen::EntityDetails(id, 0) if id == uuid.as_u128()));
    assert_eq!(scene.get_entity_name(uuid).unwrap(), "hull");
}

#[test]
fn log_scrolling_stops_following_and_stays_in_range() {
    let mut scene = Scene::new();
    let lines = log_display_line_count(&scene, LogLevel::DEBUG, 40);
    let bottom = max_log_scroll(lines, 5);
    let state = Screen::LogList { level: LogLevel::DEBUG, scroll: 9, follow: true };
    let state = press(&mut scene, state, &[Key::Char('j')]);
    match state {
        Screen::LogList { scroll, follow, .. } => {
            assert!(!follow);
            assert_eq!(scroll, bottom);
        }
        _ => panic!("expected the log"),
    }
    let state = press(&mut scene, Screen::LogList { level: LogLevel::DEBUG, scroll: usize::MAX, follow: false }, &[Key::Up]);
    match state {
        Screen::LogList { scroll, follow, .. } => {
            assert!(!follow);
            assert_eq!(scroll, bottom.saturating_sub(1));
        }
        _ => panic!("expected the log"),
    }
    let state = press(&mut scene, Screen::LogList { level: LogLevel::INFO, scroll: 4, follow: false }, &[Key::Char('f')]);
    assert!(matches!(state, Screen::LogList { level: LogLevel::INFO, scroll: 4, follow: true }));
    let state = press(&mut scene, state, &[Key::Right, Key::Right, Key::Right]);
    assert!(matches!(state, Screen::LogList { level: LogLevel::ERROR, scroll: 0, follow: true }));
    let state = press(&mut scene, state, &[Key::Left]);
    assert!(matches!(state, Screen::LogList { level: LogLevel::WARN, scroll: 0, follow: true }));
}

#[test]
fn input_context_follows_the_terminal_size() {
    let small = InputContext::new(Rect { x: 0, y: 0, width: 1, height: 30 });
    assert_eq!(small, InputContext { visible_log_lines: 0, log_area_width: 0 });
    let big = InputContext::new(Rect { x: 0, y: 0, width: 80, height: 24 });
    assert_eq!(big, InputContext { visible_log_lines: 19, log_area_width: 78 });
}

#[test]
fn quit_keeps_the_screen() {
    let mut scene = Scene::new();
    let state = press(&mut scene, Screen::PluginList(0), &[Key::Char('q')]);
    assert!(matches!(state, Screen::PluginList(0)));
}

#[test]
fn a_file_that_is_no_plugin_fails_to_load() {
    let mut scene = Scene::new();
    let state = press(&mut scene, Screen::PluginList(0), &[Key::Char('a')]);
    let state = type_text(&mut scene, state, "Cargo.toml");
    let state = press(&mut scene, state, &[Key::Enter]);
    match &state {
        Screen::Error(e) => {
            assert!(!e.message.is_empty());
            assert!(matches!(*e.on_close, Screen::PluginList(0)));
        }
        Screen::PluginList(0) => panic!("a manifest is not a plugin"),
        _ => panic!("expected an error"),
    }
}

#[test]
fn saving_and_importing_return_to_the_list() {
    let mut scene = Scene::new();
    scene.add_entity();
    let path_text = "/tmp/wasserxr_core_console_save.scene".to_owned();
    let path = std::path::Path::new(&path_text);
    let state = press(&mut scene, Screen::EntityList(0), &[Key::Char('s')]);
    match &state {
        Screen::Prompt(p) => assert_eq!(p.title, "Save Scene Path"),
        _ => panic!("expected the save prompt"),
    }
    let state = type_text(&mut scene, state, &path_text);
    let state = press(&mut scene, state, &[Key::Enter]);
    assert!(matches!(state, Screen::EntityList(0)));
    assert!(path.exists());

    let state = press(&mut scene, Screen::PluginList(0), &[Key::Char('i')]);
    let state = type_text(&mut scene, state, &path_text);
    let state = press(&mut scene, state, &[Key::Enter]);
    assert!(matches!(state, Screen::PluginList(0)));
    assert_eq!(scene.get_entities().len(), 1);
}

#[test]
fn importing_something_that_is_no_scene_reports_it() {
    let mut scene = Scene::new();
    let state = press(&mut scene, Screen::EntityList(0), &[Key::Char('i')]);
    let state = type_text(&mut scene, state, "Cargo.toml");
    let state = press(&mut scene, state, &[Key::Enter]);
    match &state {
        Screen::Error(e) => {
            assert!(!e.message.is_empty());
            assert!(matches!(*e.on_close, Screen::EntityList(0)));
        }
        _ => panic!("expected an error"),
    }
}

#[test]
fn entity_without_components_has_nothing_to_delete_or_open() {
    let mut scene = Scene::new();
    let id = scene.add_entity().as_u128();
    let state = press(&mut scene, Screen::EntityDetails(id, 0), &[Key::Char('D')]);
    assert!(matches!(state, Screen::EntityDetails(i, 0) if i == id));
    let state = press(&mut scene, state, &[Key::Enter, Key::Down, Key::Up]);
    assert!(matches!(state, Screen::EntityDetails(i, 0) if i == id));
    let state = press(&mut scene, Screen::EntityDetails(7, 0), &[Key::Char('D')]);
    match &state {
        Screen::Error(e) => assert_eq!(e.message, "the entity no longer exists"),
        _ => panic!("expected an error"),
    }
}

#[test]
fn the_static_plugin_cannot_be_unloaded_while_idle() {
    let mut scene = Scene::new();
    let state = press(&mut scene, Screen::PluginList(0), &[Key::Char('D')]);
    match &state {
        Screen::Error(e) => assert_eq!(e.message, "the built-in static plugin cannot be unloaded"),
        _ => panic!("expected an error"),
    }
    let state = press(&mut scene, Screen::PluginList(0), &[Key::Down]);
    assert!(matches!(state, Screen::PluginList(0)));
}

#[test]
fn deleting_removes_exactly_the_entity_under_the_cursor() {
    let mut scene = Scene::new();
    scene.add_entity();
    scene.add_entity();
    scene.add_entity();
    let before = sorted_entities(&scene);
    let state = press(&mut scene, Screen::EntityList(1), &[Key::Char('D')]);
    assert!(matches!(state, Screen::EntityList(1)));
    let expected: Vec<wasserxr::Uuid> = before.iter().copied().filter(|id| *id != before[1]).collect();
    assert_eq!(sorted_entities(&scene), expected);
}

#[test]
fn keys_that_only_read_leave_the_entities_alone() {
    let mut scene = Scene::new();
    let id = scene.add_entity();
    scene.set_entity_name(id, "kept".to_owned()).unwrap();
    let before = sorted_entities(&scene);
    let keys = [Key::Char('l'), Key::Char('h'), Key::Char('h'), Key::Char('l'), Key::Down, Key::Up, Key::Enter, Key::Esc];
    let state = press(&mut scene, Screen::EntityList(0), &keys);
    assert!(matches!(state, Screen::EntityList(0)));
    assert_eq!(sorted_entities(&scene), before);
    assert_eq!(scene.get_entity_name(id).unwrap(), "kept");
}

#[test]
fn a_bad_priority_adds_no_system() {
    let mut scene = Scene::new();
    let before = scene.get_systems();
    let state = press(&mut scene, Screen::SystemList { index: 0, error: None }, &[Key::Char('a')]);
    let state = type_text(&mut scene, state, "spin");
    let state = press(&mut scene, state, &[Key::Enter]);
    let state = type_text(&mut scene, state, "-1");
    let _ = press(&mut scene, state, &[Key::Enter]);
    assert_eq!(scene.get_systems(), before);
}

#[test]
fn cancelling_a_rename_keeps_the_old_name() {
    let mut scene = Scene::new();
    let id = scene.add_entity();
    scene.set_entity_name(id, "first".to_owned()).unwrap();
    let state = press(&mut scene, Screen::EntityDetails(id.as_u128(), 0), &[Key::Char('r')]);
    let state = type_text(&mut scene, state, "second");
    let state = press(&mut scene, state, &[Key::Esc]);
    assert!(matches!(state, Screen::EntityDetails(_, 0)));
    assert_eq!(scene.get_entity_name(id).unwrap(), "first");
}

#[test]
fn a_plugin_path_found_nowhere_loads_nothing() {
    let mut scene = Scene::new();
    let plugins = scene.get_plugins();
    let state = load_found_plugin(&mut scene, "nowhere.so", None);
    match &state {
        Screen::Error(e) => {
            assert_eq!(e.message, "plugin path `nowhere.so` was not found");
            assert!(matches!(*e.on_close, Screen::PluginList(0)));
        }
        _ => panic!("expected an error"),
    }
    assert_eq!(scene.get_plugins(), plugins);
}

#[test]
fn a_found_path_that_holds_no_plugin_is_tried_and_reported() {
    let mut scene = Scene::new();
    let path = std::path::PathBuf::from("/nonexistent/wasserxr_core/not_a_plugin.so");
    let state = load_found_plugin(&mut scene, "not_a_plugin.so", Some(path));
    match &state {
        Screen::Error(e) => assert!(matches!(*e.on_close, Screen::PluginList(0))),
        _ => panic!("expected the load to fail"),
    }
}

#[test]
fn a_scene_path_found_nowhere_imports_nothing() {
    let mut scene = Scene::new();
    let id = scene.add_entity();
    let state = import_found_scene(&mut scene, "missing.scene", None, Screen::EntityList(0));
    match &state {
        Screen::Error(e) => {
            assert_eq!(e.message, "scene path `missing.scene` was not found");
            assert!(matches!(*e.on_close, Screen::EntityList(0)));
        }
        _ => panic!("expected an error"),
    }
    assert_eq!(scene.get_entities(), vec![id]);
}
