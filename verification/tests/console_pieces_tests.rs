use wasserxr::error::{ComponentError, PluginError, SceneError};
use wasserxr::scene::logging::LogLevel;
use ratatui::style::Color;
use wasserxr_core::console::capture::captured_message;
use wasserxr_core::console::console_app::{Action, ConsoleApp, Tab};
use wasserxr_core::console::failure::{component_error_reason, plugin_error_reason, scene_error_message};
use wasserxr_core::console::keys::{parse_key, Key};
use wasserxr_core::console::labels::{component_plugin_label, field_color, follow_status, log_color, plugin_label};
use wasserxr_core::console::layout::{
    centered_rect, clamped_selection, log_area_rect, modal_hint_area, prompt_cursor, row_spacing,
    split_header_content, split_header_content_footer, split_top_rows, status_area, Rect,
};
use wasserxr_core::console::logs::{display_line_count, display_lines_of};
use wasserxr_core::console::navigation::{
    clamp_log_scroll, index_add_no_loop, index_add_with_loop, index_sub_no_loop, index_sub_with_loop,
    log_level_add, log_level_index, log_level_sub, max_log_scroll,
};

#[test]
fn raw_bytes_decode_to_keys() {
    assert_eq!(parse_key(&[]), None);
    assert_eq!(parse_key(b"\r"), Some(Key::Enter));
    assert_eq!(parse_key(b"\nabc"), Some(Key::Enter));
    assert_eq!(parse_key(&[0x7f]), Some(Key::Backspace));
    assert_eq!(parse_key(&[0x08]), Some(Key::Backspace));
    assert_eq!(parse_key(b"\x1b[A"), Some(Key::Up));
    assert_eq!(parse_key(b"\x1b[B"), Some(Key::Down));
    assert_eq!(parse_key(b"\x1b[C"), Some(Key::Right));
    assert_eq!(parse_key(b"\x1b[D"), Some(Key::Left));
    assert_eq!(parse_key(b"\x1b"), Some(Key::Esc));
    assert_eq!(parse_key(b"\x1b[Z"), Some(Key::Esc));
    assert_eq!(parse_key(b"q"), Some(Key::Char('q')));
    assert_eq!(parse_key("é".as_bytes()), Some(Key::Char('é')));
    assert_eq!(parse_key("€x".as_bytes()), Some(Key::Char('€')));
    assert_eq!(parse_key(&[0xc3]), None);
    assert_eq!(parse_key(&[0x01]), Some(Key::Char('\u{1}')));
}

#[test]
fn list_steps_wrap_and_clamp() {
    assert_eq!(index_add_with_loop(2, 3), 0);
    assert_eq!(index_add_with_loop(0, 0), 0);
    assert_eq!(index_sub_with_loop(0, 3), 2);
    assert_eq!(index_sub_with_loop(0, 0), 0);
    assert_eq!(index_sub_with_loop(2, 3), 1);
    assert_eq!(index_add_no_loop(3, 3), 3);
    assert_eq!(index_add_no_loop(1, 3), 2);
    assert_eq!(index_add_no_loop(usize::MAX, usize::MAX), usize::MAX);
    assert_eq!(index_sub_no_loop(0), 0);
    assert_eq!(index_sub_no_loop(5), 4);
}

#[test]
fn log_scroll_limits() {
    assert_eq!(max_log_scroll(10, 4), 6);
    assert_eq!(max_log_scroll(3, 4), 0);
    assert_eq!(max_log_scroll(10, 0), 9);
    assert_eq!(clamp_log_scroll(8, 10, 4), 6);
    assert_eq!(clamp_log_scroll(2, 10, 4), 2);
}

#[test]
fn log_levels_step_and_stop_at_the_ends() {
    assert_eq!(log_level_add(LogLevel::DEBUG), LogLevel::INFO);
    assert_eq!(log_level_add(LogLevel::ERROR), LogLevel::ERROR);
    assert_eq!(log_level_sub(LogLevel::DEBUG), LogLevel::DEBUG);
    assert_eq!(log_level_sub(LogLevel::ERROR), LogLevel::WARN);
    assert_eq!(log_level_index(LogLevel::WARN), 2);
    for level in [LogLevel::DEBUG, LogLevel::INFO, LogLevel::WARN] {
        assert_eq!(log_level_sub(log_level_add(level)), level);
    }
}

#[test]
fn layout_splits_add_up() {
    let area = Rect { x: 1, y: 2, width: 30, height: 10 };
    let (head, rest) = split_header_content(area);
    assert_eq!(head, Rect { x: 1, y: 2, width: 30, height: 1 });
    assert_eq!(rest, Rect { x: 1, y: 3, width: 30, height: 9 });
    let (h, c, f) = split_header_content_footer(area);
    assert_eq!(h.height + c.height + f.height, 10);
    assert_eq!(f, Rect { x: 1, y: 11, width: 30, height: 1 });
    let (top, below) = split_top_rows(area, 3);
    assert_eq!(top.height, 3);
    assert_eq!(below, Rect { x: 1, y: 5, width: 30, height: 7 });
    let (top, below) = split_top_rows(Rect { x: 0, y: 0, width: 5, height: 2 }, 3);
    assert_eq!(top.height, 2);
    assert_eq!(below.height, 0);
    assert_eq!(centered_rect(area, 10, 4), Rect { x: 11, y: 5, width: 10, height: 4 });
    assert_eq!(log_area_rect(Rect { x: 0, y: 0, width: 80, height: 24 }), Rect { x: 1, y: 3, width: 78, height: 19 });
}

#[test]
fn small_layout_pieces() {
    assert_eq!(modal_hint_area(Rect { x: 0, y: 0, width: 2, height: 5 }), None);
    assert_eq!(
        modal_hint_area(Rect { x: 4, y: 4, width: 10, height: 3 }),
        Some(Rect { x: 5, y: 6, width: 8, height: 1 })
    );
    assert_eq!(clamped_selection(7, 0), None);
    assert_eq!(clamped_selection(7, 3), Some(2));
    assert_eq!(clamped_selection(1, 3), Some(1));
    assert_eq!(prompt_cursor(Rect { x: 10, y: 5, width: 20, height: 3 }, 4), Some((15, 6)));
    assert_eq!(prompt_cursor(Rect { x: 10, y: 5, width: 20, height: 3 }, 400), Some((29, 6)));
    assert_eq!(prompt_cursor(Rect { x: 10, y: 5, width: 2, height: 3 }, 0), None);
    assert_eq!(status_area(Rect { x: 0, y: 1, width: 20, height: 1 }, 6), Rect { x: 14, y: 1, width: 6, height: 1 });
    assert_eq!(row_spacing(20, 5, 6), 9);
    assert_eq!(row_spacing(5, 5, 6), 0);
}

#[test]
fn labels_and_colours() {
    assert_eq!(plugin_label(""), "Statically Linked");
    assert_eq!(plugin_label("libgame.so"), "libgame.so");
    assert_eq!(component_plugin_label(""), "Static");
    assert_eq!(component_plugin_label("physics"), "physics");
    assert_eq!(log_color(LogLevel::ERROR), Color::Red);
    assert_eq!(log_color(LogLevel::DEBUG), Color::Blue);
    assert_eq!(field_color(true, true), Color::White);
    assert_eq!(field_color(true, false), Color::Red);
    let (text, color) = follow_status(true);
    assert_eq!(text, "FOLLOW");
    assert_eq!(color, Color::Green);
    let (text, color) = follow_status(false);
    assert_eq!(text, "PAUSED");
    assert_eq!(color, Color::Yellow);
}

#[test]
fn captured_output_is_trimmed() {
    assert_eq!(captured_message(&[]), None);
    assert_eq!(captured_message(b"hello\n\n"), Some("hello".to_owned()));
    assert_eq!(captured_message(b"  a b \t\r\n"), Some("  a b".to_owned()));
    assert_eq!(captured_message(&[b'x', 0xff]), Some("x\u{fffd}".to_owned()));
}

#[test]
fn error_messages_name_the_failure() {
    assert_eq!(scene_error_message(&SceneError::EntityNotFound), "the entity no longer exists");
    assert_eq!(
        scene_error_message(&SceneError::FileIo("disk full".to_owned())),
        "file operation failed: disk full"
    );
    assert_eq!(
        scene_error_message(&SceneError::ComponentFieldError(ComponentError::FieldNotMutable)),
        "the field is read-only"
    );
    assert_eq!(
        component_error_reason(&ComponentError::NoCreator(PluginError::MissingSymbol("make".to_owned()))),
        "the component creator is unavailable: the plugin is missing required symbol `make`"
    );
    assert_eq!(plugin_error_reason(&PluginError::InvalidSymbol), "a symbol name contains an invalid null byte");
}

#[test]
fn log_lines_wrap_at_the_view_width() {
    let entries = vec![
        (LogLevel::INFO, "abcdef".to_owned()),
        (LogLevel::DEBUG, "hidden".to_owned()),
        (LogLevel::ERROR, "x\ny\r".to_owned()),
    ];
    let lines = display_lines_of(&entries, LogLevel::INFO, 4);
    let texts: Vec<(String, LogLevel)> = lines.iter().map(|(l, lv)| (l.iter().collect(), *lv)).collect();
    assert_eq!(
        texts,
        vec![
            ("abcd".to_owned(), LogLevel::INFO),
            ("ef".to_owned(), LogLevel::INFO),
            ("x".to_owned(), LogLevel::ERROR),
            ("y".to_owned(), LogLevel::ERROR),
        ]
    );
    assert_eq!(display_line_count(&entries, LogLevel::INFO, 4), 4);
    assert_eq!(display_line_count(&entries, LogLevel::DEBUG, 0), 0);
}

#[test]
fn console_app_keys_move_tabs_and_leave_requests() {
    let mut app = ConsoleApp::new();
    app.handle_key(Key::Char('q'));
    assert_eq!(app.get_action(), Action::Quit);
    assert_eq!(app.get_action(), Action::Nothing);
    app.handle_key(Key::Char('r'));
    assert_eq!(app.get_action(), Action::Reload);
    let mut tab = Tab::Entities;
    tab.prev();
    assert_eq!(tab, Tab::Entities);
    tab.next();
    tab.next();
    tab.next();
    tab.next();
    assert_eq!(tab, Tab::Logs);
    tab.prev();
    assert_eq!(tab, Tab::Systems);
    assert_eq!(Tab::get_tabs(), vec!["Entities", "Plugins", "Systems", "Logs"]);
    assert_eq!(usize::from(Tab::from(2usize)), 2);
    assert_eq!(Tab::from(9usize), Tab::Entities);
}

#[test]
fn wide_glyphs_wrap_without_splitting() {
    let entries = vec![(LogLevel::WARN, "日本語a".to_owned())];
    let lines = display_lines_of(&entries, LogLevel::DEBUG, 3);
    let texts: Vec<String> = lines.iter().map(|(l, _)| l.iter().collect()).collect();
    assert_eq!(texts, vec!["日".to_owned(), "本".to_owned(), "語a".to_owned()]);
    let narrow = display_lines_of(&entries, LogLevel::DEBUG, 1);
    let texts: Vec<String> = narrow.iter().map(|(l, _)| l.iter().collect()).collect();
    assert_eq!(
        texts,
        vec!["日".to_owned(), "本".to_owned(), "語".to_owned(), "a".to_owned()]
    );
}

#[test]
fn control_characters_do_not_shift_later_breaks() {
    let entries = vec![(LogLevel::INFO, "\tab".to_owned())];
    let lines = display_lines_of(&entries, LogLevel::DEBUG, 1);
    let texts: Vec<String> = lines.iter().map(|(l, _)| l.iter().collect()).collect();
    assert_eq!(texts, vec!["\ta".to_owned(), "b".to_owned()]);
    let entries = vec![(LogLevel::INFO, "ab\tcd\u{7}".to_owned())];
    let lines = display_lines_of(&entries, LogLevel::DEBUG, 2);
    let texts: Vec<String> = lines.iter().map(|(l, _)| l.iter().collect()).collect();
    assert_eq!(texts, vec!["ab".to_owned(), "\tcd\u{7}".to_owned()]);
}
