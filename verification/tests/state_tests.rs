use wasserxr_core::console::keys::Key;
use wasserxr_core::console::state::{AppState, EntityDetailState, EntityListState, TAB_COUNT};

#[test]
fn previous_tab_wraps_from_first_to_last() {
    let state = AppState::default().tab_prev();

    assert_eq!(state.tab, TAB_COUNT - 1);
}

#[test]
fn next_tab_wraps_from_last_to_first() {
    let state = AppState {
        tab: TAB_COUNT - 1,
        ..Default::default()
    }
    .tab_next();

    assert_eq!(state.tab, 0);
}

#[test]
fn previous_entity_wraps_from_first_to_last() {
    let state = AppState::default()
        .handle_input(Key::Up)
        .normalize_entity_selection(3);

    assert_eq!(state.entity_list.selected, 2);
}

#[test]
fn entity_selection_ignores_empty_lists() {
    let state = AppState {
        entity_list: EntityListState { selected: 4 },
        ..Default::default()
    };

    assert_eq!(state.normalize_entity_selection(0).entity_list.selected, 0);
}

#[test]
fn entity_selection_normalizes_out_of_range_indexes() {
    let state = AppState {
        entity_list: EntityListState {
            selected: usize::MAX,
        },
        ..Default::default()
    };

    assert_eq!(state.normalize_entity_selection(3).entity_list.selected, 2);
}

#[test]
fn enter_opens_entity_details() {
    let state = AppState {
        entity_list: EntityListState { selected: 2 },
        ..Default::default()
    }
    .handle_input(Key::Enter);

    assert!(state.entity_detail.active);
    assert_eq!(state.entity_detail.selected, 2);
}

#[test]
fn escape_closes_entity_details() {
    let state = AppState {
        entity_detail: EntityDetailState {
            active: true,
            selected: 0,
        },
        ..Default::default()
    }
    .handle_input(Key::Esc);

    assert!(!state.entity_detail.active);
}

#[test]
fn tab_switch_is_undone_by_the_opposite_switch() {
    for tab in 0..TAB_COUNT {
        let state = AppState { tab, ..Default::default() };
        assert_eq!(state.handle_input(Key::Right).handle_input(Key::Left).tab, tab);
        assert_eq!(state.handle_input(Key::Char('h')).handle_input(Key::Char('l')).tab, tab);
    }
}

#[test]
fn normalizing_twice_changes_nothing_more() {
    let state = AppState {
        entity_list: EntityListState { selected: 7 },
        ..Default::default()
    };
    let once = state.normalize_entity_selection(5);
    assert_eq!(once.entity_list.selected, 2);
    assert_eq!(once.normalize_entity_selection(5).entity_list.selected, 2);
}
