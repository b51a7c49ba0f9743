use mdr::label::{help_lines, queue_label};
use mdr::mapper::LinkTarget;
use mdr::picker::{PickerEntry, PickerEntryKind};
use mdr::search::SearchMatch;
use mdr::state::{AppState, EventResult, Key, KeyAction, MouseKind, ScreenRect};

fn sample_match(scroll_pos: u16) -> SearchMatch {
    SearchMatch {
        line_idx: 0,
        start: 0,
        end: 4,
        start_char: 0,
        scroll_pos,
    }
}

#[test]
fn esc_closes_help_without_overwriting_scroll_restore() {
    let mut state = AppState::new(true);
    state.scroll = 12;
    state.show_help = true;
    state.scroll_before_help = Some(12);

    let action = state.handle_key_input(Key::Esc, 100, 10);

    assert!(matches!(action, KeyAction::Nothing));
    assert!(!state.show_help);
    assert_eq!(state.scroll, 12);
    assert_eq!(state.scroll_before_help, Some(12));
}

#[test]
fn enter_without_search_requests_link_open() {
    let mut state = AppState::new(true);
    state.search_mode = false;
    state.show_help = false;

    let action = state.handle_key_input(Key::Enter, 100, 10);

    assert!(matches!(action, KeyAction::OpenLink));
}

#[test]
fn help_toggle_records_scroll_and_clears_hover() {
    let mut state = AppState::new(true);
    state.scroll = 7;
    state.hover_link = Some("https://example.com".to_string());

    let action = state.handle_key_input(Key::Char('h'), 100, 10);

    assert!(matches!(action, KeyAction::Nothing));
    assert!(state.show_help);
    assert_eq!(state.scroll_before_help, Some(7));
    assert!(state.hover_link.is_none());
}

#[test]
fn search_enter_jumps_to_first_match() {
    let mut state = AppState::new(true);
    state.search_mode = true;
    state.search_matches = vec![sample_match(9)];

    let action = state.handle_key_input(Key::Enter, 100, 10);

    assert!(matches!(action, KeyAction::Nothing));
    assert!(!state.search_mode);
    assert_eq!(state.scroll, 9);
}

#[test]
fn bracket_keys_emit_document_navigation_actions() {
    let mut state = AppState::new(true);

    let next = state.handle_key_input(Key::Char(']'), 100, 10);
    let prev = state.handle_key_input(Key::Char('['), 100, 10);

    assert!(matches!(next, KeyAction::NextDocument));
    assert!(matches!(prev, KeyAction::PreviousDocument));
}

#[test]
fn g_key_emits_go_dialog_action() {
    let mut state = AppState::new(true);
    let action = state.handle_key_input(Key::Char('g'), 100, 10);
    assert!(matches!(action, KeyAction::OpenGoDialog));
}

#[test]
fn queue_label_shows_current_position_and_filename() {
    let label = queue_label(1, 4, "docs/guide.md");
    assert_eq!(label, "[2/4] docs/guide.md");
}

#[test]
fn switching_documents_resets_hover_and_search_mode() {
    let mut state = AppState::new(true);
    state.hover_link = Some("https://example.com".to_string());
    state.search_mode = true;
    state.search_query = "needle".to_string();
    state.search_matches = vec![SearchMatch {
        line_idx: 0,
        start: 0,
        end: 6,
        start_char: 0,
        scroll_pos: 2,
    }];

    state.on_document_changed();

    assert!(state.hover_link.is_none());
    assert!(!state.search_mode);
    assert!(state.search_query.is_empty());
    assert!(state.search_matches.is_empty());
}

#[test]
fn switching_documents_updates_queue_indicator() {
    assert_eq!(queue_label(0, 3, "a.md"), "[1/3] a.md");
    assert_eq!(queue_label(2, 3, "c.md"), "[3/3] c.md");
}

#[test]
fn help_lines_show_separate_previous_and_next_bindings() {
    let lines: Vec<String> = help_lines();

    assert!(
        lines
            .iter()
            .any(|line| line.contains("]                    Next document"))
    );
    assert!(
        lines
            .iter()
            .any(|line| line.contains("[                    Previous document"))
    );
}

#[test]
fn go_dialog_enter_returns_selected_index() {
    let mut state = AppState::new(true);
    state.open_go_dialog(3, 1);

    let move_result = state.handle_go_dialog_key_input(Key::Down);
    assert!(matches!(move_result, EventResult::Continue));

    let result = state.handle_go_dialog_key_input(Key::Enter);
    assert!(matches!(result, EventResult::GoToIndex(2)));
    assert!(!state.go_dialog_open);
}

#[test]
fn search_typing_builds_query_and_cycling_wraps_around() {
    let mut state = AppState::new(true);
    state.handle_key_input(Key::Char('/'), 100, 10);
    assert!(state.search_mode);
    state.handle_key_input(Key::Char('a'), 100, 10);
    state.handle_key_input(Key::Char('b'), 100, 10);
    assert_eq!(state.search_query, "ab");
    state.handle_key_input(Key::Backspace, 100, 10);
    assert_eq!(state.search_query, "a");
    state.handle_key_input(Key::Esc, 100, 10);
    assert!(!state.search_mode);
    assert!(state.search_query.is_empty());

    state.search_matches = vec![sample_match(1), sample_match(2), sample_match(3)];
    state.search_index = 0;
    for _ in 0..state.search_matches.len() {
        state.handle_key_input(Key::Char('n'), 100, 10);
    }
    assert_eq!(state.search_index, 0);
    state.handle_key_input(Key::Char('N'), 100, 10);
    assert_eq!(state.search_index, 2);
}

#[test]
fn scroll_keys_saturate_at_bounds() {
    let mut state = AppState::new(true);
    state.handle_key_input(Key::Up, 100, 10);
    assert_eq!(state.scroll, 0);
    state.handle_key_input(Key::End, 100, 10);
    assert_eq!(state.scroll, 100);
    state.handle_key_input(Key::PageDown, 100, 10);
    assert_eq!(state.scroll, 110);
    state.handle_key_input(Key::Home, 100, 10);
    assert_eq!(state.scroll, 0);
}

#[test]
fn picker_escape_closes_overlay_and_enter_descends_or_opens() {
    let mut state = AppState::new(true);
    let entries = vec![
        PickerEntry {
            path: "/docs".to_string(),
            kind: PickerEntryKind::Parent,
            label: "../".to_string(),
        },
        PickerEntry {
            path: "/docs/work/child".to_string(),
            kind: PickerEntryKind::Directory,
            label: "child/".to_string(),
        },
        PickerEntry {
            path: "/docs/work/a.md".to_string(),
            kind: PickerEntryKind::MarkdownFile,
            label: "a.md".to_string(),
        },
    ];
    state.open_picker("/docs/work".to_string(), entries.clone());
    assert!(state.picker_open);
    assert_eq!(state.picker_selected, 0);

    let result = state.handle_picker_key_input(Key::Esc);
    assert!(matches!(result, EventResult::Continue));
    assert!(!state.picker_open);

    state.open_picker("/docs/work".to_string(), entries.clone());
    state.picker_selected = 1;
    let descend = state.handle_picker_key_input(Key::Enter);
    assert!(matches!(descend, EventResult::Continue));
    assert_eq!(state.picker_dir, "/docs/work/child");

    state.open_picker("/docs/work".to_string(), entries);
    state.picker_selected = 2;
    let open = state.handle_picker_key_input(Key::Enter);
    assert!(matches!(open, EventResult::OpenPath(p) if p == "/docs/work/a.md"));
    assert!(!state.picker_open);
}

#[test]
fn picker_backspace_on_empty_query_goes_to_parent() {
    let mut state = AppState::new(true);
    state.open_picker("/docs/work".to_string(), Vec::new());
    let result = state.handle_picker_key_input(Key::Backspace);
    assert!(matches!(result, EventResult::Continue));
    assert_eq!(state.picker_dir, "/docs");
}

#[test]
fn frame_layout_restores_help_snapshot_and_clamps_scroll() {
    let mut state = AppState::new(true);
    let area = ScreenRect {
        x: 0,
        y: 0,
        width: 5,
        height: 2,
    };
    let lines = vec![String::from("abcd efghij"), String::from("x")];
    state.scroll = 1;
    state.handle_key_input(Key::Char('h'), 100, 10);
    state.handle_key_input(Key::Esc, 100, 10);
    state.apply_frame_layout(lines.clone(), Vec::new(), area);
    // Four rendered rows at height two leave a maximum scroll of two, and
    // the pre-help position one is restored exactly.
    assert_eq!(state.rendered_lines, 4);
    assert_eq!(state.scroll, 1);
    assert_eq!(state.scroll_before_help, None);

    // A snapshot past the new bounds is clamped.
    state.scroll_before_help = Some(60);
    state.apply_frame_layout(lines, Vec::new(), area);
    assert_eq!(state.scroll, 2);
}

#[test]
fn frame_layout_recomputes_search_matches() {
    let mut state = AppState::new(true);
    let area = ScreenRect {
        x: 0,
        y: 0,
        width: 5,
        height: 10,
    };
    state.search_query = "world".to_string();
    state.apply_frame_layout(vec![String::from("hello world")], Vec::new(), area);
    assert_eq!(state.search_matches.len(), 1);
    assert_eq!(state.search_matches[0].scroll_pos, 2);

    state.search_query = String::new();
    state.search_index = 5;
    state.apply_frame_layout(vec![String::from("hello world")], Vec::new(), area);
    assert!(state.search_matches.is_empty());
    assert_eq!(state.search_index, 0);
}

#[test]
fn mouse_click_inside_content_resolves_link() {
    let mut state = AppState::new(true);
    let area = ScreenRect {
        x: 1,
        y: 1,
        width: 20,
        height: 5,
    };
    let links = vec![LinkTarget {
        line_idx: 0,
        start_char: 2,
        end_char: 8,
        url: "https://example.com".to_string(),
    }];
    state.apply_frame_layout(vec![String::from("abcd efghij")], links, area);

    let opened = state.handle_mouse(MouseKind::DownLeft, 3, 1);
    assert_eq!(opened.as_deref(), Some("https://example.com"));
    assert_eq!(state.hover_link.as_deref(), Some("https://example.com"));

    let missed = state.handle_mouse(MouseKind::DownLeft, 0, 0);
    assert!(missed.is_none());
}
