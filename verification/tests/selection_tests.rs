//! The selector's state machine: rows, movement, events, filtering.

use std::cmp::Ordering;

use rust_cuts::command_definitions::{CommandDefinition, CommandExecutionTemplate};
use rust_cuts::selection::{
    filter_displayed_indexes, handle_key_event, handle_resize, move_selected_index,
    pad_to_width_of, CommandChoice, CommandForDisplay, CommandIndex, CycleDirection, DisplayMode,
    KeyInput, RunChoice, UiState, ViewportState,
};

fn ui(selected: usize, offset: usize, height: u16) -> UiState {
    UiState {
        selected_index: selected,
        viewport: ViewportState {
            offset,
            height,
            width: 80,
        },
        is_filtering: false,
        filter_text: String::new(),
    }
}

#[test]
fn test_command_for_display_normal() {
    let cmd = CommandDefinition {
        command: vec!["echo".to_string(), "test".to_string()],
        id: Some("test_cmd".to_string()),
        description: Some("Test command".to_string()),
        working_directory: None,
        parameters: None,
        environment: None,
        metadata: None,
    };
    let display_cmd = CommandForDisplay::Normal(cmd.clone());
    assert_eq!(display_cmd.display_name(), "test_cmd (Test command)");
}

#[test]
fn test_command_for_display_rerun() {
    let template = CommandExecutionTemplate {
        command: vec!["ls".to_string(), "-la".to_string()],
        working_directory: None,
        template_context: None,
        environment: None,
    };
    let display_cmd = CommandForDisplay::Rerun(template);
    assert_eq!(display_cmd.display_name(), "ls -la");
}

#[test]
fn test_command_index_display() {
    let normal_index = CommandIndex::Normal(0);
    assert_eq!(normal_index.display_string(), "1"); // 1-based display

    let normal_index_5 = CommandIndex::Normal(4);
    assert_eq!(normal_index_5.display_string(), "5");

    let rerun_index = CommandIndex::Rerun;
    assert_eq!(rerun_index.display_string(), "r");
}

#[test]
fn test_command_index_compare() {
    let normal_1 = CommandIndex::Normal(0);
    let normal_2 = CommandIndex::Normal(1);
    let rerun = CommandIndex::Rerun;

    assert_eq!(normal_1.compare(&CommandIndex::Normal(0)), Ordering::Equal);
    assert_eq!(normal_1.compare(&normal_2), Ordering::Less);
    assert_eq!(normal_2.compare(&normal_1), Ordering::Greater);

    assert_eq!(normal_1.compare(&rerun), Ordering::Less);
    assert_eq!(rerun.compare(&normal_1), Ordering::Greater);

    assert_eq!(rerun.compare(&CommandIndex::Rerun), Ordering::Equal);
}

#[test]
fn test_command_index_equality() {
    let normal_first = CommandIndex::Normal(1);
    let normal_same = CommandIndex::Normal(1);
    let normal_different = CommandIndex::Normal(2);
    let rerun_first = CommandIndex::Rerun;
    let rerun_second = CommandIndex::Rerun;

    assert_eq!(normal_first, normal_same);
    assert_ne!(normal_first, normal_different);
    assert_eq!(rerun_first, rerun_second);
    assert_ne!(normal_first, rerun_first);
}

#[test]
fn test_cycle_direction() {
    let up = CycleDirection::Up;
    let up_copy = up;

    let down = CycleDirection::Down;
    let down_copy = down;

    match up_copy {
        CycleDirection::Up => {}
        CycleDirection::Down => panic!("Expected Up"),
    }

    match down_copy {
        CycleDirection::Up => panic!("Expected Down"),
        CycleDirection::Down => {}
    }
}

#[test]
fn test_viewport_state_equality() {
    let viewport1 = ViewportState {
        offset: 0,
        height: 10,
        width: 80,
    };

    let viewport2 = ViewportState {
        offset: 0,
        height: 10,
        width: 80,
    };

    let viewport3 = ViewportState {
        offset: 1,
        height: 10,
        width: 80,
    };

    assert_eq!(viewport1, viewport2);
    assert_ne!(viewport1, viewport3);
}

#[test]
fn test_ui_state_equality() {
    let viewport = ViewportState {
        offset: 0,
        height: 10,
        width: 80,
    };

    let ui_state1 = UiState {
        selected_index: 0,
        viewport: viewport.clone(),
        is_filtering: false,
        filter_text: String::new(),
    };

    let ui_state2 = UiState {
        selected_index: 0,
        viewport: viewport.clone(),
        is_filtering: false,
        filter_text: String::new(),
    };

    let ui_state3 = UiState {
        selected_index: 1,
        viewport,
        is_filtering: false,
        filter_text: String::new(),
    };

    assert_eq!(ui_state1, ui_state2);
    assert_ne!(ui_state1, ui_state3);
}

#[test]
fn test_display_mode() {
    let filtering_mode = DisplayMode { is_filtering: true };
    let normal_mode = DisplayMode {
        is_filtering: false,
    };

    assert!(filtering_mode.is_filtering);
    assert!(!normal_mode.is_filtering);
}

#[test]
fn test_wraparound_down_resets_viewport() {
    // Down from the last filtered index returns to 0 and resets the offset.
    let state = ui(14, 5, 10);
    let moved = move_selected_index(&state, 15, &CycleDirection::Down);
    assert_eq!(moved.selected_index, 0);
    assert_eq!(moved.viewport.offset, 0);
}

#[test]
fn test_wraparound_up_reveals_tail() {
    // Up from index 0 wraps to the last index and reveals it.
    let state = ui(0, 0, 10);
    let moved = move_selected_index(&state, 15, &CycleDirection::Up);
    assert_eq!(moved.selected_index, 14);
    assert_eq!(moved.viewport.offset, 5);
    let off = moved.viewport.offset;
    assert!(off <= 14 && 14 < off + 10);
}

#[test]
fn test_plain_moves_keep_selection_visible() {
    let state = ui(3, 3, 4);
    let up = move_selected_index(&state, 15, &CycleDirection::Up);
    assert_eq!(up.selected_index, 2);
    assert_eq!(up.viewport.offset, 2);

    let state = ui(6, 3, 4);
    let down = move_selected_index(&state, 15, &CycleDirection::Down);
    assert_eq!(down.selected_index, 7);
    assert_eq!(down.viewport.offset, 4);
}

#[test]
fn test_handle_resize_adjusts_offset() {
    let rows = vec![
        CommandIndex::Normal(0),
        CommandIndex::Normal(1),
        CommandIndex::Normal(2),
        CommandIndex::Normal(3),
        CommandIndex::Normal(4),
        CommandIndex::Normal(5),
    ];
    // Shrinking pulls the selection back into view.
    let state = ui(5, 2, 6);
    let resized = handle_resize(80, 4, &state, &rows);
    assert_eq!(resized.viewport.height, 2);
    assert_eq!(resized.selected_index, 5);
    assert_eq!(resized.viewport.offset, 4);

    // Growing shows more rows above the selection.
    let state = ui(5, 4, 2);
    let grown = handle_resize(80, 8, &state, &rows);
    assert_eq!(grown.viewport.height, 6);
    assert_eq!(grown.viewport.offset, 0);
}

#[test]
fn test_key_events_drive_the_selector() {
    let rows = vec![CommandIndex::Normal(0), CommandIndex::Normal(1)];
    let state = ui(1, 0, 10);

    // Enter commits the selected row.
    let (next, choice) = handle_key_event(KeyInput::Enter, &state, &rows, None);
    assert!(next.is_none());
    assert!(matches!(choice, Some(CommandChoice::Index(1))));

    // `q` quits.
    let (_, choice) = handle_key_event(KeyInput::Char('q'), &state, &rows, None);
    assert!(matches!(choice, Some(CommandChoice::Quit)));

    // `/` begins filtering; typed characters then reach the filter text.
    let (next, _) = handle_key_event(KeyInput::Char('/'), &state, &rows, None);
    let filtering = next.unwrap();
    assert!(filtering.is_filtering);
    let (next, _) = handle_key_event(KeyInput::Char('q'), &filtering, &rows, None);
    let typed = next.unwrap();
    assert_eq!(typed.filter_text, "q");

    // Backspace removes the last filter character.
    let (next, _) = handle_key_event(KeyInput::Backspace, &typed, &rows, None);
    assert_eq!(next.unwrap().filter_text, "");

    // Esc leaves filtering and clears the text.
    let (next, _) = handle_key_event(KeyInput::Esc, &typed, &rows, None);
    let cleared = next.unwrap();
    assert!(!cleared.is_filtering);
    assert_eq!(cleared.filter_text, "");
}

#[test]
fn test_rerun_key_commits_previous_command() {
    let rows = vec![CommandIndex::Normal(0), CommandIndex::Rerun];
    let state = ui(0, 0, 10);
    let last = CommandExecutionTemplate {
        command: vec!["ls".to_string()],
        working_directory: None,
        template_context: None,
        environment: None,
    };

    let (_, choice) = handle_key_event(KeyInput::Char('r'), &state, &rows, Some(&last));
    match choice {
        Some(CommandChoice::Rerun(t)) => assert_eq!(t.command, vec!["ls".to_string()]),
        other => panic!("expected a rerun choice, got {other:?}"),
    }

    // Without a previous command the key does nothing.
    let (next, choice) = handle_key_event(KeyInput::Char('r'), &state, &rows, None);
    assert!(next.is_none());
    assert!(choice.is_none());

    let (_, choice) = handle_key_event(KeyInput::CtrlC, &state, &rows, None);
    assert!(matches!(choice, Some(CommandChoice::Quit)));
    match choice {
        Some(CommandChoice::Quit) => {}
        _ => panic!("expected quit"),
    }
    let _ = RunChoice::Yes;
}

#[test]
fn test_filter_by_index_substring() {
    // Filter text "2" against a 15-entry list keeps the entries whose
    // one-based index label holds a "2".
    let labels: Vec<String> = (0..15).map(|i| format!("command number {i}")).collect();
    let rerun_label = "previous".to_string();
    let filtered = filter_displayed_indexes(&labels, Some(&rerun_label), "2");
    assert_eq!(
        filtered,
        vec![CommandIndex::Normal(1), CommandIndex::Normal(11)]
    );
}

#[test]
fn test_filter_by_fuzzy_label() {
    let labels: Vec<String> = vec![
        "deploy service".to_string(),
        "list files".to_string(),
        "destroy platform".to_string(),
    ];
    let rerun_label = "deploy service".to_string();
    let filtered = filter_displayed_indexes(&labels, Some(&rerun_label), "dep");
    // Fuzzy matches keep index order, with the rerun entry always last.
    assert_eq!(
        filtered,
        vec![
            CommandIndex::Normal(0),
            CommandIndex::Normal(2),
            CommandIndex::Rerun
        ]
    );

    // An empty filter keeps everything.
    let all = filter_displayed_indexes(&labels, Some(&rerun_label), "");
    assert_eq!(all.len(), 4);
    assert_eq!(all[3], CommandIndex::Rerun);
}

#[test]
fn test_pad_to_width_of_aligns_numerals() {
    assert_eq!(pad_to_width_of(&"7".to_string(), 100), "  7");
    assert_eq!(pad_to_width_of(&"15".to_string(), 15), "15");
    assert_eq!(pad_to_width_of(&"r".to_string(), 10), " r");
}
