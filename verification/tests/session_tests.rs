use ctrlset::capture::Mods;
use ctrlset::keymap::Keymap;
use ctrlset::records::{AppKeybinds, KeybindEntry};
use ctrlset::session::{App, AppState, Mode, Pending};

fn entry(keys: &str, description: &str) -> KeybindEntry {
    KeybindEntry { keys: keys.to_string(), description: description.to_string() }
}

fn group(name: &str, entries: Vec<KeybindEntry>) -> AppKeybinds {
    AppKeybinds { application: name.to_string(), keybinds: entries }
}

fn vim_state() -> AppState {
    AppState::new(
        vec![group("Vim", vec![entry("J", "move down"), entry("K", "move up")])],
        Keymap::default(),
    )
}

fn key(state: &mut AppState, name: &str) -> bool {
    state.handle_key_down(&name.to_string(), Mods::none())
}

fn shift_key(state: &mut AppState, name: &str) -> bool {
    state.handle_key_down(&name.to_string(), Mods::shift_only())
}

fn text(state: &mut AppState, t: &str) {
    state.handle_text_input(&t.to_string());
}

#[test]
fn initial_state_lists_group_records() {
    let state = vim_state();
    assert_eq!(state.current_application, "Vim");
    assert_eq!(state.mode, Mode::Normal);
    assert_eq!(state.filtered_items.len(), 2);
    assert_eq!(state.filtered_items[0].original_index, 0);
    assert_eq!(state.filtered_items[1].original_index, 1);
    assert!(state.filtered_items[0].match_indices.is_none());
    assert!(state.filtered_items[1].match_indices.is_none());
    assert_eq!(state.status_message, "Keybinds loaded.");
    assert!(!state.dirty);
}

#[test]
fn initial_state_without_data_uses_default_group() {
    let state = AppState::new(vec![], Keymap::default());
    assert_eq!(state.current_application, "default");
    assert_eq!(state.all_applications, vec!["default".to_string()]);
    assert_eq!(state.filtered_items.len(), 0);
    assert_eq!(state.status_message, "Welcome to ctrlset!");
}

#[test]
fn initial_active_group_is_lexicographically_first() {
    let state = AppState::new(
        vec![group("Zed", vec![entry("a", "b")]), group("Emacs", vec![entry("c", "d")])],
        Keymap::default(),
    );
    assert_eq!(state.current_application, "Emacs");
}

#[test]
fn app_shell_wraps_session() {
    let app = App::new(vec![group("Vim", vec![entry("J", "down")])], Keymap::default());
    assert_eq!(app.state.current_application, "Vim");
}

#[test]
fn fuzzy_query_reports_match_positions() {
    // Group "Vim" with two records, query "mov": both rows stay, in the
    // original order, with positions covering "mov" within each text.
    let mut state = vim_state();
    key(&mut state, "Slash");
    assert_eq!(state.mode, Mode::Search);
    text(&mut state, "mov");
    assert_eq!(state.filtered_items.len(), 2);
    assert_eq!(state.filtered_items[0].original_index, 0);
    assert_eq!(state.filtered_items[1].original_index, 1);
    // Combined text "J move down": 'm' at 2, 'o' at 3, 'v' at 4.
    assert_eq!(state.filtered_items[0].match_indices.as_ref().unwrap(), &vec![2, 3, 4]);
    // Combined text "K move up": the same positions.
    assert_eq!(state.filtered_items[1].match_indices.as_ref().unwrap(), &vec![2, 3, 4]);
}

#[test]
fn query_is_stripped_and_lowercased() {
    let mut state = vim_state();
    key(&mut state, "Slash");
    text(&mut state, " M oV ");
    assert_eq!(state.filtered_items.len(), 2);
    key(&mut state, "Escape");
    key(&mut state, "Slash");
    text(&mut state, "down");
    assert_eq!(state.filtered_items.len(), 1);
    assert_eq!(state.filtered_items[0].original_index, 0);
}

#[test]
fn search_mode_flow() {
    let mut state = vim_state();
    key(&mut state, "Slash");
    text(&mut state, "up");
    assert_eq!(state.filtered_items.len(), 1);
    // Enter keeps the filter.
    key(&mut state, "Enter");
    assert_eq!(state.mode, Mode::Normal);
    assert_eq!(state.search_query, "up");
    assert_eq!(state.filtered_items.len(), 1);
    // Back in search, Backspace shortens and rebuilds.
    key(&mut state, "Slash");
    assert_eq!(state.search_query, "");
    assert_eq!(state.filtered_items.len(), 2);
    text(&mut state, "up");
    key(&mut state, "Backspace");
    assert_eq!(state.search_query, "u");
    // Backspace on an empty query exits.
    key(&mut state, "Backspace");
    assert_eq!(state.search_query, "");
    key(&mut state, "Backspace");
    assert_eq!(state.mode, Mode::Normal);
}

#[test]
fn escape_clears_search_query() {
    let mut state = vim_state();
    key(&mut state, "Slash");
    text(&mut state, "up");
    key(&mut state, "Escape");
    assert_eq!(state.mode, Mode::Normal);
    assert_eq!(state.search_query, "");
    assert_eq!(state.filtered_items.len(), 2);
}

#[test]
fn movement_saturates_at_edges() {
    let mut state = AppState::new(
        vec![group("Vim", vec![entry("a", "1"), entry("b", "2"), entry("c", "3")])],
        Keymap::default(),
    );
    assert_eq!(state.selected_cell, (0, 0));
    key(&mut state, "J");
    key(&mut state, "J");
    key(&mut state, "J");
    assert_eq!(state.selected_cell.0, 2);
    key(&mut state, "K");
    assert_eq!(state.selected_cell.0, 1);
    key(&mut state, "L");
    assert_eq!(state.selected_cell.1, 1);
    key(&mut state, "W");
    assert_eq!(state.selected_cell.1, 1);
    key(&mut state, "H");
    assert_eq!(state.selected_cell.1, 0);
    key(&mut state, "B");
    assert_eq!(state.selected_cell.1, 0);
}

#[test]
fn goto_top_and_bottom() {
    let mut state = AppState::new(
        vec![group("Vim", vec![entry("a", "1"), entry("b", "2"), entry("c", "3")])],
        Keymap::default(),
    );
    shift_key(&mut state, "G");
    assert_eq!(state.selected_cell.0, 2);
    // The first G arms the pair, the second completes it.
    key(&mut state, "G");
    assert_eq!(state.pending, Pending::DoubleTap);
    assert_eq!(state.selected_cell.0, 2);
    key(&mut state, "G");
    assert_eq!(state.pending, Pending::Idle);
    assert_eq!(state.selected_cell.0, 0);
}

#[test]
fn double_tap_cancelled_key_still_handled() {
    let mut state = AppState::new(
        vec![group("Vim", vec![entry("a", "1"), entry("b", "2"), entry("c", "3")])],
        Keymap::default(),
    );
    key(&mut state, "G");
    assert_eq!(state.pending, Pending::DoubleTap);
    // A non-matching key cancels the pair and is itself processed.
    key(&mut state, "J");
    assert_eq!(state.pending, Pending::Idle);
    assert_eq!(state.selected_cell.0, 1);
}

#[test]
fn leader_opens_dialogs_and_consumes_strays() {
    let mut state = vim_state();
    key(&mut state, "Space");
    assert_eq!(state.pending, Pending::Leader);
    key(&mut state, "F");
    assert_eq!(state.mode, Mode::AppFilter);
    assert_eq!(state.pending, Pending::Idle);
    key(&mut state, "Escape");
    assert_eq!(state.mode, Mode::Normal);
    key(&mut state, "Space");
    key(&mut state, "E");
    assert_eq!(state.mode, Mode::Export);
    key(&mut state, "Escape");
    key(&mut state, "Space");
    key(&mut state, "I");
    assert_eq!(state.mode, Mode::Import);
    key(&mut state, "Escape");
    // A stray key after the leader is consumed, not handled normally.
    key(&mut state, "Space");
    key(&mut state, "J");
    assert_eq!(state.pending, Pending::Idle);
    assert_eq!(state.selected_cell.0, 0);
    assert_eq!(state.mode, Mode::Normal);
}

#[test]
fn delete_row_sequences() {
    let mut state = AppState::new(
        vec![group("Vim", vec![entry("a", "1"), entry("b", "2"), entry("c", "3")])],
        Keymap::default(),
    );
    // dd removes the selected row.
    key(&mut state, "D");
    assert_eq!(state.pending, Pending::DeleteLeader);
    key(&mut state, "D");
    assert_eq!(state.keybinds.len(), 2);
    assert_eq!(state.keybinds[0].keys, "b");
    assert_eq!(state.status_message, "1 keybind(s) deleted.");
    assert!(state.dirty);
    // dj removes the selected row and the one below.
    key(&mut state, "D");
    key(&mut state, "J");
    assert_eq!(state.keybinds.len(), 0);
    assert_eq!(state.status_message, "2 keybind(s) deleted.");
}

#[test]
fn delete_up_sequence() {
    let mut state = AppState::new(
        vec![group("Vim", vec![entry("a", "1"), entry("b", "2"), entry("c", "3")])],
        Keymap::default(),
    );
    key(&mut state, "J");
    // dk removes the selected row and the one above.
    key(&mut state, "D");
    key(&mut state, "K");
    assert_eq!(state.keybinds.len(), 1);
    assert_eq!(state.keybinds[0].keys, "c");
    assert_eq!(state.status_message, "2 keybind(s) deleted.");
}

#[test]
fn delete_stray_key_is_consumed() {
    let mut state = vim_state();
    key(&mut state, "D");
    assert_eq!(state.pending, Pending::DeleteLeader);
    key(&mut state, "Q");
    assert_eq!(state.pending, Pending::Idle);
    assert_eq!(state.keybinds.len(), 2);
}

#[test]
fn undo_restores_previous_records() {
    // A snapshot push followed by a mutation, then undo: the store returns
    // to its exact pre-mutation content.
    let mut state = vim_state();
    state.push_to_undo_history();
    state.mutate_field(0, 1, "changed".to_string());
    assert_eq!(state.keybinds[0].description, "changed");
    state.undo();
    assert_eq!(state.keybinds[0].description, "move down");
    assert_eq!(state.keybinds[0].keys, "J");
    assert_eq!(state.keybinds.len(), 2);
    assert_eq!(state.status_message, "Undo successful.");
    assert!(state.dirty);
}

#[test]
fn undo_with_empty_history_reports() {
    let mut state = vim_state();
    key(&mut state, "U");
    assert_eq!(state.status_message, "Nothing to undo.");
    assert_eq!(state.keybinds.len(), 2);
}

#[test]
fn undo_history_evicts_oldest_at_bound() {
    let mut state = vim_state();
    for i in 0..25 {
        state.mutate_field(0, 1, format!("d{}", i));
        state.push_to_undo_history();
    }
    assert_eq!(state.undo_history.len(), 20);
    // The five oldest snapshots are gone: the oldest kept is the one taken
    // after the fifth mutation.
    assert_eq!(state.undo_history[0][0].description, "d5");
    assert_eq!(state.undo_history[19][0].description, "d24");
}

#[test]
fn new_row_below_enters_insert_on_chord_column() {
    // Two records, cursor at row 0, new-row-below: a blank record lands at
    // underlying index 1, the cursor follows, and Insert opens on the
    // chord column with the recorder armed.
    let mut state = vim_state();
    key(&mut state, "O");
    assert_eq!(state.keybinds.len(), 3);
    assert_eq!(state.keybinds[1].keys, "");
    assert_eq!(state.keybinds[1].description, "");
    assert_eq!(state.selected_cell, (1, 0));
    assert_eq!(state.mode, Mode::Insert);
    assert!(state.is_listening_for_keybind);
    assert!(state.ignore_next_input_frame);
    assert!(state.just_created_new_keybind);
}

#[test]
fn new_row_above_keeps_cursor() {
    let mut state = vim_state();
    key(&mut state, "J");
    shift_key(&mut state, "O");
    assert_eq!(state.keybinds.len(), 3);
    assert_eq!(state.keybinds[1].keys, "");
    assert_eq!(state.selected_cell, (1, 0));
    assert_eq!(state.mode, Mode::Insert);
}

#[test]
fn cancel_insert_removes_fresh_blank_row() {
    // Cancelling Insert on a freshly created row with both fields still
    // empty removes the row entirely.
    let mut state = vim_state();
    key(&mut state, "O");
    // The recorder ignores exactly the one frame after activation.
    key(&mut state, "X");
    key(&mut state, "Escape");
    assert_eq!(state.keybinds.len(), 2);
    assert_eq!(state.mode, Mode::Normal);
    assert!(!state.just_created_new_keybind);
}

#[test]
fn cancel_insert_keeps_fresh_row_with_text() {
    // Cancelling with one field already committed retains the row as it
    // was before the edit.
    let mut state = vim_state();
    key(&mut state, "O");
    // The first press is the ignored frame; the second is captured and
    // chains into the description column.
    key(&mut state, "X");
    key(&mut state, "X");
    assert_eq!(state.keybinds[1].keys, "X");
    assert_eq!(state.mode, Mode::Insert);
    assert!(!state.is_listening_for_keybind);
    assert_eq!(state.selected_cell, (1, 1));
    key(&mut state, "Escape");
    assert_eq!(state.keybinds.len(), 3);
    assert_eq!(state.keybinds[1].keys, "X");
    assert_eq!(state.keybinds[1].description, "");
    assert_eq!(state.mode, Mode::Normal);
}

#[test]
fn recorder_ignores_one_frame_and_modifier_keys() {
    let mut state = vim_state();
    key(&mut state, "I");
    assert!(state.is_listening_for_keybind);
    assert!(state.ignore_next_input_frame);
    // The frame right after activation is ignored.
    key(&mut state, "X");
    assert!(state.is_listening_for_keybind);
    assert!(!state.ignore_next_input_frame);
    assert_eq!(state.keybinds[0].keys, "J");
    // A key of the non-capturable class is never captured.
    key(&mut state, "F1");
    assert!(state.is_listening_for_keybind);
    key(&mut state, "Shift");
    assert!(state.is_listening_for_keybind);
    // A real key commits its canonical chord label at once.
    state.handle_key_down(
        &"K".to_string(),
        Mods { ctrl: true, alt: true, shift: false, cmd: false },
    );
    assert_eq!(state.keybinds[0].keys, "Ctrl+Alt+K");
    assert_eq!(state.mode, Mode::Normal);
    assert!(state.dirty);
}

#[test]
fn recorder_escape_cancels_capture() {
    let mut state = vim_state();
    key(&mut state, "I");
    key(&mut state, "X");
    key(&mut state, "Escape");
    assert_eq!(state.keybinds[0].keys, "J");
    assert_eq!(state.mode, Mode::Normal);
}

#[test]
fn edit_description_and_commit() {
    let mut state = vim_state();
    key(&mut state, "L");
    key(&mut state, "I");
    assert_eq!(state.mode, Mode::Insert);
    assert!(!state.is_listening_for_keybind);
    assert_eq!(state.temp_edit_buffer, "move down");
    text(&mut state, "!");
    key(&mut state, "Enter");
    assert_eq!(state.keybinds[0].description, "move down!");
    assert_eq!(state.mode, Mode::Normal);
    assert!(state.dirty);
}

#[test]
fn commit_of_identical_text_keeps_clean() {
    // An identical write is not flagged as a change: entering Insert (which
    // pushes a snapshot) and committing the buffer untouched leaves the
    // session clean.
    let mut state = vim_state();
    key(&mut state, "L");
    key(&mut state, "I");
    key(&mut state, "Enter");
    assert_eq!(state.keybinds[0].description, "move down");
    assert!(!state.dirty);
}

#[test]
fn snapshot_push_alone_keeps_clean() {
    // A snapshot push only records history; dirtiness follows actual
    // change to the store.
    let mut state = vim_state();
    state.push_to_undo_history();
    assert_eq!(state.undo_history.len(), 1);
    assert!(!state.dirty);
}

#[test]
fn cancelled_insert_leaves_session_clean() {
    // Entering Insert and cancelling changes nothing, so a quit afterwards
    // is not refused.
    let mut state = vim_state();
    key(&mut state, "I");
    key(&mut state, "X");
    key(&mut state, "Escape");
    assert!(!state.dirty);
    key(&mut state, "Colon");
    text(&mut state, "q");
    key(&mut state, "Enter");
    assert!(state.should_quit);
}

#[test]
fn new_group_command_switches_and_marks_dirty() {
    // `:new Terminal` with "Terminal" unknown: it becomes the active
    // group, the session is dirty, and the view is empty.
    let mut state = vim_state();
    key(&mut state, "Colon");
    assert_eq!(state.mode, Mode::Command);
    text(&mut state, "new Terminal");
    let save = key(&mut state, "Enter");
    assert!(!save);
    assert_eq!(state.current_application, "Terminal");
    assert!(state.dirty);
    assert_eq!(state.filtered_items.len(), 0);
    assert_eq!(state.mode, Mode::Normal);
    assert_eq!(state.status_message, "Created new app 'Terminal'.");
    assert!(state.all_applications.contains(&"Terminal".to_string()));
}

#[test]
fn new_group_duplicate_or_empty_is_refused() {
    let mut state = vim_state();
    key(&mut state, "Colon");
    text(&mut state, "new Vim");
    key(&mut state, "Enter");
    assert_eq!(state.status_message, "App name invalid or already exists.");
    assert_eq!(state.current_application, "Vim");
    key(&mut state, "Colon");
    text(&mut state, "new");
    key(&mut state, "Enter");
    assert_eq!(state.status_message, "App name invalid or already exists.");
}

#[test]
fn quit_refused_while_dirty() {
    // `:q` with unsaved changes: refused with a message, mode Normal,
    // dirty unchanged. Deleting a row is the unsaved change.
    let mut state = vim_state();
    key(&mut state, "D");
    key(&mut state, "D");
    assert!(state.dirty);
    key(&mut state, "Colon");
    text(&mut state, "q");
    key(&mut state, "Enter");
    assert!(!state.should_quit);
    assert_eq!(state.status_message, "Unsaved changes! Use :q! to force quit.");
    assert_eq!(state.mode, Mode::Normal);
    assert!(state.dirty);
    // `:q!` forces the quit.
    key(&mut state, "Colon");
    text(&mut state, "q!");
    key(&mut state, "Enter");
    assert!(state.should_quit);
}

#[test]
fn quit_allowed_when_clean() {
    let mut state = vim_state();
    key(&mut state, "Colon");
    text(&mut state, "q");
    key(&mut state, "Enter");
    assert!(state.should_quit);
}

#[test]
fn save_command_requests_save() {
    let mut state = vim_state();
    key(&mut state, "D");
    key(&mut state, "D");
    assert!(state.dirty);
    key(&mut state, "Colon");
    text(&mut state, "w");
    let save = key(&mut state, "Enter");
    assert!(save);
    assert!(!state.should_quit);
    state.save_finished(true);
    assert!(!state.dirty);
    assert_eq!(state.status_message, "Saved Vim successfully.");
}

#[test]
fn save_and_quit_command() {
    let mut state = vim_state();
    key(&mut state, "Colon");
    text(&mut state, "wq");
    let save = key(&mut state, "Enter");
    assert!(save);
    assert!(state.should_quit);
}

#[test]
fn save_failure_keeps_dirty() {
    let mut state = vim_state();
    key(&mut state, "D");
    key(&mut state, "D");
    state.save_finished(false);
    assert!(state.dirty);
    assert_eq!(state.status_message, "Error: Failed to save Vim.");
}

#[test]
fn unknown_command_reports() {
    let mut state = vim_state();
    key(&mut state, "Colon");
    text(&mut state, "frobnicate now");
    key(&mut state, "Enter");
    assert_eq!(state.status_message, "Not a command: frobnicate now");
    assert_eq!(state.mode, Mode::Normal);
    assert_eq!(state.command_buffer, "");
}

#[test]
fn help_command_opens_help() {
    let mut state = vim_state();
    key(&mut state, "Colon");
    text(&mut state, "help");
    key(&mut state, "Enter");
    assert_eq!(state.mode, Mode::Help);
    key(&mut state, "Escape");
    assert_eq!(state.mode, Mode::Normal);
}

#[test]
fn group_filter_dialog_selects_group() {
    let mut state = AppState::new(
        vec![
            group("Alpha", vec![entry("a", "1")]),
            group("Beta", vec![entry("b", "2"), entry("c", "3")]),
        ],
        Keymap::default(),
    );
    assert_eq!(state.current_application, "Alpha");
    key(&mut state, "Space");
    key(&mut state, "F");
    assert_eq!(state.mode, Mode::AppFilter);
    text(&mut state, "bet");
    assert_eq!(state.filtered_groups(), vec!["Beta".to_string()]);
    key(&mut state, "Enter");
    assert_eq!(state.mode, Mode::Normal);
    assert_eq!(state.current_application, "Beta");
    assert_eq!(state.filtered_items.len(), 2);
    assert_eq!(state.app_search_query, "");
}

#[test]
fn group_filter_arrows_move_selection() {
    let mut state = AppState::new(
        vec![
            group("Alpha", vec![entry("a", "1")]),
            group("Beta", vec![entry("b", "2")]),
            group("Gamma", vec![entry("c", "3")]),
        ],
        Keymap::default(),
    );
    key(&mut state, "Space");
    key(&mut state, "F");
    key(&mut state, "ArrowDown");
    key(&mut state, "ArrowDown");
    key(&mut state, "ArrowDown");
    assert_eq!(state.app_filter_selected_index, 2);
    key(&mut state, "ArrowUp");
    assert_eq!(state.app_filter_selected_index, 1);
    key(&mut state, "Enter");
    assert_eq!(state.current_application, "Beta");
}

#[test]
fn import_merge_skips_exact_duplicates() {
    let mut state = vim_state();
    state.import_group(
        "Vim".to_string(),
        vec![entry("J", "move down"), entry("Z", "fold")],
        false,
    );
    assert_eq!(state.keybinds.len(), 3);
    assert_eq!(state.keybinds[2].keys, "Z");
    assert_eq!(state.status_message, "Import successful.");
    assert!(state.dirty);
}

#[test]
fn import_replace_drops_old_group_records() {
    let mut state = vim_state();
    state.import_group("Vim".to_string(), vec![entry("Z", "fold")], true);
    assert_eq!(state.keybinds.len(), 1);
    assert_eq!(state.keybinds[0].keys, "Z");
    // The import pushed a snapshot first, so undo restores the old records.
    state.undo();
    assert_eq!(state.keybinds.len(), 2);
    assert_eq!(state.keybinds[0].keys, "J");
}

#[test]
fn import_makes_new_group_known() {
    let mut state = vim_state();
    state.import_group("Tmux".to_string(), vec![entry("C-b", "prefix")], false);
    assert!(state.all_applications.contains(&"Tmux".to_string()));
    assert_eq!(state.keybinds.len(), 3);
}

#[test]
fn export_collects_group_entries_in_order() {
    let state = AppState::new(
        vec![
            group("Vim", vec![entry("J", "down"), entry("K", "up")]),
            group("Tmux", vec![entry("C-b", "prefix")]),
        ],
        Keymap::default(),
    );
    let entries = state.entries_for_group(&"Vim".to_string());
    assert_eq!(entries.len(), 2);
    assert_eq!(entries[0].keys, "J");
    assert_eq!(entries[0].description, "down");
    assert_eq!(entries[1].keys, "K");
    let none = state.entries_for_group(&"Nope".to_string());
    assert_eq!(none.len(), 0);
}

#[test]
fn known_groups_are_sorted() {
    let state = AppState::new(
        vec![
            group("Zed", vec![entry("a", "1")]),
            group("Alpha", vec![entry("b", "2")]),
            group("Muxer", vec![entry("c", "3")]),
        ],
        Keymap::default(),
    );
    assert_eq!(
        state.get_all_applications(),
        vec!["Alpha".to_string(), "Muxer".to_string(), "Zed".to_string()]
    );
}

#[test]
fn store_operations() {
    let mut state = vim_state();
    let kb = ctrlset::records::Keybind {
        keys: "X".to_string(),
        description: "cut".to_string(),
        application: "Vim".to_string(),
    };
    state.insert_record(kb, 1);
    assert_eq!(state.keybinds.len(), 3);
    assert_eq!(state.keybinds[1].keys, "X");
    assert_eq!(state.filtered_items.len(), 3);
    let removed = state.remove_record(1).unwrap();
    assert_eq!(removed.keys, "X");
    assert_eq!(state.keybinds.len(), 2);
    assert!(state.remove_record(9).is_none());
    state.mutate_field(0, 0, "JJ".to_string());
    assert_eq!(state.keybinds[0].keys, "JJ");
    state.add_group("Extra".to_string());
    assert!(state.all_applications.contains(&"Extra".to_string()));
    state.add_group("Extra".to_string());
    assert_eq!(
        state.all_applications.iter().filter(|g| g.as_str() == "Extra").count(),
        1
    );
}

#[test]
fn insert_is_noop_on_empty_view() {
    let mut state = AppState::new(vec![], Keymap::default());
    key(&mut state, "I");
    assert_eq!(state.mode, Mode::Normal);
    assert!(!state.is_listening_for_keybind);
}

#[test]
fn set_status_reports_collaborator_errors() {
    let mut state = vim_state();
    state.set_status("Error: Failed to parse JSON file.".to_string());
    assert_eq!(state.status_message, "Error: Failed to parse JSON file.");
}
