use vstd::prelude::*;
use crate::capture::{Mods, no_mods, only_shift, uncapturable, is_uncapturable, chord_label,
    build_chord_label};
use crate::command::{Command, CommandV, parse_spec, parse_command};
use crate::fuzzy::{fuzzy_score, fuzzy_score_of};
use crate::groups::{sort_lex, contains_name, sort_names};
use crate::keymap::{Keymap, KeymapV, eff_key, effective_key, matches_any_spec, matches_any};
use crate::session::{AppState, SessionV, Mode, Pending, refiltered, push_undo_step, undo_step,
    enter_insert_step, exit_insert_step, new_row_step};
use crate::text::clean_query;

verus! {

/// Control alone held.
pub open spec fn only_ctrl() -> Mods {
    Mods { ctrl: true, alt: false, shift: false, cmd: false }
}

/// A leader chord resolving: the pending state always clears, and a
/// registered follow key opens its dialog; a stray key is consumed.
pub open spec fn leader_step(s: SessionV, key: Seq<char>, mods: Mods) -> SessionV {
    let km = s.keymap;
    let s1 = SessionV { pending: Pending::Idle, ..s };
    if mods == no_mods() && key == eff_key(km.app_filter, "F"@) {
        SessionV { mode: Mode::AppFilter, ..s1 }
    } else if mods == no_mods() && key == eff_key(km.export_menu, "E"@) {
        SessionV { mode: Mode::Export, ..s1 }
    } else if mods == no_mods() && key == eff_key(km.import_menu, "I"@) {
        SessionV { mode: Mode::Import, ..s1 }
    } else {
        s1
    }
}

/// The tail of a deletion: a snapshot pushed first, the records replaced,
/// the session marked dirty, the count reported, and the view refreshed.
pub open spec fn delete_finish(s: SessionV, recs: Seq<crate::records::KeybindV>, n: int) -> SessionV {
    let s1 = push_undo_step(s);
    refiltered(
        SessionV {
            keybinds: recs,
            dirty: true,
            status_message: if n == 1 {
                "1 keybind(s) deleted."@
            } else {
                "2 keybind(s) deleted."@
            },
            ..s1
        },
    )
}

/// Deleting the selected row.
pub open spec fn delete_current(s: SessionV) -> SessionV {
    if 0 <= s.sel_row < s.filtered_items.len() {
        delete_finish(s, s.keybinds.remove(s.filtered_items[s.sel_row].original_index), 1)
    } else {
        s
    }
}

/// Deleting the selected row and the row below it.
pub open spec fn delete_current_and_next(s: SessionV) -> SessionV {
    if 0 <= s.sel_row < s.filtered_items.len() {
        let i1 = s.filtered_items[s.sel_row].original_index;
        if s.sel_row + 1 < s.filtered_items.len() {
            let i2 = s.filtered_items[s.sel_row + 1].original_index;
            delete_finish(s, s.keybinds.remove(i2).remove(i1), 2)
        } else {
            delete_finish(s, s.keybinds.remove(i1), 1)
        }
    } else {
        s
    }
}

/// Deleting the selected row and the row above it.
pub open spec fn delete_current_and_prev(s: SessionV) -> SessionV {
    if 0 <= s.sel_row < s.filtered_items.len() {
        let i1 = s.filtered_items[s.sel_row].original_index;
        if s.sel_row > 0 {
            let i0 = s.filtered_items[s.sel_row - 1].original_index;
            delete_finish(s, s.keybinds.remove(i1).remove(i0), 2)
        } else {
            delete_finish(s, s.keybinds.remove(i1), 1)
        }
    } else {
        s
    }
}

/// The deletion a key denotes while the delete chord is pending.
#[derive(Clone, Copy, PartialEq, Eq, Structural, Debug)]
pub enum DeleteAction {
    Current,
    CurrentAndNext,
    CurrentAndPrev,
    NoDelete,
}

/// Which deletion a key produces while the delete chord is pending.
pub open spec fn delete_action_of(km: KeymapV, key: Seq<char>, mods: Mods) -> DeleteAction {
    if mods == no_mods() && key == eff_key(km.delete_leader, "D"@) {
        DeleteAction::Current
    } else if mods == no_mods() && key == eff_key(km.down, "J"@) {
        DeleteAction::CurrentAndNext
    } else if mods == no_mods() && key == eff_key(km.up, "K"@) {
        DeleteAction::CurrentAndPrev
    } else {
        DeleteAction::NoDelete
    }
}

/// A delete chord resolving: the pending state always clears; the delete
/// key again removes the selected row, the down or up key removes it and
/// its neighbour; a stray key is consumed.
pub open spec fn delete_step(s: SessionV, key: Seq<char>, mods: Mods) -> SessionV {
    let s1 = SessionV { pending: Pending::Idle, ..s };
    match delete_action_of(s.keymap, key, mods) {
        DeleteAction::Current => delete_current(s1),
        DeleteAction::CurrentAndNext => delete_current_and_next(s1),
        DeleteAction::CurrentAndPrev => delete_current_and_prev(s1),
        DeleteAction::NoDelete => s1,
    }
}

/// Resolves which deletion a key produces while the delete chord is
/// pending.
pub fn resolve_delete_action(km: &Keymap, key: &String, mods: Mods) -> (a: DeleteAction)
    ensures
        a == delete_action_of(km@, key@, mods),
{
    let none = Mods::none();
    if mods == none && *key == effective_key(&km.delete_leader, "D") {
        return DeleteAction::Current;
    }
    if mods == none && *key == effective_key(&km.down, "J") {
        return DeleteAction::CurrentAndNext;
    }
    if mods == none && *key == effective_key(&km.up, "K") {
        return DeleteAction::CurrentAndPrev;
    }
    DeleteAction::NoDelete
}

/// The logical action a key denotes in Normal mode with nothing pending.
#[derive(Clone, Copy, PartialEq, Eq, Structural, Debug)]
pub enum NormalAction {
    ArmLeader,
    ArmDelete,
    GotoBottom,
    ArmDoubleTap,
    MoveDown,
    MoveUp,
    MoveRight,
    MoveLeft,
    EnterInsert,
    EnterSearch,
    EnterCommand,
    NewBelow,
    NewAbove,
    UndoEdit,
    NoAction,
}

/// Which logical action a key produces under a mapping, in the fixed
/// binding precedence; an unbound key produces none.
pub open spec fn normal_action_of(km: KeymapV, key: Seq<char>, mods: Mods) -> NormalAction {
    if mods == no_mods() && key == eff_key(km.leader, "Space"@) {
        NormalAction::ArmLeader
    } else if mods == no_mods() && key == eff_key(km.delete_leader, "D"@) {
        NormalAction::ArmDelete
    } else if mods == only_shift() && key == eff_key(km.goto_bottom, "G"@) {
        NormalAction::GotoBottom
    } else if km.goto_top == "G"@ && mods == no_mods() && key == "G"@ {
        NormalAction::ArmDoubleTap
    } else if mods == no_mods() && key == eff_key(km.down, "J"@) {
        NormalAction::MoveDown
    } else if mods == no_mods() && key == eff_key(km.up, "K"@) {
        NormalAction::MoveUp
    } else if mods == no_mods() && matches_any_spec(km.right, "L"@, key) {
        NormalAction::MoveRight
    } else if mods == no_mods() && matches_any_spec(km.left, "H"@, key) {
        NormalAction::MoveLeft
    } else if mods == no_mods() && key == eff_key(km.insert_mode, "I"@) {
        NormalAction::EnterInsert
    } else if mods == no_mods() && key == eff_key(km.search_mode, "Slash"@) {
        NormalAction::EnterSearch
    } else if (mods == only_shift() && key == "Semicolon"@) || (mods == no_mods() && key
        == eff_key(km.command_mode, "Colon"@)) {
        NormalAction::EnterCommand
    } else if mods == no_mods() && key == eff_key(km.new_line_below, "O"@) {
        NormalAction::NewBelow
    } else if mods == only_shift() && key == eff_key(km.new_line_above, "O"@) {
        NormalAction::NewAbove
    } else if mods == no_mods() && key == eff_key(km.undo, "U"@) {
        NormalAction::UndoEdit
    } else {
        NormalAction::NoAction
    }
}

/// What each Normal-mode action does: arming a pending sequence, saturating
/// cursor movement, a jump, or a transition into Insert, Search, Command, a
/// new row, or an undo.
pub open spec fn apply_normal_action(s: SessionV, a: NormalAction) -> SessionV {
    let n = s.filtered_items.len() as int;
    match a {
        NormalAction::ArmLeader => SessionV { pending: Pending::Leader, ..s },
        NormalAction::ArmDelete => SessionV { pending: Pending::DeleteLeader, ..s },
        NormalAction::GotoBottom => SessionV {
            sel_row: if n == 0 {
                0int
            } else {
                n - 1
            },
            ..s
        },
        NormalAction::ArmDoubleTap => SessionV { pending: Pending::DoubleTap, ..s },
        NormalAction::MoveDown => SessionV {
            sel_row: if n > 0 {
                if s.sel_row + 1 < n {
                    s.sel_row + 1
                } else {
                    n - 1
                }
            } else {
                s.sel_row
            },
            ..s
        },
        NormalAction::MoveUp => SessionV {
            sel_row: if s.sel_row > 0 {
                s.sel_row - 1
            } else {
                0int
            },
            ..s
        },
        NormalAction::MoveRight => SessionV {
            sel_col: if s.sel_col + 1 < 1 {
                s.sel_col + 1
            } else {
                1int
            },
            ..s
        },
        NormalAction::MoveLeft => SessionV {
            sel_col: if s.sel_col > 0 {
                s.sel_col - 1
            } else {
                0int
            },
            ..s
        },
        NormalAction::EnterInsert => if s.just_created_new_keybind {
            enter_insert_step(s)
        } else {
            enter_insert_step(push_undo_step(s))
        },
        NormalAction::EnterSearch => refiltered(
            SessionV { mode: Mode::Search, search_query: Seq::empty(), ..s },
        ),
        NormalAction::EnterCommand => SessionV {
            mode: Mode::Command,
            command_buffer: Seq::empty(),
            ..s
        },
        NormalAction::NewBelow => new_row_step(s, false),
        NormalAction::NewAbove => new_row_step(s, true),
        NormalAction::UndoEdit => undo_step(s),
        NormalAction::NoAction => s,
    }
}

/// A key in Normal mode with nothing pending: the action the key produces,
/// applied.
pub open spec fn normal_dispatch(s: SessionV, key: Seq<char>, mods: Mods) -> SessionV {
    apply_normal_action(s, normal_action_of(s.keymap, key, mods))
}

/// Resolves which logical action a key produces under the mapping.
pub fn resolve_normal_action(km: &Keymap, key: &String, mods: Mods) -> (a: NormalAction)
    ensures
        a == normal_action_of(km@, key@, mods),
{
    let none = Mods::none();
    let shift = Mods::shift_only();
    if mods == none && *key == effective_key(&km.leader, "Space") {
        return NormalAction::ArmLeader;
    }
    if mods == none && *key == effective_key(&km.delete_leader, "D") {
        return NormalAction::ArmDelete;
    }
    if mods == shift && *key == effective_key(&km.goto_bottom, "G") {
        return NormalAction::GotoBottom;
    }
    if km.goto_top == "G".to_owned() && mods == none && *key == "G".to_owned() {
        return NormalAction::ArmDoubleTap;
    }
    if mods == none && *key == effective_key(&km.down, "J") {
        return NormalAction::MoveDown;
    }
    if mods == none && *key == effective_key(&km.up, "K") {
        return NormalAction::MoveUp;
    }
    if mods == none && matches_any(&km.right, "L", key) {
        return NormalAction::MoveRight;
    }
    if mods == none && matches_any(&km.left, "H", key) {
        return NormalAction::MoveLeft;
    }
    if mods == none && *key == effective_key(&km.insert_mode, "I") {
        return NormalAction::EnterInsert;
    }
    if mods == none && *key == effective_key(&km.search_mode, "Slash") {
        return NormalAction::EnterSearch;
    }
    if (mods == shift && *key == "Semicolon".to_owned()) || (mods == none && *key
        == effective_key(&km.command_mode, "Colon")) {
        return NormalAction::EnterCommand;
    }
    if mods == none && *key == effective_key(&km.new_line_below, "O") {
        return NormalAction::NewBelow;
    }
    if mods == shift && *key == effective_key(&km.new_line_above, "O") {
        return NormalAction::NewAbove;
    }
    if mods == none && *key == effective_key(&km.undo, "U") {
        return NormalAction::UndoEdit;
    }
    NormalAction::NoAction
}

/// A key in Normal mode: a pending sequence resolves first; the second
/// press of the goto-top pair jumps to the top, any other key cancels the
/// pair and is handled normally.
pub open spec fn normal_step(s: SessionV, key: Seq<char>, mods: Mods) -> SessionV {
    if s.pending == Pending::Leader {
        leader_step(s, key, mods)
    } else if s.pending == Pending::DeleteLeader {
        delete_step(s, key, mods)
    } else if s.pending == Pending::DoubleTap {
        let s1 = SessionV { pending: Pending::Idle, ..s };
        if s.keymap.goto_top == "G"@ && mods == no_mods() && key == "G"@ {
            SessionV { sel_row: 0, ..s1 }
        } else {
            normal_dispatch(s1, key, mods)
        }
    } else {
        normal_dispatch(s, key, mods)
    }
}

/// A key in Insert mode while typing a description: Enter commits, Escape
/// or Control+OpenBracket cancels, Backspace shortens the edit buffer.
pub open spec fn insert_key_step(s: SessionV, key: Seq<char>, mods: Mods) -> SessionV {
    if (mods == no_mods() && key == "Escape"@) || (mods == only_ctrl() && key == "OpenBracket"@) {
        exit_insert_step(s, false)
    } else if mods == no_mods() && key == "Enter"@ {
        exit_insert_step(s, true)
    } else if mods == no_mods() && key == "Backspace"@ {
        if s.temp_edit_buffer.len() > 0 {
            SessionV { temp_edit_buffer: s.temp_edit_buffer.drop_last(), ..s }
        } else {
            s
        }
    } else {
        s
    }
}

/// A key while the recorder listens: the one input frame after activation
/// is ignored; Escape cancels the capture; a pure modifier or a key of the
/// non-capturable class is never captured; any other key commits its
/// canonical chord label at once.
pub open spec fn capture_step(s: SessionV, key: Seq<char>, mods: Mods) -> SessionV {
    if s.ignore_next_input_frame {
        SessionV { ignore_next_input_frame: false, ..s }
    } else if key == "Escape"@ {
        exit_insert_step(s, false)
    } else if uncapturable(key) {
        s
    } else {
        exit_insert_step(SessionV { temp_edit_buffer: chord_label(key, mods), ..s }, true)
    }
}

/// A key in Search mode: Escape clears the query and leaves, Enter leaves
/// with the filter kept, Backspace on an empty query leaves, otherwise it
/// shortens the query; every change refreshes the view.
pub open spec fn search_key_step(s: SessionV, key: Seq<char>) -> SessionV {
    if key == "Escape"@ {
        refiltered(SessionV { mode: Mode::Normal, search_query: Seq::empty(), ..s })
    } else if key == "Enter"@ {
        SessionV { mode: Mode::Normal, ..s }
    } else if key == "Backspace"@ {
        if s.search_query.len() == 0 {
            refiltered(SessionV { mode: Mode::Normal, ..s })
        } else {
            refiltered(SessionV { search_query: s.search_query.drop_last(), ..s })
        }
    } else {
        s
    }
}

/// What a parsed command does to the session: the buffer always clears and
/// the mode returns to Normal, except `help` which opens the Help dialog;
/// `q` is refused with a message while there are unsaved changes; a new
/// group name must be non-empty and unknown.
pub open spec fn command_apply(s: SessionV) -> SessionV {
    let c = parse_spec(s.command_buffer);
    match c {
        CommandV::Save => SessionV { mode: Mode::Normal, command_buffer: Seq::empty(), ..s },
        CommandV::SaveQuit => SessionV {
            mode: Mode::Normal,
            command_buffer: Seq::empty(),
            should_quit: true,
            ..s
        },
        CommandV::Quit => if s.dirty {
            SessionV {
                mode: Mode::Normal,
                command_buffer: Seq::empty(),
                status_message: "Unsaved changes! Use :q! to force quit."@,
                ..s
            }
        } else {
            SessionV {
                mode: Mode::Normal,
                command_buffer: Seq::empty(),
                should_quit: true,
                ..s
            }
        },
        CommandV::ForceQuit => SessionV {
            mode: Mode::Normal,
            command_buffer: Seq::empty(),
            should_quit: true,
            ..s
        },
        CommandV::ShowHelp => SessionV { mode: Mode::Help, command_buffer: Seq::empty(), ..s },
        CommandV::NewGroup(name) => if name.len() > 0 && !s.all_applications.contains(name) {
            refiltered(
                SessionV {
                    mode: Mode::Normal,
                    command_buffer: Seq::empty(),
                    all_applications: s.all_applications.push(name),
                    current_application: name,
                    dirty: true,
                    status_message: "Created new app '"@ + name + "'."@,
                    ..s
                },
            )
        } else {
            SessionV {
                mode: Mode::Normal,
                command_buffer: Seq::empty(),
                status_message: "App name invalid or already exists."@,
                ..s
            }
        },
        CommandV::Unknown => SessionV {
            mode: Mode::Normal,
            command_buffer: Seq::empty(),
            status_message: "Not a command: "@ + s.command_buffer,
            ..s
        },
    }
}

/// Whether the buffered command asks the persistence collaborator to save
/// the active group.
pub open spec fn command_save_requested(s: SessionV) -> bool {
    parse_spec(s.command_buffer) == CommandV::Save || parse_spec(s.command_buffer)
        == CommandV::SaveQuit
}

/// Law: `q` while there are unsaved changes is refused: the quit flag and
/// the dirty flag are untouched, a message says so, the mode returns to
/// Normal with the buffer cleared, and neither the store nor the history
/// changes.
pub proof fn lemma_quit_refused_while_dirty(s: SessionV)
    requires
        parse_spec(s.command_buffer) == CommandV::Quit,
        s.dirty,
    ensures
        command_apply(s).should_quit == s.should_quit,
        command_apply(s).status_message == "Unsaved changes! Use :q! to force quit."@,
        command_apply(s).mode == Mode::Normal,
        command_apply(s).dirty,
        command_apply(s).command_buffer == Seq::<char>::empty(),
        command_apply(s).keybinds == s.keybinds,
        command_apply(s).undo_history == s.undo_history,
{
}

/// Law: a `new` command with a non-empty, unknown group name makes that
/// group active and known, marks the session dirty, returns to Normal with
/// the buffer cleared, and leaves the store alone; where no record belongs
/// to the new group, the refreshed filtered view is empty.
pub proof fn lemma_new_group_applies(s: SessionV, name: Seq<char>)
    requires
        parse_spec(s.command_buffer) == CommandV::NewGroup(name),
        name.len() > 0,
        !s.all_applications.contains(name),
        forall|i: int| 0 <= i < s.keybinds.len() ==> (#[trigger] s.keybinds[i].application) != name,
    ensures
        command_apply(s).current_application == name,
        command_apply(s).all_applications == s.all_applications.push(name),
        command_apply(s).dirty,
        command_apply(s).mode == Mode::Normal,
        command_apply(s).command_buffer == Seq::<char>::empty(),
        command_apply(s).keybinds == s.keybinds,
        command_apply(s).filtered_items.len() == 0,
{
    let t = command_apply(s);
    crate::filterview::lemma_filtered_view_structure(
        s.keybinds,
        name,
        clean_query(s.search_query),
    );
    if t.filtered_items.len() > 0 {
        let it = t.filtered_items[0];
        assert(crate::filterview::row_passes(
            s.keybinds[it.original_index],
            name,
            clean_query(s.search_query),
        ));
        assert(false);
    }
}

/// A key in Command mode: Escape clears and leaves, Enter parses and
/// applies the buffer, Backspace shortens it.
pub open spec fn command_key_step(s: SessionV, key: Seq<char>) -> SessionV {
    if key == "Escape"@ {
        SessionV { mode: Mode::Normal, command_buffer: Seq::empty(), ..s }
    } else if key == "Enter"@ {
        command_apply(s)
    } else if key == "Backspace"@ {
        if s.command_buffer.len() > 0 {
            SessionV { command_buffer: s.command_buffer.drop_last(), ..s }
        } else {
            s
        }
    } else {
        s
    }
}

/// Whether a group belongs in the group-filter list: the dialog's query is
/// empty or fuzzy-matches the name.
pub open spec fn group_passes(g: Seq<char>, q: Seq<char>) -> bool {
    fuzzy_score_of(g, q) is Some || q.len() == 0
}

/// The matching groups of a sorted list, in order.
pub open spec fn filter_groups(sorted: Seq<Seq<char>>, q: Seq<char>) -> Seq<Seq<char>>
    decreases sorted.len(),
{
    if sorted.len() == 0 {
        Seq::empty()
    } else {
        filter_groups(sorted.drop_last(), q) + (if group_passes(sorted.last(), q) {
            seq![sorted.last()]
        } else {
            Seq::<Seq<char>>::empty()
        })
    }
}

/// The group-filter dialog's list: the known groups sorted, then filtered
/// by the dialog's query.
pub open spec fn filtered_groups_spec(groups: Seq<Seq<char>>, q: Seq<char>) -> Seq<Seq<char>> {
    filter_groups(sort_lex(groups), q)
}

/// A key in the group-filter dialog: Escape closes it, the arrows move the
/// selection within the list, Enter makes the selected group active and
/// closes, Backspace shortens the dialog's query and resets the selection.
pub open spec fn app_filter_key_step(s: SessionV, key: Seq<char>) -> SessionV {
    let fg = filtered_groups_spec(s.all_applications, s.app_search_query);
    if key == "Escape"@ {
        SessionV { mode: Mode::Normal, app_search_query: Seq::empty(), ..s }
    } else if key == "ArrowDown"@ {
        if fg.len() > 0 {
            SessionV {
                app_filter_selected_index: if s.app_filter_selected_index + 1 < fg.len() {
                    s.app_filter_selected_index + 1
                } else {
                    fg.len() - 1
                },
                ..s
            }
        } else {
            s
        }
    } else if key == "ArrowUp"@ {
        if fg.len() > 0 {
            SessionV {
                app_filter_selected_index: if s.app_filter_selected_index > 0 {
                    s.app_filter_selected_index - 1
                } else {
                    0int
                },
                ..s
            }
        } else {
            s
        }
    } else if key == "Enter"@ {
        if fg.len() > 0 {
            if 0 <= s.app_filter_selected_index < fg.len() {
                refiltered(
                    SessionV {
                        mode: Mode::Normal,
                        app_search_query: Seq::empty(),
                        current_application: fg[s.app_filter_selected_index],
                        ..s
                    },
                )
            } else {
                SessionV { mode: Mode::Normal, app_search_query: Seq::empty(), ..s }
            }
        } else {
            s
        }
    } else if key == "Backspace"@ {
        if s.app_search_query.len() > 0 {
            SessionV {
                app_search_query: s.app_search_query.drop_last(),
                app_filter_selected_index: 0,
                ..s
            }
        } else {
            s
        }
    } else {
        s
    }
}

/// A key in the Export, Import or Help dialog: Escape closes it.
pub open spec fn dialog_key_step(s: SessionV, key: Seq<char>) -> SessionV {
    if key == "Escape"@ {
        SessionV { mode: Mode::Normal, ..s }
    } else {
        s
    }
}

/// One key-down event, dispatched by the active mode; the recorder, while
/// listening, sees every key first.
pub open spec fn key_down_step(s: SessionV, key: Seq<char>, mods: Mods) -> SessionV {
    if s.is_listening_for_keybind {
        capture_step(s, key, mods)
    } else {
        match s.mode {
            Mode::Normal => normal_step(s, key, mods),
            Mode::Insert => insert_key_step(s, key, mods),
            Mode::Search => search_key_step(s, key),
            Mode::Command => command_key_step(s, key),
            Mode::AppFilter => app_filter_key_step(s, key),
            Mode::Export => dialog_key_step(s, key),
            Mode::Import => dialog_key_step(s, key),
            Mode::Help => dialog_key_step(s, key),
        }
    }
}

/// Whether this key-down event asks for a save of the active group.
pub open spec fn key_down_save_requested(s: SessionV, key: Seq<char>, mods: Mods) -> bool {
    &&& !s.is_listening_for_keybind
    &&& s.mode == Mode::Command
    &&& key == "Enter"@
    &&& command_save_requested(s)
}

/// One text-input event: it feeds the buffer the active mode owns (search
/// query, command line, edit buffer, or the group dialog's query) and
/// refreshes what depends on it; the recorder ignores text.
pub open spec fn text_input_step(s: SessionV, text: Seq<char>) -> SessionV {
    if s.is_listening_for_keybind {
        s
    } else {
        match s.mode {
            Mode::Search => refiltered(SessionV { search_query: s.search_query + text, ..s }),
            Mode::Command => SessionV { command_buffer: s.command_buffer + text, ..s },
            Mode::Insert => SessionV { temp_edit_buffer: s.temp_edit_buffer + text, ..s },
            Mode::AppFilter => SessionV {
                app_search_query: s.app_search_query + text,
                app_filter_selected_index: 0,
                ..s
            },
            _ => s,
        }
    }
}

/// Every entry of the group-filter list is a known group.
proof fn lemma_filter_groups_subset(sorted: Seq<Seq<char>>, q: Seq<char>)
    ensures
        forall|i: int|
            0 <= i < filter_groups(sorted, q).len() ==> sorted.contains(
                #[trigger] filter_groups(sorted, q)[i],
            ),
    decreases sorted.len(),
{
    if sorted.len() > 0 {
        lemma_filter_groups_subset(sorted.drop_last(), q);
        let f = filter_groups(sorted, q);
        let fp = filter_groups(sorted.drop_last(), q);
        assert forall|i: int| 0 <= i < f.len() implies sorted.contains(#[trigger] f[i]) by {
            if i < fp.len() {
                assert(f[i] == fp[i]);
                let k = choose|k: int|
                    0 <= k < sorted.drop_last().len() && sorted.drop_last()[k] == fp[i];
                assert(sorted[k] == fp[i]);
            } else {
                assert(f[i] == sorted.last());
                assert(sorted[sorted.len() - 1] == sorted.last());
            }
        }
    }
}

/// Every entry of the group-filter list is a known group.
proof fn lemma_filtered_groups_members(groups: Seq<Seq<char>>, q: Seq<char>)
    ensures
        forall|i: int|
            0 <= i < filtered_groups_spec(groups, q).len() ==> groups.contains(
                #[trigger] filtered_groups_spec(groups, q)[i],
            ),
{
    broadcast use vstd::seq_lib::group_to_multiset_ensures;

    lemma_filter_groups_subset(sort_lex(groups), q);
    crate::groups::lemma_sort_lex_ensures(groups);
    assert forall|i: int|
        0 <= i < filtered_groups_spec(groups, q).len() implies groups.contains(
        #[trigger] filtered_groups_spec(groups, q)[i],
    ) by {
        let x = filtered_groups_spec(groups, q)[i];
        assert(sort_lex(groups).contains(x));
        assert(sort_lex(groups).to_multiset().count(x) > 0);
        assert(groups.to_multiset().count(x) > 0);
    }
}

impl AppState {
    /// The group-filter dialog's list: the known groups, sorted, that the
    /// dialog's query fuzzy-matches (or all of them on an empty query).
    pub fn filtered_groups(&self) -> (r: Vec<String>)
        ensures
            r.deep_view() == filtered_groups_spec(self@.all_applications, self@.app_search_query),
    {
        let sorted = sort_names(&self.all_applications);
        let ghost sv = sorted.deep_view();
        let q_empty = self.app_search_query.as_str().is_empty();
        let mut r: Vec<String> = Vec::new();
        let mut i: usize = 0;
        proof {
            assert(sv.take(0) =~= Seq::<Seq<char>>::empty());
        }
        while i < sorted.len()
            invariant
                i <= sv.len(),
                sv == sorted.deep_view(),
                q_empty == (self.app_search_query@.len() == 0),
                r.deep_view() == filter_groups(sv.take(i as int), self@.app_search_query),
            decreases sv.len() - i,
        {
            proof {
                assert(sv.take(i + 1).drop_last() =~= sv.take(i as int));
                assert(sv.take(i + 1).last() == sv[i as int]);
                assert(sv[i as int] == sorted@[i as int]@);
            }
            let keep = match fuzzy_score(sorted[i].as_str(), self.app_search_query.as_str()) {
                Option::Some(_) => true,
                Option::None => q_empty,
            };
            if keep {
                let ghost pre = r.deep_view();
                r.push(sorted[i].clone());
                proof {
                    assert(r.deep_view() =~~= pre.push(sv[i as int]));
                    assert(r.deep_view() =~= filter_groups(sv.take(i + 1), self@.app_search_query));
                }
            }
            i = i + 1;
        }
        proof {
            assert(sv.take(sv.len() as int) =~= sv);
        }
        r
    }

    /// Handles one key in the Export, Import or Help dialog.
    pub fn dialog_key(&mut self, key: &String)
        requires
            old(self)@.wf(),
        ensures
            final(self)@ == dialog_key_step(old(self)@, key@),
            final(self)@.wf(),
    {
        if *key == "Escape".to_owned() {
            self.mode = Mode::Normal;
        }
        assert(self@ == dialog_key_step(old(self)@, key@));
    }

    /// Handles one key in Search mode.
    pub fn search_key(&mut self, key: &String)
        requires
            old(self)@.wf(),
        ensures
            final(self)@ == search_key_step(old(self)@, key@),
            final(self)@.wf(),
    {
        if *key == "Escape".to_owned() {
            self.mode = Mode::Normal;
            self.search_query = String::new();
            self.refilter();
            return;
        }
        if *key == "Enter".to_owned() {
            self.mode = Mode::Normal;
            return;
        }
        if *key == "Backspace".to_owned() {
            let n = self.search_query.as_str().unicode_len();
            if n == 0 {
                self.mode = Mode::Normal;
                self.refilter();
            } else {
                let shorter = self.search_query.as_str().substring_char(0, n - 1).to_owned();
                self.search_query = shorter;
                proof {
                    assert(self@.search_query =~= old(self)@.search_query.drop_last());
                    assert(self@ == (SessionV {
                        search_query: old(self)@.search_query.drop_last(),
                        ..old(self)@
                    }));
                }
                self.refilter();
            }
            return;
        }
        assert(self@ == search_key_step(old(self)@, key@));
    }

    /// Parses and applies the command buffer; reports whether a save of the
    /// active group was requested.
    #[verifier::rlimit(100)]
    #[verifier::spinoff_prover]
    pub fn execute_command(&mut self) -> (save: bool)
        requires
            old(self)@.wf(),
        ensures
            final(self)@ == command_apply(old(self)@),
            final(self)@.wf(),
            save == command_save_requested(old(self)@),
    {
        let ghost s = old(self)@;
        let cmd = parse_command(self.command_buffer.as_str());
        match cmd {
            Command::Save => {
                self.mode = Mode::Normal;
                self.command_buffer = String::new();
                assert(self@ == command_apply(s));
                true
            },
            Command::SaveQuit => {
                self.should_quit = true;
                self.mode = Mode::Normal;
                self.command_buffer = String::new();
                assert(self@ == command_apply(s));
                true
            },
            Command::Quit => {
                if self.dirty {
                    self.status_message = "Unsaved changes! Use :q! to force quit.".to_owned();
                } else {
                    self.should_quit = true;
                }
                self.mode = Mode::Normal;
                self.command_buffer = String::new();
                assert(self@ == command_apply(s));
                false
            },
            Command::ForceQuit => {
                self.should_quit = true;
                self.mode = Mode::Normal;
                self.command_buffer = String::new();
                assert(self@ == command_apply(s));
                false
            },
            Command::ShowHelp => {
                self.mode = Mode::Help;
                self.command_buffer = String::new();
                assert(self@ == command_apply(s));
                false
            },
            Command::NewGroup(name) => {
                assert(parse_spec(s.command_buffer) == CommandV::NewGroup(name@));
                if !name.as_str().is_empty() && !contains_name(&self.all_applications, &name) {
                    let ghost pre_groups = self@.all_applications;
                    let ghost namev = name@;
                    let mut msg = "Created new app '".to_owned();
                    msg.append(name.as_str());
                    msg.append("'.");
                    self.all_applications.push(name.clone());
                    proof {
                        assert(self@.all_applications =~~= pre_groups.push(namev));
                    }
                    self.current_application = name;
                    self.mode = Mode::Normal;
                    self.command_buffer = String::new();
                    self.dirty = true;
                    self.status_message = msg;
                    proof {
                        assert(self@.all_applications == pre_groups.push(namev));
                        assert(self@.keybinds == s.keybinds);
                        assert(self@.undo_history == s.undo_history);
                        assert forall|i: int|
                            0 <= i < self@.keybinds.len() implies self@.all_applications.contains(
                            #[trigger] self@.keybinds[i].application,
                        ) by {
                            crate::session::lemma_contains_after_push(
                                pre_groups,
                                s.keybinds[i].application,
                                namev,
                            );
                        }
                        assert forall|h: int, i: int|
                            0 <= h < self@.undo_history.len() && 0 <= i
                                < self@.undo_history[h].len()
                            implies self@.all_applications.contains(
                            #[trigger] self@.undo_history[h][i].application,
                        ) by {
                            crate::session::lemma_contains_after_push(
                                pre_groups,
                                s.undo_history[h][i].application,
                                namev,
                            );
                        }
                        assert(self@.all_applications[self@.all_applications.len() - 1] == namev);
                        assert(self@.all_applications.contains(namev));
                        assert(self@.wf_core());
                    }
                    self.refilter();
                    assert(self@ == command_apply(s));
                } else {
                    self.status_message = "App name invalid or already exists.".to_owned();
                    self.mode = Mode::Normal;
                    self.command_buffer = String::new();
                    assert(self@ == command_apply(s));
                }
                false
            },
            Command::Unknown => {
                let mut msg = "Not a command: ".to_owned();
                msg.append(self.command_buffer.as_str());
                self.status_message = msg;
                self.mode = Mode::Normal;
                self.command_buffer = String::new();
                assert(self@ == command_apply(s));
                false
            },
        }
    }

    /// Handles one key in Command mode; reports whether a save of the
    /// active group was requested.
    pub fn command_key(&mut self, key: &String) -> (save: bool)
        requires
            old(self)@.wf(),
        ensures
            final(self)@ == command_key_step(old(self)@, key@),
            final(self)@.wf(),
            save == (key@ == "Enter"@ && command_save_requested(old(self)@)),
    {
        if *key == "Escape".to_owned() {
            self.mode = Mode::Normal;
            self.command_buffer = String::new();
            proof {
                reveal_strlit("Escape");
                reveal_strlit("Enter");
                assert("Escape"@.len() == 6);
                assert("Enter"@.len() == 5);
                assert(key@ != "Enter"@);
            }
            assert(self@ == command_key_step(old(self)@, key@));
            return false;
        }
        if *key == "Enter".to_owned() {
            return self.execute_command();
        }
        if *key == "Backspace".to_owned() {
            let n = self.command_buffer.as_str().unicode_len();
            if n > 0 {
                let shorter = self.command_buffer.as_str().substring_char(0, n - 1).to_owned();
                self.command_buffer = shorter;
                proof {
                    assert(self@.command_buffer =~= old(self)@.command_buffer.drop_last());
                    assert(self@ == command_key_step(old(self)@, key@));
                }
            }
            return false;
        }
        assert(self@ == command_key_step(old(self)@, key@));
        false
    }

    /// Handles one key in Insert mode while typing a description.
    pub fn insert_key(&mut self, key: &String, mods: Mods)
        requires
            old(self)@.wf(),
        ensures
            final(self)@ == insert_key_step(old(self)@, key@, mods),
            final(self)@.wf(),
    {
        let none = Mods::none();
        let ctrl = Mods { ctrl: true, alt: false, shift: false, cmd: false };
        assert(ctrl == only_ctrl());
        if (mods == none && *key == "Escape".to_owned()) || (mods == ctrl && *key
            == "OpenBracket".to_owned()) {
            self.exit_insert_mode(false);
            return;
        }
        if mods == none && *key == "Enter".to_owned() {
            self.exit_insert_mode(true);
            return;
        }
        if mods == none && *key == "Backspace".to_owned() {
            let n = self.temp_edit_buffer.as_str().unicode_len();
            if n > 0 {
                let shorter = self.temp_edit_buffer.as_str().substring_char(0, n - 1).to_owned();
                self.temp_edit_buffer = shorter;
                proof {
                    assert(self@.temp_edit_buffer =~= old(self)@.temp_edit_buffer.drop_last());
                    assert(self@ == insert_key_step(old(self)@, key@, mods));
                }
            }
            return;
        }
        assert(self@ == insert_key_step(old(self)@, key@, mods));
    }

    /// Handles one key while the recorder listens for a chord.
    pub fn capture_key(&mut self, key: &String, mods: Mods)
        requires
            old(self)@.wf(),
        ensures
            final(self)@ == capture_step(old(self)@, key@, mods),
            final(self)@.wf(),
    {
        if self.ignore_next_input_frame {
            self.ignore_next_input_frame = false;
            assert(self@ == capture_step(old(self)@, key@, mods));
            return;
        }
        if *key == "Escape".to_owned() {
            self.exit_insert_mode(false);
            return;
        }
        if is_uncapturable(key) {
            return;
        }
        self.temp_edit_buffer = build_chord_label(key, mods);
        assert(self@ == (SessionV { temp_edit_buffer: chord_label(key@, mods), ..old(self)@ }));
        self.exit_insert_mode(true);
        assert(self@ == capture_step(old(self)@, key@, mods));
    }

    /// Handles one key in the group-filter dialog.
    #[verifier::rlimit(100)]
    #[verifier::spinoff_prover]
    pub fn app_filter_key(&mut self, key: &String)
        requires
            old(self)@.wf(),
        ensures
            final(self)@ == app_filter_key_step(old(self)@, key@),
            final(self)@.wf(),
    {
        let ghost s = old(self)@;
        let ghost fgv = filtered_groups_spec(s.all_applications, s.app_search_query);
        if *key == "Escape".to_owned() {
            self.mode = Mode::Normal;
            self.app_search_query = String::new();
            assert(self@ == app_filter_key_step(s, key@));
            return;
        }
        if *key == "ArrowDown".to_owned() {
            let fg = self.filtered_groups();
            if fg.len() > 0 {
                if self.app_filter_selected_index < fg.len() - 1 {
                    self.app_filter_selected_index = self.app_filter_selected_index + 1;
                } else {
                    self.app_filter_selected_index = fg.len() - 1;
                }
            }
            assert(self@ == app_filter_key_step(s, key@));
            return;
        }
        if *key == "ArrowUp".to_owned() {
            let fg = self.filtered_groups();
            if fg.len() > 0 {
                if self.app_filter_selected_index > 0 {
                    self.app_filter_selected_index = self.app_filter_selected_index - 1;
                }
            }
            assert(self@ == app_filter_key_step(s, key@));
            return;
        }
        if *key == "Enter".to_owned() {
            let fg = self.filtered_groups();
            if fg.len() > 0 {
                if self.app_filter_selected_index < fg.len() {
                    let chosen = fg[self.app_filter_selected_index].clone();
                    proof {
                        lemma_filtered_groups_members(s.all_applications, s.app_search_query);
                        assert(fg.deep_view()[s.app_filter_selected_index]
                            == fg@[s.app_filter_selected_index as int]@);
                        assert(fgv[s.app_filter_selected_index] == chosen@);
                        assert(s.all_applications.contains(chosen@));
                    }
                    self.current_application = chosen;
                    self.mode = Mode::Normal;
                    self.app_search_query = String::new();
                    assert(self@.wf_core());
                    self.refilter();
                } else {
                    self.mode = Mode::Normal;
                    self.app_search_query = String::new();
                }
            }
            assert(self@ == app_filter_key_step(s, key@));
            return;
        }
        if *key == "Backspace".to_owned() {
            let n = self.app_search_query.as_str().unicode_len();
            if n > 0 {
                let shorter = self.app_search_query.as_str().substring_char(0, n - 1).to_owned();
                self.app_search_query = shorter;
                self.app_filter_selected_index = 0;
                proof {
                    assert(self@.app_search_query =~= s.app_search_query.drop_last());
                    assert(self@ == app_filter_key_step(s, key@));
                }
            }
            return;
        }
        assert(self@ == app_filter_key_step(s, key@));
    }
}

impl AppState {
    /// Handles the key that follows a leader press.
    pub fn leader_key(&mut self, key: &String, mods: Mods)
        requires
            old(self)@.wf(),
        ensures
            final(self)@ == leader_step(old(self)@, key@, mods),
            final(self)@.wf(),
    {
        self.pending = Pending::Idle;
        let none = Mods::none();
        if mods == none && *key == effective_key(&self.keymap.app_filter, "F") {
            self.mode = Mode::AppFilter;
        } else if mods == none && *key == effective_key(&self.keymap.export_menu, "E") {
            self.mode = Mode::Export;
        } else if mods == none && *key == effective_key(&self.keymap.import_menu, "I") {
            self.mode = Mode::Import;
        }
        assert(self@ == leader_step(old(self)@, key@, mods));
    }

    /// Removes the selected row, snapshotting first; a no-op where the view
    /// is empty.
    #[verifier::rlimit(100)]
    #[verifier::spinoff_prover]
    fn do_delete_current(&mut self)
        requires
            old(self)@.wf(),
        ensures
            final(self)@ == delete_current(old(self)@),
            final(self)@.wf(),
    {
        proof {
            crate::session::lemma_wf_indices(old(self)@);
        }
        let ghost s1 = old(self)@;
        let row = self.selected_cell.0;
        if row < self.filtered_items.len() {
            self.push_to_undo_history();
            proof {
                crate::session::lemma_push_wf_core(s1);
            }
            let ghost sp = push_undo_step(s1);
            let i1 = self.filtered_items[row].original_index;
            proof {
                assert(s1.filtered_items[row as int].original_index == i1 as int);
            }
            self.keybinds.remove(i1);
            proof {
                assert(self@.keybinds =~~= sp.keybinds.remove(i1 as int));
                crate::session::lemma_remove_keeps_groups(
                    sp.keybinds,
                    sp.all_applications,
                    i1 as int,
                );
            }
            self.dirty = true;
            self.status_message = "1 keybind(s) deleted.".to_owned();
            assert(self@.wf_core());
            self.refilter();
        }
        assert(self@ == delete_current(s1));
    }

    /// Removes the selected row and the row below it, snapshotting first.
    #[verifier::rlimit(100)]
    #[verifier::spinoff_prover]
    fn do_delete_current_and_next(&mut self)
        requires
            old(self)@.wf(),
        ensures
            final(self)@ == delete_current_and_next(old(self)@),
            final(self)@.wf(),
    {
        proof {
            crate::session::lemma_wf_indices(old(self)@);
            crate::filterview::lemma_filtered_view_structure(
                old(self)@.keybinds,
                old(self)@.current_application,
                clean_query(old(self)@.search_query),
            );
        }
        let ghost s1 = old(self)@;
        let row = self.selected_cell.0;
        let nrows = self.filtered_items.len();
        if row < nrows {
            self.push_to_undo_history();
            proof {
                crate::session::lemma_push_wf_core(s1);
            }
            let ghost sp = push_undo_step(s1);
            let i1 = self.filtered_items[row].original_index;
            proof {
                assert(s1.filtered_items[row as int].original_index == i1 as int);
            }
            if row + 1 < nrows {
                let i2 = self.filtered_items[row + 1].original_index;
                proof {
                    assert(s1.filtered_items[row + 1].original_index == i2 as int);
                    assert(i1 < i2);
                }
                self.keybinds.remove(i2);
                proof {
                    assert(self@.keybinds =~~= sp.keybinds.remove(i2 as int));
                    crate::session::lemma_remove_keeps_groups(
                        sp.keybinds,
                        sp.all_applications,
                        i2 as int,
                    );
                }
                let ghost mid = sp.keybinds.remove(i2 as int);
                self.keybinds.remove(i1);
                proof {
                    assert(self@.keybinds =~~= mid.remove(i1 as int));
                    crate::session::lemma_remove_keeps_groups(mid, sp.all_applications, i1 as int);
                }
                self.dirty = true;
                self.status_message = "2 keybind(s) deleted.".to_owned();
            } else {
                self.keybinds.remove(i1);
                proof {
                    assert(self@.keybinds =~~= sp.keybinds.remove(i1 as int));
                    crate::session::lemma_remove_keeps_groups(
                        sp.keybinds,
                        sp.all_applications,
                        i1 as int,
                    );
                }
                self.dirty = true;
                self.status_message = "1 keybind(s) deleted.".to_owned();
            }
            assert(self@.wf_core());
            self.refilter();
        }
        assert(self@ == delete_current_and_next(s1));
    }

    /// Removes the selected row and the row above it, snapshotting first.
    #[verifier::rlimit(100)]
    #[verifier::spinoff_prover]
    fn do_delete_current_and_prev(&mut self)
        requires
            old(self)@.wf(),
        ensures
            final(self)@ == delete_current_and_prev(old(self)@),
            final(self)@.wf(),
    {
        proof {
            crate::session::lemma_wf_indices(old(self)@);
            crate::filterview::lemma_filtered_view_structure(
                old(self)@.keybinds,
                old(self)@.current_application,
                clean_query(old(self)@.search_query),
            );
        }
        let ghost s1 = old(self)@;
        let row = self.selected_cell.0;
        let nrows = self.filtered_items.len();
        if row < nrows {
            self.push_to_undo_history();
            proof {
                crate::session::lemma_push_wf_core(s1);
            }
            let ghost sp = push_undo_step(s1);
            let i1 = self.filtered_items[row].original_index;
            proof {
                assert(s1.filtered_items[row as int].original_index == i1 as int);
            }
            if row > 0 {
                let i0 = self.filtered_items[row - 1].original_index;
                proof {
                    assert(s1.filtered_items[row - 1].original_index == i0 as int);
                    assert(i0 < i1);
                }
                self.keybinds.remove(i1);
                proof {
                    assert(self@.keybinds =~~= sp.keybinds.remove(i1 as int));
                    crate::session::lemma_remove_keeps_groups(
                        sp.keybinds,
                        sp.all_applications,
                        i1 as int,
                    );
                }
                let ghost mid = sp.keybinds.remove(i1 as int);
                self.keybinds.remove(i0);
                proof {
                    assert(self@.keybinds =~~= mid.remove(i0 as int));
                    crate::session::lemma_remove_keeps_groups(mid, sp.all_applications, i0 as int);
                }
                self.dirty = true;
                self.status_message = "2 keybind(s) deleted.".to_owned();
            } else {
                self.keybinds.remove(i1);
                proof {
                    assert(self@.keybinds =~~= sp.keybinds.remove(i1 as int));
                    crate::session::lemma_remove_keeps_groups(
                        sp.keybinds,
                        sp.all_applications,
                        i1 as int,
                    );
                }
                self.dirty = true;
                self.status_message = "1 keybind(s) deleted.".to_owned();
            }
            assert(self@.wf_core());
            self.refilter();
        }
        assert(self@ == delete_current_and_prev(s1));
    }

    /// Handles the key that follows a delete-leader press.
    pub fn delete_key(&mut self, key: &String, mods: Mods)
        requires
            old(self)@.wf(),
        ensures
            final(self)@ == delete_step(old(self)@, key@, mods),
            final(self)@.wf(),
    {
        let a = resolve_delete_action(&self.keymap, key, mods);
        self.pending = Pending::Idle;
        let ghost s1 = SessionV { pending: Pending::Idle, ..old(self)@ };
        assert(self@ == s1);
        match a {
            DeleteAction::Current => {
                self.do_delete_current();
            },
            DeleteAction::CurrentAndNext => {
                self.do_delete_current_and_next();
            },
            DeleteAction::CurrentAndPrev => {
                self.do_delete_current_and_prev();
            },
            DeleteAction::NoDelete => {},
        }
        assert(self@ == delete_step(old(self)@, key@, mods));
    }

    /// Handles a key in Normal mode with nothing pending, in the fixed
    /// binding precedence.
    #[verifier::rlimit(100)]
    #[verifier::spinoff_prover]
    pub fn dispatch_normal(&mut self, key: &String, mods: Mods)
        requires
            old(self)@.wf(),
        ensures
            final(self)@ == normal_dispatch(old(self)@, key@, mods),
            final(self)@.wf(),
    {
        let ghost s = old(self)@;
        let a = resolve_normal_action(&self.keymap, key, mods);
        match a {
            NormalAction::ArmLeader => {
                self.pending = Pending::Leader;
            },
            NormalAction::ArmDelete => {
                self.pending = Pending::DeleteLeader;
            },
            NormalAction::GotoBottom => {
                let n = self.filtered_items.len();
                if n == 0 {
                    self.selected_cell.0 = 0;
                } else {
                    self.selected_cell.0 = n - 1;
                }
            },
            NormalAction::ArmDoubleTap => {
                self.pending = Pending::DoubleTap;
            },
            NormalAction::MoveDown => {
                let n = self.filtered_items.len();
                if n > 0 {
                    if self.selected_cell.0 < n - 1 {
                        self.selected_cell.0 = self.selected_cell.0 + 1;
                    } else {
                        self.selected_cell.0 = n - 1;
                    }
                }
            },
            NormalAction::MoveUp => {
                if self.selected_cell.0 > 0 {
                    self.selected_cell.0 = self.selected_cell.0 - 1;
                }
            },
            NormalAction::MoveRight => {
                if self.selected_cell.1 < 1 {
                    self.selected_cell.1 = self.selected_cell.1 + 1;
                } else {
                    self.selected_cell.1 = 1;
                }
            },
            NormalAction::MoveLeft => {
                if self.selected_cell.1 > 0 {
                    self.selected_cell.1 = self.selected_cell.1 - 1;
                }
            },
            NormalAction::EnterInsert => {
                if !self.just_created_new_keybind {
                    self.push_to_undo_history();
                    proof {
                        crate::session::lemma_push_wf_core(s);
                    }
                    assert(self@.wf());
                }
                self.enter_insert_mode();
            },
            NormalAction::EnterSearch => {
                self.mode = Mode::Search;
                self.search_query = String::new();
                self.refilter();
            },
            NormalAction::EnterCommand => {
                self.mode = Mode::Command;
                self.command_buffer = String::new();
            },
            NormalAction::NewBelow => {
                self.new_row(false);
            },
            NormalAction::NewAbove => {
                self.new_row(true);
            },
            NormalAction::UndoEdit => {
                self.undo();
            },
            NormalAction::NoAction => {},
        }
        assert(self@ == apply_normal_action(s, a));
        assert(self@.wf());
    }

    /// Handles one key in Normal mode, resolving any pending sequence
    /// first.
    pub fn normal_key(&mut self, key: &String, mods: Mods)
        requires
            old(self)@.wf(),
        ensures
            final(self)@ == normal_step(old(self)@, key@, mods),
            final(self)@.wf(),
    {
        match self.pending {
            Pending::Leader => {
                self.leader_key(key, mods);
            },
            Pending::DeleteLeader => {
                self.delete_key(key, mods);
            },
            Pending::DoubleTap => {
                self.pending = Pending::Idle;
                let none = Mods::none();
                if self.keymap.goto_top == "G".to_owned() && mods == none && *key
                    == "G".to_owned() {
                    self.selected_cell.0 = 0;
                    assert(self@ == normal_step(old(self)@, key@, mods));
                } else {
                    self.dispatch_normal(key, mods);
                    assert(self@ == normal_step(old(self)@, key@, mods));
                }
            },
            Pending::Idle => {
                self.dispatch_normal(key, mods);
            },
        }
    }

    /// Handles one key-down event, dispatching on the active mode; returns
    /// whether a save of the active group was requested.
    pub fn handle_key_down(&mut self, key: &String, mods: Mods) -> (save: bool)
        requires
            old(self)@.wf(),
        ensures
            final(self)@ == key_down_step(old(self)@, key@, mods),
            final(self)@.wf(),
            save == key_down_save_requested(old(self)@, key@, mods),
    {
        if self.is_listening_for_keybind {
            self.capture_key(key, mods);
            return false;
        }
        match self.mode {
            Mode::Normal => {
                self.normal_key(key, mods);
                false
            },
            Mode::Insert => {
                self.insert_key(key, mods);
                false
            },
            Mode::Search => {
                self.search_key(key);
                false
            },
            Mode::Command => self.command_key(key),
            Mode::AppFilter => {
                self.app_filter_key(key);
                false
            },
            Mode::Export => {
                self.dialog_key(key);
                false
            },
            Mode::Import => {
                self.dialog_key(key);
                false
            },
            Mode::Help => {
                self.dialog_key(key);
                false
            },
        }
    }

    /// Handles one text-input event, feeding the buffer the active mode
    /// owns.
    pub fn handle_text_input(&mut self, text: &String)
        requires
            old(self)@.wf(),
        ensures
            final(self)@ == text_input_step(old(self)@, text@),
            final(self)@.wf(),
    {
        if self.is_listening_for_keybind {
            assert(self@ == text_input_step(old(self)@, text@));
            return;
        }
        match self.mode {
            Mode::Search => {
                self.search_query.append(text.as_str());
                self.refilter();
            },
            Mode::Command => {
                self.command_buffer.append(text.as_str());
            },
            Mode::Insert => {
                self.temp_edit_buffer.append(text.as_str());
            },
            Mode::AppFilter => {
                self.app_search_query.append(text.as_str());
                self.app_filter_selected_index = 0;
            },
            _ => {},
        }
        assert(self@ == text_input_step(old(self)@, text@));
    }
}

} // verus!
