use vstd::prelude::*;
use crate::records::{Keybind, KeybindV, FilteredItem, FilteredItemV, KeybindEntry, KeybindEntryV, AppKeybinds, AppKeybindsV, clone_keybinds};
use crate::filterview::{filtered_view, count_matching, lemma_filtered_view_structure, build_filtered};
use crate::text::{clean_query, normalize_query};
use crate::keymap::{Keymap, KeymapV};
use crate::groups::{sort_names, contains_name};
use crate::MAX_UNDO_HISTORY;

verus! {

/// The mode the session is in; exactly one is active at a time.
#[derive(Clone, Copy, PartialEq, Eq, Structural, Debug)]
pub enum Mode {
    Normal,
    Insert,
    Search,
    Command,
    AppFilter,
    Export,
    Import,
    Help,
}

/// A pending multi-key sequence: after a leader or delete-leader press, or
/// after the first press of the goto-top pair, the machine awaits exactly
/// one more key. The states are mutually exclusive by construction.
#[derive(Clone, Copy, PartialEq, Eq, Structural, Debug)]
pub enum Pending {
    Idle,
    Leader,
    DeleteLeader,
    DoubleTap,
}

/// Ghost model of the whole session.
#[verifier::ext_equal]
pub struct SessionV {
    pub keybinds: Seq<KeybindV>,
    pub all_applications: Seq<Seq<char>>,
    pub filtered_items: Seq<FilteredItemV>,
    pub sel_row: int,
    pub sel_col: int,
    pub mode: Mode,
    pub pending: Pending,
    pub search_query: Seq<char>,
    pub command_buffer: Seq<char>,
    pub status_message: Seq<char>,
    pub current_application: Seq<char>,
    pub app_search_query: Seq<char>,
    pub app_filter_selected_index: int,
    pub temp_edit_buffer: Seq<char>,
    pub is_listening_for_keybind: bool,
    pub ignore_next_input_frame: bool,
    pub should_quit: bool,
    pub just_created_new_keybind: bool,
    pub dirty: bool,
    pub undo_history: Seq<Seq<KeybindV>>,
    pub keymap: KeymapV,
}

/// The session: the record store, the known groups, the derived filtered
/// view, the selection cursor, the mode machine with its pending-sequence
/// state, the text buffers each mode owns, and the undo history.
pub struct AppState {
    pub keybinds: Vec<Keybind>,
    pub all_applications: Vec<String>,
    pub filtered_items: Vec<FilteredItem>,
    pub selected_cell: (usize, usize),
    pub mode: Mode,
    pub pending: Pending,
    pub search_query: String,
    pub command_buffer: String,
    pub status_message: String,
    pub current_application: String,
    pub app_search_query: String,
    pub app_filter_selected_index: usize,
    pub temp_edit_buffer: String,
    pub is_listening_for_keybind: bool,
    pub ignore_next_input_frame: bool,
    pub should_quit: bool,
    pub just_created_new_keybind: bool,
    pub dirty: bool,
    pub undo_history: Vec<Vec<Keybind>>,
    pub keymap: Keymap,
}

impl View for AppState {
    type V = SessionV;

    open spec fn view(&self) -> SessionV {
        SessionV {
            keybinds: self.keybinds.deep_view(),
            all_applications: self.all_applications.deep_view(),
            filtered_items: self.filtered_items.deep_view(),
            sel_row: self.selected_cell.0 as int,
            sel_col: self.selected_cell.1 as int,
            mode: self.mode,
            pending: self.pending,
            search_query: self.search_query@,
            command_buffer: self.command_buffer@,
            status_message: self.status_message@,
            current_application: self.current_application@,
            app_search_query: self.app_search_query@,
            app_filter_selected_index: self.app_filter_selected_index as int,
            temp_edit_buffer: self.temp_edit_buffer@,
            is_listening_for_keybind: self.is_listening_for_keybind,
            ignore_next_input_frame: self.ignore_next_input_frame,
            should_quit: self.should_quit,
            just_created_new_keybind: self.just_created_new_keybind,
            dirty: self.dirty,
            undo_history: self.undo_history.deep_view(),
            keymap: self.keymap@,
        }
    }
}

impl SessionV {
    /// The structural part of well-formedness: group names are unique, the
    /// active group is known, every record's group is known, every
    /// snapshotted record's group is known, and the history is bounded.
    pub open spec fn wf_core(self) -> bool {
        &&& forall|i: int, j: int|
            0 <= i < j < self.all_applications.len() ==> self.all_applications[i]
                != self.all_applications[j]
        &&& self.all_applications.contains(self.current_application)
        &&& forall|i: int|
            0 <= i < self.keybinds.len() ==> self.all_applications.contains(
                #[trigger] self.keybinds[i].application,
            )
        &&& forall|h: int, i: int|
            0 <= h < self.undo_history.len() && 0 <= i < self.undo_history[h].len()
                ==> self.all_applications.contains(#[trigger] self.undo_history[h][i].application)
        &&& self.undo_history.len() <= MAX_UNDO_HISTORY
    }

    /// The derived part of well-formedness: the filtered view agrees with
    /// the store, the active group and the query, and the cursor is
    /// clamped to it.
    pub open spec fn wf_view(self) -> bool {
        &&& self.filtered_items == filtered_view(
            self.keybinds,
            self.current_application,
            clean_query(self.search_query),
        )
        &&& 0 <= self.sel_col <= 1
        &&& if self.filtered_items.len() == 0 {
            self.sel_row == 0
        } else {
            0 <= self.sel_row < self.filtered_items.len()
        }
    }

    /// Well-formedness: holds after construction and is preserved by every
    /// operation of the session.
    pub open spec fn wf(self) -> bool {
        self.wf_core() && self.wf_view()
    }
}

/// The cursor re-clamped to the filtered view: `(0, 0)` where the view is
/// empty, otherwise row within the view and column at most 1.
pub open spec fn clamped(s: SessionV) -> SessionV {
    let n = s.filtered_items.len() as int;
    if n == 0 {
        SessionV { sel_row: 0, sel_col: 0, ..s }
    } else {
        SessionV {
            sel_row: if s.sel_row < n - 1 {
                s.sel_row
            } else {
                n - 1
            },
            sel_col: if s.sel_col < 1 {
                s.sel_col
            } else {
                1
            },
            ..s
        }
    }
}

/// The filtered view rebuilt from the store, the active group and the
/// cleaned query, with the cursor re-clamped.
pub open spec fn refiltered(s: SessionV) -> SessionV {
    clamped(
        SessionV {
            filtered_items: filtered_view(
                s.keybinds,
                s.current_application,
                clean_query(s.search_query),
            ),
            ..s
        },
    )
}

/// The history after a push: a snapshot of the records appended, the oldest
/// snapshot evicted first where the bound is already reached.
pub open spec fn pushed_history(h: Seq<Seq<KeybindV>>, recs: Seq<KeybindV>) -> Seq<Seq<KeybindV>> {
    if h.len() >= MAX_UNDO_HISTORY {
        h.drop_first().push(recs)
    } else {
        h.push(recs)
    }
}

/// A snapshot push: the records snapshotted into the history, and nothing
/// else; the dirty flag follows actual change to the store, never the
/// snapshot itself.
pub open spec fn push_undo_step(s: SessionV) -> SessionV {
    SessionV { undo_history: pushed_history(s.undo_history, s.keybinds), ..s }
}

/// An undo: the most recent snapshot restored wholesale and the view
/// refreshed, or a report that there is nothing to undo.
pub open spec fn undo_step(s: SessionV) -> SessionV {
    if s.undo_history.len() == 0 {
        SessionV { status_message: "Nothing to undo."@, ..s }
    } else {
        refiltered(
            SessionV {
                keybinds: s.undo_history.last(),
                undo_history: s.undo_history.drop_last(),
                dirty: true,
                status_message: "Undo successful."@,
                ..s
            },
        )
    }
}

impl AppState {
    /// Re-clamps the selection cursor to the filtered view.
    pub fn clamp_selection(&mut self)
        ensures
            final(self)@ == clamped(old(self)@),
    {
        let num_rows = self.filtered_items.len();
        if num_rows == 0 {
            self.selected_cell = (0, 0);
        } else {
            if self.selected_cell.0 > num_rows - 1 {
                self.selected_cell.0 = num_rows - 1;
            }
            if self.selected_cell.1 > 1 {
                self.selected_cell.1 = 1;
            }
        }
        assert(self@ =~~= clamped(old(self)@));
    }

    /// Rebuilds the filtered view from the store, the active group and the
    /// query, and re-clamps the cursor; called after every mutation.
    pub fn refilter(&mut self)
        ensures
            final(self)@ == refiltered(old(self)@),
            old(self)@.wf_core() ==> final(self)@.wf(),
    {
        let cleaned = normalize_query(self.search_query.as_str());
        self.filtered_items = build_filtered(&self.keybinds, &self.current_application, &cleaned);
        self.clamp_selection();
        assert(self@ =~~= refiltered(old(self)@));
    }

    /// Snapshots the record store onto the undo history, before a mutation
    /// is committed; past the bound the oldest snapshot is evicted first.
    /// The dirty flag is untouched: it follows the mutation itself.
    pub fn push_to_undo_history(&mut self)
        ensures
            final(self)@ == push_undo_step(old(self)@),
    {
        if self.undo_history.len() >= MAX_UNDO_HISTORY {
            self.undo_history.remove(0);
            assert(self.undo_history.deep_view() =~~= old(self)@.undo_history.drop_first());
        }
        let snap = clone_keybinds(&self.keybinds);
        self.undo_history.push(snap);
        assert(self.undo_history.deep_view() =~~= pushed_history(
            old(self)@.undo_history,
            old(self)@.keybinds,
        ));
        assert(self@ =~~= push_undo_step(old(self)@));
    }

    /// Pops the most recent snapshot and restores the record store from it
    /// wholesale, refreshing the view; reports where there is nothing to
    /// undo.
    pub fn undo(&mut self)
        requires
            old(self)@.wf(),
        ensures
            final(self)@ == undo_step(old(self)@),
            final(self)@.wf(),
    {
        match self.undo_history.pop() {
            Option::Some(last_state) => {
                self.keybinds = last_state;
                self.dirty = true;
                self.status_message = "Undo successful.".to_owned();
                assert(self@.keybinds =~~= old(self)@.undo_history.last());
                assert(self@.undo_history =~~= old(self)@.undo_history.drop_last());
                self.refilter();
                assert(self@ =~~= undo_step(old(self)@));
            },
            Option::None => {
                self.status_message = "Nothing to undo.".to_owned();
                assert(self@ =~~= undo_step(old(self)@));
            },
        }
    }
}

/// Entering Insert: a no-op on an empty view; otherwise the selected
/// field's text is copied into the edit buffer, and on the chord column the
/// key-capture recorder is armed with its one ignored input frame.
pub open spec fn enter_insert_step(s: SessionV) -> SessionV {
    if s.filtered_items.len() == 0 {
        s
    } else {
        let ri = s.filtered_items[s.sel_row].original_index;
        if s.sel_col == 0 {
            SessionV {
                mode: Mode::Insert,
                is_listening_for_keybind: true,
                ignore_next_input_frame: true,
                temp_edit_buffer: s.keybinds[ri].keys,
                ..s
            }
        } else {
            SessionV { mode: Mode::Insert, temp_edit_buffer: s.keybinds[ri].description, ..s }
        }
    }
}

/// The selected field overwritten with the edit buffer; the session turns
/// dirty only where the text actually changed.
pub open spec fn commit_field(s: SessionV) -> SessionV {
    if 0 <= s.sel_row < s.filtered_items.len() {
        let ri = s.filtered_items[s.sel_row].original_index;
        let kb = s.keybinds[ri];
        let oldv = if s.sel_col == 0 {
            kb.keys
        } else {
            kb.description
        };
        let kb2 = if s.sel_col == 0 {
            KeybindV { keys: s.temp_edit_buffer, ..kb }
        } else {
            KeybindV { description: s.temp_edit_buffer, ..kb }
        };
        SessionV {
            keybinds: s.keybinds.update(ri, kb2),
            dirty: s.dirty || oldv != s.temp_edit_buffer,
            ..s
        }
    } else {
        s
    }
}

/// The common tail of leaving Insert: back to Normal with the edit buffer
/// cleared and the freshly-created mark dropped.
pub open spec fn finish_insert(s: SessionV) -> SessionV {
    SessionV {
        mode: Mode::Normal,
        temp_edit_buffer: Seq::empty(),
        just_created_new_keybind: false,
        ..s
    }
}

/// Leaving Insert. A commit stores the edit buffer into the selected field
/// (pushing an undo snapshot first where this commits the chord of a
/// freshly created row, and then chaining straight into editing that row's
/// description). A cancel discards the edit; a freshly created row whose
/// fields are both still empty is removed entirely rather than left blank.
pub open spec fn exit_insert_step(s: SessionV, saved: bool) -> SessionV {
    let s0 = SessionV { is_listening_for_keybind: false, ..s };
    if saved {
        let chain = s0.just_created_new_keybind && s0.sel_col == 0;
        let s1 = if chain {
            push_undo_step(s0)
        } else {
            s0
        };
        let s2 = refiltered(commit_field(s1));
        if chain {
            enter_insert_step(clamped(SessionV { sel_col: 1, ..s2 }))
        } else {
            finish_insert(s2)
        }
    } else {
        if s0.just_created_new_keybind && 0 <= s0.sel_row < s0.filtered_items.len() {
            let ri = s0.filtered_items[s0.sel_row].original_index;
            let kb = s0.keybinds[ri];
            if kb.keys.len() == 0 && kb.description.len() == 0 {
                finish_insert(refiltered(SessionV { keybinds: s0.keybinds.remove(ri), ..s0 }))
            } else {
                finish_insert(s0)
            }
        } else {
            finish_insert(s0)
        }
    }
}

/// Where a new blank row lands: above the selected row's underlying record
/// or below it (at the start where the view is empty), with the cursor
/// following a below-insert.
pub open spec fn inserted_row(s: SessionV, above: bool) -> SessionV {
    let blank = KeybindV {
        keys: Seq::empty(),
        description: Seq::empty(),
        application: s.current_application,
    };
    if above {
        let pos = if s.filtered_items.len() == 0 {
            0int
        } else {
            s.filtered_items[s.sel_row].original_index
        };
        SessionV { keybinds: s.keybinds.insert(pos, blank), ..s }
    } else {
        let pos0 = if s.filtered_items.len() == 0 {
            0int
        } else {
            s.filtered_items[s.sel_row].original_index + 1
        };
        let pos = if pos0 < s.keybinds.len() {
            pos0
        } else {
            s.keybinds.len() as int
        };
        let si = SessionV { keybinds: s.keybinds.insert(pos, blank), ..s };
        if s.filtered_items.len() > 0 {
            SessionV { sel_row: s.sel_row + 1, ..si }
        } else {
            si
        }
    }
}

/// A new blank row: inserted above or below the selected row's underlying
/// record, then a refresh and a jump straight into Insert on the chord
/// column with the row marked freshly created.
pub open spec fn new_row_step(s: SessionV, above: bool) -> SessionV {
    enter_insert_step(
        SessionV {
            sel_col: 0,
            just_created_new_keybind: true,
            ..refiltered(inserted_row(s, above))
        },
    )
}

/// Law: new-row-below on a fully visible two-record group with the cursor
/// on the first row inserts a blank record of the active group at
/// underlying index 1, marks it freshly created, and puts the cursor on
/// the chord column; where the refreshed view still shows rows, the
/// session is in Insert with the recorder armed and its one ignored frame
/// set, and with at least two rows shown the cursor sits on row 1.
pub proof fn lemma_new_row_below(s: SessionV)
    requires
        s.wf(),
        s.keybinds.len() == 2,
        s.filtered_items.len() == 2,
        s.sel_row == 0,
    ensures
        ({
            let blank = KeybindV {
                keys: Seq::empty(),
                description: Seq::empty(),
                application: s.current_application,
            };
            let t = new_row_step(s, false);
            &&& t.keybinds == s.keybinds.insert(1, blank)
            &&& t.just_created_new_keybind
            &&& t.sel_col == 0
            &&& t.filtered_items.len() > 0 ==> (t.mode == Mode::Insert
                && t.is_listening_for_keybind && t.ignore_next_input_frame)
            &&& t.filtered_items.len() >= 2 ==> t.sel_row == 1
        }),
{
    lemma_filtered_view_structure(s.keybinds, s.current_application, clean_query(s.search_query));
    assert(s.filtered_items[0].original_index < s.filtered_items[1].original_index);
    assert(s.filtered_items[0].original_index == 0);
}

/// Pushing a snapshot keeps the session structurally well-formed.
pub(crate) proof fn lemma_push_wf_core(s: SessionV)
    requires
        s.wf_core(),
    ensures
        push_undo_step(s).wf_core(),
{
    let p = push_undo_step(s);
    assert forall|h: int, i: int|
        0 <= h < p.undo_history.len() && 0 <= i < p.undo_history[h].len()
            implies p.all_applications.contains(#[trigger] p.undo_history[h][i].application) by {
        if s.undo_history.len() >= MAX_UNDO_HISTORY {
            if h < p.undo_history.len() - 1 {
                assert(p.undo_history[h] == s.undo_history[h + 1]);
            } else {
                assert(p.undo_history[h] == s.keybinds);
            }
        } else {
            if h < p.undo_history.len() - 1 {
                assert(p.undo_history[h] == s.undo_history[h]);
            } else {
                assert(p.undo_history[h] == s.keybinds);
            }
        }
    }
}

pub(crate) proof fn lemma_wf_indices(s: SessionV)
    requires
        s.wf(),
    ensures
        forall|j: int|
            0 <= j < s.filtered_items.len() ==> 0 <= (#[trigger] s.filtered_items[j]).original_index
                < s.keybinds.len(),
{
    lemma_filtered_view_structure(s.keybinds, s.current_application, clean_query(s.search_query));
}

impl AppState {
    /// Enters Insert mode on the selected cell; a no-op where the filtered
    /// view is empty.
    pub fn enter_insert_mode(&mut self)
        requires
            old(self)@.wf(),
        ensures
            final(self)@ == enter_insert_step(old(self)@),
            final(self)@.wf(),
    {
        proof {
            lemma_wf_indices(old(self)@);
        }
        if self.filtered_items.len() == 0 {
            return;
        }
        self.mode = Mode::Insert;
        let (row_idx, col_idx) = self.selected_cell;
        let real_idx = self.filtered_items[row_idx].original_index;
        if col_idx == 0 {
            self.is_listening_for_keybind = true;
            self.ignore_next_input_frame = true;
            self.temp_edit_buffer = self.keybinds[real_idx].keys.clone();
        } else {
            self.temp_edit_buffer = self.keybinds[real_idx].description.clone();
        }
        assert(self@ =~~= enter_insert_step(old(self)@));
    }

    /// Leaves Insert mode, committing or discarding the edit buffer.
    #[verifier::rlimit(100)]
    #[verifier::spinoff_prover]
    pub fn exit_insert_mode(&mut self, saved: bool)
        requires
            old(self)@.wf(),
        ensures
            final(self)@ == exit_insert_step(old(self)@, saved),
            final(self)@.wf(),
    {
        proof {
            lemma_wf_indices(old(self)@);
        }
        self.is_listening_for_keybind = false;
        let ghost s0 = SessionV { is_listening_for_keybind: false, ..old(self)@ };
        assert(self@ == s0);
        let (row_idx, col_idx) = self.selected_cell;
        if saved {
            let chain = self.just_created_new_keybind && col_idx == 0;
            if chain {
                self.push_to_undo_history();
                proof {
                    lemma_push_wf_core(s0);
                }
            }
            let ghost s1 = if chain {
                push_undo_step(s0)
            } else {
                s0
            };
            assert(self@ == s1);
            assert(s1.wf_core());
            let ghost sc = commit_field(s1);
            if row_idx < self.filtered_items.len() {
                let real_idx = self.filtered_items[row_idx].original_index;
                let changed: bool;
                if col_idx == 0 {
                    changed = self.keybinds[real_idx].keys != self.temp_edit_buffer;
                    self.keybinds[real_idx].keys = self.temp_edit_buffer.clone();
                } else {
                    changed = self.keybinds[real_idx].description != self.temp_edit_buffer;
                    self.keybinds[real_idx].description = self.temp_edit_buffer.clone();
                }
                if changed {
                    self.dirty = true;
                }
                proof {
                    assert(self@.keybinds =~~= sc.keybinds);
                    assert(self@ == sc);
                }
            }
            assert(self@ == sc);
            proof {
                assert forall|i: int| 0 <= i < sc.keybinds.len() implies sc.all_applications.contains(
                    #[trigger] sc.keybinds[i].application,
                ) by {
                    if 0 <= s1.sel_row < s1.filtered_items.len() {
                        let ri = s1.filtered_items[s1.sel_row].original_index;
                        if i != ri {
                            assert(sc.keybinds[i] == s1.keybinds[i]);
                        } else {
                            assert(sc.keybinds[i].application == s1.keybinds[i].application);
                        }
                    }
                }
                assert(sc.wf_core());
            }
            let ghost s2 = refiltered(sc);
            self.refilter();
            assert(self@ == s2);
            assert(self@.wf());
            if chain {
                self.selected_cell.1 = 1;
                self.clamp_selection();
                assert(self@ == clamped(SessionV { sel_col: 1, ..s2 }));
                assert(self@.wf());
                self.enter_insert_mode();
                assert(self@ == exit_insert_step(old(self)@, saved));
                return;
            }
            self.mode = Mode::Normal;
            self.temp_edit_buffer = String::new();
            self.just_created_new_keybind = false;
            assert(self@ == finish_insert(s2));
            assert(self@ == exit_insert_step(old(self)@, saved));
            return;
        }
        if self.just_created_new_keybind {
            if row_idx < self.filtered_items.len() {
                let real_idx = self.filtered_items[row_idx].original_index;
                let is_blank = self.keybinds[real_idx].keys.as_str().is_empty()
                    && self.keybinds[real_idx].description.as_str().is_empty();
                if is_blank {
                    self.keybinds.remove(real_idx);
                    let ghost sr = SessionV {
                        keybinds: s0.keybinds.remove(
                            s0.filtered_items[s0.sel_row].original_index,
                        ),
                        ..s0
                    };
                    proof {
                        assert(self@.keybinds =~~= sr.keybinds);
                        assert(self@ == sr);
                        let ri = s0.filtered_items[s0.sel_row].original_index;
                        assert forall|i: int|
                            0 <= i < sr.keybinds.len() implies sr.all_applications.contains(
                            #[trigger] sr.keybinds[i].application,
                        ) by {
                            if i < ri {
                                assert(sr.keybinds[i] == s0.keybinds[i]);
                            } else {
                                assert(sr.keybinds[i] == s0.keybinds[i + 1]);
                            }
                        }
                        assert(sr.wf_core());
                    }
                    self.refilter();
                    assert(self@ == refiltered(sr));
                    assert(self@.wf());
                }
            }
        }
        self.mode = Mode::Normal;
        self.temp_edit_buffer = String::new();
        self.just_created_new_keybind = false;
        assert(self@ == exit_insert_step(old(self)@, saved));
    }

    /// Inserts a new blank row above or below the selected row and enters
    /// Insert on its chord column.
    #[verifier::rlimit(100)]
    #[verifier::spinoff_prover]
    pub fn new_row(&mut self, above: bool)
        requires
            old(self)@.wf(),
        ensures
            final(self)@ == new_row_step(old(self)@, above),
            final(self)@.wf(),
    {
        proof {
            lemma_wf_indices(old(self)@);
        }
        let ghost s = old(self)@;
        let ghost s1 = inserted_row(s, above);
        let blank = Keybind::blank(self.current_application.clone());
        let ghost blankv = KeybindV {
            keys: Seq::empty(),
            description: Seq::empty(),
            application: s.current_application,
        };
        assert(blank@ == blankv);
        if above {
            let pos: usize;
            if self.filtered_items.len() == 0 {
                pos = 0;
            } else {
                let oi = self.filtered_items[self.selected_cell.0].original_index;
                proof {
                    assert(s.filtered_items[s.sel_row].original_index == oi as int);
                    assert(oi < s.keybinds.len());
                }
                pos = oi;
            }
            self.keybinds.insert(pos, blank);
            proof {
                assert(self@.keybinds =~~= s.keybinds.insert(pos as int, blankv));
                assert(self@ == s1);
                assert forall|i: int|
                    0 <= i < s1.keybinds.len() implies s1.all_applications.contains(
                    #[trigger] s1.keybinds[i].application,
                ) by {
                    if i < pos {
                        assert(s1.keybinds[i] == s.keybinds[i]);
                    } else if i == pos {
                        assert(s1.keybinds[i] == blankv);
                    } else {
                        assert(s1.keybinds[i] == s.keybinds[i - 1]);
                    }
                }
            }
        } else {
            let total = self.keybinds.len();
            let pos0: usize;
            if self.filtered_items.len() == 0 {
                pos0 = 0;
            } else {
                let oi = self.filtered_items[self.selected_cell.0].original_index;
                proof {
                    assert(s.filtered_items[s.sel_row].original_index == oi as int);
                    assert(oi < s.keybinds.len());
                }
                assert(oi < total);
                pos0 = oi + 1;
            }
            let pos = if pos0 < self.keybinds.len() {
                pos0
            } else {
                self.keybinds.len()
            };
            self.keybinds.insert(pos, blank);
            proof {
                assert(self@.keybinds =~~= s.keybinds.insert(pos as int, blankv));
                assert forall|i: int|
                    0 <= i < s1.keybinds.len() implies s1.all_applications.contains(
                    #[trigger] s1.keybinds[i].application,
                ) by {
                    if i < pos {
                        assert(s1.keybinds[i] == s.keybinds[i]);
                    } else if i == pos {
                        assert(s1.keybinds[i] == blankv);
                    } else {
                        assert(s1.keybinds[i] == s.keybinds[i - 1]);
                    }
                }
            }
            if self.filtered_items.len() > 0 {
                self.selected_cell.0 = self.selected_cell.0 + 1;
            }
            assert(self@ == s1);
        }
        assert(s1.wf_core());
        self.refilter();
        assert(self@ == refiltered(s1));
        self.selected_cell.1 = 0;
        self.just_created_new_keybind = true;
        let ghost s3 = SessionV {
            sel_col: 0,
            just_created_new_keybind: true,
            ..refiltered(s1)
        };
        assert(self@ == s3);
        assert(self@.wf());
        self.enter_insert_mode();
        assert(self@ == new_row_step(s, above));
    }
}

/// One group's loaded chord/description pairs turned into records of that
/// group.
pub open spec fn entries_to_records(es: Seq<KeybindEntryV>, app: Seq<char>) -> Seq<KeybindV>
    decreases es.len(),
{
    if es.len() == 0 {
        Seq::empty()
    } else {
        entries_to_records(es.drop_last(), app).push(
            KeybindV {
                keys: es.last().keys,
                description: es.last().description,
                application: app,
            },
        )
    }
}

/// All loaded groups' records, in load order.
pub open spec fn records_of_loaded(loaded: Seq<AppKeybindsV>) -> Seq<KeybindV>
    decreases loaded.len(),
{
    if loaded.len() == 0 {
        Seq::empty()
    } else {
        records_of_loaded(loaded.drop_last()) + entries_to_records(
            loaded.last().keybinds,
            loaded.last().application,
        )
    }
}

/// The loaded group names, first occurrence of each kept.
pub open spec fn groups_of_loaded(loaded: Seq<AppKeybindsV>) -> Seq<Seq<char>>
    decreases loaded.len(),
{
    if loaded.len() == 0 {
        Seq::empty()
    } else {
        let pre = groups_of_loaded(loaded.drop_last());
        if pre.contains(loaded.last().application) {
            pre
        } else {
            pre.push(loaded.last().application)
        }
    }
}

/// The session as it starts: the loaded records and groups taken over, the
/// lexicographically first known group active (or a default group where
/// none was loaded), everything else at rest, and the view built once.
pub open spec fn initial_state(loaded: Seq<AppKeybindsV>, km: KeymapV) -> SessionV {
    let recs = records_of_loaded(loaded);
    let groups0 = groups_of_loaded(loaded);
    let sorted = crate::groups::sort_lex(groups0);
    let active = if sorted.len() > 0 {
        sorted[0]
    } else {
        "default"@
    };
    let groups = if groups0.contains(active) {
        groups0
    } else {
        groups0.push(active)
    };
    let status = if recs.len() > 0 {
        "Keybinds loaded."@
    } else {
        "Welcome to ctrlset!"@
    };
    refiltered(
        SessionV {
            keybinds: recs,
            all_applications: groups,
            filtered_items: Seq::empty(),
            sel_row: 0,
            sel_col: 0,
            mode: Mode::Normal,
            pending: Pending::Idle,
            search_query: Seq::empty(),
            command_buffer: Seq::empty(),
            status_message: status,
            current_application: active,
            app_search_query: Seq::empty(),
            app_filter_selected_index: 0,
            temp_edit_buffer: Seq::empty(),
            is_listening_for_keybind: false,
            ignore_next_input_frame: false,
            should_quit: false,
            just_created_new_keybind: false,
            dirty: false,
            undo_history: Seq::empty(),
            keymap: km,
        },
    )
}

impl AppState {
    /// Builds the session from what the persistence collaborator loaded and
    /// the resolved key mapping.
    #[verifier::rlimit(100)]
    #[verifier::spinoff_prover]
    pub fn new(loaded: Vec<AppKeybinds>, keymap: Keymap) -> (r: AppState)
        ensures
            r@ == initial_state(loaded.deep_view(), keymap@),
            r@.wf(),
    {
        let ghost lv = loaded.deep_view();
        let mut keybinds: Vec<Keybind> = Vec::new();
        let mut groups: Vec<String> = Vec::new();
        let mut g: usize = 0;
        proof {
            assert(lv.take(0) =~= Seq::<AppKeybindsV>::empty());
        }
        while g < loaded.len()
            invariant
                g <= loaded@.len(),
                lv == loaded.deep_view(),
                keybinds.deep_view() == records_of_loaded(lv.take(g as int)),
                groups.deep_view() == groups_of_loaded(lv.take(g as int)),
                forall|i: int, j: int|
                    0 <= i < j < groups.deep_view().len() ==> groups.deep_view()[i]
                        != groups.deep_view()[j],
                forall|i: int|
                    0 <= i < keybinds.deep_view().len() ==> groups.deep_view().contains(
                        #[trigger] keybinds.deep_view()[i].application,
                    ),
            decreases loaded@.len() - g,
        {
            proof {
                assert(lv.take(g + 1).drop_last() =~= lv.take(g as int));
                assert(lv.take(g + 1).last() == lv[g as int]);
                assert(lv[g as int] == loaded@[g as int]@);
            }
            let app_name = loaded[g].application.clone();
            assert(app_name@ == lv[g as int].application);
            if !contains_name(&groups, &app_name) {
                let ghost pre_groups = groups.deep_view();
                groups.push(app_name.clone());
                proof {
                    assert(groups.deep_view() =~~= pre_groups.push(app_name@));
                    assert forall|i: int|
                        0 <= i < keybinds.deep_view().len() implies groups.deep_view().contains(
                        #[trigger] keybinds.deep_view()[i].application,
                    ) by {
                        let k = choose|k: int|
                            0 <= k < pre_groups.len() && pre_groups[k]
                                == keybinds.deep_view()[i].application;
                        assert(groups.deep_view()[k] == keybinds.deep_view()[i].application);
                    }
                    assert(groups.deep_view()[groups.deep_view().len() - 1] == app_name@);
                    assert(groups.deep_view().contains(app_name@));
                }
            }
            assert(groups.deep_view() == groups_of_loaded(lv.take(g + 1)));
            assert(groups.deep_view().contains(lv[g as int].application));
            let ghost ev = lv[g as int].keybinds;
            let mut e: usize = 0;
            proof {
                assert(ev.take(0) =~= Seq::<KeybindEntryV>::empty());
                assert(keybinds.deep_view() =~= records_of_loaded(lv.take(g as int))
                    + entries_to_records(ev.take(0), lv[g as int].application));
            }
            while e < loaded[g].keybinds.len()
                invariant
                    g < loaded@.len(),
                    e <= ev.len(),
                    lv == loaded.deep_view(),
                    ev == lv[g as int].keybinds,
                    app_name@ == lv[g as int].application,
                    keybinds.deep_view() == records_of_loaded(lv.take(g as int))
                        + entries_to_records(ev.take(e as int), lv[g as int].application),
                    groups.deep_view() == groups_of_loaded(lv.take(g + 1)),
                    groups.deep_view().contains(lv[g as int].application),
                    forall|i: int, j: int|
                        0 <= i < j < groups.deep_view().len() ==> groups.deep_view()[i]
                            != groups.deep_view()[j],
                    forall|i: int|
                        0 <= i < keybinds.deep_view().len() ==> groups.deep_view().contains(
                            #[trigger] keybinds.deep_view()[i].application,
                        ),
                decreases ev.len() - e,
            {
                proof {
                    assert(ev.take(e + 1).drop_last() =~= ev.take(e as int));
                    assert(ev.take(e + 1).last() == ev[e as int]);
                    assert(ev[e as int] == loaded@[g as int].keybinds@[e as int]@);
                }
                let entry = &loaded[g].keybinds[e];
                let ghost pre = keybinds.deep_view();
                keybinds.push(
                    Keybind {
                        keys: entry.keys.clone(),
                        description: entry.description.clone(),
                        application: app_name.clone(),
                    },
                );
                proof {
                    assert(keybinds.deep_view() =~~= pre.push(
                        KeybindV {
                            keys: ev[e as int].keys,
                            description: ev[e as int].description,
                            application: lv[g as int].application,
                        },
                    ));
                    assert(keybinds.deep_view() =~= records_of_loaded(lv.take(g as int))
                        + entries_to_records(ev.take(e + 1), lv[g as int].application));
                }
                e = e + 1;
            }
            proof {
                assert(ev.take(ev.len() as int) =~= ev);
                assert(keybinds.deep_view() =~= records_of_loaded(lv.take(g + 1)));
            }
            g = g + 1;
        }
        proof {
            assert(lv.take(loaded@.len() as int) =~= lv);
        }
        let sorted = sort_names(&groups);
        let active: String;
        if sorted.len() > 0 {
            active = sorted[0].clone();
            proof {
                broadcast use vstd::seq_lib::group_to_multiset_ensures;

                crate::groups::lemma_sort_lex_ensures(groups.deep_view());
                assert(sorted.deep_view().contains(active@));
                assert(sorted.deep_view().to_multiset().count(active@) > 0);
                assert(groups.deep_view().contains(active@));
            }
        } else {
            active = "default".to_owned();
        }
        let ghost groups_before = groups.deep_view();
        if !contains_name(&groups, &active) {
            let ghost pre_groups = groups.deep_view();
            groups.push(active.clone());
            proof {
                assert(groups.deep_view() =~~= pre_groups.push(active@));
                assert forall|i: int|
                    0 <= i < keybinds.deep_view().len() implies groups.deep_view().contains(
                    #[trigger] keybinds.deep_view()[i].application,
                ) by {
                    let k = choose|k: int|
                        0 <= k < pre_groups.len() && pre_groups[k]
                            == keybinds.deep_view()[i].application;
                    assert(groups.deep_view()[k] == keybinds.deep_view()[i].application);
                }
                assert(groups.deep_view()[groups.deep_view().len() - 1] == active@);
                assert(groups.deep_view().contains(active@));
            }
        } else {
            proof {
                assert(groups.deep_view().contains(active@));
            }
        }
        proof {
            if groups_before.contains(active@) {
                let k = choose|k: int|
                    0 <= k < groups_before.len() && groups_before[k] == active@;
                assert(groups.deep_view()[k] == active@);
                assert(groups.deep_view().contains(active@));
            }
        }
        let has_records = keybinds.len() > 0;
        let status = if has_records {
            "Keybinds loaded.".to_owned()
        } else {
            "Welcome to ctrlset!".to_owned()
        };
        let mut r = AppState {
            keybinds,
            all_applications: groups,
            filtered_items: Vec::new(),
            selected_cell: (0, 0),
            mode: Mode::Normal,
            pending: Pending::Idle,
            search_query: String::new(),
            command_buffer: String::new(),
            status_message: status,
            current_application: active,
            app_search_query: String::new(),
            app_filter_selected_index: 0,
            temp_edit_buffer: String::new(),
            is_listening_for_keybind: false,
            ignore_next_input_frame: false,
            should_quit: false,
            just_created_new_keybind: false,
            dirty: false,
            undo_history: Vec::new(),
            keymap,
        };
        assert(r@.wf_core());
        let ghost before = r@;
        r.refilter();
        proof {
            assert(before.filtered_items =~= Seq::<FilteredItemV>::empty());
            assert(before.undo_history =~= Seq::<Seq<KeybindV>>::empty());
            assert(r@ == initial_state(lv, keymap@));
        }
        r
    }

    /// The known group names, sorted lexicographically.
    pub fn get_all_applications(&self) -> (r: Vec<String>)
        ensures
            r.deep_view() == crate::groups::sort_lex(self@.all_applications),
    {
        sort_names(&self.all_applications)
    }

    /// Records a status message; persistence failures are reported through
    /// this, leaving every other part of the session untouched.
    pub fn set_status(&mut self, msg: String)
        ensures
            final(self)@ == (SessionV { status_message: msg@, ..old(self)@ }),
    {
        self.status_message = msg;
    }
}

/// A thin shell around the session, as the host event loop owns it.
pub struct App {
    pub state: AppState,
}

impl App {
    /// Builds the shell and its session from loaded data and key mapping.
    pub fn new(loaded: Vec<AppKeybinds>, keymap: Keymap) -> (r: App)
        ensures
            r.state@ == initial_state(loaded.deep_view(), keymap@),
            r.state@.wf(),
    {
        App { state: AppState::new(loaded, keymap) }
    }
}

/// The chord/description pairs of one group's records, in store order.
pub open spec fn group_entries(recs: Seq<KeybindV>, app: Seq<char>) -> Seq<KeybindEntryV>
    decreases recs.len(),
{
    if recs.len() == 0 {
        Seq::empty()
    } else {
        group_entries(recs.drop_last(), app) + (if recs.last().application == app {
            seq![KeybindEntryV { keys: recs.last().keys, description: recs.last().description }]
        } else {
            Seq::<KeybindEntryV>::empty()
        })
    }
}

/// The store with every record of the given group dropped.
pub open spec fn without_group(recs: Seq<KeybindV>, app: Seq<char>) -> Seq<KeybindV>
    decreases recs.len(),
{
    if recs.len() == 0 {
        Seq::empty()
    } else {
        without_group(recs.drop_last(), app) + (if recs.last().application == app {
            Seq::<KeybindV>::empty()
        } else {
            seq![recs.last()]
        })
    }
}

/// The records of the given group, in store order.
pub open spec fn members_of_group(recs: Seq<KeybindV>, app: Seq<char>) -> Seq<KeybindV>
    decreases recs.len(),
{
    if recs.len() == 0 {
        Seq::empty()
    } else {
        members_of_group(recs.drop_last(), app) + (if recs.last().application == app {
            seq![recs.last()]
        } else {
            Seq::<KeybindV>::empty()
        })
    }
}

/// The store after a merge: each imported pair appended as a record of the
/// group, except pairs that exactly duplicate a pre-existing record of it.
pub open spec fn merged_records(
    base: Seq<KeybindV>,
    existing: Seq<KeybindV>,
    entries: Seq<KeybindEntryV>,
    app: Seq<char>,
) -> Seq<KeybindV>
    decreases entries.len(),
{
    if entries.len() == 0 {
        base
    } else {
        let m = merged_records(base, existing, entries.drop_last(), app);
        let kb = KeybindV {
            keys: entries.last().keys,
            description: entries.last().description,
            application: app,
        };
        if existing.contains(kb) {
            m
        } else {
            m.push(kb)
        }
    }
}

/// An import: an undo snapshot pushed first; the group made known; in
/// replace mode its old records dropped and every pair taken, in merge mode
/// its old records kept and only non-duplicate pairs appended; the session
/// dirty and the view refreshed.
pub open spec fn import_step(
    s: SessionV,
    app: Seq<char>,
    entries: Seq<KeybindEntryV>,
    replace: bool,
) -> SessionV {
    let s1 = push_undo_step(s);
    let groups2 = if s1.all_applications.contains(app) {
        s1.all_applications
    } else {
        s1.all_applications.push(app)
    };
    let base = if replace {
        without_group(s1.keybinds, app)
    } else {
        s1.keybinds
    };
    let existing = if replace {
        Seq::<KeybindV>::empty()
    } else {
        members_of_group(s1.keybinds, app)
    };
    refiltered(
        SessionV {
            keybinds: merged_records(base, existing, entries, app),
            all_applications: groups2,
            dirty: true,
            status_message: "Import successful."@,
            ..s1
        },
    )
}

/// Removing a record keeps every remaining record's group known.
pub(crate) proof fn lemma_remove_keeps_groups(
    recs: Seq<KeybindV>,
    groups: Seq<Seq<char>>,
    i: int,
)
    requires
        0 <= i < recs.len(),
        forall|k: int| 0 <= k < recs.len() ==> groups.contains(#[trigger] recs[k].application),
    ensures
        forall|k: int|
            0 <= k < recs.remove(i).len() ==> groups.contains(
                #[trigger] recs.remove(i)[k].application,
            ),
{
    assert forall|k: int|
        0 <= k < recs.remove(i).len() implies groups.contains(
        #[trigger] recs.remove(i)[k].application,
    ) by {
        if k < i {
            assert(recs.remove(i)[k] == recs[k]);
        } else {
            assert(recs.remove(i)[k] == recs[k + 1]);
        }
    }
}

/// Names stay contained when another name is appended.
pub(crate) proof fn lemma_contains_after_push(s: Seq<Seq<char>>, x: Seq<char>, y: Seq<char>)
    requires
        s.contains(x),
    ensures
        s.push(y).contains(x),
{
    let k = choose|k: int| 0 <= k < s.len() && s[k] == x;
    assert(s.push(y)[k] == x);
}

/// Decides whether an exactly equal record is already present.
fn contains_keybind(v: &Vec<Keybind>, kb: &Keybind) -> (r: bool)
    ensures
        r == v.deep_view().contains(kb@),
{
    let mut i: usize = 0;
    while i < v.len()
        invariant
            i <= v@.len(),
            forall|k: int| 0 <= k < i ==> v.deep_view()[k] != kb@,
        decreases v@.len() - i,
    {
        assert(v.deep_view()[i as int] == v@[i as int]@);
        if v[i].keys == kb.keys && v[i].description == kb.description && v[i].application
            == kb.application {
            assert(v.deep_view()[i as int] =~~= kb@);
            assert(v.deep_view().contains(kb@));
            return true;
        }
        assert(v.deep_view()[i as int] != kb@);
        i = i + 1;
    }
    assert(!v.deep_view().contains(kb@));
    false
}

impl AppState {
    /// The chord/description pairs of one group, as handed to the
    /// persistence collaborator on save and export.
    pub fn entries_for_group(&self, app: &String) -> (r: Vec<KeybindEntry>)
        ensures
            r.deep_view() == group_entries(self@.keybinds, app@),
    {
        let ghost recs = self@.keybinds;
        let mut r: Vec<KeybindEntry> = Vec::new();
        let mut i: usize = 0;
        proof {
            assert(recs.take(0) =~= Seq::<KeybindV>::empty());
        }
        while i < self.keybinds.len()
            invariant
                i <= recs.len(),
                recs == self@.keybinds,
                r.deep_view() == group_entries(recs.take(i as int), app@),
            decreases recs.len() - i,
        {
            proof {
                assert(recs.take(i + 1).drop_last() =~= recs.take(i as int));
                assert(recs.take(i + 1).last() == recs[i as int]);
                assert(recs[i as int] == self.keybinds@[i as int]@);
            }
            let kb = &self.keybinds[i];
            if kb.application == *app {
                let ghost pre = r.deep_view();
                r.push(KeybindEntry { keys: kb.keys.clone(), description: kb.description.clone() });
                proof {
                    assert(r.deep_view() =~~= pre.push(
                        KeybindEntryV { keys: recs[i as int].keys, description: recs[i as int].description },
                    ));
                    assert(r.deep_view() =~= group_entries(recs.take(i + 1), app@));
                }
            }
            i = i + 1;
        }
        proof {
            assert(recs.take(recs.len() as int) =~= recs);
        }
        r
    }

    /// Reports the outcome of a save of the active group: on success the
    /// session is clean and says so; on failure it stays dirty and says so.
    pub fn save_finished(&mut self, ok: bool)
        ensures
            final(self)@ == (if ok {
                SessionV {
                    dirty: false,
                    status_message: "Saved "@ + old(self)@.current_application + " successfully."@,
                    ..old(self)@
                }
            } else {
                SessionV {
                    status_message: "Error: Failed to save "@ + old(self)@.current_application
                        + "."@,
                    ..old(self)@
                }
            }),
    {
        if ok {
            let mut msg = "Saved ".to_owned();
            msg.append(self.current_application.as_str());
            msg.append(" successfully.");
            self.status_message = msg;
            self.dirty = false;
        } else {
            let mut msg = "Error: Failed to save ".to_owned();
            msg.append(self.current_application.as_str());
            msg.append(".");
            self.status_message = msg;
        }
    }

    /// Imports one group's pairs from the persistence collaborator, merging
    /// or replacing; an undo snapshot is pushed before anything changes.
    #[verifier::rlimit(100)]
    #[verifier::spinoff_prover]
    pub fn import_group(&mut self, application: String, entries: Vec<KeybindEntry>, replace: bool)
        requires
            old(self)@.wf(),
        ensures
            final(self)@ == import_step(old(self)@, application@, entries.deep_view(), replace),
            final(self)@.wf(),
    {
        let ghost s = old(self)@;
        self.push_to_undo_history();
        proof {
            lemma_push_wf_core(s);
        }
        let ghost s1 = push_undo_step(s);
        assert(self@ == s1);
        if !contains_name(&self.all_applications, &application) {
            let ghost pre_groups = self@.all_applications;
            self.all_applications.push(application.clone());
            proof {
                assert(self@.all_applications =~~= pre_groups.push(application@));
                lemma_contains_after_push(pre_groups, s1.current_application, application@);
                assert forall|i: int|
                    0 <= i < self@.keybinds.len() implies self@.all_applications.contains(
                    #[trigger] self@.keybinds[i].application,
                ) by {
                    lemma_contains_after_push(pre_groups, s1.keybinds[i].application, application@);
                }
                assert forall|h: int, i: int|
                    0 <= h < self@.undo_history.len() && 0 <= i < self@.undo_history[h].len()
                    implies self@.all_applications.contains(
                    #[trigger] self@.undo_history[h][i].application,
                ) by {
                    lemma_contains_after_push(
                        pre_groups,
                        s1.undo_history[h][i].application,
                        application@,
                    );
                }
                assert(self@.all_applications[self@.all_applications.len() - 1] == application@);
                assert(self@.all_applications.contains(application@));
            }
        } else {
            assert(self@.all_applications.contains(application@));
        }
        let ghost groups2 = self@.all_applications;
        assert(self@ == (SessionV { all_applications: groups2, ..s1 }));
        assert(self@.wf_core());
        let ghost base = if replace {
            without_group(s1.keybinds, application@)
        } else {
            s1.keybinds
        };
        let ghost existing_spec = if replace {
            Seq::<KeybindV>::empty()
        } else {
            members_of_group(s1.keybinds, application@)
        };
        let mut existing: Vec<Keybind> = Vec::new();
        if replace {
            let mut kept: Vec<Keybind> = Vec::new();
            let mut i: usize = 0;
            proof {
                assert(s1.keybinds.take(0) =~= Seq::<KeybindV>::empty());
            }
            while i < self.keybinds.len()
                invariant
                    i <= self.keybinds@.len(),
                    self@.keybinds == s1.keybinds,
                    kept.deep_view() == without_group(s1.keybinds.take(i as int), application@),
                    forall|k: int|
                        0 <= k < s1.keybinds.len() ==> groups2.contains(
                            #[trigger] s1.keybinds[k].application,
                        ),
                    forall|k: int|
                        0 <= k < kept.deep_view().len() ==> groups2.contains(
                            #[trigger] kept.deep_view()[k].application,
                        ),
                decreases self.keybinds@.len() - i,
            {
                proof {
                    assert(s1.keybinds.take(i + 1).drop_last() =~= s1.keybinds.take(i as int));
                    assert(s1.keybinds.take(i + 1).last() == s1.keybinds[i as int]);
                    assert(s1.keybinds[i as int] == self.keybinds@[i as int]@);
                }
                let kb = &self.keybinds[i];
                if !(kb.application == application) {
                    let ghost pre = kept.deep_view();
                    kept.push(kb.clone());
                    proof {
                        assert(kept.deep_view() =~~= pre.push(s1.keybinds[i as int]));
                        assert(kept.deep_view() =~= without_group(
                            s1.keybinds.take(i + 1),
                            application@,
                        ));
                    }
                }
                i = i + 1;
            }
            proof {
                assert(s1.keybinds.take(s1.keybinds.len() as int) =~= s1.keybinds);
            }
            self.keybinds = kept;
        } else {
            let mut i: usize = 0;
            proof {
                assert(s1.keybinds.take(0) =~= Seq::<KeybindV>::empty());
            }
            while i < self.keybinds.len()
                invariant
                    i <= self.keybinds@.len(),
                    self@.keybinds == s1.keybinds,
                    existing.deep_view() == members_of_group(
                        s1.keybinds.take(i as int),
                        application@,
                    ),
                decreases self.keybinds@.len() - i,
            {
                proof {
                    assert(s1.keybinds.take(i + 1).drop_last() =~= s1.keybinds.take(i as int));
                    assert(s1.keybinds.take(i + 1).last() == s1.keybinds[i as int]);
                    assert(s1.keybinds[i as int] == self.keybinds@[i as int]@);
                }
                let kb = &self.keybinds[i];
                if kb.application == application {
                    let ghost pre = existing.deep_view();
                    existing.push(kb.clone());
                    proof {
                        assert(existing.deep_view() =~~= pre.push(s1.keybinds[i as int]));
                        assert(existing.deep_view() =~= members_of_group(
                            s1.keybinds.take(i + 1),
                            application@,
                        ));
                    }
                }
                i = i + 1;
            }
            proof {
                assert(s1.keybinds.take(s1.keybinds.len() as int) =~= s1.keybinds);
            }
        }
        assert(self@.keybinds == base);
        assert(existing.deep_view() == existing_spec);
        assert(forall|i: int|
            0 <= i < base.len() ==> groups2.contains(#[trigger] base[i].application));
        let ghost ev = entries.deep_view();
        let mut e: usize = 0;
        while e < entries.len()
            invariant
                e <= ev.len(),
                ev == entries.deep_view(),
                existing.deep_view() == existing_spec,
                self@.keybinds == merged_records(base, existing_spec, ev.take(e as int), application@),
                self@ == (SessionV {
                    keybinds: merged_records(base, existing_spec, ev.take(e as int), application@),
                    all_applications: groups2,
                    ..s1
                }),
                forall|i: int|
                    0 <= i < base.len() ==> groups2.contains(#[trigger] base[i].application),
                groups2.contains(application@),
                forall|i: int|
                    0 <= i < self@.keybinds.len() ==> groups2.contains(
                        #[trigger] self@.keybinds[i].application,
                    ),
            decreases ev.len() - e,
        {
            proof {
                assert(ev.take(e + 1).drop_last() =~= ev.take(e as int));
                assert(ev.take(e + 1).last() == ev[e as int]);
                assert(ev[e as int] == entries@[e as int]@);
            }
            let entry = &entries[e];
            let kb = Keybind {
                keys: entry.keys.clone(),
                description: entry.description.clone(),
                application: application.clone(),
            };
            assert(kb@ == (KeybindV {
                keys: ev[e as int].keys,
                description: ev[e as int].description,
                application: application@,
            }));
            if !contains_keybind(&existing, &kb) {
                let ghost pre = self@.keybinds;
                self.keybinds.push(kb);
                proof {
                    assert(self@.keybinds =~~= pre.push(
                        KeybindV {
                            keys: ev[e as int].keys,
                            description: ev[e as int].description,
                            application: application@,
                        },
                    ));
                }
            }
            assert(self@.keybinds =~= merged_records(
                base,
                existing_spec,
                ev.take(e + 1),
                application@,
            ));
            e = e + 1;
        }
        proof {
            assert(ev.take(ev.len() as int) =~= ev);
        }
        self.dirty = true;
        self.status_message = "Import successful.".to_owned();
        let ghost pre_refilter = SessionV {
            keybinds: merged_records(base, existing_spec, ev, application@),
            all_applications: groups2,
            dirty: true,
            status_message: "Import successful."@,
            ..s1
        };
        assert(self@ == pre_refilter);
        assert(pre_refilter.wf_core());
        self.refilter();
        assert(self@ == import_step(s, application@, ev, replace));
    }
}

/// A record inserted at a position of the full sequence (clamped to its
/// end), with the view refreshed.
pub open spec fn store_insert_step(s: SessionV, kb: KeybindV, pos: int) -> SessionV {
    let p = if pos < s.keybinds.len() {
        pos
    } else {
        s.keybinds.len() as int
    };
    refiltered(SessionV { keybinds: s.keybinds.insert(p, kb), ..s })
}

/// A record removed from a position of the full sequence, with the view
/// refreshed; out of range, nothing happens.
pub open spec fn store_remove_step(s: SessionV, pos: int) -> SessionV {
    if 0 <= pos < s.keybinds.len() {
        refiltered(SessionV { keybinds: s.keybinds.remove(pos), ..s })
    } else {
        s
    }
}

/// One field of one record overwritten, with the view refreshed; out of
/// range, nothing happens. The dirty flag is untouched: the caller decides
/// dirtiness by comparing old and new value.
pub open spec fn mutate_field_step(s: SessionV, pos: int, column: int, value: Seq<char>) -> SessionV {
    if 0 <= pos < s.keybinds.len() && 0 <= column <= 1 {
        let kb = s.keybinds[pos];
        let kb2 = if column == 0 {
            KeybindV { keys: value, ..kb }
        } else {
            KeybindV { description: value, ..kb }
        };
        refiltered(SessionV { keybinds: s.keybinds.update(pos, kb2), ..s })
    } else {
        s
    }
}

impl AppState {
    /// Inserts a record at a position of the full (unfiltered) sequence,
    /// clamped to its end, and refreshes the view.
    pub fn insert_record(&mut self, kb: Keybind, pos: usize)
        requires
            old(self)@.wf(),
            old(self)@.all_applications.contains(kb@.application),
        ensures
            final(self)@ == store_insert_step(old(self)@, kb@, pos as int),
            final(self)@.wf(),
    {
        let ghost s = old(self)@;
        let ghost kbv = kb@;
        let p = if pos < self.keybinds.len() {
            pos
        } else {
            self.keybinds.len()
        };
        self.keybinds.insert(p, kb);
        proof {
            assert(self@.keybinds =~~= s.keybinds.insert(p as int, kbv));
            assert forall|i: int|
                0 <= i < self@.keybinds.len() implies self@.all_applications.contains(
                #[trigger] self@.keybinds[i].application,
            ) by {
                if i < p {
                    assert(self@.keybinds[i] == s.keybinds[i]);
                } else if i == p {
                    assert(self@.keybinds[i] == kbv);
                } else {
                    assert(self@.keybinds[i] == s.keybinds[i - 1]);
                }
            }
            assert(self@.wf_core());
        }
        self.refilter();
        assert(self@ == store_insert_step(s, kbv, pos as int));
    }

    /// Removes and returns the record at a position of the full sequence,
    /// refreshing the view; out of range it fails silently, as callers are
    /// expected to pre-validate through the filtered view.
    pub fn remove_record(&mut self, pos: usize) -> (r: Option<Keybind>)
        requires
            old(self)@.wf(),
        ensures
            final(self)@ == store_remove_step(old(self)@, pos as int),
            final(self)@.wf(),
            (r is Some) == (pos < old(self)@.keybinds.len()),
            r is Some ==> r->Some_0@ == old(self)@.keybinds[pos as int],
    {
        let ghost s = old(self)@;
        if pos < self.keybinds.len() {
            let removed = self.keybinds.remove(pos);
            proof {
                assert(self@.keybinds =~~= s.keybinds.remove(pos as int));
                lemma_remove_keeps_groups(s.keybinds, s.all_applications, pos as int);
                assert(self@.wf_core());
            }
            self.refilter();
            assert(self@ == store_remove_step(s, pos as int));
            Option::Some(removed)
        } else {
            assert(self@ == store_remove_step(s, pos as int));
            Option::None
        }
    }

    /// Overwrites one field of the record at a position of the full
    /// sequence and refreshes the view; out of range it fails silently.
    /// The dirty flag is untouched: the caller decides dirtiness by
    /// comparing old and new value.
    pub fn mutate_field(&mut self, pos: usize, column: usize, value: String)
        requires
            old(self)@.wf(),
        ensures
            final(self)@ == mutate_field_step(old(self)@, pos as int, column as int, value@),
            final(self)@.wf(),
    {
        let ghost s = old(self)@;
        if pos < self.keybinds.len() && column <= 1 {
            let ghost kb = s.keybinds[pos as int];
            let ghost kb2 = if column as int == 0 {
                KeybindV { keys: value@, ..kb }
            } else {
                KeybindV { description: value@, ..kb }
            };
            if column == 0 {
                self.keybinds[pos].keys = value;
            } else {
                self.keybinds[pos].description = value;
            }
            proof {
                assert(self@.keybinds =~~= s.keybinds.update(pos as int, kb2));
                assert forall|i: int|
                    0 <= i < self@.keybinds.len() implies self@.all_applications.contains(
                    #[trigger] self@.keybinds[i].application,
                ) by {
                    if i != pos as int {
                        assert(self@.keybinds[i] == s.keybinds[i]);
                    } else {
                        assert(self@.keybinds[i].application == s.keybinds[i].application);
                    }
                }
                assert(self@.wf_core());
            }
            self.refilter();
            assert(self@ == mutate_field_step(s, pos as int, column as int, value@));
        } else {
            assert(self@ == mutate_field_step(s, pos as int, column as int, value@));
        }
    }

    /// Adds a group name to the known set; a name already known is left
    /// alone.
    pub fn add_group(&mut self, name: String)
        requires
            old(self)@.wf(),
        ensures
            final(self)@ == (if old(self)@.all_applications.contains(name@) {
                old(self)@
            } else {
                SessionV {
                    all_applications: old(self)@.all_applications.push(name@),
                    ..old(self)@
                }
            }),
            final(self)@.wf(),
    {
        let ghost s = old(self)@;
        if !contains_name(&self.all_applications, &name) {
            let ghost namev = name@;
            self.all_applications.push(name);
            proof {
                assert(self@.all_applications =~~= s.all_applications.push(namev));
                lemma_contains_after_push(s.all_applications, s.current_application, namev);
                assert forall|i: int|
                    0 <= i < self@.keybinds.len() implies self@.all_applications.contains(
                    #[trigger] self@.keybinds[i].application,
                ) by {
                    lemma_contains_after_push(
                        s.all_applications,
                        s.keybinds[i].application,
                        namev,
                    );
                }
                assert forall|h: int, i: int|
                    0 <= h < self@.undo_history.len() && 0 <= i < self@.undo_history[h].len()
                    implies self@.all_applications.contains(
                    #[trigger] self@.undo_history[h][i].application,
                ) by {
                    lemma_contains_after_push(
                        s.all_applications,
                        s.undo_history[h][i].application,
                        namev,
                    );
                }
                assert(self@.wf_core());
            }
        }
    }
}

/// Law: after a snapshot push, any mutation that leaves the history alone
/// (as every mutation of the store does) is strictly inverted by undo: the
/// records return to exactly their snapshotted content.
pub proof fn lemma_undo_restores(s: SessionV, mutated: SessionV)
    requires
        mutated.undo_history == push_undo_step(s).undo_history,
    ensures
        undo_step(mutated).keybinds == s.keybinds,
{
    let pushed = push_undo_step(s);
    assert(pushed.undo_history.last() == s.keybinds);
}

/// Law: the undo history never grows past its bound; pushing at the bound
/// evicts exactly the oldest snapshot, never a newer one.
pub proof fn lemma_history_bounded(s: SessionV)
    requires
        s.undo_history.len() <= MAX_UNDO_HISTORY,
    ensures
        push_undo_step(s).undo_history.len() <= MAX_UNDO_HISTORY,
        push_undo_step(s).undo_history.last() == s.keybinds,
        s.undo_history.len() == MAX_UNDO_HISTORY ==> push_undo_step(s).undo_history
            =~= s.undo_history.drop_first().push(s.keybinds),
        s.undo_history.len() < MAX_UNDO_HISTORY ==> push_undo_step(s).undo_history
            =~= s.undo_history.push(s.keybinds),
{
}

/// Law: in a well-formed session the filtered view has exactly one row per
/// record whose group is the active group and whose combined text matches
/// the cleaned query.
pub proof fn lemma_view_row_count(s: SessionV)
    requires
        s.wf(),
    ensures
        s.filtered_items.len() == count_matching(
            s.keybinds,
            s.current_application,
            clean_query(s.search_query),
            s.keybinds.len() as int,
        ),
{
    lemma_filtered_view_structure(s.keybinds, s.current_application, clean_query(s.search_query));
}

} // verus!
