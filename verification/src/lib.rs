use vstd::prelude::*;

pub mod capture;
pub mod command;
pub mod filterview;
pub mod fuzzy;
pub mod groups;
pub mod handlers;
pub mod keymap;
pub mod records;
pub mod session;
pub mod text;

verus! {

/// Bound on the undo history: pushing past it evicts the oldest snapshot.
pub const MAX_UNDO_HISTORY: usize = 20;

} // verus!
