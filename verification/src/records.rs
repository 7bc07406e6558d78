use vstd::prelude::*;

verus! {

/// Ghost model of a record: the three string fields as character sequences.
#[verifier::ext_equal]
pub struct KeybindV {
    pub keys: Seq<char>,
    pub description: Seq<char>,
    pub application: Seq<char>,
}

/// A single record: a chord label (may be empty while being edited), a
/// free-text description (may be empty), and the name of the application
/// group that owns it.
pub struct Keybind {
    pub keys: String,
    pub description: String,
    pub application: String,
}

impl View for Keybind {
    type V = KeybindV;

    open spec fn view(&self) -> KeybindV {
        KeybindV {
            keys: self.keys@,
            description: self.description@,
            application: self.application@,
        }
    }
}

impl DeepView for Keybind {
    type V = KeybindV;

    open spec fn deep_view(&self) -> KeybindV {
        self.view()
    }
}

impl Clone for Keybind {
    fn clone(&self) -> (r: Self)
        ensures
            r@ == self@,
    {
        Keybind {
            keys: self.keys.clone(),
            description: self.description.clone(),
            application: self.application.clone(),
        }
    }
}

impl Keybind {
    /// Builds an empty record owned by the given application group.
    pub fn blank(application: String) -> (r: Keybind)
        ensures
            r@ == (KeybindV {
                keys: Seq::empty(),
                description: Seq::empty(),
                application: application@,
            }),
    {
        Keybind { keys: String::new(), description: String::new(), application }
    }
}

impl KeybindV {
    /// The text a record is matched against: chord, one space, description.
    pub open spec fn combined_text(self) -> Seq<char> {
        self.keys + seq![' '] + self.description
    }
}

/// Ghost model of a pair carried to and from the persistence collaborator.
#[verifier::ext_equal]
pub struct KeybindEntryV {
    pub keys: Seq<char>,
    pub description: Seq<char>,
}

/// A chord/description pair, as the persistence collaborator hands it in
/// and out: the owning group's name travels beside a list of these.
pub struct KeybindEntry {
    pub keys: String,
    pub description: String,
}

impl View for KeybindEntry {
    type V = KeybindEntryV;

    open spec fn view(&self) -> KeybindEntryV {
        KeybindEntryV { keys: self.keys@, description: self.description@ }
    }
}

impl DeepView for KeybindEntry {
    type V = KeybindEntryV;

    open spec fn deep_view(&self) -> KeybindEntryV {
        self.view()
    }
}

/// Ghost model of one group's worth of loaded records.
#[verifier::ext_equal]
pub struct AppKeybindsV {
    pub application: Seq<char>,
    pub keybinds: Seq<KeybindEntryV>,
}

/// One group's worth of records, as loaded from or saved to persistence.
pub struct AppKeybinds {
    pub application: String,
    pub keybinds: Vec<KeybindEntry>,
}

impl View for AppKeybinds {
    type V = AppKeybindsV;

    open spec fn view(&self) -> AppKeybindsV {
        AppKeybindsV { application: self.application@, keybinds: self.keybinds.deep_view() }
    }
}

impl DeepView for AppKeybinds {
    type V = AppKeybindsV;

    open spec fn deep_view(&self) -> AppKeybindsV {
        self.view()
    }
}

/// Ghost model of one row of the filtered view.
#[verifier::ext_equal]
pub struct FilteredItemV {
    pub original_index: int,
    pub match_indices: Option<Seq<usize>>,
}

/// One row of the filtered view: the index of the record in the full
/// (unfiltered) sequence, and, when a non-empty query matched, the
/// character positions of the match within the record's combined text.
pub struct FilteredItem {
    pub original_index: usize,
    pub match_indices: Option<Vec<usize>>,
}

impl View for FilteredItem {
    type V = FilteredItemV;

    open spec fn view(&self) -> FilteredItemV {
        FilteredItemV {
            original_index: self.original_index as int,
            match_indices: match self.match_indices {
                Option::Some(v) => Option::Some(v@),
                Option::None => Option::None,
            },
        }
    }
}

impl DeepView for FilteredItem {
    type V = FilteredItemV;

    open spec fn deep_view(&self) -> FilteredItemV {
        self.view()
    }
}

/// Clones a record sequence element for element; the undo stack snapshots
/// the store with this.
pub fn clone_keybinds(v: &Vec<Keybind>) -> (r: Vec<Keybind>)
    ensures
        r.deep_view() == v.deep_view(),
{
    let mut r: Vec<Keybind> = Vec::new();
    let mut i: usize = 0;
    while i < v.len()
        invariant
            i <= v.len(),
            r@.len() == i,
            forall|k: int| 0 <= k < i ==> r@[k]@ == v@[k]@,
        decreases v.len() - i,
    {
        r.push(v[i].clone());
        i = i + 1;
    }
    assert forall|k: int| 0 <= k < v@.len() implies r.deep_view()[k] == v.deep_view()[k] by {
        assert(r@[k]@ == v@[k]@);
    }
    assert(r.deep_view() =~= v.deep_view());
    r
}

} // verus!
