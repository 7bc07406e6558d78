use vstd::prelude::*;
use crate::records::{Keybind, KeybindV, FilteredItem, FilteredItemV};
use crate::fuzzy::{fuzzy_indices, fuzzy_indices_of};

verus! {

/// Whether a record belongs in the filtered view: its group is the active
/// group, and the cleaned query is empty or fuzzy-matches its combined text.
pub open spec fn row_passes(kb: KeybindV, active: Seq<char>, cleaned: Seq<char>) -> bool {
    kb.application == active && (cleaned.len() == 0 || fuzzy_indices_of(
        kb.combined_text(),
        cleaned,
    ) is Some)
}

/// The highlighted positions a row carries: none for an empty query, the
/// matcher's positions otherwise.
pub open spec fn row_positions(kb: KeybindV, cleaned: Seq<char>) -> Option<Seq<usize>> {
    if cleaned.len() == 0 {
        Option::None
    } else {
        Option::Some(fuzzy_indices_of(kb.combined_text(), cleaned)->Some_0)
    }
}

/// The filtered view over the first n records.
pub open spec fn filtered_prefix(
    records: Seq<KeybindV>,
    active: Seq<char>,
    cleaned: Seq<char>,
    n: int,
) -> Seq<FilteredItemV>
    decreases n,
{
    if n <= 0 {
        Seq::empty()
    } else {
        let pre = filtered_prefix(records, active, cleaned, n - 1);
        if row_passes(records[n - 1], active, cleaned) {
            pre.push(
                FilteredItemV {
                    original_index: n - 1,
                    match_indices: row_positions(records[n - 1], cleaned),
                },
            )
        } else {
            pre
        }
    }
}

/// The filtered view: one row per matching record, in the records' order.
pub open spec fn filtered_view(
    records: Seq<KeybindV>,
    active: Seq<char>,
    cleaned: Seq<char>,
) -> Seq<FilteredItemV> {
    filtered_prefix(records, active, cleaned, records.len() as int)
}

/// How many of the first n records belong in the filtered view.
pub open spec fn count_matching(
    records: Seq<KeybindV>,
    active: Seq<char>,
    cleaned: Seq<char>,
    n: int,
) -> int
    decreases n,
{
    if n <= 0 {
        0
    } else {
        count_matching(records, active, cleaned, n - 1) + (if row_passes(
            records[n - 1],
            active,
            cleaned,
        ) {
            1int
        } else {
            0int
        })
    }
}

proof fn lemma_filtered_prefix_structure(
    records: Seq<KeybindV>,
    active: Seq<char>,
    cleaned: Seq<char>,
    n: int,
)
    requires
        0 <= n <= records.len(),
    ensures
        filtered_prefix(records, active, cleaned, n).len() == count_matching(
            records,
            active,
            cleaned,
            n,
        ),
        forall|j: int|
            0 <= j < filtered_prefix(records, active, cleaned, n).len() ==> {
                let it = #[trigger] filtered_prefix(records, active, cleaned, n)[j];
                0 <= it.original_index < n && row_passes(records[it.original_index], active, cleaned)
                    && it.match_indices == row_positions(records[it.original_index], cleaned)
            },
        forall|j1: int, j2: int|
            0 <= j1 < j2 < filtered_prefix(records, active, cleaned, n).len()
                ==> filtered_prefix(records, active, cleaned, n)[j1].original_index
                < filtered_prefix(records, active, cleaned, n)[j2].original_index,
        forall|i: int|
            0 <= i < n && row_passes(records[i], active, cleaned) ==> exists|j: int|
                0 <= j < filtered_prefix(records, active, cleaned, n).len()
                    && filtered_prefix(records, active, cleaned, n)[j].original_index == i,
    decreases n,
{
    if n > 0 {
        lemma_filtered_prefix_structure(records, active, cleaned, n - 1);
        let pre = filtered_prefix(records, active, cleaned, n - 1);
        let v = filtered_prefix(records, active, cleaned, n);
        if row_passes(records[n - 1], active, cleaned) {
            assert(v[v.len() - 1].original_index == n - 1);
            assert forall|i: int|
                0 <= i < n && row_passes(records[i], active, cleaned) implies exists|j: int|
                0 <= j < v.len() && v[j].original_index == i by {
                if i < n - 1 {
                    let j = choose|j: int| 0 <= j < pre.len() && pre[j].original_index == i;
                    assert(v[j].original_index == i);
                } else {
                    assert(v[v.len() - 1].original_index == i);
                }
            }
        }
    }
}

/// Law: after any rebuild, the filtered view has exactly one row for each
/// record whose group is the active group and whose combined text matches
/// the cleaned query; rows point at matching records, carry that record's
/// match positions, and keep the records' original order.
pub proof fn lemma_filtered_view_structure(
    records: Seq<KeybindV>,
    active: Seq<char>,
    cleaned: Seq<char>,
)
    ensures
        filtered_view(records, active, cleaned).len() == count_matching(
            records,
            active,
            cleaned,
            records.len() as int,
        ),
        forall|j: int|
            0 <= j < filtered_view(records, active, cleaned).len() ==> {
                let it = #[trigger] filtered_view(records, active, cleaned)[j];
                0 <= it.original_index < records.len() && row_passes(
                    records[it.original_index],
                    active,
                    cleaned,
                ) && it.match_indices == row_positions(records[it.original_index], cleaned)
            },
        forall|j1: int, j2: int|
            0 <= j1 < j2 < filtered_view(records, active, cleaned).len() ==> filtered_view(
                records,
                active,
                cleaned,
            )[j1].original_index < filtered_view(records, active, cleaned)[j2].original_index,
        forall|i: int|
            0 <= i < records.len() && row_passes(records[i], active, cleaned) ==> exists|j: int|
                0 <= j < filtered_view(records, active, cleaned).len() && filtered_view(
                    records,
                    active,
                    cleaned,
                )[j].original_index == i,
{
    lemma_filtered_prefix_structure(records, active, cleaned, records.len() as int);
}

/// Law: with an empty cleaned query the filtered view lists every record of
/// the active group, in original order, with no highlighted positions.
pub proof fn lemma_empty_query_matches_all(records: Seq<KeybindV>, active: Seq<char>)
    ensures
        forall|j: int|
            0 <= j < filtered_view(records, active, Seq::<char>::empty()).len() ==> filtered_view(
                records,
                active,
                Seq::<char>::empty(),
            )[j].match_indices is None,
        forall|i: int|
            0 <= i < records.len() && records[i].application == active ==> exists|j: int|
                0 <= j < filtered_view(records, active, Seq::<char>::empty()).len()
                    && filtered_view(records, active, Seq::<char>::empty())[j].original_index == i,
        forall|j1: int, j2: int|
            0 <= j1 < j2 < filtered_view(records, active, Seq::<char>::empty()).len()
                ==> filtered_view(records, active, Seq::<char>::empty())[j1].original_index
                < filtered_view(records, active, Seq::<char>::empty())[j2].original_index,
{
    lemma_filtered_view_structure(records, active, Seq::<char>::empty());
}

/// The text a record is matched against: chord, one space, description.
pub fn combined_text_of(kb: &Keybind) -> (r: String)
    ensures
        r@ == kb@.combined_text(),
{
    let mut r = kb.keys.clone();
    r.push(' ');
    r.append(kb.description.as_str());
    proof {
        assert(r@ =~= kb@.keys + seq![' '] + kb@.description);
    }
    r
}

/// Rebuilds the filtered view from the record store, the active group, and
/// the cleaned query.
pub fn build_filtered(records: &Vec<Keybind>, active: &String, cleaned: &String) -> (r: Vec<
    FilteredItem,
>)
    ensures
        r.deep_view() == filtered_view(records.deep_view(), active@, cleaned@),
{
    let empty_query = cleaned.as_str().is_empty();
    let mut r: Vec<FilteredItem> = Vec::new();
    let mut i: usize = 0;
    while i < records.len()
        invariant
            i <= records@.len(),
            empty_query == (cleaned@.len() == 0),
            r.deep_view() == filtered_prefix(records.deep_view(), active@, cleaned@, i as int),
        decreases records@.len() - i,
    {
        let kb = &records[i];
        assert(kb@ == records.deep_view()[i as int]);
        if kb.application == *active {
            if empty_query {
                let ghost pre = r.deep_view();
                r.push(FilteredItem { original_index: i, match_indices: Option::None });
                assert(r.deep_view() =~= pre.push(
                    FilteredItemV { original_index: i as int, match_indices: Option::None },
                ));
            } else {
                let combined = combined_text_of(kb);
                match fuzzy_indices(combined.as_str(), cleaned.as_str()) {
                    Option::Some(idx) => {
                        let ghost pre = r.deep_view();
                        let ghost positions = row_positions(kb@, cleaned@);
                        r.push(FilteredItem { original_index: i, match_indices: Option::Some(idx) });
                        assert(r.deep_view() =~= pre.push(
                            FilteredItemV { original_index: i as int, match_indices: positions },
                        ));
                    },
                    Option::None => {},
                }
            }
        }
        i = i + 1;
    }
    proof {
        assert(r.deep_view() == filtered_prefix(
            records.deep_view(),
            active@,
            cleaned@,
            records@.len() as int,
        ));
    }
    r
}

} // verus!
