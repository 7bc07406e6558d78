use vstd::prelude::*;
use crate::text::{lex_leq, str_lex_leq};
use vstd::multiset::Multiset;

verus! {

/// The name inserted in front of the first element it is not above.
pub open spec fn insert_lex(x: Seq<char>, s: Seq<Seq<char>>) -> Seq<Seq<char>>
    decreases s.len(),
{
    if s.len() == 0 {
        seq![x]
    } else if lex_leq(x, s[0]) {
        seq![x] + s
    } else {
        seq![s[0]] + insert_lex(x, s.drop_first())
    }
}

/// Insertion sort of a sequence of names, by lexicographic order.
pub open spec fn sort_lex(s: Seq<Seq<char>>) -> Seq<Seq<char>>
    decreases s.len(),
{
    if s.len() == 0 {
        Seq::empty()
    } else {
        insert_lex(s.last(), sort_lex(s.drop_last()))
    }
}

/// Non-decreasing by lexicographic order.
pub open spec fn sorted_lex(s: Seq<Seq<char>>) -> bool {
    forall|i: int, j: int| 0 <= i < j < s.len() ==> lex_leq(s[i], s[j])
}

proof fn lemma_lex_total(a: Seq<char>, b: Seq<char>)
    ensures
        lex_leq(a, b) || lex_leq(b, a),
    decreases a.len(),
{
    if a.len() == 0 || b.len() == 0 {
    } else if (a[0] as u32) == (b[0] as u32) {
        lemma_lex_total(a.drop_first(), b.drop_first());
    }
}

proof fn lemma_lex_trans(a: Seq<char>, b: Seq<char>, c: Seq<char>)
    requires
        lex_leq(a, b),
        lex_leq(b, c),
    ensures
        lex_leq(a, c),
    decreases a.len(),
{
    if a.len() == 0 || b.len() == 0 || c.len() == 0 {
    } else if (a[0] as u32) == (b[0] as u32) && (b[0] as u32) == (c[0] as u32) {
        lemma_lex_trans(a.drop_first(), b.drop_first(), c.drop_first());
    }
}

/// Inserting into a sorted sequence keeps it sorted.
proof fn lemma_insert_lex_sorted(x: Seq<char>, s: Seq<Seq<char>>)
    requires
        sorted_lex(s),
    ensures
        sorted_lex(insert_lex(x, s)),
    decreases s.len(),
{
    if s.len() == 0 {
    } else if lex_leq(x, s[0]) {
        let r = seq![x] + s;
        assert forall|i: int, j: int| 0 <= i < j < r.len() implies lex_leq(r[i], r[j]) by {
            if i == 0 {
                if j == 1 {
                } else {
                    lemma_lex_trans(x, s[0], s[j - 1]);
                }
            }
        }
    } else {
        let d = s.drop_first();
        assert(sorted_lex(d)) by {
            assert(forall|i: int, j: int|
                0 <= i < j < d.len() ==> d[i] == s[i + 1] && d[j] == s[j + 1]);
        }
        lemma_insert_lex_sorted(x, d);
        lemma_lex_total(x, s[0]);
        let rd = insert_lex(x, d);
        let r = seq![s[0]] + rd;
        lemma_insert_lex_multiset(x, d);
        assert forall|i: int, j: int| 0 <= i < j < r.len() implies lex_leq(r[i], r[j]) by {
            if i == 0 {
                // s[0] is below x and below every element of d, hence below
                // every element of rd.
                broadcast use vstd::seq_lib::group_to_multiset_ensures;
                assert(rd.to_multiset().contains(rd[j - 1]));
                if rd[j - 1] == x {
                } else {
                    assert(d.to_multiset().count(rd[j - 1]) > 0);
                    assert(d.contains(rd[j - 1]));
                    let k = choose|k: int| 0 <= k < d.len() && d[k] == rd[j - 1];
                    assert(d[k] == s[k + 1]);
                    assert(lex_leq(s[0], s[k + 1]));
                }
            }
        }
    }
}

/// Inserting adds exactly the one name to the contents.
proof fn lemma_insert_lex_multiset(x: Seq<char>, s: Seq<Seq<char>>)
    ensures
        insert_lex(x, s).to_multiset() =~= s.to_multiset().insert(x),
        insert_lex(x, s).len() == s.len() + 1,
    decreases s.len(),
{
    broadcast use vstd::seq_lib::group_to_multiset_ensures;
    broadcast use vstd::seq_lib::lemma_multiset_commutative;

    if s.len() == 0 {
        assert(seq![x] =~= Seq::<Seq<char>>::empty().push(x));
        assert(seq![x].to_multiset() =~= Seq::<Seq<char>>::empty().to_multiset().insert(x));
    } else if lex_leq(x, s[0]) {
        let r = seq![x] + s;
        assert(r.to_multiset() =~= seq![x].to_multiset().add(s.to_multiset()));
        assert(seq![x] =~= Seq::<Seq<char>>::empty().push(x));
        assert(seq![x].to_multiset() =~= Seq::<Seq<char>>::empty().to_multiset().insert(x));
        assert(r.to_multiset() =~= s.to_multiset().insert(x));
    } else {
        lemma_insert_lex_multiset(x, s.drop_first());
        let rd = insert_lex(x, s.drop_first());
        let r = seq![s[0]] + rd;
        assert(r.to_multiset() =~= seq![s[0]].to_multiset().add(rd.to_multiset()));
        assert(seq![s[0]] + s.drop_first() =~= s);
        assert(s.to_multiset() =~= seq![s[0]].to_multiset().add(s.drop_first().to_multiset()));
        assert(r.to_multiset() =~= s.to_multiset().insert(x));
    }
}

/// Law: sorting a sequence of names keeps exactly its contents and leaves
/// them in lexicographic order; in particular the first element of the
/// sorted sequence is a least element of the input.
pub proof fn lemma_sort_lex_ensures(s: Seq<Seq<char>>)
    ensures
        sort_lex(s).to_multiset() =~= s.to_multiset(),
        sort_lex(s).len() == s.len(),
        sorted_lex(sort_lex(s)),
    decreases s.len(),
{
    broadcast use vstd::seq_lib::group_to_multiset_ensures;
    if s.len() == 0 {
    } else {
        lemma_sort_lex_ensures(s.drop_last());
        lemma_insert_lex_multiset(s.last(), sort_lex(s.drop_last()));
        lemma_insert_lex_sorted(s.last(), sort_lex(s.drop_last()));
        assert(s.drop_last().push(s.last()) =~= s);
        assert(s.drop_last().push(s.last()).to_multiset() =~= s.drop_last().to_multiset().insert(
            s.last(),
        ));
    }
}

/// A sorted copy of the given names, sorted lexicographically.
pub fn sort_names(v: &Vec<String>) -> (r: Vec<String>)
    ensures
        r.deep_view() == sort_lex(v.deep_view()),
{
    let mut r: Vec<String> = Vec::new();
    let mut i: usize = 0;
    proof {
        assert(v.deep_view().take(0) =~= Seq::<Seq<char>>::empty());
    }
    while i < v.len()
        invariant
            i <= v@.len(),
            r.deep_view() == sort_lex(v.deep_view().take(i as int)),
        decreases v@.len() - i,
    {
        insert_sorted(&mut r, v[i].clone());
        proof {
            let t = v.deep_view().take(i + 1);
            assert(t.drop_last() =~= v.deep_view().take(i as int));
            assert(t.last() == v.deep_view()[i as int]);
        }
        i = i + 1;
    }
    proof {
        assert(v.deep_view().take(v@.len() as int) =~= v.deep_view());
    }
    r
}

/// Decides whether a name is already among the known names.
pub fn contains_name(v: &Vec<String>, x: &String) -> (r: bool)
    ensures
        r == v.deep_view().contains(x@),
{
    let mut i: usize = 0;
    while i < v.len()
        invariant
            i <= v@.len(),
            forall|k: int| 0 <= k < i ==> v.deep_view()[k] != x@,
        decreases v@.len() - i,
    {
        assert(v.deep_view()[i as int] == v@[i as int]@);
        if v[i] == *x {
            assert(v.deep_view().contains(x@));
            return true;
        }
        i = i + 1;
    }
    assert(!v.deep_view().contains(x@));
    false
}

/// Where the first j elements all lie strictly below x, inserting x leaves
/// them in place.
proof fn lemma_insert_lex_at(x: Seq<char>, s: Seq<Seq<char>>, j: int)
    requires
        0 <= j <= s.len(),
        forall|k: int| 0 <= k < j ==> !lex_leq(x, s[k]),
        j < s.len() ==> lex_leq(x, s[j]),
    ensures
        insert_lex(x, s) =~~= s.take(j) + seq![x] + s.skip(j),
    decreases j,
{
    if j == 0 {
        if s.len() == 0 {
            assert(insert_lex(x, s) =~~= s.take(0) + seq![x] + s.skip(0));
        } else {
            assert(insert_lex(x, s) =~~= s.take(0) + seq![x] + s.skip(0));
        }
    } else {
        let d = s.drop_first();
        assert(forall|k: int| 0 <= k < j - 1 ==> d[k] == s[k + 1]);
        assert(j - 1 < d.len() ==> d[j - 1] == s[j]);
        lemma_insert_lex_at(x, d, j - 1);
        assert(insert_lex(x, s) == seq![s[0]] + insert_lex(x, d));
        assert(seq![s[0]] + (d.take(j - 1) + seq![x] + d.skip(j - 1)) =~~= s.take(j) + seq![x]
            + s.skip(j));
        assert(insert_lex(x, s) =~~= seq![s[0]] + (d.take(j - 1) + seq![x] + d.skip(j - 1)));
    }
}

/// Inserts a name into an already sorted vector, keeping the order.
fn insert_sorted(v: &mut Vec<String>, x: String)
    ensures
        final(v).deep_view() == insert_lex(x@, old(v).deep_view()),
{
    let mut j: usize = 0;
    loop
        invariant
            j <= v@.len(),
            forall|k: int| 0 <= k < j ==> !lex_leq(x@, v.deep_view()[k]),
            *v == *old(v),
        ensures
            j <= v@.len(),
            forall|k: int| 0 <= k < j ==> !lex_leq(x@, v.deep_view()[k]),
            j < v@.len() ==> lex_leq(x@, v.deep_view()[j as int]),
            *v == *old(v),
        decreases v@.len() - j,
    {
        if j >= v.len() {
            break;
        }
        let below = str_lex_leq(x.as_str(), v[j].as_str());
        assert(v.deep_view()[j as int] == v@[j as int]@);
        if below {
            break;
        }
        j = j + 1;
    }
    proof {
        lemma_insert_lex_at(x@, v.deep_view(), j as int);
    }
    let ghost pre = v.deep_view();
    v.insert(j, x);
    proof {
        assert(v.deep_view() =~~= pre.take(j as int) + seq![x@] + pre.skip(j as int));
    }
}

} // verus!
