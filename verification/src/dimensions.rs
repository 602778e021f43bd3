//! The Dimension Mapper: turns a sample's label set into the bounded,
//! deterministically ordered dimension list of a data point.
//!
//! Labels whose name or value is blank after trimming are dropped, the rest
//! are sorted ascending by name in byte-wise order (a stable insertion sort,
//! so duplicate names keep their input order), and at most [`crate::DIMENSION_MAX`]
//! entries are kept; the excess is handed back so the caller can report it.
use vstd::prelude::*;

verus! {

use crate::DIMENSION_MAX;
use crate::text::{trimmed, trim_text, name_le, str_le, lemma_name_le_total, lemma_name_le_trans};

/// One attribute of an incoming sample: a name/value pair of text.
#[derive(Debug, PartialEq, Eq)]
pub struct Label {
    pub name: String,
    pub value: String,
}

/// One attribute attached to an outgoing data point.
#[derive(Debug, PartialEq, Eq)]
pub struct Dimension {
    pub name: String,
    pub value: String,
}

/// A label qualifies when neither its name nor its value is blank after
/// trimming surrounding whitespace.
pub open spec fn label_qualifies(l: Label) -> bool {
    trimmed(l.name@).len() > 0 && trimmed(l.value@).len() > 0
}

/// The dimension a label becomes: name and value carried over verbatim,
/// untrimmed.
pub open spec fn dim_of_label(l: Label) -> Dimension {
    Dimension { name: l.name, value: l.value }
}

/// The qualifying labels, in input order, as dimensions.
pub open spec fn qualifying_dims(labels: Seq<Label>) -> Seq<Dimension>
    decreases labels.len(),
{
    if labels.len() == 0 {
        Seq::empty()
    } else {
        let rest = qualifying_dims(labels.drop_last());
        if label_qualifies(labels.last()) {
            rest.push(dim_of_label(labels.last()))
        } else {
            rest
        }
    }
}

/// Order on dimensions: by name, byte-wise ascending.
pub open spec fn dim_le(a: Dimension, b: Dimension) -> bool {
    name_le(a.name@, b.name@)
}

/// Sorted ascending by name.
pub open spec fn sorted_by_name(s: Seq<Dimension>) -> bool {
    forall|i: int, j: int| 0 <= i < j < s.len() ==> #[trigger] dim_le(s[i], s[j])
}

/// Inserts `d` into `s` behind every element less or equal to it; on a
/// sorted sequence this is the insertion step of a stable insertion sort.
pub open spec fn insert_sorted(s: Seq<Dimension>, d: Dimension) -> Seq<Dimension>
    decreases s.len(),
{
    if s.len() == 0 {
        seq![d]
    } else if dim_le(s.last(), d) {
        s.push(d)
    } else {
        insert_sorted(s.drop_last(), d).push(s.last())
    }
}

/// Stable insertion sort by name: the order the Dimension Mapper promises.
pub open spec fn sort_dims(s: Seq<Dimension>) -> Seq<Dimension>
    decreases s.len(),
{
    if s.len() == 0 {
        Seq::empty()
    } else {
        insert_sorted(sort_dims(s.drop_last()), s.last())
    }
}

/// The qualifying dimensions of a label set, sorted by name.
pub open spec fn sorted_dims(labels: Seq<Label>) -> Seq<Dimension> {
    sort_dims(qualifying_dims(labels))
}

/// What the Dimension Mapper keeps: the sorted qualifying dimensions,
/// truncated to the first [`crate::DIMENSION_MAX`].
pub open spec fn kept_dims(labels: Seq<Label>) -> Seq<Dimension> {
    let s = sorted_dims(labels);
    if s.len() > DIMENSION_MAX as int {
        s.take(DIMENSION_MAX as int)
    } else {
        s
    }
}

/// What the Dimension Mapper drops: everything past the cap, in the order
/// it stood after sorting.
pub open spec fn dropped_dims(labels: Seq<Label>) -> Seq<Dimension> {
    let s = sorted_dims(labels);
    if s.len() > DIMENSION_MAX as int {
        s.skip(DIMENSION_MAX as int)
    } else {
        Seq::empty()
    }
}

proof fn lemma_insert_sorted_len(s: Seq<Dimension>, d: Dimension)
    ensures
        insert_sorted(s, d).len() == s.len() + 1,
    decreases s.len(),
{
    if s.len() > 0 && !dim_le(s.last(), d) {
        lemma_insert_sorted_len(s.drop_last(), d);
    }
}

/// A property of every element of `s`, and of `d`, holds of every element
/// after the insertion.
proof fn lemma_insert_sorted_all(s: Seq<Dimension>, d: Dimension, p: spec_fn(Dimension) -> bool)
    requires
        forall|k: int| 0 <= k < s.len() ==> p(#[trigger] s[k]),
        p(d),
    ensures
        forall|k: int| 0 <= k < insert_sorted(s, d).len() ==> p(#[trigger] insert_sorted(s, d)[k]),
    decreases s.len(),
{
    let r = insert_sorted(s, d);
    if s.len() == 0 {
        assert forall|k: int| 0 <= k < r.len() implies p(r[k]) by {
            assert(r[k] == d);
        }
    } else if dim_le(s.last(), d) {
        assert forall|k: int| 0 <= k < r.len() implies p(r[k]) by {
            if k < s.len() {
                assert(r[k] == s[k]);
            } else {
                assert(r[k] == d);
            }
        }
    } else {
        let s2 = s.drop_last();
        assert forall|k: int| 0 <= k < s2.len() implies p(s2[k]) by {
            assert(s2[k] == s[k]);
        }
        lemma_insert_sorted_all(s2, d, p);
        lemma_insert_sorted_len(s2, d);
        let r2 = insert_sorted(s2, d);
        assert forall|k: int| 0 <= k < r.len() implies p(r[k]) by {
            if k < r2.len() {
                assert(r[k] == r2[k]);
            } else {
                assert(r[k] == s.last());
                assert(s.last() == s[s.len() - 1]);
            }
        }
    }
}

proof fn lemma_insert_sorted_sorted(s: Seq<Dimension>, d: Dimension)
    requires
        sorted_by_name(s),
    ensures
        sorted_by_name(insert_sorted(s, d)),
    decreases s.len(),
{
    if s.len() == 0 {
    } else if dim_le(s.last(), d) {
        assert forall|k: int| 0 <= k < s.len() implies dim_le(s[k], d) by {
            if k < s.len() - 1 {
                assert(dim_le(s[k], s.last()));
                lemma_name_le_trans(s[k].name@, s.last().name@, d.name@);
            }
        }
        assert(sorted_by_name(s.push(d)));
    } else {
        let s2 = s.drop_last();
        assert(sorted_by_name(s2));
        lemma_insert_sorted_sorted(s2, d);
        lemma_name_le_total(s.last().name@, d.name@);
        assert(dim_le(d, s.last()));
        lemma_insert_sorted_all(
            s2,
            d,
            |x: Dimension| dim_le(x, s.last()),
        );
        lemma_insert_sorted_len(s2, d);
        let r = insert_sorted(s2, d).push(s.last());
        assert forall|i: int, j: int| 0 <= i < j < r.len() implies dim_le(r[i], r[j]) by {
            if j < r.len() - 1 {
                assert(dim_le(insert_sorted(s2, d)[i], insert_sorted(s2, d)[j]));
            }
        }
    }
}

/// The sorted sequence has the length of the input.
pub proof fn lemma_sort_dims_len(s: Seq<Dimension>)
    ensures
        sort_dims(s).len() == s.len(),
    decreases s.len(),
{
    if s.len() > 0 {
        lemma_sort_dims_len(s.drop_last());
        lemma_insert_sorted_len(sort_dims(s.drop_last()), s.last());
    }
}

/// The sorted sequence is sorted ascending by name.
pub proof fn lemma_sort_dims_sorted(s: Seq<Dimension>)
    ensures
        sorted_by_name(sort_dims(s)),
    decreases s.len(),
{
    if s.len() > 0 {
        lemma_sort_dims_sorted(s.drop_last());
        lemma_insert_sorted_sorted(sort_dims(s.drop_last()), s.last());
    }
}

/// A property of every element of `s` holds of every element of the sorted
/// sequence.
pub proof fn lemma_sort_dims_all(s: Seq<Dimension>, p: spec_fn(Dimension) -> bool)
    requires
        forall|k: int| 0 <= k < s.len() ==> p(#[trigger] s[k]),
    ensures
        forall|k: int| 0 <= k < sort_dims(s).len() ==> p(#[trigger] sort_dims(s)[k]),
    decreases s.len(),
{
    if s.len() > 0 {
        assert(forall|k: int| 0 <= k < s.drop_last().len() ==> p(#[trigger] s.drop_last()[k]));
        lemma_sort_dims_all(s.drop_last(), p);
        lemma_insert_sorted_all(sort_dims(s.drop_last()), s.last(), p);
    }
}

/// Every qualifying dimension has a non-blank trimmed name and value.
pub proof fn lemma_qualifying_nonblank(labels: Seq<Label>)
    ensures
        forall|k: int|
            0 <= k < qualifying_dims(labels).len() ==> trimmed(
                #[trigger] qualifying_dims(labels)[k].name@,
            ).len() > 0 && trimmed(qualifying_dims(labels)[k].value@).len() > 0,
    decreases labels.len(),
{
    if labels.len() > 0 {
        lemma_qualifying_nonblank(labels.drop_last());
        let rest = qualifying_dims(labels.drop_last());
        let q = qualifying_dims(labels);
        assert forall|k: int|
            0 <= k < q.len() implies trimmed(q[k].name@).len() > 0 && trimmed(q[k].value@).len()
            > 0 by {
            if label_qualifies(labels.last()) {
                assert(q == rest.push(dim_of_label(labels.last())));
                if k < rest.len() {
                    assert(q[k] == rest[k]);
                } else {
                    assert(q[k] == dim_of_label(labels.last()));
                }
            } else {
                assert(q[k] == rest[k]);
            }
        }
    }
}

proof fn lemma_insert_sorted_multiset(s: Seq<Dimension>, d: Dimension)
    ensures
        insert_sorted(s, d).to_multiset() == s.to_multiset().insert(d),
    decreases s.len(),
{
    broadcast use vstd::seq_lib::group_to_multiset_ensures;

    if s.len() == 0 {
        assert(seq![d] =~= s.push(d));
    } else if dim_le(s.last(), d) {
    } else {
        let s2 = s.drop_last();
        lemma_insert_sorted_multiset(s2, d);
        assert(s2.push(s.last()) =~= s);
        assert(s2.to_multiset().insert(d).insert(s.last()) =~= s2.to_multiset().insert(
            s.last(),
        ).insert(d));
    }
}

/// Sorting permutes: nothing is lost, added or merged.
pub proof fn lemma_sort_dims_permutes(s: Seq<Dimension>)
    ensures
        sort_dims(s).to_multiset() == s.to_multiset(),
    decreases s.len(),
{
    broadcast use vstd::seq_lib::group_to_multiset_ensures;

    if s.len() > 0 {
        let s2 = s.drop_last();
        lemma_sort_dims_permutes(s2);
        lemma_insert_sorted_multiset(sort_dims(s2), s.last());
        assert(s2.push(s.last()) =~= s);
    }
}

/// Where the insertion point is known, the insertion is a splice at it.
proof fn lemma_insert_sorted_at(s: Seq<Dimension>, d: Dimension, p: int)
    requires
        0 <= p <= s.len(),
        p > 0 ==> dim_le(s[p - 1], d),
        forall|k: int| p <= k < s.len() ==> !dim_le(#[trigger] s[k], d),
    ensures
        insert_sorted(s, d) == s.take(p) + seq![d] + s.skip(p),
    decreases s.len(),
{
    if s.len() == 0 {
        assert(insert_sorted(s, d) =~= s.take(p) + seq![d] + s.skip(p));
    } else if p == s.len() {
        assert(dim_le(s.last(), d));
        assert(insert_sorted(s, d) =~= s.take(p) + seq![d] + s.skip(p));
    } else {
        assert(!dim_le(s.last(), d));
        let s2 = s.drop_last();
        assert(forall|k: int| p <= k < s2.len() ==> !dim_le(#[trigger] s2[k], d));
        lemma_insert_sorted_at(s2, d, p);
        assert(insert_sorted(s, d) == insert_sorted(s2, d).push(s.last()));
        assert(s2.take(p) =~= s.take(p));
        assert((s2.take(p) + seq![d] + s2.skip(p)).push(s.last()) =~= s.take(p) + seq![d]
            + s.skip(p));
    }
}

/// Inserts a dimension into a vector at the point a stable insertion sort
/// puts it: behind every element whose name is less or equal to its own.
fn insert_dimension(v: &mut Vec<Dimension>, d: Dimension)
    ensures
        final(v)@ == insert_sorted(old(v)@, d),
{
    let mut j: usize = v.len();
    loop
        invariant
            j <= v@.len(),
            v@ == old(v)@,
            forall|k: int| j <= k < v@.len() ==> !dim_le(#[trigger] v@[k], d),
        ensures
            j <= v@.len(),
            v@ == old(v)@,
            j > 0 ==> dim_le(v@[j - 1], d),
            forall|k: int| j <= k < v@.len() ==> !dim_le(#[trigger] v@[k], d),
        decreases j,
    {
        if j == 0 {
            break;
        }
        if str_le(v[j - 1].name.as_str(), d.name.as_str()) {
            break;
        }
        j = j - 1;
    }
    proof {
        lemma_insert_sorted_at(v@, d, j as int);
    }
    v.insert(j, d);
    proof {
        assert(old(v)@.insert(j as int, d) =~= old(v)@.take(j as int) + seq![d] + old(
            v,
        )@.skip(j as int));
    }
}

/// The Dimension Mapper. Returns the dimensions kept for the data point and
/// the dimensions dropped by the cap, in the order they were dropped, so the
/// caller can report the overflow.
pub fn labels_to_dimensions(labels: &Vec<Label>) -> (r: (Vec<Dimension>, Vec<Dimension>))
    ensures
        r.0@ == kept_dims(labels@),
        r.1@ == dropped_dims(labels@),
        forall|k: int|
            0 <= k < r.0@.len() ==> #[trigger] r.0@[k].name@.len() > 0 && r.0@[k].value@.len() > 0,
{
    let mut kept: Vec<Dimension> = Vec::new();
    let mut i: usize = 0;
    proof {
        assert(labels@.take(0) =~= Seq::<Label>::empty());
    }
    while i < labels.len()
        invariant
            i <= labels@.len(),
            kept@ == sort_dims(qualifying_dims(labels@.take(i as int))),
            forall|k: int|
                0 <= k < kept@.len() ==> #[trigger] kept@[k].name@.len() > 0
                    && kept@[k].value@.len() > 0,
        decreases labels@.len() - i,
    {
        let l = &labels[i];
        let tn = trim_text(l.name.as_str());
        let tv = trim_text(l.value.as_str());
        let keep = !tn.is_empty() && !tv.is_empty();
        proof {
            assert(labels@.take(i as int + 1).drop_last() =~= labels@.take(i as int));
            assert(labels@.take(i as int + 1).last() == labels@[i as int]);
        }
        if keep {
            let d = Dimension { name: l.name.clone(), value: l.value.clone() };
            proof {
                assert(d == dim_of_label(labels@[i as int]));
                let q = qualifying_dims(labels@.take(i as int));
                assert(qualifying_dims(labels@.take(i as int + 1)) == q.push(d));
                assert(q.push(d).drop_last() =~= q);
                assert(sort_dims(q.push(d)) == insert_sorted(sort_dims(q), d));
                lemma_insert_sorted_all(
                    kept@,
                    d,
                    |x: Dimension| x.name@.len() > 0 && x.value@.len() > 0,
                );
            }
            insert_dimension(&mut kept, d);
        }
        i = i + 1;
    }
    proof {
        assert(labels@.take(labels@.len() as int) =~= labels@);
    }
    let ghost s0 = sorted_dims(labels@);
    let mut dropped: Vec<Dimension> = Vec::new();
    while kept.len() > DIMENSION_MAX
        invariant
            s0 == sorted_dims(labels@),
            forall|k: int|
                0 <= k < s0.len() ==> #[trigger] s0[k].name@.len() > 0 && s0[k].value@.len() > 0,
            s0.len() <= DIMENSION_MAX ==> kept@ == s0 && dropped@.len() == 0,
            s0.len() > DIMENSION_MAX ==> DIMENSION_MAX + dropped@.len() <= s0.len() && kept@
                == s0.take(DIMENSION_MAX as int) + s0.skip(DIMENSION_MAX + dropped@.len()) && dropped@
                == s0.subrange(DIMENSION_MAX as int, DIMENSION_MAX + dropped@.len()),
        decreases kept@.len(),
    {
        proof {
            assert(kept@[DIMENSION_MAX as int] == s0[DIMENSION_MAX + dropped@.len()]);
        }
        let gone = kept.remove(DIMENSION_MAX);
        dropped.push(gone);
        proof {
            let j = dropped@.len() - 1;
            assert(kept@ =~= s0.take(DIMENSION_MAX as int) + s0.skip(DIMENSION_MAX + j + 1));
            assert(dropped@ =~= s0.subrange(DIMENSION_MAX as int, DIMENSION_MAX + j + 1));
        }
    }
    proof {
        if s0.len() > DIMENSION_MAX {
            assert(DIMENSION_MAX + dropped@.len() == s0.len());
            assert(kept@ =~= s0.take(DIMENSION_MAX as int));
            assert(dropped@ =~= s0.skip(DIMENSION_MAX as int));
        }
        assert forall|k: int|
            0 <= k < kept@.len() implies #[trigger] kept@[k].name@.len() > 0
            && kept@[k].value@.len() > 0 by {
            assert(kept@[k] == s0[k]);
        }
    }
    (kept, dropped)
}

/// Law: for any label set, the mapper's output is sorted ascending by name,
/// contains no entry whose trimmed name or trimmed value is blank, and never
/// exceeds the cap.
pub proof fn lemma_mapper_sorted_and_nonblank(labels: Seq<Label>)
    ensures
        sorted_by_name(kept_dims(labels)),
        forall|k: int|
            0 <= k < kept_dims(labels).len() ==> trimmed(#[trigger] kept_dims(labels)[k].name@).len()
                > 0 && trimmed(kept_dims(labels)[k].value@).len() > 0,
        kept_dims(labels).len() <= DIMENSION_MAX,
{
    let q = qualifying_dims(labels);
    let s = sort_dims(q);
    lemma_sort_dims_sorted(q);
    lemma_sort_dims_len(q);
    lemma_qualifying_nonblank(labels);
    lemma_sort_dims_all(
        q,
        |x: Dimension| trimmed(x.name@).len() > 0 && trimmed(x.value@).len() > 0,
    );
    let kept = kept_dims(labels);
    assert forall|k: int|
        0 <= k < kept.len() implies trimmed(kept[k].name@).len() > 0 && trimmed(
        kept[k].value@,
    ).len() > 0 by {
        assert(kept[k] == s[k]);
    }
}

/// Law: when more than [`crate::DIMENSION_MAX`] labels qualify, exactly that
/// many dimensions are kept, they are the smallest names, and together with
/// the dropped remainder they make up the whole sorted sequence.
pub proof fn lemma_mapper_truncates(labels: Seq<Label>)
    requires
        qualifying_dims(labels).len() > DIMENSION_MAX,
    ensures
        kept_dims(labels).len() == DIMENSION_MAX,
        dropped_dims(labels).len() == qualifying_dims(labels).len() - DIMENSION_MAX,
        kept_dims(labels) + dropped_dims(labels) == sorted_dims(labels),
        forall|i: int, j: int|
            0 <= i < kept_dims(labels).len() && 0 <= j < dropped_dims(labels).len() ==> dim_le(
                #[trigger] kept_dims(labels)[i],
                #[trigger] dropped_dims(labels)[j],
            ),
{
    let q = qualifying_dims(labels);
    let s = sorted_dims(labels);
    lemma_sort_dims_len(q);
    lemma_sort_dims_sorted(q);
    assert(kept_dims(labels) + dropped_dims(labels) =~= s);
}

/// Law: the mapper drops nothing silently. Kept and dropped dimensions
/// together are the whole sorted sequence, and that sequence is a
/// permutation of the qualifying labels.
pub proof fn lemma_mapper_permutes(labels: Seq<Label>)
    ensures
        kept_dims(labels) + dropped_dims(labels) == sorted_dims(labels),
        sorted_dims(labels).to_multiset() == qualifying_dims(labels).to_multiset(),
{
    let q = qualifying_dims(labels);
    let s = sorted_dims(labels);
    lemma_sort_dims_permutes(q);
    assert(kept_dims(labels) + dropped_dims(labels) =~= s);
}

} // verus!
