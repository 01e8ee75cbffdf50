use vstd::prelude::*;
use crate::text::{lemma_find_some, spec_contains, spec_find};
use crate::markup::{MarkupNode, Snapshot, child_count, child_at};
use crate::record::{PlaceRecord, RecordModel, rec_views};
use crate::url_attr::{spec_extract_id, unknown_text, id_token};
use crate::extract::{
    is_marker, href_of, place_pat, marker_record, records_from, snapshot_records_from,
    snapshot_records,
};

verus! {

broadcast use vstd::std_specs::vec::group_vec_axioms, vstd::seq::group_seq_axioms;

/// A marker is well formed inside its parent when it yields a record: its
/// entry has a body container with at least one element child.
pub open spec fn wf_marker(p: MarkupNode, m: MarkupNode) -> bool {
    is_marker(m) && marker_record(p, m) is Some
}

/// How many well-formed markers stand among the descendants of `n`,
/// starting at child `i`.
pub open spec fn wf_marker_count_from(n: MarkupNode, i: int) -> nat
    decreases n, child_count(n) - i,
{
    if i < 0 || i >= child_count(n) {
        0
    } else {
        let c = child_at(n, i);
        (if wf_marker(n, c) {
            1nat
        } else {
            0nat
        }) + wf_marker_count_from(c, 0) + wf_marker_count_from(n, i + 1)
    }
}

/// How many well-formed markers a snapshot holds, from root `i` on.
pub open spec fn snapshot_wf_marker_count_from(roots: Seq<MarkupNode>, i: int) -> nat
    decreases roots, roots.len() - i,
{
    if i < 0 || i >= roots.len() {
        0
    } else {
        wf_marker_count_from(roots[i], 0) + snapshot_wf_marker_count_from(roots, i + 1)
    }
}

/// How many well-formed markers a snapshot holds.
pub open spec fn snapshot_wf_marker_count(s: Snapshot) -> nat {
    snapshot_wf_marker_count_from(s.roots@, 0)
}

/// Extraction yields exactly one record per well-formed marker under `n`:
/// a malformed entry is skipped and affects no other entry.
pub proof fn lemma_records_count(n: MarkupNode, i: int)
    ensures
        records_from(n, i).len() == wf_marker_count_from(n, i),
    decreases n, child_count(n) - i,
{
    if i < 0 || i >= child_count(n) {
    } else {
        let c = child_at(n, i);
        lemma_records_count(c, 0);
        lemma_records_count(n, i + 1);
    }
}

/// Extraction over a whole snapshot yields exactly as many records as the
/// snapshot holds well-formed markers; with one malformed marker among `N`
/// well-formed ones, that is exactly `N`.
pub proof fn lemma_snapshot_records_count(s: Snapshot)
    ensures
        snapshot_records(s).len() == snapshot_wf_marker_count(s),
{
    lemma_snapshot_count_from(s.roots@, 0);
}

/// Root-by-root form of the counting law.
pub proof fn lemma_snapshot_count_from(roots: Seq<MarkupNode>, i: int)
    ensures
        snapshot_records_from(roots, i).len() == snapshot_wf_marker_count_from(roots, i),
    decreases roots, roots.len() - i,
{
    if i < 0 || i >= roots.len() {
    } else {
        lemma_records_count(roots[i], 0);
        lemma_snapshot_count_from(roots, i + 1);
    }
}

/// A record keeps the whole marker reference: its address is the reference
/// attribute, which contains the place path, so it is never empty.
pub proof fn lemma_marker_record_uri(p: MarkupNode, m: MarkupNode)
    requires
        is_marker(m),
        marker_record(p, m) is Some,
    ensures
        marker_record(p, m).unwrap().maps_uri == href_of(m).unwrap(),
        marker_record(p, m).unwrap().maps_uri.len() >= place_pat().len(),
{
    let url = href_of(m).unwrap();
    lemma_find_some(url, place_pat(), 0);
}

/// Every extracted record carries a non-empty address.
pub proof fn lemma_records_uri_nonempty(n: MarkupNode, i: int)
    ensures
        forall|k: int|
            0 <= k < records_from(n, i).len() ==> (#[trigger] records_from(n, i)[k]).maps_uri.len()
                >= place_pat().len(),
    decreases n, child_count(n) - i,
{
    if i < 0 || i >= child_count(n) {
    } else {
        let c = child_at(n, i);
        lemma_records_uri_nonempty(c, 0);
        lemma_records_uri_nonempty(n, i + 1);
        if is_marker(c) && marker_record(n, c) is Some {
            lemma_marker_record_uri(n, c);
        }
    }
}

/// Every record of a snapshot carries a non-empty address.
pub proof fn lemma_snapshot_uri_nonempty(s: Snapshot)
    ensures
        forall|k: int|
            0 <= k < snapshot_records(s).len() ==> (#[trigger] snapshot_records(s)[k]).maps_uri.len()
                > 0,
{
    lemma_snapshot_uri_from(s.roots@, 0);
}

/// Root-by-root form of the non-empty-address law.
pub proof fn lemma_snapshot_uri_from(roots: Seq<MarkupNode>, i: int)
    ensures
        forall|k: int|
            0 <= k < snapshot_records_from(roots, i).len() ==> (#[trigger] snapshot_records_from(
                roots,
                i,
            )[k]).maps_uri.len() > 0,
    decreases roots, roots.len() - i,
{
    if i < 0 || i >= roots.len() {
    } else {
        lemma_records_uri_nonempty(roots[i], 0);
        lemma_snapshot_uri_from(roots, i + 1);
    }
}

/// `n2` is `n1` with the child at `j` erased and everything else the same.
pub open spec fn child_erased(n1: MarkupNode, n2: MarkupNode, j: int) -> bool {
    &&& n1 is Element
    &&& n2 is Element
    &&& 0 <= j < child_count(n1)
    &&& child_count(n2) == child_count(n1) - 1
    &&& forall|k: int| 0 <= k < j ==> child_at(n2, k) == child_at(n1, k)
    &&& forall|k: int| j <= k < child_count(n2) ==> child_at(n2, k) == child_at(n1, k + 1)
}

/// The other half of partial-failure isolation: erasing from a container an
/// entry whose subtree yields no records (a malformed marker's entry among
/// others) leaves the extraction of the remaining entries field-for-field
/// unchanged. The container's direct children must not themselves be
/// markers, so that no marker loses part of its own surroundings.
pub proof fn lemma_barren_child_erased(n1: MarkupNode, n2: MarkupNode, j: int, i: int)
    requires
        child_erased(n1, n2, j),
        forall|k: int| 0 <= k < child_count(n1) ==> !is_marker(#[trigger] child_at(n1, k)),
        records_from(child_at(n1, j), 0) == Seq::<RecordModel>::empty(),
        0 <= i,
    ensures
        i <= j ==> records_from(n1, i) == records_from(n2, i),
        i > j ==> records_from(n1, i) == records_from(n2, i - 1),
    decreases child_count(n1) - i,
{
    if i >= child_count(n1) {
        assert(records_from(n1, i) =~= Seq::<RecordModel>::empty());
        assert(records_from(n2, i - 1) =~= Seq::<RecordModel>::empty());
    } else {
        lemma_barren_child_erased(n1, n2, j, i + 1);
        let c = child_at(n1, i);
        assert(!is_marker(c));
        if i == j {
            assert(records_from(n1, i) =~= records_from(n1, i + 1));
        } else if i < j {
            assert(child_at(n2, i) == c);
            assert(!is_marker(child_at(n2, i)));
            assert(records_from(n1, i) =~= records_from(c, 0) + records_from(n1, i + 1));
            assert(records_from(n2, i) =~= records_from(c, 0) + records_from(n2, i + 1));
        } else {
            assert(child_at(n2, i - 1) == c);
            assert(!is_marker(child_at(n2, i - 1)));
            assert(records_from(n1, i) =~= records_from(c, 0) + records_from(n1, i + 1));
            assert(records_from(n2, i - 1) =~= records_from(c, 0) + records_from(n2, i));
        }
    }
}

/// The container-level form of the isolation law: the whole extraction of
/// the container with the barren entry equals that of the container without
/// it.
pub proof fn lemma_isolation(n1: MarkupNode, n2: MarkupNode, j: int)
    requires
        child_erased(n1, n2, j),
        forall|k: int| 0 <= k < child_count(n1) ==> !is_marker(#[trigger] child_at(n1, k)),
        records_from(child_at(n1, j), 0) == Seq::<RecordModel>::empty(),
    ensures
        records_from(n1, 0) == records_from(n2, 0),
{
    lemma_barren_child_erased(n1, n2, j, 0);
}

/// A URL without a query string falls back to the `unknown` identifier
/// instead of failing.
pub proof fn lemma_id_unknown_without_query(url: Seq<char>)
    requires
        !spec_contains(url, seq!['?']),
    ensures
        spec_extract_id(url) == unknown_text(),
{
}

/// A URL whose pre-query part lacks the identifier token falls back to the
/// `unknown` identifier instead of failing.
pub proof fn lemma_id_unknown_without_token(url: Seq<char>, q: int)
    requires
        spec_find(url, seq!['?'], 0) == Some(q),
        spec_find(url.subrange(0, q), id_token(), 0) is None,
    ensures
        spec_extract_id(url) == unknown_text(),
{
}

/// Extraction is deterministic in the snapshot: two runs over the same
/// unchanged snapshot yield field-for-field identical record sequences.
pub proof fn lemma_extract_idempotent(s: Snapshot, r1: Seq<PlaceRecord>, r2: Seq<PlaceRecord>)
    requires
        rec_views(r1) == snapshot_records(s),
        rec_views(r2) == snapshot_records(s),
    ensures
        rec_views(r1) == rec_views(r2),
{
}

} // verus!
