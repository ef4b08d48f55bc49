use crate::json::{completed_field, desc_field, effective_completed, effective_desc, id_field, JsonValue};
use crate::reconcile::{apply_record, apply_records, assign_fits, effective_id, max_id_spec};
use crate::store::{added_with, empty_tasks, listing_of};
use vstd::prelude::*;
use vstd::relations::{is_maximal, total_ordering};

verus! {

/// A task just added to the store appears in a listing taken afterwards,
/// under its fresh id, with its description and not completed; the listing
/// itself is in ascending id order by definition.
pub proof fn lemma_added_task_is_listed(
    pre: Map<i64, (Seq<char>, bool)>,
    post: Map<i64, (Seq<char>, bool)>,
    id: i64,
    desc: Seq<char>,
    rows: Seq<(i64, String, bool)>,
)
    requires
        added_with(pre, post, id, desc),
        listing_of(post, rows),
    ensures
        exists|i: int|
            0 <= i < rows.len() && (#[trigger] rows[i]).0 == id && rows[i].1@ == desc
                && rows[i].2 == false,
{
    assert(post.dom().contains(id));
    let i = choose|i: int| 0 <= i < rows.len() && (#[trigger] rows[i]).0 == id;
    assert(post.contains_pair(rows[i].0, (rows[i].1@, rows[i].2)));
    assert(post[id] == (desc, false));
    assert(rows[i].1@ == desc && rows[i].2 == false);
}

/// An import record with no usable id resolves to the next unused id: the
/// store's current maximum plus one.
pub proof fn lemma_missing_id_gets_next(m: Map<i64, (Seq<char>, bool)>, rec: JsonValue)
    requires
        id_field(rec) is None,
    ensures
        effective_id(m, rec) == max_id_spec(m) + 1,
{
}

/// An import record whose id is already stored overwrites that task in
/// place: the set of stored ids does not change, so no duplicate appears.
pub proof fn lemma_explicit_upsert_overwrites(
    m: Map<i64, (Seq<char>, bool)>,
    rec: JsonValue,
    id: i64,
)
    requires
        id_field(rec) == Some(id),
        m.dom().contains(id),
    ensures
        apply_record(m, rec).dom() == m.dom(),
        apply_record(m, rec)[id] == (effective_desc(rec), effective_completed(rec)),
        m.dom().finite() ==> apply_record(m, rec).dom().len() == m.dom().len(),
{
    assert(apply_record(m, rec).dom() =~= m.dom());
}

/// In a finite store, the largest stored id is what `max_id_spec` names: it
/// is stored, and no stored id exceeds it.
pub proof fn lemma_max_id_spec_bounds(m: Map<i64, (Seq<char>, bool)>)
    requires
        m.dom().finite(),
        !m.dom().is_empty(),
    ensures
        m.dom().contains(max_id_spec(m) as i64),
        forall|j: i64| m.dom().contains(j) ==> j <= max_id_spec(m),
{
    let leq = |a: i64, b: i64| a <= b;
    assert(total_ordering(leq));
    m.dom().find_unique_maximal_ensures(leq);
    let mx = m.dom().find_unique_maximal(leq);
    assert(is_maximal(leq, mx, m.dom()));
    assert forall|j: i64| m.dom().contains(j) implies j <= mx by {
        if !(j <= mx) {
            assert(leq(mx, j));
            assert(leq(j, mx));
        }
    }
    assert(m.dom().contains(mx) && (forall|j: i64| m.dom().contains(j) ==> j <= mx));
    let k = choose|k: i64| m.dom().contains(k) && (forall|j: i64| m.dom().contains(j) ==> j <= k);
    assert(m.dom().contains(k) && (forall|j: i64| m.dom().contains(j) ==> j <= k));
    assert(k <= mx && mx <= k);
    assert(max_id_spec(m) == k as int);
}

/// Two id-less records in one batch never receive the same id: the first is
/// stored under the assigned id, so the second re-derives a strictly larger
/// maximum.
pub proof fn lemma_fresh_ids_distinct(
    m: Map<i64, (Seq<char>, bool)>,
    r1: JsonValue,
    r2: JsonValue,
)
    requires
        m.dom().finite(),
        id_field(r1) is None,
        id_field(r2) is None,
        effective_id(m, r1) <= i64::MAX,
    ensures
        effective_id(apply_record(m, r1), r2) == effective_id(m, r1) + 1,
{
    let a = max_id_spec(m) + 1;
    assert(effective_id(m, r1) == a);
    if !m.dom().is_empty() {
        lemma_max_id_spec_bounds(m);
        assert(i64::MIN <= a <= i64::MAX);
    } else {
        assert(a == 1);
    }
    let m1 = apply_record(m, r1);
    assert(m1.dom().contains(a as i64));
    assert(!m1.dom().is_empty());
    assert forall|j: i64| m1.dom().contains(j) implies j <= a by {
        if j != a as i64 {
            assert(m.dom().contains(j));
            if m.dom().is_empty() {
            } else {
                lemma_max_id_spec_bounds(m);
            }
        }
    }
    let k = choose|k: i64|
        m1.dom().contains(k) && (forall|j: i64| m1.dom().contains(j) ==> j <= k);
    assert(m1.dom().contains(a as i64) && (forall|j: i64| m1.dom().contains(j) ==> j <= a as i64));
    assert(m1.dom().contains(k) && (forall|j: i64| m1.dom().contains(j) ==> j <= k));
    assert(k == a as i64);
    assert(max_id_spec(m1) == a);
}

/// The store contents after upserting a listing's rows into `m`, in order.
pub open spec fn upserts(
    m: Map<i64, (Seq<char>, bool)>,
    rows: Seq<(i64, String, bool)>,
) -> Map<i64, (Seq<char>, bool)>
    decreases rows.len(),
{
    if rows.len() <= 0 {
        m
    } else {
        upserts(m.insert(rows[0].0, (rows[0].1@, rows[0].2)), rows.skip(1))
    }
}

proof fn lemma_upserts_lookup(
    m: Map<i64, (Seq<char>, bool)>,
    rows: Seq<(i64, String, bool)>,
    k: i64,
)
    requires
        forall|i: int, j: int| 0 <= i < j < rows.len() ==> rows[i].0 != rows[j].0,
    ensures
        upserts(m, rows).dom().contains(k) <==> (m.dom().contains(k) || exists|i: int|
            0 <= i < rows.len() && (#[trigger] rows[i]).0 == k),
        forall|i: int|
            0 <= i < rows.len() && (#[trigger] rows[i]).0 == k ==> upserts(m, rows)[k] == (
                rows[i].1@,
                rows[i].2,
            ),
        (m.dom().contains(k) && !(exists|i: int|
            0 <= i < rows.len() && (#[trigger] rows[i]).0 == k)) ==> upserts(m, rows)[k] == m[k],
    decreases rows.len(),
{
    if rows.len() == 0 {
    } else {
        let m1 = m.insert(rows[0].0, (rows[0].1@, rows[0].2));
        let rest = rows.skip(1);
        assert forall|i: int, j: int| 0 <= i < j < rest.len() implies rest[i].0 != rest[j].0 by {
            assert(rest[i] == rows[i + 1]);
            assert(rest[j] == rows[j + 1]);
        }
        lemma_upserts_lookup(m1, rest, k);
        assert(upserts(m, rows) == upserts(m1, rest));
        if exists|i: int| 0 <= i < rest.len() && (#[trigger] rest[i]).0 == k {
            let i = choose|i: int| 0 <= i < rest.len() && (#[trigger] rest[i]).0 == k;
            assert(rest[i] == rows[i + 1]);
            assert(0 <= i + 1 < rows.len() && rows[i + 1].0 == k);
        }
        if exists|i: int| 0 <= i < rows.len() && (#[trigger] rows[i]).0 == k {
            let i = choose|i: int| 0 <= i < rows.len() && (#[trigger] rows[i]).0 == k;
            if i >= 1 {
                assert(rest[i - 1] == rows[i]);
                assert(0 <= i - 1 < rest.len() && rest[i - 1].0 == k);
            }
        }
        if k == rows[0].0 {
            assert(!(exists|i: int| 0 <= i < rest.len() && (#[trigger] rest[i]).0 == k)) by {
                if exists|i: int| 0 <= i < rest.len() && (#[trigger] rest[i]).0 == k {
                    let i = choose|i: int| 0 <= i < rest.len() && (#[trigger] rest[i]).0 == k;
                    assert(rest[i] == rows[i + 1]);
                    assert(rows[0].0 != rows[i + 1].0);
                }
            }
            assert(m1.dom().contains(k));
            assert(upserts(m1, rest)[k] == m1[k]);
            assert(upserts(m, rows)[k] == (rows[0].1@, rows[0].2));
            assert forall|i: int|
                0 <= i < rows.len() && (#[trigger] rows[i]).0 == k implies upserts(m, rows)[k]
                == (rows[i].1@, rows[i].2) by {
                if i != 0 {
                    assert(rows[0].0 != rows[i].0);
                }
            }
        } else {
            assert(m1.dom().contains(k) <==> m.dom().contains(k));
            if m1.dom().contains(k) {
                assert(m1[k] == m[k]);
            }
            assert forall|i: int|
                0 <= i < rows.len() && (#[trigger] rows[i]).0 == k implies upserts(m, rows)[k]
                == (rows[i].1@, rows[i].2) by {
                assert(i != 0);
                assert(rest[i - 1] == rows[i]);
                assert(upserts(m1, rest)[k] == (rest[i - 1].1@, rest[i - 1].2));
            }
        }
    }
}

/// Re-importing the records of a listing into an empty store reproduces the
/// listed contents exactly: every resolved id fits, and the resulting store
/// maps each listed id to its listed description and flag.
pub proof fn lemma_import_round_trip(
    m: Map<i64, (Seq<char>, bool)>,
    rows: Seq<(i64, String, bool)>,
    recs: Seq<JsonValue>,
)
    requires
        listing_of(m, rows),
        recs.len() == rows.len(),
        forall|i: int| 0 <= i < recs.len() ==> id_field(#[trigger] recs[i]) == Some(rows[i].0),
        forall|i: int|
            0 <= i < recs.len() ==> desc_field(#[trigger] recs[i]) == Some(rows[i].1@),
        forall|i: int|
            0 <= i < recs.len() ==> completed_field(#[trigger] recs[i]) == Some(rows[i].2),
    ensures
        assign_fits(empty_tasks(), recs),
        apply_records(empty_tasks(), recs) == m,
{
    lemma_apply_is_upserts(empty_tasks(), rows, recs);
    let u = upserts(empty_tasks(), rows);
    assert forall|i: int, j: int| 0 <= i < j < rows.len() implies rows[i].0 != rows[j].0 by {}
    assert forall|k: i64|
        #![trigger u.dom().contains(k)]
        #![trigger m.dom().contains(k)]
        (u.dom().contains(k) <==> m.dom().contains(k)) && (u.dom().contains(k)
            ==> u[k] == m[k]) by {
        lemma_upserts_lookup(empty_tasks(), rows, k);
        assert(!empty_tasks().dom().contains(k));
        if u.dom().contains(k) {
            let i = choose|i: int| 0 <= i < rows.len() && (#[trigger] rows[i]).0 == k;
            assert(m.contains_pair(rows[i].0, (rows[i].1@, rows[i].2)));
            assert(u[k] == (rows[i].1@, rows[i].2));
            assert(m.dom().contains(k) && u[k] == m[k]);
        }
        if m.dom().contains(k) {
            let i = choose|i: int| 0 <= i < rows.len() && (#[trigger] rows[i]).0 == k;
            assert(0 <= i < rows.len() && rows[i].0 == k);
            assert(u.dom().contains(k));
        }
    }
    assert(u.dom() =~= m.dom());
    assert(u =~= m);
}

/// A batch of records with explicit ids reconciles exactly as the row-wise
/// upserts of the ids, descriptions and flags they carry.
proof fn lemma_apply_is_upserts(
    m: Map<i64, (Seq<char>, bool)>,
    rows: Seq<(i64, String, bool)>,
    recs: Seq<JsonValue>,
)
    requires
        recs.len() == rows.len(),
        forall|i: int| 0 <= i < recs.len() ==> id_field(#[trigger] recs[i]) == Some(rows[i].0),
        forall|i: int|
            0 <= i < recs.len() ==> desc_field(#[trigger] recs[i]) == Some(rows[i].1@),
        forall|i: int|
            0 <= i < recs.len() ==> completed_field(#[trigger] recs[i]) == Some(rows[i].2),
    ensures
        assign_fits(m, recs),
        apply_records(m, recs) == upserts(m, rows),
    decreases recs.len(),
{
    if recs.len() == 0 {
    } else {
        assert(effective_id(m, recs[0]) == rows[0].0 as int);
        assert(effective_desc(recs[0]) == rows[0].1@);
        assert(effective_completed(recs[0]) == rows[0].2);
        let m1 = m.insert(rows[0].0, (rows[0].1@, rows[0].2));
        assert(apply_record(m, recs[0]) == m1);
        let rrest = recs.skip(1);
        let rowrest = rows.skip(1);
        assert forall|i: int|
            0 <= i < rrest.len() implies id_field(#[trigger] rrest[i]) == Some(rowrest[i].0)
            && desc_field(rrest[i]) == Some(rowrest[i].1@) && completed_field(rrest[i])
            == Some(rowrest[i].2) by {
            assert(rrest[i] == recs[i + 1]);
            assert(rowrest[i] == rows[i + 1]);
        }
        lemma_apply_is_upserts(m1, rowrest, rrest);
    }
}

} // verus!
