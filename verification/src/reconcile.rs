use crate::json::{
    completed_field, desc_field, effective_completed, effective_desc, id_field, JsonValue,
};
use vstd::prelude::*;

verus! {

/// The largest stored id, or 0 when the store is empty.
pub open spec fn max_id_spec(m: Map<i64, (Seq<char>, bool)>) -> int {
    if m.dom().is_empty() {
        0
    } else {
        (choose|k: i64|
            m.dom().contains(k) && (forall|j: i64| m.dom().contains(j) ==> j <= k)) as int
    }
}

/// The id an import record resolves to against store contents `m`: its own
/// usable id, or the next unused one.
pub open spec fn effective_id(m: Map<i64, (Seq<char>, bool)>, rec: JsonValue) -> int {
    match id_field(rec) {
        Some(i) => i as int,
        None => max_id_spec(m) + 1,
    }
}

/// The store contents after one import record is reconciled against `m`: an
/// upsert of the resolved id, description and flag.
pub open spec fn apply_record(m: Map<i64, (Seq<char>, bool)>, rec: JsonValue) -> Map<
    i64,
    (Seq<char>, bool),
> {
    m.insert(effective_id(m, rec) as i64, (effective_desc(rec), effective_completed(rec)))
}

/// The store contents after a whole batch is reconciled against `m`, record
/// by record in input order.
pub open spec fn apply_records(m: Map<i64, (Seq<char>, bool)>, recs: Seq<JsonValue>) -> Map<
    i64,
    (Seq<char>, bool),
>
    decreases recs.len(),
{
    if recs.len() <= 0 {
        m
    } else {
        apply_records(apply_record(m, recs[0]), recs.skip(1))
    }
}

/// Whether every id the batch resolves to, step by step, fits the id type;
/// only an id assigned past the largest possible stored id does not.
pub open spec fn assign_fits(m: Map<i64, (Seq<char>, bool)>, recs: Seq<JsonValue>) -> bool
    decreases recs.len(),
{
    recs.len() <= 0 || (effective_id(m, recs[0]) <= i64::MAX && assign_fits(
        apply_record(m, recs[0]),
        recs.skip(1),
    ))
}

/// Reconciling a concatenated batch is reconciling its halves in turn.
pub proof fn lemma_apply_records_app(
    m: Map<i64, (Seq<char>, bool)>,
    s1: Seq<JsonValue>,
    s2: Seq<JsonValue>,
)
    ensures
        apply_records(m, s1 + s2) == apply_records(apply_records(m, s1), s2),
        assign_fits(m, s1 + s2) == (assign_fits(m, s1) && assign_fits(
            apply_records(m, s1),
            s2,
        )),
    decreases s1.len(),
{
    if s1.len() == 0 {
        assert(s1 + s2 =~= s2);
        assert(apply_records(m, s1) == m);
    } else {
        assert((s1 + s2)[0] == s1[0]);
        assert((s1 + s2).len() > 0);
        assert((s1 + s2).skip(1) =~= s1.skip(1) + s2);
        lemma_apply_records_app(apply_record(m, s1[0]), s1.skip(1), s2);
    }
}

/// One loop step: reconciling one more record of the batch.
pub proof fn lemma_apply_records_step(
    m: Map<i64, (Seq<char>, bool)>,
    recs: Seq<JsonValue>,
    i: int,
)
    requires
        0 <= i < recs.len(),
    ensures
        apply_records(m, recs.take(i + 1)) == apply_record(
            apply_records(m, recs.take(i)),
            recs[i],
        ),
        assign_fits(m, recs.take(i + 1)) == (assign_fits(m, recs.take(i)) && effective_id(
            apply_records(m, recs.take(i)),
            recs[i],
        ) <= i64::MAX),
{
    let one = seq![recs[i]];
    assert(recs.take(i + 1) =~= recs.take(i) + one);
    lemma_apply_records_app(m, recs.take(i), one);
    let mid = apply_records(m, recs.take(i));
    assert(one.skip(1) =~= Seq::<JsonValue>::empty());
    assert(one.len() == 1);
    assert(one[0] == recs[i]);
    assert(apply_records(apply_record(mid, recs[i]), Seq::<JsonValue>::empty()) == apply_record(
        mid,
        recs[i],
    ));
    assert(assign_fits(apply_record(mid, recs[i]), Seq::<JsonValue>::empty()));
    assert(apply_records(mid, one) == apply_record(mid, recs[i]));
    assert(assign_fits(mid, one) == (effective_id(mid, recs[i]) <= i64::MAX));
}

} // verus!
