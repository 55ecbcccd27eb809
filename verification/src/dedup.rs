//! The deduplicating writer state.
//!
//! A single writer consumes per-file batches.  Records, process-record
//! and record-value rows are written as they come — provenance rows are
//! intentionally repeated per file.  Values, process-value and
//! value-value rows are deduplicated against three run-wide key sets: a
//! row is kept only when its key was never seen before.  After the last
//! batch, finalization appends a `values` row for every precomputed null
//! identifier that was never emitted.

use vstd::prelude::*;
use std::collections::hash_map::RandomState;
use dashmap::DashSet;
use crate::nulls::NullEntryV;
use crate::nulls::NullRegistry;
use crate::rows::BatchV;
use crate::rows::OutputBatch;
use crate::rows::ProcessValueRow;
use crate::rows::ProcessValueRowV;
use crate::rows::ValueRow;
use crate::rows::ValueRowV;
use crate::rows::ValueValueRow;
use crate::rows::ValueValueRowV;
use crate::sync::id_set_contents;
use crate::sync::id_set_insert;
use crate::sync::id_set_new;
use crate::sync::pvr_set_contents;
use crate::sync::pvr_set_insert;
use crate::sync::pvr_set_new;
use crate::sync::vvr_set_contents;
use crate::sync::vvr_set_insert;
use crate::sync::vvr_set_new;

verus! {

/// The dedup key of a process-value relationship row.
pub open spec fn pvr_key(r: ProcessValueRowV) -> (Seq<char>, Seq<char>, Seq<char>) {
    (r.process_id, r.value_id, r.relationship_type)
}

/// The dedup key of a value-value relationship row.
pub open spec fn vvr_key(r: ValueValueRowV) -> (Seq<char>, Seq<char>, Seq<char>, Option<int>) {
    (r.source_value_id, r.target_value_id, r.relationship_type, r.ordinal)
}

/// The model of the three dedup sets.
#[verifier::ext_equal]
pub ghost struct DedupV {
    pub values: Set<Seq<char>>,
    pub pvr: Set<(Seq<char>, Seq<char>, Seq<char>)>,
    pub vvr: Set<(Seq<char>, Seq<char>, Seq<char>, Option<int>)>,
}

impl DedupV {
    pub open spec fn empty() -> DedupV {
        DedupV { values: Set::empty(), pvr: Set::empty(), vvr: Set::empty() }
    }
}

/// Deduplication of value rows against a set of already-written value
/// identifiers: rows with a fresh identifier are kept, in order, and
/// every identifier ends up in the set.
pub open spec fn dedup_values(rows: Seq<ValueRowV>, written: Set<Seq<char>>) -> (
    Seq<ValueRowV>,
    Set<Seq<char>>,
)
    decreases rows.len(),
{
    if rows.len() == 0 {
        (Seq::empty(), written)
    } else if written.contains(rows[0].value_id) {
        dedup_values(rows.drop_first(), written)
    } else {
        let rest = dedup_values(rows.drop_first(), written.insert(rows[0].value_id));
        (seq![rows[0]] + rest.0, rest.1)
    }
}

/// Deduplication of process-value relationship rows on
/// `(process_id, value_id, relationship_type)`.
pub open spec fn dedup_pvr(
    rows: Seq<ProcessValueRowV>,
    written: Set<(Seq<char>, Seq<char>, Seq<char>)>,
) -> (Seq<ProcessValueRowV>, Set<(Seq<char>, Seq<char>, Seq<char>)>)
    decreases rows.len(),
{
    if rows.len() == 0 {
        (Seq::empty(), written)
    } else if written.contains(pvr_key(rows[0])) {
        dedup_pvr(rows.drop_first(), written)
    } else {
        let rest = dedup_pvr(rows.drop_first(), written.insert(pvr_key(rows[0])));
        (seq![rows[0]] + rest.0, rest.1)
    }
}

/// Deduplication of value-value relationship rows on
/// `(source_value_id, target_value_id, relationship_type, ordinal)`.
pub open spec fn dedup_vvr(
    rows: Seq<ValueValueRowV>,
    written: Set<(Seq<char>, Seq<char>, Seq<char>, Option<int>)>,
) -> (Seq<ValueValueRowV>, Set<(Seq<char>, Seq<char>, Seq<char>, Option<int>)>)
    decreases rows.len(),
{
    if rows.len() == 0 {
        (Seq::empty(), written)
    } else if written.contains(vvr_key(rows[0])) {
        dedup_vvr(rows.drop_first(), written)
    } else {
        let rest = dedup_vvr(rows.drop_first(), written.insert(vvr_key(rows[0])));
        (seq![rows[0]] + rest.0, rest.1)
    }
}

/// What the writer keeps of one batch, and the dedup state afterwards.
/// Records, process-record and record-value rows pass through untouched.
pub open spec fn apply_batch(b: BatchV, d: DedupV) -> (BatchV, DedupV) {
    let v = dedup_values(b.values, d.values);
    let p = dedup_pvr(b.process_value_relationships, d.pvr);
    let w = dedup_vvr(b.value_value_relationships, d.vvr);
    (
        BatchV {
            records: b.records,
            values: v.0,
            process_record_relationships: b.process_record_relationships,
            process_value_relationships: p.0,
            record_value_relationships: b.record_value_relationships,
            value_value_relationships: w.0,
        },
        DedupV { values: v.1, pvr: p.1, vvr: w.1 },
    )
}

/// The null rows finalization appends: one `values` row per registry
/// entry whose identifier was never written, in registry order.
pub open spec fn finalize_model(entries: Seq<NullEntryV>, written: Set<Seq<char>>) -> (
    Seq<ValueRowV>,
    Set<Seq<char>>,
)
    decreases entries.len(),
{
    if entries.len() == 0 {
        (Seq::empty(), written)
    } else if written.contains(entries[0].value_id) {
        finalize_model(entries.drop_first(), written)
    } else {
        let rest = finalize_model(entries.drop_first(), written.insert(entries[0].value_id));
        (
            seq![
                ValueRowV {
                    value_id: entries[0].value_id,
                    value_type: entries[0].value_type,
                    value_content: entries[0].content,
                },
            ] + rest.0,
            rest.1,
        )
    }
}

/// The writer's three run-wide dedup sets.
pub struct DedupState {
    pub written_value_ids: DashSet<String, RandomState>,
    pub written_process_value_rels: DashSet<(String, String, String), RandomState>,
    pub written_value_value_rels: DashSet<(String, String, String, Option<usize>), RandomState>,
}

impl View for DedupState {
    type V = DedupV;

    open spec fn view(&self) -> DedupV {
        DedupV {
            values: id_set_contents(self.written_value_ids),
            pvr: pvr_set_contents(self.written_process_value_rels),
            vvr: vvr_set_contents(self.written_value_value_rels),
        }
    }
}

impl DedupState {
    /// Fresh dedup state: nothing written yet.
    pub fn new() -> (r: DedupState)
        ensures
            r@ =~= DedupV::empty(),
    {
        DedupState {
            written_value_ids: id_set_new(),
            written_process_value_rels: pvr_set_new(),
            written_value_value_rels: vvr_set_new(),
        }
    }

    /// Suppress already-written rows of one batch: exactly the rows
    /// `apply_batch` keeps come back, and the key sets grow by the
    /// batch's keys.
    pub fn filter_batch(&mut self, batch: OutputBatch) -> (out: OutputBatch)
        ensures
            out@ == apply_batch(batch@, old(self)@).0,
            final(self)@ == apply_batch(batch@, old(self)@).1,
    {
        let ghost b = batch@;
        let ghost d0 = old(self)@;

        let mut out_values: Vec<ValueRow> = Vec::new();
        let ghost full_v = dedup_values(b.values, d0.values);
        let mut i: usize = 0;
        assert(b.values.skip(0) =~= b.values);
        assert(out_values@.map_values(|r: ValueRow| r@) =~= Seq::<ValueRowV>::empty());
        while i < batch.values.len()
            invariant
                i <= b.values.len(),
                b == batch@,
                ({
                    let rest = dedup_values(b.values.skip(i as int), self@.values);
                    full_v.0 == out_values@.map_values(|r: ValueRow| r@) + rest.0 && full_v.1
                        == rest.1
                }),
                self@.pvr == d0.pvr,
                self@.vvr == d0.vvr,
            decreases b.values.len() - i,
        {
            assert(b.values.skip(i as int)[0] == b.values[i as int]);
            assert(b.values.skip(i as int).drop_first() =~= b.values.skip(i as int + 1));
            let row = &batch.values[i];
            let ghost cur = self@.values;
            let fresh = id_set_insert(&mut self.written_value_ids, &row.value_id);
            if fresh {
                let ghost pre = out_values@.map_values(|r: ValueRow| r@);
                out_values.push(row.clone());
                proof {
                    assert(out_values@.map_values(|r: ValueRow| r@) =~= pre.push(b.values[i as int]));
                    let rest = dedup_values(b.values.skip(i as int + 1), cur.insert(
                        b.values[i as int].value_id,
                    ));
                    assert(pre + (seq![b.values[i as int]] + rest.0) =~= pre.push(
                        b.values[i as int],
                    ) + rest.0);
                }
            } else {
                proof {
                    assert(cur.insert(b.values[i as int].value_id) =~= cur);
                }
            }
            i = i + 1;
        }
        assert(dedup_values(b.values.skip(i as int), self@.values).0 =~= Seq::<ValueRowV>::empty());
        assert(full_v.0 =~= out_values@.map_values(|r: ValueRow| r@));
        assert(full_v.1 == self@.values);

        let mut out_pvr: Vec<ProcessValueRow> = Vec::new();
        let ghost full_p = dedup_pvr(b.process_value_relationships, d0.pvr);
        let mut i: usize = 0;
        assert(b.process_value_relationships.skip(0) =~= b.process_value_relationships);
        assert(out_pvr@.map_values(|r: ProcessValueRow| r@) =~= Seq::<ProcessValueRowV>::empty());
        while i < batch.process_value_relationships.len()
            invariant
                i <= b.process_value_relationships.len(),
                b == batch@,
                ({
                    let rest = dedup_pvr(b.process_value_relationships.skip(i as int), self@.pvr);
                    full_p.0 == out_pvr@.map_values(|r: ProcessValueRow| r@) + rest.0 && full_p.1
                        == rest.1
                }),
                self@.values == full_v.1,
                self@.vvr == d0.vvr,
            decreases b.process_value_relationships.len() - i,
        {
            assert(b.process_value_relationships.skip(i as int)[0]
                == b.process_value_relationships[i as int]);
            assert(b.process_value_relationships.skip(i as int).drop_first()
                =~= b.process_value_relationships.skip(i as int + 1));
            let row = &batch.process_value_relationships[i];
            let key = (row.process_id.clone(), row.value_id.clone(), row.relationship_type.clone());
            assert(crate::sync::pvr_key_view(key) == pvr_key(b.process_value_relationships[i as int]));
            let ghost cur = self@.pvr;
            let fresh = pvr_set_insert(&mut self.written_process_value_rels, &key);
            if fresh {
                let ghost pre = out_pvr@.map_values(|r: ProcessValueRow| r@);
                out_pvr.push(row.clone());
                proof {
                    assert(out_pvr@.map_values(|r: ProcessValueRow| r@) =~= pre.push(
                        b.process_value_relationships[i as int],
                    ));
                    let rest = dedup_pvr(
                        b.process_value_relationships.skip(i as int + 1),
                        cur.insert(pvr_key(b.process_value_relationships[i as int])),
                    );
                    assert(pre + (seq![b.process_value_relationships[i as int]] + rest.0)
                        =~= pre.push(b.process_value_relationships[i as int]) + rest.0);
                }
            } else {
                proof {
                    assert(cur.insert(pvr_key(b.process_value_relationships[i as int])) =~= cur);
                }
            }
            i = i + 1;
        }
        assert(dedup_pvr(b.process_value_relationships.skip(i as int), self@.pvr).0
            =~= Seq::<ProcessValueRowV>::empty());
        assert(full_p.0 =~= out_pvr@.map_values(|r: ProcessValueRow| r@));
        assert(full_p.1 == self@.pvr);

        let mut out_vvr: Vec<ValueValueRow> = Vec::new();
        let ghost full_w = dedup_vvr(b.value_value_relationships, d0.vvr);
        let mut i: usize = 0;
        assert(b.value_value_relationships.skip(0) =~= b.value_value_relationships);
        assert(out_vvr@.map_values(|r: ValueValueRow| r@) =~= Seq::<ValueValueRowV>::empty());
        while i < batch.value_value_relationships.len()
            invariant
                i <= b.value_value_relationships.len(),
                b == batch@,
                ({
                    let rest = dedup_vvr(b.value_value_relationships.skip(i as int), self@.vvr);
                    full_w.0 == out_vvr@.map_values(|r: ValueValueRow| r@) + rest.0 && full_w.1
                        == rest.1
                }),
                self@.values == full_v.1,
                self@.pvr == full_p.1,
            decreases b.value_value_relationships.len() - i,
        {
            assert(b.value_value_relationships.skip(i as int)[0]
                == b.value_value_relationships[i as int]);
            assert(b.value_value_relationships.skip(i as int).drop_first()
                =~= b.value_value_relationships.skip(i as int + 1));
            let row = &batch.value_value_relationships[i];
            let key = (
                row.source_value_id.clone(),
                row.target_value_id.clone(),
                row.relationship_type.clone(),
                row.ordinal,
            );
            assert(crate::sync::vvr_key_view(key) == vvr_key(b.value_value_relationships[i as int]));
            let ghost cur = self@.vvr;
            let fresh = vvr_set_insert(&mut self.written_value_value_rels, &key);
            if fresh {
                let ghost pre = out_vvr@.map_values(|r: ValueValueRow| r@);
                out_vvr.push(row.clone());
                proof {
                    assert(out_vvr@.map_values(|r: ValueValueRow| r@) =~= pre.push(
                        b.value_value_relationships[i as int],
                    ));
                    let rest = dedup_vvr(
                        b.value_value_relationships.skip(i as int + 1),
                        cur.insert(vvr_key(b.value_value_relationships[i as int])),
                    );
                    assert(pre + (seq![b.value_value_relationships[i as int]] + rest.0)
                        =~= pre.push(b.value_value_relationships[i as int]) + rest.0);
                }
            } else {
                proof {
                    assert(cur.insert(vvr_key(b.value_value_relationships[i as int])) =~= cur);
                }
            }
            i = i + 1;
        }
        assert(dedup_vvr(b.value_value_relationships.skip(i as int), self@.vvr).0
            =~= Seq::<ValueValueRowV>::empty());
        assert(full_w.0 =~= out_vvr@.map_values(|r: ValueValueRow| r@));
        assert(full_w.1 == self@.vvr);

        let out = OutputBatch {
            records: batch.records,
            values: out_values,
            process_record_relationships: batch.process_record_relationships,
            process_value_relationships: out_pvr,
            record_value_relationships: batch.record_value_relationships,
            value_value_relationships: out_vvr,
        };
        assert(out@ =~= apply_batch(b, d0).0);
        assert(self@ =~= apply_batch(b, d0).1);
        out
    }

    /// Append the never-written null values of the registry: exactly
    /// the rows `finalize_model` lists, and their identifiers join the
    /// written set.
    pub fn finalize(&mut self, registry: &NullRegistry) -> (out: Vec<ValueRow>)
        ensures
            out@.map_values(|r: ValueRow| r@) == finalize_model(registry@, old(self)@.values).0,
            final(self)@.values == finalize_model(registry@, old(self)@.values).1,
            final(self)@.pvr == old(self)@.pvr,
            final(self)@.vvr == old(self)@.vvr,
    {
        let ghost entries = registry@;
        let ghost d0 = self@.values;
        let ghost full = finalize_model(entries, d0);
        let mut out: Vec<ValueRow> = Vec::new();
        let mut i: usize = 0;
        assert(entries.skip(0) =~= entries);
        assert(out@.map_values(|r: ValueRow| r@) =~= Seq::<ValueRowV>::empty());
        while i < registry.entries.len()
            invariant
                i <= entries.len(),
                entries == registry@,
                ({
                    let rest = finalize_model(entries.skip(i as int), self@.values);
                    full.0 == out@.map_values(|r: ValueRow| r@) + rest.0 && full.1 == rest.1
                }),
                self@.pvr == old(self)@.pvr,
                self@.vvr == old(self)@.vvr,
            decreases entries.len() - i,
        {
            assert(entries.skip(i as int)[0] == entries[i as int]);
            assert(entries.skip(i as int).drop_first() =~= entries.skip(i as int + 1));
            let e = &registry.entries[i];
            let ghost cur = self@.values;
            let fresh = id_set_insert(&mut self.written_value_ids, &e.value_id);
            if fresh {
                let ghost pre = out@.map_values(|r: ValueRow| r@);
                out.push(
                    ValueRow {
                        value_id: e.value_id.clone(),
                        value_type: e.value_type.clone(),
                        value_content: e.content.clone(),
                    },
                );
                proof {
                    let rowv = ValueRowV {
                        value_id: entries[i as int].value_id,
                        value_type: entries[i as int].value_type,
                        value_content: entries[i as int].content,
                    };
                    assert(out@.map_values(|r: ValueRow| r@) =~= pre.push(rowv));
                    let rest = finalize_model(entries.skip(i as int + 1), cur.insert(
                        entries[i as int].value_id,
                    ));
                    assert(pre + (seq![rowv] + rest.0) =~= pre.push(rowv) + rest.0);
                }
            } else {
                proof {
                    assert(cur.insert(entries[i as int].value_id) =~= cur);
                }
            }
            i = i + 1;
        }
        assert(finalize_model(entries.skip(i as int), self@.values).0
            =~= Seq::<ValueRowV>::empty());
        assert(full.0 =~= out@.map_values(|r: ValueRow| r@));
        out
    }
}

/// Deduplication of any row sequence on a key: the shape shared by the
/// three dedup tables and by finalization.
pub open spec fn dedup_rows<R, K>(rows: Seq<R>, key: spec_fn(R) -> K, written: Set<K>) -> (
    Seq<R>,
    Set<K>,
)
    decreases rows.len(),
{
    if rows.len() == 0 {
        (Seq::empty(), written)
    } else if written.contains(key(rows[0])) {
        dedup_rows(rows.drop_first(), key, written)
    } else {
        let rest = dedup_rows(rows.drop_first(), key, written.insert(key(rows[0])));
        (seq![rows[0]] + rest.0, rest.1)
    }
}

pub open spec fn seq_has_key<R, K>(rows: Seq<R>, key: spec_fn(R) -> K, k: K) -> bool {
    exists|j: int| 0 <= j < rows.len() && key(#[trigger] rows[j]) == k
}

pub open spec fn seq_has_row<R>(rows: Seq<R>, r: R) -> bool {
    exists|j: int| 0 <= j < rows.len() && rows[j] == r
}

/// What key-based deduplication guarantees: kept rows have pairwise
/// distinct keys, none already written; the written set afterwards is
/// the old one plus the input keys; an unwritten input key is kept; and
/// every kept row comes from the input.
pub proof fn lemma_dedup_rows_props<R, K>(rows: Seq<R>, key: spec_fn(R) -> K, written: Set<K>)
    ensures
        ({
            let r = dedup_rows(rows, key, written);
            &&& (forall|i: int, j: int|
                0 <= i < j < r.0.len() ==> key(#[trigger] r.0[i]) != key(#[trigger] r.0[j]))
            &&& (forall|i: int| 0 <= i < r.0.len() ==> !written.contains(key(#[trigger] r.0[i])))
            &&& (forall|k: K|
                #![trigger r.1.contains(k)]
                r.1.contains(k) <==> written.contains(k) || seq_has_key(rows, key, k))
            &&& (forall|k: K|
                #![trigger seq_has_key(rows, key, k)]
                seq_has_key(rows, key, k) && !written.contains(k) ==> seq_has_key(r.0, key, k))
            &&& (forall|i: int| 0 <= i < r.0.len() ==> seq_has_row(rows, #[trigger] r.0[i]))
        }),
    decreases rows.len(),
{
    let r = dedup_rows(rows, key, written);
    if rows.len() == 0 {
        assert(forall|k: K| !seq_has_key(rows, key, k));
    } else {
        let head = rows[0];
        let tail = rows.drop_first();
        assert(forall|j: int| 0 <= j < tail.len() ==> tail[j] == rows[j + 1]);
        assert forall|k: K| #![trigger seq_has_key(rows, key, k)]
            seq_has_key(rows, key, k) <==> (key(head) == k || seq_has_key(tail, key, k)) by {
            if seq_has_key(rows, key, k) {
                let j = choose|j: int| 0 <= j < rows.len() && key(rows[j]) == k;
                if j > 0 {
                    assert(tail[j - 1] == rows[j]);
                    assert(seq_has_key(tail, key, k));
                }
            }
            if seq_has_key(tail, key, k) {
                let j = choose|j: int| 0 <= j < tail.len() && key(tail[j]) == k;
                assert(rows[j + 1] == tail[j]);
                assert(seq_has_key(rows, key, k));
            }
            if key(head) == k {
                assert(seq_has_key(rows, key, k));
            }
        }
        assert forall|x: R| seq_has_row(tail, x) implies seq_has_row(rows, x) by {
            if seq_has_row(tail, x) {
                let j = choose|j: int| 0 <= j < tail.len() && tail[j] == x;
                assert(rows[j + 1] == tail[j]);
            }
        }
        assert(seq_has_row(rows, head));
        if written.contains(key(head)) {
            lemma_dedup_rows_props(tail, key, written);
            let rec = dedup_rows(tail, key, written);
            assert(r.0 == rec.0 && r.1 == rec.1);
            assert forall|i: int| 0 <= i < r.0.len() implies !written.contains(
                key(#[trigger] r.0[i]),
            ) by {
                assert(r.0[i] == rec.0[i]);
                assert(!written.contains(key(rec.0[i])));
            }
            assert forall|i: int, j: int| 0 <= i < j < r.0.len() implies key(#[trigger] r.0[i])
                != key(#[trigger] r.0[j]) by {
                assert(r.0[i] == rec.0[i]);
                assert(r.0[j] == rec.0[j]);
                assert(key(rec.0[i]) != key(rec.0[j]));
            }
            assert forall|i: int| 0 <= i < r.0.len() implies seq_has_row(
                rows,
                #[trigger] r.0[i],
            ) by {
                assert(r.0[i] == rec.0[i]);
                assert(seq_has_row(tail, rec.0[i]));
            }
        } else {
            let written2 = written.insert(key(head));
            lemma_dedup_rows_props(tail, key, written2);
            let rest = dedup_rows(tail, key, written2);
            assert(r.0 == seq![head] + rest.0);
            assert(r.0[0] == head);
            assert(forall|i: int| 0 <= i < rest.0.len() ==> r.0[i + 1] == rest.0[i]);
            assert forall|i: int| 0 <= i < r.0.len() implies !written.contains(
                key(#[trigger] r.0[i]),
            ) by {
                if i > 0 {
                    assert(r.0[i] == rest.0[i - 1]);
                    assert(!written2.contains(key(rest.0[i - 1])));
                }
            }
            assert forall|i: int| 0 <= i < r.0.len() implies seq_has_row(
                rows,
                #[trigger] r.0[i],
            ) by {
                if i > 0 {
                    assert(r.0[i] == rest.0[i - 1]);
                    assert(seq_has_row(tail, rest.0[i - 1]));
                }
            }
            assert forall|i: int, j: int| 0 <= i < j < r.0.len() implies key(#[trigger] r.0[i])
                != key(#[trigger] r.0[j]) by {
                if i == 0 {
                    assert(r.0[j] == rest.0[j - 1]);
                    assert(!written2.contains(key(rest.0[j - 1])));
                } else {
                    assert(r.0[i] == rest.0[i - 1]);
                    assert(r.0[j] == rest.0[j - 1]);
                }
            }
            assert forall|k: K| #![trigger seq_has_key(r.0, key, k)]
                seq_has_key(rows, key, k) && !written.contains(k) implies seq_has_key(
                r.0,
                key,
                k,
            ) by {
                if key(head) == k {
                    assert(key(r.0[0]) == k);
                    assert(seq_has_key(r.0, key, k));
                } else if seq_has_key(tail, key, k) && !written2.contains(k) {
                    let j = choose|j: int| 0 <= j < rest.0.len() && key(rest.0[j]) == k;
                    assert(r.0[j + 1] == rest.0[j]);
                    assert(seq_has_key(r.0, key, k));
                }
            }
        }
    }
}

pub proof fn lemma_dedup_values_is_generic(
    rows: Seq<ValueRowV>,
    written: Set<Seq<char>>,
    key: spec_fn(ValueRowV) -> Seq<char>,
)
    requires
        forall|r: ValueRowV| #[trigger] key(r) == r.value_id,
    ensures
        dedup_values(rows, written) == dedup_rows(rows, key, written),
    decreases rows.len(),
{
    if rows.len() > 0 {
        if written.contains(rows[0].value_id) {
            lemma_dedup_values_is_generic(rows.drop_first(), written, key);
        } else {
            lemma_dedup_values_is_generic(rows.drop_first(), written.insert(rows[0].value_id), key);
        }
    }
}

pub proof fn lemma_dedup_pvr_is_generic(
    rows: Seq<ProcessValueRowV>,
    written: Set<(Seq<char>, Seq<char>, Seq<char>)>,
    key: spec_fn(ProcessValueRowV) -> (Seq<char>, Seq<char>, Seq<char>),
)
    requires
        forall|r: ProcessValueRowV| #[trigger] key(r) == pvr_key(r),
    ensures
        dedup_pvr(rows, written) == dedup_rows(rows, key, written),
    decreases rows.len(),
{
    if rows.len() > 0 {
        if written.contains(pvr_key(rows[0])) {
            lemma_dedup_pvr_is_generic(rows.drop_first(), written, key);
        } else {
            lemma_dedup_pvr_is_generic(rows.drop_first(), written.insert(pvr_key(rows[0])), key);
        }
    }
}

pub proof fn lemma_dedup_vvr_is_generic(
    rows: Seq<ValueValueRowV>,
    written: Set<(Seq<char>, Seq<char>, Seq<char>, Option<int>)>,
    key: spec_fn(ValueValueRowV) -> (Seq<char>, Seq<char>, Seq<char>, Option<int>),
)
    requires
        forall|r: ValueValueRowV| #[trigger] key(r) == vvr_key(r),
    ensures
        dedup_vvr(rows, written) == dedup_rows(rows, key, written),
    decreases rows.len(),
{
    if rows.len() > 0 {
        if written.contains(vvr_key(rows[0])) {
            lemma_dedup_vvr_is_generic(rows.drop_first(), written, key);
        } else {
            lemma_dedup_vvr_is_generic(rows.drop_first(), written.insert(vvr_key(rows[0])), key);
        }
    }
}

/// The `values` row a null registry entry yields at finalization.
pub open spec fn null_row_of(e: NullEntryV) -> ValueRowV {
    ValueRowV { value_id: e.value_id, value_type: e.value_type, value_content: e.content }
}

pub proof fn lemma_finalize_is_generic(
    entries: Seq<NullEntryV>,
    written: Set<Seq<char>>,
    key: spec_fn(NullEntryV) -> Seq<char>,
)
    requires
        forall|e: NullEntryV| #[trigger] key(e) == e.value_id,
    ensures
        ({
            let g = dedup_rows(entries, key, written);
            finalize_model(entries, written) == (
                g.0.map_values(|e: NullEntryV| null_row_of(e)),
                g.1,
            )
        }),
    decreases entries.len(),
{
    let g = dedup_rows(entries, key, written);
    if entries.len() == 0 {
        assert(g.0.map_values(|e: NullEntryV| null_row_of(e)) =~= Seq::<ValueRowV>::empty());
    } else if written.contains(entries[0].value_id) {
        lemma_finalize_is_generic(entries.drop_first(), written, key);
    } else {
        lemma_finalize_is_generic(entries.drop_first(), written.insert(entries[0].value_id), key);
        let rest = dedup_rows(entries.drop_first(), key, written.insert(entries[0].value_id));
        assert((seq![entries[0]] + rest.0).map_values(|e: NullEntryV| null_row_of(e))
            =~= seq![null_row_of(entries[0])] + rest.0.map_values(|e: NullEntryV| null_row_of(e)));
    }
}

/// Successive key-based deduplication over a sequence of row groups,
/// threading the written set through.
pub open spec fn dedup_chain<R, K>(rowss: Seq<Seq<R>>, key: spec_fn(R) -> K, written: Set<K>) -> (
    Seq<R>,
    Set<K>,
)
    decreases rowss.len(),
{
    if rowss.len() == 0 {
        (Seq::empty(), written)
    } else {
        let h = dedup_rows(rowss[0], key, written);
        let rest = dedup_chain(rowss.drop_first(), key, h.1);
        (h.0 + rest.0, rest.1)
    }
}

pub open spec fn chain_has_key<R, K>(rowss: Seq<Seq<R>>, key: spec_fn(R) -> K, k: K) -> bool {
    exists|j: int| 0 <= j < rowss.len() && seq_has_key(#[trigger] rowss[j], key, k)
}

/// What a whole run of key-based deduplication guarantees: over all
/// groups together, kept rows have pairwise distinct keys, none in the
/// initial written set; every kept key is in the final set; the final
/// set is the initial one plus all input keys; and an input key absent
/// from the initial set is kept exactly once.
pub proof fn lemma_dedup_chain_props<R, K>(rowss: Seq<Seq<R>>, key: spec_fn(R) -> K, written: Set<K>)
    ensures
        ({
            let r = dedup_chain(rowss, key, written);
            &&& (forall|i: int, j: int|
                0 <= i < j < r.0.len() ==> key(#[trigger] r.0[i]) != key(#[trigger] r.0[j]))
            &&& (forall|i: int| 0 <= i < r.0.len() ==> !written.contains(key(#[trigger] r.0[i])))
            &&& (forall|i: int| 0 <= i < r.0.len() ==> r.1.contains(key(#[trigger] r.0[i])))
            &&& (forall|k: K|
                #![trigger r.1.contains(k)]
                r.1.contains(k) <==> written.contains(k) || chain_has_key(rowss, key, k))
            &&& (forall|k: K|
                #![trigger chain_has_key(rowss, key, k)]
                chain_has_key(rowss, key, k) && !written.contains(k) ==> seq_has_key(
                    r.0,
                    key,
                    k,
                ))
        }),
    decreases rowss.len(),
{
    let r = dedup_chain(rowss, key, written);
    if rowss.len() == 0 {
        assert(forall|k: K| !chain_has_key(rowss, key, k));
    } else {
        let tail = rowss.drop_first();
        assert(forall|j: int| 0 <= j < tail.len() ==> tail[j] == rowss[j + 1]);
        let h = dedup_rows(rowss[0], key, written);
        let rest = dedup_chain(tail, key, h.1);
        lemma_dedup_rows_props(rowss[0], key, written);
        lemma_dedup_chain_props(tail, key, h.1);
        assert(r.0 == h.0 + rest.0);
        assert(forall|i: int| 0 <= i < h.0.len() ==> r.0[i] == h.0[i]);
        assert(forall|i: int| 0 <= i < rest.0.len() ==> r.0[h.0.len() + i] == rest.0[i]);
        assert forall|k: K| #![trigger chain_has_key(rowss, key, k)]
            chain_has_key(rowss, key, k) <==> (seq_has_key(rowss[0], key, k) || chain_has_key(
            tail,
            key,
            k,
        )) by {
            if chain_has_key(rowss, key, k) {
                let j = choose|j: int| 0 <= j < rowss.len() && seq_has_key(rowss[j], key, k);
                if j > 0 {
                    assert(tail[j - 1] == rowss[j]);
                    assert(chain_has_key(tail, key, k));
                }
            }
            if seq_has_key(rowss[0], key, k) {
                assert(chain_has_key(rowss, key, k));
            }
            if chain_has_key(tail, key, k) {
                let j = choose|j: int| 0 <= j < tail.len() && seq_has_key(tail[j], key, k);
                assert(rowss[j + 1] == tail[j]);
                assert(chain_has_key(rowss, key, k));
            }
        }
        // the head's kept keys are all in the set the tail starts from,
        // and sets only grow along the chain
        assert forall|i: int| 0 <= i < r.0.len() implies r.1.contains(
            key(#[trigger] r.0[i]),
        ) by {
            if i < h.0.len() {
                assert(h.1.contains(key(h.0[i])));
                assert(seq_has_row(rowss[0], h.0[i]));
                assert(r.1.contains(key(h.0[i])));
            } else {
                assert(r.0[i] == rest.0[i - h.0.len()]);
            }
        }
        assert forall|i: int, j: int| 0 <= i < j < r.0.len() implies key(#[trigger] r.0[i]) != key(
            #[trigger] r.0[j],
        ) by {
            if i < h.0.len() && j >= h.0.len() {
                assert(r.0[j] == rest.0[j - h.0.len()]);
                assert(!h.1.contains(key(rest.0[j - h.0.len()])));
                assert(h.1.contains(key(h.0[i])));
            } else if j < h.0.len() {
            } else {
                assert(r.0[i] == rest.0[i - h.0.len()]);
                assert(r.0[j] == rest.0[j - h.0.len()]);
            }
        }
        assert forall|k: K| #![trigger chain_has_key(rowss, key, k)]
            chain_has_key(rowss, key, k) && !written.contains(k) implies seq_has_key(
            r.0,
            key,
            k,
        ) by {
            if seq_has_key(rowss[0], key, k) {
                let j = choose|j: int| 0 <= j < h.0.len() && key(h.0[j]) == k;
                assert(r.0[j] == h.0[j]);
                assert(seq_has_key(r.0, key, k));
            } else if chain_has_key(tail, key, k) && !h.1.contains(k) {
                let j = choose|j: int| 0 <= j < rest.0.len() && key(rest.0[j]) == k;
                assert(r.0[h.0.len() + j] == rest.0[j]);
                assert(seq_has_key(r.0, key, k));
            }
        }
    }
}

/// What the writer keeps of a whole run of batches, in order, and the
/// dedup state at the end.
pub open spec fn apply_batches(batches: Seq<BatchV>, d: DedupV) -> (Seq<BatchV>, DedupV)
    decreases batches.len(),
{
    if batches.len() == 0 {
        (Seq::empty(), d)
    } else {
        let h = apply_batch(batches[0], d);
        let rest = apply_batches(batches.drop_first(), h.1);
        (seq![h.0] + rest.0, rest.1)
    }
}

/// All `values` rows of a run's kept batches, in emission order.
pub open spec fn emitted_values(outs: Seq<BatchV>) -> Seq<ValueRowV>
    decreases outs.len(),
{
    if outs.len() == 0 {
        Seq::empty()
    } else {
        outs[0].values + emitted_values(outs.drop_first())
    }
}

/// All process-value relationship rows of a run's kept batches.
pub open spec fn emitted_pvr(outs: Seq<BatchV>) -> Seq<ProcessValueRowV>
    decreases outs.len(),
{
    if outs.len() == 0 {
        Seq::empty()
    } else {
        outs[0].process_value_relationships + emitted_pvr(outs.drop_first())
    }
}

/// All value-value relationship rows of a run's kept batches.
pub open spec fn emitted_vvr(outs: Seq<BatchV>) -> Seq<ValueValueRowV>
    decreases outs.len(),
{
    if outs.len() == 0 {
        Seq::empty()
    } else {
        outs[0].value_value_relationships + emitted_vvr(outs.drop_first())
    }
}

proof fn lemma_values_chain_bridge(
    batches: Seq<BatchV>,
    d: DedupV,
    key: spec_fn(ValueRowV) -> Seq<char>,
)
    requires
        forall|r: ValueRowV| #[trigger] key(r) == r.value_id,
    ensures
        ({
            let r = apply_batches(batches, d);
            let c = dedup_chain(batches.map_values(|b: BatchV| b.values), key, d.values);
            emitted_values(r.0) == c.0 && r.1.values == c.1
        }),
    decreases batches.len(),
{
    let r = apply_batches(batches, d);
    let groups = batches.map_values(|b: BatchV| b.values);
    if batches.len() == 0 {
        assert(groups.len() == 0);
    } else {
        let h = apply_batch(batches[0], d);
        lemma_dedup_values_is_generic(batches[0].values, d.values, key);
        lemma_values_chain_bridge(batches.drop_first(), h.1, key);
        assert(batches.drop_first().map_values(|b: BatchV| b.values) =~= groups.drop_first());
        let rest = apply_batches(batches.drop_first(), h.1);
        assert(emitted_values(r.0) =~= h.0.values + emitted_values(rest.0)) by {
            assert(r.0 == seq![h.0] + rest.0);
            assert(r.0[0] == h.0);
            assert(r.0.drop_first() =~= rest.0);
        }
        assert(groups[0] == batches[0].values);
    }
}

proof fn lemma_pvr_chain_bridge(
    batches: Seq<BatchV>,
    d: DedupV,
    key: spec_fn(ProcessValueRowV) -> (Seq<char>, Seq<char>, Seq<char>),
)
    requires
        forall|r: ProcessValueRowV| #[trigger] key(r) == pvr_key(r),
    ensures
        ({
            let r = apply_batches(batches, d);
            let c = dedup_chain(
                batches.map_values(|b: BatchV| b.process_value_relationships),
                key,
                d.pvr,
            );
            emitted_pvr(r.0) == c.0 && r.1.pvr == c.1
        }),
    decreases batches.len(),
{
    let r = apply_batches(batches, d);
    let groups = batches.map_values(|b: BatchV| b.process_value_relationships);
    if batches.len() == 0 {
        assert(groups.len() == 0);
    } else {
        let h = apply_batch(batches[0], d);
        lemma_dedup_pvr_is_generic(batches[0].process_value_relationships, d.pvr, key);
        lemma_pvr_chain_bridge(batches.drop_first(), h.1, key);
        assert(batches.drop_first().map_values(|b: BatchV| b.process_value_relationships)
            =~= groups.drop_first());
        let rest = apply_batches(batches.drop_first(), h.1);
        assert(emitted_pvr(r.0) =~= h.0.process_value_relationships + emitted_pvr(rest.0)) by {
            assert(r.0 == seq![h.0] + rest.0);
            assert(r.0[0] == h.0);
            assert(r.0.drop_first() =~= rest.0);
        }
        assert(groups[0] == batches[0].process_value_relationships);
    }
}

proof fn lemma_vvr_chain_bridge(
    batches: Seq<BatchV>,
    d: DedupV,
    key: spec_fn(ValueValueRowV) -> (Seq<char>, Seq<char>, Seq<char>, Option<int>),
)
    requires
        forall|r: ValueValueRowV| #[trigger] key(r) == vvr_key(r),
    ensures
        ({
            let r = apply_batches(batches, d);
            let c = dedup_chain(
                batches.map_values(|b: BatchV| b.value_value_relationships),
                key,
                d.vvr,
            );
            emitted_vvr(r.0) == c.0 && r.1.vvr == c.1
        }),
    decreases batches.len(),
{
    let r = apply_batches(batches, d);
    let groups = batches.map_values(|b: BatchV| b.value_value_relationships);
    if batches.len() == 0 {
        assert(groups.len() == 0);
    } else {
        let h = apply_batch(batches[0], d);
        lemma_dedup_vvr_is_generic(batches[0].value_value_relationships, d.vvr, key);
        lemma_vvr_chain_bridge(batches.drop_first(), h.1, key);
        assert(batches.drop_first().map_values(|b: BatchV| b.value_value_relationships)
            =~= groups.drop_first());
        let rest = apply_batches(batches.drop_first(), h.1);
        assert(emitted_vvr(r.0) =~= h.0.value_value_relationships + emitted_vvr(rest.0)) by {
            assert(r.0 == seq![h.0] + rest.0);
            assert(r.0[0] == h.0);
            assert(r.0.drop_first() =~= rest.0);
        }
        assert(groups[0] == batches[0].value_value_relationships);
    }
}

/// Value dedup: over a whole run started from fresh dedup state, no two
/// emitted `values` rows share a `value_id`, and every value identifier
/// occurring in any input batch is emitted — so each observed identifier
/// gets exactly one `values` row.
pub proof fn lemma_run_value_dedup(batches: Seq<BatchV>)
    ensures
        ({
            let r = apply_batches(batches, DedupV::empty());
            let vals = emitted_values(r.0);
            &&& (forall|i: int, j: int|
                0 <= i < j < vals.len() ==> (#[trigger] vals[i]).value_id != (
                #[trigger] vals[j]).value_id)
            &&& (forall|b: int, j: int|
                0 <= b < batches.len() && 0 <= j < batches[b].values.len() ==> exists|i: int|
                    0 <= i < vals.len() && (#[trigger] vals[i]).value_id == (
                    #[trigger] batches[b].values[j]).value_id)
        }),
{
    let key = |r: ValueRowV| r.value_id;
    let r = apply_batches(batches, DedupV::empty());
    let vals = emitted_values(r.0);
    let groups = batches.map_values(|b: BatchV| b.values);
    lemma_values_chain_bridge(batches, DedupV::empty(), key);
    lemma_dedup_chain_props(groups, key, Set::empty());
    assert forall|i: int, j: int| 0 <= i < j < vals.len() implies (#[trigger] vals[i]).value_id
        != (#[trigger] vals[j]).value_id by {
        assert(key(vals[i]) != key(vals[j]));
    }
    assert forall|b: int, j: int|
        0 <= b < batches.len() && 0 <= j < batches[b].values.len() implies exists|i: int|
        0 <= i < vals.len() && (#[trigger] vals[i]).value_id == (
        #[trigger] batches[b].values[j]).value_id by {
        let k = batches[b].values[j].value_id;
        assert(groups[b] == batches[b].values);
        assert(key(groups[b][j]) == k);
        assert(seq_has_key(groups[b], key, k));
        assert(chain_has_key(groups, key, k));
        assert(!Set::<Seq<char>>::empty().contains(k));
        assert(seq_has_key(vals, key, k));
        let i = choose|i: int| 0 <= i < vals.len() && key(#[trigger] vals[i]) == k;
        assert(0 <= i < vals.len() && vals[i].value_id == k);
    }
}

/// Relationship dedup, process-value side: over a whole run started
/// from fresh dedup state, no two emitted process-value relationship
/// rows share `(process_id, value_id, relationship_type)`.
pub proof fn lemma_run_pvr_dedup(batches: Seq<BatchV>)
    ensures
        ({
            let rels = emitted_pvr(apply_batches(batches, DedupV::empty()).0);
            forall|i: int, j: int|
                0 <= i < j < rels.len() ==> pvr_key(#[trigger] rels[i]) != pvr_key(
                    #[trigger] rels[j],
                )
        }),
{
    let key = |r: ProcessValueRowV| pvr_key(r);
    let rels = emitted_pvr(apply_batches(batches, DedupV::empty()).0);
    lemma_pvr_chain_bridge(batches, DedupV::empty(), key);
    lemma_dedup_chain_props(
        batches.map_values(|b: BatchV| b.process_value_relationships),
        key,
        Set::empty(),
    );
    assert forall|i: int, j: int| 0 <= i < j < rels.len() implies pvr_key(#[trigger] rels[i])
        != pvr_key(#[trigger] rels[j]) by {
        assert(key(rels[i]) != key(rels[j]));
    }
}

/// Relationship dedup, value-value side: over a whole run started from
/// fresh dedup state, no two emitted value-value relationship rows
/// share `(source_value_id, target_value_id, relationship_type,
/// ordinal)`.
pub proof fn lemma_run_vvr_dedup(batches: Seq<BatchV>)
    ensures
        ({
            let rels = emitted_vvr(apply_batches(batches, DedupV::empty()).0);
            forall|i: int, j: int|
                0 <= i < j < rels.len() ==> vvr_key(#[trigger] rels[i]) != vvr_key(
                    #[trigger] rels[j],
                )
        }),
{
    let key = |r: ValueValueRowV| vvr_key(r);
    let rels = emitted_vvr(apply_batches(batches, DedupV::empty()).0);
    lemma_vvr_chain_bridge(batches, DedupV::empty(), key);
    lemma_dedup_chain_props(
        batches.map_values(|b: BatchV| b.value_value_relationships),
        key,
        Set::empty(),
    );
    assert forall|i: int, j: int| 0 <= i < j < rels.len() implies vvr_key(#[trigger] rels[i])
        != vvr_key(#[trigger] rels[j]) by {
        assert(key(rels[i]) != key(rels[j]));
    }
}

/// Whether a batch's relationship rows all resolve their value
/// identifiers to `values` rows of the same batch, as every batch a
/// record's extraction produces does (see the extractor's integrity
/// law).
pub open spec fn batch_refs_resolved(b: BatchV) -> bool {
    &&& (forall|i: int|
        0 <= i < b.process_value_relationships.len() ==> crate::extract::batch_value_ids(
            b,
        ).contains((#[trigger] b.process_value_relationships[i]).value_id))
    &&& (forall|i: int|
        0 <= i < b.record_value_relationships.len() ==> crate::extract::batch_value_ids(
            b,
        ).contains((#[trigger] b.record_value_relationships[i]).value_id))
    &&& (forall|i: int|
        0 <= i < b.value_value_relationships.len() ==> crate::extract::batch_value_ids(
            b,
        ).contains((#[trigger] b.value_value_relationships[i]).target_value_id)
            && crate::extract::batch_value_ids(b).contains(
            b.value_value_relationships[i].source_value_id,
        ))
}

/// Every batch one record's extraction produces resolves its references
/// internally, so a run of extracted batches satisfies the premise of
/// the run-level integrity law below.
pub proof fn lemma_record_batch_resolved(
    ctx: crate::extract::Ctx,
    profile: crate::config::Profile,
    active: Seq<(String, String)>,
    record: crate::json::Json,
)
    ensures
        batch_refs_resolved(crate::extract::record_model(ctx, profile, active, record)),
{
    crate::extract::lemma_record_model_integrity(ctx, profile, active, record);
}

/// Referential integrity across a run: when every input batch resolves
/// its references internally, every value identifier referenced by any
/// relationship row of any input batch — and so by any kept row — has a
/// `values` row among the values the run emits.  Records and
/// record-bound rows pass through the writer untouched, so their side
/// of the integrity is the per-batch integrity law itself.
pub proof fn lemma_run_referential_integrity(batches: Seq<BatchV>)
    requires
        forall|b: int| 0 <= b < batches.len() ==> batch_refs_resolved(#[trigger] batches[b]),
    ensures
        ({
            let vals = emitted_values(apply_batches(batches, DedupV::empty()).0);
            &&& (forall|b: int, i: int|
                0 <= b < batches.len() && 0 <= i
                    < batches[b].process_value_relationships.len() ==> exists|t: int|
                    0 <= t < vals.len() && (#[trigger] vals[t]).value_id == (
                    #[trigger] batches[b].process_value_relationships[i]).value_id)
            &&& (forall|b: int, i: int|
                0 <= b < batches.len() && 0 <= i < batches[b].record_value_relationships.len()
                    ==> exists|t: int|
                    0 <= t < vals.len() && (#[trigger] vals[t]).value_id == (
                    #[trigger] batches[b].record_value_relationships[i]).value_id)
            &&& (forall|b: int, i: int|
                0 <= b < batches.len() && 0 <= i < batches[b].value_value_relationships.len()
                    ==> (exists|t: int|
                    0 <= t < vals.len() && (#[trigger] vals[t]).value_id == (
                    #[trigger] batches[b].value_value_relationships[i]).target_value_id)
                    && (exists|t: int|
                    0 <= t < vals.len() && vals[t].value_id
                        == batches[b].value_value_relationships[i].source_value_id))
        }),
{
    let vals = emitted_values(apply_batches(batches, DedupV::empty()).0);
    lemma_run_value_dedup(batches);
    assert forall|b: int, k: Seq<char>|
        #![trigger crate::extract::batch_value_ids(batches[b]).contains(k)]
        0 <= b < batches.len() && crate::extract::batch_value_ids(batches[b]).contains(
            k,
        ) implies exists|t: int| 0 <= t < vals.len() && (#[trigger] vals[t]).value_id == k by {
        let j = choose|j: int|
            0 <= j < batches[b].values.len() && (#[trigger] batches[b].values[j]).value_id == k;
        assert(exists|t: int|
            0 <= t < vals.len() && (#[trigger] vals[t]).value_id == batches[b].values[j].value_id);
    }
}

/// Null finalization: after a whole run from fresh dedup state and the
/// finalization pass over the null registry, every registry entry's
/// precomputed identifier has exactly one `values` row — among the rows
/// the run emitted plus the rows finalization appended.
pub proof fn lemma_null_finalization(batches: Seq<BatchV>, entries: Seq<NullEntryV>)
    ensures
        ({
            let r = apply_batches(batches, DedupV::empty());
            let fin = finalize_model(entries, r.1.values);
            let combined = emitted_values(r.0) + fin.0;
            &&& (forall|i: int, j: int|
                0 <= i < j < combined.len() ==> (#[trigger] combined[i]).value_id != (
                #[trigger] combined[j]).value_id)
            &&& (forall|e: int|
                0 <= e < entries.len() ==> exists|i: int|
                    0 <= i < combined.len() && (#[trigger] combined[i]).value_id == (
                    #[trigger] entries[e]).value_id)
        }),
{
    let vkey = |r: ValueRowV| r.value_id;
    let ekey = |e: NullEntryV| e.value_id;
    let r = apply_batches(batches, DedupV::empty());
    let fin = finalize_model(entries, r.1.values);
    let vals = emitted_values(r.0);
    let combined = vals + fin.0;
    let groups = batches.map_values(|b: BatchV| b.values);
    lemma_values_chain_bridge(batches, DedupV::empty(), vkey);
    lemma_dedup_chain_props(groups, vkey, Set::empty());
    lemma_finalize_is_generic(entries, r.1.values, ekey);
    lemma_dedup_rows_props(entries, ekey, r.1.values);
    let g = dedup_rows(entries, ekey, r.1.values);
    assert(fin.0 == g.0.map_values(|e: NullEntryV| null_row_of(e)));
    assert(forall|i: int| 0 <= i < vals.len() ==> combined[i] == vals[i]);
    assert(forall|i: int| 0 <= i < fin.0.len() ==> combined[vals.len() + i] == fin.0[i]);
    assert(forall|i: int|
        0 <= i < fin.0.len() ==> (#[trigger] fin.0[i]).value_id == g.0[i].value_id);
    assert forall|i: int, j: int| 0 <= i < j < combined.len() implies (
    #[trigger] combined[i]).value_id != (#[trigger] combined[j]).value_id by {
        if j < vals.len() {
            assert(vkey(vals[i]) != vkey(vals[j]));
        } else if i >= vals.len() {
            assert(combined[i] == fin.0[i - vals.len()]);
            assert(combined[j] == fin.0[j - vals.len()]);
            assert(ekey(g.0[i - vals.len()]) != ekey(g.0[j - vals.len()]));
        } else {
            assert(combined[i] == vals[i]);
            assert(combined[j] == fin.0[j - vals.len()]);
            assert(r.1.values.contains(vkey(vals[i])));
            assert(!r.1.values.contains(ekey(g.0[j - vals.len()])));
        }
    }
    assert forall|e: int| 0 <= e < entries.len() implies exists|i: int|
        0 <= i < combined.len() && (#[trigger] combined[i]).value_id == (
        #[trigger] entries[e]).value_id by {
        let k = entries[e].value_id;
        if r.1.values.contains(k) {
            assert(chain_has_key(groups, vkey, k));
            assert(seq_has_key(vals, vkey, k));
            let i = choose|i: int| 0 <= i < vals.len() && vkey(#[trigger] vals[i]) == k;
            assert(combined[i] == vals[i]);
            assert(0 <= i < combined.len() && combined[i].value_id == k);
        } else {
            assert(ekey(entries[e]) == k);
            assert(seq_has_key(entries, ekey, k));
            assert(seq_has_key(g.0, ekey, k));
            let i = choose|i: int| 0 <= i < g.0.len() && ekey(#[trigger] g.0[i]) == k;
            assert(fin.0[i].value_id == k);
            assert(combined[vals.len() + i] == fin.0[i]);
            assert(0 <= vals.len() + i < combined.len() && combined[vals.len() + i].value_id
                == k);
        }
    }
}

} // verus!
