//! Normalized output rows and the per-file batch that accumulates them.
//!
//! Relationship rows carry a freshly minted surrogate key.  That key is
//! random, so every row type views as its meaningful columns only: two
//! rows are the same row, for specification purposes, when those columns
//! agree.  Confidence scores are a run-wide constant and are added at the
//! CSV edge.

use vstd::prelude::*;

verus! {

pub struct RecordRow {
    pub record_id: String,
    pub doi: String,
}

#[verifier::ext_equal]
pub ghost struct RecordRowV {
    pub record_id: Seq<char>,
    pub doi: Seq<char>,
}

impl View for RecordRow {
    type V = RecordRowV;

    open spec fn view(&self) -> RecordRowV {
        RecordRowV { record_id: self.record_id@, doi: self.doi@ }
    }
}

pub struct ValueRow {
    pub value_id: String,
    pub value_type: String,
    pub value_content: String,
}

#[verifier::ext_equal]
pub ghost struct ValueRowV {
    pub value_id: Seq<char>,
    pub value_type: Seq<char>,
    pub value_content: Seq<char>,
}

impl View for ValueRow {
    type V = ValueRowV;

    open spec fn view(&self) -> ValueRowV {
        ValueRowV {
            value_id: self.value_id@,
            value_type: self.value_type@,
            value_content: self.value_content@,
        }
    }
}

pub struct ProcessRecordRow {
    /// Random surrogate key; not part of the row's view.
    pub process_record_id: String,
    pub process_id: String,
    pub record_id: String,
    pub relationship_type: String,
    pub timestamp: String,
}

#[verifier::ext_equal]
pub ghost struct ProcessRecordRowV {
    pub process_id: Seq<char>,
    pub record_id: Seq<char>,
    pub relationship_type: Seq<char>,
    pub timestamp: Seq<char>,
}

impl View for ProcessRecordRow {
    type V = ProcessRecordRowV;

    open spec fn view(&self) -> ProcessRecordRowV {
        ProcessRecordRowV {
            process_id: self.process_id@,
            record_id: self.record_id@,
            relationship_type: self.relationship_type@,
            timestamp: self.timestamp@,
        }
    }
}

pub struct ProcessValueRow {
    /// Random surrogate key; not part of the row's view.
    pub process_value_id: String,
    pub process_id: String,
    pub value_id: String,
    pub relationship_type: String,
    pub timestamp: String,
}

#[verifier::ext_equal]
pub ghost struct ProcessValueRowV {
    pub process_id: Seq<char>,
    pub value_id: Seq<char>,
    pub relationship_type: Seq<char>,
    pub timestamp: Seq<char>,
}

impl View for ProcessValueRow {
    type V = ProcessValueRowV;

    open spec fn view(&self) -> ProcessValueRowV {
        ProcessValueRowV {
            process_id: self.process_id@,
            value_id: self.value_id@,
            relationship_type: self.relationship_type@,
            timestamp: self.timestamp@,
        }
    }
}

pub struct RecordValueRow {
    /// Random surrogate key; not part of the row's view.
    pub record_value_id: String,
    pub record_id: String,
    pub value_id: String,
    pub relationship_type: String,
    /// 1-based position in the source array.
    pub ordinal: usize,
    pub process_id: String,
    pub timestamp: String,
}

#[verifier::ext_equal]
pub ghost struct RecordValueRowV {
    pub record_id: Seq<char>,
    pub value_id: Seq<char>,
    pub relationship_type: Seq<char>,
    pub ordinal: int,
    pub process_id: Seq<char>,
    pub timestamp: Seq<char>,
}

impl View for RecordValueRow {
    type V = RecordValueRowV;

    open spec fn view(&self) -> RecordValueRowV {
        RecordValueRowV {
            record_id: self.record_id@,
            value_id: self.value_id@,
            relationship_type: self.relationship_type@,
            ordinal: self.ordinal as int,
            process_id: self.process_id@,
            timestamp: self.timestamp@,
        }
    }
}

pub struct ValueValueRow {
    /// Random surrogate key; not part of the row's view.
    pub value_value_id: String,
    pub source_value_id: String,
    pub target_value_id: String,
    pub relationship_type: String,
    /// 1-based position in the source array, or absent for lookup-style
    /// related values.
    pub ordinal: Option<usize>,
    pub process_id: String,
    pub timestamp: String,
}

#[verifier::ext_equal]
pub ghost struct ValueValueRowV {
    pub source_value_id: Seq<char>,
    pub target_value_id: Seq<char>,
    pub relationship_type: Seq<char>,
    pub ordinal: Option<int>,
    pub process_id: Seq<char>,
    pub timestamp: Seq<char>,
}

impl View for ValueValueRow {
    type V = ValueValueRowV;

    open spec fn view(&self) -> ValueValueRowV {
        ValueValueRowV {
            source_value_id: self.source_value_id@,
            target_value_id: self.target_value_id@,
            relationship_type: self.relationship_type@,
            ordinal: match self.ordinal {
                Some(o) => Some(o as int),
                None => None,
            },
            process_id: self.process_id@,
            timestamp: self.timestamp@,
        }
    }
}

impl Clone for ValueRow {
    fn clone(&self) -> (r: Self)
        ensures
            r == *self,
    {
        ValueRow {
            value_id: self.value_id.clone(),
            value_type: self.value_type.clone(),
            value_content: self.value_content.clone(),
        }
    }
}

impl Clone for ProcessValueRow {
    fn clone(&self) -> (r: Self)
        ensures
            r == *self,
    {
        ProcessValueRow {
            process_value_id: self.process_value_id.clone(),
            process_id: self.process_id.clone(),
            value_id: self.value_id.clone(),
            relationship_type: self.relationship_type.clone(),
            timestamp: self.timestamp.clone(),
        }
    }
}

impl Clone for ValueValueRow {
    fn clone(&self) -> (r: Self)
        ensures
            r == *self,
    {
        ValueValueRow {
            value_value_id: self.value_value_id.clone(),
            source_value_id: self.source_value_id.clone(),
            target_value_id: self.target_value_id.clone(),
            relationship_type: self.relationship_type.clone(),
            ordinal: self.ordinal,
            process_id: self.process_id.clone(),
            timestamp: self.timestamp.clone(),
        }
    }
}

/// The rows produced from a single input file, one vector per table.
pub struct OutputBatch {
    pub records: Vec<RecordRow>,
    pub values: Vec<ValueRow>,
    pub process_record_relationships: Vec<ProcessRecordRow>,
    pub process_value_relationships: Vec<ProcessValueRow>,
    pub record_value_relationships: Vec<RecordValueRow>,
    pub value_value_relationships: Vec<ValueValueRow>,
}

/// Mathematical model of a batch: one row sequence per table.
#[verifier::ext_equal]
pub ghost struct BatchV {
    pub records: Seq<RecordRowV>,
    pub values: Seq<ValueRowV>,
    pub process_record_relationships: Seq<ProcessRecordRowV>,
    pub process_value_relationships: Seq<ProcessValueRowV>,
    pub record_value_relationships: Seq<RecordValueRowV>,
    pub value_value_relationships: Seq<ValueValueRowV>,
}

impl View for OutputBatch {
    type V = BatchV;

    open spec fn view(&self) -> BatchV {
        BatchV {
            records: self.records@.map_values(|r: RecordRow| r@),
            values: self.values@.map_values(|r: ValueRow| r@),
            process_record_relationships: self.process_record_relationships@.map_values(
                |r: ProcessRecordRow| r@,
            ),
            process_value_relationships: self.process_value_relationships@.map_values(
                |r: ProcessValueRow| r@,
            ),
            record_value_relationships: self.record_value_relationships@.map_values(
                |r: RecordValueRow| r@,
            ),
            value_value_relationships: self.value_value_relationships@.map_values(
                |r: ValueValueRow| r@,
            ),
        }
    }
}

impl BatchV {
    /// The empty batch model.
    pub open spec fn empty() -> BatchV {
        BatchV {
            records: Seq::empty(),
            values: Seq::empty(),
            process_record_relationships: Seq::empty(),
            process_value_relationships: Seq::empty(),
            record_value_relationships: Seq::empty(),
            value_value_relationships: Seq::empty(),
        }
    }

    /// Table-wise concatenation of two batch models.
    pub open spec fn add(self, other: BatchV) -> BatchV {
        BatchV {
            records: self.records + other.records,
            values: self.values + other.values,
            process_record_relationships: self.process_record_relationships
                + other.process_record_relationships,
            process_value_relationships: self.process_value_relationships
                + other.process_value_relationships,
            record_value_relationships: self.record_value_relationships
                + other.record_value_relationships,
            value_value_relationships: self.value_value_relationships
                + other.value_value_relationships,
        }
    }

    pub open spec fn total_len(self) -> int {
        self.records.len() + self.values.len() + self.process_record_relationships.len()
            + self.process_value_relationships.len() + self.record_value_relationships.len()
            + self.value_value_relationships.len() as int
    }
}

pub proof fn lemma_batch_add_empty(a: BatchV)
    ensures
        a.add(BatchV::empty()) =~= a,
        BatchV::empty().add(a) =~= a,
{
}

pub proof fn lemma_batch_add_assoc(a: BatchV, b: BatchV, c: BatchV)
    ensures
        a.add(b).add(c) =~= a.add(b.add(c)),
{
}

impl OutputBatch {
    /// A batch with no rows in any table.
    pub fn new() -> (r: OutputBatch)
        ensures
            r@ =~= BatchV::empty(),
    {
        let r = OutputBatch {
            records: Vec::new(),
            values: Vec::new(),
            process_record_relationships: Vec::new(),
            process_value_relationships: Vec::new(),
            record_value_relationships: Vec::new(),
            value_value_relationships: Vec::new(),
        };
        assert(r@.records =~= Seq::<RecordRowV>::empty());
        assert(r@.values =~= Seq::<ValueRowV>::empty());
        assert(r@.process_record_relationships =~= Seq::<ProcessRecordRowV>::empty());
        assert(r@.process_value_relationships =~= Seq::<ProcessValueRowV>::empty());
        assert(r@.record_value_relationships =~= Seq::<RecordValueRowV>::empty());
        assert(r@.value_value_relationships =~= Seq::<ValueValueRowV>::empty());
        r
    }

    /// Whether every table is empty.
    pub fn is_empty(&self) -> (r: bool)
        ensures
            r == (self@.total_len() == 0),
    {
        self.records.len() == 0 && self.values.len() == 0
            && self.process_record_relationships.len() == 0
            && self.process_value_relationships.len() == 0
            && self.record_value_relationships.len() == 0
            && self.value_value_relationships.len() == 0
    }

    /// Total number of rows across the six tables, saturating at
    /// `usize::MAX`.
    pub fn count_rows(&self) -> (r: usize)
        ensures
            r == if self@.total_len() <= usize::MAX {
                self@.total_len()
            } else {
                usize::MAX as int
            },
    {
        let mut r: usize = self.records.len();
        r = sat_add(r, self.values.len());
        r = sat_add(r, self.process_record_relationships.len());
        r = sat_add(r, self.process_value_relationships.len());
        r = sat_add(r, self.record_value_relationships.len());
        r = sat_add(r, self.value_value_relationships.len());
        r
    }
}

/// Addition on `usize` that saturates at `usize::MAX`.
fn sat_add(a: usize, b: usize) -> (r: usize)
    ensures
        r == if a + b <= usize::MAX {
            a + b
        } else {
            usize::MAX as int
        },
{
    if a <= usize::MAX - b {
        a + b
    } else {
        usize::MAX
    }
}

} // verus!
