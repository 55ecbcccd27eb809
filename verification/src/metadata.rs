//! Output table layout and the optional source/process metadata tables.
//!
//! Every run writes six data tables with fixed headers.  When the
//! operator asks for metadata files, each profile of the run also
//! contributes its source and process — each written once, first
//! occurrence winning — and one source-process relationship row.

use vstd::prelude::*;
use vstd::string::StringExecFns;
use crate::config::Profile;

verus! {

/// The header row of each data table, in output order.
pub open spec fn data_table_layout() -> Seq<(Seq<char>, Seq<Seq<char>>)> {
    seq![
        ("records"@, seq!["record_id"@, "doi"@]),
        ("values"@, seq!["value_id"@, "value_type"@, "value_content"@]),
        (
            "process_record_relationships"@,
            seq![
                "process_record_id"@,
                "process_id"@,
                "record_id"@,
                "relationship_type"@,
                "timestamp"@,
            ],
        ),
        (
            "process_value_relationships"@,
            seq![
                "process_value_id"@,
                "process_id"@,
                "value_id"@,
                "relationship_type"@,
                "confidence_score"@,
                "timestamp"@,
            ],
        ),
        (
            "record_value_relationships"@,
            seq![
                "record_value_id"@,
                "record_id"@,
                "value_id"@,
                "relationship_type"@,
                "ordinal"@,
                "process_id"@,
                "timestamp"@,
            ],
        ),
        (
            "value_value_relationships"@,
            seq![
                "value_value_id"@,
                "source_value_id"@,
                "target_value_id"@,
                "relationship_type"@,
                "ordinal"@,
                "process_id"@,
                "confidence_score"@,
                "timestamp"@,
            ],
        ),
    ]
}

/// The header row of each metadata table, in output order.
pub open spec fn metadata_table_layout() -> Seq<(Seq<char>, Seq<Seq<char>>)> {
    seq![
        ("sources"@, seq!["source_id"@, "source_name"@, "source_description"@]),
        ("processes"@, seq!["process_id"@, "process_name"@, "process_description"@]),
        (
            "source_process_relationships"@,
            seq![
                "source_process_id"@,
                "source_id"@,
                "process_id"@,
                "relationship_type"@,
                "start_date"@,
                "end_date"@,
            ],
        ),
    ]
}

pub open spec fn table_view(t: (String, Vec<String>)) -> (Seq<char>, Seq<Seq<char>>) {
    (t.0@, t.1@.map_values(|c: String| c@))
}

/// The six data tables with their headers, as `data_table_layout`
/// lists them.
pub fn data_tables() -> (r: Vec<(String, Vec<String>)>)
    ensures
        r@.map_values(|t: (String, Vec<String>)| table_view(t)) =~~= data_table_layout(),
{
    let mut r: Vec<(String, Vec<String>)> = Vec::new();
    let mut cols: Vec<String> = Vec::new();
    cols.push("record_id".to_owned());
    cols.push("doi".to_owned());
    r.push(("records".to_owned(), cols));
    let mut cols: Vec<String> = Vec::new();
    cols.push("value_id".to_owned());
    cols.push("value_type".to_owned());
    cols.push("value_content".to_owned());
    r.push(("values".to_owned(), cols));
    let mut cols: Vec<String> = Vec::new();
    cols.push("process_record_id".to_owned());
    cols.push("process_id".to_owned());
    cols.push("record_id".to_owned());
    cols.push("relationship_type".to_owned());
    cols.push("timestamp".to_owned());
    r.push(("process_record_relationships".to_owned(), cols));
    let mut cols: Vec<String> = Vec::new();
    cols.push("process_value_id".to_owned());
    cols.push("process_id".to_owned());
    cols.push("value_id".to_owned());
    cols.push("relationship_type".to_owned());
    cols.push("confidence_score".to_owned());
    cols.push("timestamp".to_owned());
    r.push(("process_value_relationships".to_owned(), cols));
    let mut cols: Vec<String> = Vec::new();
    cols.push("record_value_id".to_owned());
    cols.push("record_id".to_owned());
    cols.push("value_id".to_owned());
    cols.push("relationship_type".to_owned());
    cols.push("ordinal".to_owned());
    cols.push("process_id".to_owned());
    cols.push("timestamp".to_owned());
    r.push(("record_value_relationships".to_owned(), cols));
    let mut cols: Vec<String> = Vec::new();
    cols.push("value_value_id".to_owned());
    cols.push("source_value_id".to_owned());
    cols.push("target_value_id".to_owned());
    cols.push("relationship_type".to_owned());
    cols.push("ordinal".to_owned());
    cols.push("process_id".to_owned());
    cols.push("confidence_score".to_owned());
    cols.push("timestamp".to_owned());
    r.push(("value_value_relationships".to_owned(), cols));
    assert(r@.map_values(|t: (String, Vec<String>)| table_view(t)) =~~= data_table_layout());
    r
}

/// The three metadata tables with their headers, as
/// `metadata_table_layout` lists them.
pub fn metadata_tables() -> (r: Vec<(String, Vec<String>)>)
    ensures
        r@.map_values(|t: (String, Vec<String>)| table_view(t)) =~~= metadata_table_layout(),
{
    let mut r: Vec<(String, Vec<String>)> = Vec::new();
    let mut cols: Vec<String> = Vec::new();
    cols.push("source_id".to_owned());
    cols.push("source_name".to_owned());
    cols.push("source_description".to_owned());
    r.push(("sources".to_owned(), cols));
    let mut cols: Vec<String> = Vec::new();
    cols.push("process_id".to_owned());
    cols.push("process_name".to_owned());
    cols.push("process_description".to_owned());
    r.push(("processes".to_owned(), cols));
    let mut cols: Vec<String> = Vec::new();
    cols.push("source_process_id".to_owned());
    cols.push("source_id".to_owned());
    cols.push("process_id".to_owned());
    cols.push("relationship_type".to_owned());
    cols.push("start_date".to_owned());
    cols.push("end_date".to_owned());
    r.push(("source_process_relationships".to_owned(), cols));
    assert(r@.map_values(|t: (String, Vec<String>)| table_view(t)) =~~= metadata_table_layout());
    r
}

/// A `sources` metadata row; absent names and descriptions are written
/// as empty text, as the CSV does.
pub struct SourceRow {
    pub source_id: String,
    pub source_name: String,
    pub source_description: String,
}

#[verifier::ext_equal]
pub ghost struct SourceRowV {
    pub source_id: Seq<char>,
    pub source_name: Seq<char>,
    pub source_description: Seq<char>,
}

impl View for SourceRow {
    type V = SourceRowV;

    open spec fn view(&self) -> SourceRowV {
        SourceRowV {
            source_id: self.source_id@,
            source_name: self.source_name@,
            source_description: self.source_description@,
        }
    }
}

/// A `processes` metadata row.
pub struct ProcessRow {
    pub process_id: String,
    pub process_name: String,
    pub process_description: String,
}

#[verifier::ext_equal]
pub ghost struct ProcessRowV {
    pub process_id: Seq<char>,
    pub process_name: Seq<char>,
    pub process_description: Seq<char>,
}

impl View for ProcessRow {
    type V = ProcessRowV;

    open spec fn view(&self) -> ProcessRowV {
        ProcessRowV {
            process_id: self.process_id@,
            process_name: self.process_name@,
            process_description: self.process_description@,
        }
    }
}

pub open spec fn opt_text(v: Option<String>) -> Seq<char> {
    match v {
        Some(s) => s@,
        None => Seq::empty(),
    }
}

/// The `sources` rows of a run: each source identifier once, first
/// defining profile winning.
pub open spec fn sources_model(profiles: Seq<Profile>, seen: Set<Seq<char>>) -> Seq<SourceRowV>
    decreases profiles.len(),
{
    if profiles.len() == 0 {
        Seq::empty()
    } else {
        let s = profiles[0].source_info;
        if seen.contains(s.source_id@) {
            sources_model(profiles.drop_first(), seen)
        } else {
            seq![
                SourceRowV {
                    source_id: s.source_id@,
                    source_name: opt_text(s.source_name),
                    source_description: opt_text(s.source_description),
                },
            ] + sources_model(profiles.drop_first(), seen.insert(s.source_id@))
        }
    }
}

/// The `processes` rows of a run: each process identifier once, first
/// defining profile winning.
pub open spec fn processes_model(profiles: Seq<Profile>, seen: Set<Seq<char>>) -> Seq<ProcessRowV>
    decreases profiles.len(),
{
    if profiles.len() == 0 {
        Seq::empty()
    } else {
        let p = profiles[0].process_info;
        if seen.contains(p.process_id@) {
            processes_model(profiles.drop_first(), seen)
        } else {
            seq![
                ProcessRowV {
                    process_id: p.process_id@,
                    process_name: opt_text(p.process_name),
                    process_description: opt_text(p.process_description),
                },
            ] + processes_model(profiles.drop_first(), seen.insert(p.process_id@))
        }
    }
}

fn opt_text_exec(v: &Option<String>) -> (r: String)
    ensures
        r@ == opt_text(*v),
{
    match v {
        Some(s) => s.clone(),
        None => String::new(),
    }
}

/// The deduplicated `sources` rows for the run's profiles.
pub fn metadata_sources(profiles: &Vec<Profile>) -> (r: Vec<SourceRow>)
    ensures
        r@.map_values(|x: SourceRow| x@) == sources_model(profiles@, Set::empty()),
{
    let ghost full = sources_model(profiles@, Set::empty());
    let mut r: Vec<SourceRow> = Vec::new();
    let ghost mut seen: Set<Seq<char>> = Set::empty();
    let mut seen_ids: Vec<String> = Vec::new();
    let mut i: usize = 0;
    assert(profiles@.skip(0) =~= profiles@);
    assert(r@.map_values(|x: SourceRow| x@) =~= Seq::<SourceRowV>::empty());
    while i < profiles.len()
        invariant
            i <= profiles@.len(),
            full == r@.map_values(|x: SourceRow| x@) + sources_model(
                profiles@.skip(i as int),
                seen,
            ),
            seen_ids@.len() == r@.len(),
            forall|k: Seq<char>|
                #![trigger seen.contains(k)]
                seen.contains(k) <==> exists|j: int|
                    0 <= j < seen_ids@.len() && (#[trigger] seen_ids@[j])@ == k,
        decreases profiles@.len() - i,
    {
        assert(profiles@.skip(i as int)[0] == profiles@[i as int]);
        assert(profiles@.skip(i as int).drop_first() =~= profiles@.skip(i as int + 1));
        let sid = &profiles[i].source_info.source_id;
        let mut already = false;
        let mut j: usize = 0;
        while j < seen_ids.len()
            invariant
                j <= seen_ids@.len(),
                already <==> exists|t: int| 0 <= t < j && (#[trigger] seen_ids@[t])@ == sid@,
            decreases seen_ids@.len() - j,
        {
            if seen_ids[j].eq(sid) {
                already = true;
            }
            j = j + 1;
        }
        assert(already == seen.contains(sid@));
        if !already {
            let ghost pre = r@.map_values(|x: SourceRow| x@);
            r.push(
                SourceRow {
                    source_id: sid.clone(),
                    source_name: opt_text_exec(&profiles[i].source_info.source_name),
                    source_description: opt_text_exec(
                        &profiles[i].source_info.source_description,
                    ),
                },
            );
            let ghost old_ids = seen_ids@;
            let ghost old_seen = seen;
            seen_ids.push(sid.clone());
            proof {
                let rowv = SourceRowV {
                    source_id: profiles@[i as int].source_info.source_id@,
                    source_name: opt_text(profiles@[i as int].source_info.source_name),
                    source_description: opt_text(
                        profiles@[i as int].source_info.source_description,
                    ),
                };
                assert(r@.map_values(|x: SourceRow| x@) =~= pre.push(rowv));
                seen = seen.insert(sid@);
                assert(pre + (seq![rowv] + sources_model(profiles@.skip(i as int + 1), seen))
                    =~= pre.push(rowv) + sources_model(profiles@.skip(i as int + 1), seen));
                assert(forall|t: int| 0 <= t < old_ids.len() ==> seen_ids@[t] == old_ids[t]);
                assert forall|k: Seq<char>| #![trigger seen.contains(k)]
                    seen.contains(k) <==> exists|t: int|
                        0 <= t < seen_ids@.len() && (#[trigger] seen_ids@[t])@ == k by {
                    if seen.contains(k) {
                        if k == sid@ {
                            assert(seen_ids@[seen_ids@.len() - 1]@ == k);
                        } else {
                            assert(old_seen.contains(k));
                            let t = choose|t: int|
                                0 <= t < old_ids.len() && (#[trigger] old_ids[t])@ == k;
                            assert(seen_ids@[t]@ == k);
                        }
                    }
                    if exists|t: int| 0 <= t < seen_ids@.len() && (#[trigger] seen_ids@[t])@ == k {
                        let t = choose|t: int|
                            0 <= t < seen_ids@.len() && (#[trigger] seen_ids@[t])@ == k;
                        if t == seen_ids@.len() - 1 {
                            assert(k == sid@);
                        } else {
                            assert(old_ids[t]@ == k);
                            assert(old_seen.contains(k));
                        }
                    }
                }
            }
        }
        i = i + 1;
    }
    assert(sources_model(profiles@.skip(i as int), seen) =~= Seq::<SourceRowV>::empty());
    assert(full =~= r@.map_values(|x: SourceRow| x@));
    r
}

/// The deduplicated `processes` rows for the run's profiles.
pub fn metadata_processes(profiles: &Vec<Profile>) -> (r: Vec<ProcessRow>)
    ensures
        r@.map_values(|x: ProcessRow| x@) == processes_model(profiles@, Set::empty()),
{
    let ghost full = processes_model(profiles@, Set::empty());
    let mut r: Vec<ProcessRow> = Vec::new();
    let ghost mut seen: Set<Seq<char>> = Set::empty();
    let mut seen_ids: Vec<String> = Vec::new();
    let mut i: usize = 0;
    assert(profiles@.skip(0) =~= profiles@);
    assert(r@.map_values(|x: ProcessRow| x@) =~= Seq::<ProcessRowV>::empty());
    while i < profiles.len()
        invariant
            i <= profiles@.len(),
            full == r@.map_values(|x: ProcessRow| x@) + processes_model(
                profiles@.skip(i as int),
                seen,
            ),
            seen_ids@.len() == r@.len(),
            forall|k: Seq<char>|
                #![trigger seen.contains(k)]
                seen.contains(k) <==> exists|j: int|
                    0 <= j < seen_ids@.len() && (#[trigger] seen_ids@[j])@ == k,
        decreases profiles@.len() - i,
    {
        assert(profiles@.skip(i as int)[0] == profiles@[i as int]);
        assert(profiles@.skip(i as int).drop_first() =~= profiles@.skip(i as int + 1));
        let pid = &profiles[i].process_info.process_id;
        let mut already = false;
        let mut j: usize = 0;
        while j < seen_ids.len()
            invariant
                j <= seen_ids@.len(),
                already <==> exists|t: int| 0 <= t < j && (#[trigger] seen_ids@[t])@ == pid@,
            decreases seen_ids@.len() - j,
        {
            if seen_ids[j].eq(pid) {
                already = true;
            }
            j = j + 1;
        }
        assert(already == seen.contains(pid@));
        if !already {
            let ghost pre = r@.map_values(|x: ProcessRow| x@);
            r.push(
                ProcessRow {
                    process_id: pid.clone(),
                    process_name: opt_text_exec(&profiles[i].process_info.process_name),
                    process_description: opt_text_exec(
                        &profiles[i].process_info.process_description,
                    ),
                },
            );
            let ghost old_ids = seen_ids@;
            let ghost old_seen = seen;
            seen_ids.push(pid.clone());
            proof {
                let rowv = ProcessRowV {
                    process_id: profiles@[i as int].process_info.process_id@,
                    process_name: opt_text(profiles@[i as int].process_info.process_name),
                    process_description: opt_text(
                        profiles@[i as int].process_info.process_description,
                    ),
                };
                assert(r@.map_values(|x: ProcessRow| x@) =~= pre.push(rowv));
                seen = seen.insert(pid@);
                assert(pre + (seq![rowv] + processes_model(profiles@.skip(i as int + 1), seen))
                    =~= pre.push(rowv) + processes_model(profiles@.skip(i as int + 1), seen));
                assert(forall|t: int| 0 <= t < old_ids.len() ==> seen_ids@[t] == old_ids[t]);
                assert forall|k: Seq<char>| #![trigger seen.contains(k)]
                    seen.contains(k) <==> exists|t: int|
                        0 <= t < seen_ids@.len() && (#[trigger] seen_ids@[t])@ == k by {
                    if seen.contains(k) {
                        if k == pid@ {
                            assert(seen_ids@[seen_ids@.len() - 1]@ == k);
                        } else {
                            assert(old_seen.contains(k));
                            let t = choose|t: int|
                                0 <= t < old_ids.len() && (#[trigger] old_ids[t])@ == k;
                            assert(seen_ids@[t]@ == k);
                        }
                    }
                    if exists|t: int| 0 <= t < seen_ids@.len() && (#[trigger] seen_ids@[t])@ == k {
                        let t = choose|t: int|
                            0 <= t < seen_ids@.len() && (#[trigger] seen_ids@[t])@ == k;
                        if t == seen_ids@.len() - 1 {
                            assert(k == pid@);
                        } else {
                            assert(old_ids[t]@ == k);
                            assert(old_seen.contains(k));
                        }
                    }
                }
            }
        }
        i = i + 1;
    }
    assert(processes_model(profiles@.skip(i as int), seen) =~= Seq::<ProcessRowV>::empty());
    assert(full =~= r@.map_values(|x: ProcessRow| x@));
    r
}

} // verus!
