use affiliation_parser::config::DeterministicIdConfig;
use affiliation_parser::config::EntityConfig;
use affiliation_parser::config::FilterConfig;
use affiliation_parser::config::NullValueConfig;
use affiliation_parser::config::ProcessInfo;
use affiliation_parser::config::Profile;
use affiliation_parser::config::RecordIdentifierConfig;
use affiliation_parser::config::SourceInfo;
use affiliation_parser::config::ValueExtractionConfig;
use affiliation_parser::config::resolve_task_filters;
use affiliation_parser::dedup::DedupState;
use affiliation_parser::extract::Processor;
use affiliation_parser::identity::deterministic_id;
use affiliation_parser::json::Json;
use affiliation_parser::metadata::data_tables;
use affiliation_parser::metadata::metadata_processes;
use affiliation_parser::metadata::metadata_sources;
use affiliation_parser::metadata::metadata_tables;
use affiliation_parser::nulls::precompute_null_value_ids;
use affiliation_parser::rows::OutputBatch;
use affiliation_parser::rows::ProcessValueRow;
use affiliation_parser::rows::ValueRow;
use affiliation_parser::rows::ValueValueRow;

fn s(text: &str) -> Json {
    Json::Str(text.to_string())
}

fn obj(fields: Vec<(&str, Json)>) -> Json {
    Json::Obj(fields.into_iter().map(|(k, v)| (k.to_string(), v)).collect())
}

fn arr(items: Vec<Json>) -> Json {
    Json::Arr(items)
}

fn author_profile(source_id: &str, process_id: &str, value_prefix: &str) -> Profile {
    Profile {
        profile_description: "authors".to_string(),
        source_info: SourceInfo {
            source_id: source_id.to_string(),
            source_name: Some("Source".to_string()),
            source_description: Some("A source".to_string()),
        },
        process_info: ProcessInfo {
            process_id: process_id.to_string(),
            process_name: None,
            process_description: None,
        },
        record_identifier: RecordIdentifierConfig { path: "/DOI".to_string(), required: true },
        deterministic_ids: DeterministicIdConfig {
            record_prefix: "rec".to_string(),
            value_prefix: value_prefix.to_string(),
            value_format: "sha256".to_string(),
        },
        null_values: Vec::new(),
        filters: None,
        entities: vec![EntityConfig {
            name: "author".to_string(),
            path: "author".to_string(),
            is_array: true,
            relationship_to_record: Some("has_author".to_string()),
            relationship_to_parent: None,
            value_extraction: Some(ValueExtractionConfig::CombineFields {
                fields: vec!["given".to_string(), "family".to_string()],
                separator: " ".to_string(),
                target_value_type: "author_name".to_string(),
                use_null: None,
            }),
            nested_entities: None,
            related_values: None,
        }],
    }
}

fn processor(profile: Profile) -> Processor {
    Processor {
        registry: precompute_null_value_ids(&Vec::new()).unwrap(),
        profile,
        timestamp: "2024-01-01T00:00:00Z".to_string(),
        active_filters: Vec::new(),
    }
}

fn a_b_record() -> Json {
    obj(vec![
        ("DOI", s("10.1/xyz")),
        ("author", arr(vec![obj(vec![("given", s("A")), ("family", s("B"))])])),
    ])
}

fn value_row(id: &str, vt: &str, content: &str) -> ValueRow {
    ValueRow {
        value_id: id.to_string(),
        value_type: vt.to_string(),
        value_content: content.to_string(),
    }
}

fn pvr_row(process: &str, value: &str, rel: &str) -> ProcessValueRow {
    ProcessValueRow {
        process_value_id: "u1".to_string(),
        process_id: process.to_string(),
        value_id: value.to_string(),
        relationship_type: rel.to_string(),
        timestamp: "t".to_string(),
    }
}

fn vvr_row(source: &str, target: &str, rel: &str, ordinal: Option<usize>) -> ValueValueRow {
    ValueValueRow {
        value_value_id: "u2".to_string(),
        source_value_id: source.to_string(),
        target_value_id: target.to_string(),
        relationship_type: rel.to_string(),
        ordinal,
        process_id: "p".to_string(),
        timestamp: "t".to_string(),
    }
}

#[test]
fn writer_deduplicates_values_and_relationship_keys() {
    let mut batch = OutputBatch::new();
    batch.values.push(value_row("v1", "t", "c"));
    batch.values.push(value_row("v1", "t", "c"));
    batch.values.push(value_row("v2", "t", "d"));
    batch.process_value_relationships.push(pvr_row("p", "v1", "created"));
    batch.process_value_relationships.push(pvr_row("p", "v1", "created"));
    batch.process_value_relationships.push(pvr_row("p", "v1", "updated"));
    batch.value_value_relationships.push(vvr_row("v1", "v2", "r", Some(1)));
    batch.value_value_relationships.push(vvr_row("v1", "v2", "r", Some(1)));
    batch.value_value_relationships.push(vvr_row("v1", "v2", "r", Some(2)));
    batch.value_value_relationships.push(vvr_row("v1", "v2", "r", None));

    let mut writer = DedupState::new();
    let kept = writer.filter_batch(batch);
    assert_eq!(kept.values.len(), 2);
    assert_eq!(kept.process_value_relationships.len(), 2);
    assert_eq!(kept.value_value_relationships.len(), 3);

    // A later batch with the same keys is suppressed entirely.
    let mut batch2 = OutputBatch::new();
    batch2.values.push(value_row("v2", "t", "d"));
    batch2.process_value_relationships.push(pvr_row("p", "v1", "updated"));
    batch2.value_value_relationships.push(vvr_row("v1", "v2", "r", None));
    let kept2 = writer.filter_batch(batch2);
    assert_eq!(kept2.values.len(), 0);
    assert_eq!(kept2.process_value_relationships.len(), 0);
    assert_eq!(kept2.value_value_relationships.len(), 0);
}

#[test]
fn writer_never_deduplicates_provenance_rows() {
    let p = processor(author_profile("s1", "p1", "val"));
    let mut ids = p.fresh_ids();
    let mut writer = DedupState::new();
    let mut batch1 = OutputBatch::new();
    p.process_record(&mut ids, &a_b_record(), &mut batch1);
    let mut batch2 = OutputBatch::new();
    p.process_record(&mut ids, &a_b_record(), &mut batch2);
    let kept1 = writer.filter_batch(batch1);
    let kept2 = writer.filter_batch(batch2);
    // Same logical record in both batches: records and record-value rows repeat,
    assert_eq!(kept1.records.len(), 1);
    assert_eq!(kept2.records.len(), 1);
    assert_eq!(kept1.record_value_relationships.len(), 1);
    assert_eq!(kept2.record_value_relationships.len(), 1);
    // and both name the identical record identifier,
    assert_eq!(kept1.records[0].record_id, kept2.records[0].record_id);
    // while the value row appears only once across the run.
    assert_eq!(kept1.values.len(), 1);
    assert_eq!(kept2.values.len(), 0);
}

#[test]
fn finalization_emits_each_null_exactly_once() {
    let nulls = vec![
        (
            "unknown_ror".to_string(),
            NullValueConfig { value_type: "ror".to_string(), content: "unknown".to_string() },
        ),
        (
            "unknown_name".to_string(),
            NullValueConfig { value_type: "name".to_string(), content: "unknown".to_string() },
        ),
    ];
    let mut profile = author_profile("s1", "p1", "val");
    profile.null_values = nulls;
    let registry = precompute_null_value_ids(&vec![profile]).unwrap();
    let ror_null_id = deterministic_id("val", "ror:unknown");
    let name_null_id = deterministic_id("val", "name:unknown");

    let mut writer = DedupState::new();
    // The ror null was already emitted during extraction.
    let mut batch = OutputBatch::new();
    batch.values.push(value_row(&ror_null_id, "ror", "unknown"));
    writer.filter_batch(batch);

    let added = writer.finalize(&registry);
    assert_eq!(added.len(), 1);
    assert_eq!(added[0].value_id, name_null_id);
    assert_eq!(added[0].value_type, "name");
    assert_eq!(added[0].value_content, "unknown");

    // Finalizing again adds nothing.
    let added_again = writer.finalize(&registry);
    assert_eq!(added_again.len(), 0);
}

#[test]
fn inconsistent_null_configuration_is_fatal() {
    let mut p1 = author_profile("s1", "p1", "val");
    p1.null_values = vec![(
        "k".to_string(),
        NullValueConfig { value_type: "ror".to_string(), content: "unknown".to_string() },
    )];
    let mut p2 = author_profile("s2", "p2", "val");
    p2.null_values = vec![(
        "k".to_string(),
        NullValueConfig { value_type: "ror".to_string(), content: "n/a".to_string() },
    )];
    let err = precompute_null_value_ids(&vec![p1, p2]).unwrap_err();
    assert_eq!(err.key, "k");
    assert_eq!(err.existing_content, "unknown");
    assert_eq!(err.content, "n/a");

    // Agreeing profiles merge fine, and the first definition mints the id.
    let mut p3 = author_profile("s1", "p1", "val");
    p3.null_values = vec![(
        "k".to_string(),
        NullValueConfig { value_type: "ror".to_string(), content: "unknown".to_string() },
    )];
    let mut p4 = author_profile("s2", "p2", "other");
    p4.null_values = vec![(
        "k".to_string(),
        NullValueConfig { value_type: "ror".to_string(), content: "unknown".to_string() },
    )];
    let reg = precompute_null_value_ids(&vec![p3, p4]).unwrap();
    assert_eq!(reg.entries.len(), 1);
    assert_eq!(reg.entries[0].value_id, deterministic_id("val", "ror:unknown"));
}

#[test]
fn cross_profile_dedup_depends_on_value_prefix() {
    // Same value prefix: one values row across both tasks.
    let pa = processor(author_profile("s1", "p1", "val"));
    let pb = processor(author_profile("s2", "p2", "val"));
    let mut ids_a = pa.fresh_ids();
    let mut ids_b = pb.fresh_ids();
    let mut writer = DedupState::new();
    let mut batch_a = OutputBatch::new();
    pa.process_record(&mut ids_a, &a_b_record(), &mut batch_a);
    let mut batch_b = OutputBatch::new();
    pb.process_record(&mut ids_b, &a_b_record(), &mut batch_b);
    let kept_a = writer.filter_batch(batch_a);
    let kept_b = writer.filter_batch(batch_b);
    assert_eq!(kept_a.values.len() + kept_b.values.len(), 1);

    // Different value prefixes: the identifiers differ, so two rows.
    let pc = processor(author_profile("s3", "p3", "valc"));
    let pd = processor(author_profile("s4", "p4", "vald"));
    let mut ids_c = pc.fresh_ids();
    let mut ids_d = pd.fresh_ids();
    let mut writer2 = DedupState::new();
    let mut batch_c = OutputBatch::new();
    pc.process_record(&mut ids_c, &a_b_record(), &mut batch_c);
    let mut batch_d = OutputBatch::new();
    pd.process_record(&mut ids_d, &a_b_record(), &mut batch_d);
    let kept_c = writer2.filter_batch(batch_c);
    let kept_d = writer2.filter_batch(batch_d);
    assert_eq!(kept_c.values.len() + kept_d.values.len(), 2);
    assert_ne!(kept_c.values[0].value_id, kept_d.values[0].value_id);
}

#[test]
fn rerunning_the_same_input_reproduces_records_and_values() {
    let run = || {
        let p = processor(author_profile("s1", "p1", "val"));
        let mut ids = p.fresh_ids();
        let mut writer = DedupState::new();
        let mut batch = OutputBatch::new();
        p.process_record(&mut ids, &a_b_record(), &mut batch);
        let kept = writer.filter_batch(batch);
        let mut records: Vec<(String, String)> =
            kept.records.iter().map(|r| (r.record_id.clone(), r.doi.clone())).collect();
        let mut values: Vec<(String, String, String)> = kept
            .values
            .iter()
            .map(|v| (v.value_id.clone(), v.value_type.clone(), v.value_content.clone()))
            .collect();
        records.sort();
        values.sort();
        (records, values)
    };
    let first = run();
    let second = run();
    assert_eq!(first, second);
    assert!(!first.0.is_empty());
    assert!(!first.1.is_empty());
}

#[test]
fn task_filters_resolve_against_profile_definitions() {
    let filters = Some(vec![FilterConfig {
        cli_arg: "doi_prefix".to_string(),
        path: "/p".to_string(),
        fallback_from: None,
    }]);
    let task = vec![
        ("doi_prefix".to_string(), "10.1".to_string()),
        ("unknown".to_string(), "x".to_string()),
    ];
    let resolved = resolve_task_filters(&filters, &task);
    assert_eq!(resolved, vec![("doi_prefix".to_string(), "10.1".to_string())]);
    let none_resolved = resolve_task_filters(&None, &task);
    assert!(none_resolved.is_empty());
}

#[test]
fn table_layouts_are_stable() {
    let data = data_tables();
    assert_eq!(data.len(), 6);
    assert_eq!(data[0].0, "records");
    assert_eq!(data[0].1, vec!["record_id".to_string(), "doi".to_string()]);
    assert_eq!(data[5].0, "value_value_relationships");
    assert_eq!(data[5].1.len(), 8);
    let meta = metadata_tables();
    assert_eq!(meta.len(), 3);
    assert_eq!(meta[2].0, "source_process_relationships");
    assert_eq!(meta[2].1.len(), 6);
}

#[test]
fn metadata_rows_deduplicate_sources_and_processes() {
    let p1 = author_profile("s1", "p1", "val");
    let p2 = author_profile("s1", "p2", "val");
    let p3 = author_profile("s2", "p1", "val");
    let profiles = vec![p1, p2, p3];
    let sources = metadata_sources(&profiles);
    assert_eq!(sources.len(), 2);
    assert_eq!(sources[0].source_id, "s1");
    assert_eq!(sources[0].source_name, "Source");
    assert_eq!(sources[1].source_id, "s2");
    let processes = metadata_processes(&profiles);
    assert_eq!(processes.len(), 2);
    assert_eq!(processes[0].process_id, "p1");
    assert_eq!(processes[0].process_name, "");
    assert_eq!(processes[1].process_id, "p2");
}
