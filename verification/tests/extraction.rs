use affiliation_parser::config::DeterministicIdConfig;
use affiliation_parser::config::EntityConfig;
use affiliation_parser::config::FilterConditionConfig;
use affiliation_parser::config::FilterConfig;
use affiliation_parser::config::NullValueConfig;
use affiliation_parser::config::ProcessInfo;
use affiliation_parser::config::Profile;
use affiliation_parser::config::RecordIdentifierConfig;
use affiliation_parser::config::RelatedValueConfig;
use affiliation_parser::config::SourceInfo;
use affiliation_parser::config::ValueExtractionConfig;
use affiliation_parser::extract::Processor;
use affiliation_parser::extract::RecordOutcome;
use affiliation_parser::identity::deterministic_id;
use affiliation_parser::json::Json;
use affiliation_parser::nulls::precompute_null_value_ids;
use affiliation_parser::rows::OutputBatch;

fn s(text: &str) -> Json {
    Json::Str(text.to_string())
}

fn obj(fields: Vec<(&str, Json)>) -> Json {
    Json::Obj(fields.into_iter().map(|(k, v)| (k.to_string(), v)).collect())
}

fn arr(items: Vec<Json>) -> Json {
    Json::Arr(items)
}

fn affiliation_entity() -> EntityConfig {
    EntityConfig {
        name: "affiliation".to_string(),
        path: "affiliation".to_string(),
        is_array: true,
        relationship_to_record: None,
        relationship_to_parent: Some("affiliated_with".to_string()),
        value_extraction: Some(ValueExtractionConfig::Field {
            field: "name".to_string(),
            target_value_type: "affiliation_name".to_string(),
            use_null: None,
        }),
        nested_entities: None,
        related_values: None,
    }
}

fn author_entity(nested: Option<Vec<EntityConfig>>, related: Option<Vec<RelatedValueConfig>>) -> EntityConfig {
    EntityConfig {
        name: "author".to_string(),
        path: "author".to_string(),
        is_array: true,
        relationship_to_record: Some("has_author".to_string()),
        relationship_to_parent: None,
        value_extraction: Some(ValueExtractionConfig::CombineFields {
            fields: vec!["given".to_string(), "family".to_string()],
            separator: " ".to_string(),
            target_value_type: "author_name".to_string(),
            use_null: None,
        }),
        nested_entities: nested,
        related_values: related,
    }
}

fn profile_with(
    entities: Vec<EntityConfig>,
    null_values: Vec<(String, NullValueConfig)>,
    filters: Option<Vec<FilterConfig>>,
) -> Profile {
    Profile {
        profile_description: "test profile".to_string(),
        source_info: SourceInfo {
            source_id: "src1".to_string(),
            source_name: Some("Source".to_string()),
            source_description: None,
        },
        process_info: ProcessInfo {
            process_id: "proc1".to_string(),
            process_name: Some("Process".to_string()),
            process_description: None,
        },
        record_identifier: RecordIdentifierConfig { path: "/DOI".to_string(), required: true },
        deterministic_ids: DeterministicIdConfig {
            record_prefix: "rec".to_string(),
            value_prefix: "val".to_string(),
            value_format: "sha256".to_string(),
        },
        null_values,
        filters,
        entities,
    }
}

fn processor_for(profile: Profile) -> Processor {
    let registry =
        precompute_null_value_ids(&vec![profile_like(&profile)]).expect("consistent nulls");
    Processor {
        profile,
        registry,
        timestamp: "2024-01-01T00:00:00Z".to_string(),
        active_filters: Vec::new(),
    }
}

// Rebuild an identical profile value (profiles carry no Clone).
fn profile_like(p: &Profile) -> Profile {
    Profile {
        profile_description: p.profile_description.clone(),
        source_info: SourceInfo {
            source_id: p.source_info.source_id.clone(),
            source_name: p.source_info.source_name.clone(),
            source_description: p.source_info.source_description.clone(),
        },
        process_info: ProcessInfo {
            process_id: p.process_info.process_id.clone(),
            process_name: p.process_info.process_name.clone(),
            process_description: p.process_info.process_description.clone(),
        },
        record_identifier: RecordIdentifierConfig {
            path: p.record_identifier.path.clone(),
            required: p.record_identifier.required,
        },
        deterministic_ids: DeterministicIdConfig {
            record_prefix: p.deterministic_ids.record_prefix.clone(),
            value_prefix: p.deterministic_ids.value_prefix.clone(),
            value_format: p.deterministic_ids.value_format.clone(),
        },
        null_values: p
            .null_values
            .iter()
            .map(|(k, c)| {
                (
                    k.clone(),
                    NullValueConfig { value_type: c.value_type.clone(), content: c.content.clone() },
                )
            })
            .collect(),
        filters: None,
        entities: Vec::new(),
    }
}

fn single_author_record() -> Json {
    obj(vec![
        ("DOI", s("10.1/xyz")),
        (
            "author",
            arr(vec![obj(vec![
                ("given", s("A")),
                ("family", s("B")),
                ("affiliation", arr(vec![obj(vec![("name", s("Org"))])])),
            ])]),
        ),
    ])
}

#[test]
fn single_record_single_author_single_affiliation() {
    let profile = profile_with(vec![author_entity(Some(vec![affiliation_entity()]), None)], Vec::new(), None);
    let p = processor_for(profile);
    let mut ids = p.fresh_ids();
    let mut batch = OutputBatch::new();
    let outcome = p.process_record(&mut ids, &single_author_record(), &mut batch);
    assert!(matches!(outcome, RecordOutcome::Processed));

    assert_eq!(batch.records.len(), 1);
    assert_eq!(batch.records[0].doi, "10.1/xyz");
    assert_eq!(batch.records[0].record_id, deterministic_id("rec", "10.1/xyz"));

    assert_eq!(batch.values.len(), 2);
    assert_eq!(batch.values[0].value_type, "author_name");
    assert_eq!(batch.values[0].value_content, "A B");
    assert_eq!(batch.values[0].value_id, deterministic_id("val", "author_name:A B"));
    assert_eq!(batch.values[1].value_type, "affiliation_name");
    assert_eq!(batch.values[1].value_content, "Org");

    assert_eq!(batch.process_record_relationships.len(), 1);
    assert_eq!(batch.process_record_relationships[0].relationship_type, "ingested");
    assert_eq!(batch.process_record_relationships[0].process_id, "proc1");
    assert_eq!(batch.process_record_relationships[0].record_id, batch.records[0].record_id);

    assert_eq!(batch.process_value_relationships.len(), 2);
    assert_eq!(batch.process_value_relationships[0].relationship_type, "created");

    assert_eq!(batch.record_value_relationships.len(), 1);
    assert_eq!(batch.record_value_relationships[0].relationship_type, "has_author");
    assert_eq!(batch.record_value_relationships[0].ordinal, 1);
    assert_eq!(batch.record_value_relationships[0].value_id, batch.values[0].value_id);

    assert_eq!(batch.value_value_relationships.len(), 1);
    assert_eq!(batch.value_value_relationships[0].relationship_type, "affiliated_with");
    assert_eq!(batch.value_value_relationships[0].ordinal, Some(1));
    assert_eq!(batch.value_value_relationships[0].source_value_id, batch.values[0].value_id);
    assert_eq!(batch.value_value_relationships[0].target_value_id, batch.values[1].value_id);
}

#[test]
fn two_identical_authors_share_a_value_but_keep_ordinals() {
    let author = obj(vec![("given", s("A")), ("family", s("B"))]);
    let author2 = obj(vec![("given", s("A")), ("family", s("B"))]);
    let record = obj(vec![("DOI", s("10.1/xyz")), ("author", arr(vec![author, author2]))]);
    let profile = profile_with(vec![author_entity(None, None)], Vec::new(), None);
    let p = processor_for(profile);
    let mut ids = p.fresh_ids();
    let mut batch = OutputBatch::new();
    p.process_record(&mut ids, &record, &mut batch);

    // Both extractions produce the same value identifier...
    assert_eq!(batch.values.len(), 2);
    assert_eq!(batch.values[0].value_id, batch.values[1].value_id);
    // ...which the writer collapses to one `values` row...
    let mut writer = affiliation_parser::dedup::DedupState::new();
    let kept = writer.filter_batch(batch);
    assert_eq!(kept.values.len(), 1);
    // ...while both provenance rows survive, with ordinals 1 and 2.
    assert_eq!(kept.record_value_relationships.len(), 2);
    assert_eq!(kept.record_value_relationships[0].ordinal, 1);
    assert_eq!(kept.record_value_relationships[1].ordinal, 2);
}

#[test]
fn task_filter_rejects_record_entirely() {
    let filters = Some(vec![FilterConfig {
        cli_arg: "doi_prefix".to_string(),
        path: "/container-prefix".to_string(),
        fallback_from: Some("/DOI".to_string()),
    }]);
    let profile = profile_with(vec![author_entity(None, None)], Vec::new(), filters);
    let mut p = processor_for(profile);
    p.active_filters = vec![("doi_prefix".to_string(), "10.1".to_string())];
    let record = obj(vec![("DOI", s("10.2/abc")), ("author", arr(vec![]))]);
    let mut ids = p.fresh_ids();
    let mut batch = OutputBatch::new();
    let outcome = p.process_record(&mut ids, &record, &mut batch);
    assert!(matches!(outcome, RecordOutcome::FilteredOut));
    assert!(batch.is_empty());

    // The matching prefix passes.
    let record2 = obj(vec![("DOI", s("10.1/abc"))]);
    let mut batch2 = OutputBatch::new();
    let outcome2 = p.process_record(&mut ids, &record2, &mut batch2);
    assert!(matches!(outcome2, RecordOutcome::Processed));
    assert_eq!(batch2.records.len(), 1);
}

#[test]
fn unknown_filter_key_is_ignored() {
    let profile = profile_with(vec![], Vec::new(), None);
    let mut p = processor_for(profile);
    p.active_filters = vec![("doi_prefix".to_string(), "10.1".to_string())];
    let record = obj(vec![("DOI", s("10.2/abc"))]);
    let mut ids = p.fresh_ids();
    let mut batch = OutputBatch::new();
    let outcome = p.process_record(&mut ids, &record, &mut batch);
    assert!(matches!(outcome, RecordOutcome::Processed));
}

#[test]
fn missing_identifier_skips_record() {
    let profile = profile_with(vec![author_entity(None, None)], Vec::new(), None);
    let p = processor_for(profile);
    let mut ids = p.fresh_ids();
    let mut batch = OutputBatch::new();
    let record = obj(vec![("title", s("no doi here"))]);
    let outcome = p.process_record(&mut ids, &record, &mut batch);
    assert!(matches!(outcome, RecordOutcome::MissingIdentifier));
    assert!(batch.is_empty());

    let blank = obj(vec![("DOI", s("   "))]);
    let outcome2 = p.process_record(&mut ids, &blank, &mut batch);
    assert!(matches!(outcome2, RecordOutcome::MissingIdentifier));
    assert!(batch.is_empty());
}

#[test]
fn primary_identifier_is_trimmed() {
    let profile = profile_with(Vec::new(), Vec::new(), None);
    let p = processor_for(profile);
    let mut ids = p.fresh_ids();
    let mut batch = OutputBatch::new();
    let record = obj(vec![("DOI", s("  10.1/xyz \u{a0} "))]);
    p.process_record(&mut ids, &record, &mut batch);
    // str::trim removes Unicode whitespace, including the no-break space.
    assert_eq!(batch.records[0].doi, "10.1/xyz");
    assert_eq!(batch.records[0].record_id, deterministic_id("rec", "10.1/xyz"));
    // Surrogate relationship keys are hyphenated 36-character identifiers.
    assert_eq!(batch.process_record_relationships[0].process_record_id.len(), 36);
}

fn ror_related(filter: Option<FilterConditionConfig>, use_null: Option<String>) -> RelatedValueConfig {
    RelatedValueConfig {
        name: "ror".to_string(),
        path: "ids".to_string(),
        is_array: true,
        filter_condition: filter,
        extract_value: ValueExtractionConfig::Field {
            field: "id".to_string(),
            target_value_type: "ror".to_string(),
            use_null,
        },
        relationship_to_parent: "identified_by".to_string(),
        take_first_match: Some(true),
    }
}

#[test]
fn missing_related_value_applies_null_fallback() {
    let nulls = vec![(
        "unknown_ror".to_string(),
        NullValueConfig { value_type: "ror".to_string(), content: "unknown".to_string() },
    )];
    let related = ror_related(None, Some("unknown_ror".to_string()));
    let profile = profile_with(vec![author_entity(None, Some(vec![related]))], nulls, None);
    let p = processor_for(profile);
    let mut ids = p.fresh_ids();
    let mut batch = OutputBatch::new();
    // The author item has no "ids" path at all.
    let record = obj(vec![
        ("DOI", s("10.1/xyz")),
        ("author", arr(vec![obj(vec![("given", s("A")), ("family", s("B"))])])),
    ]);
    p.process_record(&mut ids, &record, &mut batch);

    let null_id = deterministic_id("val", "ror:unknown");
    assert_eq!(batch.values.len(), 2);
    assert_eq!(batch.values[1].value_id, null_id);
    assert_eq!(batch.values[1].value_type, "ror");
    assert_eq!(batch.values[1].value_content, "unknown");
    assert_eq!(batch.value_value_relationships.len(), 1);
    assert_eq!(batch.value_value_relationships[0].target_value_id, null_id);
    assert_eq!(batch.value_value_relationships[0].ordinal, None);
    assert_eq!(batch.value_value_relationships[0].relationship_type, "identified_by");
}

#[test]
fn case_insensitive_filter_condition_matches() {
    let condition = FilterConditionConfig {
        field: "type".to_string(),
        equals: "ROR".to_string(),
        case_insensitive: Some(true),
    };
    let related = ror_related(Some(condition), None);
    let profile = profile_with(vec![author_entity(None, Some(vec![related]))], Vec::new(), None);
    let p = processor_for(profile);
    let mut ids = p.fresh_ids();
    let mut batch = OutputBatch::new();
    let record = obj(vec![
        ("DOI", s("10.1/xyz")),
        (
            "author",
            arr(vec![obj(vec![
                ("given", s("A")),
                ("family", s("B")),
                (
                    "ids",
                    arr(vec![
                        obj(vec![("type", s("grid")), ("id", s("grid.1"))]),
                        obj(vec![("type", s("ror")), ("id", s("https://ror.org/0x"))]),
                    ]),
                ),
            ])]),
        ),
    ]);
    p.process_record(&mut ids, &record, &mut batch);
    assert_eq!(batch.values.len(), 2);
    assert_eq!(batch.values[1].value_type, "ror");
    assert_eq!(batch.values[1].value_content, "https://ror.org/0x");
}

#[test]
fn case_sensitive_condition_rejects_differing_case() {
    let condition = FilterConditionConfig {
        field: "type".to_string(),
        equals: "ROR".to_string(),
        case_insensitive: None,
    };
    let related = ror_related(Some(condition), None);
    let profile = profile_with(vec![author_entity(None, Some(vec![related]))], Vec::new(), None);
    let p = processor_for(profile);
    let mut ids = p.fresh_ids();
    let mut batch = OutputBatch::new();
    let record = obj(vec![
        ("DOI", s("10.1/xyz")),
        (
            "author",
            arr(vec![obj(vec![
                ("given", s("A")),
                ("family", s("B")),
                ("ids", arr(vec![obj(vec![("type", s("ror")), ("id", s("X"))])])),
            ])]),
        ),
    ]);
    p.process_record(&mut ids, &record, &mut batch);
    // Only the author value; no related value matched and no null is configured.
    assert_eq!(batch.values.len(), 1);
    assert_eq!(batch.value_value_relationships.len(), 0);
}

#[test]
fn entity_null_fallback_uses_target_type_with_null_content() {
    // An author with no usable name falls back to the named null: the
    // emitted row carries the extraction's target type but the null's
    // content, under the null's precomputed identifier.
    let nulls = vec![(
        "unknown_name".to_string(),
        NullValueConfig { value_type: "name".to_string(), content: "unknown".to_string() },
    )];
    let entity = EntityConfig {
        name: "author".to_string(),
        path: "author".to_string(),
        is_array: true,
        relationship_to_record: Some("has_author".to_string()),
        relationship_to_parent: None,
        value_extraction: Some(ValueExtractionConfig::CombineFields {
            fields: vec!["given".to_string(), "family".to_string()],
            separator: " ".to_string(),
            target_value_type: "author_name".to_string(),
            use_null: Some("unknown_name".to_string()),
        }),
        nested_entities: None,
        related_values: None,
    };
    let profile = profile_with(vec![entity], nulls, None);
    let p = processor_for(profile);
    let mut ids = p.fresh_ids();
    let mut batch = OutputBatch::new();
    let record = obj(vec![
        ("DOI", s("10.1/xyz")),
        ("author", arr(vec![obj(vec![("sequence", s("first"))])])),
    ]);
    p.process_record(&mut ids, &record, &mut batch);
    assert_eq!(batch.values.len(), 1);
    assert_eq!(batch.values[0].value_type, "author_name");
    assert_eq!(batch.values[0].value_content, "unknown");
    assert_eq!(batch.values[0].value_id, deterministic_id("val", "name:unknown"));
    assert_eq!(batch.record_value_relationships.len(), 1);
}

#[test]
fn take_first_match_stops_after_one_related_value() {
    let ids_array = arr(vec![
        obj(vec![("type", s("ror")), ("id", s("first"))]),
        obj(vec![("type", s("ror")), ("id", s("second"))]),
    ]);
    let record = |ids_json: Json| {
        obj(vec![
            ("DOI", s("10.1/xyz")),
            (
                "author",
                arr(vec![obj(vec![("given", s("A")), ("family", s("B")), ("ids", ids_json)])]),
            ),
        ])
    };
    let condition = || FilterConditionConfig {
        field: "type".to_string(),
        equals: "ror".to_string(),
        case_insensitive: None,
    };

    let mut first_only = ror_related(Some(condition()), None);
    first_only.take_first_match = Some(true);
    let profile = profile_with(vec![author_entity(None, Some(vec![first_only]))], Vec::new(), None);
    let p = processor_for(profile);
    let mut ids = p.fresh_ids();
    let mut batch = OutputBatch::new();
    p.process_record(&mut ids, &record(ids_array), &mut batch);
    assert_eq!(batch.value_value_relationships.len(), 1);
    assert_eq!(batch.values[1].value_content, "first");

    let ids_array2 = arr(vec![
        obj(vec![("type", s("ror")), ("id", s("first"))]),
        obj(vec![("type", s("ror")), ("id", s("second"))]),
    ]);
    let mut take_all = ror_related(Some(condition()), None);
    take_all.take_first_match = None;
    let profile2 = profile_with(vec![author_entity(None, Some(vec![take_all]))], Vec::new(), None);
    let p2 = processor_for(profile2);
    let mut ids2 = p2.fresh_ids();
    let mut batch2 = OutputBatch::new();
    p2.process_record(&mut ids2, &record(ids_array2), &mut batch2);
    assert_eq!(batch2.value_value_relationships.len(), 2);
    assert_eq!(batch2.values[1].value_content, "first");
    assert_eq!(batch2.values[2].value_content, "second");
}

#[test]
fn number_and_boolean_fields_extract_textually() {
    let entity = EntityConfig {
        name: "meta".to_string(),
        path: "meta".to_string(),
        is_array: false,
        relationship_to_record: Some("has_meta".to_string()),
        relationship_to_parent: None,
        value_extraction: Some(ValueExtractionConfig::Field {
            field: "count".to_string(),
            target_value_type: "count".to_string(),
            use_null: None,
        }),
        nested_entities: None,
        related_values: None,
    };
    let profile = profile_with(vec![entity], Vec::new(), None);
    let p = processor_for(profile);
    let mut ids = p.fresh_ids();
    let mut batch = OutputBatch::new();
    let record = obj(vec![
        ("DOI", s("10.1/xyz")),
        ("meta", obj(vec![("count", Json::Num("42".to_string()))])),
    ]);
    p.process_record(&mut ids, &record, &mut batch);
    assert_eq!(batch.values.len(), 1);
    assert_eq!(batch.values[0].value_content, "42");
    assert_eq!(batch.record_value_relationships[0].ordinal, 1);
}
