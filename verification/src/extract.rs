//! The extractor: profile-driven traversal of one JSON record into
//! normalized rows.
//!
//! The model half of this module defines, as spec functions, exactly
//! which rows a record yields under a profile: which items an entity
//! path selects, how a value is computed and resolved against the null
//! registry, which relationship rows tie values to their record, parent
//! and process, and how related values are matched.  The executable
//! half produces those rows, and its contracts say so.

use vstd::prelude::*;
use crate::config::EntityConfig;
use crate::config::FilterConditionConfig;
use crate::config::FilterConfig;
use crate::config::NullValueConfig;
use crate::config::Profile;
use crate::config::RelatedValueConfig;
use crate::config::ValueExtractionConfig;
use crate::config::filter_config_lookup;
use crate::config::null_value_lookup;
use crate::identity::IdMaps;
use crate::identity::record_id_of;
use crate::identity::value_id_of;
use crate::json::Json;
use crate::json::path_value;
use crate::json::pointer;
use crate::nulls::NullEntryV;
use crate::nulls::NullRegistry;
use crate::nulls::registry_lookup;
use crate::rows::BatchV;
use crate::rows::OutputBatch;
use crate::rows::ProcessRecordRow;
use crate::rows::ProcessRecordRowV;
use crate::rows::ProcessValueRow;
use crate::rows::ProcessValueRowV;
use crate::rows::RecordRow;
use crate::rows::RecordRowV;
use crate::rows::RecordValueRow;
use crate::rows::RecordValueRowV;
use crate::rows::ValueRow;
use crate::rows::ValueRowV;
use crate::rows::ValueValueRow;
use crate::rows::ValueValueRowV;
use crate::text::doi_prefix;
use crate::text::eq_ignore_ascii_case;
use crate::text::trim_of;
use crate::text::trim_string;

verus! {

/// The fixed surroundings of one extraction: identity prefixes, process
/// identity, run timestamp, the profile's null table and the run's null
/// registry.
#[verifier::ext_equal]
pub ghost struct Ctx {
    pub record_prefix: Seq<char>,
    pub value_prefix: Seq<char>,
    pub process_id: Seq<char>,
    pub timestamp: Seq<char>,
    pub null_values: Seq<(String, NullValueConfig)>,
    pub registry: Seq<NullEntryV>,
}

/// A path of the form `/{field}`, as field lookups are evaluated.
pub open spec fn slashed(field: Seq<char>) -> Seq<char> {
    seq!['/'] + field
}

/// Scalar coercion for field extraction: a string is trimmed and must
/// be non-empty; numbers and booleans contribute their textual form;
/// anything else yields no content.
pub open spec fn json_scalar_text(v: Json) -> Option<Seq<char>> {
    match v {
        Json::Str(s) => if trim_of(s@).len() > 0 {
            Some(trim_of(s@))
        } else {
            None
        },
        Json::Num(t) => if t@.len() > 0 {
            Some(t@)
        } else {
            None
        },
        Json::Bool(b) => {
            let t: Seq<char> = if b {
                "true"@
            } else {
                "false"@
            };
            if t.len() > 0 {
                Some(t)
            } else {
                None
            }
        },
        _ => None,
    }
}

/// Content of a single-field extraction.
pub open spec fn field_content(node: Json, field: Seq<char>) -> Option<Seq<char>> {
    match pointer(node, slashed(field)) {
        Some(v) => json_scalar_text(v),
        None => None,
    }
}

/// A combinable part: only a non-empty trimmed string counts.
pub open spec fn combine_part(node: Json, field: Seq<char>) -> Option<Seq<char>> {
    match pointer(node, slashed(field)) {
        Some(Json::Str(s)) => if trim_of(s@).len() > 0 {
            Some(trim_of(s@))
        } else {
            None
        },
        _ => None,
    }
}

/// The non-empty parts of a combined extraction, in field order.
pub open spec fn combine_parts(node: Json, fields: Seq<String>) -> Seq<Seq<char>>
    decreases fields.len(),
{
    if fields.len() == 0 {
        Seq::empty()
    } else {
        match combine_part(node, fields[0]@) {
            Some(t) => seq![t] + combine_parts(node, fields.drop_first()),
            None => combine_parts(node, fields.drop_first()),
        }
    }
}

/// Parts joined with a separator.
pub open spec fn join_with(parts: Seq<Seq<char>>, sep: Seq<char>) -> Seq<char>
    decreases parts.len(),
{
    if parts.len() == 0 {
        Seq::empty()
    } else if parts.len() == 1 {
        parts[0]
    } else {
        parts[0] + sep + join_with(parts.drop_first(), sep)
    }
}

pub proof fn lemma_join_push(parts: Seq<Seq<char>>, sep: Seq<char>, x: Seq<char>)
    requires
        parts.len() > 0,
    ensures
        join_with(parts.push(x), sep) == join_with(parts, sep) + sep + x,
    decreases parts.len(),
{
    if parts.len() == 1 {
        assert(parts.push(x).drop_first() =~= seq![x]);
        assert(join_with(seq![x], sep) == x);
        assert(parts.push(x)[0] == parts[0]);
        assert(join_with(parts.push(x), sep) == parts[0] + sep + x);
    } else {
        assert(parts.push(x).drop_first() =~= parts.drop_first().push(x));
        lemma_join_push(parts.drop_first(), sep, x);
    }
}

/// The content one extraction rule computes from an item, if any.
pub open spec fn extracted_content(node: Json, cfg: ValueExtractionConfig) -> Option<Seq<char>> {
    match cfg {
        ValueExtractionConfig::Field { field, .. } => field_content(node, field@),
        ValueExtractionConfig::CombineFields { fields, separator, .. } => {
            let parts = combine_parts(node, fields@);
            if parts.len() == 0 {
                None
            } else {
                Some(join_with(parts, separator@))
            }
        },
    }
}

/// Resolution of extracted content to `(final_content, value_id)`:
/// non-empty content is interned under the value prefix; missing content
/// falls back to the named null value when its configuration and its
/// precomputed identifier both exist; otherwise the item fails.
pub open spec fn resolved_value(
    ctx: Ctx,
    content: Option<Seq<char>>,
    value_type: Seq<char>,
    null_key: Option<Seq<char>>,
) -> Option<(Seq<char>, Seq<char>)> {
    match content {
        Some(c) => Some((c, value_id_of(ctx.value_prefix, value_type, c))),
        None => match null_key {
            Some(k) => match null_value_lookup(ctx.null_values, k) {
                Some(cfg) => match registry_lookup(ctx.registry, k) {
                    Some(e) => Some((cfg.content@, e.value_id)),
                    None => None,
                },
                None => None,
            },
            None => None,
        },
    }
}

/// The `values` row and `process_value_relationships` row every emitted
/// value carries.
pub open spec fn value_rows(
    ctx: Ctx,
    value_id: Seq<char>,
    value_type: Seq<char>,
    content: Seq<char>,
) -> BatchV {
    BatchV {
        records: Seq::empty(),
        values: seq![
            ValueRowV { value_id: value_id, value_type: value_type, value_content: content },
        ],
        process_record_relationships: Seq::empty(),
        process_value_relationships: seq![
            ProcessValueRowV {
                process_id: ctx.process_id,
                value_id: value_id,
                relationship_type: "created"@,
                timestamp: ctx.timestamp,
            },
        ],
        record_value_relationships: Seq::empty(),
        value_value_relationships: Seq::empty(),
    }
}

/// A single value-value relationship row.
pub open spec fn vv_link(
    ctx: Ctx,
    source: Seq<char>,
    target: Seq<char>,
    relationship_type: Seq<char>,
    ordinal: Option<int>,
) -> BatchV {
    BatchV {
        records: Seq::empty(),
        values: Seq::empty(),
        process_record_relationships: Seq::empty(),
        process_value_relationships: Seq::empty(),
        record_value_relationships: Seq::empty(),
        value_value_relationships: seq![
            ValueValueRowV {
                source_value_id: source,
                target_value_id: target,
                relationship_type: relationship_type,
                ordinal: ordinal,
                process_id: ctx.process_id,
                timestamp: ctx.timestamp,
            },
        ],
    }
}

/// A single record-value relationship row.
pub open spec fn rv_link(
    ctx: Ctx,
    record_id: Seq<char>,
    value_id: Seq<char>,
    relationship_type: Seq<char>,
    ordinal: int,
) -> BatchV {
    BatchV {
        records: Seq::empty(),
        values: Seq::empty(),
        process_record_relationships: Seq::empty(),
        process_value_relationships: Seq::empty(),
        record_value_relationships: seq![
            RecordValueRowV {
                record_id: record_id,
                value_id: value_id,
                relationship_type: relationship_type,
                ordinal: ordinal,
                process_id: ctx.process_id,
                timestamp: ctx.timestamp,
            },
        ],
        value_value_relationships: Seq::empty(),
    }
}

/// The `records` row and `process_record_relationships` row of one
/// ingested record.
pub open spec fn record_rows(ctx: Ctx, record_id: Seq<char>, primary: Seq<char>) -> BatchV {
    BatchV {
        records: seq![RecordRowV { record_id: record_id, doi: primary }],
        values: Seq::empty(),
        process_record_relationships: seq![
            ProcessRecordRowV {
                process_id: ctx.process_id,
                record_id: record_id,
                relationship_type: "ingested"@,
                timestamp: ctx.timestamp,
            },
        ],
        process_value_relationships: Seq::empty(),
        record_value_relationships: Seq::empty(),
        value_value_relationships: Seq::empty(),
    }
}

/// The items an entity or related-value path selects: the elements of
/// an array when `is_array` is set (nothing if the value is no array),
/// otherwise the value itself as a single item.
pub open spec fn entity_items(data: Json, is_array: bool) -> Seq<Json> {
    if is_array {
        match data {
            Json::Arr(items) => items@,
            _ => Seq::empty(),
        }
    } else {
        seq![data]
    }
}

/// Whether a filter condition accepts an item: a string field compares
/// to `equals` (ignoring ASCII case when configured); numbers and
/// booleans compare by their textual form ignoring ASCII case; anything
/// else fails the condition.
pub open spec fn condition_met(item: Json, c: FilterConditionConfig) -> bool {
    match pointer(item, slashed(c.field@)) {
        Some(v) => match v {
            Json::Str(s) => if c.case_insensitive == Some(true) {
                eq_ignore_ascii_case(s@, c.equals@)
            } else {
                s@ == c.equals@
            },
            Json::Num(t) => eq_ignore_ascii_case(t@, c.equals@),
            Json::Bool(b) => eq_ignore_ascii_case(
                if b {
                    "true"@
                } else {
                    "false"@
                },
                c.equals@,
            ),
            _ => false,
        },
        None => false,
    }
}

pub open spec fn takes_first_match(rc: RelatedValueConfig) -> bool {
    match rc.take_first_match {
        Some(b) => b,
        None => false,
    }
}

/// One candidate item of a related value: rows it contributes, and
/// whether it counted as a match.
pub open spec fn related_item(ctx: Ctx, rc: RelatedValueConfig, item: Json, parent: Seq<char>) -> (
    BatchV,
    bool,
) {
    let met = match rc.filter_condition {
        Some(c) => condition_met(item, c),
        None => true,
    };
    if !met {
        (BatchV::empty(), false)
    } else {
        let content = extracted_content(item, rc.extract_value);
        match resolved_value(
            ctx,
            content,
            rc.extract_value.spec_target_type(),
            rc.extract_value.spec_null_key(),
        ) {
            Some(fc_vid) => (
                value_rows(ctx, fc_vid.1, rc.extract_value.spec_target_type(), fc_vid.0).add(
                    vv_link(ctx, parent, fc_vid.1, rc.relationship_to_parent@, None),
                ),
                true,
            ),
            None => (BatchV::empty(), false),
        }
    }
}

/// The candidate items of one related value, in order, stopping after
/// the first match when `take_first_match` is set.
pub open spec fn related_items(
    ctx: Ctx,
    rc: RelatedValueConfig,
    items: Seq<Json>,
    parent: Seq<char>,
) -> (BatchV, bool)
    decreases items.len(),
{
    if items.len() == 0 {
        (BatchV::empty(), false)
    } else {
        let head = related_item(ctx, rc, items[0], parent);
        if head.1 && takes_first_match(rc) {
            (head.0, true)
        } else {
            let rest = related_items(ctx, rc, items.drop_first(), parent);
            (head.0.add(rest.0), head.1 || rest.1)
        }
    }
}

/// The null default of a related value: when a null key is configured
/// and both its configuration and its precomputed identifier exist, a
/// value row for the null and a link from the parent; otherwise nothing.
pub open spec fn null_default(ctx: Ctx, rc: RelatedValueConfig, parent: Seq<char>) -> BatchV {
    match rc.extract_value.spec_null_key() {
        Some(k) => match null_value_lookup(ctx.null_values, k) {
            Some(cfg) => match registry_lookup(ctx.registry, k) {
                Some(e) => value_rows(ctx, e.value_id, cfg.value_type@, cfg.content@).add(
                    vv_link(ctx, parent, e.value_id, rc.relationship_to_parent@, None),
                ),
                None => BatchV::empty(),
            },
            None => BatchV::empty(),
        },
        None => BatchV::empty(),
    }
}

/// One related-value rule against one item node: a missing path takes
/// the null default; an existing path is matched item by item, and the
/// null default applies only when a filter condition found no match.
pub open spec fn related_one(ctx: Ctx, node: Json, rc: RelatedValueConfig, parent: Seq<char>) -> BatchV {
    match path_value(node, rc.path@) {
        None => null_default(ctx, rc, parent),
        Some(data) => {
            let items = entity_items(data, rc.is_array);
            let found = related_items(ctx, rc, items, parent);
            if !found.1 && rc.filter_condition is Some {
                found.0.add(null_default(ctx, rc, parent))
            } else {
                found.0
            }
        },
    }
}

/// All related-value rules of an entity, in order.
pub open spec fn related_all(
    ctx: Ctx,
    node: Json,
    rcs: Seq<RelatedValueConfig>,
    parent: Seq<char>,
) -> BatchV
    decreases rcs.len(),
{
    if rcs.len() == 0 {
        BatchV::empty()
    } else {
        related_one(ctx, node, rcs[0], parent).add(
            related_all(ctx, node, rcs.drop_first(), parent),
        )
    }
}

/// Size of one entity configuration, counting nested configurations.
pub open spec fn entity_size(c: EntityConfig) -> nat
    decreases c,
{
    1 + match c.nested_entities {
        Some(v) => entities_size(v@),
        None => 0,
    }
}

/// Size of a list of entity configurations.
pub open spec fn entities_size(cs: Seq<EntityConfig>) -> nat
    decreases cs,
{
    if cs.len() == 0 {
        0
    } else {
        1 + entity_size(cs[0]) + entities_size(cs.drop_first())
    }
}

/// The rows a list of entity configurations yields at one node.
pub open spec fn entities_model(
    ctx: Ctx,
    node: Json,
    configs: Seq<EntityConfig>,
    record_id: Seq<char>,
    parent: Option<Seq<char>>,
) -> BatchV
    decreases entities_size(configs), 0int, 0int,
{
    if configs.len() == 0 {
        BatchV::empty()
    } else {
        entity_one_model(ctx, node, configs[0], record_id, parent).add(
            entities_model(ctx, node, configs.drop_first(), record_id, parent),
        )
    }
}

/// The rows one entity configuration yields at one node: nothing when
/// its path is missing, otherwise its items in source order with
/// 1-based ordinals.
pub open spec fn entity_one_model(
    ctx: Ctx,
    node: Json,
    cfg: EntityConfig,
    record_id: Seq<char>,
    parent: Option<Seq<char>>,
) -> BatchV
    decreases entity_size(cfg), 2int, 0int,
{
    match path_value(node, cfg.path@) {
        None => BatchV::empty(),
        Some(data) => entity_items_model(
            ctx,
            cfg,
            entity_items(data, cfg.is_array),
            0,
            record_id,
            parent,
        ),
    }
}

/// The rows of an entity's items from position `base` on; the item at
/// position `i` carries ordinal `i + 1`.
pub open spec fn entity_items_model(
    ctx: Ctx,
    cfg: EntityConfig,
    items: Seq<Json>,
    base: int,
    record_id: Seq<char>,
    parent: Option<Seq<char>>,
) -> BatchV
    decreases entity_size(cfg), 1int, items.len(),
{
    if items.len() == 0 {
        BatchV::empty()
    } else {
        entity_item_model(ctx, cfg, items[0], base + 1, record_id, parent).add(
            entity_items_model(ctx, cfg, items.drop_first(), base + 1, record_id, parent),
        )
    }
}

/// The rows of one entity item.  With a value-extraction rule, the item
/// yields its value rows and a link — to its parent value when one is in
/// scope, else to the record — and establishes itself as the parent of
/// its children; a failed resolution aborts the item.  Without a rule,
/// the parent context is inherited unchanged.
pub open spec fn entity_item_model(
    ctx: Ctx,
    cfg: EntityConfig,
    item: Json,
    ordinal: int,
    record_id: Seq<char>,
    parent: Option<Seq<char>>,
) -> BatchV
    decreases entity_size(cfg), 0int, 1int,
{
    match cfg.value_extraction {
        Some(vc) => {
            match resolved_value(
                ctx,
                extracted_content(item, vc),
                vc.spec_target_type(),
                vc.spec_null_key(),
            ) {
                None => BatchV::empty(),
                Some(fc_vid) => {
                    let link = match parent {
                        Some(p) => match cfg.relationship_to_parent {
                            Some(rt) => vv_link(ctx, p, fc_vid.1, rt@, Some(ordinal)),
                            None => BatchV::empty(),
                        },
                        None => match cfg.relationship_to_record {
                            Some(rt) => rv_link(ctx, record_id, fc_vid.1, rt@, ordinal),
                            None => BatchV::empty(),
                        },
                    };
                    value_rows(ctx, fc_vid.1, vc.spec_target_type(), fc_vid.0).add(link).add(
                        entity_children_model(ctx, cfg, item, record_id, Some(fc_vid.1)),
                    )
                },
            }
        },
        None => entity_children_model(ctx, cfg, item, record_id, parent),
    }
}

/// The rows of an item's children: nested entities and related values,
/// both attached to the parent value in scope.  Without a parent value
/// in scope the children are skipped.
pub open spec fn entity_children_model(
    ctx: Ctx,
    cfg: EntityConfig,
    item: Json,
    record_id: Seq<char>,
    parent_for_children: Option<Seq<char>>,
) -> BatchV
    decreases entity_size(cfg), 0int, 0int,
{
    match parent_for_children {
        None => BatchV::empty(),
        Some(pid) => {
            let nested = match cfg.nested_entities {
                Some(v) => entities_model(ctx, item, v@, record_id, Some(pid)),
                None => BatchV::empty(),
            };
            let related = match cfg.related_values {
                Some(v) => related_all(ctx, item, v@, pid),
                None => BatchV::empty(),
            };
            nested.add(related)
        },
    }
}

/// The primary identifier of a record: the trimmed string at the
/// record-identifier path, when non-empty.
pub open spec fn primary_id_of(profile: Profile, record: Json) -> Option<Seq<char>> {
    match path_value(record, profile.record_identifier.path@) {
        Some(Json::Str(s)) => if trim_of(s@).len() > 0 {
            Some(trim_of(s@))
        } else {
            None
        },
        _ => None,
    }
}

/// The string a task filter resolves for a record: a scalar at the
/// filter's path coerced to text, else the DOI-prefix fallback.
pub open spec fn filter_resolved(
    profile: Profile,
    fc: FilterConfig,
    key: Seq<char>,
    record: Json,
) -> Option<Seq<char>> {
    match path_value(record, fc.path@) {
        Some(Json::Str(s)) => Some(s@),
        Some(Json::Num(t)) => Some(t@),
        Some(Json::Bool(b)) => Some(
            if b {
                "true"@
            } else {
                "false"@
            },
        ),
        Some(Json::Null) => Some("null"@),
        _ => filter_fallback(profile, fc, key, record),
    }
}

/// The DOI-prefix fallback: when the filter is the `doi_prefix` filter
/// and falls back to the record-identifier path, the part of that string
/// before its first `/`.
pub open spec fn filter_fallback(
    profile: Profile,
    fc: FilterConfig,
    key: Seq<char>,
    record: Json,
) -> Option<Seq<char>> {
    match fc.fallback_from {
        Some(fb) => match path_value(record, fb@) {
            Some(Json::Str(s)) => if fb@ == profile.record_identifier.path@ && key
                == "doi_prefix"@ {
                doi_prefix(s@)
            } else {
                None
            },
            _ => None,
        },
        None => None,
    }
}

/// Whether one active task filter rejects the record.  A filter the
/// profile does not define is skipped; a filter that resolves no value,
/// or a value other than the required one, rejects.
pub open spec fn filter_rejects(
    profile: Profile,
    key: Seq<char>,
    required: Seq<char>,
    record: Json,
) -> bool {
    match filter_config_lookup(profile.filters, key) {
        None => false,
        Some(fc) => match filter_resolved(profile, fc, key, record) {
            Some(v) => v != required,
            None => true,
        },
    }
}

/// Whether the active task filters reject the record.
pub open spec fn filtered_out(
    profile: Profile,
    active: Seq<(String, String)>,
    record: Json,
) -> bool
    decreases active.len(),
{
    if active.len() == 0 {
        false
    } else {
        filter_rejects(profile, active[0].0@, active[0].1@, record) || filtered_out(
            profile,
            active.drop_first(),
            record,
        )
    }
}

/// An element of a list sized strictly below the whole list.
pub proof fn lemma_entity_size_lt(cs: Seq<EntityConfig>, i: int)
    requires
        0 <= i < cs.len(),
    ensures
        entity_size(cs[i]) < entities_size(cs),
    decreases cs.len(),
{
    if i > 0 {
        lemma_entity_size_lt(cs.drop_first(), i - 1);
        assert(cs.drop_first()[i - 1] == cs[i]);
    }
}

/// What one record contributes to a batch: nothing when filtered out or
/// without a usable primary identifier; otherwise its record rows and
/// everything its entity tree extracts.
pub open spec fn record_model(
    ctx: Ctx,
    profile: Profile,
    active: Seq<(String, String)>,
    record: Json,
) -> BatchV {
    if filtered_out(profile, active, record) {
        BatchV::empty()
    } else {
        match primary_id_of(profile, record) {
            None => BatchV::empty(),
            Some(primary) => {
                let rid = record_id_of(ctx.record_prefix, primary);
                record_rows(ctx, rid, primary).add(
                    entities_model(ctx, record, profile.entities@, rid, None),
                )
            },
        }
    }
}

/// The value identifiers for which a batch holds a `values` row.
pub open spec fn batch_value_ids(b: BatchV) -> Set<Seq<char>> {
    Set::new(
        |k: Seq<char>|
            exists|i: int| 0 <= i < b.values.len() && (#[trigger] b.values[i]).value_id == k,
    )
}

/// Whether an identifier is one of the registry's precomputed null
/// identifiers.
pub open spec fn registry_has_id(entries: Seq<NullEntryV>, id: Seq<char>) -> bool {
    exists|j: int| 0 <= j < entries.len() && (#[trigger] entries[j]).value_id == id
}

/// Identification of a `values` row: it carries the deterministic
/// identifier of its own `(value_type, value_content)` pair under the
/// run's value prefix, or one of the registry's null identifiers (a
/// null row keeps the null's content under the extraction's target
/// type).
pub open spec fn value_wf(ctx: Ctx, v: ValueRowV) -> bool {
    v.value_id == value_id_of(ctx.value_prefix, v.value_type, v.value_content) || registry_has_id(
        ctx.registry,
        v.value_id,
    )
}

/// Referential closure of an entity-level batch: it holds no record
/// rows of its own; every relationship row resolves its value
/// identifiers to `values` rows of the batch — except that a
/// value-value source may be one of the `parents` in scope — and every
/// record-value row names the record being processed.
pub open spec fn entity_closed(ctx: Ctx, b: BatchV, record_id: Seq<char>, parents: Set<Seq<char>>) -> bool {
    &&& b.records.len() == 0
    &&& b.process_record_relationships.len() == 0
    &&& (forall|i: int|
        0 <= i < b.process_value_relationships.len() ==> batch_value_ids(b).contains(
            (#[trigger] b.process_value_relationships[i]).value_id,
        ))
    &&& (forall|i: int|
        0 <= i < b.record_value_relationships.len() ==> {
            &&& (#[trigger] b.record_value_relationships[i]).record_id == record_id
            &&& (batch_value_ids(b).contains(b.record_value_relationships[i].value_id)
                || parents.contains(b.record_value_relationships[i].value_id))
        })
    &&& (forall|i: int|
        0 <= i < b.value_value_relationships.len() ==> {
            &&& (batch_value_ids(b).contains(
                (#[trigger] b.value_value_relationships[i]).target_value_id,
            ) || parents.contains(b.value_value_relationships[i].target_value_id))
            &&& (batch_value_ids(b).contains(b.value_value_relationships[i].source_value_id)
                || parents.contains(b.value_value_relationships[i].source_value_id))
        })
    &&& (forall|i: int| 0 <= i < b.values.len() ==> value_wf(ctx, #[trigger] b.values[i]))
}

pub proof fn lemma_closed_weaken(
    ctx: Ctx,
    b: BatchV,
    record_id: Seq<char>,
    p1: Set<Seq<char>>,
    p2: Set<Seq<char>>,
)
    requires
        entity_closed(ctx, b, record_id, p1),
        p1.subset_of(p2),
    ensures
        entity_closed(ctx, b, record_id, p2),
{
}

/// Closure composes over concatenation, allowing the second part to
/// resolve one extra parent out of the first part's values.
pub proof fn lemma_closed_add(
    ctx: Ctx,
    a: BatchV,
    b: BatchV,
    record_id: Seq<char>,
    parents: Set<Seq<char>>,
    extra: Set<Seq<char>>,
)
    requires
        entity_closed(ctx, a, record_id, parents),
        entity_closed(ctx, b, record_id, parents.union(extra)),
        forall|k: Seq<char>| extra.contains(k) ==> batch_value_ids(a).contains(k),
    ensures
        entity_closed(ctx, a.add(b), record_id, parents),
{
    let c = a.add(b);
    assert(forall|i: int| 0 <= i < a.values.len() ==> c.values[i] == a.values[i]);
    assert(forall|i: int|
        0 <= i < b.values.len() ==> c.values[a.values.len() + i] == b.values[i]);
    assert forall|k: Seq<char>| batch_value_ids(a).contains(k) implies batch_value_ids(c).contains(
        k,
    ) by {
        let i = choose|i: int| 0 <= i < a.values.len() && (#[trigger] a.values[i]).value_id == k;
        assert(c.values[i].value_id == k);
    }
    assert forall|k: Seq<char>| batch_value_ids(b).contains(k) implies batch_value_ids(c).contains(
        k,
    ) by {
        let i = choose|i: int| 0 <= i < b.values.len() && (#[trigger] b.values[i]).value_id == k;
        assert(c.values[a.values.len() + i].value_id == k);
    }
    assert forall|i: int| 0 <= i < c.values.len() implies value_wf(ctx, #[trigger] c.values[i]) by {
        if i < a.values.len() {
            assert(c.values[i] == a.values[i]);
        } else {
            assert(c.values[i] == b.values[i - a.values.len()]);
        }
    }
    assert forall|i: int| 0 <= i < c.process_value_relationships.len() implies batch_value_ids(
        c,
    ).contains((#[trigger] c.process_value_relationships[i]).value_id) by {
        if i < a.process_value_relationships.len() {
            assert(c.process_value_relationships[i] == a.process_value_relationships[i]);
        } else {
            assert(c.process_value_relationships[i] == b.process_value_relationships[i
                - a.process_value_relationships.len()]);
        }
    }
    assert forall|i: int| 0 <= i < c.record_value_relationships.len() implies {
        &&& (#[trigger] c.record_value_relationships[i]).record_id == record_id
        &&& (batch_value_ids(c).contains(c.record_value_relationships[i].value_id)
            || parents.contains(c.record_value_relationships[i].value_id))
    } by {
        if i < a.record_value_relationships.len() {
            assert(c.record_value_relationships[i] == a.record_value_relationships[i]);
        } else {
            let r = b.record_value_relationships[i - a.record_value_relationships.len()];
            assert(c.record_value_relationships[i] == r);
            if batch_value_ids(b).contains(r.value_id) {
            } else if extra.contains(r.value_id) {
                assert(batch_value_ids(a).contains(r.value_id));
            }
        }
    }
    assert forall|i: int| 0 <= i < c.value_value_relationships.len() implies {
        &&& (batch_value_ids(c).contains(
            (#[trigger] c.value_value_relationships[i]).target_value_id,
        ) || parents.contains(c.value_value_relationships[i].target_value_id))
        &&& (batch_value_ids(c).contains(c.value_value_relationships[i].source_value_id)
            || parents.contains(c.value_value_relationships[i].source_value_id))
    } by {
        if i < a.value_value_relationships.len() {
            assert(c.value_value_relationships[i] == a.value_value_relationships[i]);
        } else {
            let r = b.value_value_relationships[i - a.value_value_relationships.len()];
            assert(c.value_value_relationships[i] == r);
            if batch_value_ids(b).contains(r.target_value_id) {
            } else if extra.contains(r.target_value_id) {
                assert(batch_value_ids(a).contains(r.target_value_id));
            }
            if batch_value_ids(b).contains(r.source_value_id) {
            } else if extra.contains(r.source_value_id) {
                assert(batch_value_ids(a).contains(r.source_value_id));
            }
        }
    }
}

pub open spec fn parent_set(parent: Option<Seq<char>>) -> Set<Seq<char>> {
    match parent {
        Some(p) => Set::empty().insert(p),
        None => Set::empty(),
    }
}

proof fn lemma_value_rows_link_closed(
    ctx: Ctx,
    value_id: Seq<char>,
    value_type: Seq<char>,
    content: Seq<char>,
    link: BatchV,
    record_id: Seq<char>,
    parents: Set<Seq<char>>,
)
    requires
        entity_closed(ctx, link, record_id, parents.union(Set::empty().insert(value_id))),
        link.values.len() == 0,
        value_wf(
            ctx,
            ValueRowV { value_id: value_id, value_type: value_type, value_content: content },
        ),
    ensures
        entity_closed(ctx, 
            value_rows(ctx, value_id, value_type, content).add(link),
            record_id,
            parents,
        ),
{
    let vr = value_rows(ctx, value_id, value_type, content);
    assert(vr.values[0].value_id == value_id);
    assert(batch_value_ids(vr).contains(value_id));
    assert(vr.process_value_relationships[0].value_id == value_id);
    assert(entity_closed(ctx, vr, record_id, parents));
    lemma_closed_add(ctx, vr, link, record_id, parents, Set::empty().insert(value_id));
}

proof fn lemma_null_default_closed(
    ctx: Ctx,
    rc: RelatedValueConfig,
    parent: Seq<char>,
    record_id: Seq<char>,
)
    ensures
        entity_closed(ctx, null_default(ctx, rc, parent), record_id, Set::empty().insert(parent)),
{
    let b = null_default(ctx, rc, parent);
    match rc.extract_value.spec_null_key() {
        Some(k) => match null_value_lookup(ctx.null_values, k) {
            Some(cfg) => match registry_lookup(ctx.registry, k) {
                Some(e) => {
                    let link = vv_link(ctx, parent, e.value_id, rc.relationship_to_parent@, None);
                    assert(entity_closed(ctx, 
                        link,
                        record_id,
                        Set::empty().insert(parent).union(Set::empty().insert(e.value_id)),
                    ));
                    crate::nulls::lemma_registry_lookup_in(ctx.registry, k);
                    assert(registry_has_id(ctx.registry, e.value_id));
                    lemma_value_rows_link_closed(
                        ctx,
                        e.value_id,
                        cfg.value_type@,
                        cfg.content@,
                        link,
                        record_id,
                        Set::empty().insert(parent),
                    );
                },
                None => {},
            },
            None => {},
        },
        None => {},
    }
}

proof fn lemma_related_item_closed(
    ctx: Ctx,
    rc: RelatedValueConfig,
    item: Json,
    parent: Seq<char>,
    record_id: Seq<char>,
)
    ensures
        entity_closed(ctx, related_item(ctx, rc, item, parent).0, record_id, Set::empty().insert(parent)),
{
    let met = match rc.filter_condition {
        Some(c) => condition_met(item, c),
        None => true,
    };
    if met {
        let content = extracted_content(item, rc.extract_value);
        match resolved_value(
            ctx,
            content,
            rc.extract_value.spec_target_type(),
            rc.extract_value.spec_null_key(),
        ) {
            Some(fc_vid) => {
                let link = vv_link(ctx, parent, fc_vid.1, rc.relationship_to_parent@, None);
                assert(entity_closed(ctx, 
                    link,
                    record_id,
                    Set::empty().insert(parent).union(Set::empty().insert(fc_vid.1)),
                ));
                if content is None {
                    match rc.extract_value.spec_null_key() {
                        Some(k) => {
                            crate::nulls::lemma_registry_lookup_in(ctx.registry, k);
                            assert(registry_has_id(ctx.registry, fc_vid.1));
                        },
                        None => {},
                    }
                }
                lemma_value_rows_link_closed(
                    ctx,
                    fc_vid.1,
                    rc.extract_value.spec_target_type(),
                    fc_vid.0,
                    link,
                    record_id,
                    Set::empty().insert(parent),
                );
            },
            None => {},
        }
    }
}

proof fn lemma_related_items_closed(
    ctx: Ctx,
    rc: RelatedValueConfig,
    items: Seq<Json>,
    parent: Seq<char>,
    record_id: Seq<char>,
)
    ensures
        entity_closed(ctx, 
            related_items(ctx, rc, items, parent).0,
            record_id,
            Set::empty().insert(parent),
        ),
    decreases items.len(),
{
    if items.len() > 0 {
        lemma_related_item_closed(ctx, rc, items[0], parent, record_id);
        let head = related_item(ctx, rc, items[0], parent);
        if head.1 && takes_first_match(rc) {
        } else {
            lemma_related_items_closed(ctx, rc, items.drop_first(), parent, record_id);
            let rest = related_items(ctx, rc, items.drop_first(), parent);
            lemma_closed_add(ctx, head.0, rest.0, record_id, Set::empty().insert(parent), Set::empty());
        }
    }
}

proof fn lemma_related_one_closed(
    ctx: Ctx,
    node: Json,
    rc: RelatedValueConfig,
    parent: Seq<char>,
    record_id: Seq<char>,
)
    ensures
        entity_closed(ctx, related_one(ctx, node, rc, parent), record_id, Set::empty().insert(parent)),
{
    match path_value(node, rc.path@) {
        None => {
            lemma_null_default_closed(ctx, rc, parent, record_id);
        },
        Some(data) => {
            let items = entity_items(data, rc.is_array);
            lemma_related_items_closed(ctx, rc, items, parent, record_id);
            let found = related_items(ctx, rc, items, parent);
            if !found.1 && rc.filter_condition is Some {
                lemma_null_default_closed(ctx, rc, parent, record_id);
                lemma_closed_add(ctx, 
                    found.0,
                    null_default(ctx, rc, parent),
                    record_id,
                    Set::empty().insert(parent),
                    Set::empty(),
                );
            }
        },
    }
}

proof fn lemma_related_all_closed(
    ctx: Ctx,
    node: Json,
    rcs: Seq<RelatedValueConfig>,
    parent: Seq<char>,
    record_id: Seq<char>,
)
    ensures
        entity_closed(ctx, 
            related_all(ctx, node, rcs, parent),
            record_id,
            Set::empty().insert(parent),
        ),
    decreases rcs.len(),
{
    if rcs.len() > 0 {
        lemma_related_one_closed(ctx, node, rcs[0], parent, record_id);
        lemma_related_all_closed(ctx, node, rcs.drop_first(), parent, record_id);
        lemma_closed_add(ctx, 
            related_one(ctx, node, rcs[0], parent),
            related_all(ctx, node, rcs.drop_first(), parent),
            record_id,
            Set::empty().insert(parent),
            Set::empty(),
        );
    }
}

/// Referential closure of everything a list of entity configurations
/// yields: every relationship row resolves within the batch, up to the
/// parent value in scope.
pub proof fn lemma_entities_closed(
    ctx: Ctx,
    node: Json,
    configs: Seq<EntityConfig>,
    record_id: Seq<char>,
    parent: Option<Seq<char>>,
)
    ensures
        entity_closed(ctx, 
            entities_model(ctx, node, configs, record_id, parent),
            record_id,
            parent_set(parent),
        ),
    decreases entities_size(configs), 0int, 0int,
{
    if configs.len() > 0 {
        lemma_entity_one_closed(ctx, node, configs[0], record_id, parent);
        lemma_entities_closed(ctx, node, configs.drop_first(), record_id, parent);
        lemma_closed_add(ctx, 
            entity_one_model(ctx, node, configs[0], record_id, parent),
            entities_model(ctx, node, configs.drop_first(), record_id, parent),
            record_id,
            parent_set(parent),
            Set::empty(),
        );
    }
}

proof fn lemma_entity_one_closed(
    ctx: Ctx,
    node: Json,
    cfg: EntityConfig,
    record_id: Seq<char>,
    parent: Option<Seq<char>>,
)
    ensures
        entity_closed(ctx, 
            entity_one_model(ctx, node, cfg, record_id, parent),
            record_id,
            parent_set(parent),
        ),
    decreases entity_size(cfg), 2int, 0int,
{
    match path_value(node, cfg.path@) {
        None => {},
        Some(data) => {
            lemma_entity_items_closed(
                ctx,
                cfg,
                entity_items(data, cfg.is_array),
                0,
                record_id,
                parent,
            );
        },
    }
}

proof fn lemma_entity_items_closed(
    ctx: Ctx,
    cfg: EntityConfig,
    items: Seq<Json>,
    base: int,
    record_id: Seq<char>,
    parent: Option<Seq<char>>,
)
    ensures
        entity_closed(ctx, 
            entity_items_model(ctx, cfg, items, base, record_id, parent),
            record_id,
            parent_set(parent),
        ),
    decreases entity_size(cfg), 1int, items.len(),
{
    if items.len() > 0 {
        lemma_entity_item_closed(ctx, cfg, items[0], base + 1, record_id, parent);
        lemma_entity_items_closed(ctx, cfg, items.drop_first(), base + 1, record_id, parent);
        lemma_closed_add(ctx, 
            entity_item_model(ctx, cfg, items[0], base + 1, record_id, parent),
            entity_items_model(ctx, cfg, items.drop_first(), base + 1, record_id, parent),
            record_id,
            parent_set(parent),
            Set::empty(),
        );
    }
}

proof fn lemma_entity_item_closed(
    ctx: Ctx,
    cfg: EntityConfig,
    item: Json,
    ordinal: int,
    record_id: Seq<char>,
    parent: Option<Seq<char>>,
)
    ensures
        entity_closed(ctx, 
            entity_item_model(ctx, cfg, item, ordinal, record_id, parent),
            record_id,
            parent_set(parent),
        ),
    decreases entity_size(cfg), 0int, 1int,
{
    match cfg.value_extraction {
        Some(vc) => {
            match resolved_value(
                ctx,
                extracted_content(item, vc),
                vc.spec_target_type(),
                vc.spec_null_key(),
            ) {
                None => {},
                Some(fc_vid) => {
                    let link = match parent {
                        Some(p) => match cfg.relationship_to_parent {
                            Some(rt) => vv_link(ctx, p, fc_vid.1, rt@, Some(ordinal)),
                            None => BatchV::empty(),
                        },
                        None => match cfg.relationship_to_record {
                            Some(rt) => rv_link(ctx, record_id, fc_vid.1, rt@, ordinal),
                            None => BatchV::empty(),
                        },
                    };
                    let vr = value_rows(ctx, fc_vid.1, vc.spec_target_type(), fc_vid.0);
                    let children = entity_children_model(ctx, cfg, item, record_id, Some(fc_vid.1));
                    lemma_entity_children_closed(ctx, cfg, item, record_id, Some(fc_vid.1));
                    assert(batch_value_ids(vr).contains(fc_vid.1)) by {
                        assert(vr.values[0].value_id == fc_vid.1);
                    }
                    if extracted_content(item, vc) is None {
                        match vc.spec_null_key() {
                            Some(k) => {
                                crate::nulls::lemma_registry_lookup_in(ctx.registry, k);
                                assert(registry_has_id(ctx.registry, fc_vid.1));
                            },
                            None => {},
                        }
                    }
                    assert(entity_closed(ctx, vr, record_id, parent_set(parent)));
                    assert(entity_closed(ctx, 
                        link,
                        record_id,
                        parent_set(parent).union(Set::empty().insert(fc_vid.1)),
                    )) by {
                        if link.value_value_relationships.len() > 0 {
                            assert(link.value_value_relationships[0].target_value_id == fc_vid.1);
                        }
                        if link.record_value_relationships.len() > 0 {
                            assert(link.record_value_relationships[0].value_id == fc_vid.1);
                        }
                    }
                    lemma_closed_add(ctx, 
                        vr,
                        link,
                        record_id,
                        parent_set(parent),
                        Set::empty().insert(fc_vid.1),
                    );
                    lemma_closed_weaken(ctx, 
                        children,
                        record_id,
                        parent_set(Some(fc_vid.1)),
                        parent_set(parent).union(Set::empty().insert(fc_vid.1)),
                    );
                    lemma_closed_add(ctx, 
                        vr.add(link),
                        children,
                        record_id,
                        parent_set(parent),
                        Set::empty().insert(fc_vid.1),
                    );
                },
            }
        },
        None => {
            lemma_entity_children_closed(ctx, cfg, item, record_id, parent);
        },
    }
}

proof fn lemma_entity_children_closed(
    ctx: Ctx,
    cfg: EntityConfig,
    item: Json,
    record_id: Seq<char>,
    parent_for_children: Option<Seq<char>>,
)
    ensures
        entity_closed(ctx, 
            entity_children_model(ctx, cfg, item, record_id, parent_for_children),
            record_id,
            parent_set(parent_for_children),
        ),
    decreases entity_size(cfg), 0int, 0int,
{
    match parent_for_children {
        None => {},
        Some(pid) => {
            let nested = match cfg.nested_entities {
                Some(v) => entities_model(ctx, item, v@, record_id, Some(pid)),
                None => BatchV::empty(),
            };
            let related = match cfg.related_values {
                Some(v) => related_all(ctx, item, v@, pid),
                None => BatchV::empty(),
            };
            match cfg.nested_entities {
                Some(v) => {
                    lemma_entities_closed(ctx, item, v@, record_id, Some(pid));
                },
                None => {},
            }
            match cfg.related_values {
                Some(v) => {
                    lemma_related_all_closed(ctx, item, v@, pid, record_id);
                },
                None => {},
            }
            assert(parent_set(Some(pid)) =~= Set::empty().insert(pid));
            lemma_closed_add(ctx, nested, related, record_id, parent_set(Some(pid)), Set::empty());
        },
    }
}

/// Referential integrity of one record's batch: the record row is the
/// one record named by every record-bound relationship row; every value
/// identifier referenced by a relationship row has a `values` row in
/// the batch; and every record row's identifier is the deterministic
/// identifier of its primary identifier (record dedup: one identifier
/// per logical record).
pub proof fn lemma_record_model_integrity(
    ctx: Ctx,
    profile: Profile,
    active: Seq<(String, String)>,
    record: Json,
)
    ensures
        ({
            let b = record_model(ctx, profile, active, record);
            &&& (forall|i: int|
                0 <= i < b.records.len() ==> (#[trigger] b.records[i]).record_id == record_id_of(
                    ctx.record_prefix,
                    b.records[i].doi,
                ))
            &&& (forall|i: int|
                0 <= i < b.process_record_relationships.len() ==> exists|j: int|
                    0 <= j < b.records.len() && (#[trigger] b.records[j]).record_id == (
                    #[trigger] b.process_record_relationships[i]).record_id)
            &&& (forall|i: int|
                0 <= i < b.record_value_relationships.len() ==> exists|j: int|
                    0 <= j < b.records.len() && (#[trigger] b.records[j]).record_id == (
                    #[trigger] b.record_value_relationships[i]).record_id)
            &&& (forall|i: int|
                0 <= i < b.record_value_relationships.len() ==> batch_value_ids(b).contains(
                    (#[trigger] b.record_value_relationships[i]).value_id,
                ))
            &&& (forall|i: int|
                0 <= i < b.process_value_relationships.len() ==> batch_value_ids(b).contains(
                    (#[trigger] b.process_value_relationships[i]).value_id,
                ))
            &&& (forall|i: int|
                0 <= i < b.value_value_relationships.len() ==> batch_value_ids(b).contains(
                    (#[trigger] b.value_value_relationships[i]).target_value_id,
                ) && batch_value_ids(b).contains(
                    b.value_value_relationships[i].source_value_id,
                ))
            &&& (forall|i: int| 0 <= i < b.values.len() ==> value_wf(ctx, #[trigger] b.values[i]))
        }),
{
    let b = record_model(ctx, profile, active, record);
    if !filtered_out(profile, active, record) {
        match primary_id_of(profile, record) {
            None => {},
            Some(primary) => {
                let rid = record_id_of(ctx.record_prefix, primary);
                let rr = record_rows(ctx, rid, primary);
                let ent = entities_model(ctx, record, profile.entities@, rid, None);
                lemma_entities_closed(ctx, record, profile.entities@, rid, None);
                assert(b == rr.add(ent));
                assert(b.records.len() == 1);
                assert(b.records[0] == rr.records[0]);
                assert(b.process_record_relationships.len() == 1);
                assert(b.process_record_relationships[0] == rr.process_record_relationships[0]);
                assert(forall|i: int|
                    0 <= i < ent.record_value_relationships.len()
                        ==> b.record_value_relationships[i] == ent.record_value_relationships[i]);
                assert(forall|i: int|
                    0 <= i < ent.process_value_relationships.len()
                        ==> b.process_value_relationships[i] == ent.process_value_relationships[i]);
                assert(forall|i: int|
                    0 <= i < ent.value_value_relationships.len()
                        ==> b.value_value_relationships[i] == ent.value_value_relationships[i]);
                assert(forall|i: int| 0 <= i < ent.values.len() ==> b.values[i] == ent.values[i]);
                assert forall|i: int| 0 <= i < b.values.len() implies value_wf(
                    ctx,
                    #[trigger] b.values[i],
                ) by {
                    assert(b.values[i] == ent.values[i]);
                    assert(value_wf(ctx, ent.values[i]));
                }
                assert forall|k: Seq<char>| batch_value_ids(ent).contains(k)
                    implies batch_value_ids(b).contains(k) by {
                    let i = choose|i: int|
                        0 <= i < ent.values.len() && (#[trigger] ent.values[i]).value_id == k;
                    assert(b.values[i].value_id == k);
                }
                assert(parent_set(None) =~= Set::<Seq<char>>::empty());
            },
        }
    }
}

/// Record dedup: any two record rows minted under the same record
/// prefix for the same primary identifier name the same record
/// identifier — whatever file, thread or run produced them.  The
/// integrity law above establishes the hypotheses for every row a
/// record's batch holds.
pub proof fn lemma_record_dedup(prefix: Seq<char>, r1: RecordRowV, r2: RecordRowV)
    requires
        r1.record_id == record_id_of(prefix, r1.doi),
        r2.record_id == record_id_of(prefix, r2.doi),
        r1.doi == r2.doi,
    ensures
        r1.record_id == r2.record_id,
{
}

/// Value dedup per observed pair: two values rows minted under the same
/// value prefix for the same `(value_type, content)` pair carry the same
/// identifier, so the writer's identifier dedup keeps exactly one of
/// them.  The integrity law establishes the hypotheses for every
/// non-null values row a record's batch holds.
pub proof fn lemma_value_pair_dedup(prefix: Seq<char>, v1: ValueRowV, v2: ValueRowV)
    requires
        v1.value_id == value_id_of(prefix, v1.value_type, v1.value_content),
        v2.value_id == value_id_of(prefix, v2.value_type, v2.value_content),
        v1.value_type == v2.value_type,
        v1.value_content == v2.value_content,
    ensures
        v1.value_id == v2.value_id,
{
}

/// Whether an entity's value-extraction rule resolves a value for an
/// item (directly or through its null fallback).
pub open spec fn item_resolves(ctx: Ctx, cfg: EntityConfig, item: Json) -> bool {
    match cfg.value_extraction {
        Some(vc) => resolved_value(
            ctx,
            extracted_content(item, vc),
            vc.spec_target_type(),
            vc.spec_null_key(),
        ) is Some,
        None => false,
    }
}

/// Ordinals, record side: for a leaf array entity linked to the record
/// whose items all resolve a value, the record-value rows carry the
/// 1-based source positions `base+1 ..= base+n`, in order and without
/// gaps.  (An item that fails to resolve is skipped and leaves a gap;
/// this law speaks of items that all resolve.)
pub proof fn lemma_ordinals_record(
    ctx: Ctx,
    cfg: EntityConfig,
    items: Seq<Json>,
    base: int,
    record_id: Seq<char>,
)
    requires
        cfg.value_extraction is Some,
        cfg.relationship_to_record is Some,
        cfg.nested_entities is None,
        cfg.related_values is None,
        forall|j: int| 0 <= j < items.len() ==> item_resolves(ctx, cfg, #[trigger] items[j]),
    ensures
        ({
            let b = entity_items_model(ctx, cfg, items, base, record_id, None);
            &&& b.record_value_relationships.len() == items.len()
            &&& (forall|j: int|
                0 <= j < items.len() ==> (#[trigger] b.record_value_relationships[j]).ordinal
                    == base + 1 + j)
        }),
    decreases items.len(),
{
    let b = entity_items_model(ctx, cfg, items, base, record_id, None);
    if items.len() > 0 {
        lemma_ordinals_record(ctx, cfg, items.drop_first(), base + 1, record_id);
        let head = entity_item_model(ctx, cfg, items[0], base + 1, record_id, None);
        let rest = entity_items_model(
            ctx,
            cfg,
            items.drop_first(),
            base + 1,
            record_id,
            None,
        );
        assert(head.record_value_relationships.len() == 1);
        assert(head.record_value_relationships[0].ordinal == base + 1);
        assert(forall|j: int|
            0 <= j < rest.record_value_relationships.len()
                ==> b.record_value_relationships[j + 1] == rest.record_value_relationships[j]);
        assert forall|j: int| 0 <= j < items.len() implies (
        #[trigger] b.record_value_relationships[j]).ordinal == base + 1 + j by {
            if j > 0 {
                assert(b.record_value_relationships[j] == rest.record_value_relationships[j - 1]);
            }
        }
    }
}

/// Ordinals, parent side: for a leaf array entity linked to a parent
/// value whose items all resolve, the value-value rows carry the
/// 1-based source positions `base+1 ..= base+n`, in order and without
/// gaps.
pub proof fn lemma_ordinals_parent(
    ctx: Ctx,
    cfg: EntityConfig,
    items: Seq<Json>,
    base: int,
    record_id: Seq<char>,
    parent: Seq<char>,
)
    requires
        cfg.value_extraction is Some,
        cfg.relationship_to_parent is Some,
        cfg.nested_entities is None,
        cfg.related_values is None,
        forall|j: int| 0 <= j < items.len() ==> item_resolves(ctx, cfg, #[trigger] items[j]),
    ensures
        ({
            let b = entity_items_model(ctx, cfg, items, base, record_id, Some(parent));
            &&& b.value_value_relationships.len() == items.len()
            &&& (forall|j: int|
                0 <= j < items.len() ==> (#[trigger] b.value_value_relationships[j]).ordinal
                    == Some(base + 1 + j))
        }),
    decreases items.len(),
{
    let b = entity_items_model(ctx, cfg, items, base, record_id, Some(parent));
    if items.len() > 0 {
        lemma_ordinals_parent(ctx, cfg, items.drop_first(), base + 1, record_id, parent);
        let head = entity_item_model(ctx, cfg, items[0], base + 1, record_id, Some(parent));
        let rest = entity_items_model(
            ctx,
            cfg,
            items.drop_first(),
            base + 1,
            record_id,
            Some(parent),
        );
        assert(head.value_value_relationships.len() == 1);
        assert(head.value_value_relationships[0].ordinal == Some(base + 1));
        assert(forall|j: int|
            0 <= j < rest.value_value_relationships.len()
                ==> b.value_value_relationships[j + 1] == rest.value_value_relationships[j]);
        assert forall|j: int| 0 <= j < items.len() implies (
        #[trigger] b.value_value_relationships[j]).ordinal == Some(base + 1 + j) by {
            if j > 0 {
                assert(b.value_value_relationships[j] == rest.value_value_relationships[j - 1]);
            }
        }
    }
}

proof fn lemma_related_all_no_rvr(
    ctx: Ctx,
    node: Json,
    rcs: Seq<RelatedValueConfig>,
    parent: Seq<char>,
)
    ensures
        related_all(ctx, node, rcs, parent).record_value_relationships.len() == 0,
    decreases rcs.len(),
{
    if rcs.len() > 0 {
        lemma_related_one_no_rvr(ctx, node, rcs[0], parent);
        lemma_related_all_no_rvr(ctx, node, rcs.drop_first(), parent);
    }
}

proof fn lemma_related_one_no_rvr(ctx: Ctx, node: Json, rc: RelatedValueConfig, parent: Seq<char>)
    ensures
        related_one(ctx, node, rc, parent).record_value_relationships.len() == 0,
{
    match path_value(node, rc.path@) {
        None => {},
        Some(data) => {
            lemma_related_items_no_rvr(ctx, rc, entity_items(data, rc.is_array), parent);
        },
    }
}

proof fn lemma_related_items_no_rvr(
    ctx: Ctx,
    rc: RelatedValueConfig,
    items: Seq<Json>,
    parent: Seq<char>,
)
    ensures
        related_items(ctx, rc, items, parent).0.record_value_relationships.len() == 0,
    decreases items.len(),
{
    if items.len() > 0 {
        lemma_related_items_no_rvr(ctx, rc, items.drop_first(), parent);
    }
}

/// Under a parent value, an entity tree links values to that parent,
/// never to the record: it emits no record-value rows.
pub proof fn lemma_entities_no_rvr(
    ctx: Ctx,
    node: Json,
    configs: Seq<EntityConfig>,
    record_id: Seq<char>,
    pid: Seq<char>,
)
    ensures
        entities_model(
            ctx,
            node,
            configs,
            record_id,
            Some(pid),
        ).record_value_relationships.len() == 0,
    decreases entities_size(configs), 0int, 0int,
{
    if configs.len() > 0 {
        lemma_entity_one_no_rvr(ctx, node, configs[0], record_id, pid);
        lemma_entities_no_rvr(ctx, node, configs.drop_first(), record_id, pid);
    }
}

proof fn lemma_entity_one_no_rvr(
    ctx: Ctx,
    node: Json,
    cfg: EntityConfig,
    record_id: Seq<char>,
    pid: Seq<char>,
)
    ensures
        entity_one_model(
            ctx,
            node,
            cfg,
            record_id,
            Some(pid),
        ).record_value_relationships.len() == 0,
    decreases entity_size(cfg), 2int, 0int,
{
    match path_value(node, cfg.path@) {
        None => {},
        Some(data) => {
            lemma_entity_items_no_rvr(
                ctx,
                cfg,
                entity_items(data, cfg.is_array),
                0,
                record_id,
                pid,
            );
        },
    }
}

proof fn lemma_entity_items_no_rvr(
    ctx: Ctx,
    cfg: EntityConfig,
    items: Seq<Json>,
    base: int,
    record_id: Seq<char>,
    pid: Seq<char>,
)
    ensures
        entity_items_model(
            ctx,
            cfg,
            items,
            base,
            record_id,
            Some(pid),
        ).record_value_relationships.len() == 0,
    decreases entity_size(cfg), 1int, items.len(),
{
    if items.len() > 0 {
        lemma_entity_item_no_rvr(ctx, cfg, items[0], base + 1, record_id, Some(pid));
        lemma_entity_items_no_rvr(ctx, cfg, items.drop_first(), base + 1, record_id, pid);
    }
}

/// One entity item emits at most one record-value row — none at all
/// under a parent value — and that row carries the item's ordinal.
proof fn lemma_entity_item_no_rvr(
    ctx: Ctx,
    cfg: EntityConfig,
    item: Json,
    ordinal: int,
    record_id: Seq<char>,
    parent: Option<Seq<char>>,
)
    ensures
        ({
            let rows = entity_item_model(
                ctx,
                cfg,
                item,
                ordinal,
                record_id,
                parent,
            ).record_value_relationships;
            &&& rows.len() <= 1
            &&& (rows.len() == 1 ==> rows[0].ordinal == ordinal)
            &&& (parent is Some ==> rows.len() == 0)
        }),
    decreases entity_size(cfg), 0int, 1int,
{
    match cfg.value_extraction {
        Some(vc) => {
            match resolved_value(
                ctx,
                extracted_content(item, vc),
                vc.spec_target_type(),
                vc.spec_null_key(),
            ) {
                None => {},
                Some(fc_vid) => {
                    lemma_entity_children_no_rvr(ctx, cfg, item, record_id, fc_vid.1);
                },
            }
        },
        None => {
            match parent {
                Some(pid) => {
                    lemma_entity_children_no_rvr(ctx, cfg, item, record_id, pid);
                },
                None => {},
            }
        },
    }
}

proof fn lemma_entity_children_no_rvr(
    ctx: Ctx,
    cfg: EntityConfig,
    item: Json,
    record_id: Seq<char>,
    pid: Seq<char>,
)
    ensures
        entity_children_model(
            ctx,
            cfg,
            item,
            record_id,
            Some(pid),
        ).record_value_relationships.len() == 0,
    decreases entity_size(cfg), 0int, 0int,
{
    match cfg.nested_entities {
        Some(v) => {
            lemma_entities_no_rvr(ctx, item, v@, record_id, pid);
        },
        None => {},
    }
    match cfg.related_values {
        Some(v) => {
            lemma_related_all_no_rvr(ctx, item, v@, pid);
        },
        None => {},
    }
}

/// Ordinals reflect source order unconditionally: whatever items fail or
/// succeed, the record-value rows of a top-level entity's items carry
/// strictly increasing ordinals, each the 1-based source position of its
/// item.  (An item that fails to resolve leaves a gap; the two laws
/// below give the gap-free `1..=n` form when every item resolves.)
pub proof fn lemma_ordinals_monotonic(
    ctx: Ctx,
    cfg: EntityConfig,
    items: Seq<Json>,
    base: int,
    record_id: Seq<char>,
)
    ensures
        ({
            let rows = entity_items_model(
                ctx,
                cfg,
                items,
                base,
                record_id,
                None,
            ).record_value_relationships;
            &&& (forall|i: int|
                0 <= i < rows.len() ==> base + 1 <= (#[trigger] rows[i]).ordinal <= base
                    + items.len())
            &&& (forall|i: int, j: int|
                0 <= i < j < rows.len() ==> (#[trigger] rows[i]).ordinal < (
                #[trigger] rows[j]).ordinal)
        }),
    decreases items.len(),
{
    if items.len() > 0 {
        let head = entity_item_model(ctx, cfg, items[0], base + 1, record_id, None);
        let rest = entity_items_model(ctx, cfg, items.drop_first(), base + 1, record_id, None);
        let rows = entity_items_model(
            ctx,
            cfg,
            items,
            base,
            record_id,
            None,
        ).record_value_relationships;
        lemma_entity_item_no_rvr(ctx, cfg, items[0], base + 1, record_id, None);
        lemma_ordinals_monotonic(ctx, cfg, items.drop_first(), base + 1, record_id);
        let h = head.record_value_relationships.len() as int;
        assert(rows == head.record_value_relationships + rest.record_value_relationships);
        assert(forall|i: int|
            0 <= i < rest.record_value_relationships.len() ==> rows[h + i]
                == rest.record_value_relationships[i]);
        assert forall|i: int| 0 <= i < rows.len() implies base + 1 <= (
        #[trigger] rows[i]).ordinal <= base + items.len() by {
            if i >= h {
                assert(rows[i] == rest.record_value_relationships[i - h]);
            }
        }
        assert forall|i: int, j: int| 0 <= i < j < rows.len() implies (
        #[trigger] rows[i]).ordinal < (#[trigger] rows[j]).ordinal by {
            if i < h {
                assert(rows[i] == head.record_value_relationships[0]);
                assert(rows[j] == rest.record_value_relationships[j - h]);
                assert(base + 2 <= rows[j].ordinal);
            } else {
                assert(rows[i] == rest.record_value_relationships[i - h]);
                assert(rows[j] == rest.record_value_relationships[j - h]);
            }
        }
    }
}

/// Why a record yielded no rows, or that it was processed.
pub enum RecordOutcome {
    Processed,
    FilteredOut,
    MissingIdentifier,
}

/// The outcome a record must have under a profile and active filters.
pub open spec fn record_outcome(
    profile: Profile,
    active: Seq<(String, String)>,
    record: Json,
) -> RecordOutcome {
    if filtered_out(profile, active, record) {
        RecordOutcome::FilteredOut
    } else if primary_id_of(profile, record) is None {
        RecordOutcome::MissingIdentifier
    } else {
        RecordOutcome::Processed
    }
}

/// Relies on uuid's `Uuid::new_v4` and its hyphenated `Display` form: a
/// fresh random identifier, 36 characters long.  Nothing else can be
/// promised of a random value.
#[verifier::external_body]
fn relationship_uuid() -> (r: String)
    ensures
        r@.len() == 36,
{
    uuid::Uuid::new_v4().to_string()
}

pub open spec fn opt_string_view(v: Option<String>) -> Option<Seq<char>> {
    match v {
        Some(s) => Some(s@),
        None => None,
    }
}

pub open spec fn opt_ref_view(v: Option<&String>) -> Option<Seq<char>> {
    match v {
        Some(s) => Some(s@),
        None => None,
    }
}

/// One profile bound to one task's resolved filters, ready to process
/// records.  The processor itself is immutable run configuration; the
/// interning maps travel separately so that several workers can each
/// carry their own.
pub struct Processor {
    pub profile: Profile,
    pub registry: NullRegistry,
    pub timestamp: String,
    pub active_filters: Vec<(String, String)>,
}

impl Processor {
    /// The extraction context this processor works in.
    pub open spec fn ctx(self) -> Ctx {
        Ctx {
            record_prefix: self.profile.deterministic_ids.record_prefix@,
            value_prefix: self.profile.deterministic_ids.value_prefix@,
            process_id: self.profile.process_info.process_id@,
            timestamp: self.timestamp@,
            null_values: self.profile.null_values@,
            registry: self.registry@,
        }
    }

    /// Whether an interning map belongs to this processor's identity
    /// scheme.
    pub open spec fn owns(self, ids: IdMaps) -> bool {
        ids.wf() && ids.record_prefix@ == self.profile.deterministic_ids.record_prefix@
            && ids.value_prefix@ == self.profile.deterministic_ids.value_prefix@
    }

    /// Fresh interning maps for this processor's prefixes.
    pub fn fresh_ids(&self) -> (r: IdMaps)
        ensures
            self.owns(r),
    {
        IdMaps::new(
            self.profile.deterministic_ids.record_prefix.clone(),
            self.profile.deterministic_ids.value_prefix.clone(),
        )
    }

    /// Append the `values` row and `process_value_relationships` row of
    /// one emitted value.
    fn add_value_rows(
        &self,
        value_id: &String,
        value_type: &String,
        content: &String,
        batch: &mut OutputBatch,
    )
        ensures
            final(batch)@ == old(batch)@.add(
                value_rows(self.ctx(), value_id@, value_type@, content@),
            ),
    {
        let ghost pre = batch@;
        batch.values.push(
            ValueRow {
                value_id: value_id.clone(),
                value_type: value_type.clone(),
                value_content: content.clone(),
            },
        );
        batch.process_value_relationships.push(
            ProcessValueRow {
                process_value_id: relationship_uuid(),
                process_id: self.profile.process_info.process_id.clone(),
                value_id: value_id.clone(),
                relationship_type: "created".to_owned(),
                timestamp: self.timestamp.clone(),
            },
        );
        proof {
            let m = value_rows(self.ctx(), value_id@, value_type@, content@);
            assert(batch@.values =~= pre.values + m.values);
            assert(batch@.process_value_relationships =~= pre.process_value_relationships
                + m.process_value_relationships);
            assert(batch@.records =~= pre.records + m.records);
            assert(batch@.process_record_relationships =~= pre.process_record_relationships
                + m.process_record_relationships);
            assert(batch@.record_value_relationships =~= pre.record_value_relationships
                + m.record_value_relationships);
            assert(batch@.value_value_relationships =~= pre.value_value_relationships
                + m.value_value_relationships);
            assert(batch@ =~= pre.add(m));
        }
    }

    /// Append one value-value relationship row.
    fn add_value_value_relationship(
        &self,
        source: &String,
        target: &String,
        relationship_type: &String,
        ordinal: Option<usize>,
        batch: &mut OutputBatch,
    )
        ensures
            final(batch)@ == old(batch)@.add(
                vv_link(
                    self.ctx(),
                    source@,
                    target@,
                    relationship_type@,
                    match ordinal {
                        Some(o) => Some(o as int),
                        None => None,
                    },
                ),
            ),
    {
        let ghost pre = batch@;
        batch.value_value_relationships.push(
            ValueValueRow {
                value_value_id: relationship_uuid(),
                source_value_id: source.clone(),
                target_value_id: target.clone(),
                relationship_type: relationship_type.clone(),
                ordinal,
                process_id: self.profile.process_info.process_id.clone(),
                timestamp: self.timestamp.clone(),
            },
        );
        proof {
            let m = vv_link(
                self.ctx(),
                source@,
                target@,
                relationship_type@,
                match ordinal {
                    Some(o) => Some(o as int),
                    None => None,
                },
            );
            assert(batch@.value_value_relationships =~= pre.value_value_relationships
                + m.value_value_relationships);
            assert(batch@.records =~= pre.records + m.records);
            assert(batch@.values =~= pre.values + m.values);
            assert(batch@.process_record_relationships =~= pre.process_record_relationships
                + m.process_record_relationships);
            assert(batch@.process_value_relationships =~= pre.process_value_relationships
                + m.process_value_relationships);
            assert(batch@.record_value_relationships =~= pre.record_value_relationships
                + m.record_value_relationships);
            assert(batch@ =~= pre.add(m));
        }
    }

    /// Append one record-value relationship row.
    fn add_record_value_relationship(
        &self,
        record_id: &String,
        value_id: &String,
        relationship_type: &String,
        ordinal: usize,
        batch: &mut OutputBatch,
    )
        ensures
            final(batch)@ == old(batch)@.add(
                rv_link(self.ctx(), record_id@, value_id@, relationship_type@, ordinal as int),
            ),
    {
        let ghost pre = batch@;
        batch.record_value_relationships.push(
            RecordValueRow {
                record_value_id: relationship_uuid(),
                record_id: record_id.clone(),
                value_id: value_id.clone(),
                relationship_type: relationship_type.clone(),
                ordinal,
                process_id: self.profile.process_info.process_id.clone(),
                timestamp: self.timestamp.clone(),
            },
        );
        proof {
            let m = rv_link(self.ctx(), record_id@, value_id@, relationship_type@, ordinal as int);
            assert(batch@.record_value_relationships =~= pre.record_value_relationships
                + m.record_value_relationships);
            assert(batch@.records =~= pre.records + m.records);
            assert(batch@.values =~= pre.values + m.values);
            assert(batch@.process_record_relationships =~= pre.process_record_relationships
                + m.process_record_relationships);
            assert(batch@.process_value_relationships =~= pre.process_value_relationships
                + m.process_value_relationships);
            assert(batch@.value_value_relationships =~= pre.value_value_relationships
                + m.value_value_relationships);
            assert(batch@ =~= pre.add(m));
        }
    }

    /// Append the `records` row and `process_record_relationships` row
    /// of one ingested record.
    fn add_record_rows(&self, record_id: &String, primary: &String, batch: &mut OutputBatch)
        ensures
            final(batch)@ == old(batch)@.add(record_rows(self.ctx(), record_id@, primary@)),
    {
        let ghost pre = batch@;
        batch.records.push(RecordRow { record_id: record_id.clone(), doi: primary.clone() });
        batch.process_record_relationships.push(
            ProcessRecordRow {
                process_record_id: relationship_uuid(),
                process_id: self.profile.process_info.process_id.clone(),
                record_id: record_id.clone(),
                relationship_type: "ingested".to_owned(),
                timestamp: self.timestamp.clone(),
            },
        );
        proof {
            let m = record_rows(self.ctx(), record_id@, primary@);
            assert(batch@.records =~= pre.records + m.records);
            assert(batch@.process_record_relationships =~= pre.process_record_relationships
                + m.process_record_relationships);
            assert(batch@.values =~= pre.values + m.values);
            assert(batch@.process_value_relationships =~= pre.process_value_relationships
                + m.process_value_relationships);
            assert(batch@.record_value_relationships =~= pre.record_value_relationships
                + m.record_value_relationships);
            assert(batch@.value_value_relationships =~= pre.value_value_relationships
                + m.value_value_relationships);
            assert(batch@ =~= pre.add(m));
        }
    }
}

/// The path `/{field}`, built for a field lookup.
fn slash_path(field: &String) -> (r: String)
    ensures
        r@ == slashed(field@),
{
    let mut r = "/".to_owned();
    r.append(field.as_str());
    proof {
        reveal_strlit("/");
        assert("/"@ =~= seq!['/']);
    }
    r
}

/// The scalar text of a field value, as `json_scalar_text` defines it.
fn json_scalar_exec(v: &Json) -> (r: Option<String>)
    ensures
        opt_string_view(r) == json_scalar_text(*v),
{
    match v {
        Json::Str(s) => {
            let t = trim_string(s.as_str());
            if t.as_str().is_empty() {
                None
            } else {
                Some(t)
            }
        },
        Json::Num(t) => {
            if t.as_str().is_empty() {
                None
            } else {
                Some(t.clone())
            }
        },
        Json::Bool(b) => {
            proof {
                reveal_strlit("true");
                reveal_strlit("false");
            }
            if *b {
                Some("true".to_owned())
            } else {
                Some("false".to_owned())
            }
        },
        _ => None,
    }
}

/// A combinable part of a combined field: a non-empty trimmed string.
fn combine_part_exec(node: &Json, field: &String) -> (r: Option<String>)
    ensures
        opt_string_view(r) == combine_part(*node, field@),
{
    let p = slash_path(field);
    match node.at_path(p.as_str()) {
        Some(child) => match child {
            Json::Str(s) => {
                let t = trim_string(s.as_str());
                if t.as_str().is_empty() {
                    None
                } else {
                    Some(t)
                }
            },
            _ => None,
        },
        None => None,
    }
}

impl Processor {
    /// Compute `(content, value_type)` for one extraction rule against
    /// one item, as §value extraction defines it.
    pub fn extract_value(&self, node: &Json, cfg: &ValueExtractionConfig) -> (r: (
        Option<String>,
        String,
    ))
        ensures
            opt_string_view(r.0) == extracted_content(*node, *cfg),
            r.1@ == cfg.spec_target_type(),
    {
        match cfg {
            ValueExtractionConfig::Field { field, target_value_type, .. } => {
                let p = slash_path(field);
                let content = match node.at_path(p.as_str()) {
                    Some(child) => json_scalar_exec(child),
                    None => None,
                };
                (content, target_value_type.clone())
            },
            ValueExtractionConfig::CombineFields { fields, separator, target_value_type, .. } => {
                let mut parts: Vec<String> = Vec::new();
                let mut i: usize = 0;
                assert(fields@.skip(0) =~= fields@);
                assert(parts@.map_values(|s: String| s@) =~= Seq::<Seq<char>>::empty());
                while i < fields.len()
                    invariant
                        i <= fields@.len(),
                        combine_parts(*node, fields@) == parts@.map_values(|s: String| s@)
                            + combine_parts(*node, fields@.skip(i as int)),
                    decreases fields@.len() - i,
                {
                    assert(fields@.skip(i as int)[0] == fields@[i as int]);
                    assert(fields@.skip(i as int).drop_first() =~= fields@.skip(i as int + 1));
                    let ghost pre = parts@.map_values(|s: String| s@);
                    match combine_part_exec(node, &fields[i]) {
                        Some(t) => {
                            let ghost tv = t@;
                            parts.push(t);
                            proof {
                                assert(parts@.map_values(|s: String| s@) =~= pre.push(tv));
                                assert(pre + (seq![tv] + combine_parts(
                                    *node,
                                    fields@.skip(i as int + 1),
                                )) =~= pre.push(tv) + combine_parts(
                                    *node,
                                    fields@.skip(i as int + 1),
                                ));
                            }
                        },
                        None => {},
                    }
                    i = i + 1;
                }
                assert(combine_parts(*node, fields@.skip(fields@.len() as int))
                    =~= Seq::<Seq<char>>::empty());
                let ghost parts_v = parts@.map_values(|s: String| s@);
                assert(combine_parts(*node, fields@) =~= parts_v);
                if parts.len() == 0 {
                    (None, target_value_type.clone())
                } else {
                    let mut s = parts[0].clone();
                    assert(parts_v.take(1) =~= seq![parts_v[0]]);
                    let mut j: usize = 1;
                    while j < parts.len()
                        invariant
                            1 <= j <= parts_v.len(),
                            parts_v == parts@.map_values(|x: String| x@),
                            s@ == join_with(parts_v.take(j as int), separator@),
                        decreases parts_v.len() - j,
                    {
                        s.append(separator.as_str());
                        s.append(parts[j].as_str());
                        proof {
                            lemma_join_push(parts_v.take(j as int), separator@, parts_v[j as int]);
                            assert(parts_v.take(j as int).push(parts_v[j as int]) =~= parts_v.take(
                                j as int + 1,
                            ));
                        }
                        j = j + 1;
                    }
                    assert(parts_v.take(parts_v.len() as int) =~= parts_v);
                    (Some(s), target_value_type.clone())
                }
            },
        }
    }

    /// Resolve extracted content to `(final_content, value_id)`,
    /// interning non-empty content and falling back to the named null
    /// value; `None` is an item-level failure.
    pub fn get_or_create_value_id(
        &self,
        ids: &mut IdMaps,
        content: &Option<String>,
        value_type: &String,
        null_ref: Option<&String>,
    ) -> (r: Option<(String, String)>)
        requires
            self.owns(*old(ids)),
        ensures
            self.owns(*final(ids)),
            match r {
                Some(p) => resolved_value(
                    self.ctx(),
                    opt_string_view(*content),
                    value_type@,
                    opt_ref_view(null_ref),
                ) == Some((p.0@, p.1@)),
                None => resolved_value(
                    self.ctx(),
                    opt_string_view(*content),
                    value_type@,
                    opt_ref_view(null_ref),
                ) is None,
            },
    {
        match content {
            Some(c) => {
                let vid = ids.value_id(value_type, c);
                Some((c.clone(), vid))
            },
            None => match null_ref {
                Some(key) => match self.profile.find_null_value(key) {
                    Some(nc) => match self.registry.find(key) {
                        Some(e) => Some((nc.content.clone(), e.value_id.clone())),
                        None => None,
                    },
                    None => None,
                },
                None => None,
            },
        }
    }

    /// Whether a related-value filter condition accepts an item.
    pub fn check_filter_condition(&self, item: &Json, c: &FilterConditionConfig) -> (r: bool)
        ensures
            r == condition_met(*item, *c),
    {
        let p = slash_path(&c.field);
        match item.at_path(p.as_str()) {
            Some(v) => match v {
                Json::Str(s) => {
                    let ci = match c.case_insensitive {
                        Some(b) => b,
                        None => false,
                    };
                    if ci {
                        crate::text::str_eq_ignore_ascii_case(s.as_str(), c.equals.as_str())
                    } else {
                        s.eq(&c.equals)
                    }
                },
                Json::Num(t) => crate::text::str_eq_ignore_ascii_case(
                    t.as_str(),
                    c.equals.as_str(),
                ),
                Json::Bool(b) => crate::text::str_eq_ignore_ascii_case(
                    if *b {
                        "true"
                    } else {
                        "false"
                    },
                    c.equals.as_str(),
                ),
                _ => false,
            },
            None => false,
        }
    }

    /// Apply a related value's null default: a value row for the
    /// configured null and a link from the parent, when key,
    /// configuration and precomputed identifier all exist.
    fn apply_null_default(&self, rc: &RelatedValueConfig, parent: &String, batch: &mut OutputBatch)
        ensures
            final(batch)@ == old(batch)@.add(null_default(self.ctx(), *rc, parent@)),
    {
        let ghost pre = batch@;
        match rc.extract_value.get_null_ref() {
            Some(key) => match self.profile.find_null_value(key) {
                Some(nc) => match self.registry.find(key) {
                    Some(e) => {
                        let value_id = e.value_id.clone();
                        let value_type = nc.value_type.clone();
                        let content = nc.content.clone();
                        self.add_value_rows(&value_id, &value_type, &content, batch);
                        self.add_value_value_relationship(
                            parent,
                            &value_id,
                            &rc.relationship_to_parent,
                            None,
                            batch,
                        );
                        proof {
                            crate::rows::lemma_batch_add_assoc(
                                pre,
                                value_rows(self.ctx(), value_id@, value_type@, content@),
                                vv_link(
                                    self.ctx(),
                                    parent@,
                                    value_id@,
                                    rc.relationship_to_parent@,
                                    None,
                                ),
                            );
                        }
                    },
                    None => {
                        proof {
                            crate::rows::lemma_batch_add_empty(pre);
                        }
                    },
                },
                None => {
                    proof {
                        crate::rows::lemma_batch_add_empty(pre);
                    }
                },
            },
            None => {
                proof {
                    crate::rows::lemma_batch_add_empty(pre);
                }
            },
        }
    }

    /// Process one candidate item of a related value; the result says
    /// whether it counted as a match.
    fn process_related_item(
        &self,
        ids: &mut IdMaps,
        rc: &RelatedValueConfig,
        item: &Json,
        parent: &String,
        batch: &mut OutputBatch,
    ) -> (found: bool)
        requires
            self.owns(*old(ids)),
        ensures
            self.owns(*final(ids)),
            final(batch)@ == old(batch)@.add(related_item(self.ctx(), *rc, *item, parent@).0),
            found == related_item(self.ctx(), *rc, *item, parent@).1,
    {
        let ghost b0 = batch@;
        let met = match &rc.filter_condition {
            Some(c) => self.check_filter_condition(item, c),
            None => true,
        };
        if !met {
            proof {
                crate::rows::lemma_batch_add_empty(b0);
            }
            return false;
        }
        let extracted = self.extract_value(item, &rc.extract_value);
        let content = extracted.0;
        let value_type = extracted.1;
        match self.get_or_create_value_id(ids, &content, &value_type, rc.extract_value.get_null_ref(
        )) {
            Some(resolved) => {
                let final_content = resolved.0;
                let value_id = resolved.1;
                self.add_value_rows(&value_id, &value_type, &final_content, batch);
                self.add_value_value_relationship(
                    parent,
                    &value_id,
                    &rc.relationship_to_parent,
                    None,
                    batch,
                );
                proof {
                    crate::rows::lemma_batch_add_assoc(
                        b0,
                        value_rows(
                            self.ctx(),
                            value_id@,
                            rc.extract_value.spec_target_type(),
                            final_content@,
                        ),
                        vv_link(self.ctx(), parent@, value_id@, rc.relationship_to_parent@, None),
                    );
                }
                true
            },
            None => {
                proof {
                    crate::rows::lemma_batch_add_empty(b0);
                }
                false
            },
        }
    }

    /// Process one related-value rule against one item node.
    fn process_related_one(
        &self,
        ids: &mut IdMaps,
        rc: &RelatedValueConfig,
        node: &Json,
        parent: &String,
        batch: &mut OutputBatch,
    )
        requires
            self.owns(*old(ids)),
        ensures
            self.owns(*final(ids)),
            final(batch)@ == old(batch)@.add(related_one(self.ctx(), *node, *rc, parent@)),
    {
        let ghost b0 = batch@;
        match node.at_path(rc.path.as_str()) {
            None => {
                self.apply_null_default(rc, parent, batch);
            },
            Some(data) => {
                let ghost items = entity_items(*data, rc.is_array);
                let take_first = match rc.take_first_match {
                    Some(b) => b,
                    None => false,
                };
                let mut found = false;
                let ghost mut acc = BatchV::empty();
                proof {
                    crate::rows::lemma_batch_add_empty(b0);
                }
                if rc.is_array {
                    match data {
                        Json::Arr(arr) => {
                            let mut stop = false;
                            let mut j: usize = 0;
                            assert(arr@.skip(0) =~= arr@);
                            while j < arr.len() && !stop
                                invariant
                                    j <= arr@.len(),
                                    self.owns(*ids),
                                    batch@ == b0.add(acc),
                                    items == arr@,
                                    stop ==> found,
                                    ({
                                        let full = related_items(self.ctx(), *rc, arr@, parent@);
                                        if stop {
                                            full == (acc, true)
                                        } else {
                                            let rest = related_items(
                                                self.ctx(),
                                                *rc,
                                                arr@.skip(j as int),
                                                parent@,
                                            );
                                            full == (acc.add(rest.0), found || rest.1)
                                        }
                                    }),
                                decreases arr@.len() - j,
                            {
                                assert(arr@.skip(j as int)[0] == arr@[j as int]);
                                assert(arr@.skip(j as int).drop_first() =~= arr@.skip(
                                    j as int + 1,
                                ));
                                let ghost pre = batch@;
                                let fi = self.process_related_item(ids, rc, &arr[j], parent, batch);
                                proof {
                                    let head = related_item(self.ctx(), *rc, arr@[j as int], parent@);
                                    crate::rows::lemma_batch_add_assoc(b0, acc, head.0);
                                    acc = acc.add(head.0);
                                }
                                if fi {
                                    found = true;
                                }
                                if fi && take_first {
                                    stop = true;
                                }
                                j = j + 1;
                            }
                            proof {
                                if !stop {
                                    assert(related_items(
                                        self.ctx(),
                                        *rc,
                                        arr@.skip(j as int),
                                        parent@,
                                    ) == (BatchV::empty(), false));
                                    crate::rows::lemma_batch_add_empty(acc);
                                    assert(related_items(self.ctx(), *rc, arr@, parent@).0 =~= acc);
                                }
                            }
                        },
                        _ => {
                            proof {
                                assert(items.len() == 0);
                                assert(related_items(self.ctx(), *rc, items, parent@) == (
                                    BatchV::empty(),
                                    false,
                                ));
                            }
                        },
                    }
                } else {
                    let fi = self.process_related_item(ids, rc, data, parent, batch);
                    if fi {
                        found = true;
                    }
                    proof {
                        let head = related_item(self.ctx(), *rc, *data, parent@);
                        crate::rows::lemma_batch_add_empty(b0);
                        acc = head.0;
                        assert(items =~= seq![*data]);
                        assert(items.drop_first() =~= Seq::<Json>::empty());
                        assert(related_items(self.ctx(), *rc, items.drop_first(), parent@) == (
                            BatchV::empty(),
                            false,
                        ));
                        crate::rows::lemma_batch_add_empty(head.0);
                        assert(related_items(self.ctx(), *rc, items, parent@).0 =~= head.0);
                        assert(related_items(self.ctx(), *rc, items, parent@).1 == head.1);
                    }
                }
                assert(batch@ == b0.add(acc));
                assert(related_items(self.ctx(), *rc, items, parent@).0 =~= acc);
                assert(related_items(self.ctx(), *rc, items, parent@).1 == found);
                let has_condition = match &rc.filter_condition {
                    Some(_) => true,
                    None => false,
                };
                if !found && has_condition {
                    self.apply_null_default(rc, parent, batch);
                    proof {
                        crate::rows::lemma_batch_add_assoc(
                            b0,
                            acc,
                            null_default(self.ctx(), *rc, parent@),
                        );
                    }
                }
            },
        }
    }

    /// Process all related-value rules of an entity item.
    pub fn process_related_values(
        &self,
        ids: &mut IdMaps,
        node: &Json,
        parent: &String,
        configs: &Vec<RelatedValueConfig>,
        batch: &mut OutputBatch,
    )
        requires
            self.owns(*old(ids)),
        ensures
            self.owns(*final(ids)),
            final(batch)@ == old(batch)@.add(related_all(self.ctx(), *node, configs@, parent@)),
    {
        let ghost b0 = batch@;
        let ghost full = related_all(self.ctx(), *node, configs@, parent@);
        let mut i: usize = 0;
        assert(configs@.skip(0) =~= configs@);
        while i < configs.len()
            invariant
                i <= configs@.len(),
                self.owns(*ids),
                b0.add(full) == batch@.add(
                    related_all(self.ctx(), *node, configs@.skip(i as int), parent@),
                ),
            decreases configs@.len() - i,
        {
            assert(configs@.skip(i as int)[0] == configs@[i as int]);
            assert(configs@.skip(i as int).drop_first() =~= configs@.skip(i as int + 1));
            let ghost pre = batch@;
            self.process_related_one(ids, &configs[i], node, parent, batch);
            proof {
                crate::rows::lemma_batch_add_assoc(
                    pre,
                    related_one(self.ctx(), *node, configs@[i as int], parent@),
                    related_all(self.ctx(), *node, configs@.skip(i as int + 1), parent@),
                );
            }
            i = i + 1;
        }
        proof {
            assert(related_all(self.ctx(), *node, configs@.skip(i as int), parent@)
                == BatchV::empty());
            crate::rows::lemma_batch_add_empty(batch@);
        }
    }

    /// Process the children of an entity item: nested entities, then
    /// related values, both under the parent value in scope.
    fn process_entity_children(
        &self,
        ids: &mut IdMaps,
        cfg: &EntityConfig,
        item: &Json,
        record_id: &String,
        parent_for_children: Option<&String>,
        batch: &mut OutputBatch,
    )
        requires
            self.owns(*old(ids)),
        ensures
            self.owns(*final(ids)),
            final(batch)@ == old(batch)@.add(
                entity_children_model(
                    self.ctx(),
                    *cfg,
                    *item,
                    record_id@,
                    opt_ref_view(parent_for_children),
                ),
            ),
        decreases entity_size(*cfg), 0int, 0int,
    {
        let ghost b0 = batch@;
        match parent_for_children {
            None => {
                proof {
                    crate::rows::lemma_batch_add_empty(b0);
                }
            },
            Some(pid) => {
                let ghost nested_m = match &cfg.nested_entities {
                    Some(v) => entities_model(self.ctx(), *item, v@, record_id@, Some(pid@)),
                    None => BatchV::empty(),
                };
                let ghost related_m = match &cfg.related_values {
                    Some(v) => related_all(self.ctx(), *item, v@, pid@),
                    None => BatchV::empty(),
                };
                match &cfg.nested_entities {
                    Some(nested) => {
                        self.process_json_node(ids, item, record_id, Some(pid), nested, batch);
                    },
                    None => {
                        proof {
                            crate::rows::lemma_batch_add_empty(b0);
                        }
                    },
                }
                match &cfg.related_values {
                    Some(related) => {
                        self.process_related_values(ids, item, pid, related, batch);
                    },
                    None => {
                        proof {
                            crate::rows::lemma_batch_add_empty(batch@);
                        }
                    },
                }
                proof {
                    crate::rows::lemma_batch_add_empty(b0.add(nested_m));
                    crate::rows::lemma_batch_add_empty(b0.add(nested_m).add(related_m));
                    crate::rows::lemma_batch_add_assoc(b0, nested_m, related_m);
                }
            },
        }
    }

    /// Process one item an entity path selected, carrying its 1-based
    /// ordinal.
    fn process_entity_item(
        &self,
        ids: &mut IdMaps,
        cfg: &EntityConfig,
        item: &Json,
        ordinal: usize,
        record_id: &String,
        parent: Option<&String>,
        batch: &mut OutputBatch,
    )
        requires
            self.owns(*old(ids)),
        ensures
            self.owns(*final(ids)),
            final(batch)@ == old(batch)@.add(
                entity_item_model(
                    self.ctx(),
                    *cfg,
                    *item,
                    ordinal as int,
                    record_id@,
                    opt_ref_view(parent),
                ),
            ),
        decreases entity_size(*cfg), 1int, 0int,
    {
        let ghost b0 = batch@;
        match &cfg.value_extraction {
            Some(vc) => {
                let extracted = self.extract_value(item, vc);
                let content = extracted.0;
                let value_type = extracted.1;
                match self.get_or_create_value_id(ids, &content, &value_type, vc.get_null_ref()) {
                    None => {
                        proof {
                            crate::rows::lemma_batch_add_empty(b0);
                        }
                    },
                    Some(resolved) => {
                        let final_content = resolved.0;
                        let value_id = resolved.1;
                        let ghost vr = value_rows(
                            self.ctx(),
                            value_id@,
                            vc.spec_target_type(),
                            final_content@,
                        );
                        self.add_value_rows(&value_id, &value_type, &final_content, batch);
                        let ghost link = match opt_ref_view(parent) {
                            Some(p) => match &cfg.relationship_to_parent {
                                Some(rt) => vv_link(
                                    self.ctx(),
                                    p,
                                    value_id@,
                                    rt@,
                                    Some(ordinal as int),
                                ),
                                None => BatchV::empty(),
                            },
                            None => match &cfg.relationship_to_record {
                                Some(rt) => rv_link(
                                    self.ctx(),
                                    record_id@,
                                    value_id@,
                                    rt@,
                                    ordinal as int,
                                ),
                                None => BatchV::empty(),
                            },
                        };
                        match parent {
                            Some(p) => match &cfg.relationship_to_parent {
                                Some(rt) => {
                                    self.add_value_value_relationship(
                                        p,
                                        &value_id,
                                        rt,
                                        Some(ordinal),
                                        batch,
                                    );
                                },
                                None => {
                                    proof {
                                        crate::rows::lemma_batch_add_empty(batch@);
                                    }
                                },
                            },
                            None => match &cfg.relationship_to_record {
                                Some(rt) => {
                                    self.add_record_value_relationship(
                                        record_id,
                                        &value_id,
                                        rt,
                                        ordinal,
                                        batch,
                                    );
                                },
                                None => {
                                    proof {
                                        crate::rows::lemma_batch_add_empty(batch@);
                                    }
                                },
                            },
                        }
                        assert(batch@ == b0.add(vr).add(link));
                        self.process_entity_children(
                            ids,
                            cfg,
                            item,
                            record_id,
                            Some(&value_id),
                            batch,
                        );
                        proof {
                            let children = entity_children_model(
                                self.ctx(),
                                *cfg,
                                *item,
                                record_id@,
                                Some(value_id@),
                            );
                            crate::rows::lemma_batch_add_assoc(b0.add(vr), link, children);
                            crate::rows::lemma_batch_add_assoc(b0, vr, link.add(children));
                            crate::rows::lemma_batch_add_assoc(vr, link, children);
                        }
                    },
                }
            },
            None => {
                self.process_entity_children(ids, cfg, item, record_id, parent, batch);
            },
        }
    }

    /// Process one entity configuration at one node: its items in
    /// source order when its path resolves, nothing otherwise.
    fn process_entity_config(
        &self,
        ids: &mut IdMaps,
        cfg: &EntityConfig,
        node: &Json,
        record_id: &String,
        parent: Option<&String>,
        batch: &mut OutputBatch,
    )
        requires
            self.owns(*old(ids)),
        ensures
            self.owns(*final(ids)),
            final(batch)@ == old(batch)@.add(
                entity_one_model(self.ctx(), *node, *cfg, record_id@, opt_ref_view(parent)),
            ),
        decreases entity_size(*cfg), 2int, 0int,
    {
        let ghost b0 = batch@;
        match node.at_path(cfg.path.as_str()) {
            None => {
                proof {
                    crate::rows::lemma_batch_add_empty(b0);
                }
            },
            Some(data) => {
                let ghost items = entity_items(*data, cfg.is_array);
                if cfg.is_array {
                    match data {
                        Json::Arr(arr) => {
                            let ghost full = entity_items_model(
                                self.ctx(),
                                *cfg,
                                arr@,
                                0,
                                record_id@,
                                opt_ref_view(parent),
                            );
                            let mut j: usize = 0;
                            assert(arr@.skip(0) =~= arr@);
                            while j < arr.len()
                                invariant
                                    j <= arr@.len(),
                                    self.owns(*ids),
                                    b0.add(full) == batch@.add(
                                        entity_items_model(
                                            self.ctx(),
                                            *cfg,
                                            arr@.skip(j as int),
                                            j as int,
                                            record_id@,
                                            opt_ref_view(parent),
                                        ),
                                    ),
                                decreases arr@.len() - j,
                            {
                                assert(arr@.skip(j as int)[0] == arr@[j as int]);
                                assert(arr@.skip(j as int).drop_first() =~= arr@.skip(
                                    j as int + 1,
                                ));
                                let ghost pre = batch@;
                                self.process_entity_item(
                                    ids,
                                    cfg,
                                    &arr[j],
                                    j + 1,
                                    record_id,
                                    parent,
                                    batch,
                                );
                                proof {
                                    crate::rows::lemma_batch_add_assoc(
                                        pre,
                                        entity_item_model(
                                            self.ctx(),
                                            *cfg,
                                            arr@[j as int],
                                            j as int + 1,
                                            record_id@,
                                            opt_ref_view(parent),
                                        ),
                                        entity_items_model(
                                            self.ctx(),
                                            *cfg,
                                            arr@.skip(j as int + 1),
                                            j as int + 1,
                                            record_id@,
                                            opt_ref_view(parent),
                                        ),
                                    );
                                }
                                j = j + 1;
                            }
                            proof {
                                assert(entity_items_model(
                                    self.ctx(),
                                    *cfg,
                                    arr@.skip(j as int),
                                    j as int,
                                    record_id@,
                                    opt_ref_view(parent),
                                ) == BatchV::empty());
                                crate::rows::lemma_batch_add_empty(batch@);
                            }
                        },
                        _ => {
                            proof {
                                assert(items.len() == 0);
                                assert(entity_items_model(
                                    self.ctx(),
                                    *cfg,
                                    items,
                                    0,
                                    record_id@,
                                    opt_ref_view(parent),
                                ) == BatchV::empty());
                                crate::rows::lemma_batch_add_empty(b0);
                            }
                        },
                    }
                } else {
                    self.process_entity_item(ids, cfg, data, 1, record_id, parent, batch);
                    proof {
                        assert(items =~= seq![*data]);
                        assert(items.drop_first() =~= Seq::<Json>::empty());
                        assert(entity_items_model(
                            self.ctx(),
                            *cfg,
                            items.drop_first(),
                            1,
                            record_id@,
                            opt_ref_view(parent),
                        ) == BatchV::empty());
                        let head = entity_item_model(
                            self.ctx(),
                            *cfg,
                            *data,
                            1,
                            record_id@,
                            opt_ref_view(parent),
                        );
                        crate::rows::lemma_batch_add_empty(head);
                        assert(entity_items_model(
                            self.ctx(),
                            *cfg,
                            items,
                            0,
                            record_id@,
                            opt_ref_view(parent),
                        ) =~= head);
                    }
                }
            },
        }
    }

    /// Process a list of entity configurations at one node.
    pub fn process_json_node(
        &self,
        ids: &mut IdMaps,
        node: &Json,
        record_id: &String,
        parent: Option<&String>,
        configs: &Vec<EntityConfig>,
        batch: &mut OutputBatch,
    )
        requires
            self.owns(*old(ids)),
        ensures
            self.owns(*final(ids)),
            final(batch)@ == old(batch)@.add(
                entities_model(self.ctx(), *node, configs@, record_id@, opt_ref_view(parent)),
            ),
        decreases entities_size(configs@), 0int, 0int,
    {
        let ghost b0 = batch@;
        let ghost full = entities_model(
            self.ctx(),
            *node,
            configs@,
            record_id@,
            opt_ref_view(parent),
        );
        let mut i: usize = 0;
        assert(configs@.skip(0) =~= configs@);
        while i < configs.len()
            invariant
                i <= configs@.len(),
                self.owns(*ids),
                b0.add(full) == batch@.add(
                    entities_model(
                        self.ctx(),
                        *node,
                        configs@.skip(i as int),
                        record_id@,
                        opt_ref_view(parent),
                    ),
                ),
            decreases configs@.len() - i,
        {
            assert(configs@.skip(i as int)[0] == configs@[i as int]);
            assert(configs@.skip(i as int).drop_first() =~= configs@.skip(i as int + 1));
            let ghost pre = batch@;
            proof {
                lemma_entity_size_lt(configs@, i as int);
            }
            self.process_entity_config(ids, &configs[i], node, record_id, parent, batch);
            proof {
                crate::rows::lemma_batch_add_assoc(
                    pre,
                    entity_one_model(
                        self.ctx(),
                        *node,
                        configs@[i as int],
                        record_id@,
                        opt_ref_view(parent),
                    ),
                    entities_model(
                        self.ctx(),
                        *node,
                        configs@.skip(i as int + 1),
                        record_id@,
                        opt_ref_view(parent),
                    ),
                );
            }
            i = i + 1;
        }
        proof {
            assert(entities_model(
                self.ctx(),
                *node,
                configs@.skip(i as int),
                record_id@,
                opt_ref_view(parent),
            ) == BatchV::empty());
            crate::rows::lemma_batch_add_empty(batch@);
        }
    }

    /// The string one task filter resolves for a record.
    fn resolve_filter_value(&self, fc: &FilterConfig, key: &String, record: &Json) -> (r: Option<
        String,
    >)
        ensures
            opt_string_view(r) == filter_resolved(self.profile, *fc, key@, *record),
    {
        match record.at_path(fc.path.as_str()) {
            Some(v) => match v {
                Json::Str(s) => Some(s.clone()),
                Json::Num(t) => Some(t.clone()),
                Json::Bool(b) => Some(
                    if *b {
                        "true".to_owned()
                    } else {
                        "false".to_owned()
                    },
                ),
                Json::Null => Some("null".to_owned()),
                _ => self.resolve_filter_fallback(fc, key, record),
            },
            None => self.resolve_filter_fallback(fc, key, record),
        }
    }

    /// The DOI-prefix fallback of a task filter.
    fn resolve_filter_fallback(&self, fc: &FilterConfig, key: &String, record: &Json) -> (r: Option<
        String,
    >)
        ensures
            opt_string_view(r) == filter_fallback(self.profile, *fc, key@, *record),
    {
        match &fc.fallback_from {
            Some(fb) => match record.at_path(fb.as_str()) {
                Some(v) => match v {
                    Json::Str(s) => {
                        let is_doi_prefix = key.eq(&"doi_prefix".to_owned());
                        if fb.eq(&self.profile.record_identifier.path) && is_doi_prefix {
                            crate::text::doi_prefix_string(s.as_str())
                        } else {
                            None
                        }
                    },
                    _ => None,
                },
                None => None,
            },
            None => None,
        }
    }

    /// Whether the active task filters reject a record before
    /// extraction.
    pub fn should_filter_out(&self, record: &Json) -> (r: bool)
        ensures
            r == filtered_out(self.profile, self.active_filters@, *record),
    {
        let ghost active = self.active_filters@;
        let mut i: usize = 0;
        assert(active.skip(0) =~= active);
        while i < self.active_filters.len()
            invariant
                i <= active.len(),
                filtered_out(self.profile, active, *record) == filtered_out(
                    self.profile,
                    active.skip(i as int),
                    *record,
                ),
            decreases active.len() - i,
        {
            assert(active.skip(i as int)[0] == active[i as int]);
            assert(active.skip(i as int).drop_first() =~= active.skip(i as int + 1));
            let key = &self.active_filters[i].0;
            let required = &self.active_filters[i].1;
            match self.profile.find_filter_config(key) {
                None => {},
                Some(fc) => {
                    match self.resolve_filter_value(fc, key, record) {
                        Some(v) => {
                            if !v.eq(required) {
                                return true;
                            }
                        },
                        None => {
                            return true;
                        },
                    }
                },
            }
            i = i + 1;
        }
        false
    }

    /// The trimmed, non-empty primary identifier of a record, if any.
    fn get_primary_id(&self, record: &Json) -> (r: Option<String>)
        ensures
            opt_string_view(r) == primary_id_of(self.profile, *record),
    {
        match record.at_path(self.profile.record_identifier.path.as_str()) {
            Some(v) => match v {
                Json::Str(s) => {
                    let t = trim_string(s.as_str());
                    if t.as_str().is_empty() {
                        None
                    } else {
                        Some(t)
                    }
                },
                _ => None,
            },
            None => None,
        }
    }

    /// Process one record: apply the task filters, read the primary
    /// identifier, emit the record's rows and run the entity tree.  The
    /// batch grows by exactly the record's model rows, and the outcome
    /// says why a record contributed nothing.
    pub fn process_record(&self, ids: &mut IdMaps, record: &Json, batch: &mut OutputBatch) -> (r:
        RecordOutcome)
        requires
            self.owns(*old(ids)),
        ensures
            self.owns(*final(ids)),
            final(batch)@ == old(batch)@.add(
                record_model(self.ctx(), self.profile, self.active_filters@, *record),
            ),
            r == record_outcome(self.profile, self.active_filters@, *record),
    {
        let ghost b0 = batch@;
        if self.should_filter_out(record) {
            proof {
                crate::rows::lemma_batch_add_empty(b0);
            }
            return RecordOutcome::FilteredOut;
        }
        let primary = match self.get_primary_id(record) {
            Some(p) => p,
            None => {
                proof {
                    crate::rows::lemma_batch_add_empty(b0);
                }
                return RecordOutcome::MissingIdentifier;
            },
        };
        let record_id = ids.record_id(&primary);
        self.add_record_rows(&record_id, &primary, batch);
        self.process_json_node(ids, record, &record_id, None, &self.profile.entities, batch);
        proof {
            crate::rows::lemma_batch_add_assoc(
                b0,
                record_rows(self.ctx(), record_id@, primary@),
                entities_model(self.ctx(), *record, self.profile.entities@, record_id@, None),
            );
        }
        RecordOutcome::Processed
    }
}

} // verus!
