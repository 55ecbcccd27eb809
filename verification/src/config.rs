//! Typed in-memory form of a declarative extraction profile.
//!
//! A profile names the source and process it stands for, the path of the
//! record identifier, the prefixes of the deterministic identity scheme,
//! a table of named null values, optional filter definitions, and a tree
//! of entity extraction rules.

use vstd::prelude::*;

verus! {

#[derive(Clone)]
pub struct SourceInfo {
    pub source_id: String,
    pub source_name: Option<String>,
    pub source_description: Option<String>,
}

#[derive(Clone)]
pub struct ProcessInfo {
    pub process_id: String,
    pub process_name: Option<String>,
    pub process_description: Option<String>,
}

#[derive(Clone)]
pub struct RecordIdentifierConfig {
    pub path: String,
    pub required: bool,
}

#[derive(Clone)]
pub struct DeterministicIdConfig {
    pub record_prefix: String,
    pub value_prefix: String,
    /// Informational label for the hashing scheme; the identity service
    /// always hashes with SHA-256.
    pub value_format: String,
}

#[derive(Clone)]
pub struct NullValueConfig {
    pub value_type: String,
    pub content: String,
}

#[derive(Clone)]
pub struct FilterConfig {
    pub cli_arg: String,
    pub path: String,
    pub fallback_from: Option<String>,
}

/// How one entity or related value computes its content.
#[derive(Clone)]
pub enum ValueExtractionConfig {
    Field { field: String, target_value_type: String, use_null: Option<String> },
    CombineFields {
        fields: Vec<String>,
        separator: String,
        target_value_type: String,
        use_null: Option<String>,
    },
}

impl ValueExtractionConfig {
    /// The null key to fall back on when extraction yields no content.
    pub fn get_null_ref(&self) -> (r: Option<&String>)
        ensures
            match r {
                Some(k) => self.spec_null_key() == Some(k@),
                None => self.spec_null_key() is None,
            },
    {
        match self {
            ValueExtractionConfig::Field { use_null, .. } => use_null.as_ref(),
            ValueExtractionConfig::CombineFields { use_null, .. } => use_null.as_ref(),
        }
    }

    pub open spec fn spec_null_key(&self) -> Option<Seq<char>> {
        match self {
            ValueExtractionConfig::Field { use_null, .. } => match use_null {
                Some(k) => Some(k@),
                None => None,
            },
            ValueExtractionConfig::CombineFields { use_null, .. } => match use_null {
                Some(k) => Some(k@),
                None => None,
            },
        }
    }

    pub open spec fn spec_target_type(&self) -> Seq<char> {
        match self {
            ValueExtractionConfig::Field { target_value_type, .. } => target_value_type@,
            ValueExtractionConfig::CombineFields { target_value_type, .. } => target_value_type@,
        }
    }
}

#[derive(Clone)]
pub struct FilterConditionConfig {
    pub field: String,
    pub equals: String,
    pub case_insensitive: Option<bool>,
}

/// Lookup-style attribute attached to a parent value, typically matched
/// against a sibling array with a filter condition.
#[derive(Clone)]
pub struct RelatedValueConfig {
    pub name: String,
    pub path: String,
    pub is_array: bool,
    pub filter_condition: Option<FilterConditionConfig>,
    pub extract_value: ValueExtractionConfig,
    pub relationship_to_parent: String,
    pub take_first_match: Option<bool>,
}

/// One node of the entity extraction tree.
pub struct EntityConfig {
    pub name: String,
    pub path: String,
    pub is_array: bool,
    pub relationship_to_record: Option<String>,
    pub relationship_to_parent: Option<String>,
    pub value_extraction: Option<ValueExtractionConfig>,
    pub nested_entities: Option<Vec<EntityConfig>>,
    pub related_values: Option<Vec<RelatedValueConfig>>,
}

/// A complete profile.  The null-value table is an association list keyed
/// by null name; lookups take the first entry with a matching key.
pub struct Profile {
    pub profile_description: String,
    pub source_info: SourceInfo,
    pub process_info: ProcessInfo,
    pub record_identifier: RecordIdentifierConfig,
    pub deterministic_ids: DeterministicIdConfig,
    pub null_values: Vec<(String, NullValueConfig)>,
    pub filters: Option<Vec<FilterConfig>>,
    pub entities: Vec<EntityConfig>,
}

/// First null-value entry with key `key`, if any.
pub open spec fn null_value_lookup(
    entries: Seq<(String, NullValueConfig)>,
    key: Seq<char>,
) -> Option<NullValueConfig>
    decreases entries.len(),
{
    if entries.len() == 0 {
        None
    } else if entries[0].0@ == key {
        Some(entries[0].1)
    } else {
        null_value_lookup(entries.drop_first(), key)
    }
}

/// First filter definition whose CLI argument name is `key`, if any.
pub open spec fn filter_config_lookup(
    filters: Option<Vec<FilterConfig>>,
    key: Seq<char>,
) -> Option<FilterConfig> {
    match filters {
        None => None,
        Some(fs) => filter_config_seq_lookup(fs@, key),
    }
}

pub open spec fn filter_config_seq_lookup(
    filters: Seq<FilterConfig>,
    key: Seq<char>,
) -> Option<FilterConfig>
    decreases filters.len(),
{
    if filters.len() == 0 {
        None
    } else if filters[0].cli_arg@ == key {
        Some(filters[0])
    } else {
        filter_config_seq_lookup(filters.drop_first(), key)
    }
}

/// The task filters a profile accepts: pairs whose key names one of the
/// profile's filter definitions, in task order; unknown keys are
/// dropped.
pub open spec fn resolved_filters_model(
    filters: Option<Vec<FilterConfig>>,
    task: Seq<(String, String)>,
) -> Seq<(String, String)>
    decreases task.len(),
{
    if task.len() == 0 {
        Seq::empty()
    } else {
        let rest = resolved_filters_model(filters, task.drop_first());
        if filter_config_lookup(filters, task[0].0@) is Some {
            seq![task[0]] + rest
        } else {
            rest
        }
    }
}

fn find_filter_in<'a>(filters: &'a Option<Vec<FilterConfig>>, key: &String) -> (r: Option<
    &'a FilterConfig,
>)
    ensures
        match r {
            Some(c) => filter_config_lookup(*filters, key@) == Some(*c),
            None => filter_config_lookup(*filters, key@) is None,
        },
{
    match filters {
        None => None,
        Some(fs) => {
            let mut i: usize = 0;
            assert(fs@.skip(0) =~= fs@);
            while i < fs.len()
                invariant
                    i <= fs@.len(),
                    filter_config_seq_lookup(fs@, key@) == filter_config_seq_lookup(
                        fs@.skip(i as int),
                        key@,
                    ),
                decreases fs@.len() - i,
            {
                assert(fs@.skip(i as int)[0] == fs@[i as int]);
                if fs[i].cli_arg.eq(key) {
                    return Some(&fs[i]);
                }
                assert(fs@.skip(i as int).drop_first() =~= fs@.skip(i as int + 1));
                i = i + 1;
            }
            None
        },
    }
}

/// Keep the task filters the profile defines, dropping unknown keys.
pub fn resolve_task_filters(
    profile_filters: &Option<Vec<FilterConfig>>,
    task_filters: &Vec<(String, String)>,
) -> (r: Vec<(String, String)>)
    ensures
        r@ == resolved_filters_model(*profile_filters, task_filters@),
{
    let ghost full = resolved_filters_model(*profile_filters, task_filters@);
    let mut r: Vec<(String, String)> = Vec::new();
    let mut i: usize = 0;
    assert(task_filters@.skip(0) =~= task_filters@);
    assert(r@ =~= Seq::<(String, String)>::empty());
    while i < task_filters.len()
        invariant
            i <= task_filters@.len(),
            full == r@ + resolved_filters_model(*profile_filters, task_filters@.skip(i as int)),
        decreases task_filters@.len() - i,
    {
        assert(task_filters@.skip(i as int)[0] == task_filters@[i as int]);
        assert(task_filters@.skip(i as int).drop_first() =~= task_filters@.skip(i as int + 1));
        match find_filter_in(profile_filters, &task_filters[i].0) {
            Some(_) => {
                let ghost pre = r@;
                r.push((task_filters[i].0.clone(), task_filters[i].1.clone()));
                proof {
                    assert(r@ =~= pre.push(task_filters@[i as int]));
                    assert(pre + (seq![task_filters@[i as int]] + resolved_filters_model(
                        *profile_filters,
                        task_filters@.skip(i as int + 1),
                    )) =~= pre.push(task_filters@[i as int]) + resolved_filters_model(
                        *profile_filters,
                        task_filters@.skip(i as int + 1),
                    ));
                }
            },
            None => {},
        }
        i = i + 1;
    }
    assert(resolved_filters_model(*profile_filters, task_filters@.skip(i as int))
        =~= Seq::<(String, String)>::empty());
    assert(full =~= r@);
    r
}

impl Profile {
    /// First null-value entry for `key`, as configured in this profile.
    pub fn find_null_value(&self, key: &String) -> (r: Option<&NullValueConfig>)
        ensures
            match r {
                Some(c) => null_value_lookup(self.null_values@, key@) == Some(*c),
                None => null_value_lookup(self.null_values@, key@) is None,
            },
    {
        let mut i: usize = 0;
        assert(self.null_values@.skip(0) =~= self.null_values@);
        while i < self.null_values.len()
            invariant
                i <= self.null_values@.len(),
                null_value_lookup(self.null_values@, key@) == null_value_lookup(
                    self.null_values@.skip(i as int),
                    key@,
                ),
            decreases self.null_values@.len() - i,
        {
            assert(self.null_values@.skip(i as int)[0] == self.null_values@[i as int]);
            if self.null_values[i].0.eq(key) {
                return Some(&self.null_values[i].1);
            }
            assert(self.null_values@.skip(i as int).drop_first()
                =~= self.null_values@.skip(i as int + 1));
            i = i + 1;
        }
        None
    }

    /// First filter definition for CLI argument `key`.
    pub fn find_filter_config(&self, key: &String) -> (r: Option<&FilterConfig>)
        ensures
            match r {
                Some(c) => filter_config_lookup(self.filters, key@) == Some(*c),
                None => filter_config_lookup(self.filters, key@) is None,
            },
    {
        match &self.filters {
            None => None,
            Some(fs) => {
                let mut i: usize = 0;
                assert(fs@.skip(0) =~= fs@);
                while i < fs.len()
                    invariant
                        i <= fs@.len(),
                        filter_config_seq_lookup(fs@, key@) == filter_config_seq_lookup(
                            fs@.skip(i as int),
                            key@,
                        ),
                    decreases fs@.len() - i,
                {
                    assert(fs@.skip(i as int)[0] == fs@[i as int]);
                    if fs[i].cli_arg.eq(key) {
                        return Some(&fs[i]);
                    }
                    assert(fs@.skip(i as int).drop_first() =~= fs@.skip(
                        i as int + 1,
                    ));
                    i = i + 1;
                }
                None
            },
        }
    }
}

} // verus!
