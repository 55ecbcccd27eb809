//! The null-value registry.
//!
//! Before any file is processed, every named null value declared in any
//! profile of the run gets a precomputed identifier.  Profiles may share
//! a null key only when they agree on its `(value_type, content)`;
//! disagreement is a fatal configuration error.  The first profile to
//! define a key supplies the value prefix its identifier is minted under.

use vstd::prelude::*;
use crate::config::NullValueConfig;
use crate::config::Profile;
use crate::identity::deterministic_id;
use crate::identity::value_id_of;
use vstd::string::StringExecFns;

verus! {

/// One precomputed null value: its key, its identifier, and the
/// configuration it was defined with.
#[derive(Clone, Debug)]
pub struct NullEntry {
    pub key: String,
    pub value_id: String,
    pub value_type: String,
    pub content: String,
}

#[verifier::ext_equal]
pub ghost struct NullEntryV {
    pub key: Seq<char>,
    pub value_id: Seq<char>,
    pub value_type: Seq<char>,
    pub content: Seq<char>,
}

impl View for NullEntry {
    type V = NullEntryV;

    open spec fn view(&self) -> NullEntryV {
        NullEntryV {
            key: self.key@,
            value_id: self.value_id@,
            value_type: self.value_type@,
            content: self.content@,
        }
    }
}

/// Inconsistent null-value configuration: two profiles define `key`
/// with different `(value_type, content)`.
#[derive(Debug)]
pub struct NullConfigError {
    pub key: String,
    pub existing_value_type: String,
    pub existing_content: String,
    pub value_type: String,
    pub content: String,
}

#[verifier::ext_equal]
pub ghost struct NullConfigErrorV {
    pub key: Seq<char>,
    pub existing_value_type: Seq<char>,
    pub existing_content: Seq<char>,
    pub value_type: Seq<char>,
    pub content: Seq<char>,
}

impl View for NullConfigError {
    type V = NullConfigErrorV;

    open spec fn view(&self) -> NullConfigErrorV {
        NullConfigErrorV {
            key: self.key@,
            existing_value_type: self.existing_value_type@,
            existing_content: self.existing_content@,
            value_type: self.value_type@,
            content: self.content@,
        }
    }
}

/// First registry entry with key `key`, if any.
pub open spec fn registry_lookup(entries: Seq<NullEntryV>, key: Seq<char>) -> Option<NullEntryV>
    decreases entries.len(),
{
    if entries.len() == 0 {
        None
    } else if entries[0].key == key {
        Some(entries[0])
    } else {
        registry_lookup(entries.drop_first(), key)
    }
}

/// A successful lookup returns one of the entries.
pub proof fn lemma_registry_lookup_in(entries: Seq<NullEntryV>, key: Seq<char>)
    ensures
        match registry_lookup(entries, key) {
            Some(e) => exists|j: int| 0 <= j < entries.len() && #[trigger] entries[j] == e,
            None => true,
        },
    decreases entries.len(),
{
    if entries.len() > 0 {
        if entries[0].key == key {
            assert(entries[0] == registry_lookup(entries, key)->0);
        } else {
            lemma_registry_lookup_in(entries.drop_first(), key);
            match registry_lookup(entries.drop_first(), key) {
                Some(e) => {
                    let j = choose|j: int|
                        0 <= j < entries.drop_first().len() && #[trigger] entries.drop_first()[j]
                            == e;
                    assert(entries[j + 1] == entries.drop_first()[j]);
                },
                None => {},
            }
        }
    }
}

/// Folding one profile's null-value table into the registry built so
/// far: a fresh key is minted an identifier under this profile's value
/// prefix; a known key must agree with its earlier definition.
pub open spec fn fold_profile_nulls(
    acc: Seq<NullEntryV>,
    value_prefix: Seq<char>,
    entries: Seq<(String, NullValueConfig)>,
) -> Result<Seq<NullEntryV>, NullConfigErrorV>
    decreases entries.len(),
{
    if entries.len() == 0 {
        Ok(acc)
    } else {
        let key = entries[0].0@;
        let cfg = entries[0].1;
        match registry_lookup(acc, key) {
            Some(e) => {
                if e.value_type == cfg.value_type@ && e.content == cfg.content@ {
                    fold_profile_nulls(acc, value_prefix, entries.drop_first())
                } else {
                    Err(
                        NullConfigErrorV {
                            key: key,
                            existing_value_type: e.value_type,
                            existing_content: e.content,
                            value_type: cfg.value_type@,
                            content: cfg.content@,
                        },
                    )
                }
            },
            None => fold_profile_nulls(
                acc.push(
                    NullEntryV {
                        key: key,
                        value_id: value_id_of(value_prefix, cfg.value_type@, cfg.content@),
                        value_type: cfg.value_type@,
                        content: cfg.content@,
                    },
                ),
                value_prefix,
                entries.drop_first(),
            ),
        }
    }
}

/// Folding a sequence of profiles into a registry, in order.
pub open spec fn fold_profiles(acc: Seq<NullEntryV>, profiles: Seq<Profile>) -> Result<
    Seq<NullEntryV>,
    NullConfigErrorV,
>
    decreases profiles.len(),
{
    if profiles.len() == 0 {
        Ok(acc)
    } else {
        match fold_profile_nulls(
            acc,
            profiles[0].deterministic_ids.value_prefix@,
            profiles[0].null_values@,
        ) {
            Ok(acc2) => fold_profiles(acc2, profiles.drop_first()),
            Err(e) => Err(e),
        }
    }
}

/// What precomputation returns for a run's profiles.
pub open spec fn registry_model(profiles: Seq<Profile>) -> Result<Seq<NullEntryV>, NullConfigErrorV> {
    fold_profiles(Seq::empty(), profiles)
}

/// The precomputed null values of a run, in definition order.
#[derive(Clone, Debug)]
pub struct NullRegistry {
    pub entries: Vec<NullEntry>,
}

impl View for NullRegistry {
    type V = Seq<NullEntryV>;

    open spec fn view(&self) -> Seq<NullEntryV> {
        self.entries@.map_values(|e: NullEntry| e@)
    }
}

impl NullRegistry {
    /// First entry for `key`, if any.
    pub fn find(&self, key: &String) -> (r: Option<&NullEntry>)
        ensures
            match r {
                Some(e) => registry_lookup(self@, key@) == Some(e@),
                None => registry_lookup(self@, key@) is None,
            },
    {
        let mut i: usize = 0;
        assert(self@.skip(0) =~= self@);
        while i < self.entries.len()
            invariant
                i <= self@.len(),
                registry_lookup(self@, key@) == registry_lookup(self@.skip(i as int), key@),
            decreases self@.len() - i,
        {
            assert(self@.skip(i as int)[0] == self@[i as int]);
            if self.entries[i].key.eq(key) {
                return Some(&self.entries[i]);
            }
            assert(self@.skip(i as int).drop_first() =~= self@.skip(i as int + 1));
            i = i + 1;
        }
        None
    }
}

/// Build the registry for all profiles of a run, failing on the first
/// key defined inconsistently across profiles.
pub fn precompute_null_value_ids(profiles: &Vec<Profile>) -> (r: Result<
    NullRegistry,
    NullConfigError,
>)
    ensures
        match r {
            Ok(reg) => registry_model(profiles@) == Ok::<_, NullConfigErrorV>(reg@),
            Err(e) => registry_model(profiles@) == Err::<Seq<NullEntryV>, _>(e@),
        },
{
    let mut reg = NullRegistry { entries: Vec::new() };
    assert(reg@ =~= Seq::<NullEntryV>::empty());
    assert(profiles@.skip(0) =~= profiles@);
    let mut i: usize = 0;
    while i < profiles.len()
        invariant
            i <= profiles@.len(),
            registry_model(profiles@) == fold_profiles(reg@, profiles@.skip(i as int)),
        decreases profiles@.len() - i,
    {
        assert(profiles@.skip(i as int)[0] == profiles@[i as int]);
        assert(profiles@.skip(i as int).drop_first() =~= profiles@.skip(i as int + 1));
        let profile = &profiles[i];
        let ghost entries_full = profile.null_values@;
        assert(entries_full.skip(0) =~= entries_full);
        let mut j: usize = 0;
        while j < profile.null_values.len()
            invariant
                j <= entries_full.len(),
                entries_full == profile.null_values@,
                *profile == profiles@[i as int],
                i < profiles@.len(),
                registry_model(profiles@) == match fold_profile_nulls(
                    reg@,
                    profile.deterministic_ids.value_prefix@,
                    entries_full.skip(j as int),
                ) {
                    Ok(acc2) => fold_profiles(acc2, profiles@.skip(i as int + 1)),
                    Err(e) => Err(e),
                },
            decreases entries_full.len() - j,
        {
            assert(entries_full.skip(j as int)[0] == entries_full[j as int]);
            let key = &profile.null_values[j].0;
            let cfg = &profile.null_values[j].1;
            match reg.find(key) {
                Some(e) => {
                    let consistent = e.value_type.eq(&cfg.value_type) && e.content.eq(
                        &cfg.content,
                    );
                    if !consistent {
                        return Err(
                            NullConfigError {
                                key: key.clone(),
                                existing_value_type: e.value_type.clone(),
                                existing_content: e.content.clone(),
                                value_type: cfg.value_type.clone(),
                                content: cfg.content.clone(),
                            },
                        );
                    }
                },
                None => {
                    let mut hash_content = cfg.value_type.clone();
                    hash_content.append(":");
                    hash_content.append(cfg.content.as_str());
                    let value_id = deterministic_id(
                        profile.deterministic_ids.value_prefix.as_str(),
                        hash_content.as_str(),
                    );
                    let ghost prev = reg@;
                    reg.entries.push(
                        NullEntry {
                            key: key.clone(),
                            value_id,
                            value_type: cfg.value_type.clone(),
                            content: cfg.content.clone(),
                        },
                    );
                    assert(reg@ =~= prev.push(
                        NullEntryV {
                            key: key@,
                            value_id: value_id_of(
                                profile.deterministic_ids.value_prefix@,
                                cfg.value_type@,
                                cfg.content@,
                            ),
                            value_type: cfg.value_type@,
                            content: cfg.content@,
                        },
                    ));
                },
            }
            assert(entries_full.skip(j as int).drop_first() =~= entries_full.skip(j as int + 1));
            j = j + 1;
        }
        assert(profiles@.skip(i as int).drop_first() =~= profiles@.skip(i as int + 1));
        i = i + 1;
    }
    Ok(reg)
}

} // verus!
