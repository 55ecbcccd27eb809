//! Deterministic identifiers.
//!
//! A record or value identifier is `{prefix}-sha256-{hex}` where `hex` is
//! the lowercase hexadecimal SHA-256 digest of the identifying content,
//! hashed byte-for-byte as UTF-8.  Because the scheme is a pure function
//! of `(prefix, content)`, every thread and every run derives the same
//! identifier for the same logical key.

use vstd::prelude::*;
use vstd::string::StringExecFns;
use sha2::Digest;
use dashmap::DashMap;
use std::collections::hash_map::RandomState;
use crate::sync::rid_map_contents;
use crate::sync::rid_map_get;
use crate::sync::rid_map_insert;
use crate::sync::rid_map_new;
use crate::sync::vid_map_contents;
use crate::sync::vid_map_get;
use crate::sync::vid_map_insert;
use crate::sync::vid_map_new;

verus! {

/// SHA-256 digest of the UTF-8 encoding of `s`.  Both the encoding and
/// the digest depend on the characters alone.
pub uninterp spec fn sha256_of(s: Seq<char>) -> Seq<u8>;

/// Relies on sha2's `Sha256` (SHA-2, FIPS 180-4): the digest is a pure
/// function of the input bytes and is exactly 32 bytes long.  The input
/// here is the UTF-8 encoding of `s`, itself a pure function of the
/// characters of `s`.
#[verifier::external_body]
fn sha256_utf8(s: &str) -> (r: Vec<u8>)
    ensures
        r@ == sha256_of(s@),
        r@.len() == 32,
{
    let mut hasher = sha2::Sha256::new();
    hasher.update(s.as_bytes());
    hasher.finalize().to_vec()
}

/// Lowercase hexadecimal digit for a nibble value.
pub open spec fn hex_digit(n: int) -> char {
    if n == 0 {
        '0'
    } else if n == 1 {
        '1'
    } else if n == 2 {
        '2'
    } else if n == 3 {
        '3'
    } else if n == 4 {
        '4'
    } else if n == 5 {
        '5'
    } else if n == 6 {
        '6'
    } else if n == 7 {
        '7'
    } else if n == 8 {
        '8'
    } else if n == 9 {
        '9'
    } else if n == 10 {
        'a'
    } else if n == 11 {
        'b'
    } else if n == 12 {
        'c'
    } else if n == 13 {
        'd'
    } else if n == 14 {
        'e'
    } else {
        'f'
    }
}

/// Hex rendering of `data[i..]`: two digits per byte, high nibble first.
pub open spec fn hex_from(data: Seq<u8>, i: int) -> Seq<char>
    decreases data.len() - i,
{
    if i < 0 || i >= data.len() {
        Seq::empty()
    } else {
        seq![hex_digit(data[i] as int / 16), hex_digit(data[i] as int % 16)] + hex_from(
            data,
            i + 1,
        )
    }
}

/// Lowercase hex string of a byte sequence.
pub open spec fn hex_str(data: Seq<u8>) -> Seq<char> {
    hex_from(data, 0)
}

pub proof fn lemma_hex_from_len(data: Seq<u8>, i: int)
    requires
        0 <= i <= data.len(),
    ensures
        hex_from(data, i).len() == 2 * (data.len() - i),
    decreases data.len() - i,
{
    if i < data.len() {
        lemma_hex_from_len(data, i + 1);
    }
}

/// Relies on hex::encode: lowercase hexadecimal, two digits per byte,
/// high nibble first.
#[verifier::external_body]
fn hex_encode(data: &[u8]) -> (r: String)
    ensures
        r@ == hex_str(data@),
{
    hex::encode(data)
}

/// The deterministic identifier `{prefix}-sha256-{hex(sha256(content))}`.
pub open spec fn det_id(prefix: Seq<char>, content: Seq<char>) -> Seq<char> {
    prefix + "-sha256-"@ + hex_str(sha256_of(content))
}

/// Every identifier ends in a tail of fixed length: the infix plus 64 hex
/// digits (the digest being 32 bytes, as the hashing wrapper ensures).
pub proof fn lemma_det_id_len(prefix: Seq<char>, content: Seq<char>)
    requires
        sha256_of(content).len() == 32,
    ensures
        det_id(prefix, content).len() == prefix.len() + 72,
{
    reveal_strlit("-sha256-");
    lemma_hex_from_len(sha256_of(content), 0);
}

pub fn deterministic_id(prefix: &str, content: &str) -> (r: String)
    ensures
        r@ == det_id(prefix@, content@),
        sha256_of(content@).len() == 32,
{
    let digest = sha256_utf8(content);
    let hex = hex_encode(digest.as_slice());
    let mut r = prefix.to_owned();
    r.append("-sha256-");
    r.append(hex.as_str());
    r
}

/// Identity purity: the identifier is a pure function of the prefix and
/// the content, so any two derivations of an identifier for the same
/// logical key — on any thread, in any run — agree.
pub proof fn lemma_id_deterministic(prefix: Seq<char>, content: Seq<char>, a: Seq<char>, b: Seq<char>)
    requires
        a == det_id(prefix, content),
        b == det_id(prefix, content),
    ensures
        a == b,
{
}

/// Identifiers minted under distinct prefixes never collide, whatever the
/// contents: the hashed tail has a fixed length, so the prefix is
/// recoverable from the identifier.
pub proof fn lemma_distinct_prefixes_distinct_ids(
    p1: Seq<char>,
    c1: Seq<char>,
    p2: Seq<char>,
    c2: Seq<char>,
)
    requires
        p1 != p2,
        sha256_of(c1).len() == 32,
        sha256_of(c2).len() == 32,
    ensures
        det_id(p1, c1) != det_id(p2, c2),
{
    lemma_det_id_len(p1, c1);
    lemma_det_id_len(p2, c2);
    if p1.len() == p2.len() {
        assert(!(p1 =~= p2));
        let i = choose|i: int| !(0 <= i < p1.len() ==> p1[i] == p2[i]);
        assert(det_id(p1, c1)[i] == p1[i]);
        assert(det_id(p2, c2)[i] == p2[i]);
    }
}

/// The record identifier for a primary identifier value.
pub open spec fn record_id_of(record_prefix: Seq<char>, primary: Seq<char>) -> Seq<char> {
    det_id(record_prefix, primary)
}

/// The content a value identifier hashes: `{value_type}:{content}`.
pub open spec fn value_key(value_type: Seq<char>, content: Seq<char>) -> Seq<char> {
    value_type + ":"@ + content
}

/// The value identifier for a `(value_type, content)` pair.
pub open spec fn value_id_of(
    value_prefix: Seq<char>,
    value_type: Seq<char>,
    content: Seq<char>,
) -> Seq<char> {
    det_id(value_prefix, value_key(value_type, content))
}

/// Cross-profile value identity: profiles sharing a value prefix mint
/// the same identifier for the same `(value_type, content)`; profiles
/// with different value prefixes never mint the same identifier for it.
/// A value observed under two profiles therefore deduplicates to one
/// row exactly when the profiles share a value prefix.
pub proof fn lemma_value_id_prefixes(p1: Seq<char>, p2: Seq<char>, vt: Seq<char>, c: Seq<char>)
    requires
        sha256_of(value_key(vt, c)).len() == 32,
    ensures
        (value_id_of(p1, vt, c) == value_id_of(p2, vt, c)) <==> p1 == p2,
{
    if p1 != p2 {
        lemma_distinct_prefixes_distinct_ids(p1, value_key(vt, c), p2, value_key(vt, c));
    }
}

/// Thread-safe interning maps for record and value identifiers.
///
/// Interning only caches what `deterministic_id` would compute, so a hit
/// and a miss return the same identifier; the maps exist to avoid
/// recomputing hashes.  The well-formedness invariant says exactly that:
/// every cached entry equals the identifier recomputed from its key.
pub struct IdMaps {
    pub record_prefix: String,
    pub value_prefix: String,
    pub record_ids: DashMap<String, String, RandomState>,
    pub value_ids: DashMap<(String, String), String, RandomState>,
}

impl IdMaps {
    pub closed spec fn wf(self) -> bool {
        &&& (forall|k: Seq<char>|
            rid_map_contents(self.record_ids).contains_key(k)
                ==> #[trigger] rid_map_contents(self.record_ids)[k] == record_id_of(
                self.record_prefix@,
                k,
            ))
        &&& (forall|k: (Seq<char>, Seq<char>)|
            vid_map_contents(self.value_ids).contains_key(k)
                ==> #[trigger] vid_map_contents(self.value_ids)[k] == value_id_of(
                self.value_prefix@,
                k.0,
                k.1,
            ))
    }

    pub fn new(record_prefix: String, value_prefix: String) -> (r: IdMaps)
        ensures
            r.wf(),
            r.record_prefix@ == record_prefix@,
            r.value_prefix@ == value_prefix@,
    {
        IdMaps {
            record_prefix,
            value_prefix,
            record_ids: rid_map_new(),
            value_ids: vid_map_new(),
        }
    }

    /// The record identifier for `primary`: served from the cache when
    /// present, otherwise derived and cached.  Either way it equals the
    /// deterministic identifier of `(record_prefix, primary)`.
    pub fn record_id(&mut self, primary: &String) -> (r: String)
        requires
            old(self).wf(),
        ensures
            final(self).wf(),
            final(self).record_prefix == old(self).record_prefix,
            final(self).value_prefix == old(self).value_prefix,
            r@ == record_id_of(old(self).record_prefix@, primary@),
    {
        match rid_map_get(&self.record_ids, primary) {
            Some(id) => id,
            None => {
                let id = deterministic_id(self.record_prefix.as_str(), primary.as_str());
                rid_map_insert(&mut self.record_ids, primary, &id);
                id
            },
        }
    }

    /// The value identifier for a `(value_type, content)` pair: served
    /// from the cache when present, otherwise derived and cached.
    pub fn value_id(&mut self, value_type: &String, content: &String) -> (r: String)
        requires
            old(self).wf(),
        ensures
            final(self).wf(),
            final(self).record_prefix == old(self).record_prefix,
            final(self).value_prefix == old(self).value_prefix,
            r@ == value_id_of(old(self).value_prefix@, value_type@, content@),
    {
        let key = (value_type.clone(), content.clone());
        match vid_map_get(&self.value_ids, &key) {
            Some(id) => id,
            None => {
                let mut hash_content = value_type.clone();
                hash_content.append(":");
                hash_content.append(content.as_str());
                let id = deterministic_id(self.value_prefix.as_str(), hash_content.as_str());
                vid_map_insert(&mut self.value_ids, &key, &id);
                id
            },
        }
    }
}

} // verus!
