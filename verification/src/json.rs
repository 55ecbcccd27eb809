//! In-memory JSON model and path evaluation.
//!
//! Profiles address parts of a record either by a JSON Pointer (a path
//! with a leading `/`, RFC 6901) or by a bare field name looked up on the
//! current object.  Numbers are carried in their source textual form,
//! because extraction only ever uses a number's text.

use vstd::prelude::*;

verus! {

/// One JSON document or sub-document.
///
/// An object is a list of `(key, value)` fields; lookups take the first
/// field with a matching key, so duplicate keys behave as in a map built
/// by first insertion.
pub enum Json {
    Null,
    Bool(bool),
    /// A number, kept as the text it had in the source document.
    Num(String),
    Str(String),
    Arr(Vec<Json>),
    Obj(Vec<(String, Json)>),
}

/// First field of `fields` whose key reads as `key`, if any.
pub open spec fn obj_get(fields: Seq<(String, Json)>, key: Seq<char>) -> Option<Json>
    decreases fields.len(),
{
    if fields.len() == 0 {
        None
    } else if fields[0].0@ == key {
        Some(fields[0].1)
    } else {
        obj_get(fields.skip(1), key)
    }
}

pub open spec fn is_digit(c: char) -> bool {
    '0' <= c && c <= '9'
}

pub open spec fn digit_val(c: char) -> int {
    c as int - '0' as int
}

/// Decimal parse of `t` from position `i` with accumulator `acc`,
/// failing on a non-digit or when the value would not fit in `usize`.
pub open spec fn parse_digits(t: Seq<char>, i: int, acc: int) -> Option<int>
    decreases t.len() - i,
{
    if i < 0 || i >= t.len() {
        Some(acc)
    } else if !is_digit(t[i]) {
        None
    } else if acc * 10 + digit_val(t[i]) > usize::MAX {
        None
    } else {
        parse_digits(t, i + 1, acc * 10 + digit_val(t[i]))
    }
}

/// An array index token: digits only, no redundant leading zero, value
/// within `usize`.
pub open spec fn parse_index(t: Seq<char>) -> Option<int> {
    if t.len() == 0 || (t[0] == '0' && t.len() != 1) {
        None
    } else {
        parse_digits(t, 0, 0)
    }
}

/// One unescaping pass replacing the two-character pattern `p` `m` by `r`,
/// scanning left to right without overlap.
pub open spec fn unesc_pass(s: Seq<char>, i: int, p: char, m: char, r: char) -> Seq<char>
    decreases s.len() - i,
{
    if i < 0 || i >= s.len() {
        Seq::empty()
    } else if s[i] == p && i + 1 < s.len() && s[i + 1] == m {
        seq![r] + unesc_pass(s, i + 2, p, m, r)
    } else {
        seq![s[i]] + unesc_pass(s, i + 1, p, m, r)
    }
}

/// JSON Pointer token unescaping: `~1` becomes `/`, then `~0` becomes `~`.
pub open spec fn unescape(t: Seq<char>) -> Seq<char> {
    unesc_pass(unesc_pass(t, 0, '~', '1', '/'), 0, '~', '0', '~')
}

/// Step of a pointer walk: resolve one already-unescaped token against a
/// node.  Objects look the token up as a key; arrays read it as an index;
/// other nodes resolve nothing.
pub open spec fn token_lookup(node: Json, token: Seq<char>) -> Option<Json> {
    match node {
        Json::Obj(fields) => obj_get(fields@, token),
        Json::Arr(items) => match parse_index(token) {
            Some(v) => if v < items@.len() {
                Some(items@[v])
            } else {
                None
            },
            None => None,
        },
        _ => None,
    }
}

/// Position of the first `/` in `s` at or after `i`, or `s.len()` if none.
pub open spec fn next_slash(s: Seq<char>, i: int) -> int
    decreases s.len() - i,
{
    if i < 0 || i >= s.len() {
        s.len() as int
    } else if s[i] == '/' {
        i
    } else {
        next_slash(s, i + 1)
    }
}

/// Remainder of a pointer walk: `s[i..]` is a `/`-separated token list
/// (no leading separator) to resolve against `node`.
pub open spec fn pointer_rest(node: Json, s: Seq<char>, i: int) -> Option<Json>
    decreases s.len() - i,
{
    {
        let j = next_slash(s, i);
        if j < i || j > s.len() {
            None
        } else {
            let token = unescape(s.subrange(i, j));
            match token_lookup(node, token) {
                None => None,
                Some(child) => if j >= s.len() {
                    Some(child)
                } else {
                    pointer_rest(child, s, j + 1)
                },
            }
        }
    }
}

/// Full JSON Pointer evaluation: an empty pointer names the whole
/// document; any other pointer must start with `/`.
pub open spec fn pointer(node: Json, s: Seq<char>) -> Option<Json> {
    if s.len() == 0 {
        Some(node)
    } else if s[0] != '/' {
        None
    } else {
        pointer_rest(node, s, 1)
    }
}

/// Path evaluation as profiles use it: a leading `/` means JSON Pointer,
/// anything else is a single field name looked up on the current object
/// with no unescaping.
pub open spec fn path_value(node: Json, path: Seq<char>) -> Option<Json> {
    if path.len() > 0 && path[0] == '/' {
        pointer(node, path)
    } else {
        match node {
            Json::Obj(fields) => obj_get(fields@, path),
            _ => None,
        }
    }
}

/// The characters of `s`, as an indexable vector.
pub fn str_chars(s: &str) -> (r: Vec<char>)
    ensures
        r@ == s@,
{
    let n = s.unicode_len();
    let mut r: Vec<char> = Vec::new();
    let mut i: usize = 0;
    while i < n
        invariant
            i <= n,
            r@ =~= s@.subrange(0, i as int),
        decreases n - i,
    {
        r.push(s.get_char(i));
        i = i + 1;
    }
    assert(r@ =~= s@);
    r
}

/// Whether `s` reads as exactly the characters of `t`.
pub fn str_eq_chars(s: &str, t: &[char]) -> (r: bool)
    ensures
        r == (s@ == t@),
{
    let n = s.unicode_len();
    if n != t.len() {
        assert(s@ != t@) by {
            assert(s@.len() != t@.len());
        }
        return false;
    }
    let mut i: usize = 0;
    while i < n
        invariant
            i <= n,
            n == s@.len() == t@.len(),
            forall|k: int| 0 <= k < i ==> s@[k] == t@[k],
        decreases n - i,
    {
        if s.get_char(i) != t[i] {
            return false;
        }
        i = i + 1;
    }
    assert(s@ =~= t@);
    true
}

fn exec_next_slash(s: &Vec<char>, i: usize) -> (r: usize)
    requires
        i <= s@.len(),
    ensures
        r == next_slash(s@, i as int),
        i <= r <= s@.len(),
    decreases s@.len() - i,
{
    if i >= s.len() {
        s.len()
    } else if s[i] == '/' {
        i
    } else {
        exec_next_slash(s, i + 1)
    }
}

fn exec_unesc_pass(s: &Vec<char>, p: char, m: char, r: char) -> (out: Vec<char>)
    ensures
        out@ == unesc_pass(s@, 0, p, m, r),
{
    let mut out: Vec<char> = Vec::new();
    let mut i: usize = 0;
    while i < s.len()
        invariant
            i <= s@.len(),
            unesc_pass(s@, 0, p, m, r) == out@ + unesc_pass(s@, i as int, p, m, r),
        decreases s@.len() - i,
    {
        let ghost prev = out@;
        if s[i] == p && i + 1 < s.len() && s[i + 1] == m {
            out.push(r);
            assert(out@ + unesc_pass(s@, i + 2, p, m, r) =~= prev + unesc_pass(
                s@,
                i as int,
                p,
                m,
                r,
            ));
            i = i + 2;
        } else {
            out.push(s[i]);
            assert(out@ + unesc_pass(s@, i + 1, p, m, r) =~= prev + unesc_pass(
                s@,
                i as int,
                p,
                m,
                r,
            ));
            i = i + 1;
        }
    }
    assert(out@ + unesc_pass(s@, i as int, p, m, r) =~= out@);
    out
}

fn exec_parse_index(t: &Vec<char>) -> (r: Option<usize>)
    ensures
        match r {
            Some(v) => parse_index(t@) == Some(v as int),
            None => parse_index(t@) is None,
        },
{
    if t.len() == 0 || (t[0] == '0' && t.len() != 1) {
        return None;
    }
    let mut acc: usize = 0;
    let mut i: usize = 0;
    while i < t.len()
        invariant
            i <= t@.len(),
            parse_digits(t@, 0, 0) == parse_digits(t@, i as int, acc as int),
        decreases t@.len() - i,
    {
        let c = t[i];
        if !('0' <= c && c <= '9') {
            return None;
        }
        let d: usize = (c as u32 as usize) - ('0' as u32 as usize);
        assert(d == digit_val(t@[i as int]));
        if acc > (usize::MAX - d) / 10 {
            assert(acc * 10 + d > usize::MAX) by (nonlinear_arith)
                requires
                    acc > (usize::MAX - d) / 10,
                    d <= 9,
            ;
            return None;
        }
        assert(acc * 10 + d <= usize::MAX) by (nonlinear_arith)
            requires
                acc <= (usize::MAX - d) / 10,
                d <= 9,
        ;
        acc = acc * 10 + d;
        i = i + 1;
    }
    Some(acc)
}

fn exec_token_lookup<'a>(node: &'a Json, token: &Vec<char>) -> (r: Option<&'a Json>)
    ensures
        match r {
            Some(child) => token_lookup(*node, token@) == Some(*child),
            None => token_lookup(*node, token@) is None,
        },
{
    match node {
        Json::Obj(fields) => {
            let mut k: usize = 0;
            assert(fields@.skip(0) =~= fields@);
            while k < fields.len()
                invariant
                    k <= fields@.len(),
                    obj_get(fields@, token@) == obj_get(fields@.skip(k as int), token@),
                decreases fields@.len() - k,
            {
                assert(fields@.skip(k as int)[0] == fields@[k as int]);
                if str_eq_chars(fields[k].0.as_str(), token.as_slice()) {
                    return Some(&fields[k].1);
                }
                assert(fields@.skip(k as int).skip(1) =~= fields@.skip(k as int + 1));
                k = k + 1;
            }
            assert(fields@.skip(k as int).len() == 0);
            None
        },
        Json::Arr(items) => match exec_parse_index(token) {
            Some(v) => {
                if v < items.len() {
                    Some(&items[v])
                } else {
                    None
                }
            },
            None => None,
        },
        _ => None,
    }
}

fn exec_pointer_rest<'a>(node: &'a Json, s: &Vec<char>, i: usize) -> (r: Option<&'a Json>)
    requires
        i <= s@.len(),
    ensures
        match r {
            Some(child) => pointer_rest(*node, s@, i as int) == Some(*child),
            None => pointer_rest(*node, s@, i as int) is None,
        },
    decreases s@.len() - i,
{
    let j = exec_next_slash(s, i);
    let mut token: Vec<char> = Vec::new();
    let mut k: usize = i;
    while k < j
        invariant
            i <= k <= j <= s@.len(),
            token@ =~= s@.subrange(i as int, k as int),
        decreases j - k,
    {
        token.push(s[k]);
        k = k + 1;
    }
    assert(token@ =~= s@.subrange(i as int, j as int));
    let unescaped = exec_unesc_pass(&exec_unesc_pass(&token, '~', '1', '/'), '~', '0', '~');
    assert(unescaped@ == unescape(s@.subrange(i as int, j as int)));
    match exec_token_lookup(node, &unescaped) {
        None => None,
        Some(child) => {
            if j >= s.len() {
                Some(child)
            } else {
                exec_pointer_rest(child, s, j + 1)
            }
        },
    }
}

impl Json {
    /// Resolve `path` against this node: JSON Pointer when the path
    /// starts with `/`, otherwise a bare field lookup.
    pub fn at_path<'a>(&'a self, path: &str) -> (r: Option<&'a Json>)
        ensures
            match r {
                Some(child) => path_value(*self, path@) == Some(*child),
                None => path_value(*self, path@) is None,
            },
    {
        let chars = str_chars(path);
        if chars.len() > 0 && chars[0] == '/' {
            exec_pointer_rest(self, &chars, 1)
        } else {
            match self {
                Json::Obj(fields) => {
                    let mut k: usize = 0;
                    assert(fields@.skip(0) =~= fields@);
                    while k < fields.len()
                        invariant
                            k <= fields@.len(),
                            obj_get(fields@, path@) == obj_get(fields@.skip(k as int), path@),
                        decreases fields@.len() - k,
                    {
                        assert(fields@.skip(k as int)[0] == fields@[k as int]);
                        if str_eq_chars(fields[k].0.as_str(), chars.as_slice()) {
                            return Some(&fields[k].1);
                        }
                        assert(fields@.skip(k as int).skip(1) =~= fields@.skip(k as int + 1));
                        k = k + 1;
                    }
                    assert(fields@.skip(k as int).len() == 0);
                    None
                },
                _ => None,
            }
        }
    }
}

} // verus!
