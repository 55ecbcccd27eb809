//! Small string operations the extraction rules are defined over.

use vstd::prelude::*;
use vstd::string::StrSliceExecFns;
use vstd::string::StringExecFns;
use crate::identity::hex_digit;
use crate::json::next_slash;
use crate::json::str_chars;

verus! {

/// The decimal digits of a non-negative number.
pub open spec fn dec_str(n: int) -> Seq<char>
    decreases n,
{
    if n < 0 {
        Seq::empty()
    } else if n < 10 {
        seq![hex_digit(n)]
    } else {
        dec_str(n / 10) + seq![hex_digit(n % 10)]
    }
}

/// Relies on u64's `Display` implementation: the decimal digits of the
/// value.
#[verifier::external_body]
pub(crate) fn u64_dec_string(n: u64) -> (r: String)
    ensures
        r@ == dec_str(n as int),
{
    n.to_string()
}

/// Milliseconds zero-padded to at least three digits.
pub open spec fn pad3(millis: int) -> Seq<char> {
    if millis < 10 {
        "00"@ + dec_str(millis)
    } else if millis < 100 {
        "0"@ + dec_str(millis)
    } else {
        dec_str(millis)
    }
}

/// The human-readable form of an elapsed time: `{h}h {m}m {s}s` past an
/// hour, `{m}m {s}s` past a minute, else `{s}.{millis}s` with the
/// milliseconds padded to three digits.
pub open spec fn elapsed_text(total_secs: int, millis: int) -> Seq<char> {
    let hours = total_secs / 3600;
    let minutes = (total_secs % 3600) / 60;
    let seconds = total_secs % 60;
    if hours > 0 {
        dec_str(hours) + "h "@ + dec_str(minutes) + "m "@ + dec_str(seconds) + "s"@
    } else if minutes > 0 {
        dec_str(minutes) + "m "@ + dec_str(seconds) + "s"@
    } else {
        dec_str(seconds) + "."@ + pad3(millis) + "s"@
    }
}

/// Render an elapsed time, given its whole seconds and its sub-second
/// milliseconds.
pub fn format_elapsed(total_secs: u64, millis: u32) -> (r: String)
    ensures
        r@ == elapsed_text(total_secs as int, millis as int),
{
    let hours = total_secs / 3600;
    let minutes = (total_secs % 3600) / 60;
    let seconds = total_secs % 60;
    if hours > 0 {
        let mut r = u64_dec_string(hours);
        r.append("h ");
        r.append(u64_dec_string(minutes).as_str());
        r.append("m ");
        r.append(u64_dec_string(seconds).as_str());
        r.append("s");
        r
    } else if minutes > 0 {
        let mut r = u64_dec_string(minutes);
        r.append("m ");
        r.append(u64_dec_string(seconds).as_str());
        r.append("s");
        r
    } else {
        let mut r = u64_dec_string(seconds);
        r.append(".");
        if millis < 10 {
            r.append("00");
        } else if millis < 100 {
            r.append("0");
        }
        r.append(u64_dec_string(millis as u64).as_str());
        r.append("s");
        r
    }
}

/// What `str::trim` returns: the string without leading and trailing
/// Unicode whitespace.  A function of the characters alone.
pub uninterp spec fn trim_of(s: Seq<char>) -> Seq<char>;

/// Relies on str::trim: removes leading and trailing whitespace
/// characters; the result depends on the characters alone.
#[verifier::external_body]
pub(crate) fn trim_string(s: &str) -> (r: String)
    ensures
        r@ == trim_of(s@),
{
    s.trim().to_owned()
}

/// Scalar value of a character with ASCII uppercase letters lowered,
/// mirroring `char::to_ascii_lowercase`.
pub open spec fn lower_val(c: char) -> int {
    if 65 <= c as u32 <= 90 {
        c as u32 + 32
    } else {
        c as u32 as int
    }
}

/// Equality up to ASCII case, as `str::eq_ignore_ascii_case` decides it:
/// same length, and characters equal once ASCII letters are lowered.
pub open spec fn eq_ignore_ascii_case(a: Seq<char>, b: Seq<char>) -> bool {
    a.len() == b.len() && (forall|i: int| 0 <= i < a.len() ==> lower_val(a[i]) == lower_val(b[i]))
}

fn lower_u32(c: char) -> (r: u32)
    ensures
        r == lower_val(c),
{
    let v = c as u32;
    if 65 <= v && v <= 90 {
        v + 32
    } else {
        v
    }
}

/// Whether `a` and `b` are equal ignoring the case of ASCII letters.
pub fn str_eq_ignore_ascii_case(a: &str, b: &str) -> (r: bool)
    ensures
        r == eq_ignore_ascii_case(a@, b@),
{
    let n = a.unicode_len();
    if n != b.unicode_len() {
        return false;
    }
    let mut i: usize = 0;
    while i < n
        invariant
            i <= n,
            n == a@.len() == b@.len(),
            forall|k: int| 0 <= k < i ==> lower_val(a@[k]) == lower_val(b@[k]),
        decreases n - i,
    {
        if lower_u32(a.get_char(i)) != lower_u32(b.get_char(i)) {
            return false;
        }
        i = i + 1;
    }
    true
}

/// The part of `s` before its first `/`, or nothing when `s` has none.
pub open spec fn doi_prefix(s: Seq<char>) -> Option<Seq<char>> {
    let j = next_slash(s, 0);
    if j < s.len() {
        Some(s.subrange(0, j))
    } else {
        None
    }
}

/// The substring of `s` before its first `/`, as a task filter reads a
/// DOI prefix out of a full DOI.
pub fn doi_prefix_string(s: &str) -> (r: Option<String>)
    ensures
        match r {
            Some(p) => doi_prefix(s@) == Some(p@),
            None => doi_prefix(s@) is None,
        },
{
    let chars = str_chars(s);
    let mut i: usize = 0;
    while i < chars.len()
        invariant
            i <= chars@.len(),
            next_slash(s@, 0) == next_slash(s@, i as int),
            chars@ == s@,
        decreases chars@.len() - i,
    {
        if chars[i] == '/' {
            return Some(s.substring_char(0, i).to_owned());
        }
        i = i + 1;
    }
    None
}

} // verus!
