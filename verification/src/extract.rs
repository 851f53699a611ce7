//! Field extraction: each host fact is pulled out of raw command output by a
//! fixed pattern.  The patterns are part of this library's own grammar, so
//! each extractor is a verified function whose contract states exactly which
//! texts match and what the captured fields are.

use vstd::prelude::*;
use crate::text::CharClass;
use crate::text::has_prefix_at;
use crate::text::has_prefix;
use crate::text::run_end;
use crate::text::lemma_run_end;
use crate::text::scan_run;

verus! {

// ---------------------------------------------------------------------------
// Distribution description: the first occurrence of `DISTRIB_DESCRIPTION=`
// followed by an optionally quoted value that runs to the end of its line.
// ---------------------------------------------------------------------------
pub open spec fn distro_key() -> Seq<char> {
    "DISTRIB_DESCRIPTION="@
}

/// Index where the captured value would start for a match at `i`: just after
/// the key, skipping one opening quote if present.
pub open spec fn distro_q(t: Seq<char>, i: int) -> int {
    let j = i + distro_key().len();
    if j < t.len() && t[j] == '"' {
        j + 1
    } else {
        j
    }
}

/// Index where the captured value would end for a match at `i`.
pub open spec fn distro_k(t: Seq<char>, i: int) -> int {
    run_end(t, distro_q(t, i), CharClass::ValueChar)
}

/// Does the distribution pattern match at position `i`?  The value is the
/// maximal non-empty run free of quotes and newlines, and must be followed by
/// a newline, optionally with one closing quote before it.
pub open spec fn distro_match_at(t: Seq<char>, i: int) -> bool {
    has_prefix_at(t, i, distro_key()) && {
        let q = distro_q(t, i);
        let k = distro_k(t, i);
        q < k < t.len() && (t[k] == '\n' || (t[k] == '"' && k + 1 < t.len() && t[k + 1] == '\n'))
    }
}

/// The least match position at or after `i`.
pub open spec fn distro_find(t: Seq<char>, i: int) -> Option<int>
    decreases t.len() - i,
{
    if i < 0 || i >= t.len() {
        None
    } else if distro_match_at(t, i) {
        Some(i)
    } else {
        distro_find(t, i + 1)
    }
}

/// The distribution name captured from `t`, if the pattern matches anywhere.
pub open spec fn distro_spec(t: Seq<char>) -> Option<Seq<char>> {
    match distro_find(t, 0) {
        Some(i) => Some(t.subrange(distro_q(t, i), distro_k(t, i))),
        None => None,
    }
}

/// Try the distribution pattern at one position; on success return the value's
/// start and end.
fn distro_try_at(text: &str, i: usize) -> (r: Option<(usize, usize)>)
    requires
        i <= text@.len(),
    ensures
        r is Some <==> distro_match_at(text@, i as int),
        r matches Some((q, k)) ==> q as int == distro_q(text@, i as int) && k as int == distro_k(
            text@,
            i as int,
        ),
{
    let key = "DISTRIB_DESCRIPTION=";
    if !has_prefix(text, i, key) {
        return None;
    }
    let n = text.unicode_len();
    let klen = key.unicode_len();
    let j = i + klen;
    let q = if j < n && text.get_char(j) == '"' {
        j + 1
    } else {
        j
    };
    let k = scan_run(text, q, CharClass::ValueChar);
    if q < k && k < n {
        let ck = text.get_char(k);
        if ck == '\n' {
            return Some((q, k));
        }
        if ck == '"' && k + 1 < n && text.get_char(k + 1) == '\n' {
            return Some((q, k));
        }
    }
    None
}

/// Extract the distribution name: the value of the first
/// `DISTRIB_DESCRIPTION="..."` line (quotes optional).
pub fn extract_distro(text: &str) -> (r: Option<String>)
    ensures
        match r {
            Some(v) => distro_spec(text@) == Some(v@),
            None => distro_spec(text@) is None,
        },
{
    let n = text.unicode_len();
    let mut i: usize = 0;
    while i < n
        invariant
            0 <= i <= n,
            n == text@.len(),
            distro_find(text@, 0) == distro_find(text@, i as int),
        decreases n - i,
    {
        match distro_try_at(text, i) {
            Some((q, k)) => {
                proof {
                    assert(distro_find(text@, i as int) == Some(i as int));
                    lemma_run_end(text@, distro_q(text@, i as int), CharClass::ValueChar);
                }
                let piece = text.substring_char(q, k);
                return Some(String::from_str(piece));
            },
            None => {
                proof {
                    assert(distro_find(text@, i as int) == distro_find(text@, i as int + 1));
                }
                i = i + 1;
            },
        }
    }
    proof {
        assert(distro_find(text@, i as int) is None);
    }
    None
}

// ---------------------------------------------------------------------------
// Kernel: the first two whitespace-separated tokens of the text.
// ---------------------------------------------------------------------------
/// The kernel name and version captured from `t`: the first and second
/// maximal non-whitespace tokens, if both exist.
pub open spec fn kernel_spec(t: Seq<char>) -> Option<(Seq<char>, Seq<char>)> {
    let a = run_end(t, 0, CharClass::Space);
    let b = run_end(t, a, CharClass::NonSpace);
    let c = run_end(t, b, CharClass::Space);
    let d = run_end(t, c, CharClass::NonSpace);
    if a < b && b < c && c < d {
        Some((t.subrange(a, b), t.subrange(c, d)))
    } else {
        None
    }
}

/// Extract the kernel name and version: the first two whitespace-separated
/// tokens.
pub fn extract_kernel(text: &str) -> (r: Option<(String, String)>)
    ensures
        match r {
            Some(v) => kernel_spec(text@) == Some((v.0@, v.1@)),
            None => kernel_spec(text@) is None,
        },
{
    let a = scan_run(text, 0, CharClass::Space);
    let b = scan_run(text, a, CharClass::NonSpace);
    let c = scan_run(text, b, CharClass::Space);
    let d = scan_run(text, c, CharClass::NonSpace);
    if a < b && b < c && c < d {
        let name = String::from_str(text.substring_char(a, b));
        let version = String::from_str(text.substring_char(c, d));
        Some((name, version))
    } else {
        None
    }
}

// ---------------------------------------------------------------------------
// Shell: the non-empty run after the last `/`, up to the end of the text.
// ---------------------------------------------------------------------------
/// Position of the last `/` strictly before `j`, if any.
pub open spec fn last_slash(t: Seq<char>, j: int) -> Option<int>
    decreases j,
{
    if j <= 0 || j > t.len() {
        None
    } else if t[j - 1] == '/' {
        Some(j - 1)
    } else {
        last_slash(t, j - 1)
    }
}

/// The shell name captured from `t`: everything after the last slash, if
/// non-empty.
pub open spec fn shell_spec(t: Seq<char>) -> Option<Seq<char>> {
    let k = match last_slash(t, t.len() as int) {
        Some(p) => p + 1,
        None => 0,
    };
    if k < t.len() {
        Some(t.subrange(k, t.len() as int))
    } else {
        None
    }
}

/// Extract the shell name: the trailing path segment after the last `/`.
pub fn extract_shell(text: &str) -> (r: Option<String>)
    ensures
        match r {
            Some(v) => shell_spec(text@) == Some(v@),
            None => shell_spec(text@) is None,
        },
{
    let n = text.unicode_len();
    let mut j: usize = n;
    while j > 0 && text.get_char(j - 1) != '/'
        invariant
            0 <= j <= n,
            n == text@.len(),
            last_slash(text@, n as int) == last_slash(text@, j as int),
        decreases j,
    {
        proof {
            assert(last_slash(text@, j as int) == last_slash(text@, j as int - 1));
        }
        j = j - 1;
    }
    proof {
        if j > 0 {
            assert(last_slash(text@, j as int) == Some(j as int - 1));
        } else {
            assert(last_slash(text@, 0) is None);
        }
    }
    if j < n {
        let piece = text.substring_char(j, n);
        Some(String::from_str(piece))
    } else {
        None
    }
}

// ---------------------------------------------------------------------------
// Uptime: the leading run of digits, which must be followed by a `.`.
// ---------------------------------------------------------------------------
/// The whole-seconds digit run captured from `t`: a non-empty leading digit
/// run followed by a decimal point.
pub open spec fn uptime_digits_spec(t: Seq<char>) -> Option<Seq<char>> {
    let d = run_end(t, 0, CharClass::Digit);
    if 0 < d < t.len() && t[d] == '.' {
        Some(t.subrange(0, d))
    } else {
        None
    }
}

/// Extract the whole-seconds token of an uptime reading.
pub fn extract_uptime(text: &str) -> (r: Option<String>)
    ensures
        match r {
            Some(v) => uptime_digits_spec(text@) == Some(v@),
            None => uptime_digits_spec(text@) is None,
        },
{
    let n = text.unicode_len();
    let d = scan_run(text, 0, CharClass::Digit);
    if 0 < d && d < n && text.get_char(d) == '.' {
        let piece = text.substring_char(0, d);
        Some(String::from_str(piece))
    } else {
        None
    }
}

// ---------------------------------------------------------------------------
// Memory: the first `Mem:` followed by two whitespace-separated digit runs.
// ---------------------------------------------------------------------------
pub open spec fn mem_key() -> Seq<char> {
    "Mem:"@
}

/// Does the memory pattern match at position `i`?
pub open spec fn mem_match_at(t: Seq<char>, i: int) -> bool {
    has_prefix_at(t, i, mem_key()) && {
        let s1 = i + mem_key().len();
        let j1 = run_end(t, s1, CharClass::Space);
        let k1 = run_end(t, j1, CharClass::Digit);
        let j2 = run_end(t, k1, CharClass::Space);
        let k2 = run_end(t, j2, CharClass::Digit);
        s1 < j1 && j1 < k1 && k1 < j2 && j2 < k2
    }
}

/// The total field for a match at `i`.
pub open spec fn mem_total_at(t: Seq<char>, i: int) -> Seq<char> {
    let s1 = i + mem_key().len();
    let j1 = run_end(t, s1, CharClass::Space);
    let k1 = run_end(t, j1, CharClass::Digit);
    t.subrange(j1, k1)
}

/// The used field for a match at `i`.
pub open spec fn mem_used_at(t: Seq<char>, i: int) -> Seq<char> {
    let s1 = i + mem_key().len();
    let j1 = run_end(t, s1, CharClass::Space);
    let k1 = run_end(t, j1, CharClass::Digit);
    let j2 = run_end(t, k1, CharClass::Space);
    let k2 = run_end(t, j2, CharClass::Digit);
    t.subrange(j2, k2)
}

/// The least match position at or after `i`.
pub open spec fn mem_find(t: Seq<char>, i: int) -> Option<int>
    decreases t.len() - i,
{
    if i < 0 || i >= t.len() {
        None
    } else if mem_match_at(t, i) {
        Some(i)
    } else {
        mem_find(t, i + 1)
    }
}

/// The total and used megabyte fields captured from `t`, if the memory
/// pattern matches anywhere.
pub open spec fn mem_spec(t: Seq<char>) -> Option<(Seq<char>, Seq<char>)> {
    match mem_find(t, 0) {
        Some(i) => Some((mem_total_at(t, i), mem_used_at(t, i))),
        None => None,
    }
}

/// Try the memory pattern at one position; on success return the bounds of
/// the two digit fields.
fn mem_try_at(text: &str, i: usize) -> (r: Option<(usize, usize, usize, usize)>)
    requires
        i <= text@.len(),
    ensures
        r is Some <==> mem_match_at(text@, i as int),
        r matches Some((j1, k1, j2, k2)) ==> mem_total_at(text@, i as int) == text@.subrange(
            j1 as int,
            k1 as int,
        ) && mem_used_at(text@, i as int) == text@.subrange(j2 as int, k2 as int) && j1 <= k1
            <= j2 <= k2 <= text@.len(),
{
    let key = "Mem:";
    if !has_prefix(text, i, key) {
        return None;
    }
    let n = text.unicode_len();
    let klen = key.unicode_len();
    let s1 = i + klen;
    let j1 = scan_run(text, s1, CharClass::Space);
    let k1 = scan_run(text, j1, CharClass::Digit);
    let j2 = scan_run(text, k1, CharClass::Space);
    let k2 = scan_run(text, j2, CharClass::Digit);
    if s1 < j1 && j1 < k1 && k1 < j2 && j2 < k2 {
        Some((j1, k1, j2, k2))
    } else {
        None
    }
}

/// Extract the total and used megabyte counts from a `Mem:` line.
pub fn extract_memory(text: &str) -> (r: Option<(String, String)>)
    ensures
        match r {
            Some(v) => mem_spec(text@) == Some((v.0@, v.1@)),
            None => mem_spec(text@) is None,
        },
{
    let n = text.unicode_len();
    let mut i: usize = 0;
    while i < n
        invariant
            0 <= i <= n,
            n == text@.len(),
            mem_find(text@, 0) == mem_find(text@, i as int),
        decreases n - i,
    {
        match mem_try_at(text, i) {
            Some((j1, k1, j2, k2)) => {
                proof {
                    assert(mem_find(text@, i as int) == Some(i as int));
                }
                let total = String::from_str(text.substring_char(j1, k1));
                let used = String::from_str(text.substring_char(j2, k2));
                return Some((total, used));
            },
            None => {
                proof {
                    assert(mem_find(text@, i as int) == mem_find(text@, i as int + 1));
                }
                i = i + 1;
            },
        }
    }
    proof {
        assert(mem_find(text@, i as int) is None);
    }
    None
}

} // verus!
