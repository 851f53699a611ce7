//! Line-oriented text helpers: character classes, maximal runs, trimming,
//! and splitting a multi-line blob into trimmed lines.

use vstd::prelude::*;

verus! {

/// Character classes the scanners work over.
#[derive(Clone, Copy)]
pub enum CharClass {
    /// ASCII whitespace.
    Space,
    /// Anything but ASCII whitespace.
    NonSpace,
    /// A decimal digit.
    Digit,
    /// Anything but a double quote or a newline.
    ValueChar,
    /// Anything but a newline.
    NotNewline,
}

/// The whitespace characters this library trims: the ASCII whitespace set.
pub open spec fn is_space(c: char) -> bool {
    c == ' ' || c == '\t' || c == '\n' || c == '\x0C' || c == '\r'
}

pub open spec fn is_digit(c: char) -> bool {
    c == '0' || c == '1' || c == '2' || c == '3' || c == '4' || c == '5' || c == '6' || c == '7'
        || c == '8' || c == '9'
}

pub open spec fn in_class(cl: CharClass, c: char) -> bool {
    match cl {
        CharClass::Space => is_space(c),
        CharClass::NonSpace => !is_space(c),
        CharClass::Digit => is_digit(c),
        CharClass::ValueChar => c != '"' && c != '\n',
        CharClass::NotNewline => c != '\n',
    }
}

/// End of the maximal run of characters of class `cl` that starts at `i`:
/// the least `k >= i` such that `k == t.len()` or `t[k]` is not in `cl`.
pub open spec fn run_end(t: Seq<char>, i: int, cl: CharClass) -> int
    decreases t.len() - i,
{
    if i < 0 || i >= t.len() {
        i
    } else if in_class(cl, t[i]) {
        run_end(t, i + 1, cl)
    } else {
        i
    }
}

pub proof fn lemma_run_end(t: Seq<char>, i: int, cl: CharClass)
    requires
        0 <= i <= t.len(),
    ensures
        i <= run_end(t, i, cl) <= t.len(),
        forall|j: int| i <= j < run_end(t, i, cl) ==> in_class(cl, t[j]),
        run_end(t, i, cl) < t.len() ==> !in_class(cl, t[run_end(t, i, cl)]),
    decreases t.len() - i,
{
    if i < t.len() && in_class(cl, t[i]) {
        lemma_run_end(t, i + 1, cl);
    }
}

/// Executable membership test for a character class.
pub fn class_char(cl: CharClass, c: char) -> (r: bool)
    ensures
        r == in_class(cl, c),
{
    match cl {
        CharClass::Space => c == ' ' || c == '\t' || c == '\n' || c == '\x0C' || c == '\r',
        CharClass::NonSpace => !(c == ' ' || c == '\t' || c == '\n' || c == '\x0C' || c == '\r'),
        CharClass::Digit => c >= '0' && c <= '9',
        CharClass::ValueChar => c != '"' && c != '\n',
        CharClass::NotNewline => c != '\n',
    }
}

/// Walk to the end of the maximal run of class `cl` starting at `from`.
pub fn scan_run(s: &str, from: usize, cl: CharClass) -> (k: usize)
    requires
        from <= s@.len(),
    ensures
        k == run_end(s@, from as int, cl),
        from <= k <= s@.len(),
{
    proof {
        lemma_run_end(s@, from as int, cl);
    }
    let n = s.unicode_len();
    let mut k: usize = from;
    while k < n && class_char(cl, s.get_char(k))
        invariant
            from <= k <= n,
            n == s@.len(),
            run_end(s@, from as int, cl) == run_end(s@, k as int, cl),
        decreases n - k,
    {
        proof {
            assert(run_end(s@, k as int, cl) == run_end(s@, k as int + 1, cl));
        }
        k = k + 1;
    }
    proof {
        assert(run_end(s@, k as int, cl) == k as int);
    }
    k
}

/// Does `p` occur in `t` starting at position `i`?
pub open spec fn has_prefix_at(t: Seq<char>, i: int, p: Seq<char>) -> bool {
    0 <= i && i + p.len() <= t.len() && t.subrange(i, i + p.len()) == p
}

/// Test whether `pat` occurs in `text` at position `i`.
pub fn has_prefix(text: &str, i: usize, pat: &str) -> (b: bool)
    requires
        i <= text@.len(),
    ensures
        b == has_prefix_at(text@, i as int, pat@),
{
    let n = text.unicode_len();
    let m = pat.unicode_len();
    if m > n - i {
        return false;
    }
    let mut j: usize = 0;
    while j < m
        invariant
            0 <= j <= m,
            i <= n,
            n == text@.len(),
            m == pat@.len(),
            i + m <= n,
            forall|x: int| 0 <= x < j ==> text@[i + x] == pat@[x],
        decreases m - j,
    {
        if text.get_char(i + j) != pat.get_char(j) {
            proof {
                if has_prefix_at(text@, i as int, pat@) {
                    assert(text@.subrange(i as int, i + m as int)[j as int] == pat@[j as int]);
                }
            }
            return false;
        }
        j = j + 1;
    }
    proof {
        assert(text@.subrange(i as int, i + m as int) =~= pat@);
    }
    true
}

/// Start of the maximal run of whitespace that ends just before `j`:
/// the greatest `k <= j` such that every character in `t[k..j]` is whitespace
/// and (`k == 0` or `t[k - 1]` is not whitespace).
pub open spec fn back_space_start(t: Seq<char>, j: int) -> int
    decreases j,
{
    if j <= 0 || j > t.len() {
        j
    } else if is_space(t[j - 1]) {
        back_space_start(t, j - 1)
    } else {
        j
    }
}

pub proof fn lemma_back_space_start(t: Seq<char>, j: int)
    requires
        0 <= j <= t.len(),
    ensures
        0 <= back_space_start(t, j) <= j,
        forall|k: int| back_space_start(t, j) <= k < j ==> is_space(t[k]),
        back_space_start(t, j) > 0 ==> !is_space(t[back_space_start(t, j) - 1]),
    decreases j,
{
    if 0 < j && is_space(t[j - 1]) {
        lemma_back_space_start(t, j - 1);
    }
}

/// `t` with leading and trailing whitespace removed.
pub open spec fn trim_spec(t: Seq<char>) -> Seq<char> {
    let a = run_end(t, 0, CharClass::Space);
    let b = back_space_start(t, t.len() as int);
    if a < b {
        t.subrange(a, b)
    } else {
        Seq::empty()
    }
}

/// Remove leading and trailing whitespace.
pub fn trim(s: &str) -> (r: String)
    ensures
        r@ == trim_spec(s@),
{
    let n = s.unicode_len();
    proof {
        lemma_run_end(s@, 0, CharClass::Space);
        lemma_back_space_start(s@, n as int);
    }
    let a = scan_run(s, 0, CharClass::Space);
    if a == n {
        proof {
            assert(trim_spec(s@) =~= Seq::<char>::empty());
        }
        return String::new();
    }
    let mut b: usize = n;
    while b > a && class_char(CharClass::Space, s.get_char(b - 1))
        invariant
            a < b <= n,
            n == s@.len(),
            a < n,
            a == run_end(s@, 0, CharClass::Space),
            !is_space(s@[a as int]),
            back_space_start(s@, n as int) == back_space_start(s@, b as int),
        decreases b,
    {
        b = b - 1;
    }
    proof {
        assert(back_space_start(s@, b as int) == b as int);
        assert(a < b);
    }
    let piece = s.substring_char(a, b);
    String::from_str(piece)
}

/// The views of a sequence of strings.
pub open spec fn views_of(v: Seq<String>) -> Seq<Seq<char>> {
    Seq::new(v.len(), |i: int| v[i]@)
}

/// The trimmed segments of `t` that end at a newline, in order.  Characters
/// after the last newline do not form a segment.
pub open spec fn split_trim_spec(t: Seq<char>) -> Seq<Seq<char>>
    decreases t.len(),
{
    let p = run_end(t, 0, CharClass::NotNewline);
    if 0 <= p < t.len() {
        seq![trim_spec(t.subrange(0, p))] + split_trim_spec(
            t.subrange(p + 1, t.len() as int),
        )
    } else {
        Seq::empty()
    }
}

/// Split a multi-line string at each newline, trimming every piece.
pub fn split_by_newline(art: &str) -> (lines: Vec<String>)
    ensures
        views_of(lines@) == split_trim_spec(art@),
{
    let mut lines: Vec<String> = Vec::new();
    let mut rest: &str = art;
    loop
        invariant
            views_of(lines@) + split_trim_spec(rest@) == split_trim_spec(art@),
        ensures
            views_of(lines@) == split_trim_spec(art@),
        decreases rest@.len(),
    {
        let n = rest.unicode_len();
        let p = scan_run(rest, 0, CharClass::NotNewline);
        if p == n {
            proof {
                assert(split_trim_spec(rest@) =~= Seq::<Seq<char>>::empty());
                assert(views_of(lines@) + split_trim_spec(rest@) =~= views_of(lines@));
            }
            break;
        }
        let ghost old_lines = lines@;
        let ghost old_rest = rest@;
        let head = rest.substring_char(0, p);
        let line = trim(head);
        lines.push(line);
        rest = rest.substring_char(p + 1, n);
        proof {
            assert(split_trim_spec(old_rest) == seq![trim_spec(old_rest.subrange(0, p as int))]
                + split_trim_spec(old_rest.subrange(p as int + 1, old_rest.len() as int)));
            assert(views_of(lines@) =~= views_of(old_lines) + seq![line@]);
            assert(views_of(lines@) + split_trim_spec(rest@) =~= split_trim_spec(art@));
        }
    }
    lines
}

/// `t` with every space and newline removed.
pub open spec fn strip_spec(t: Seq<char>) -> Seq<char>
    decreases t.len(),
{
    if t.len() == 0 {
        Seq::empty()
    } else {
        let rest = strip_spec(t.drop_last());
        if t.last() == ' ' || t.last() == '\n' {
            rest
        } else {
            rest + seq![t.last()]
        }
    }
}

/// Remove every space and newline from `s`.
pub fn strip_spaces(s: &str) -> (r: String)
    ensures
        r@ == strip_spec(s@),
{
    let n = s.unicode_len();
    let mut r = String::new();
    let mut i: usize = 0;
    while i < n
        invariant
            0 <= i <= n,
            n == s@.len(),
            r@ == strip_spec(s@.subrange(0, i as int)),
        decreases n - i,
    {
        let c = s.get_char(i);
        if !(c == ' ' || c == '\n') {
            let piece = s.substring_char(i, i + 1);
            r.append(piece);
        }
        proof {
            let pre = s@.subrange(0, i as int + 1);
            assert(pre.drop_last() =~= s@.subrange(0, i as int));
            assert(pre.last() == s@[i as int]);
            if !(s@[i as int] == ' ' || s@[i as int] == '\n') {
                assert(s@.subrange(i as int, i as int + 1) =~= seq![s@[i as int]]);
            }
        }
        i = i + 1;
    }
    proof {
        assert(s@.subrange(0, n as int) =~= s@);
    }
    r
}

/// `piece` repeated `n` times.
pub open spec fn repeat_of(piece: Seq<char>, n: nat) -> Seq<char>
    decreases n,
{
    if n == 0 {
        Seq::empty()
    } else {
        repeat_of(piece, (n - 1) as nat) + piece
    }
}

/// Repeat `piece` `n` times.
pub fn repeat(piece: &str, n: usize) -> (r: String)
    ensures
        r@ == repeat_of(piece@, n as nat),
{
    let mut r = String::new();
    let mut i: usize = 0;
    proof {
        assert(r@ =~= repeat_of(piece@, 0));
    }
    while i < n
        invariant
            0 <= i <= n,
            r@ == repeat_of(piece@, i as nat),
        decreases n - i,
    {
        r.append(piece);
        i = i + 1;
    }
    r
}

} // verus!
