//! Rendering: decorated display lines, the constant art glyph, and the
//! two-column composition of art lines beside fact lines.

use vstd::prelude::*;
use crate::text::repeat_of;
use crate::text::repeat;
use crate::text::strip_spec;
use crate::text::strip_spaces;
use crate::text::split_trim_spec;
use crate::text::split_by_newline;
use crate::text::views_of;
use crate::theme::Theme;

verus! {

// ---------------------------------------------------------------------------
// Display lines
// ---------------------------------------------------------------------------
/// A key padded with spaces to at least seven columns.
pub open spec fn pad_key(k: Seq<char>) -> Seq<char> {
    if k.len() >= 7 {
        k
    } else {
        k + repeat_of(" "@, (7 - k.len()) as nat)
    }
}

/// One decorated display line: a colored bullet, the padded key in bold, a
/// color reset, then the value.
pub open spec fn format_data_spec(key: Seq<char>, value: Seq<char>, theme: Theme) -> Seq<char> {
    theme.green@ + "\u{25aa}"@ + theme.bold@ + " "@ + pad_key(key) + theme.reset@ + " "@ + value
}

/// Render one key/value pair as a display line.
pub fn format_data(key: &str, value: &str, theme: &Theme) -> (r: String)
    ensures
        r@ == format_data_spec(key@, value@, *theme),
{
    let mut r = theme.green.clone();
    r.append("\u{25aa}");
    r.append(theme.bold.as_str());
    r.append(" ");
    r.append(key);
    let klen = key.unicode_len();
    let ghost prefix = theme.green@ + "\u{25aa}"@ + theme.bold@ + " "@;
    let mut pads: usize = klen;
    proof {
        assert(r@ =~= prefix + key@ + repeat_of(" "@, 0));
    }
    while pads < 7
        invariant
            klen <= pads,
            klen < 7 ==> pads <= 7,
            klen >= 7 ==> pads == klen,
            klen == key@.len(),
            r@ == prefix + key@ + repeat_of(" "@, (pads - klen) as nat),
        decreases 7 - pads,
    {
        r.append(" ");
        pads = pads + 1;
    }
    proof {
        assert(r@ =~= prefix + pad_key(key@));
    }
    r.append(theme.reset.as_str());
    r.append(" ");
    r.append(value);
    proof {
        assert(r@ =~= format_data_spec(key@, value@, *theme));
    }
    r
}

/// The identity line `user@host`, colored and bold, with every space and
/// newline removed from the composed text.
pub open spec fn identity_spec(user: Seq<char>, host: Seq<char>, theme: Theme) -> Seq<char> {
    strip_spec(
        theme.green@ + theme.bold@ + user + theme.reset@ + theme.bold@ + "@"@ + theme.green@ + host
            + theme.reset@,
    )
}

/// Render the identity line for a user and host.
pub fn identity_line(user: &str, host: &str, theme: &Theme) -> (r: String)
    ensures
        r@ == identity_spec(user@, host@, *theme),
{
    let mut s = theme.green.clone();
    s.append(theme.bold.as_str());
    s.append(user);
    s.append(theme.reset.as_str());
    s.append(theme.bold.as_str());
    s.append("@");
    s.append(theme.green.as_str());
    s.append(host);
    s.append(theme.reset.as_str());
    strip_spaces(s.as_str())
}

/// The separator under the identity line: one rule glyph for every character
/// of the user name, the `@`, and the host name, in the separator color.
pub open spec fn separator_spec(user: Seq<char>, host: Seq<char>, theme: Theme) -> Seq<char> {
    theme.yellow@ + repeat_of("\u{2501}"@, user.len() + 1 + host.len()) + theme.reset@
}

/// Render the separator line for a user and host.
pub fn separator_line(user: &str, host: &str, theme: &Theme) -> (r: String)
    requires
        user@.len() + 1 + host@.len() <= usize::MAX,
    ensures
        r@ == separator_spec(user@, host@, *theme),
{
    let count = user.unicode_len() + 1 + host.unicode_len();
    let rule = repeat("\u{2501}", count);
    let mut r = theme.yellow.clone();
    r.append(rule.as_str());
    r.append(theme.reset.as_str());
    r
}

// ---------------------------------------------------------------------------
// The art glyph
// ---------------------------------------------------------------------------
/// The decorative glyph as one multi-line string: six green rows of foliage
/// and two rows of trunk in the separator color, each row ending in a reset
/// and a newline.
pub open spec fn art_source_spec(theme: Theme) -> Seq<char> {
    theme.green@ + "     /\\*\\       "@ + theme.reset@ + "\n"@ + theme.green@
        + "    /\\O\\*\\      "@ + theme.reset@ + "\n"@ + theme.green@ + "   /*/\\/\\/\\     "@
        + theme.reset@ + "\n"@ + theme.green@ + "  /\\O\\/\\*\\/\\    "@ + theme.reset@ + "\n"@
        + theme.green@ + " /\\*\\/\\*\\/\\/\\   "@ + theme.reset@ + "\n"@ + theme.green@
        + " |O\\/\\/*/\\/O|   "@ + theme.reset@ + "\n"@ + theme.yellow@ + "      ||        "@
        + theme.reset@ + "\n"@ + theme.yellow@ + "      ||        "@ + theme.reset@ + "\n"@
}

fn art_row(into: &mut String, color: &String, body: &str, theme: &Theme)
    ensures
        final(into)@ == old(into)@ + color@ + body@ + theme.reset@ + "\n"@,
{
    into.append(color.as_str());
    into.append(body);
    into.append(theme.reset.as_str());
    into.append("\n");
}

/// Build the art glyph source text.
pub fn art_source(theme: &Theme) -> (r: String)
    ensures
        r@ == art_source_spec(*theme),
{
    let mut r = String::new();
    art_row(&mut r, &theme.green, "     /\\*\\       ", theme);
    art_row(&mut r, &theme.green, "    /\\O\\*\\      ", theme);
    art_row(&mut r, &theme.green, "   /*/\\/\\/\\     ", theme);
    art_row(&mut r, &theme.green, "  /\\O\\/\\*\\/\\    ", theme);
    art_row(&mut r, &theme.green, " /\\*\\/\\*\\/\\/\\   ", theme);
    art_row(&mut r, &theme.green, " |O\\/\\/*/\\/O|   ", theme);
    art_row(&mut r, &theme.yellow, "      ||        ", theme);
    art_row(&mut r, &theme.yellow, "      ||        ", theme);
    proof {
        assert(r@ =~= art_source_spec(*theme));
    }
    r
}

/// The art lines: the glyph split at newlines, every line trimmed.
pub fn art_lines(theme: &Theme) -> (lines: Vec<String>)
    ensures
        views_of(lines@) == split_trim_spec(art_source_spec(*theme)),
{
    let source = art_source(theme);
    split_by_newline(source.as_str())
}

// ---------------------------------------------------------------------------
// Two-column composition
// ---------------------------------------------------------------------------
/// Row `i` of the two-column layout: the left line if one exists at `i`, then
/// the right line if one exists at `i`.
pub open spec fn row_spec(l: Seq<Seq<char>>, r: Seq<Seq<char>>, i: int) -> Seq<char> {
    (if 0 <= i < l.len() {
        l[i]
    } else {
        Seq::empty()
    }) + (if 0 <= i < r.len() {
        r[i]
    } else {
        Seq::empty()
    })
}

pub open spec fn row_count(l: Seq<Seq<char>>, r: Seq<Seq<char>>) -> nat {
    if l.len() >= r.len() {
        l.len()
    } else {
        r.len()
    }
}

/// The first `n` rows of the layout, each terminated by one newline.
pub open spec fn compose_upto(l: Seq<Seq<char>>, r: Seq<Seq<char>>, n: int) -> Seq<char>
    decreases n,
{
    if n <= 0 {
        Seq::empty()
    } else {
        compose_upto(l, r, n - 1) + row_spec(l, r, n - 1) + "\n"@
    }
}

/// The full two-column layout of `l` beside `r`.
pub open spec fn compose_spec(l: Seq<Seq<char>>, r: Seq<Seq<char>>) -> Seq<char> {
    compose_upto(l, r, row_count(l, r) as int)
}

/// Merge two line sequences into the interleaved two-column text: one row per
/// index up to the longer sequence's length, each row holding whatever lines
/// exist at that index, each row ending in one newline.
pub fn compose(left: &Vec<String>, right: &Vec<String>) -> (out: String)
    ensures
        out@ == compose_spec(views_of(left@), views_of(right@)),
{
    let ghost l = views_of(left@);
    let ghost r = views_of(right@);
    let left_len = left.len();
    let right_len = right.len();
    let max_len = if left_len >= right_len {
        left_len
    } else {
        right_len
    };
    let mut out = String::new();
    let mut i: usize = 0;
    proof {
        assert(out@ =~= compose_upto(l, r, 0));
    }
    while i < max_len
        invariant
            0 <= i <= max_len,
            left_len == left@.len(),
            right_len == right@.len(),
            max_len == row_count(l, r),
            l == views_of(left@),
            r == views_of(right@),
            out@ == compose_upto(l, r, i as int),
        decreases max_len - i,
    {
        if i < left_len {
            out.append(left[i].as_str());
        }
        if i < right_len {
            out.append(right[i].as_str());
        }
        out.append("\n");
        proof {
            assert(out@ =~= compose_upto(l, r, i as int + 1));
        }
        i = i + 1;
    }
    out
}

// ---------------------------------------------------------------------------
// Laws about composition
// ---------------------------------------------------------------------------
/// How often `c` occurs in `t`.
pub open spec fn count_char(t: Seq<char>, c: char) -> nat
    decreases t.len(),
{
    if t.len() == 0 {
        0
    } else {
        count_char(t.drop_last(), c) + (if t.last() == c {
            1nat
        } else {
            0nat
        })
    }
}

/// A sequence free of `c` has no occurrence of `c`.
pub proof fn lemma_count_char_absent(t: Seq<char>, c: char)
    requires
        forall|i: int| 0 <= i < t.len() ==> t[i] != c,
    ensures
        count_char(t, c) == 0,
    decreases t.len(),
{
    if t.len() > 0 {
        lemma_count_char_absent(t.drop_last(), c);
    }
}

/// Occurrences add up over concatenation.
pub proof fn lemma_count_char_add(a: Seq<char>, b: Seq<char>, c: char)
    ensures
        count_char(a + b, c) == count_char(a, c) + count_char(b, c),
    decreases b.len(),
{
    if b.len() == 0 {
        assert(a + b =~= a);
    } else {
        lemma_count_char_add(a, b.drop_last(), c);
        assert((a + b).drop_last() =~= a + b.drop_last());
        assert((a + b).last() == b.last());
    }
}

/// Law: composing two sequences of newline-free lines emits exactly
/// `max(len(left), len(right))` rows, each terminated by one line break — so
/// the composed text holds exactly that many newlines, and ends with one
/// whenever there is a row at all.
pub proof fn lemma_compose_row_count(l: Seq<Seq<char>>, r: Seq<Seq<char>>)
    requires
        forall|i: int, j: int| 0 <= i < l.len() && 0 <= j < l[i].len() ==> l[i][j] != '\n',
        forall|i: int, j: int| 0 <= i < r.len() && 0 <= j < r[i].len() ==> r[i][j] != '\n',
    ensures
        count_char(compose_spec(l, r), '\n') == row_count(l, r),
        row_count(l, r) > 0 ==> compose_spec(l, r).last() == '\n',
{
    reveal_strlit("\n");
    lemma_compose_upto_count(l, r, row_count(l, r) as int);
    let n = row_count(l, r) as int;
    if n > 0 {
        assert(compose_spec(l, r) == compose_upto(l, r, n - 1) + row_spec(l, r, n - 1) + "\n"@);
    }
}

proof fn lemma_compose_upto_count(l: Seq<Seq<char>>, r: Seq<Seq<char>>, n: int)
    requires
        forall|i: int, j: int| 0 <= i < l.len() && 0 <= j < l[i].len() ==> l[i][j] != '\n',
        forall|i: int, j: int| 0 <= i < r.len() && 0 <= j < r[i].len() ==> r[i][j] != '\n',
        n >= 0,
    ensures
        count_char(compose_upto(l, r, n), '\n') == n,
    decreases n,
{
    reveal_strlit("\n");
    if n > 0 {
        lemma_compose_upto_count(l, r, n - 1);
        let row = row_spec(l, r, n - 1);
        lemma_count_char_absent(row, '\n');
        lemma_count_char_add(compose_upto(l, r, n - 1), row, '\n');
        lemma_count_char_add(compose_upto(l, r, n - 1) + row, "\n"@, '\n');
        assert("\n"@.drop_last() =~= Seq::<char>::empty());
        assert(count_char(Seq::<char>::empty(), '\n') == 0);
        assert(count_char("\n"@, '\n') == 1);
    }
}

} // verus!
