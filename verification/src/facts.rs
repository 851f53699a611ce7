//! The orchestrator: turns the gathered raw texts (command output, the
//! hostname file, the user variable) into the ordered list of display lines
//! and the final two-column summary.  A fact whose text does not match its
//! pattern is silently omitted; only an uptime count too large to parse is an
//! error.

use vstd::prelude::*;
use crate::extract::distro_spec;
use crate::extract::extract_distro;
use crate::extract::kernel_spec;
use crate::extract::extract_kernel;
use crate::extract::shell_spec;
use crate::extract::extract_shell;
use crate::extract::uptime_digits_spec;
use crate::extract::extract_uptime;
use crate::extract::mem_spec;
use crate::extract::extract_memory;
use crate::num::digits_val;
use crate::num::dec_spec;
use crate::num::fits_u32;
use crate::num::parse_u32;
use crate::num::u32_to_string;
use crate::render::art_lines;
use crate::render::art_source_spec;
use crate::render::compose;
use crate::render::compose_spec;
use crate::render::format_data;
use crate::render::format_data_spec;
use crate::render::identity_line;
use crate::render::identity_spec;
use crate::render::separator_line;
use crate::render::separator_spec;
use crate::text::CharClass;
use crate::text::lemma_run_end;
use crate::text::split_trim_spec;
use crate::text::views_of;
use crate::theme::Theme;

verus! {

/// The one fatal condition of the pipeline: a captured number too large to
/// parse, which indicates a broken platform assumption.
#[derive(Clone, Copy, Debug, PartialEq, Eq, Structural)]
pub enum FetchError {
    NumberTooLarge,
}

impl FetchError {
    /// A diagnostic text for the error.
    pub fn message(&self) -> (m: String)
        ensures
            m@ == "captured number too large to parse"@,
    {
        String::from_str("captured number too large to parse")
    }
}

/// A present line as a one-line list, an absent one as no line at all.
pub open spec fn opt_lines(o: Option<Seq<char>>) -> Seq<Seq<char>> {
    match o {
        Some(l) => seq![l],
        None => Seq::empty(),
    }
}

/// The view of an optional string.
pub open spec fn opt_view(o: Option<String>) -> Option<Seq<char>> {
    match o {
        Some(s) => Some(s@),
        None => None,
    }
}

// ---------------------------------------------------------------------------
// Identity
// ---------------------------------------------------------------------------
/// The identity line and its separator, present exactly when the hostname
/// was read.
pub open spec fn identity_lines_spec(user: Seq<char>, host: Option<Seq<char>>, theme: Theme) -> Seq<
    Seq<char>,
> {
    match host {
        Some(h) => seq![identity_spec(user, h, theme), separator_spec(user, h, theme)],
        None => Seq::empty(),
    }
}

/// Render the identity line and separator, or nothing when the hostname is
/// absent.
pub fn identity_lines(user: &str, host: &Option<String>, theme: &Theme) -> (r: Vec<String>)
    requires
        host matches Some(h) ==> user@.len() + 1 + h@.len() <= usize::MAX,
    ensures
        views_of(r@) == identity_lines_spec(user@, opt_view(*host), *theme),
{
    let mut r: Vec<String> = Vec::new();
    match host {
        Some(h) => {
            let id = identity_line(user, h.as_str(), theme);
            let sep = separator_line(user, h.as_str(), theme);
            r.push(id);
            r.push(sep);
            proof {
                assert(views_of(r@) =~= identity_lines_spec(user@, opt_view(*host), *theme));
            }
        },
        None => {
            proof {
                assert(views_of(r@) =~= identity_lines_spec(user@, opt_view(*host), *theme));
            }
        },
    }
    r
}

// ---------------------------------------------------------------------------
// One line per fact
// ---------------------------------------------------------------------------
/// The distribution line, when the release text matches.
pub open spec fn distro_line_spec(text: Seq<char>, theme: Theme) -> Option<Seq<char>> {
    match distro_spec(text) {
        Some(v) => Some(format_data_spec("os"@, v, theme)),
        None => None,
    }
}

/// Render the distribution fact from the release-file text.
pub fn distro_line(text: &str, theme: &Theme) -> (r: Option<String>)
    ensures
        match r {
            Some(l) => distro_line_spec(text@, *theme) == Some(l@),
            None => distro_line_spec(text@, *theme) is None,
        },
{
    match extract_distro(text) {
        Some(v) => Some(format_data("os", v.as_str(), theme)),
        None => None,
    }
}

/// The kernel line, when the kernel text has two tokens.  The version token
/// is displayed; the name token is captured but unused.
pub open spec fn kernel_line_spec(text: Seq<char>, theme: Theme) -> Option<Seq<char>> {
    match kernel_spec(text) {
        Some(nv) => Some(format_data_spec("kernel"@, nv.1, theme)),
        None => None,
    }
}

/// Render the kernel fact from the kernel text.
pub fn kernel_line(text: &str, theme: &Theme) -> (r: Option<String>)
    ensures
        match r {
            Some(l) => kernel_line_spec(text@, *theme) == Some(l@),
            None => kernel_line_spec(text@, *theme) is None,
        },
{
    match extract_kernel(text) {
        Some((_name, version)) => Some(format_data("kernel", version.as_str(), theme)),
        None => None,
    }
}

/// The shell line, when the shell text has a trailing path segment.
pub open spec fn shell_line_spec(text: Seq<char>, theme: Theme) -> Option<Seq<char>> {
    match shell_spec(text) {
        Some(v) => Some(format_data_spec("shell"@, v, theme)),
        None => None,
    }
}

/// Render the shell fact from the shell text.
pub fn shell_line(text: &str, theme: &Theme) -> (r: Option<String>)
    ensures
        match r {
            Some(l) => shell_line_spec(text@, *theme) == Some(l@),
            None => shell_line_spec(text@, *theme) is None,
        },
{
    match extract_shell(text) {
        Some(v) => Some(format_data("shell", v.as_str(), theme)),
        None => None,
    }
}

/// The uptime value rendered as whole hours and remaining minutes.
pub open spec fn uptime_value_spec(secs: nat) -> Seq<char> {
    dec_spec(secs / 3600) + "h "@ + dec_spec((secs % 3600) / 60) + "m"@
}

/// Does the uptime text avoid the one fatal case?  True when it does not
/// match at all, or matches with a second count that fits in a `u32`.
pub open spec fn uptime_ok(text: Seq<char>) -> bool {
    match uptime_digits_spec(text) {
        Some(d) => digits_val(d) <= u32::MAX,
        None => true,
    }
}

/// The uptime line, when the uptime text matches (meaningful only under
/// `uptime_ok`).
pub open spec fn uptime_line_spec(text: Seq<char>, theme: Theme) -> Option<Seq<char>> {
    match uptime_digits_spec(text) {
        Some(d) => Some(format_data_spec("uptime"@, uptime_value_spec(digits_val(d)), theme)),
        None => None,
    }
}

/// Render the uptime fact from the uptime text.  The captured seconds are
/// parsed; a count too large for a `u32` is the pipeline's fatal error.
pub fn uptime_line(text: &str, theme: &Theme) -> (r: Result<Option<String>, FetchError>)
    ensures
        r is Ok <==> uptime_ok(text@),
        r matches Ok(o) ==> (match o {
            Some(l) => uptime_line_spec(text@, *theme) == Some(l@),
            None => uptime_line_spec(text@, *theme) is None,
        }),
        r matches Err(e) ==> e == FetchError::NumberTooLarge,
{
    match extract_uptime(text) {
        None => Ok(None),
        Some(digits) => {
            proof {
                lemma_run_end(text@, 0, CharClass::Digit);
                assert(forall|i: int|
                    0 <= i < digits@.len() ==> crate::text::is_digit(#[trigger] digits@[i]));
                assert(digits@.len() > 0);
            }
            match parse_u32(digits.as_str()) {
                None => {
                    proof {
                        assert(!fits_u32(digits@));
                        assert(digits_val(digits@) > u32::MAX);
                    }
                    Err(FetchError::NumberTooLarge)
                },
                Some(secs) => {
                    let hours = secs / 3600;
                    let minutes = (secs % 3600) / 60;
                    let mut value = u32_to_string(hours);
                    value.append("h ");
                    let m = u32_to_string(minutes);
                    value.append(m.as_str());
                    value.append("m");
                    proof {
                        assert(value@ =~= uptime_value_spec(digits_val(digits@)));
                    }
                    Ok(Some(format_data("uptime", value.as_str(), theme)))
                },
            }
        },
    }
}

/// The memory value `used`m / `total`m, straight from the captured digits.
pub open spec fn mem_value_spec(total: Seq<char>, used: Seq<char>) -> Seq<char> {
    used + "m / "@ + total + "m"@
}

/// The memory line, when the memory text has a matching `Mem:` row.
pub open spec fn memory_line_spec(text: Seq<char>, theme: Theme) -> Option<Seq<char>> {
    match mem_spec(text) {
        Some(tu) => Some(format_data_spec("memory"@, mem_value_spec(tu.0, tu.1), theme)),
        None => None,
    }
}

/// Render the memory fact from the memory text.
pub fn memory_line(text: &str, theme: &Theme) -> (r: Option<String>)
    ensures
        match r {
            Some(l) => memory_line_spec(text@, *theme) == Some(l@),
            None => memory_line_spec(text@, *theme) is None,
        },
{
    match extract_memory(text) {
        Some((total, used)) => {
            let mut value = used;
            value.append("m / ");
            value.append(total.as_str());
            value.append("m");
            Some(format_data("memory", value.as_str(), theme))
        },
        None => None,
    }
}

// ---------------------------------------------------------------------------
// The data list and the summary
// ---------------------------------------------------------------------------
/// Every display line of the run, in display order: identity and separator
/// when the hostname was read, then one line per fact whose text matched.
pub open spec fn data_list_spec(
    user: Seq<char>,
    host: Option<Seq<char>>,
    distro: Seq<char>,
    kernel: Seq<char>,
    shell: Seq<char>,
    uptime: Seq<char>,
    memory: Seq<char>,
    theme: Theme,
) -> Seq<Seq<char>> {
    identity_lines_spec(user, host, theme) + opt_lines(distro_line_spec(distro, theme)) + opt_lines(
        kernel_line_spec(kernel, theme),
    ) + opt_lines(shell_line_spec(shell, theme)) + opt_lines(uptime_line_spec(uptime, theme))
        + opt_lines(memory_line_spec(memory, theme))
}

/// Build the ordered data list from the gathered texts.
pub fn build_data_list(
    user: &str,
    host: &Option<String>,
    distro: &str,
    kernel: &str,
    shell: &str,
    uptime: &str,
    memory: &str,
    theme: &Theme,
) -> (r: Result<Vec<String>, FetchError>)
    requires
        host matches Some(h) ==> user@.len() + 1 + h@.len() <= usize::MAX,
    ensures
        r is Ok <==> uptime_ok(uptime@),
        r matches Ok(v) ==> views_of(v@) == data_list_spec(
            user@,
            opt_view(*host),
            distro@,
            kernel@,
            shell@,
            uptime@,
            memory@,
            *theme,
        ),
        r matches Err(e) ==> e == FetchError::NumberTooLarge,
{
    let ghost part0 = identity_lines_spec(user@, opt_view(*host), *theme);
    let ghost part1 = part0 + opt_lines(distro_line_spec(distro@, *theme));
    let ghost part2 = part1 + opt_lines(kernel_line_spec(kernel@, *theme));
    let ghost part3 = part2 + opt_lines(shell_line_spec(shell@, *theme));
    let ghost part4 = part3 + opt_lines(uptime_line_spec(uptime@, *theme));

    let mut list = identity_lines(user, host, theme);
    if let Some(l) = distro_line(distro, theme) {
        list.push(l);
    }
    proof {
        assert(views_of(list@) =~= part1);
    }
    if let Some(l) = kernel_line(kernel, theme) {
        list.push(l);
    }
    proof {
        assert(views_of(list@) =~= part2);
    }
    if let Some(l) = shell_line(shell, theme) {
        list.push(l);
    }
    proof {
        assert(views_of(list@) =~= part3);
    }
    match uptime_line(uptime, theme) {
        Err(e) => {
            return Err(e);
        },
        Ok(Some(l)) => {
            list.push(l);
        },
        Ok(None) => {},
    }
    proof {
        assert(views_of(list@) =~= part4);
    }
    if let Some(l) = memory_line(memory, theme) {
        list.push(l);
    }
    proof {
        assert(views_of(list@) =~= data_list_spec(
            user@,
            opt_view(*host),
            distro@,
            kernel@,
            shell@,
            uptime@,
            memory@,
            *theme,
        ));
    }
    Ok(list)
}

/// The whole display: the art glyph's lines composed beside the data list.
pub open spec fn summary_spec(
    user: Seq<char>,
    host: Option<Seq<char>>,
    distro: Seq<char>,
    kernel: Seq<char>,
    shell: Seq<char>,
    uptime: Seq<char>,
    memory: Seq<char>,
    theme: Theme,
) -> Seq<char> {
    compose_spec(
        split_trim_spec(art_source_spec(theme)),
        data_list_spec(user, host, distro, kernel, shell, uptime, memory, theme),
    )
}

/// Run the whole rendering pipeline over the gathered texts.
pub fn summary(
    user: &str,
    host: &Option<String>,
    distro: &str,
    kernel: &str,
    shell: &str,
    uptime: &str,
    memory: &str,
    theme: &Theme,
) -> (r: Result<String, FetchError>)
    requires
        host matches Some(h) ==> user@.len() + 1 + h@.len() <= usize::MAX,
    ensures
        r is Ok <==> uptime_ok(uptime@),
        r matches Ok(out) ==> out@ == summary_spec(
            user@,
            opt_view(*host),
            distro@,
            kernel@,
            shell@,
            uptime@,
            memory@,
            *theme,
        ),
        r matches Err(e) ==> e == FetchError::NumberTooLarge,
{
    let art = art_lines(theme);
    match build_data_list(user, host, distro, kernel, shell, uptime, memory, theme) {
        Ok(list) => Ok(compose(&art, &list)),
        Err(e) => Err(e),
    }
}

// ---------------------------------------------------------------------------
// Laws about the pipeline
// ---------------------------------------------------------------------------
/// Law: when the hostname read fails, no identity line and no separator line
/// appear, and no other fact is affected — the data list is exactly the tail
/// of the list that any successfully read hostname would have produced.
pub proof fn lemma_missing_hostname(
    user: Seq<char>,
    host: Seq<char>,
    distro: Seq<char>,
    kernel: Seq<char>,
    shell: Seq<char>,
    uptime: Seq<char>,
    memory: Seq<char>,
    theme: Theme,
)
    ensures
        identity_lines_spec(user, None, theme) == Seq::<Seq<char>>::empty(),
        data_list_spec(user, None, distro, kernel, shell, uptime, memory, theme) == data_list_spec(
            user,
            Some(host),
            distro,
            kernel,
            shell,
            uptime,
            memory,
            theme,
        ).skip(2),
{
    assert(identity_lines_spec(user, None, theme) =~= Seq::<Seq<char>>::empty());
    assert(data_list_spec(user, None, distro, kernel, shell, uptime, memory, theme)
        =~= data_list_spec(user, Some(host), distro, kernel, shell, uptime, memory, theme).skip(2));
}

/// Law: the pipeline is a pure function of the gathered system state — two
/// runs over identical texts yield identical output.
pub proof fn lemma_summary_deterministic(
    out1: Seq<char>,
    out2: Seq<char>,
    user: Seq<char>,
    host: Option<Seq<char>>,
    distro: Seq<char>,
    kernel: Seq<char>,
    shell: Seq<char>,
    uptime: Seq<char>,
    memory: Seq<char>,
    theme: Theme,
)
    requires
        out1 == summary_spec(user, host, distro, kernel, shell, uptime, memory, theme),
        out2 == summary_spec(user, host, distro, kernel, shell, uptime, memory, theme),
    ensures
        out1 == out2,
{
}

} // verus!
