use sysfetch::extract::extract_distro;
use sysfetch::extract::extract_kernel;
use sysfetch::extract::extract_memory;
use sysfetch::extract::extract_shell;
use sysfetch::extract::extract_uptime;
use sysfetch::facts::build_data_list;
use sysfetch::facts::kernel_line;
use sysfetch::facts::memory_line;
use sysfetch::facts::summary;
use sysfetch::facts::uptime_line;
use sysfetch::facts::FetchError;
use sysfetch::num::parse_u32;
use sysfetch::num::u32_to_string;
use sysfetch::render::art_lines;
use sysfetch::render::compose;
use sysfetch::render::format_data;
use sysfetch::render::identity_line;
use sysfetch::render::separator_line;
use sysfetch::text::split_by_newline;
use sysfetch::text::trim;
use sysfetch::theme::Theme;

const GREEN: &str = "\u{1b}[0;32m";
const YELLOW: &str = "\u{1b}[0;33m";
const BOLD: &str = "\u{1b}[1m";
const RESET: &str = "\u{1b}[0m";

#[test]
fn compose_emits_one_row_per_index() {
    let left = vec!["A".to_string(), "B".to_string(), "C".to_string()];
    let right = vec!["x".to_string()];
    assert_eq!(compose(&left, &right), "Ax\nB\nC\n");
    assert_eq!(compose(&right, &left), "xA\nB\nC\n");
    let out = compose(&left, &right);
    assert_eq!(out.matches('\n').count(), 3);
}

#[test]
fn compose_of_empty_sequences_is_empty() {
    let none: Vec<String> = Vec::new();
    assert_eq!(compose(&none, &none), "");
    let one = vec!["r".to_string()];
    assert_eq!(compose(&none, &one), "r\n");
    assert_eq!(compose(&one, &none), "r\n");
}

#[test]
fn compose_equal_lengths() {
    let left = vec!["L0".to_string(), "L1".to_string()];
    let right = vec!["R0".to_string(), "R1".to_string()];
    assert_eq!(compose(&left, &right), "L0R0\nL1R1\n");
}

#[test]
fn format_pads_key_to_seven_columns() {
    let theme = Theme::ansi();
    let line = format_data("uptime", "3h 5m", &theme);
    let expected = format!("{GREEN}\u{25aa}{BOLD} uptime {RESET} 3h 5m");
    assert_eq!(line, expected);
    assert!(line.contains("uptime "));
}

#[test]
fn format_leaves_long_keys_alone() {
    let theme = Theme::ansi();
    let line = format_data("longestkey", "v", &theme);
    let expected = format!("{GREEN}\u{25aa}{BOLD} longestkey{RESET} v");
    assert_eq!(line, expected);
}

#[test]
fn distro_pattern_strips_quotes() {
    let text = "DISTRIB_DESCRIPTION=\"Ubuntu 22.04 LTS\"\n";
    assert_eq!(extract_distro(text), Some("Ubuntu 22.04 LTS".to_string()));
}

#[test]
fn distro_pattern_quotes_optional() {
    assert_eq!(
        extract_distro("DISTRIB_DESCRIPTION=Ubuntu\n"),
        Some("Ubuntu".to_string())
    );
}

#[test]
fn distro_pattern_searches_anywhere() {
    let text = "NAME=other\nDISTRIB_DESCRIPTION=\"Arch rolling\"\nHOME_URL=x\n";
    assert_eq!(extract_distro(text), Some("Arch rolling".to_string()));
}

#[test]
fn distro_pattern_needs_newline() {
    assert_eq!(extract_distro("DISTRIB_DESCRIPTION=\"X\""), None);
    assert_eq!(extract_distro("DISTRIB_DESCRIPTION=\n"), None);
    assert_eq!(extract_distro(""), None);
}

#[test]
fn kernel_pattern_takes_two_tokens() {
    let got = extract_kernel("Linux 6.1.0-x86_64");
    assert_eq!(got, Some(("Linux".to_string(), "6.1.0-x86_64".to_string())));
}

#[test]
fn kernel_pattern_skips_leading_whitespace() {
    assert_eq!(
        extract_kernel("  a   b  "),
        Some(("a".to_string(), "b".to_string()))
    );
    assert_eq!(extract_kernel("only"), None);
    assert_eq!(extract_kernel(""), None);
}

#[test]
fn kernel_line_shows_version_only() {
    let theme = Theme::ansi();
    let line = kernel_line("Linux 6.1.0 x86_64", &theme).unwrap();
    assert!(line.contains("6.1.0"));
    assert!(!line.contains("Linux"));
}

#[test]
fn shell_pattern_takes_last_segment() {
    assert_eq!(extract_shell("/usr/bin/zsh"), Some("zsh".to_string()));
    assert_eq!(extract_shell("bash"), Some("bash".to_string()));
    assert_eq!(extract_shell("/usr/bin/"), None);
    assert_eq!(extract_shell(""), None);
}

#[test]
fn uptime_pattern_takes_leading_seconds() {
    assert_eq!(extract_uptime("7325.44 1200.0"), Some("7325".to_string()));
    assert_eq!(extract_uptime("12"), None);
    assert_eq!(extract_uptime(".5"), None);
    assert_eq!(extract_uptime("x7.0"), None);
}

#[test]
fn uptime_scenario_two_hours_two_minutes() {
    let theme = Theme::ansi();
    let got = uptime_line("7325.44 1200.0", &theme);
    let expected = format!("{GREEN}\u{25aa}{BOLD} uptime {RESET} 2h 2m");
    assert_eq!(got, Ok(Some(expected)));
}

#[test]
fn uptime_absent_is_not_an_error() {
    let theme = Theme::ansi();
    assert_eq!(uptime_line("garbage", &theme), Ok(None));
}

#[test]
fn uptime_too_large_is_fatal() {
    let theme = Theme::ansi();
    let got = uptime_line("4294967296.0", &theme);
    assert_eq!(got, Err(FetchError::NumberTooLarge));
    assert_eq!(
        FetchError::NumberTooLarge.message(),
        "captured number too large to parse"
    );
}

#[test]
fn memory_pattern_takes_total_then_used() {
    let text = "Mem:          7982        3211         120";
    assert_eq!(
        extract_memory(text),
        Some(("7982".to_string(), "3211".to_string()))
    );
}

#[test]
fn memory_scenario_used_over_total() {
    let theme = Theme::ansi();
    let line = memory_line("Mem:          7982        3211         120", &theme).unwrap();
    let expected = format!("{GREEN}\u{25aa}{BOLD} memory {RESET} 3211m / 7982m");
    assert_eq!(line, expected);
}

#[test]
fn memory_pattern_needs_whitespace_and_digits() {
    assert_eq!(extract_memory("Swap: 1 2"), None);
    assert_eq!(extract_memory("Mem:12 3"), None);
    assert_eq!(extract_memory("Mem: one 2"), None);
    assert_eq!(extract_memory("Mem: 1 2"), Some(("1".to_string(), "2".to_string())));
}

#[test]
fn parse_u32_bounds() {
    assert_eq!(parse_u32("0"), Some(0));
    assert_eq!(parse_u32("7325"), Some(7325));
    assert_eq!(parse_u32("4294967295"), Some(u32::MAX));
    assert_eq!(parse_u32("4294967296"), None);
    assert_eq!(parse_u32(""), None);
    assert_eq!(parse_u32("12a"), None);
}

#[test]
fn decimal_rendering() {
    assert_eq!(u32_to_string(0), "0");
    assert_eq!(u32_to_string(2), "2");
    assert_eq!(u32_to_string(7325), "7325");
    assert_eq!(u32_to_string(u32::MAX), "4294967295");
}

#[test]
fn trim_and_split() {
    assert_eq!(trim("  a b \n"), "a b");
    assert_eq!(trim("\t\n "), "");
    assert_eq!(trim("x"), "x");
    let lines = split_by_newline("  a  \nb\nc");
    assert_eq!(lines, vec!["a".to_string(), "b".to_string()]);
    assert_eq!(split_by_newline(""), Vec::<String>::new());
}

#[test]
fn identity_strips_spaces_and_newlines() {
    let theme = Theme::ansi();
    let line = identity_line("me", "box\n", &theme);
    let expected = format!("{GREEN}{BOLD}me{RESET}{BOLD}@{GREEN}box{RESET}");
    assert_eq!(line, expected);
}

#[test]
fn separator_counts_user_at_host() {
    let theme = Theme::ansi();
    let line = separator_line("me", "box\n", &theme);
    let rule = "\u{2501}".repeat(2 + 1 + 4);
    assert_eq!(line, format!("{YELLOW}{rule}{RESET}"));
}

#[test]
fn art_has_eight_trimmed_rows() {
    let theme = Theme::ansi();
    let lines = art_lines(&theme);
    assert_eq!(lines.len(), 8);
    assert_eq!(lines[0], format!("{GREEN}     /\\*\\       {RESET}"));
    assert_eq!(lines[7], format!("{YELLOW}      ||        {RESET}"));
}

#[test]
fn missing_hostname_drops_identity_and_nothing_else() {
    let theme = Theme::ansi();
    let distro = "DISTRIB_DESCRIPTION=\"Ubuntu 22.04 LTS\"\n";
    let kernel = "Linux 6.1.0 x86_64";
    let shell = "/bin/bash";
    let uptime = "7325.44 1200.0";
    let memory = "Mem: 7982 3211 120";
    let with_host = build_data_list(
        "me",
        &Some("box\n".to_string()),
        distro,
        kernel,
        shell,
        uptime,
        memory,
        &theme,
    )
    .unwrap();
    let without_host =
        build_data_list("me", &None, distro, kernel, shell, uptime, memory, &theme).unwrap();
    assert_eq!(with_host.len(), 7);
    assert_eq!(without_host.len(), 5);
    assert_eq!(&with_host[2..], &without_host[..]);
    let identity = identity_line("me", "box\n", &theme);
    let separator = separator_line("me", "box\n", &theme);
    assert!(!without_host.contains(&identity));
    assert!(!without_host.contains(&separator));
}

#[test]
fn unmatched_facts_are_silently_skipped() {
    let theme = Theme::ansi();
    let list = build_data_list("me", &None, "", "", "", "", "", &theme).unwrap();
    assert_eq!(list, Vec::<String>::new());
}

#[test]
fn summary_is_deterministic() {
    let theme1 = Theme::ansi();
    let theme2 = Theme::ansi();
    let host = Some("box\n".to_string());
    let first = summary(
        "me",
        &host,
        "DISTRIB_DESCRIPTION=\"Ubuntu 22.04 LTS\"\n",
        "Linux 6.1.0 x86_64",
        "/bin/zsh",
        "7325.44 1200.0",
        "Mem: 7982 3211 120",
        &theme1,
    )
    .unwrap();
    let second = summary(
        "me",
        &host,
        "DISTRIB_DESCRIPTION=\"Ubuntu 22.04 LTS\"\n",
        "Linux 6.1.0 x86_64",
        "/bin/zsh",
        "7325.44 1200.0",
        "Mem: 7982 3211 120",
        &theme2,
    )
    .unwrap();
    assert_eq!(first, second);
    assert_eq!(first.matches('\n').count(), 8);
}

#[test]
fn summary_places_facts_beside_art() {
    let theme = Theme::ansi();
    let out = summary(
        "me",
        &Some("box\n".to_string()),
        "DISTRIB_DESCRIPTION=\"Ubuntu 22.04 LTS\"\n",
        "Linux 6.1.0 x86_64",
        "/bin/zsh",
        "7325.44 1200.0",
        "Mem: 7982 3211 120",
        &theme,
    )
    .unwrap();
    let rows: Vec<&str> = out.split('\n').collect();
    assert_eq!(rows.len(), 9);
    assert_eq!(rows[8], "");
    assert!(rows[0].starts_with(GREEN));
    assert!(rows[0].contains("me"));
    assert!(rows[2].contains("Ubuntu 22.04 LTS"));
    assert!(rows[3].contains("6.1.0"));
    assert!(rows[4].contains("zsh"));
    assert!(rows[5].contains("2h 2m"));
    assert!(rows[6].contains("3211m / 7982m"));
}
