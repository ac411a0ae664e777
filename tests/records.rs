use ghcrawl::records::{format_repo_line, is_mostly_language, parse_repo_line, tally_paths};

#[test]
fn parses_name_stars_bytes() {
    assert_eq!(
        parse_repo_line("torvalds/linux 170000 1234567"),
        Some(("torvalds/linux".to_string(), 170000, 1234567))
    );
}

#[test]
fn extra_fields_are_ignored() {
    assert_eq!(parse_repo_line("a/b 1 2 3 x"), Some(("a/b".to_string(), 1, 2)));
}

#[test]
fn plus_sign_is_accepted_like_str_parse() {
    assert_eq!(parse_repo_line("a/b +7 +0"), Some(("a/b".to_string(), 7, 0)));
    assert_eq!(parse_repo_line("a/b + 3"), None);
}

#[test]
fn malformed_lines_hold_nothing() {
    assert_eq!(parse_repo_line(""), None);
    assert_eq!(parse_repo_line("a/b 12"), None);
    assert_eq!(parse_repo_line("a/b x 12"), None);
    assert_eq!(parse_repo_line("a/b 12 -3"), None);
    assert_eq!(parse_repo_line("a/b  12 3"), None);
    assert_eq!(parse_repo_line("a/b 99999999999999999999999 3"), None);
}

#[test]
fn number_limits() {
    let max = usize::MAX.to_string();
    let line = format!("n {} {}", max, 0);
    assert_eq!(parse_repo_line(&line), Some(("n".to_string(), usize::MAX, 0)));
}

#[test]
fn empty_name_is_kept() {
    assert_eq!(parse_repo_line(" 1 2"), Some((String::new(), 1, 2)));
}

#[test]
fn language_share_rule() {
    assert!(is_mostly_language(50, 100));
    assert!(!is_mostly_language(49, 100));
    assert!(is_mostly_language(0, 0));
    assert!(is_mostly_language(usize::MAX, usize::MAX));
    assert!(!is_mostly_language(0, 1));
}

#[test]
fn tally_counts_each_path_once() {
    let paths: Vec<String> = ["a.c", "b.c", "a.c", "c.c", "a.c", "b.c"].iter().map(|s| s.to_string()).collect();
    let t = tally_paths(&paths);
    assert_eq!(t, vec![("a.c".to_string(), 3), ("b.c".to_string(), 2), ("c.c".to_string(), 1)]);
}

#[test]
fn tally_of_nothing_is_empty() {
    assert!(tally_paths(&Vec::new()).is_empty());
}

#[test]
fn written_line_reads_back() {
    let line = format_repo_line("curl/curl", 36000, 4_500_000);
    assert_eq!(line, "curl/curl 36000 4500000");
    assert_eq!(parse_repo_line(&line), Some(("curl/curl".to_string(), 36000, 4_500_000)));
    let edge = format_repo_line("x", 0, usize::MAX);
    assert_eq!(parse_repo_line(&edge), Some(("x".to_string(), 0, usize::MAX)));
}
