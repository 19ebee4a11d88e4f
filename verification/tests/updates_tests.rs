use resume_picker::updates::{
    code_upstream_delta, extract_json_version, git_update_info_from_counts, is_newer,
    parse_version,
};

#[test]
fn parse_version_reads_three_fields() {
    assert_eq!(parse_version("1.2.3"), Some((1, 2, 3)));
    assert_eq!(parse_version("  0.10.200  "), Some((0, 10, 200)));
    assert_eq!(parse_version("1.2.3.4"), Some((1, 2, 3)));
    assert_eq!(parse_version("1.2"), None);
    assert_eq!(parse_version("x.2.3"), None);
    assert_eq!(parse_version(""), None);
    assert_eq!(parse_version("1..3"), None);
}

#[test]
fn is_newer_compares_lexicographically() {
    assert_eq!(is_newer("1.2.10", "1.2.9"), Some(true));
    assert_eq!(is_newer("1.3.0", "1.2.9"), Some(true));
    assert_eq!(is_newer("2.0.0", "1.9.9"), Some(true));
    assert_eq!(is_newer("1.2.3", "1.2.3"), Some(false));
    assert_eq!(is_newer("1.2.3", "1.2.4"), Some(false));
    assert_eq!(is_newer("abc", "1.2.3"), None);
    assert_eq!(is_newer("1.2.3", ""), None);
}

#[test]
fn extract_json_version_finds_first_field() {
    let text = "{\n  \"name\": \"pkg\",\n  \"version\": \"0.2.155\",\n  \"license\": \"MIT\"\n}\n";
    assert_eq!(extract_json_version(text).as_deref(), Some("0.2.155"));

    let crlf = "{\r\n  \"version\": \"1.0.0\"\r\n}\r\n";
    assert_eq!(extract_json_version(crlf).as_deref(), Some("1.0.0"));

    assert_eq!(extract_json_version("{ \"name\": \"pkg\" }"), None);
    assert_eq!(extract_json_version("\"version\": 3"), None);
    assert_eq!(extract_json_version("\"version\": \"unterminated"), None);
}

#[test]
fn git_update_info_reports_only_when_behind() {
    let info = git_update_info_from_counts("main".to_owned(), "origin/main".to_owned(), "3\t5")
        .expect("behind count is positive");
    assert_eq!(info.branch, "main");
    assert_eq!(info.upstream, "origin/main");
    assert_eq!(info.ahead, 3);
    assert_eq!(info.behind, 5);

    assert!(git_update_info_from_counts("main".to_owned(), "o/m".to_owned(), "3\t0").is_none());
    assert!(git_update_info_from_counts("main".to_owned(), "o/m".to_owned(), "abc def").is_none());
    assert!(git_update_info_from_counts("main".to_owned(), "o/m".to_owned(), "").is_none());

    let spaced = git_update_info_from_counts("b".to_owned(), "u".to_owned(), "  0   7  ")
        .expect("whitespace-separated counts parse");
    assert_eq!(spaced.ahead, 0);
    assert_eq!(spaced.behind, 7);
}

#[test]
fn code_upstream_delta_picks_highest_tag() {
    let listing = "0a1\trefs/tags/v0.2.155\n0b2\trefs/tags/v0.3.0\n0c3\trefs/tags/v0.2.200\n";
    let delta = code_upstream_delta("0.2.0", listing).expect("a newer tag exists");
    assert_eq!(delta.current_version, "0.2.0");
    assert_eq!(delta.upstream_version, "0.3.0");

    assert!(code_upstream_delta("9.0.0", listing).is_none());
    assert!(code_upstream_delta("0.2.0", "").is_none());
    assert!(code_upstream_delta("0.2.0", "0a1\trefs/heads/main\n").is_none());
    // Lines without a tab or without the tag prefix contribute nothing.
    assert!(code_upstream_delta("0.0.1", "refs/tags/v1.0.0\n").is_none());
}
