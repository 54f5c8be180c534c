use mngr::text::parse_i16;
use mngr::text::remove_spaces;
use mngr::text::replace_crlf;
use mngr::text::split_char;
use mngr::text::str_ends_with;
use mngr::text::str_eq;
use mngr::url::download_url;
use mngr::url::endpoint_from_repository_url;
use mngr::url::parse_repository_url;
use mngr::url::releases_endpoint;
use mngr::data::PluginData;
use mngr::time::Timestamp;

#[test]
fn str_eq_compares_characters() {
    assert!(str_eq("abc", "abc"));
    assert!(!str_eq("abc", "abd"));
    assert!(!str_eq("abc", "ab"));
    assert!(str_eq("", ""));
}

#[test]
fn split_keeps_empty_pieces() {
    let parts = split_char("a,b,,c", ',');
    assert_eq!(parts, vec!["a", "b", "", "c"]);
}

#[test]
fn split_of_empty_is_one_empty_piece() {
    assert_eq!(split_char("", ','), vec![""]);
    assert_eq!(split_char("abc", ','), vec!["abc"]);
}

#[test]
fn split_url_segments() {
    let parts = split_char("https://github.com/acme/widget/releases/tag/v1.0.0", '/');
    assert_eq!(parts[3], "acme");
    assert_eq!(parts[4], "widget");
    assert_eq!(parts[7], "v1.0.0");
}

#[test]
fn remove_spaces_removes_all() {
    assert_eq!(remove_spaces(" a b  c "), "abc");
    assert_eq!(remove_spaces("abc"), "abc");
    assert_eq!(remove_spaces("   "), "");
}

#[test]
fn replace_crlf_normalizes_line_endings() {
    assert_eq!(replace_crlf("a\r\nb\rc\nd\r\n"), "a\nb\rc\nd\n");
    assert_eq!(replace_crlf("\r\n\r\n"), "\n\n");
    assert_eq!(replace_crlf("plain"), "plain");
    assert_eq!(replace_crlf(""), "");
}

#[test]
fn ends_with_checks_suffix() {
    assert!(str_ends_with("widget.git", ".git"));
    assert!(!str_ends_with("widget", ".git"));
    assert!(!str_ends_with("git", ".git"));
    assert!(str_ends_with("anything", ""));
}

#[test]
fn parse_i16_exact_values() {
    assert_eq!(parse_i16("123"), Some(123));
    assert_eq!(parse_i16("0"), Some(0));
    assert_eq!(parse_i16("+7"), Some(7));
    assert_eq!(parse_i16("-32768"), Some(-32768));
    assert_eq!(parse_i16("32767"), Some(32767));
    assert_eq!(parse_i16("00123"), Some(123));
}

#[test]
fn parse_i16_rejects_bad_numerals() {
    assert_eq!(parse_i16("32768"), None);
    assert_eq!(parse_i16("-32769"), None);
    assert_eq!(parse_i16(""), None);
    assert_eq!(parse_i16("-"), None);
    assert_eq!(parse_i16("+"), None);
    assert_eq!(parse_i16("12a"), None);
    assert_eq!(parse_i16(" 12"), None);
    assert_eq!(parse_i16("999999999999999999999"), None);
}

#[test]
fn url_accepts_canonical_repository() {
    let r = parse_repository_url("https://github.com/acme/widget").unwrap();
    assert_eq!(r.owner, "acme");
    assert_eq!(r.repo, "widget");
}

#[test]
fn url_strips_git_suffix() {
    let r = parse_repository_url("https://github.com/acme/widget.git").unwrap();
    assert_eq!(r.owner, "acme");
    assert_eq!(r.repo, "widget");
}

#[test]
fn url_allows_word_characters_in_repository_name() {
    let r = parse_repository_url("https://github.com/a1-b2/my_repo.v2").unwrap();
    assert_eq!(r.owner, "a1-b2");
    assert_eq!(r.repo, "my_repo.v2");
}

#[test]
fn url_allows_repository_names_beyond_ascii() {
    let r = parse_repository_url("https://github.com/acme/w\u{ef}dget").unwrap();
    assert_eq!(r.repo, "w\u{ef}dget");
    // the owner segment stays ASCII letters, digits and hyphens
    assert!(parse_repository_url("https://github.com/\u{e9}cme/widget").is_none());
}

#[test]
fn url_rejects_wrong_scheme_or_host() {
    assert!(parse_repository_url("http://github.com/acme/widget").is_none());
    assert!(parse_repository_url("https://example.com/acme/widget").is_none());
    assert!(parse_repository_url("github.com/acme/widget").is_none());
}

#[test]
fn url_rejects_bad_owner() {
    assert!(parse_repository_url("https://github.com/-acme/widget").is_none());
    assert!(parse_repository_url("https://github.com/acme-/widget").is_none());
    assert!(parse_repository_url("https://github.com/ac--me/widget").is_none());
    assert!(parse_repository_url("https://github.com/ac_me/widget").is_none());
    assert!(parse_repository_url("https://github.com//widget").is_none());
}

#[test]
fn url_rejects_double_hyphen_in_repository_name() {
    assert!(parse_repository_url("https://github.com/acme/wid--get").is_none());
}

#[test]
fn url_rejects_missing_or_empty_repository() {
    assert!(parse_repository_url("https://github.com/acme").is_none());
    assert!(parse_repository_url("https://github.com/acme/").is_none());
    assert!(parse_repository_url("https://github.com/").is_none());
}

#[test]
fn url_length_after_prefix_is_bounded() {
    // owner `a`, slash, and a 37-character repository name: 39 in all
    let ok = format!("https://github.com/a/{}", "r".repeat(37));
    assert!(parse_repository_url(&ok).is_some());
    let too_long = format!("https://github.com/a/{}", "r".repeat(38));
    assert!(parse_repository_url(&too_long).is_none());
}

#[test]
fn endpoints_are_assembled_exactly() {
    assert_eq!(
        releases_endpoint("acme", "widget"),
        "https://api.github.com/repos/acme/widget/releases"
    );
    assert_eq!(
        endpoint_from_repository_url("https://github.com/acme/widget").unwrap(),
        "https://api.github.com/repos/acme/widget/releases"
    );
    assert!(endpoint_from_repository_url("nonsense").is_none());
}

#[test]
fn download_url_is_assembled_exactly() {
    let p = PluginData::new(
        String::from("widget"),
        String::from("v1.2.3"),
        Timestamp { secs: 0, nanos: 0 },
        None,
        false,
        String::from("widget-1.2.3.jar"),
        String::from("https://github.com/acme/widget"),
        true,
    );
    assert_eq!(
        download_url(&p),
        "https://github.com/acme/widget/releases/download/v1.2.3/widget-1.2.3.jar"
    );
}
