use mngr::data::AppData;
use mngr::data::PluginData;
use mngr::ops::OpError;
use mngr::ops::RemovalKey;
use mngr::ops::UpdatePlan;
use mngr::ops::classify_status;
use mngr::ops::filter_registered_names;
use mngr::ops::get_rate_limit_remaining;
use mngr::ops::plan_update;
use mngr::ops::register_finish;
use mngr::ops::register_from_response;
use mngr::ops::register_insert;
use mngr::ops::register_prepare;
use mngr::ops::unregister;
use mngr::releases::ReleaseRecord;
use mngr::releases::get_latest_date;
use mngr::releases::get_latest_plugin;
use mngr::releases::remove_pre_release;
use mngr::releases::response_parser;
use mngr::time::Timestamp;

fn empty_app() -> AppData {
    AppData::new(
        Some(String::from("id-1")),
        Some(String::from("2024-01-01T00:00:00Z")),
        None,
    )
}

fn plugin(name: &str, version: &str, pre: bool, file: &str) -> PluginData {
    PluginData::new(
        String::from(name),
        String::from(version),
        Timestamp { secs: 1704067200, nanos: 0 },
        None,
        pre,
        String::from(file),
        format!("https://github.com/acme/{}", name),
        true,
    )
}

// Two releases of acme/widget: an older stable one and a newer pre-release.
const WIDGET_LISTING: &str = r#"[
  {"html_url": "https://github.com/acme/widget/releases/tag/v1.0.0",
   "prerelease": false,
   "body": "stable notes\r\nsecond line",
   "assets": [{"name": "widget-1.0.0.jar", "created_at": "2024-01-01T00:00:00Z"},
              {"name": "ignored-extra.jar", "created_at": "2030-01-01T00:00:00Z"}]},
  {"html_url": "https://github.com/acme/widget/releases/tag/v2.0.0-rc1",
   "prerelease": true,
   "assets": [{"name": "widget-2.0.0-rc1.jar", "created_at": "2024-06-01T00:00:00Z"}]}
]"#;

fn same_records(a: &[ReleaseRecord], b: &[ReleaseRecord]) -> bool {
    a.len() == b.len()
        && a.iter().zip(b.iter()).all(|(x, y)| {
            x.created == y.created
                && x.plugin.name == y.plugin.name
                && x.plugin.version == y.plugin.version
                && x.plugin.introduced_date == y.plugin.introduced_date
                && x.plugin.description == y.plugin.description
                && x.plugin.pre_release == y.plugin.pre_release
                && x.plugin.file_name == y.plugin.file_name
                && x.plugin.repository_url == y.plugin.repository_url
        })
}

#[test]
fn parser_reads_both_releases() {
    let records = response_parser(WIDGET_LISTING);
    assert_eq!(records.len(), 2);
    let stable = records.iter().find(|r| !r.plugin.pre_release).unwrap();
    assert_eq!(stable.plugin.name, "widget");
    assert_eq!(stable.plugin.version, "v1.0.0");
    assert_eq!(stable.plugin.file_name, "widget-1.0.0.jar");
    assert_eq!(stable.plugin.repository_url, "https://github.com/acme/widget");
    assert_eq!(stable.created, Timestamp { secs: 1704067200, nanos: 0 });
    assert_eq!(
        stable.plugin.description,
        Some(vec![String::from("stable notes\nsecond line")])
    );
    let pre = records.iter().find(|r| r.plugin.pre_release).unwrap();
    assert_eq!(pre.plugin.version, "v2.0.0-rc1");
    assert_eq!(pre.plugin.description, None);
}

#[test]
fn parsing_twice_yields_identical_records() {
    let first = response_parser(WIDGET_LISTING);
    let second = response_parser(WIDGET_LISTING);
    assert!(same_records(&first, &second));
}

#[test]
fn parser_skips_incomplete_entries() {
    let listing = r#"[
      {"html_url": "https://github.com/acme/widget/releases/tag/v1.0.0",
       "prerelease": false,
       "assets": []},
      {"html_url": "https://github.com/acme/widget/releases/tag/v2.0.0",
       "prerelease": false},
      {"prerelease": false,
       "assets": [{"name": "a.jar", "created_at": "2024-01-01T00:00:00Z"}]},
      {"html_url": "https://github.com/acme/widget/releases/tag/v3.0.0",
       "prerelease": false,
       "assets": [{"name": "b.jar", "created_at": "not a date"}]},
      {"html_url": "https://github.com/short",
       "prerelease": false,
       "assets": [{"name": "c.jar", "created_at": "2024-01-01T00:00:00Z"}]},
      {"html_url": "https://github.com/acme/widget/releases/tag/v4.0.0",
       "prerelease": false,
       "assets": [{"name": "keep.jar", "created_at": "2024-02-01T00:00:00Z"}]}
    ]"#;
    let records = response_parser(listing);
    assert_eq!(records.len(), 1);
    assert_eq!(records[0].plugin.version, "v4.0.0");
    assert_eq!(records[0].plugin.file_name, "keep.jar");
}

#[test]
fn parser_gives_empty_on_malformed_payload() {
    assert_eq!(response_parser("not json").len(), 0);
    assert_eq!(response_parser("{\"an\": \"object\"}").len(), 0);
    assert_eq!(response_parser("[]").len(), 0);
}

#[test]
fn equal_instants_keep_the_later_entry() {
    let listing = r#"[
      {"html_url": "https://github.com/acme/widget/releases/tag/v1.0.0",
       "prerelease": false,
       "assets": [{"name": "first.jar", "created_at": "2024-01-01T00:00:00Z"}]},
      {"html_url": "https://github.com/acme/widget/releases/tag/v1.0.1",
       "prerelease": false,
       "assets": [{"name": "second.jar", "created_at": "2024-01-01T00:00:00Z"}]}
    ]"#;
    let records = response_parser(listing);
    assert_eq!(records.len(), 1);
    assert_eq!(records[0].plugin.version, "v1.0.1");
}

#[test]
fn latest_selection_takes_the_maximum_instant() {
    let mut records = response_parser(WIDGET_LISTING);
    let selected = get_latest_plugin(&mut records).unwrap();
    assert_eq!(selected.version, "v2.0.0-rc1");
    assert_eq!(records.len(), 1);
    assert_eq!(records[0].plugin.version, "v1.0.0");
}

#[test]
fn latest_selection_of_empty_is_none() {
    let mut records: Vec<ReleaseRecord> = Vec::new();
    assert!(get_latest_plugin(&mut records).is_none());
    assert!(get_latest_date(&records).is_none());
}

#[test]
fn latest_date_reports_the_maximum() {
    let records = response_parser(WIDGET_LISTING);
    let latest = get_latest_date(&records).unwrap();
    assert_eq!(latest, Timestamp { secs: 1717200000, nanos: 0 });
}

#[test]
fn stable_selection_never_returns_a_pre_release() {
    let mut records = response_parser(WIDGET_LISTING);
    remove_pre_release(&mut records);
    let selected = get_latest_plugin(&mut records).unwrap();
    assert!(!selected.pre_release);
    assert_eq!(selected.version, "v1.0.0");
}

#[test]
fn all_pre_release_records_select_nothing() {
    let listing = r#"[
      {"html_url": "https://github.com/acme/widget/releases/tag/v1.0.0-rc1",
       "prerelease": true,
       "assets": [{"name": "a.jar", "created_at": "2024-01-01T00:00:00Z"}]},
      {"html_url": "https://github.com/acme/widget/releases/tag/v1.0.0-rc2",
       "prerelease": true,
       "assets": [{"name": "b.jar", "created_at": "2024-02-01T00:00:00Z"}]}
    ]"#;
    let mut records = response_parser(listing);
    remove_pre_release(&mut records);
    assert!(get_latest_plugin(&mut records).is_none());
}

#[test]
fn status_classification() {
    assert!(classify_status(200).is_ok());
    assert_eq!(classify_status(401), Err(OpError::Unauthorized));
    assert_eq!(classify_status(404), Err(OpError::RemoteError(404)));
    assert_eq!(classify_status(500), Err(OpError::RemoteError(500)));
}

#[test]
fn prepare_rejects_bad_url_before_any_request() {
    let app = empty_app();
    let r = register_prepare(&app, &String::from("https://github.com/-bad-/widget"));
    assert!(matches!(r, Err(OpError::InvalidUrl)));
}

#[test]
fn prepare_derives_endpoint_and_token() {
    let app = empty_app();
    let q = register_prepare(&app, &String::from("https://github.com/acme/widget.git")).unwrap();
    assert_eq!(q.url, "https://api.github.com/repos/acme/widget/releases");
    assert!(q.token.is_none());

    let with_token = AppData::new(
        Some(String::from("id")),
        Some(String::from("2024-01-01T00:00:00Z")),
        Some(String::from("SECRET-REDACTED")),
    );
    let q2 = register_prepare(&with_token, &String::from("https://github.com/acme/widget")).unwrap();
    assert_eq!(q2.token.as_deref(), Some("SECRET-REDACTED"));
}

#[test]
fn registration_selects_latest_including_pre_releases() {
    let mut app = empty_app();
    let p = register_finish(&mut app, WIDGET_LISTING).unwrap();
    assert_eq!(p.name, "widget");
    assert_eq!(p.version, "v2.0.0-rc1");
    assert!(p.pre_release);
    assert_eq!(app.plugins.len(), 1);
    assert_eq!(app.get(&String::from("widget")).unwrap().version, "v2.0.0-rc1");
}

#[test]
fn registering_the_same_name_twice_fails_and_changes_nothing() {
    let mut app = empty_app();
    register_finish(&mut app, WIDGET_LISTING).unwrap();
    let before: Vec<String> = app.plugins.iter().map(|p| p.content()).collect();
    let second = register_finish(&mut app, WIDGET_LISTING);
    assert!(matches!(second, Err(OpError::AlreadyRegistered)));
    let after: Vec<String> = app.plugins.iter().map(|p| p.content()).collect();
    assert_eq!(before, after);
}

#[test]
fn register_insert_rejects_duplicate_directly() {
    let mut app = empty_app();
    register_insert(&mut app, plugin("widget", "v1.0.0", false, "w.jar")).unwrap();
    let r = register_insert(&mut app, plugin("widget", "v9.9.9", false, "w9.jar"));
    assert!(matches!(r, Err(OpError::AlreadyRegistered)));
    assert_eq!(app.plugins.len(), 1);
    assert_eq!(app.get(&String::from("widget")).unwrap().version, "v1.0.0");
}

#[test]
fn registration_of_empty_listing_is_a_parse_error() {
    let mut app = empty_app();
    let r = register_finish(&mut app, "[]");
    assert!(matches!(r, Err(OpError::ParseError)));
    assert_eq!(app.plugins.len(), 0);
}

#[test]
fn update_skips_when_already_current() {
    // one registered plugin at v1.0.0, and a listing whose only release is
    // that same version: no file operations, record unchanged
    let current = plugin("widget", "v1.0.0", false, "widget.jar");
    let listing = r#"[
      {"html_url": "https://github.com/acme/widget/releases/tag/v1.0.0",
       "prerelease": false,
       "assets": [{"name": "widget.jar", "created_at": "2024-01-01T00:00:00Z"}]}
    ]"#;
    let records = response_parser(listing);
    let plan = plan_update(&current, records, false);
    assert!(matches!(plan, UpdatePlan::SkipCurrent));
}

#[test]
fn update_skips_when_no_candidate_remains() {
    let current = plugin("widget", "v1.0.0", false, "widget.jar");
    let listing = r#"[
      {"html_url": "https://github.com/acme/widget/releases/tag/v2.0.0-rc1",
       "prerelease": true,
       "assets": [{"name": "w.jar", "created_at": "2024-06-01T00:00:00Z"}]}
    ]"#;
    let records = response_parser(listing);
    let plan = plan_update(&current, records, false);
    assert!(matches!(plan, UpdatePlan::SkipNoRelease));
}

#[test]
fn update_installs_a_newer_version() {
    let current = plugin("widget", "v1.0.0", false, "widget.jar");
    let listing = r#"[
      {"html_url": "https://github.com/acme/widget/releases/tag/v1.1.0",
       "prerelease": false,
       "assets": [{"name": "widget-1.1.0.jar", "created_at": "2024-03-01T00:00:00Z"}]}
    ]"#;
    let records = response_parser(listing);
    match plan_update(&current, records, false) {
        UpdatePlan::Install(p) => {
            assert_eq!(p.version, "v1.1.0");
            assert_eq!(p.file_name, "widget-1.1.0.jar");
        },
        _ => panic!("expected an installation plan"),
    }
}

#[test]
fn update_with_pre_releases_included_sees_them() {
    let current = plugin("widget", "v1.0.0", false, "widget.jar");
    let records = response_parser(WIDGET_LISTING);
    match plan_update(&current, records, true) {
        UpdatePlan::Install(p) => assert_eq!(p.version, "v2.0.0-rc1"),
        _ => panic!("expected an installation plan"),
    }
}

#[test]
fn unregister_by_name_and_by_file() {
    let mut app = empty_app();
    app.insert(plugin("widget", "v1.0.0", false, "widget.jar"));
    app.insert(plugin("gadget", "v0.1.0", false, "gadget.jar"));
    let removed = unregister(&mut app, &RemovalKey::ByName(String::from("widget"))).unwrap();
    assert_eq!(removed.file_name, "widget.jar");
    let removed2 =
        unregister(&mut app, &RemovalKey::ByFileName(String::from("gadget.jar"))).unwrap();
    assert_eq!(removed2.name, "gadget");
    let missing = unregister(&mut app, &RemovalKey::ByName(String::from("widget")));
    assert!(matches!(missing, Err(OpError::NotRegistered)));
}

#[test]
fn named_subset_ignores_unregistered_names() {
    let mut app = empty_app();
    app.insert(plugin("widget", "v1", false, "w.jar"));
    app.insert(plugin("gadget", "v2", false, "g.jar"));
    let asked = vec![
        String::from("gadget"),
        String::from("nonexistent"),
        String::from("widget"),
    ];
    let targets = filter_registered_names(&app, &asked);
    assert_eq!(targets, vec!["widget", "gadget"]);
}

#[test]
fn rate_limit_header_parsing() {
    assert_eq!(get_rate_limit_remaining(Some(&String::from("4999"))), Some(4999));
    assert_eq!(get_rate_limit_remaining(Some(&String::from("not a number"))), None);
    // a value over the i16 range is reported as unknown
    assert_eq!(get_rate_limit_remaining(Some(&String::from("60000"))), None);
    assert_eq!(get_rate_limit_remaining(None), None);
}

#[test]
fn register_from_response_classifies_outcomes() {
    let mut app = empty_app();
    let none = register_from_response(&mut app, None);
    assert!(matches!(none, Err(OpError::TransportError)));
    let unauthorized =
        register_from_response(&mut app, Some((401, String::from(WIDGET_LISTING))));
    assert!(matches!(unauthorized, Err(OpError::Unauthorized)));
    let remote = register_from_response(&mut app, Some((503, String::from(WIDGET_LISTING))));
    assert!(matches!(remote, Err(OpError::RemoteError(503))));
    assert_eq!(app.plugins.len(), 0);
    let ok = register_from_response(&mut app, Some((200, String::from(WIDGET_LISTING))));
    assert_eq!(ok.unwrap().name, "widget");
    assert_eq!(app.plugins.len(), 1);
}
