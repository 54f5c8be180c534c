use mngr::data::AppData;
use mngr::data::PluginData;
use mngr::registry::get_not_prerelease_plugins_name;
use mngr::time::Timestamp;

fn plugin(name: &str, version: &str, pre: bool, file: &str) -> PluginData {
    PluginData::new(
        String::from(name),
        String::from(version),
        Timestamp { secs: 1704067200, nanos: 0 },
        None,
        pre,
        String::from(file),
        format!("https://github.com/acme/{}", name),
        true,
    )
}

fn empty_app() -> AppData {
    AppData::new(
        Some(String::from("id-1")),
        Some(String::from("2024-01-01T00:00:00Z")),
        None,
    )
}

#[test]
fn new_app_defaults() {
    let app = empty_app();
    assert_eq!(app.id, "id-1");
    assert_eq!(app.created_date, "2024-01-01T00:00:00Z");
    assert_eq!(app.github_token, "");
    assert_eq!(app.plugins.len(), 0);
}

#[test]
fn created_date_parses_back_to_the_instant() {
    let app = empty_app();
    let ts = app.get_created_utc().unwrap();
    assert_eq!(ts.secs, 1704067200);
    assert_eq!(ts.nanos, 0);
}

#[test]
fn created_date_with_offset_is_normalized_to_utc() {
    let app = AppData::new(
        Some(String::from("id-2")),
        Some(String::from("2024-01-01T02:00:00+02:00")),
        None,
    );
    let ts = app.get_created_utc().unwrap();
    assert_eq!(ts.secs, 1704067200);
}

#[test]
fn bad_created_date_gives_none() {
    let app = AppData::new(Some(String::from("id")), Some(String::from("yesterday")), None);
    assert!(app.get_created_utc().is_none());
}

#[test]
fn plugin_new_renders_the_instant() {
    let p = plugin("widget", "v1.0.0", false, "widget.jar");
    assert_eq!(p.introduced_date, "2024-01-01T00:00:00+00:00");
}

#[test]
fn rendered_instant_parses_back() {
    let p = plugin("widget", "v1.0.0", false, "widget.jar");
    let probe = AppData::new(Some(String::from("id")), Some(p.introduced_date.clone()), None);
    let ts = probe.get_created_utc().unwrap();
    assert_eq!(ts, Timestamp { secs: 1704067200, nanos: 0 });
}

#[test]
fn empty_new_is_all_empty() {
    let p = PluginData::empty_new();
    assert_eq!(p.name, "");
    assert_eq!(p.version, "");
    assert_eq!(p.introduced_date, "");
    assert!(p.description.is_none());
    assert!(!p.pre_release);
    assert_eq!(p.file_name, "");
    assert_eq!(p.repository_url, "");
    assert!(p.latest_in_the_time);
}

#[test]
fn content_renders_every_field() {
    let p = plugin("widget", "v1.0.0", false, "widget.jar");
    let expected = "\n- name: widget\n- version: v1.0.0\n\
                    - introduced date: 2024-01-01T00:00:00+00:00\n\
                    - pre release: false\n- filename: widget.jar\n\
                    - repository url: https://github.com/acme/widget\n";
    assert_eq!(p.content(), expected);
}

#[test]
fn duplicate_copies_every_field() {
    let mut p = plugin("widget", "v1.0.0", true, "widget.jar");
    p.description = Some(vec![String::from("notes")]);
    let q = p.duplicate();
    assert_eq!(q.name, p.name);
    assert_eq!(q.version, p.version);
    assert_eq!(q.introduced_date, p.introduced_date);
    assert_eq!(q.description, Some(vec![String::from("notes")]));
    assert_eq!(q.pre_release, p.pre_release);
    assert_eq!(q.file_name, p.file_name);
    assert_eq!(q.repository_url, p.repository_url);
    assert_eq!(q.latest_in_the_time, p.latest_in_the_time);
}

#[test]
fn insert_then_get_finds_the_record() {
    let mut app = empty_app();
    app.insert(plugin("widget", "v1.0.0", false, "widget.jar"));
    let got = app.get(&String::from("widget")).unwrap();
    assert_eq!(got.version, "v1.0.0");
    assert!(app.get(&String::from("gadget")).is_none());
}

#[test]
fn insert_overwrites_same_name() {
    let mut app = empty_app();
    app.insert(plugin("widget", "v1.0.0", false, "widget.jar"));
    app.insert(plugin("widget", "v2.0.0", false, "widget-2.jar"));
    assert_eq!(app.plugins.len(), 1);
    let got = app.get(&String::from("widget")).unwrap();
    assert_eq!(got.version, "v2.0.0");
}

#[test]
fn remove_by_name_hands_the_record_back() {
    let mut app = empty_app();
    app.insert(plugin("widget", "v1.0.0", false, "widget.jar"));
    app.insert(plugin("gadget", "v0.1.0", false, "gadget.jar"));
    let removed = app.remove(&String::from("widget")).unwrap();
    assert_eq!(removed.file_name, "widget.jar");
    assert_eq!(app.plugins.len(), 1);
    assert!(app.remove(&String::from("widget")).is_none());
}

#[test]
fn unregister_by_name_then_lookup_is_absent() {
    let mut app = empty_app();
    app.insert(plugin("widget", "v1.0.0", false, "widget.jar"));
    app.remove(&String::from("widget")).unwrap();
    assert!(app.get(&String::from("widget")).is_none());
}

#[test]
fn remove_by_file_name_takes_first_match_only() {
    let mut app = empty_app();
    app.insert(plugin("widget", "v1.0.0", false, "shared.jar"));
    app.insert(plugin("gadget", "v0.1.0", false, "shared.jar"));
    let removed = app.remove_where_file_name_equals(&String::from("shared.jar")).unwrap();
    assert_eq!(removed.name, "widget");
    assert_eq!(app.plugins.len(), 1);
    assert_eq!(app.plugins[0].name, "gadget");
}

#[test]
fn remove_by_file_name_missing_gives_none() {
    let mut app = empty_app();
    app.insert(plugin("widget", "v1.0.0", false, "widget.jar"));
    assert!(app.remove_where_file_name_equals(&String::from("other.jar")).is_none());
    assert_eq!(app.plugins.len(), 1);
}

#[test]
fn names_lists_registry_order() {
    let mut app = empty_app();
    app.insert(plugin("widget", "v1", false, "w.jar"));
    app.insert(plugin("gadget", "v2", false, "g.jar"));
    assert_eq!(app.names(), vec!["widget", "gadget"]);
}

#[test]
fn non_prerelease_names_filter() {
    let mut app = empty_app();
    assert!(get_not_prerelease_plugins_name(&app).is_none());
    app.insert(plugin("stable1", "v1", false, "a.jar"));
    app.insert(plugin("pre1", "v2", true, "b.jar"));
    app.insert(plugin("stable2", "v3", false, "c.jar"));
    let names = get_not_prerelease_plugins_name(&app).unwrap();
    assert_eq!(names, vec!["stable1", "stable2"]);
}

#[test]
fn all_prerelease_still_gives_some_empty_list() {
    let mut app = empty_app();
    app.insert(plugin("pre1", "v1", true, "a.jar"));
    let names = get_not_prerelease_plugins_name(&app).unwrap();
    assert!(names.is_empty());
}

#[test]
fn from_parts_deduplicates_names() {
    let records = vec![
        plugin("widget", "v1.0.0", false, "w1.jar"),
        plugin("widget", "v2.0.0", false, "w2.jar"),
        plugin("gadget", "v0.1.0", false, "g.jar"),
    ];
    let app = AppData::from_parts(
        String::from("id"),
        String::from("2024-01-01T00:00:00Z"),
        String::new(),
        records,
    );
    assert_eq!(app.plugins.len(), 2);
    assert_eq!(app.get(&String::from("widget")).unwrap().version, "v2.0.0");
}
