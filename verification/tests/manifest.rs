use package_json::BrowserField;
use package_json::ExportsField;
use package_json::ExportsKey;
use package_json::JsonValue;
use package_json::PackageJson;
use package_json::ResolveError;

fn s(v: &str) -> JsonValue {
    JsonValue::Str(v.to_string())
}

fn obj(entries: Vec<(&str, JsonValue)>) -> JsonValue {
    JsonValue::Object(
        entries
            .into_iter()
            .map(|(k, v)| (k.to_string(), v))
            .collect(),
    )
}

fn names(list: &[&str]) -> Vec<String> {
    list.iter().map(|n| n.to_string()).collect()
}

fn parse(json: &JsonValue, mains: &[&str], aliases: &[&str]) -> Result<PackageJson, ResolveError> {
    PackageJson::parse(
        "/pkg/dir/package.json".to_string(),
        json,
        &names(mains),
        &names(aliases),
    )
}

#[test]
fn directory_is_parent_of_manifest_path() {
    let m = parse(&obj(vec![]), &[], &[]).unwrap();
    assert_eq!(m.directory(), "/pkg/dir");
}

#[test]
fn name_field_is_read() {
    let m = parse(&obj(vec![("name", s("my-pkg"))]), &[], &[]).unwrap();
    assert_eq!(m.name, Some("my-pkg".to_string()));
    let m2 = parse(&obj(vec![]), &[], &[]).unwrap();
    assert_eq!(m2.name, None);
    let m3 = parse(&obj(vec![("name", JsonValue::Null)]), &[], &[]).unwrap();
    assert_eq!(m3.name, None);
}

#[test]
fn non_object_manifest_fails_parse() {
    let r = parse(&s("not a manifest"), &[], &[]);
    assert_eq!(r.err(), Some(ResolveError::ParseFailure));
}

#[test]
fn main_fields_collected_in_configuration_order() {
    let json = obj(vec![
        ("main", s("./main.js")),
        ("module", s("./module.mjs")),
        ("browser", s("./browser.js")),
    ]);
    let m = parse(&json, &["module", "main", "missing"], &[]).unwrap();
    assert_eq!(
        m.main_fields,
        vec!["./module.mjs".to_string(), "./main.js".to_string()]
    );
}

#[test]
fn non_string_main_field_is_skipped() {
    let json = obj(vec![("main", JsonValue::Number)]);
    let m = parse(&json, &["main"], &[]).unwrap();
    assert!(m.main_fields.is_empty());
}

#[test]
fn missing_exports_is_absent() {
    let m = parse(&obj(vec![]), &[], &[]).unwrap();
    assert!(m.exports.is_none());
}

#[test]
fn null_exports_is_absent() {
    let m = parse(&obj(vec![("exports", JsonValue::Null)]), &[], &[]).unwrap();
    assert!(m.exports.is_none());
}

#[test]
fn string_exports_is_leaf() {
    let m = parse(&obj(vec![("exports", s("./index.js"))]), &[], &[]).unwrap();
    match &m.exports {
        ExportsField::Leaf(t) => assert_eq!(t, "./index.js"),
        other => panic!("expected a leaf, got {other:?}"),
    }
}

#[test]
fn numeric_exports_fails_parse() {
    let r = parse(&obj(vec![("exports", JsonValue::Number)]), &[], &[]);
    assert_eq!(r.err(), Some(ResolveError::ParseFailure));
}

#[test]
fn exports_map_keeps_source_order_and_classifies_keys() {
    let json = obj(vec![(
        "exports",
        obj(vec![(".", s("./index.js")), ("./sub", s("./sub.js"))]),
    )]);
    let m = parse(&json, &[], &[]).unwrap();
    match &m.exports {
        ExportsField::Conditional(entries) => {
            assert_eq!(entries.len(), 2);
            assert_eq!(entries[0].0, ExportsKey::Main);
            assert_eq!(entries[1].0, ExportsKey::Pattern("/sub".to_string()));
        }
        other => panic!("expected a map, got {other:?}"),
    }
}

#[test]
fn exports_array_becomes_alternatives() {
    let json = obj(vec![(
        "exports",
        JsonValue::Array(vec![s("./a.js"), s("./b.js")]),
    )]);
    let m = parse(&json, &[], &[]).unwrap();
    match &m.exports {
        ExportsField::Alternatives(list) => assert_eq!(list.len(), 2),
        other => panic!("expected alternatives, got {other:?}"),
    }
}

#[test]
fn imports_entries_are_classified() {
    let json = obj(vec![("imports", obj(vec![("#dep", s("./dep.js"))]))]);
    let m = parse(&json, &[], &[]).unwrap();
    assert_eq!(m.imports.len(), 1);
    assert_eq!(m.imports[0].0, ExportsKey::Pattern("#dep".to_string()));
}

#[test]
fn missing_imports_is_empty() {
    let m = parse(&obj(vec![]), &[], &[]).unwrap();
    assert!(m.imports.is_empty());
}

#[test]
fn null_imports_fails_parse() {
    let r = parse(&obj(vec![("imports", JsonValue::Null)]), &[], &[]);
    assert_eq!(r.err(), Some(ResolveError::ParseFailure));
}

#[test]
fn string_browser_field_is_whole() {
    let json = obj(vec![("browser", s("./browser.js"))]);
    let m = parse(&json, &[], &["browser"]).unwrap();
    assert_eq!(m.browser_fields.len(), 1);
    match &m.browser_fields[0] {
        BrowserField::Whole(v) => assert_eq!(v, "./browser.js"),
        other => panic!("expected a whole-module field, got {other:?}"),
    }
}

#[test]
fn relative_browser_keys_are_normalized_to_absolute() {
    let json = obj(vec![(
        "browser",
        obj(vec![
            ("./foo.js", JsonValue::Bool(false)),
            ("/kept/abs.js", s("./other.js")),
            ("bare-module", s("./shim.js")),
        ]),
    )]);
    let m = parse(&json, &[], &["browser"]).unwrap();
    match &m.browser_fields[0] {
        BrowserField::PathMap(map) => {
            assert_eq!(map[0].0, "/pkg/dir/foo.js");
            assert_eq!(map[1].0, "/kept/abs.js");
            assert_eq!(map[2].0, "bare-module");
        }
        other => panic!("expected a path map, got {other:?}"),
    }
}

#[test]
fn boolean_browser_field_fails_parse() {
    let json = obj(vec![("browser", JsonValue::Bool(true))]);
    let r = parse(&json, &[], &["browser"]);
    assert_eq!(r.err(), Some(ResolveError::ParseFailure));
}

#[test]
fn browser_false_yields_ignored() {
    let json = obj(vec![(
        "browser",
        obj(vec![("./foo.js", JsonValue::Bool(false))]),
    )]);
    let m = parse(&json, &[], &["browser"]).unwrap();
    let r = m.resolve_browser_field("/pkg/dir/foo.js", None);
    assert_eq!(
        r,
        Err(ResolveError::Ignored("/pkg/dir/foo.js".to_string()))
    );
}

#[test]
fn browser_string_value_aliases_path() {
    let json = obj(vec![(
        "browser",
        obj(vec![("./foo.js", s("./foo-browser.js"))]),
    )]);
    let m = parse(&json, &[], &["browser"]).unwrap();
    let r = m.resolve_browser_field("/pkg/dir/foo.js", None);
    assert_eq!(r, Ok(Some("./foo-browser.js".to_string())));
}

#[test]
fn browser_lookup_uses_literal_request_when_given() {
    let json = obj(vec![("browser", obj(vec![("bare-module", s("./shim.js"))]))]);
    let m = parse(&json, &[], &["browser"]).unwrap();
    let r = m.resolve_browser_field("/pkg/dir/other.js", Some("bare-module"));
    assert_eq!(r, Ok(Some("./shim.js".to_string())));
    let miss = m.resolve_browser_field("/pkg/dir/other.js", None);
    assert_eq!(miss, Ok(None));
}

#[test]
fn whole_browser_field_answers_any_lookup() {
    let json = obj(vec![("browser", s("./everything.js"))]);
    let m = parse(&json, &[], &["browser"]).unwrap();
    let r = m.resolve_browser_field("/pkg/dir/whatever.js", None);
    assert_eq!(r, Ok(Some("./everything.js".to_string())));
}

#[test]
fn unactionable_browser_hit_ends_search_with_no_alias() {
    let json = obj(vec![
        (
            "browser",
            obj(vec![("./foo.js", JsonValue::Array(vec![]))]),
        ),
        ("alias", obj(vec![("./foo.js", s("./from-alias.js"))])),
    ]);
    let m = parse(&json, &[], &["browser", "alias"]).unwrap();
    let r = m.resolve_browser_field("/pkg/dir/foo.js", None);
    assert_eq!(r, Ok(None));
}

#[test]
fn later_alias_field_is_consulted_on_miss() {
    let json = obj(vec![
        ("browser", obj(vec![("./bar.js", s("./bar-b.js"))])),
        ("alias", obj(vec![("./foo.js", s("./foo-a.js"))])),
    ]);
    let m = parse(&json, &[], &["browser", "alias"]).unwrap();
    let r = m.resolve_browser_field("/pkg/dir/foo.js", None);
    assert_eq!(r, Ok(Some("./foo-a.js".to_string())));
}

#[test]
fn prebuilt_path_map_false_yields_ignored() {
    let fields = vec![BrowserField::PathMap(vec![(
        "/abs/pkg/foo.js".to_string(),
        JsonValue::Bool(false),
    )])];
    let r = package_json::browser::resolve_browser(&fields, "/abs/pkg/foo.js", None);
    assert_eq!(r, Err(ResolveError::Ignored("/abs/pkg/foo.js".to_string())));
}

#[test]
fn parsed_exports_resolve_end_to_end() {
    let json = obj(vec![
        ("name", s("pkg")),
        ("main", s("./legacy.js")),
        (
            "exports",
            obj(vec![
                (".", obj(vec![("default", s("./index.js"))])),
                ("./feature/*", s("./dist/feature/*.js")),
            ]),
        ),
    ]);
    let m = parse(&json, &["main"], &[]).unwrap();
    let main = package_json::resolve(&m.exports, &ExportsKey::Main, &Vec::new());
    assert_eq!(main, Ok(vec!["./index.js".to_string()]));
    let req = ExportsKey::classify("./feature/foo");
    let sub = package_json::resolve(&m.exports, &req, &Vec::new());
    assert_eq!(sub, Ok(vec!["./dist/feature/foo.js".to_string()]));
    assert_eq!(m.main_fields, vec!["./legacy.js".to_string()]);
}

#[test]
fn duplicate_object_keys_first_occurrence_wins() {
    let json = obj(vec![(
        "browser",
        obj(vec![("a", s("./first.js")), ("a", s("./second.js"))]),
    )]);
    let m = parse(&json, &[], &["browser"]).unwrap();
    let r = m.resolve_browser_field("/x", Some("a"));
    assert_eq!(r, Ok(Some("./first.js".to_string())));
}
