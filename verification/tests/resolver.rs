use package_json::resolve;
use package_json::resolve_imports;
use package_json::ExportsField;
use package_json::ExportsKey;
use package_json::MatchObject;
use package_json::ResolveError;

fn leaf(s: &str) -> ExportsField {
    ExportsField::Leaf(s.to_string())
}

fn cond(entries: Vec<(&str, ExportsField)>) -> ExportsField {
    ExportsField::Conditional(match_object(entries))
}

fn match_object(entries: Vec<(&str, ExportsField)>) -> MatchObject {
    entries
        .into_iter()
        .map(|(k, v)| (ExportsKey::classify(k), v))
        .collect()
}

fn no_conditions() -> Vec<String> {
    Vec::new()
}

fn conditions(names: &[&str]) -> Vec<String> {
    names.iter().map(|n| n.to_string()).collect()
}

#[test]
fn classify_main() {
    assert_eq!(ExportsKey::classify("."), ExportsKey::Main);
}

#[test]
fn classify_dot_slash_strips_dot() {
    assert_eq!(
        ExportsKey::classify("./sub"),
        ExportsKey::Pattern("/sub".to_string())
    );
}

#[test]
fn classify_hash_kept_verbatim() {
    assert_eq!(
        ExportsKey::classify("#priv"),
        ExportsKey::Pattern("#priv".to_string())
    );
}

#[test]
fn classify_condition() {
    assert_eq!(
        ExportsKey::classify("import"),
        ExportsKey::CustomCondition("import".to_string())
    );
}

#[test]
fn exact_leaf_for_main() {
    let exports = cond(vec![(".", leaf("./index.js"))]);
    let r = resolve(&exports, &ExportsKey::Main, &no_conditions());
    assert_eq!(r, Ok(vec!["./index.js".to_string()]));
}

#[test]
fn bare_string_exports_serves_main() {
    let exports = leaf("./main.js");
    let r = resolve(&exports, &ExportsKey::Main, &no_conditions());
    assert_eq!(r, Ok(vec!["./main.js".to_string()]));
}

#[test]
fn bare_string_exports_rejects_subpath() {
    let exports = leaf("./main.js");
    let req = ExportsKey::classify("./sub");
    let r = resolve(&exports, &req, &no_conditions());
    assert_eq!(r, Err(ResolveError::NotExported));
}

#[test]
fn pattern_capture() {
    let exports = cond(vec![("./feature/*", leaf("./dist/feature/*.js"))]);
    let req = ExportsKey::classify("./feature/foo");
    let r = resolve(&exports, &req, &no_conditions());
    assert_eq!(r, Ok(vec!["./dist/feature/foo.js".to_string()]));
}

#[test]
fn pattern_capture_with_suffix() {
    let exports = cond(vec![("./lib/*.js", leaf("./src/*.ts"))]);
    let req = ExportsKey::classify("./lib/util.js");
    let r = resolve(&exports, &req, &no_conditions());
    assert_eq!(r, Ok(vec!["./src/util.ts".to_string()]));
}

#[test]
fn most_specific_pattern_wins() {
    let exports = cond(vec![
        ("./*", leaf("./generic/*.js")),
        ("./a/*", leaf("./specific/*.js")),
    ]);
    let req = ExportsKey::classify("./a/x");
    let r = resolve(&exports, &req, &no_conditions());
    assert_eq!(r, Ok(vec!["./specific/x.js".to_string()]));
}

#[test]
fn equally_specific_patterns_first_wins() {
    let exports = cond(vec![
        ("./a/*", leaf("./first/*.js")),
        ("./a/*", leaf("./second/*.js")),
    ]);
    let req = ExportsKey::classify("./a/x");
    let r = resolve(&exports, &req, &no_conditions());
    assert_eq!(r, Ok(vec!["./first/x.js".to_string()]));
}

#[test]
fn exact_key_beats_pattern() {
    let exports = cond(vec![
        ("./a/*", leaf("./pattern/*.js")),
        ("./a/x", leaf("./exact.js")),
    ]);
    let req = ExportsKey::classify("./a/x");
    let r = resolve(&exports, &req, &no_conditions());
    assert_eq!(r, Ok(vec!["./exact.js".to_string()]));
}

#[test]
fn default_listed_first_shadows_enabled_condition() {
    let exports = cond(vec![
        ("default", leaf("./cjs.js")),
        ("import", leaf("./esm.js")),
    ]);
    let r = resolve(&exports, &ExportsKey::Main, &conditions(&["import"]));
    assert_eq!(r, Ok(vec!["./cjs.js".to_string()]));
}

#[test]
fn enabled_condition_listed_first_wins() {
    let exports = cond(vec![
        ("import", leaf("./esm.js")),
        ("default", leaf("./cjs.js")),
    ]);
    let r = resolve(&exports, &ExportsKey::Main, &conditions(&["import"]));
    assert_eq!(r, Ok(vec!["./esm.js".to_string()]));
}

#[test]
fn disabled_condition_is_skipped() {
    let exports = cond(vec![
        ("import", leaf("./esm.js")),
        ("default", leaf("./cjs.js")),
    ]);
    let r = resolve(&exports, &ExportsKey::Main, &no_conditions());
    assert_eq!(r, Ok(vec!["./cjs.js".to_string()]));
}

#[test]
fn matched_condition_commits_even_if_it_fails() {
    let exports = cond(vec![(
        ".",
        cond(vec![
            ("import", ExportsField::Absent),
            ("default", leaf("./d.js")),
        ]),
    )]);
    let r = resolve(&exports, &ExportsKey::Main, &conditions(&["import"]));
    assert_eq!(r, Err(ResolveError::NotExported));
}

#[test]
fn no_matching_condition_is_not_exported() {
    let exports = cond(vec![("require", leaf("./cjs.js"))]);
    let r = resolve(&exports, &ExportsKey::Main, &conditions(&["import"]));
    assert_eq!(r, Err(ResolveError::NotExported));
}

#[test]
fn fallback_array_skips_invalid_alternative() {
    let exports = ExportsField::Alternatives(vec![leaf("./../missing.js"), leaf("./ok.js")]);
    let r = resolve(&exports, &ExportsKey::Main, &no_conditions());
    assert_eq!(r, Ok(vec!["./ok.js".to_string()]));
}

#[test]
fn fallback_array_reports_last_failure() {
    let exports = ExportsField::Alternatives(vec![leaf("./../a.js"), ExportsField::Absent]);
    let r = resolve(&exports, &ExportsKey::Main, &no_conditions());
    assert_eq!(r, Err(ResolveError::NotExported));
}

#[test]
fn absent_exports_is_not_exported() {
    let exports = ExportsField::Absent;
    let r = resolve(&exports, &ExportsKey::Main, &no_conditions());
    assert_eq!(r, Err(ResolveError::NotExported));
    let req = ExportsKey::classify("./sub");
    let r2 = resolve(&exports, &req, &no_conditions());
    assert_eq!(r2, Err(ResolveError::NotExported));
}

#[test]
fn subpath_map_without_dot_rejects_main() {
    let exports = cond(vec![("./a", leaf("./a.js"))]);
    let r = resolve(&exports, &ExportsKey::Main, &no_conditions());
    assert_eq!(r, Err(ResolveError::NotExported));
}

#[test]
fn uncovered_subpath_is_not_exported() {
    let exports = cond(vec![(".", leaf("./index.js"))]);
    let req = ExportsKey::classify("./other");
    let r = resolve(&exports, &req, &no_conditions());
    assert_eq!(r, Err(ResolveError::NotExported));
}

#[test]
fn target_outside_package_is_invalid() {
    let exports = cond(vec![(".", leaf("./a/../../out.js"))]);
    let r = resolve(&exports, &ExportsKey::Main, &no_conditions());
    assert_eq!(r, Err(ResolveError::InvalidPackageTarget));
}

#[test]
fn dotdot_then_deeper_target_is_still_invalid() {
    let exports = cond(vec![(".", leaf("./../pkg/self.js"))]);
    let r = resolve(&exports, &ExportsKey::Main, &no_conditions());
    assert_eq!(r, Err(ResolveError::InvalidPackageTarget));
}

#[test]
fn balanced_dotdot_target_is_accepted() {
    let exports = cond(vec![(".", leaf("./a/../b.js"))]);
    let r = resolve(&exports, &ExportsKey::Main, &no_conditions());
    assert_eq!(r, Ok(vec!["./a/../b.js".to_string()]));
}

#[test]
fn bare_target_is_invalid() {
    let exports = cond(vec![(".", leaf("index.js"))]);
    let r = resolve(&exports, &ExportsKey::Main, &no_conditions());
    assert_eq!(r, Err(ResolveError::InvalidPackageTarget));
}

#[test]
fn absolute_target_is_invalid() {
    let exports = cond(vec![(".", leaf("/etc/passwd"))]);
    let r = resolve(&exports, &ExportsKey::Main, &no_conditions());
    assert_eq!(r, Err(ResolveError::InvalidPackageTarget));
}

#[test]
fn pattern_target_without_star_cannot_absorb_capture() {
    let exports = cond(vec![("./a/*", leaf("./fixed.js"))]);
    let req = ExportsKey::classify("./a/x");
    let r = resolve(&exports, &req, &no_conditions());
    assert_eq!(r, Err(ResolveError::InvalidPackageTarget));
}

#[test]
fn capture_substitutes_every_star() {
    let exports = cond(vec![("./a/*", leaf("./x/*/y/*.js"))]);
    let req = ExportsKey::classify("./a/m");
    let r = resolve(&exports, &req, &no_conditions());
    assert_eq!(r, Ok(vec!["./x/m/y/m.js".to_string()]));
}

#[test]
fn capture_escaping_directory_is_invalid() {
    let exports = cond(vec![("./a/*", leaf("./dist/*.js"))]);
    let req = ExportsKey::classify("./a/../../../x");
    let r = resolve(&exports, &req, &no_conditions());
    assert_eq!(r, Err(ResolveError::InvalidPackageTarget));
}

#[test]
fn nested_conditions_resolve() {
    let exports = cond(vec![(
        ".",
        cond(vec![
            ("node", cond(vec![("import", leaf("./node.mjs"))])),
            ("default", leaf("./plain.js")),
        ]),
    )]);
    let r = resolve(&exports, &ExportsKey::Main, &conditions(&["node", "import"]));
    assert_eq!(r, Ok(vec!["./node.mjs".to_string()]));
}

#[test]
fn tree_deeper_than_depth_limit_is_invalid() {
    let mut tree = leaf("./deep.js");
    for _ in 0..40 {
        tree = ExportsField::Alternatives(vec![tree]);
    }
    let r = resolve(&tree, &ExportsKey::Main, &no_conditions());
    assert_eq!(r, Err(ResolveError::InvalidPackageTarget));
}

#[test]
fn imports_exact_hash_key() {
    let imports = match_object(vec![("#dep", leaf("./vendored/dep.js"))]);
    let req = ExportsKey::classify("#dep");
    let r = resolve_imports(&imports, &req, &no_conditions());
    assert_eq!(r, Ok(vec!["./vendored/dep.js".to_string()]));
}

#[test]
fn imports_pattern_key() {
    let imports = match_object(vec![("#internal/*", leaf("./src/internal/*.js"))]);
    let req = ExportsKey::classify("#internal/util");
    let r = resolve_imports(&imports, &req, &no_conditions());
    assert_eq!(r, Ok(vec!["./src/internal/util.js".to_string()]));
}

#[test]
fn imports_miss_is_import_not_defined() {
    let imports = match_object(vec![("#dep", leaf("./vendored/dep.js"))]);
    let req = ExportsKey::classify("#other");
    let r = resolve_imports(&imports, &req, &no_conditions());
    assert_eq!(r, Err(ResolveError::ImportNotDefined));
}

#[test]
fn resolving_twice_yields_identical_results() {
    let exports = cond(vec![
        ("./feature/*", leaf("./dist/feature/*.js")),
        (".", leaf("./index.js")),
    ]);
    let req = ExportsKey::classify("./feature/foo");
    let conds = conditions(&["import", "node"]);
    let first = resolve(&exports, &req, &conds);
    let second = resolve(&exports, &req, &conds);
    assert_eq!(first, second);
    assert_eq!(first, Ok(vec!["./dist/feature/foo.js".to_string()]));
}
