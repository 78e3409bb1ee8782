//! The manifest: the resolution-relevant fields of one `package.json`.
//!
//! Built once from a JSON value plus the caller's field-name configuration,
//! then read-only.  Which main fields and alias fields exist is decided by
//! the caller's configured name lists, in configuration order; the `exports`
//! and `imports` trees keep the source JSON's key order.

use vstd::prelude::*;

use crate::browser::resolve_browser;
use crate::browser::lemma_browser_fields_index;
use crate::browser::spec_browser_fields;
use crate::browser::spec_resolve_browser;
use crate::browser::BrowserField;
use crate::browser::SpecBrowser;
use crate::error::ResolveError;
use crate::error::SpecErr;
use crate::json::clone_value;
use crate::json::lemma_entry_list_index;
use crate::json::object_get;
use crate::json::spec_entry_list;
use crate::json::spec_object_get;
use crate::json::JsonValue;
use crate::json::SpecJson;
use crate::keys::SpecKey;
use crate::loader::match_from;
use crate::loader::spec_match_of;
use crate::loader::spec_tree_of;
use crate::loader::tree_of;
use crate::paths::normalize_join;
use crate::paths::spec_normalize_join;
use crate::strings::starts_with2;
use crate::tree::spec_cond_list;
use crate::tree::ExportsField;
use crate::tree::MatchObject;
use crate::tree::SpecTree;

verus! {

/// Mathematical model of a manifest.
pub struct SpecManifest {
    pub dir: Seq<char>,
    pub name: Option<Seq<char>>,
    pub main_fields: Seq<Seq<char>>,
    pub exports: SpecTree,
    pub imports: Seq<(SpecKey, SpecTree)>,
    pub browser_fields: Seq<SpecBrowser>,
}

/// The characters of the manifest file's own name, preceded by the
/// directory separator.
pub open spec fn spec_manifest_suffix() -> Seq<char> {
    seq!['/', 'p', 'a', 'c', 'k', 'a', 'g', 'e', '.', 'j', 's', 'o', 'n']
}

/// The owning directory: the manifest path with its final component
/// removed.
pub open spec fn spec_parent(path: Seq<char>) -> Seq<char> {
    path.take(path.len() - 13)
}

/// The characters of the `name` field's key.
pub open spec fn spec_name_key() -> Seq<char> {
    seq!['n', 'a', 'm', 'e']
}

/// The characters of the `exports` field's key.
pub open spec fn spec_exports_key() -> Seq<char> {
    seq!['e', 'x', 'p', 'o', 'r', 't', 's']
}

/// The characters of the `imports` field's key.
pub open spec fn spec_imports_key() -> Seq<char> {
    seq!['i', 'm', 'p', 'o', 'r', 't', 's']
}

/// The package name: a string if present, nothing when missing or `null`.
pub open spec fn spec_name_of(obj: Seq<(Seq<char>, SpecJson)>) -> Result<
    Option<Seq<char>>,
    SpecErr,
> {
    match spec_object_get(obj, spec_name_key()) {
        None => Ok(None),
        Some(SpecJson::Str(s)) => Ok(Some(s)),
        Some(SpecJson::Null) => Ok(None),
        Some(_) => Err(SpecErr::ParseFailure),
    }
}

/// The exports tree: absent when the field is missing, else the tree its
/// value denotes.
pub open spec fn spec_exports_of(obj: Seq<(Seq<char>, SpecJson)>) -> Result<SpecTree, SpecErr> {
    match spec_object_get(obj, spec_exports_key()) {
        None => Ok(SpecTree::Absent),
        Some(v) => spec_tree_of(v),
    }
}

/// The imports map: empty when the field is missing, else the classified
/// entries of its object value.
pub open spec fn spec_imports_of(obj: Seq<(Seq<char>, SpecJson)>) -> Result<
    Seq<(SpecKey, SpecTree)>,
    SpecErr,
> {
    match spec_object_get(obj, spec_imports_key()) {
        None => Ok(Seq::empty()),
        Some(SpecJson::Object(es)) => spec_match_of(es, 0),
        Some(_) => Err(SpecErr::ParseFailure),
    }
}

/// The configured main fields present with a string value, in
/// configuration order, from name `i` on.
pub open spec fn spec_mains(
    obj: Seq<(Seq<char>, SpecJson)>,
    names: Seq<Seq<char>>,
    i: int,
) -> Seq<Seq<char>>
    decreases names.len() - i,
{
    if i < 0 || i >= names.len() {
        Seq::empty()
    } else {
        let rest = spec_mains(obj, names, i + 1);
        match spec_object_get(obj, names[i]) {
            Some(SpecJson::Str(s)) => seq![s] + rest,
            _ => rest,
        }
    }
}

/// Whether a browser-map key starts with a `.` path segment and is hence
/// rewritten to an absolute path at load time.
pub open spec fn spec_is_dot_rel(key: Seq<char>) -> bool {
    (key.len() == 1 && key[0] == '.') || (key.len() >= 2 && key[0] == '.' && key[1] == '/')
}

/// Browser-map entries with relative keys rewritten against `dir`, from
/// entry `i` on.
pub open spec fn spec_norm_keys(
    es: Seq<(Seq<char>, SpecJson)>,
    dir: Seq<char>,
    i: int,
) -> Seq<(Seq<char>, SpecJson)>
    decreases es.len() - i,
{
    if i < 0 || i >= es.len() {
        Seq::empty()
    } else {
        let key = es[i].0;
        let nk = if spec_is_dot_rel(key) {
            spec_normalize_join(dir, key)
        } else {
            key
        };
        seq![(nk, es[i].1)] + spec_norm_keys(es, dir, i + 1)
    }
}

/// The browser field one JSON value denotes: a string replaces the whole
/// module, an object maps paths (with relative keys rewritten), anything
/// else is structurally invalid.
pub open spec fn spec_browser_of(v: SpecJson, dir: Seq<char>) -> Result<SpecBrowser, SpecErr> {
    match v {
        SpecJson::Str(s) => Ok(SpecBrowser::Whole(s)),
        SpecJson::Object(es) => Ok(SpecBrowser::PathMap(spec_norm_keys(es, dir, 0))),
        _ => Err(SpecErr::ParseFailure),
    }
}

/// The configured browser fields present in the manifest, in configuration
/// order, from name `i` on.
pub open spec fn spec_browsers(
    obj: Seq<(Seq<char>, SpecJson)>,
    names: Seq<Seq<char>>,
    i: int,
    dir: Seq<char>,
) -> Result<Seq<SpecBrowser>, SpecErr>
    decreases names.len() - i,
{
    if i < 0 || i >= names.len() {
        Ok(Seq::empty())
    } else {
        match spec_object_get(obj, names[i]) {
            None => spec_browsers(obj, names, i + 1, dir),
            Some(v) => match (spec_browser_of(v, dir), spec_browsers(obj, names, i + 1, dir)) {
                (Ok(b), Ok(rest)) => Ok(seq![b] + rest),
                (Err(e), _) => Err(e),
                (_, Err(e)) => Err(e),
            },
        }
    }
}

/// What loading a manifest yields: the body must be a JSON object, and
/// every configured field present must have a structurally valid shape;
/// missing optional fields only take their defaults.
pub open spec fn spec_load(
    path: Seq<char>,
    json: SpecJson,
    mains: Seq<Seq<char>>,
    aliases: Seq<Seq<char>>,
) -> Result<SpecManifest, SpecErr> {
    match json {
        SpecJson::Object(obj) => {
            let dir = spec_parent(path);
            match (spec_name_of(obj), spec_exports_of(obj), spec_imports_of(obj), spec_browsers(
                obj,
                aliases,
                0,
                dir,
            )) {
                (Ok(nm), Ok(ex), Ok(im), Ok(br)) => Ok(
                    (SpecManifest {
                        dir: dir,
                        name: nm,
                        main_fields: spec_mains(obj, mains, 0),
                        exports: ex,
                        imports: im,
                        browser_fields: br,
                    }),
                ),
                _ => Err(SpecErr::ParseFailure),
            }
        },
        _ => Err(SpecErr::ParseFailure),
    }
}

/// The resolution-relevant fields of one `package.json`, immutable once
/// built.
#[derive(Debug)]
pub struct PackageJson {
    /// The owning directory, derived from the manifest's own path.
    pub dir: String,
    /// The `name` field, if present.
    pub name: Option<String>,
    /// Values of the configured main fields that were present, in
    /// configuration order.
    pub main_fields: Vec<String>,
    /// The `exports` field.
    pub exports: ExportsField,
    /// The `imports` field's classified entries, in source order.
    pub imports: MatchObject,
    /// The configured browser fields that were present, in configuration
    /// order.
    pub browser_fields: Vec<BrowserField>,
}

impl View for PackageJson {
    type V = SpecManifest;

    open spec fn view(&self) -> SpecManifest {
        SpecManifest {
            dir: self.dir@,
            name: match self.name {
                Some(s) => Some(s@),
                None => None,
            },
            main_fields: self.main_fields.deep_view(),
            exports: self.exports@,
            imports: spec_cond_list(self.imports@),
            browser_fields: spec_browser_fields(self.browser_fields@),
        }
    }
}

/// Collect the values of the configured main fields that are present with
/// a string value, in configuration order.
fn collect_mains(obj: &Vec<(String, JsonValue)>, names: &Vec<String>, i: usize) -> (r: Vec<
    String,
>)
    requires
        i <= names@.len(),
    ensures
        r.deep_view() == spec_mains(spec_entry_list(obj@), names.deep_view(), i as int),
    decreases names@.len() - i,
{
    if i >= names.len() {
        let out: Vec<String> = Vec::new();
        proof {
            assert(out.deep_view() =~= Seq::<Seq<char>>::empty());
        }
        return out;
    }
    let rest = collect_mains(obj, names, i + 1);
    let ghost rv = rest.deep_view();
    match object_get(obj, names[i].as_str()) {
        Some(JsonValue::Str(s)) => {
            let ghost sv = s@;
            let mut out: Vec<String> = Vec::new();
            out.push(s.clone());
            let mut tail = rest;
            out.append(&mut tail);
            proof {
                assert(out.deep_view() =~= seq![sv] + rv);
            }
            out
        },
        Some(_) => rest,
        None => rest,
    }
}

/// Copy a browser map, rewriting each relative key into an absolute path
/// under `dir`, from entry `i` on.
fn norm_keys_from(es: &Vec<(String, JsonValue)>, dir: &str, i: usize) -> (r: Vec<
    (String, JsonValue),
>)
    requires
        i <= es@.len(),
    ensures
        spec_entry_list(r@) == spec_norm_keys(spec_entry_list(es@), dir@, i as int),
        r@.len() == es@.len() - i,
    decreases es@.len() - i,
{
    proof {
        lemma_entry_list_index(es@);
    }
    if i >= es.len() {
        let out: Vec<(String, JsonValue)> = Vec::new();
        proof {
            assert(spec_entry_list(out@) =~= Seq::<(Seq<char>, SpecJson)>::empty());
        }
        return out;
    }
    let k: &String = &es[i].0;
    let n = k.as_str().unicode_len();
    let is_rel = (n == 1 && k.as_str().get_char(0) == '.') || starts_with2(k.as_str(), '.', '/');
    assert(is_rel == spec_is_dot_rel(k@));
    let new_key: String = if is_rel {
        normalize_join(dir, k.as_str())
    } else {
        k.clone()
    };
    let ghost nk = new_key@;
    let val = clone_value(&es[i].1);
    let ghost vv = val@;
    let mut rest = norm_keys_from(es, dir, i + 1);
    let ghost rv = rest@;
    let mut out: Vec<(String, JsonValue)> = Vec::new();
    out.push((new_key, val));
    out.append(&mut rest);
    proof {
        lemma_entry_list_index(out@);
        lemma_entry_list_index(rv);
        assert(out@.len() == 1 + rv.len());
        assert forall|j: int|
            0 <= j < spec_entry_list(out@).len() implies spec_entry_list(out@)[j] == (seq![
                (nk, vv),
            ] + spec_entry_list(rv))[j] by {
            assert(spec_entry_list(out@)[j] == (out@[j].0@, out@[j].1@));
            if j > 0 {
                assert(out@[j] == rv[j - 1]);
                assert((rv[j - 1].0@, rv[j - 1].1@) == spec_entry_list(rv)[j - 1]);
            }
        }
        assert(spec_entry_list(out@) =~= seq![(nk, vv)] + spec_entry_list(rv));
    }
    out
}

/// Build the browser field one JSON value denotes.
fn browser_of(v: &JsonValue, dir: &str) -> (r: Result<BrowserField, ResolveError>)
    ensures
        match r {
            Ok(b) => spec_browser_of(v@, dir@) == Ok::<SpecBrowser, SpecErr>(b@),
            Err(e) => spec_browser_of(v@, dir@) == Err::<SpecBrowser, SpecErr>(e@),
        },
{
    match v {
        JsonValue::Str(s) => Ok(BrowserField::Whole(s.clone())),
        JsonValue::Object(es) => Ok(BrowserField::PathMap(norm_keys_from(es, dir, 0))),
        _ => Err(ResolveError::ParseFailure),
    }
}

/// Collect the configured browser fields that are present, in
/// configuration order, from name `i` on.
fn browsers_from(obj: &Vec<(String, JsonValue)>, names: &Vec<String>, i: usize, dir: &str) -> (r:
    Result<Vec<BrowserField>, ResolveError>)
    requires
        i <= names@.len(),
    ensures
        match r {
            Ok(b) => spec_browsers(spec_entry_list(obj@), names.deep_view(), i as int, dir@)
                == Ok::<Seq<SpecBrowser>, SpecErr>(spec_browser_fields(b@)),
            Err(e) => spec_browsers(spec_entry_list(obj@), names.deep_view(), i as int, dir@)
                == Err::<Seq<SpecBrowser>, SpecErr>(e@),
        },
    decreases names@.len() - i,
{
    if i >= names.len() {
        let out: Vec<BrowserField> = Vec::new();
        proof {
            lemma_browser_fields_index(out@);
            assert(spec_browser_fields(out@) =~= Seq::<SpecBrowser>::empty());
        }
        return Ok(out);
    }
    match object_get(obj, names[i].as_str()) {
        None => browsers_from(obj, names, i + 1, dir),
        Some(v) => {
            let b = match browser_of(v, dir) {
                Ok(b) => b,
                Err(e) => {
                    return Err(e);
                },
            };
            let ghost bv = b@;
            let mut rest = match browsers_from(obj, names, i + 1, dir) {
                Ok(r) => r,
                Err(e) => {
                    return Err(e);
                },
            };
            let ghost rv = rest@;
            let mut out: Vec<BrowserField> = Vec::new();
            out.push(b);
            out.append(&mut rest);
            proof {
                lemma_browser_fields_index(out@);
                lemma_browser_fields_index(rv);
                assert(out@.len() == 1 + rv.len());
                assert forall|j: int|
                    0 <= j < spec_browser_fields(out@).len() implies spec_browser_fields(out@)[j]
                    == (seq![bv] + spec_browser_fields(rv))[j] by {
                    assert(spec_browser_fields(out@)[j] == out@[j]@);
                    if j > 0 {
                        assert(out@[j] == rv[j - 1]);
                        assert(rv[j - 1]@ == spec_browser_fields(rv)[j - 1]);
                    }
                }
                assert(spec_browser_fields(out@) =~= seq![bv] + spec_browser_fields(rv));
            }
            Ok(out)
        },
    }
}

impl PackageJson {
    /// Build a manifest from its path, its JSON body, and the caller's
    /// configured main-field and alias-field names.
    ///
    /// The path must end with the `/`-separated manifest filename; its
    /// parent becomes the manifest's directory.
    pub fn parse(
        path: String,
        json: &JsonValue,
        main_field_names: &Vec<String>,
        alias_field_names: &Vec<String>,
    ) -> (r: Result<PackageJson, ResolveError>)
        requires
            path@.len() >= 13,
            path@.skip(path@.len() - 13) == spec_manifest_suffix(),
        ensures
            match r {
                Ok(m) => spec_load(path@, json@, main_field_names.deep_view(),
                    alias_field_names.deep_view()) == Ok::<SpecManifest, SpecErr>(m@),
                Err(e) => spec_load(path@, json@, main_field_names.deep_view(),
                    alias_field_names.deep_view()) == Err::<SpecManifest, SpecErr>(e@),
            },
    {
        let n = path.as_str().unicode_len();
        let dir: String = path.as_str().substring_char(0, n - 13).to_owned();
        proof {
            assert(dir@ =~= spec_parent(path@));
        }
        let obj = match json {
            JsonValue::Object(entries) => entries,
            _ => {
                return Err(ResolveError::ParseFailure);
            },
        };
        proof {
            reveal_strlit("name");
            reveal_strlit("exports");
            reveal_strlit("imports");
            assert("name"@ =~= spec_name_key());
            assert("exports"@ =~= spec_exports_key());
            assert("imports"@ =~= spec_imports_key());
        }
        let name: Option<String> = match object_get(obj, "name") {
            None => None,
            Some(JsonValue::Str(s)) => Some(s.clone()),
            Some(JsonValue::Null) => None,
            Some(_) => {
                return Err(ResolveError::ParseFailure);
            },
        };
        let exports: ExportsField = match object_get(obj, "exports") {
            None => ExportsField::Absent,
            Some(v) => match tree_of(v) {
                Ok(t) => t,
                Err(_) => {
                    return Err(ResolveError::ParseFailure);
                },
            },
        };
        let imports: MatchObject = match object_get(obj, "imports") {
            None => Vec::new(),
            Some(JsonValue::Object(es)) => match match_from(es, 0) {
                Ok(m) => m,
                Err(_) => {
                    return Err(ResolveError::ParseFailure);
                },
            },
            Some(_) => {
                return Err(ResolveError::ParseFailure);
            },
        };
        let main_fields = collect_mains(obj, main_field_names, 0);
        let browser_fields = match browsers_from(obj, alias_field_names, 0, dir.as_str()) {
            Ok(b) => b,
            Err(_) => {
                return Err(ResolveError::ParseFailure);
            },
        };
        proof {
            assert(spec_cond_list(Seq::<(crate::keys::ExportsKey, ExportsField)>::empty())
                =~= Seq::<(SpecKey, SpecTree)>::empty());
        }
        Ok(
            PackageJson {
                dir,
                name,
                main_fields,
                exports,
                imports,
                browser_fields,
            },
        )
    }

    /// The directory owning this manifest.
    pub fn directory(&self) -> (r: &str)
        ensures
            r@ == self@.dir,
    {
        self.dir.as_str()
    }

    /// Resolve a path or bare request against this manifest's browser
    /// fields.  A hit on an entry mapped to `false` yields `Ignored`: the
    /// module is to be replaced by an intentionally empty stand-in.
    pub fn resolve_browser_field(&self, path: &str, request: Option<&str>) -> (r: Result<
        Option<String>,
        ResolveError,
    >)
        ensures
            match r {
                Ok(Some(s)) => spec_resolve_browser(self@.browser_fields, path@,
                    request.deep_view()) == Ok::<_, SpecErr>(Some(s@)),
                Ok(None) => spec_resolve_browser(self@.browser_fields, path@, request.deep_view())
                    == Ok::<Option<Seq<char>>, SpecErr>(None),
                Err(e) => spec_resolve_browser(self@.browser_fields, path@, request.deep_view())
                    == Err::<Option<Seq<char>>, SpecErr>(e@),
            },
    {
        resolve_browser(&self.browser_fields, path, request)
    }
}

} // verus!
