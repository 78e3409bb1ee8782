//! The legacy `browser` alias field.
//!
//! A browser field either replaces the whole module with one path, or maps
//! individual absolute paths to replacement paths — or to `false`, which
//! signals "treat this module as intentionally empty" rather than an
//! ordinary failure.

use vstd::prelude::*;

use crate::error::ResolveError;
use crate::error::SpecErr;
use crate::json::object_get;
use crate::json::spec_entry_list;
use crate::json::spec_object_get;
use crate::json::JsonValue;
use crate::json::SpecJson;

verus! {

/// Mathematical model of one browser field.
pub enum SpecBrowser {
    Whole(Seq<char>),
    PathMap(Seq<(Seq<char>, SpecJson)>),
}

/// One configured browser field of a manifest.
#[derive(Debug)]
pub enum BrowserField {
    /// The entire module resolves to this path.
    Whole(String),
    /// Per-path aliases, keyed by pre-normalized absolute paths.
    PathMap(Vec<(String, JsonValue)>),
}

impl View for BrowserField {
    type V = SpecBrowser;

    open spec fn view(&self) -> SpecBrowser {
        match self {
            BrowserField::Whole(s) => SpecBrowser::Whole(s@),
            BrowserField::PathMap(m) => SpecBrowser::PathMap(spec_entry_list(m@)),
        }
    }
}

/// Views of a sequence of browser fields, element by element.
pub open spec fn spec_browser_fields(fields: Seq<BrowserField>) -> Seq<SpecBrowser>
    decreases fields.len(),
{
    if fields.len() == 0 {
        Seq::empty()
    } else {
        seq![fields[0]@] + spec_browser_fields(fields.subrange(1, fields.len() as int))
    }
}

/// The element-wise reading of `spec_browser_fields`.
pub proof fn lemma_browser_fields_index(fields: Seq<BrowserField>)
    ensures
        spec_browser_fields(fields).len() == fields.len(),
        forall|i: int| 0 <= i < fields.len() ==> spec_browser_fields(fields)[i] == fields[i]@,
    decreases fields.len(),
{
    if fields.len() > 0 {
        lemma_browser_fields_index(fields.subrange(1, fields.len() as int));
    }
}

/// What a matched path-map value yields: a string aliases the module, the
/// literal `false` marks it ignored, anything else means no alias — the
/// match still ends the search.
pub open spec fn spec_alias_value(path: Seq<char>, v: SpecJson) -> Result<
    Option<Seq<char>>,
    SpecErr,
> {
    match v {
        SpecJson::Str(s) => Ok(Some(s)),
        SpecJson::Bool(b) => if !b {
            Err(SpecErr::Ignored(path))
        } else {
            Ok(None)
        },
        _ => Ok(None),
    }
}

/// Walk the browser fields from entry `i` on: a `Whole` field always
/// answers; a `PathMap` answers if it holds the lookup key.
pub open spec fn spec_browser_list(
    fields: Seq<SpecBrowser>,
    i: int,
    lookup: Seq<char>,
    path: Seq<char>,
) -> Result<Option<Seq<char>>, SpecErr>
    decreases fields.len() - i,
{
    if i < 0 || i >= fields.len() {
        Ok(None)
    } else {
        match fields[i] {
            SpecBrowser::Whole(v) => Ok(Some(v)),
            SpecBrowser::PathMap(m) => match spec_object_get(m, lookup) {
                Some(v) => spec_alias_value(path, v),
                None => spec_browser_list(fields, i + 1, lookup, path),
            },
        }
    }
}

/// The full browser lookup: the key is the literal request if one is
/// supplied, the normalized path otherwise.
pub open spec fn spec_resolve_browser(
    fields: Seq<SpecBrowser>,
    path: Seq<char>,
    request: Option<Seq<char>>,
) -> Result<Option<Seq<char>>, SpecErr> {
    let lookup = match request {
        Some(r) => r,
        None => path,
    };
    spec_browser_list(fields, 0, lookup, path)
}

/// Interpret the JSON value found for a path-map hit.
fn alias_value(path: &str, v: &JsonValue) -> (r: Result<Option<String>, ResolveError>)
    ensures
        match r {
            Ok(Some(s)) => spec_alias_value(path@, v@) == Ok::<_, SpecErr>(Some(s@)),
            Ok(None) => spec_alias_value(path@, v@) == Ok::<Option<Seq<char>>, SpecErr>(None),
            Err(e) => spec_alias_value(path@, v@) == Err::<Option<Seq<char>>, SpecErr>(e@),
        },
{
    match v {
        JsonValue::Str(s) => Ok(Some(s.clone())),
        JsonValue::Bool(b) => if !*b {
            Err(ResolveError::Ignored(path.to_owned()))
        } else {
            Ok(None)
        },
        _ => Ok(None),
    }
}

/// Resolve a path or bare request against the configured browser fields,
/// in configuration order.
pub fn resolve_browser(fields: &Vec<BrowserField>, path: &str, request: Option<&str>) -> (r:
    Result<Option<String>, ResolveError>)
    ensures
        match r {
            Ok(Some(s)) => spec_resolve_browser(spec_browser_fields(fields@), path@,
                request.deep_view()) == Ok::<_, SpecErr>(Some(s@)),
            Ok(None) => spec_resolve_browser(spec_browser_fields(fields@), path@,
                request.deep_view()) == Ok::<Option<Seq<char>>, SpecErr>(None),
            Err(e) => spec_resolve_browser(spec_browser_fields(fields@), path@,
                request.deep_view()) == Err::<Option<Seq<char>>, SpecErr>(e@),
        },
{
    let ghost fv = spec_browser_fields(fields@);
    proof {
        lemma_browser_fields_index(fields@);
    }
    let lookup: &str = match request {
        Some(r) => r,
        None => path,
    };
    let ghost glookup = lookup@;
    let mut i: usize = 0;
    while i < fields.len()
        invariant
            0 <= i <= fields@.len(),
            fv == spec_browser_fields(fields@),
            fv.len() == fields@.len(),
            forall|j: int| 0 <= j < fv.len() ==> fv[j] == fields@[j]@,
            glookup == (match request.deep_view() {
                Some(r) => r,
                None => path@,
            }),
            glookup == lookup@,
            spec_browser_list(fv, 0, glookup, path@) == spec_browser_list(fv, i as int, glookup,
                path@,
            ),
        decreases fields@.len() - i,
    {
        match &fields[i] {
            BrowserField::Whole(v) => {
                return Ok(Some(v.clone()));
            },
            BrowserField::PathMap(m) => {
                match object_get(m, lookup) {
                    Some(v) => {
                        return alias_value(path, v);
                    },
                    None => {},
                }
            },
        }
        i = i + 1;
    }
    Ok(None)
}

} // verus!
