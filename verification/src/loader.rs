//! Building an exports tree from a JSON value.
//!
//! The tree shape is an untagged union: `null` means absent, a string is a
//! leaf, an array holds fallback alternatives, an object holds an ordered
//! conditional map whose raw keys are classified.  Any other JSON shape is
//! structurally invalid for the field and fails the parse.

use vstd::prelude::*;

use crate::error::ResolveError;
use crate::error::SpecErr;
use crate::json::lemma_entry_list_index;
use crate::json::lemma_value_list_index;
use crate::json::spec_entry_list;
use crate::json::spec_value_list;
use crate::json::JsonValue;
use crate::json::SpecJson;
use crate::keys::spec_classify;
use crate::keys::ExportsKey;
use crate::keys::SpecKey;
use crate::tree::lemma_cond_list_index;
use crate::tree::lemma_tree_list_index;
use crate::tree::spec_cond_list;
use crate::tree::spec_tree_list;
use crate::tree::ExportsField;
use crate::tree::MatchObject;
use crate::tree::SpecTree;

verus! {

/// The exports tree a JSON value denotes, or `ParseFailure` where the value
/// is structurally incompatible (a number or a boolean).
pub open spec fn spec_tree_of(v: SpecJson) -> Result<SpecTree, SpecErr>
    decreases v, 2int, 0int,
{
    match v {
        SpecJson::Null => Ok(SpecTree::Absent),
        SpecJson::Str(s) => Ok(SpecTree::Leaf(s)),
        SpecJson::Array(items) => match spec_trees_of(items, 0) {
            Ok(list) => Ok(SpecTree::Alternatives(list)),
            Err(e) => Err(e),
        },
        SpecJson::Object(es) => match spec_match_of(es, 0) {
            Ok(m) => Ok(SpecTree::Conditional(m)),
            Err(e) => Err(e),
        },
        _ => Err(SpecErr::ParseFailure),
    }
}

/// The subtrees the array elements denote, from element `i` on.
pub open spec fn spec_trees_of(items: Seq<SpecJson>, i: int) -> Result<Seq<SpecTree>, SpecErr>
    decreases items, 1int, items.len() - i,
{
    if i < 0 || i >= items.len() {
        Ok(Seq::empty())
    } else {
        match (spec_tree_of(items[i]), spec_trees_of(items, i + 1)) {
            (Ok(h), Ok(t)) => Ok(seq![h] + t),
            (Err(e), _) => Err(e),
            (_, Err(e)) => Err(e),
        }
    }
}

/// The classified map entries the object entries denote, from entry `i` on.
pub open spec fn spec_match_of(es: Seq<(Seq<char>, SpecJson)>, i: int) -> Result<
    Seq<(SpecKey, SpecTree)>,
    SpecErr,
>
    decreases es, 1int, es.len() - i,
{
    if i < 0 || i >= es.len() {
        Ok(Seq::empty())
    } else {
        match (spec_tree_of(es[i].1), spec_match_of(es, i + 1)) {
            (Ok(t), Ok(rest)) => Ok(seq![(spec_classify(es[i].0), t)] + rest),
            (Err(e), _) => Err(e),
            (_, Err(e)) => Err(e),
        }
    }
}

/// Build the exports tree a JSON value denotes.
pub fn tree_of(v: &JsonValue) -> (r: Result<ExportsField, ResolveError>)
    ensures
        match r {
            Ok(t) => spec_tree_of(v@) == Ok::<SpecTree, SpecErr>(t@),
            Err(e) => spec_tree_of(v@) == Err::<SpecTree, SpecErr>(e@),
        },
    decreases *v, 2int, 0int,
{
    match v {
        JsonValue::Null => Ok(ExportsField::Absent),
        JsonValue::Str(s) => Ok(ExportsField::Leaf(s.clone())),
        JsonValue::Array(items) => match trees_from(items, 0) {
            Ok(list) => Ok(ExportsField::Alternatives(list)),
            Err(e) => Err(e),
        },
        JsonValue::Object(entries) => match match_from(entries, 0) {
            Ok(m) => Ok(ExportsField::Conditional(m)),
            Err(e) => Err(e),
        },
        JsonValue::Bool(_) => Err(ResolveError::ParseFailure),
        JsonValue::Number => Err(ResolveError::ParseFailure),
    }
}

/// Build the subtrees of a fallback array, from element `i` on.
fn trees_from(items: &Vec<JsonValue>, i: usize) -> (r: Result<Vec<ExportsField>, ResolveError>)
    requires
        i <= items@.len(),
    ensures
        match r {
            Ok(l) => spec_trees_of(spec_value_list(items@), i as int) == Ok::<
                Seq<SpecTree>,
                SpecErr,
            >(spec_tree_list(l@)),
            Err(e) => spec_trees_of(spec_value_list(items@), i as int) == Err::<
                Seq<SpecTree>,
                SpecErr,
            >(e@),
        },
    decreases items@, 1int, items@.len() - i,
{
    proof {
        lemma_value_list_index(items@);
    }
    if i >= items.len() {
        let out: Vec<ExportsField> = Vec::new();
        proof {
            lemma_tree_list_index(out@);
            assert(spec_tree_list(out@) =~= Seq::<SpecTree>::empty());
        }
        return Ok(out);
    }
    let head = match tree_of(&items[i]) {
        Ok(h) => h,
        Err(e) => {
            return Err(e);
        },
    };
    let ghost hv = head@;
    let mut rest = match trees_from(items, i + 1) {
        Ok(t) => t,
        Err(e) => {
            return Err(e);
        },
    };
    let ghost rv = rest@;
    let mut out: Vec<ExportsField> = Vec::new();
    out.push(head);
    out.append(&mut rest);
    proof {
        lemma_tree_list_index(out@);
        lemma_tree_list_index(rv);
        assert(out@.len() == 1 + rv.len());
        assert forall|j: int|
            0 <= j < spec_tree_list(out@).len() implies spec_tree_list(out@)[j] == (seq![hv]
            + spec_tree_list(rv))[j] by {
            assert(spec_tree_list(out@)[j] == out@[j]@);
            if j > 0 {
                assert(out@[j] == rv[j - 1]);
                assert(rv[j - 1]@ == spec_tree_list(rv)[j - 1]);
            }
        }
        assert(spec_tree_list(out@) =~= seq![hv] + spec_tree_list(rv));
    }
    Ok(out)
}

/// Build the classified entries of a conditional map, from entry `i` on.
pub(crate) fn match_from(entries: &Vec<(String, JsonValue)>, i: usize) -> (r: Result<
    MatchObject,
    ResolveError,
>)
    requires
        i <= entries@.len(),
    ensures
        match r {
            Ok(m) => spec_match_of(spec_entry_list(entries@), i as int) == Ok::<
                Seq<(SpecKey, SpecTree)>,
                SpecErr,
            >(spec_cond_list(m@)),
            Err(e) => spec_match_of(spec_entry_list(entries@), i as int) == Err::<
                Seq<(SpecKey, SpecTree)>,
                SpecErr,
            >(e@),
        },
    decreases entries@, 1int, entries@.len() - i,
{
    proof {
        lemma_entry_list_index(entries@);
    }
    if i >= entries.len() {
        let out: MatchObject = Vec::new();
        proof {
            lemma_cond_list_index(out@);
            assert(spec_cond_list(out@) =~= Seq::<(SpecKey, SpecTree)>::empty());
        }
        return Ok(out);
    }
    let key = ExportsKey::classify(entries[i].0.as_str());
    let ghost kv = key@;
    let val = match tree_of(&entries[i].1) {
        Ok(t) => t,
        Err(e) => {
            return Err(e);
        },
    };
    let ghost vv = val@;
    let mut rest = match match_from(entries, i + 1) {
        Ok(m) => m,
        Err(e) => {
            return Err(e);
        },
    };
    let ghost rv = rest@;
    let mut out: MatchObject = Vec::new();
    out.push((key, val));
    out.append(&mut rest);
    proof {
        lemma_cond_list_index(out@);
        lemma_cond_list_index(rv);
        assert(out@.len() == 1 + rv.len());
        assert forall|j: int|
            0 <= j < spec_cond_list(out@).len() implies spec_cond_list(out@)[j] == (seq![(kv, vv)]
            + spec_cond_list(rv))[j] by {
            assert(spec_cond_list(out@)[j] == (out@[j].0@, out@[j].1@));
            if j > 0 {
                assert(out@[j] == rv[j - 1]);
                assert((rv[j - 1].0@, rv[j - 1].1@) == spec_cond_list(rv)[j - 1]);
            }
        }
        assert(spec_cond_list(out@) =~= seq![(kv, vv)] + spec_cond_list(rv));
    }
    Ok(out)
}

} // verus!
