//! A generic JSON value tree.
//!
//! The manifest loader consumes an already-deserialized JSON value; parsing
//! bytes into this tree is the JSON parser's job and happens outside this
//! crate.  Numbers carry no payload: no resolution-relevant field reads a
//! numeric value, a number only ever makes a field structurally invalid.

use vstd::prelude::*;

use crate::strings::str_equal;

verus! {

/// Mathematical model of a JSON value.
pub enum SpecJson {
    Null,
    Bool(bool),
    Number,
    Str(Seq<char>),
    Array(Seq<SpecJson>),
    Object(Seq<(Seq<char>, SpecJson)>),
}

/// A JSON value as handed to the manifest loader.  Object entries keep the
/// source order of the document, which the `exports` semantics depend on.
#[derive(Debug)]
pub enum JsonValue {
    Null,
    Bool(bool),
    Number,
    Str(String),
    Array(Vec<JsonValue>),
    Object(Vec<(String, JsonValue)>),
}

impl JsonValue {
    pub open spec fn view(&self) -> SpecJson
        decreases *self, 2int,
    {
        match self {
            JsonValue::Null => SpecJson::Null,
            JsonValue::Bool(b) => SpecJson::Bool(*b),
            JsonValue::Number => SpecJson::Number,
            JsonValue::Str(s) => SpecJson::Str(s@),
            JsonValue::Array(items) => SpecJson::Array(spec_value_list(items@)),
            JsonValue::Object(entries) => SpecJson::Object(spec_entry_list(entries@)),
        }
    }
}

/// Views of a sequence of JSON values, element by element.
pub open spec fn spec_value_list(items: Seq<JsonValue>) -> Seq<SpecJson>
    decreases items, 1int,
{
    if items.len() == 0 {
        Seq::empty()
    } else {
        seq![items[0].view()] + spec_value_list(items.subrange(1, items.len() as int))
    }
}

/// Views of a sequence of object entries, element by element.
pub open spec fn spec_entry_list(entries: Seq<(String, JsonValue)>) -> Seq<
    (Seq<char>, SpecJson),
>
    decreases entries, 1int,
{
    if entries.len() == 0 {
        Seq::empty()
    } else {
        seq![(entries[0].0@, entries[0].1.view())] + spec_entry_list(
            entries.subrange(1, entries.len() as int),
        )
    }
}

/// First value stored under `key` in an object's entries, if any.
pub open spec fn spec_object_get(entries: Seq<(Seq<char>, SpecJson)>, key: Seq<char>) -> Option<
    SpecJson,
>
    decreases entries.len(),
{
    if entries.len() == 0 {
        None
    } else if entries[0].0 == key {
        Some(entries[0].1)
    } else {
        spec_object_get(entries.skip(1), key)
    }
}

/// The element-wise reading of `spec_entry_list`.
pub proof fn lemma_entry_list_index(entries: Seq<(String, JsonValue)>)
    ensures
        spec_entry_list(entries).len() == entries.len(),
        forall|i: int|
            0 <= i < entries.len() ==> spec_entry_list(entries)[i] == (
                entries[i].0@,
                entries[i].1@,
            ),
    decreases entries.len(),
{
    if entries.len() > 0 {
        lemma_entry_list_index(entries.subrange(1, entries.len() as int));
    }
}

/// The element-wise reading of `spec_value_list`.
pub proof fn lemma_value_list_index(items: Seq<JsonValue>)
    ensures
        spec_value_list(items).len() == items.len(),
        forall|i: int| 0 <= i < items.len() ==> spec_value_list(items)[i] == items[i]@,
    decreases items.len(),
{
    if items.len() > 0 {
        lemma_value_list_index(items.subrange(1, items.len() as int));
    }
}

/// Look up `key` among an object's entries; the first occurrence wins.
pub fn object_get<'a>(entries: &'a Vec<(String, JsonValue)>, key: &str) -> (r: Option<
    &'a JsonValue,
>)
    ensures
        match r {
            Some(v) => spec_object_get(spec_entry_list(entries@), key@) == Some(v@),
            None => spec_object_get(spec_entry_list(entries@), key@) is None,
        },
{
    let ghost all = spec_entry_list(entries@);
    proof {
        lemma_entry_list_index(entries@);
        assert(all.skip(0) =~= all);
    }
    let mut i: usize = 0;
    while i < entries.len()
        invariant
            0 <= i <= entries@.len(),
            all == spec_entry_list(entries@),
            all.len() == entries@.len(),
            forall|j: int| 0 <= j < all.len() ==> all[j] == (entries@[j].0@, entries@[j].1@),
            spec_object_get(all, key@) == spec_object_get(all.skip(i as int), key@),
        decreases entries@.len() - i,
    {
        let s: &String = &entries[i].0;
        if str_equal(s.as_str(), key) {
            assert(all.skip(i as int)[0] == all[i as int]);
            return Some(&entries[i].1);
        }
        assert(all.skip(i as int).skip(1) =~= all.skip(i as int + 1));
        i = i + 1;
    }
    assert(all.skip(i as int) =~= Seq::<(Seq<char>, SpecJson)>::empty());
    None
}

/// A deep copy of a JSON value, preserving its view.
pub fn clone_value(v: &JsonValue) -> (r: JsonValue)
    ensures
        r@ == v@,
    decreases *v, 2int, 0int,
{
    match v {
        JsonValue::Null => JsonValue::Null,
        JsonValue::Bool(b) => JsonValue::Bool(*b),
        JsonValue::Number => JsonValue::Number,
        JsonValue::Str(s) => JsonValue::Str(s.clone()),
        JsonValue::Array(items) => {
            let cloned = clone_values(items, 0);
            proof {
                assert(spec_value_list(items@).skip(0) =~= spec_value_list(items@));
            }
            JsonValue::Array(cloned)
        },
        JsonValue::Object(entries) => {
            let cloned = clone_entries(entries, 0);
            proof {
                assert(spec_entry_list(entries@).skip(0) =~= spec_entry_list(entries@));
            }
            JsonValue::Object(cloned)
        },
    }
}

/// Deep copies of the values from index `i` on.
fn clone_values(items: &Vec<JsonValue>, i: usize) -> (r: Vec<JsonValue>)
    requires
        i <= items@.len(),
    ensures
        spec_value_list(r@) == spec_value_list(items@).skip(i as int),
        r@.len() == items@.len() - i,
    decreases items@, 1int, items@.len() - i,
{
    proof {
        lemma_value_list_index(items@);
    }
    if i >= items.len() {
        proof {
            assert(spec_value_list(items@).skip(i as int) =~= Seq::<SpecJson>::empty());
        }
        return Vec::new();
    }
    let head = clone_value(&items[i]);
    let mut rest = clone_values(items, i + 1);
    let ghost rv = rest@;
    let mut out: Vec<JsonValue> = Vec::new();
    out.push(head);
    out.append(&mut rest);
    proof {
        lemma_value_list_index(out@);
        lemma_value_list_index(rv);
        assert(out@.len() == 1 + rv.len());
        assert forall|j: int|
            0 <= j < spec_value_list(out@).len() implies spec_value_list(out@)[j]
            == spec_value_list(items@).skip(i as int)[j] by {
            assert(spec_value_list(items@).skip(i as int)[j] == spec_value_list(items@)[i + j]);
            assert(spec_value_list(out@)[j] == out@[j]@);
            if j > 0 {
                assert(out@[j] == rv[j - 1]);
                assert(rv[j - 1]@ == spec_value_list(rv)[j - 1]);
                assert(spec_value_list(rv)[j - 1] == spec_value_list(items@).skip(i as int + 1)[j
                    - 1]);
            }
        }
        assert(spec_value_list(out@) =~= spec_value_list(items@).skip(i as int));
    }
    out
}

/// Deep copies of the object entries from index `i` on.
fn clone_entries(entries: &Vec<(String, JsonValue)>, i: usize) -> (r: Vec<(String, JsonValue)>)
    requires
        i <= entries@.len(),
    ensures
        spec_entry_list(r@) == spec_entry_list(entries@).skip(i as int),
        r@.len() == entries@.len() - i,
    decreases entries@, 1int, entries@.len() - i,
{
    proof {
        lemma_entry_list_index(entries@);
    }
    if i >= entries.len() {
        proof {
            assert(spec_entry_list(entries@).skip(i as int) =~= Seq::<
                (Seq<char>, SpecJson),
            >::empty());
        }
        return Vec::new();
    }
    let key = entries[i].0.clone();
    let val = clone_value(&entries[i].1);
    let mut rest = clone_entries(entries, i + 1);
    let ghost rv = rest@;
    let mut out: Vec<(String, JsonValue)> = Vec::new();
    out.push((key, val));
    out.append(&mut rest);
    proof {
        lemma_entry_list_index(out@);
        lemma_entry_list_index(rv);
        assert(out@.len() == 1 + rv.len());
        assert forall|j: int|
            0 <= j < spec_entry_list(out@).len() implies spec_entry_list(out@)[j]
            == spec_entry_list(entries@).skip(i as int)[j] by {
            assert(spec_entry_list(entries@).skip(i as int)[j] == spec_entry_list(entries@)[i + j]);
            assert(spec_entry_list(out@)[j] == (out@[j].0@, out@[j].1@));
            if j > 0 {
                assert(out@[j] == rv[j - 1]);
                assert((rv[j - 1].0@, rv[j - 1].1@) == spec_entry_list(rv)[j - 1]);
                assert(spec_entry_list(rv)[j - 1] == spec_entry_list(entries@).skip(i as int + 1)[j
                    - 1]);
            }
        }
        assert(spec_entry_list(out@) =~= spec_entry_list(entries@).skip(i as int));
    }
    out
}

} // verus!
