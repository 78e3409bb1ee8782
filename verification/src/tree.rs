//! The exports tree: the value shape of the `exports` and `imports` fields.
//!
//! A tree is either absent (`null` or missing, distinct from empty), a
//! literal target string, an ordered fallback array, or an ordered
//! conditional map.  Map iteration order equals the source JSON's key order,
//! because a `default` entry appearing before a more specific condition
//! shadows it.

use vstd::prelude::*;

use crate::keys::ExportsKey;
use crate::keys::SpecKey;

verus! {

/// Mathematical model of an exports tree.
pub enum SpecTree {
    Absent,
    Leaf(Seq<char>),
    Alternatives(Seq<SpecTree>),
    Conditional(Seq<(SpecKey, SpecTree)>),
}

/// The `exports` field of a manifest, or any subtree of it.
#[derive(Debug)]
pub enum ExportsField {
    /// The field was `null` or missing.
    Absent,
    /// A literal relative-path target, or a bare name at the top.
    Leaf(String),
    /// Ordered fallback candidates.
    Alternatives(Vec<ExportsField>),
    /// Ordered conditional map, in source key order.
    Conditional(MatchObject),
}

/// An ordered mapping from classified key to subtree, in source order.
pub type MatchObject = Vec<(ExportsKey, ExportsField)>;

impl ExportsField {
    pub open spec fn view(&self) -> SpecTree
        decreases *self, 2int,
    {
        match self {
            ExportsField::Absent => SpecTree::Absent,
            ExportsField::Leaf(s) => SpecTree::Leaf(s@),
            ExportsField::Alternatives(list) => SpecTree::Alternatives(spec_tree_list(list@)),
            ExportsField::Conditional(entries) => SpecTree::Conditional(spec_cond_list(entries@)),
        }
    }

    /// Whether the field was `null` or missing.
    pub fn is_none(&self) -> (r: bool)
        ensures
            r == (self@ is Absent),
    {
        matches!(self, ExportsField::Absent)
    }
}

/// Views of a sequence of subtrees, element by element.
pub open spec fn spec_tree_list(list: Seq<ExportsField>) -> Seq<SpecTree>
    decreases list, 1int,
{
    if list.len() == 0 {
        Seq::empty()
    } else {
        seq![list[0].view()] + spec_tree_list(list.subrange(1, list.len() as int))
    }
}

/// Views of a sequence of conditional-map entries, element by element.
pub open spec fn spec_cond_list(entries: Seq<(ExportsKey, ExportsField)>) -> Seq<
    (SpecKey, SpecTree),
>
    decreases entries, 1int,
{
    if entries.len() == 0 {
        Seq::empty()
    } else {
        seq![(entries[0].0@, entries[0].1.view())] + spec_cond_list(
            entries.subrange(1, entries.len() as int),
        )
    }
}

/// The element-wise reading of `spec_tree_list`.
pub proof fn lemma_tree_list_index(list: Seq<ExportsField>)
    ensures
        spec_tree_list(list).len() == list.len(),
        forall|i: int| 0 <= i < list.len() ==> spec_tree_list(list)[i] == list[i]@,
    decreases list.len(),
{
    if list.len() > 0 {
        lemma_tree_list_index(list.subrange(1, list.len() as int));
    }
}

/// The element-wise reading of `spec_cond_list`.
pub proof fn lemma_cond_list_index(entries: Seq<(ExportsKey, ExportsField)>)
    ensures
        spec_cond_list(entries).len() == entries.len(),
        forall|i: int|
            0 <= i < entries.len() ==> spec_cond_list(entries)[i] == (
                entries[i].0@,
                entries[i].1@,
            ),
    decreases entries.len(),
{
    if entries.len() > 0 {
        lemma_cond_list_index(entries.subrange(1, entries.len() as int));
    }
}

} // verus!
