//! Classification of raw `exports` / `imports` map keys.
//!
//! A raw key string classifies into exactly one of three shapes: the main
//! entry point `"."`, a subpath pattern (keys starting with `"./"` or `"#"`),
//! or a condition name (anything else, such as `"import"` or `"default"`).
//! Subpath routing and condition routing share this single key space; the
//! matcher distinguishes them only by which lookup it performs.

use vstd::prelude::*;

verus! {

/// Mathematical model of a classified key, over character sequences.
pub enum SpecKey {
    /// The literal `.` export point.
    Main,
    /// A subpath, stored with leading dots stripped (`./sub` becomes `/sub`,
    /// `#priv` stays `#priv`).
    Pattern(Seq<char>),
    /// A condition name such as `import`, `require`, `node` or `default`.
    Condition(Seq<char>),
}

/// A classified `exports` / `imports` map key.
#[derive(Debug, PartialEq, Eq, Hash)]
pub enum ExportsKey {
    Main,
    Pattern(String),
    CustomCondition(String),
}

impl View for ExportsKey {
    type V = SpecKey;

    open spec fn view(&self) -> SpecKey {
        match self {
            ExportsKey::Main => SpecKey::Main,
            ExportsKey::Pattern(s) => SpecKey::Pattern(s@),
            ExportsKey::CustomCondition(s) => SpecKey::Condition(s@),
        }
    }
}

/// What `classify` returns for a raw key, applied in order: the single dot,
/// then `./`-prefixed subpaths (leading dot stripped), then `#`-prefixed
/// subpaths (kept verbatim), then everything else as a condition name.
pub open spec fn spec_classify(key: Seq<char>) -> SpecKey {
    if key.len() == 1 && key[0] == '.' {
        SpecKey::Main
    } else if key.len() >= 2 && key[0] == '.' && key[1] == '/' {
        SpecKey::Pattern(key.skip(1))
    } else if key.len() >= 1 && key[0] == '#' {
        SpecKey::Pattern(key)
    } else {
        SpecKey::Condition(key)
    }
}

impl ExportsKey {
    /// Classify a raw field-map key.  Pure and total: every string maps to
    /// exactly one variant.
    pub fn classify(key: &str) -> (r: Self)
        ensures
            r@ == spec_classify(key@),
    {
        let n = key.unicode_len();
        if n == 1 && key.get_char(0) == '.' {
            ExportsKey::Main
        } else if n >= 2 && key.get_char(0) == '.' && key.get_char(1) == '/' {
            let stripped = key.substring_char(1, n).to_owned();
            assert(stripped@ =~= key@.skip(1));
            ExportsKey::Pattern(stripped)
        } else if n >= 1 && key.get_char(0) == '#' {
            ExportsKey::Pattern(key.to_owned())
        } else {
            ExportsKey::CustomCondition(key.to_owned())
        }
    }
}

/// Structural equality of two keys, usable from verified code.
pub fn key_equal(a: &ExportsKey, b: &ExportsKey) -> (r: bool)
    ensures
        r == (a@ == b@),
{
    match (a, b) {
        (ExportsKey::Main, ExportsKey::Main) => true,
        (ExportsKey::Pattern(x), ExportsKey::Pattern(y)) => x.eq(y),
        (ExportsKey::CustomCondition(x), ExportsKey::CustomCondition(y)) => x.eq(y),
        _ => false,
    }
}

} // verus!
