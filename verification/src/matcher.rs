//! The target matcher: resolving an exports tree against a requested
//! subpath and a set of enabled conditions.
//!
//! Routing first looks the request up among the map keys (exact key, then
//! the most specific single-`*` pattern), then walks the matched subtree:
//! fallback arrays try their elements in order and report the last failure,
//! conditional maps take the first entry whose condition is enabled (or is
//! `default`) and commit to it, even if it fails.  Recursion depth is capped
//! conservatively; a deeper tree fails `InvalidPackageTarget`.

use vstd::prelude::*;

use crate::error::ResolveError;
use crate::error::SpecErr;
use crate::keys::key_equal;
use crate::keys::ExportsKey;
use crate::keys::SpecKey;
use crate::strings::str_equal;
use crate::target::lemma_first_star;
use crate::target::spec_first_star;
use crate::target::spec_has_star;
use crate::target::spec_resolve_target;
use crate::target::first_star_from;
use crate::target::resolve_target;
use crate::tree::lemma_cond_list_index;
use crate::tree::lemma_tree_list_index;
use crate::tree::spec_cond_list;
use crate::tree::spec_tree_list;
use crate::tree::ExportsField;
use crate::tree::MatchObject;
use crate::tree::SpecTree;

verus! {

/// Maximum recursion depth of the matcher; a manifest nested deeper than
/// this fails `InvalidPackageTarget`.
pub const RESOLVE_DEPTH_LIMIT: u32 = 32;

/// The condition name that matches unconditionally.
pub open spec fn spec_default_name() -> Seq<char> {
    seq!['d', 'e', 'f', 'a', 'u', 'l', 't']
}

/// Whether a conditional-map entry under `key` matches: it must be a
/// condition name that is either `default` or enabled by the caller.
pub open spec fn spec_cond_enabled(key: SpecKey, conds: Seq<Seq<char>>) -> bool {
    match key {
        SpecKey::Condition(name) => name == spec_default_name() || conds.contains(name),
        _ => false,
    }
}

/// Walking a tree with a pending capture: absent trees are not exported,
/// leaves resolve as targets, fallback arrays and conditional maps recurse.
pub open spec fn spec_resolve_tree(
    t: SpecTree,
    cap: Option<Seq<char>>,
    conds: Seq<Seq<char>>,
    fuel: nat,
) -> Result<Seq<char>, SpecErr>
    decreases fuel, 0int,
{
    if fuel == 0 {
        Err(SpecErr::InvalidPackageTarget)
    } else {
        match t {
            SpecTree::Absent => Err(SpecErr::NotExported),
            SpecTree::Leaf(s) => spec_resolve_target(s, cap),
            SpecTree::Alternatives(list) => spec_resolve_alts(
                list,
                0,
                cap,
                conds,
                (fuel - 1) as nat,
            ),
            SpecTree::Conditional(entries) => spec_resolve_conds(
                entries,
                0,
                cap,
                conds,
                (fuel - 1) as nat,
            ),
        }
    }
}

/// Fallback array from element `i` on: first success wins; if every element
/// fails, the last element's failure is reported.
pub open spec fn spec_resolve_alts(
    list: Seq<SpecTree>,
    i: int,
    cap: Option<Seq<char>>,
    conds: Seq<Seq<char>>,
    fuel: nat,
) -> Result<Seq<char>, SpecErr>
    decreases fuel, list.len() - i + 1,
{
    if i < 0 || i >= list.len() {
        Err(SpecErr::NotExported)
    } else {
        let r = spec_resolve_tree(list[i], cap, conds, fuel);
        if r is Ok || i == list.len() - 1 {
            r
        } else {
            spec_resolve_alts(list, i + 1, cap, conds, fuel)
        }
    }
}

/// Conditional map from entry `i` on: the first entry whose condition
/// matches decides the result, success or failure.
pub open spec fn spec_resolve_conds(
    entries: Seq<(SpecKey, SpecTree)>,
    i: int,
    cap: Option<Seq<char>>,
    conds: Seq<Seq<char>>,
    fuel: nat,
) -> Result<Seq<char>, SpecErr>
    decreases fuel, entries.len() - i + 1,
{
    if i < 0 || i >= entries.len() {
        Err(SpecErr::NotExported)
    } else if spec_cond_enabled(entries[i].0, conds) {
        spec_resolve_tree(entries[i].1, cap, conds, fuel)
    } else {
        spec_resolve_conds(entries, i + 1, cap, conds, fuel)
    }
}

/// The pattern characters before the `*`.
pub open spec fn spec_pat_prefix(p: Seq<char>) -> Seq<char> {
    p.take(spec_first_star(p) as int)
}

/// The pattern characters after the `*`.
pub open spec fn spec_pat_suffix(p: Seq<char>) -> Seq<char> {
    p.skip(spec_first_star(p) as int + 1)
}

/// Whether `p` contains exactly one `*`.
pub open spec fn spec_single_star(p: Seq<char>) -> bool {
    spec_has_star(p) && forall|j: int| spec_first_star(p) < j < p.len() ==> p[j] != '*'
}

/// Whether the single-`*` pattern `p` matches the requested subpath `req`:
/// the literal prefix and suffix around the `*` both match.
pub open spec fn spec_pat_matches(p: Seq<char>, req: Seq<char>) -> bool {
    spec_single_star(p) && {
        let pre = spec_pat_prefix(p);
        let suf = spec_pat_suffix(p);
        req.len() >= pre.len() + suf.len() && req.take(pre.len() as int) == pre && req.skip(
            req.len() - suf.len(),
        ) == suf
    }
}

/// The substring of `req` consumed by the `*` of pattern `p`.
pub open spec fn spec_capture(p: Seq<char>, req: Seq<char>) -> Seq<char> {
    req.subrange(spec_pat_prefix(p).len() as int, req.len() - spec_pat_suffix(p).len())
}

/// Whether map key `k` is a pattern that matches `req`.
pub open spec fn spec_key_pat_matches(k: SpecKey, req: Seq<char>) -> bool {
    match k {
        SpecKey::Pattern(p) => spec_pat_matches(p, req),
        _ => false,
    }
}

/// The pattern string of a map key (empty for non-pattern keys).
pub open spec fn spec_key_pattern(k: SpecKey) -> Seq<char> {
    match k {
        SpecKey::Pattern(p) => p,
        _ => Seq::empty(),
    }
}

/// Specificity of a pattern key: the length of its literal prefix.
pub open spec fn spec_prefix_len(k: SpecKey) -> nat {
    spec_pat_prefix(spec_key_pattern(k)).len()
}

/// Scan for the best matching pattern key from entry `i` on, carrying the
/// best entry seen so far: a match replaces the carried one only when its
/// prefix is strictly longer, so the first of equally specific keys wins.
pub open spec fn spec_best_from(
    entries: Seq<(SpecKey, SpecTree)>,
    req: Seq<char>,
    i: int,
    best: Option<int>,
) -> Option<int>
    decreases entries.len() - i,
{
    if i < 0 || i >= entries.len() {
        best
    } else {
        let better = spec_key_pat_matches(entries[i].0, req) && (match best {
            Option::None => true,
            Option::Some(b) => spec_prefix_len(entries[i].0) > spec_prefix_len(entries[b].0),
        });
        spec_best_from(
            entries,
            req,
            i + 1,
            if better {
                Some(i)
            } else {
                best
            },
        )
    }
}

/// The most specific matching pattern key of the map, if any.
pub open spec fn spec_best_match(entries: Seq<(SpecKey, SpecTree)>, req: Seq<char>) -> Option<
    int,
> {
    spec_best_from(entries, req, 0, None)
}

/// First entry whose key equals `key`, from entry `i` on.
pub open spec fn spec_find_key(entries: Seq<(SpecKey, SpecTree)>, key: SpecKey, i: int) -> Option<
    int,
>
    decreases entries.len() - i,
{
    if i < 0 || i >= entries.len() {
        None
    } else if entries[i].0 == key {
        Some(i)
    } else {
        spec_find_key(entries, key, i + 1)
    }
}

/// Whether the map holds any subpath (pattern) key.
pub open spec fn spec_has_pattern_key(entries: Seq<(SpecKey, SpecTree)>) -> bool {
    exists|i: int| 0 <= i < entries.len() && entries[i].0 is Pattern
}

/// The full resolution of one lookup: route the request among the top-level
/// map keys (exact key first, then the most specific matching pattern, then
/// — for the main entry point against a pure condition object — the map
/// itself), and walk the chosen subtree.
pub open spec fn spec_route(
    t: SpecTree,
    req: SpecKey,
    conds: Seq<Seq<char>>,
    is_imports: bool,
) -> Result<Seq<char>, SpecErr> {
    let miss = if is_imports {
        SpecErr::ImportNotDefined
    } else {
        SpecErr::NotExported
    };
    match t {
        SpecTree::Conditional(entries) => match spec_find_key(entries, req, 0) {
            Some(i) => spec_resolve_tree(
                entries[i].1,
                None,
                conds,
                RESOLVE_DEPTH_LIMIT as nat,
            ),
            None => match req {
                SpecKey::Pattern(p) => match spec_best_match(entries, p) {
                    Some(i) => spec_resolve_tree(
                        entries[i].1,
                        Some(spec_capture(spec_key_pattern(entries[i].0), p)),
                        conds,
                        RESOLVE_DEPTH_LIMIT as nat,
                    ),
                    None => Err(miss),
                },
                SpecKey::Main => if spec_has_pattern_key(entries) {
                    Err(SpecErr::NotExported)
                } else {
                    spec_resolve_tree(t, None, conds, RESOLVE_DEPTH_LIMIT as nat)
                },
                SpecKey::Condition(_) => Err(miss),
            },
        },
        _ => if req is Main {
            spec_resolve_tree(t, None, conds, RESOLVE_DEPTH_LIMIT as nat)
        } else {
            Err(miss)
        },
    }
}

/// Whether the conditional-map key `key` matches under the caller's
/// enabled conditions.
fn cond_enabled(key: &ExportsKey, conds: &Vec<String>) -> (r: bool)
    ensures
        r == spec_cond_enabled(key@, conds.deep_view()),
{
    match key {
        ExportsKey::CustomCondition(name) => {
            proof {
                reveal_strlit("default");
                assert("default"@ =~= spec_default_name());
            }
            if str_equal(name.as_str(), "default") {
                return true;
            }
            let mut i: usize = 0;
            while i < conds.len()
                invariant
                    0 <= i <= conds@.len(),
                    key@ == SpecKey::Condition(name@),
                    forall|j: int| 0 <= j < i ==> conds.deep_view()[j] != name@,
                decreases conds@.len() - i,
            {
                if str_equal(name.as_str(), conds[i].as_str()) {
                    assert(conds.deep_view()[i as int] == name@);
                    assert(conds.deep_view().contains(name@));
                    return true;
                }
                i = i + 1;
            }
            assert(!conds.deep_view().contains(name@));
            false
        },
        _ => false,
    }
}

/// Whether the stored pattern `p` (with exactly one `*`) matches the
/// requested subpath `req`.
fn pat_matches(p: &str, req: &str) -> (r: bool)
    ensures
        r == spec_pat_matches(p@, req@),
{
    let n = p.unicode_len();
    proof {
        assert(p@.skip(0) =~= p@);
        lemma_first_star(p@);
    }
    let fs = first_star_from(p, 0);
    if fs >= n {
        return false;
    }
    let ghost after = p@.skip(fs as int + 1);
    proof {
        lemma_first_star(after);
    }
    let fs2 = first_star_from(p, fs + 1);
    if fs2 < n {
        proof {
            assert(after[fs2 - (fs + 1)] == p@[fs2 as int]);
        }
        assert(!spec_single_star(p@));
        return false;
    }
    proof {
        assert(spec_first_star(after) == after.len());
        assert forall|j: int| fs < j < p@.len() implies p@[j] != '*' by {
            assert(after[j - (fs + 1)] == p@[j]);
        }
        assert(spec_single_star(p@));
    }
    let rn = req.unicode_len();
    let pre_len = fs;
    let suf_len = n - fs - 1;
    if rn < pre_len + suf_len {
        return false;
    }
    let pre_ok = str_equal(req.substring_char(0, pre_len), p.substring_char(0, fs));
    proof {
        assert(req@.subrange(0, pre_len as int) =~= req@.take(pre_len as int));
        assert(p@.subrange(0, fs as int) =~= spec_pat_prefix(p@));
    }
    if !pre_ok {
        return false;
    }
    let suf_ok = str_equal(req.substring_char(rn - suf_len, rn), p.substring_char(fs + 1, n));
    proof {
        assert(req@.subrange(rn - suf_len, rn as int) =~= req@.skip(rn - suf_len));
        assert(p@.subrange(fs as int + 1, n as int) =~= spec_pat_suffix(p@));
        assert(spec_pat_suffix(p@).len() == suf_len);
        assert(spec_pat_prefix(p@).len() == pre_len);
    }
    suf_ok
}

/// The view of an executable resolution result.
pub open spec fn spec_result_of(r: Result<String, ResolveError>) -> Result<Seq<char>, SpecErr> {
    match r {
        Ok(s) => Ok(s@),
        Err(e) => Err(e@),
    }
}

/// The best-match scan returns an entry that matches, is at least as
/// specific as every other matching entry, and stands first among the
/// equally specific ones; it returns nothing only when nothing matches.
pub proof fn lemma_best_from_spec(
    entries: Seq<(SpecKey, SpecTree)>,
    req: Seq<char>,
    i: int,
    best: Option<int>,
)
    requires
        0 <= i <= entries.len(),
        match best {
            Some(b) => 0 <= b < i && spec_key_pat_matches(entries[b].0, req) && forall|j: int|
                0 <= j < i && spec_key_pat_matches(entries[j].0, req) ==> (spec_prefix_len(
                    entries[j].0,
                ) < spec_prefix_len(entries[b].0) || (spec_prefix_len(entries[j].0)
                    == spec_prefix_len(entries[b].0) && b <= j)),
            None => forall|j: int| 0 <= j < i ==> !spec_key_pat_matches(entries[j].0, req),
        },
    ensures
        match spec_best_from(entries, req, i, best) {
            Some(b) => 0 <= b < entries.len() && spec_key_pat_matches(entries[b].0, req)
                && forall|j: int|
                0 <= j < entries.len() && spec_key_pat_matches(entries[j].0, req) ==> (
                spec_prefix_len(entries[j].0) < spec_prefix_len(entries[b].0) || (spec_prefix_len(
                    entries[j].0,
                ) == spec_prefix_len(entries[b].0) && b <= j)),
            None => forall|j: int|
                0 <= j < entries.len() ==> !spec_key_pat_matches(entries[j].0, req),
        },
    decreases entries.len() - i,
{
    if i < entries.len() {
        let better = spec_key_pat_matches(entries[i].0, req) && (match best {
            Option::None => true,
            Option::Some(b) => spec_prefix_len(entries[i].0) > spec_prefix_len(entries[b].0),
        });
        let next = if better {
            Some(i)
        } else {
            best
        };
        lemma_best_from_spec(entries, req, i + 1, next);
    }
}

/// Walk one subtree, with `fuel` bounding the remaining recursion depth.
fn resolve_tree(
    tree: &ExportsField,
    cap: Option<&String>,
    conds: &Vec<String>,
    fuel: u32,
) -> (r: Result<String, ResolveError>)
    ensures
        spec_result_of(r) == spec_resolve_tree(tree@, cap.deep_view(), conds.deep_view(),
            fuel as nat,
        ),
    decreases fuel, 0int,
{
    if fuel == 0 {
        return Err(ResolveError::InvalidPackageTarget);
    }
    match tree {
        ExportsField::Absent => Err(ResolveError::NotExported),
        ExportsField::Leaf(s) => {
            let c: Option<&str> = match cap {
                Some(x) => Some(x.as_str()),
                None => None,
            };
            assert(c.deep_view() == cap.deep_view());
            resolve_target(s.as_str(), c)
        },
        ExportsField::Alternatives(list) => resolve_alts(list, 0, cap, conds, fuel - 1),
        ExportsField::Conditional(entries) => resolve_conds(entries, 0, cap, conds, fuel - 1),
    }
}

/// Try the fallback alternatives from element `i` on.
fn resolve_alts(
    list: &Vec<ExportsField>,
    i: usize,
    cap: Option<&String>,
    conds: &Vec<String>,
    fuel: u32,
) -> (r: Result<String, ResolveError>)
    requires
        i <= list@.len(),
    ensures
        spec_result_of(r) == spec_resolve_alts(spec_tree_list(list@), i as int, cap.deep_view(),
            conds.deep_view(), fuel as nat),
    decreases fuel, list@.len() - i + 1,
{
    proof {
        lemma_tree_list_index(list@);
    }
    if i >= list.len() {
        return Err(ResolveError::NotExported);
    }
    let r = resolve_tree(&list[i], cap, conds, fuel);
    if r.is_ok() || i == list.len() - 1 {
        r
    } else {
        resolve_alts(list, i + 1, cap, conds, fuel)
    }
}

/// Take the first enabled condition entry from entry `i` on.
fn resolve_conds(
    entries: &MatchObject,
    i: usize,
    cap: Option<&String>,
    conds: &Vec<String>,
    fuel: u32,
) -> (r: Result<String, ResolveError>)
    requires
        i <= entries@.len(),
    ensures
        spec_result_of(r) == spec_resolve_conds(spec_cond_list(entries@), i as int,
            cap.deep_view(), conds.deep_view(), fuel as nat),
    decreases fuel, entries@.len() - i + 1,
{
    proof {
        lemma_cond_list_index(entries@);
    }
    if i >= entries.len() {
        return Err(ResolveError::NotExported);
    }
    if cond_enabled(&entries[i].0, conds) {
        resolve_tree(&entries[i].1, cap, conds, fuel)
    } else {
        resolve_conds(entries, i + 1, cap, conds, fuel)
    }
}

/// Literal prefix length of a pattern key; the specificity measure.
fn key_prefix_len(key: &ExportsKey) -> (r: usize)
    ensures
        r == spec_prefix_len(key@),
{
    match key {
        ExportsKey::Pattern(q) => {
            proof {
                assert(q@.skip(0) =~= q@);
                lemma_first_star(q@);
            }
            let f = first_star_from(q.as_str(), 0);
            assert(spec_pat_prefix(q@).len() == f);
            f
        },
        _ => {
            assert(spec_key_pattern(key@) =~= Seq::<char>::empty());
            0
        },
    }
}

/// Route a request among the entries of a top-level map and walk the
/// chosen subtree.
fn route_entries(
    entries: &MatchObject,
    request: &ExportsKey,
    conds: &Vec<String>,
    is_imports: bool,
) -> (r: Result<String, ResolveError>)
    ensures
        spec_result_of(r) == spec_route(SpecTree::Conditional(spec_cond_list(entries@)), request@,
            conds.deep_view(), is_imports),
{
    proof {
        lemma_cond_list_index(entries@);
    }
    let ghost em = spec_cond_list(entries@);
    let n = entries.len();
    let mut i: usize = 0;
    while i < n
        invariant
            0 <= i <= n,
            n == entries@.len(),
            em == spec_cond_list(entries@),
            em.len() == n,
            forall|j: int| 0 <= j < em.len() ==> em[j] == (entries@[j].0@, entries@[j].1@),
            spec_find_key(em, request@, 0) == spec_find_key(em, request@, i as int),
        decreases n - i,
    {
        if key_equal(&entries[i].0, request) {
            assert(spec_find_key(em, request@, i as int) == Some(i as int));
            return resolve_tree(&entries[i].1, None, conds, RESOLVE_DEPTH_LIMIT);
        }
        i = i + 1;
    }
    assert(spec_find_key(em, request@, 0) is None);
    let miss = if is_imports {
        ResolveError::ImportNotDefined
    } else {
        ResolveError::NotExported
    };
    match request {
        ExportsKey::Pattern(p) => {
            let mut best: Option<usize> = None;
            let mut best_pre: usize = 0;
            let mut i: usize = 0;
            while i < n
                invariant
                    0 <= i <= n,
                    n == entries@.len(),
                    em == spec_cond_list(entries@),
                    em.len() == n,
                    forall|j: int| 0 <= j < em.len() ==> em[j] == (entries@[j].0@, entries@[j].1@),
                    request@ == SpecKey::Pattern(p@),
                    spec_find_key(em, request@, 0) is None,
                    spec_best_match(em, p@) == spec_best_from(em, p@, i as int,
                        match best {
                            Some(b) => Some(b as int),
                            None => None,
                        },
                    ),
                    match best {
                        Some(b) => b < i && spec_prefix_len(em[b as int].0) == best_pre,
                        None => true,
                    },
                decreases n - i,
            {
                let is_match = match &entries[i].0 {
                    ExportsKey::Pattern(q) => pat_matches(q.as_str(), p.as_str()),
                    _ => false,
                };
                assert(is_match == spec_key_pat_matches(em[i as int].0, p@));
                let better = if is_match {
                    match best {
                        None => true,
                        Some(_) => key_prefix_len(&entries[i].0) > best_pre,
                    }
                } else {
                    false
                };
                if better {
                    best = Some(i);
                    best_pre = key_prefix_len(&entries[i].0);
                }
                i = i + 1;
            }
            match best {
                Some(b) => {
                    proof {
                        lemma_best_from_spec(em, p@, 0, None);
                    }
                    assert(spec_key_pat_matches(em[b as int].0, p@));
                    match &entries[b].0 {
                        ExportsKey::Pattern(q) => {
                            proof {
                                assert(q@.skip(0) =~= q@);
                                lemma_first_star(q@);
                            }
                            let qn = q.as_str().unicode_len();
                            let fs = first_star_from(q.as_str(), 0);
                            let suf_len = qn - fs - 1;
                            let rn = p.as_str().unicode_len();
                            let cap = p.as_str().substring_char(fs, rn - suf_len).to_owned();
                            proof {
                                assert(spec_pat_prefix(q@).len() == fs);
                                assert(spec_pat_suffix(q@).len() == suf_len);
                                assert(cap@ =~= spec_capture(q@, p@));
                            }
                            resolve_tree(&entries[b].1, Some(&cap), conds, RESOLVE_DEPTH_LIMIT)
                        },
                        _ => {
                            proof {
                                assert(false);
                            }
                            Err(ResolveError::NotExported)
                        },
                    }
                },
                None => Err(miss),
            }
        },
        ExportsKey::Main => {
            let mut i: usize = 0;
            while i < n
                invariant
                    0 <= i <= n,
                    n == entries@.len(),
                    em == spec_cond_list(entries@),
                    em.len() == n,
                    forall|j: int| 0 <= j < em.len() ==> em[j] == (entries@[j].0@, entries@[j].1@),
                    forall|j: int| 0 <= j < i ==> !(em[j].0 is Pattern),
                    request@ == SpecKey::Main,
                    spec_find_key(em, request@, 0) is None,
                decreases n - i,
            {
                if matches!(&entries[i].0, ExportsKey::Pattern(_)) {
                    assert(em[i as int].0 is Pattern);
                    assert(spec_has_pattern_key(em));
                    return Err(ResolveError::NotExported);
                }
                i = i + 1;
            }
            assert(!spec_has_pattern_key(em));
            resolve_conds(entries, 0, None, conds, RESOLVE_DEPTH_LIMIT - 1)
        },
        ExportsKey::CustomCondition(_) => Err(miss),
    }
}

/// Resolve a request against the `exports` field of a manifest.
///
/// On success the single resolved candidate target is returned, `./`-prefixed
/// and validated never to leave the package directory.  Failure says exactly
/// why: `NotExported` when no entry covers the request, `InvalidPackageTarget`
/// when the matched entry's target is unusable.
pub fn resolve(tree: &ExportsField, request: &ExportsKey, conditions: &Vec<String>) -> (r: Result<
    Vec<String>,
    ResolveError,
>)
    ensures
        match r {
            Ok(v) => v@.len() == 1 && spec_route(tree@, request@, conditions.deep_view(), false)
                == Ok::<Seq<char>, SpecErr>(v@[0]@),
            Err(e) => spec_route(tree@, request@, conditions.deep_view(), false) == Err::<
                Seq<char>,
                SpecErr,
            >(e@),
        },
{
    let inner: Result<String, ResolveError> = match tree {
        ExportsField::Conditional(entries) => route_entries(entries, request, conditions, false),
        _ => {
            match request {
                ExportsKey::Main => resolve_tree(tree, None, conditions, RESOLVE_DEPTH_LIMIT),
                _ => Err(ResolveError::NotExported),
            }
        },
    };
    match inner {
        Ok(s) => {
            let mut v: Vec<String> = Vec::new();
            v.push(s);
            Ok(v)
        },
        Err(e) => Err(e),
    }
}

/// Resolve a `#`-specifier request against the `imports` field of a
/// manifest.  Same algorithm as `resolve`; a request no entry covers fails
/// `ImportNotDefined`.
pub fn resolve_imports(
    imports: &MatchObject,
    request: &ExportsKey,
    conditions: &Vec<String>,
) -> (r: Result<Vec<String>, ResolveError>)
    ensures
        match r {
            Ok(v) => v@.len() == 1 && spec_route(SpecTree::Conditional(spec_cond_list(imports@)),
                request@, conditions.deep_view(), true) == Ok::<Seq<char>, SpecErr>(v@[0]@),
            Err(e) => spec_route(SpecTree::Conditional(spec_cond_list(imports@)), request@,
                conditions.deep_view(), true) == Err::<Seq<char>, SpecErr>(e@),
        },
{
    match route_entries(imports, request, conditions, true) {
        Ok(s) => {
            let mut v: Vec<String> = Vec::new();
            v.push(s);
            Ok(v)
        },
        Err(e) => Err(e),
    }
}

/// The most specific pattern wins: when routing picks a pattern entry, that
/// entry matches the request, no other matching entry has a longer literal
/// prefix, and among equally specific matches the picked one stands first
/// in source order.  When routing picks none, no entry matches.
pub proof fn lemma_best_match_most_specific(entries: Seq<(SpecKey, SpecTree)>, req: Seq<char>)
    ensures
        match spec_best_match(entries, req) {
            Some(b) => 0 <= b < entries.len() && spec_key_pat_matches(entries[b].0, req)
                && forall|j: int|
                0 <= j < entries.len() && spec_key_pat_matches(entries[j].0, req) ==> (
                spec_prefix_len(entries[j].0) < spec_prefix_len(entries[b].0) || (spec_prefix_len(
                    entries[j].0,
                ) == spec_prefix_len(entries[b].0) && b <= j)),
            None => forall|j: int|
                0 <= j < entries.len() ==> !spec_key_pat_matches(entries[j].0, req),
        },
{
    lemma_best_from_spec(entries, req, 0, None);
}

/// Source key order decides among conditions: the first entry of a
/// conditional map whose condition matches receives the whole lookup, in
/// success and in failure alike — entries after it are never consulted.
pub proof fn lemma_first_enabled_condition_decides(
    entries: Seq<(SpecKey, SpecTree)>,
    i: int,
    cap: Option<Seq<char>>,
    conds: Seq<Seq<char>>,
    fuel: nat,
)
    requires
        0 <= i < entries.len(),
        spec_cond_enabled(entries[i].0, conds),
        forall|j: int| 0 <= j < i ==> !spec_cond_enabled(entries[j].0, conds),
    ensures
        spec_resolve_conds(entries, 0, cap, conds, fuel) == spec_resolve_tree(
            entries[i].1,
            cap,
            conds,
            fuel,
        ),
    decreases i,
{
    if i > 0 {
        lemma_skip_disabled_condition(entries, 0, i, cap, conds, fuel);
    }
}

/// Walking a conditional map past a stretch of disabled entries does not
/// change the outcome.
proof fn lemma_skip_disabled_condition(
    entries: Seq<(SpecKey, SpecTree)>,
    from: int,
    to: int,
    cap: Option<Seq<char>>,
    conds: Seq<Seq<char>>,
    fuel: nat,
)
    requires
        0 <= from <= to <= entries.len(),
        forall|j: int| from <= j < to ==> !spec_cond_enabled(entries[j].0, conds),
    ensures
        spec_resolve_conds(entries, from, cap, conds, fuel) == spec_resolve_conds(
            entries,
            to,
            cap,
            conds,
            fuel,
        ),
    decreases to - from,
{
    if from < to {
        lemma_skip_disabled_condition(entries, from + 1, to, cap, conds, fuel);
    }
}

/// Every successful resolution hands back a `./`-prefixed relative target
/// whose `.` and `..` segments never climb out of the package directory.
pub proof fn lemma_resolved_target_is_safe(
    t: SpecTree,
    req: SpecKey,
    conds: Seq<Seq<char>>,
    is_imports: bool,
    s: Seq<char>,
)
    requires
        spec_route(t, req, conds, is_imports) == Ok::<Seq<char>, SpecErr>(s),
    ensures
        s.len() >= 2,
        s[0] == '.',
        s[1] == '/',
        !crate::target::spec_escapes(s.subrange(2, s.len() as int), 0),
{
    match t {
        SpecTree::Conditional(entries) => {
            match spec_find_key(entries, req, 0) {
                Some(i) => {
                    lemma_tree_target_is_safe(
                        entries[i].1,
                        None,
                        conds,
                        RESOLVE_DEPTH_LIMIT as nat,
                        s,
                    );
                },
                None => {
                    match req {
                        SpecKey::Pattern(p) => {
                            let i = spec_best_match(entries, p)->0;
                            lemma_tree_target_is_safe(
                                entries[i].1,
                                Some(spec_capture(spec_key_pattern(entries[i].0), p)),
                                conds,
                                RESOLVE_DEPTH_LIMIT as nat,
                                s,
                            );
                        },
                        SpecKey::Main => {
                            lemma_tree_target_is_safe(t, None, conds, RESOLVE_DEPTH_LIMIT as nat, s);
                        },
                        SpecKey::Condition(_) => {},
                    }
                },
            }
        },
        _ => {
            lemma_tree_target_is_safe(t, None, conds, RESOLVE_DEPTH_LIMIT as nat, s);
        },
    }
}

/// The tree walk only succeeds with a target that passed validation.
proof fn lemma_tree_target_is_safe(
    t: SpecTree,
    cap: Option<Seq<char>>,
    conds: Seq<Seq<char>>,
    fuel: nat,
    s: Seq<char>,
)
    requires
        spec_resolve_tree(t, cap, conds, fuel) == Ok::<Seq<char>, SpecErr>(s),
    ensures
        s.len() >= 2,
        s[0] == '.',
        s[1] == '/',
        !crate::target::spec_escapes(s.subrange(2, s.len() as int), 0),
    decreases fuel, 0int,
{
    match t {
        SpecTree::Alternatives(list) => {
            lemma_alts_target_is_safe(list, 0, cap, conds, (fuel - 1) as nat, s);
        },
        SpecTree::Conditional(entries) => {
            lemma_conds_target_is_safe(entries, 0, cap, conds, (fuel - 1) as nat, s);
        },
        _ => {},
    }
}

/// Safety of successful fallback-array outcomes, from element `i` on.
proof fn lemma_alts_target_is_safe(
    list: Seq<SpecTree>,
    i: int,
    cap: Option<Seq<char>>,
    conds: Seq<Seq<char>>,
    fuel: nat,
    s: Seq<char>,
)
    requires
        spec_resolve_alts(list, i, cap, conds, fuel) == Ok::<Seq<char>, SpecErr>(s),
    ensures
        s.len() >= 2,
        s[0] == '.',
        s[1] == '/',
        !crate::target::spec_escapes(s.subrange(2, s.len() as int), 0),
    decreases fuel, list.len() - i + 1,
{
    if 0 <= i < list.len() {
        let r = spec_resolve_tree(list[i], cap, conds, fuel);
        if r is Ok || i == list.len() - 1 {
            lemma_tree_target_is_safe(list[i], cap, conds, fuel, s);
        } else {
            lemma_alts_target_is_safe(list, i + 1, cap, conds, fuel, s);
        }
    }
}

/// Safety of successful conditional-map outcomes, from entry `i` on.
proof fn lemma_conds_target_is_safe(
    entries: Seq<(SpecKey, SpecTree)>,
    i: int,
    cap: Option<Seq<char>>,
    conds: Seq<Seq<char>>,
    fuel: nat,
    s: Seq<char>,
)
    requires
        spec_resolve_conds(entries, i, cap, conds, fuel) == Ok::<Seq<char>, SpecErr>(s),
    ensures
        s.len() >= 2,
        s[0] == '.',
        s[1] == '/',
        !crate::target::spec_escapes(s.subrange(2, s.len() as int), 0),
    decreases fuel, entries.len() - i + 1,
{
    if 0 <= i < entries.len() {
        if spec_cond_enabled(entries[i].0, conds) {
            lemma_tree_target_is_safe(entries[i].1, cap, conds, fuel, s);
        } else {
            lemma_conds_target_is_safe(entries, i + 1, cap, conds, fuel, s);
        }
    }
}

/// Resolution is a pure function of the tree, the request and the enabled
/// conditions: two resolutions of the same triple yield identical results.
pub proof fn lemma_resolve_deterministic(
    t: SpecTree,
    req: SpecKey,
    conds: Seq<Seq<char>>,
    is_imports: bool,
    r1: Result<Seq<char>, SpecErr>,
    r2: Result<Seq<char>, SpecErr>,
)
    requires
        r1 == spec_route(t, req, conds, is_imports),
        r2 == spec_route(t, req, conds, is_imports),
    ensures
        r1 == r2,
{
}

} // verus!
