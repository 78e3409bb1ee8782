//! Validation and wildcard substitution of a literal target string.
//!
//! A matched `Leaf` target must absorb a pending pattern capture (every `*`
//! replaced by the captured segment), start with `./`, and stay inside the
//! package directory once its `.` and `..` segments are accounted for;
//! anything else is `InvalidPackageTarget`.

use vstd::prelude::*;

use crate::error::ResolveError;
use crate::error::SpecErr;
use crate::strings::starts_with2;

verus! {

/// Index of the first `*` in `t`, or `t.len()` if there is none.
pub open spec fn spec_first_star(t: Seq<char>) -> nat
    decreases t.len(),
{
    if t.len() == 0 {
        0
    } else if t[0] == '*' {
        0
    } else {
        1 + spec_first_star(t.subrange(1, t.len() as int))
    }
}

/// Whether `t` contains a `*`.
pub open spec fn spec_has_star(t: Seq<char>) -> bool {
    spec_first_star(t) < t.len()
}

/// `spec_first_star` is the least index holding a star, if any.
pub proof fn lemma_first_star(t: Seq<char>)
    ensures
        0 <= spec_first_star(t) <= t.len(),
        spec_first_star(t) < t.len() ==> t[spec_first_star(t) as int] == '*',
        forall|j: int| 0 <= j < spec_first_star(t) ==> t[j] != '*',
    decreases t.len(),
{
    if t.len() > 0 && t[0] != '*' {
        lemma_first_star(t.subrange(1, t.len() as int));
        assert forall|j: int| 0 <= j < spec_first_star(t) implies t[j] != '*' by {
            if j >= 1 {
                assert(t.subrange(1, t.len() as int)[j - 1] == t[j]);
            }
        }
    }
}

/// `t` with every `*` replaced by `cap`.
pub open spec fn spec_subst(t: Seq<char>, cap: Seq<char>) -> Seq<char>
    decreases t.len(),
{
    if t.len() == 0 {
        Seq::empty()
    } else {
        (if t[0] == '*' {
            cap
        } else {
            seq![t[0]]
        }) + spec_subst(t.subrange(1, t.len() as int), cap)
    }
}

/// Number of characters before the first `/` in `t` (all of `t` if none).
pub open spec fn spec_seg_len(t: Seq<char>) -> nat
    decreases t.len(),
{
    if t.len() == 0 {
        0
    } else if t[0] == '/' {
        0
    } else {
        1 + spec_seg_len(t.subrange(1, t.len() as int))
    }
}

/// `spec_seg_len` marks the first `/`, if any.
pub proof fn lemma_seg_len(t: Seq<char>)
    ensures
        0 <= spec_seg_len(t) <= t.len(),
        spec_seg_len(t) < t.len() ==> t[spec_seg_len(t) as int] == '/',
        forall|j: int| 0 <= j < spec_seg_len(t) ==> t[j] != '/',
    decreases t.len(),
{
    if t.len() > 0 && t[0] != '/' {
        lemma_seg_len(t.subrange(1, t.len() as int));
        assert forall|j: int| 0 <= j < spec_seg_len(t) implies t[j] != '/' by {
            if j >= 1 {
                assert(t.subrange(1, t.len() as int)[j - 1] == t[j]);
            }
        }
    }
}

/// Depth change contributed by one path segment.
pub open spec fn spec_seg_weight(seg: Seq<char>) -> int {
    if seg.len() == 2 && seg[0] == '.' && seg[1] == '.' {
        -1
    } else if seg.len() == 0 || (seg.len() == 1 && seg[0] == '.') {
        0
    } else {
        1
    }
}

/// Whether walking the `/`-separated segments of `t`, starting `depth`
/// directories below the package root, ever climbs above the root.
pub open spec fn spec_escapes(t: Seq<char>, depth: int) -> bool
    decreases t.len(),
{
    let k = spec_seg_len(t);
    let d = depth + spec_seg_weight(t.take(k as int));
    if d < 0 {
        true
    } else if k >= t.len() {
        false
    } else {
        spec_escapes(t.subrange(k as int + 1, t.len() as int), d)
    }
}

/// What resolving one literal target yields: the substituted target when a
/// capture is pending, provided the target can absorb it, starts with `./`
/// and does not escape the package directory; `InvalidPackageTarget`
/// otherwise.
pub open spec fn spec_resolve_target(t: Seq<char>, cap: Option<Seq<char>>) -> Result<
    Seq<char>,
    SpecErr,
> {
    if cap is Some && !spec_has_star(t) {
        Err(SpecErr::InvalidPackageTarget)
    } else {
        let out = if cap is Some {
            spec_subst(t, cap->0)
        } else {
            t
        };
        if !(out.len() >= 2 && out[0] == '.' && out[1] == '/') {
            Err(SpecErr::InvalidPackageTarget)
        } else if spec_escapes(out.subrange(2, out.len() as int), 0) {
            Err(SpecErr::InvalidPackageTarget)
        } else {
            Ok(out)
        }
    }
}

/// Index of the first `*` at or after `i`, or the length if none.
pub fn first_star_from(t: &str, i: usize) -> (r: usize)
    requires
        i <= t@.len(),
    ensures
        r == i + spec_first_star(t@.skip(i as int)),
    decreases t@.len() - i,
{
    let n = t.unicode_len();
    if i >= n {
        proof {
            assert(t@.skip(i as int) =~= Seq::<char>::empty());
        }
        return n;
    }
    let ghost rest = t@.skip(i as int);
    assert(rest[0] == t@[i as int]);
    if t.get_char(i) == '*' {
        i
    } else {
        let r = first_star_from(t, i + 1);
        proof {
            assert(rest.subrange(1, rest.len() as int) =~= t@.skip(i as int + 1));
        }
        r
    }
}

/// Whether `t` contains a `*`.
pub fn has_star(t: &str) -> (r: bool)
    ensures
        r == spec_has_star(t@),
{
    let n = t.unicode_len();
    let k = first_star_from(t, 0);
    proof {
        assert(t@.skip(0) =~= t@);
    }
    k < n
}

/// `t` from position `i` on, with every `*` replaced by `cap`.
pub fn subst_from(t: &str, i: usize, cap: &str) -> (r: String)
    requires
        i <= t@.len(),
    ensures
        r@ == spec_subst(t@.skip(i as int), cap@),
    decreases t@.len() - i,
{
    let n = t.unicode_len();
    if i >= n {
        proof {
            assert(t@.skip(i as int) =~= Seq::<char>::empty());
        }
        return String::new();
    }
    let ghost rest = t@.skip(i as int);
    assert(rest[0] == t@[i as int]);
    let tail = subst_from(t, i + 1, cap);
    let mut out = if t.get_char(i) == '*' {
        cap.to_owned()
    } else {
        t.substring_char(i, i + 1).to_owned()
    };
    proof {
        assert(rest.subrange(1, rest.len() as int) =~= t@.skip(i as int + 1));
        assert(t@.subrange(i as int, i as int + 1) =~= seq![t@[i as int]]);
    }
    out.append(tail.as_str());
    out
}

/// Length of the path segment of `t` that starts at `i`.
pub fn seg_len_from(t: &str, i: usize) -> (r: usize)
    requires
        i <= t@.len(),
    ensures
        r == spec_seg_len(t@.skip(i as int)),
        i + r <= t@.len(),
    decreases t@.len() - i,
{
    let n = t.unicode_len();
    if i >= n {
        proof {
            assert(t@.skip(i as int) =~= Seq::<char>::empty());
        }
        return 0;
    }
    let ghost rest = t@.skip(i as int);
    assert(rest[0] == t@[i as int]);
    if t.get_char(i) == '/' {
        0
    } else {
        let r = seg_len_from(t, i + 1);
        proof {
            assert(rest.subrange(1, rest.len() as int) =~= t@.skip(i as int + 1));
        }
        1 + r
    }
}

/// Whether the segments of `t` from position `i` on, starting `depth`
/// directories below the root, escape the root.
pub fn escapes_from(t: &str, i: usize, depth: usize) -> (r: bool)
    requires
        i <= t@.len(),
        depth <= i,
    ensures
        r == spec_escapes(t@.skip(i as int), depth as int),
    decreases t@.len() - i,
{
    let ghost rest = t@.skip(i as int);
    let n = t.unicode_len();
    let k = seg_len_from(t, i);
    let ghost seg = rest.take(spec_seg_len(rest) as int);
    proof {
        lemma_seg_len(rest);
        assert(seg =~= t@.subrange(i as int, i as int + k as int));
        assert(seg.len() == k);
        assert(k >= 1 ==> seg[0] == t@[i as int]);
        assert(k >= 2 ==> seg[1] == t@[i as int + 1]);
    }
    let is_dotdot = k == 2 && t.get_char(i) == '.' && t.get_char(i + 1) == '.';
    let is_neutral = k == 0 || (k == 1 && t.get_char(i) == '.');
    assert(is_dotdot == (spec_seg_weight(seg) == -1));
    assert(!is_dotdot && is_neutral ==> spec_seg_weight(seg) == 0);
    assert(!is_dotdot && !is_neutral ==> spec_seg_weight(seg) == 1);
    if is_dotdot && depth == 0 {
        return true;
    }
    if i + k >= n {
        return false;
    }
    let d = if is_dotdot {
        depth - 1
    } else if is_neutral {
        depth
    } else {
        depth + 1
    };
    proof {
        assert(rest.subrange(spec_seg_len(rest) as int + 1, rest.len() as int) =~= t@.skip(
            i as int + k as int + 1,
        ));
    }
    escapes_from(t, i + k + 1, d)
}

/// Resolve one literal target against a pending capture.
pub fn resolve_target(t: &str, cap: Option<&str>) -> (r: Result<String, ResolveError>)
    ensures
        match r {
            Ok(s) => spec_resolve_target(t@, cap.deep_view()) == Ok::<Seq<char>, SpecErr>(s@),
            Err(e) => spec_resolve_target(t@, cap.deep_view()) == Err::<Seq<char>, SpecErr>(e@),
        },
{
    let out: String = match cap {
        Some(c) => {
            if !has_star(t) {
                return Err(ResolveError::InvalidPackageTarget);
            }
            proof {
                assert(t@.skip(0) =~= t@);
            }
            subst_from(t, 0, c)
        },
        None => t.to_owned(),
    };
    if !starts_with2(out.as_str(), '.', '/') {
        return Err(ResolveError::InvalidPackageTarget);
    }
    let n = out.as_str().unicode_len();
    let rest = out.as_str().substring_char(2, n);
    proof {
        assert(rest@ =~= out@.subrange(2, out@.len() as int));
        assert(rest@.skip(0) =~= rest@);
    }
    if escapes_from(rest, 0, 0) {
        return Err(ResolveError::InvalidPackageTarget);
    }
    Ok(out)
}

} // verus!
