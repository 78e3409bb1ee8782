//! Joining and normalizing slash-separated paths.
//!
//! The manifest loader rewrites relative browser-map keys into absolute
//! paths under the manifest's directory, so that lookups at query time are
//! plain string comparisons.  Normalization is purely lexical: `.` and empty
//! segments vanish, `..` removes the preceding segment (or nothing, at the
//! root).

use vstd::prelude::*;

use crate::target::lemma_seg_len;
use crate::target::seg_len_from;
use crate::target::spec_seg_len;
use crate::target::spec_seg_weight;

verus! {

/// Fold the `/`-separated segments of `t` onto a segment stack.
pub open spec fn spec_norm(t: Seq<char>, stack: Seq<Seq<char>>) -> Seq<Seq<char>>
    decreases t.len(),
{
    let k = spec_seg_len(t);
    let seg = t.take(k as int);
    let w = spec_seg_weight(seg);
    let stack2 = if w == -1 {
        if stack.len() > 0 {
            stack.drop_last()
        } else {
            stack
        }
    } else if w == 0 {
        stack
    } else {
        stack.push(seg)
    };
    if k >= t.len() {
        stack2
    } else {
        spec_norm(t.subrange(k as int + 1, t.len() as int), stack2)
    }
}

/// Join segments into an absolute path: a `/` before each segment.
pub open spec fn spec_join_abs(segs: Seq<Seq<char>>) -> Seq<char>
    decreases segs.len(),
{
    if segs.len() == 0 {
        Seq::empty()
    } else {
        seq!['/'] + segs[0] + spec_join_abs(segs.subrange(1, segs.len() as int))
    }
}

/// The absolute path for `rel` interpreted relative to `dir`.
pub open spec fn spec_normalize_join(dir: Seq<char>, rel: Seq<char>) -> Seq<char> {
    spec_join_abs(spec_norm(rel, spec_norm(dir, Seq::empty())))
}

/// Fold the segments of `t`, from position `i` on, onto `stack`.
fn norm_into(t: &str, i: usize, stack: &mut Vec<String>)
    requires
        i <= t@.len(),
    ensures
        final(stack).deep_view() == spec_norm(t@.skip(i as int), old(stack).deep_view()),
    decreases t@.len() - i,
{
    let ghost rest = t@.skip(i as int);
    let n = t.unicode_len();
    let k = seg_len_from(t, i);
    let ghost seg = rest.take(spec_seg_len(rest) as int);
    proof {
        lemma_seg_len(rest);
        assert(seg =~= t@.subrange(i as int, i as int + k as int));
        assert(seg.len() == k);
        assert(k >= 1 ==> seg[0] == t@[i as int]);
        assert(k >= 2 ==> seg[1] == t@[i as int + 1]);
    }
    let is_dotdot = k == 2 && t.get_char(i) == '.' && t.get_char(i + 1) == '.';
    let is_neutral = k == 0 || (k == 1 && t.get_char(i) == '.');
    assert(is_dotdot == (spec_seg_weight(seg) == -1));
    assert(!is_dotdot && is_neutral ==> spec_seg_weight(seg) == 0);
    assert(!is_dotdot && !is_neutral ==> spec_seg_weight(seg) == 1);
    if is_dotdot {
        if stack.len() > 0 {
            let ghost before = stack.deep_view();
            let _dropped = stack.pop();
            proof {
                assert(stack.deep_view() =~= before.drop_last());
            }
        }
    } else if is_neutral {
    } else {
        let ghost before = stack.deep_view();
        let seg_str = t.substring_char(i, i + k).to_owned();
        stack.push(seg_str);
        proof {
            assert(stack.deep_view() =~= before.push(seg));
        }
    }
    if i + k >= n {
        return ;
    }
    proof {
        assert(rest.subrange(spec_seg_len(rest) as int + 1, rest.len() as int) =~= t@.skip(
            i as int + k as int + 1,
        ));
    }
    norm_into(t, i + k + 1, stack);
}

/// Join the stacked segments into an absolute path, from segment `i` on.
fn join_abs(stack: &Vec<String>, i: usize) -> (r: String)
    requires
        i <= stack@.len(),
    ensures
        r@ == spec_join_abs(stack.deep_view().skip(i as int)),
    decreases stack@.len() - i,
{
    let ghost segs = stack.deep_view();
    if i >= stack.len() {
        proof {
            assert(segs.skip(i as int) =~= Seq::<Seq<char>>::empty());
        }
        return String::new();
    }
    let mut out = "/".to_owned();
    proof {
        reveal_strlit("/");
        assert(out@ =~= seq!['/']);
    }
    out.append(stack[i].as_str());
    let tail = join_abs(stack, i + 1);
    out.append(tail.as_str());
    proof {
        assert(segs.skip(i as int)[0] == segs[i as int]);
        assert(segs.skip(i as int).subrange(1, segs.skip(i as int).len() as int) =~= segs.skip(
            i as int + 1,
        ));
        assert(segs[i as int] == stack@[i as int]@);
    }
    out
}

/// The absolute path for `rel` interpreted relative to `dir`: join, then
/// drop `.` segments and let `..` consume its preceding segment.
pub fn normalize_join(dir: &str, rel: &str) -> (r: String)
    ensures
        r@ == spec_normalize_join(dir@, rel@),
{
    let mut stack: Vec<String> = Vec::new();
    proof {
        assert(dir@.skip(0) =~= dir@);
        assert(rel@.skip(0) =~= rel@);
        assert(stack.deep_view() =~= Seq::<Seq<char>>::empty());
    }
    norm_into(dir, 0, &mut stack);
    norm_into(rel, 0, &mut stack);
    let r = join_abs(&stack, 0);
    proof {
        assert(stack.deep_view().skip(0) =~= stack.deep_view());
    }
    r
}

} // verus!
