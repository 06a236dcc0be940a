//! Verified lexical path arithmetic.
//!
//! Paths are plain strings with `/` separators. The engine normalizes every
//! candidate path lexically (resolving `.` and `..` segments) before probing
//! the filesystem snapshot, and the same normal form is used to express the
//! contracts of the resolution algorithm.

use vstd::prelude::*;
use crate::strings::{find_char, rfind_char, str_eq, concat2};

verus! {

/// A path is absolute when it starts with `/`.
pub open spec fn spec_is_abs(p: Seq<char>) -> bool {
    p.len() > 0 && p[0] == '/'
}

pub fn is_abs_path(p: &str) -> (r: bool)
    ensures
        r == spec_is_abs(p@),
{
    if p.unicode_len() > 0 {
        p.get_char(0) == '/'
    } else {
        false
    }
}

/// Joining a relative path onto a base inserts a separator; an absolute
/// right-hand side replaces the base outright.
pub open spec fn spec_join(base: Seq<char>, rel: Seq<char>) -> Seq<char> {
    if spec_is_abs(rel) {
        rel
    } else {
        base + seq!['/'] + rel
    }
}

pub fn join_path(base: &str, rel: &str) -> (r: String)
    ensures
        r@ == spec_join(base@, rel@),
{
    if is_abs_path(rel) {
        rel.to_owned()
    } else {
        proof {
            reveal_strlit("/");
            assert("/"@ =~= seq!['/']);
        }
        let s = concat2(base, "/");
        let r = s.concat(rel);
        proof {
            assert(r@ =~= base@ + seq!['/'] + rel@);
        }
        r
    }
}

/// The segments of a path, split at every `/`.
pub open spec fn spec_split(s: Seq<char>) -> Seq<Seq<char>>
    decreases s.len(),
    via spec_split_decreases
{
    match s.index_of_first('/') {
        Some(i) => seq![s.subrange(0, i)] + spec_split(s.subrange(i + 1, s.len() as int)),
        None => seq![s],
    }
}

#[via_fn]
proof fn spec_split_decreases(s: Seq<char>) {
    s.index_of_first_ensures('/');
}

/// Appends the segments of `s` to `out`.
pub fn split_path_into(s: &str, out: &mut Vec<String>)
    ensures
        final(out).deep_view() == old(out).deep_view() + spec_split(s@),
    decreases s@.len(),
{
    proof {
        s@.index_of_first_ensures('/');
    }
    let n = s.unicode_len();
    match find_char(s, '/') {
        Some(i) => {
            let ghost prior = out.deep_view();
            let head = s.substring_char(0, i);
            out.push(String::from_str(head));
            proof {
                assert(s@.index_of_first('/') == Some(i as int));
                assert(out.deep_view() =~= prior.push(head@));
            }
            let rest = s.substring_char(i + 1, n);
            split_path_into(rest, out);
            proof {
                assert(out.deep_view() =~= prior + spec_split(s@));
            }
        }
        None => {
            let ghost prior = out.deep_view();
            out.push(String::from_str(s));
            proof {
                assert(s@.index_of_first('/') is None);
                assert(out.deep_view() =~= prior + spec_split(s@));
            }
        }
    }
}

/// A `.` segment.
pub open spec fn is_dot(c: Seq<char>) -> bool {
    c.len() == 1 && c[0] == '.'
}

/// A `..` segment.
pub open spec fn is_dotdot(c: Seq<char>) -> bool {
    c.len() == 2 && c[0] == '.' && c[1] == '.'
}

/// One step of lexical normalization: empty and `.` segments vanish, `..`
/// removes the previous segment (and is dropped at the root), anything else
/// is kept.
pub open spec fn spec_norm_step(acc: Seq<Seq<char>>, comp: Seq<char>) -> Seq<Seq<char>> {
    if comp.len() == 0 || is_dot(comp) {
        acc
    } else if is_dotdot(comp) {
        if acc.len() == 0 {
            acc
        } else {
            acc.drop_last()
        }
    } else {
        acc.push(comp)
    }
}

/// The segments that survive lexical normalization, in order.
pub open spec fn spec_norm_comps(cs: Seq<Seq<char>>) -> Seq<Seq<char>>
    decreases cs.len(),
{
    if cs.len() == 0 {
        cs
    } else {
        spec_norm_step(spec_norm_comps(cs.drop_last()), cs.last())
    }
}

/// Re-assembles segments into a rooted path string.
pub open spec fn spec_concat_comps(cs: Seq<Seq<char>>) -> Seq<char>
    decreases cs.len(),
{
    if cs.len() == 0 {
        Seq::empty()
    } else {
        spec_concat_comps(cs.drop_last()) + seq!['/'] + cs.last()
    }
}

/// Lexical normal form of a path, rooted at `/` as the OS would root it.
pub open spec fn spec_normalize(p: Seq<char>) -> Seq<char> {
    let cs = spec_norm_comps(spec_split(p));
    if cs.len() == 0 {
        seq!['/']
    } else {
        spec_concat_comps(cs)
    }
}

/// Resolves `.` and `..` segments of `p` without consulting the filesystem.
pub fn normalize_path(p: &str) -> (r: String)
    ensures
        r@ == spec_normalize(p@),
{
    let mut comps: Vec<String> = Vec::new();
    split_path_into(p, &mut comps);
    proof {
        assert(comps.deep_view() =~= spec_split(p@));
    }
    let mut stack: Vec<String> = Vec::new();
    let n = comps.len();
    let mut i: usize = 0;
    while i < n
        invariant
            n == comps@.len(),
            i <= n,
            comps.deep_view() == spec_split(p@),
            stack.deep_view() == spec_norm_comps(comps.deep_view().subrange(0, i as int)),
        decreases n - i,
    {
        proof {
            assert(comps.deep_view().subrange(0, i + 1).drop_last() =~= comps.deep_view()
                .subrange(0, i as int));
            assert(comps.deep_view().subrange(0, i + 1).last() == comps@[i as int]@);
        }
        let ghost prior = stack.deep_view();
        let comp = comps[i].clone();
        let clen = comp.as_str().unicode_len();
        if clen == 0 || (clen == 1 && comp.as_str().get_char(0) == '.') {
            proof {
                assert(stack.deep_view() =~= spec_norm_comps(
                    comps.deep_view().subrange(0, i + 1),
                ));
            }
        } else if clen == 2 && comp.as_str().get_char(0) == '.' && comp.as_str().get_char(1)
            == '.' {
            if stack.len() > 0 {
                let popped = stack.pop();
                proof {
                    assert(popped is Some);
                    assert(stack.deep_view() =~= prior.drop_last());
                }
            }
            proof {
                assert(stack.deep_view() =~= spec_norm_comps(
                    comps.deep_view().subrange(0, i + 1),
                ));
            }
        } else {
            stack.push(comp);
            proof {
                assert(stack.deep_view() =~= prior.push(comps@[i as int]@));
                assert(stack.deep_view() =~= spec_norm_comps(
                    comps.deep_view().subrange(0, i + 1),
                ));
            }
        }
        i += 1;
    }
    proof {
        assert(comps.deep_view().subrange(0, n as int) =~= comps.deep_view());
    }
    let m = stack.len();
    if m == 0 {
        proof {
            reveal_strlit("/");
            assert("/"@ =~= seq!['/']);
        }
        return String::from_str("/");
    }
    let ghost normed = stack.deep_view();
    let mut out = String::new();
    let mut k: usize = 0;
    while k < m
        invariant
            m == stack@.len(),
            k <= m,
            stack.deep_view() == normed,
            out@ == spec_concat_comps(normed.subrange(0, k as int)),
        decreases m - k,
    {
        proof {
            reveal_strlit("/");
            assert("/"@ =~= seq!['/']);
            assert(normed.subrange(0, k + 1).drop_last() =~= normed.subrange(0, k as int));
            assert(normed.subrange(0, k + 1).last() == stack@[k as int]@);
        }
        out.append("/");
        out.append(stack[k].as_str());
        proof {
            assert(out@ =~= spec_concat_comps(normed.subrange(0, k + 1)));
        }
        k += 1;
    }
    proof {
        assert(normed.subrange(0, m as int) =~= normed);
    }
    out
}

/// The parent directory of a path: everything before the last `/`, the root
/// `/` when the last `/` is the leading one, and nothing for the root itself
/// or for a path with no separator at all.
pub open spec fn spec_parent(p: Seq<char>) -> Option<Seq<char>> {
    if p.len() <= 1 {
        None
    } else {
        match p.index_of_last('/') {
            Some(i) => if i == 0 {
                Some(seq!['/'])
            } else {
                Some(p.subrange(0, i))
            },
            None => None,
        }
    }
}

/// Every parent is strictly shorter than its child, which bounds the
/// ancestor walk of the resolution engine.
pub proof fn lemma_parent_shorter(p: Seq<char>)
    ensures
        spec_parent(p) matches Some(q) ==> q.len() < p.len(),
{
    p.index_of_last_ensures('/');
}

pub fn parent_path(p: &str) -> (r: Option<String>)
    ensures
        match r {
            Some(q) => spec_parent(p@) == Some(q@),
            None => spec_parent(p@) is None,
        },
{
    proof {
        p@.index_of_last_ensures('/');
    }
    let n = p.unicode_len();
    if n <= 1 {
        return None;
    }
    match rfind_char(p, '/') {
        None => None,
        Some(i) => {
            proof {
                assert(p@.index_of_last('/') == Some(i as int));
            }
            if i == 0 {
                proof {
                    reveal_strlit("/");
                    assert("/"@ =~= seq!['/']);
                }
                Some(String::from_str("/"))
            } else {
                Some(String::from_str(p.substring_char(0, i)))
            }
        }
    }
}

} // verus!
