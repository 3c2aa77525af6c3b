//! Path containment on resolved paths. Containment is decided on path
//! components after both paths were resolved (symlinks followed), so a
//! link inside the root that points elsewhere does not count as inside.

use vstd::prelude::*;
use crate::error::CoreError;
use vstd::string::*;
use crate::text::{chars_of, string_from_char_range, str_eq, views_of};

verus! {

/// Reading `s` left to right: the `/`-separated segments finished so far
/// and the unfinished one.
pub open spec fn segment_scan(s: Seq<char>) -> (Seq<Seq<char>>, Seq<char>)
    decreases s.len(),
{
    if s.len() == 0 {
        (Seq::empty(), Seq::empty())
    } else {
        let prev = segment_scan(s.drop_last());
        if s.last() == '/' {
            (prev.0.push(prev.1), Seq::empty())
        } else {
            (prev.0, prev.1.push(s.last()))
        }
    }
}

/// The segments of `s` between `/` separators, empty ones included.
pub open spec fn segments(s: Seq<char>) -> Seq<Seq<char>> {
    segment_scan(s).0.push(segment_scan(s).1)
}

/// A segment that names something: neither empty nor `.`.
pub open spec fn is_normal_segment(x: Seq<char>) -> bool {
    x.len() > 0 && x != seq!['.']
}

/// The segments of `segs` that name something, in order.
pub open spec fn normal_parts(segs: Seq<Seq<char>>) -> Seq<Seq<char>>
    decreases segs.len(),
{
    if segs.len() == 0 {
        Seq::empty()
    } else if is_normal_segment(segs.last()) {
        normal_parts(segs.drop_last()).push(segs.last())
    } else {
        normal_parts(segs.drop_last())
    }
}

/// The components of a Unix path, as `Path::components` yields them: the
/// root (written `/`) for an absolute path, a leading `.` for a relative
/// path that starts with one, then every segment that names something.
/// Repeated separators and inner `.` segments vanish; `..` stays.
pub open spec fn components(s: Seq<char>) -> Seq<Seq<char>> {
    if s.len() > 0 && s[0] == '/' {
        seq![seq!['/']] + normal_parts(segments(s))
    } else if segments(s)[0] == seq!['.'] {
        seq![seq!['.']] + normal_parts(segments(s))
    } else {
        normal_parts(segments(s))
    }
}

/// `base` is a component-wise prefix of `path` (`Path::starts_with`).
pub open spec fn starts_with_components(path: Seq<char>, base: Seq<char>) -> bool {
    let p = components(path);
    let b = components(base);
    b.len() <= p.len() && p.take(b.len() as int) == b
}

proof fn lemma_segment_scan_step(s: Seq<char>, i: int)
    requires
        0 <= i < s.len(),
    ensures
        s.take(i + 1).drop_last() == s.take(i),
        s.take(i + 1).last() == s[i],
{
    assert(s.take(i + 1).drop_last() =~= s.take(i));
}

/// The `/`-separated segments of `cs`.
fn split_segments(cs: &Vec<char>) -> (r: Vec<String>)
    ensures
        views_of(r@) == segments(cs@),
{
    let mut out: Vec<String> = Vec::new();
    let mut start: usize = 0;
    let mut i: usize = 0;
    while i < cs.len()
        invariant
            start <= i <= cs@.len(),
            segment_scan(cs@.take(i as int)) == (views_of(out@), cs@.subrange(start as int, i as int)),
        decreases cs@.len() - i,
    {
        let ghost prev = segment_scan(cs@.take(i as int));
        proof { lemma_segment_scan_step(cs@, i as int); }
        if cs[i] == '/' {
            let seg = string_from_char_range(cs.as_slice(), start, i);
            out.push(seg);
            proof { assert(views_of(out@) =~= prev.0.push(seg@)); }
            start = i + 1;
        } else {
            proof {
                assert(cs@.subrange(start as int, i + 1) =~= cs@.subrange(start as int, i as int).push(cs@[i as int]));
            }
        }
        i += 1;
        proof { assert(cs@.subrange(start as int, i as int) == segment_scan(cs@.take(i as int)).1); }
    }
    proof { assert(cs@.take(i as int) =~= cs@); }
    let last = string_from_char_range(cs.as_slice(), start, cs.len());
    let ghost before = views_of(out@);
    out.push(last);
    proof { assert(views_of(out@) =~= before.push(last@)); }
    out
}

/// The components of a path (see `components`).
pub fn path_components(path: &str) -> (r: Vec<String>)
    ensures
        views_of(r@) == components(path@),
{
    let cs = chars_of(path);
    let segs = split_segments(&cs);
    let ghost sv = views_of(segs@);
    proof {
        assert(sv.len() == segs@.len());
        assert(sv.len() > 0);
    }
    let mut out: Vec<String> = Vec::new();
    if cs.len() > 0 && cs[0] == '/' {
        out.push("/".to_owned());
        proof {
            reveal_strlit("/");
            assert("/"@ =~= seq!['/']);
            assert(views_of(out@) =~= seq![seq!['/']]);
        }
    } else if str_eq(segs[0].as_str(), ".") {
        out.push(".".to_owned());
        proof {
            reveal_strlit(".");
            assert("."@ =~= seq!['.']);
            assert(views_of(out@) =~= seq![seq!['.']]);
        }
    } else {
        proof {
            reveal_strlit(".");
            assert("."@ =~= seq!['.']);
            assert(views_of(out@) =~= Seq::<Seq<char>>::empty());
        }
    }
    let ghost head = views_of(out@);
    proof {
        assert(sv[0] == segs@[0]@);
        reveal_strlit(".");
        reveal_strlit("/");
        assert(head =~= (if cs@.len() > 0 && cs@[0] == '/' { seq![seq!['/']] } else if sv[0] == seq!['.'] {
            seq![seq!['.']] } else { Seq::<Seq<char>>::empty() }));
        assert(normal_parts(sv.take(0)) =~= Seq::<Seq<char>>::empty());
        assert(views_of(out@) =~= head + normal_parts(sv.take(0)));
    }
    let mut k: usize = 0;
    while k < segs.len()
        invariant
            sv == views_of(segs@),
            sv == segments(cs@),
            cs@ == path@,
            k <= segs@.len(),
            views_of(out@) == head + normal_parts(sv.take(k as int)),
            head == (if cs@.len() > 0 && cs@[0] == '/' { seq![seq!['/']] } else if sv[0] == seq!['.'] {
                seq![seq!['.']] } else { Seq::<Seq<char>>::empty() }),
        decreases segs@.len() - k,
    {
        proof {
            assert(sv.take(k + 1).drop_last() =~= sv.take(k as int));
            assert(sv.take(k + 1).last() == segs@[k as int]@);
        }
        let seg = &segs[k];
        let normal = !seg.as_str().is_empty() && !str_eq(seg.as_str(), ".");
        proof {
            reveal_strlit(".");
            assert("."@ =~= seq!['.']);
            assert(normal == is_normal_segment(sv.take(k + 1).last()));
        }
        if normal {
            let ghost before = views_of(out@);
            out.push(seg.clone());
            proof {
                assert(views_of(out@) =~= before.push(seg@));
                assert(head + normal_parts(sv.take(k + 1)) =~= (head + normal_parts(sv.take(k as int))).push(seg@));
            }
        }
        k += 1;
    }
    proof {
        assert(sv.take(k as int) =~= sv);
        if !(cs@.len() > 0 && cs@[0] == '/') && sv[0] != seq!['.'] {
            assert(head + normal_parts(sv) =~= normal_parts(sv));
        }
    }
    out
}

/// Whether `base` is a component-wise prefix of `path`.
pub fn path_starts_with(path: &str, base: &str) -> (b: bool)
    ensures
        b == starts_with_components(path@, base@),
{
    let p = path_components(path);
    let q = path_components(base);
    if q.len() > p.len() {
        return false;
    }
    let mut i: usize = 0;
    while i < q.len()
        invariant
            views_of(p@) == components(path@),
            views_of(q@) == components(base@),
            q@.len() <= p@.len(),
            i <= q@.len(),
            forall|j: int| 0 <= j < i ==> p@[j]@ == q@[j]@,
        decreases q@.len() - i,
    {
        if !str_eq(p[i].as_str(), q[i].as_str()) {
            proof {
                assert(views_of(p@)[i as int] == p@[i as int]@);
                assert(components(path@).take(q@.len() as int)[i as int] != components(base@)[i as int]);
            }
            return false;
        }
        i += 1;
    }
    proof {
        assert forall|j: int| 0 <= j < q@.len() implies
            components(path@).take(q@.len() as int)[j] == components(base@)[j] by {
            assert(views_of(p@)[j] == p@[j]@);
            assert(views_of(q@)[j] == q@[j]@);
        }
        assert(components(path@).take(q@.len() as int) =~= components(base@));
    }
    true
}

/// `base` joined with `rel` as `Path::join` does on Unix: an absolute
/// `rel` replaces `base`; otherwise a `/` separates them unless `base` is
/// empty or already ends with one.
pub open spec fn joined(base: Seq<char>, rel: Seq<char>) -> Seq<char> {
    if rel.len() > 0 && rel[0] == '/' {
        rel
    } else if base.len() == 0 || base.last() == '/' {
        base + rel
    } else {
        base + seq!['/'] + rel
    }
}

/// `base` joined with `rel` (see `joined`).
pub fn join_path(base: &str, rel: &str) -> (r: String)
    ensures
        r@ == joined(base@, rel@),
{
    let b = chars_of(base);
    let c = chars_of(rel);
    if c.len() > 0 && c[0] == '/' {
        return rel.to_owned();
    }
    let mut out = base.to_owned();
    if b.len() > 0 && b[b.len() - 1] != '/' {
        out.append("/");
        proof { reveal_strlit("/"); assert("/"@ =~= seq!['/']); }
    }
    out.append(rel);
    out
}

/// The outcome of resolving `path` to its canonical form: the resolved
/// path, or the failure's message text turned into the library's error.
pub fn canonicalize_existing(path: &str, resolved: Result<String, String>) -> (r: Result<String, CoreError>)
    ensures
        match resolved {
            Ok(p) => r matches Ok(q) && q@ == p@,
            Err(msg) => r matches Err(CoreError::Other(m))
                && m@ == "canonicalize failed for "@ + path@ + ": "@ + msg@,
        },
{
    match resolved {
        Ok(p) => Ok(p),
        Err(msg) => {
            let mut m = "canonicalize failed for ".to_owned();
            m.append(path);
            m.append(": ");
            m.append(msg.as_str());
            Err(CoreError::Other(m))
        },
    }
}

/// Whether `child` equals `root` or lies under it, both already resolved.
pub fn is_contained(root: &str, child: &str) -> (b: bool)
    ensures
        b == starts_with_components(child@, root@),
{
    path_starts_with(child, root)
}

/// Refuses a path that escapes its root: `Ok` when the resolved `child`
/// lies under the resolved `root`, else a `PathEscape` naming the paths
/// as the caller gave them.
pub fn assert_contained(root: &str, child: &str, resolved_root: &str, resolved_child: &str) -> (r: Result<(), CoreError>)
    ensures
        r is Ok <==> starts_with_components(resolved_child@, resolved_root@),
        r matches Err(e) ==> e matches CoreError::PathEscape { path, root: rt } && path@ == child@ && rt@ == root@,
{
    if is_contained(resolved_root, resolved_child) {
        Ok(())
    } else {
        Err(CoreError::PathEscape { path: child.to_owned(), root: root.to_owned() })
    }
}

/// Every path lies under itself.
pub proof fn lemma_contained_reflexive(p: Seq<char>)
    ensures
        starts_with_components(p, p),
{
    assert(components(p).take(components(p).len() as int) =~= components(p));
}

/// Lying under is transitive: under `b`, which lies under `a`, is under `a`.
pub proof fn lemma_contained_transitive(a: Seq<char>, b: Seq<char>, c: Seq<char>)
    requires
        starts_with_components(b, a),
        starts_with_components(c, b),
    ensures
        starts_with_components(c, a),
{
    let ca = components(a);
    let cb = components(b);
    let cc = components(c);
    assert(cc.take(ca.len() as int) =~= cb.take(ca.len() as int));
}

} // verus!
