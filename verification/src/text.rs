//! Small string helpers shared by the library.

use vstd::prelude::*;
use vstd::std_specs::iter::IteratorSpec;
use crate::external::{push_char, is_white_space, white_space};

verus! {

/// Equality of two string slices by content.
pub fn str_eq(a: &str, b: &str) -> (r: bool)
    ensures
        r == (a@ == b@),
{
    let x: String = a.to_owned();
    let y: String = b.to_owned();
    x == y
}

} // verus!

verus! {

/// The parts joined with `sep` between consecutive parts.
pub open spec fn join_seqs(parts: Seq<Seq<char>>, sep: Seq<char>) -> Seq<char>
    decreases parts.len(),
{
    if parts.len() == 0 {
        Seq::empty()
    } else if parts.len() == 1 {
        parts[0]
    } else {
        join_seqs(parts.drop_last(), sep) + sep + parts.last()
    }
}

/// The views of a sequence of strings.
pub open spec fn views_of(v: Seq<String>) -> Seq<Seq<char>> {
    v.map_values(|s: String| s@)
}

/// `parts` joined with `sep`, as `[String]::join`.
pub fn join_with(parts: &Vec<String>, sep: &str) -> (r: String)
    ensures
        r@ == join_seqs(views_of(parts@), sep@),
{
    let ghost pv = views_of(parts@);
    let mut out = String::new();
    let mut i: usize = 0;
    while i < parts.len()
        invariant
            pv == views_of(parts@),
            i <= parts@.len(),
            out@ == join_seqs(pv.take(i as int), sep@),
        decreases parts@.len() - i,
    {
        proof {
            assert(pv.take(i + 1).drop_last() =~= pv.take(i as int));
            assert(pv.take(i + 1).last() == parts@[i as int]@);
        }
        if i == 0 {
            proof { assert(pv.take(1) =~= seq![parts@[0]@]); }
            out.append(parts[i].as_str());
        } else {
            out.append(sep);
            out.append(parts[i].as_str());
        }
        i += 1;
    }
    proof { assert(pv.take(i as int) =~= pv); }
    out
}

/// Every part occurs inside the joined text, at some offset.
pub proof fn lemma_join_contains(parts: Seq<Seq<char>>, sep: Seq<char>, k: int)
    requires
        0 <= k < parts.len(),
    ensures
        exists|off: int| 0 <= off && off + parts[k].len() <= join_seqs(parts, sep).len()
            && #[trigger] join_seqs(parts, sep).subrange(off, off + parts[k].len()) == parts[k],
    decreases parts.len(),
{
    let j = join_seqs(parts, sep);
    if parts.len() == 1 {
        assert(j.subrange(0int, 0int + parts[k].len()) =~= parts[k]);
    } else if k == parts.len() - 1 {
        let pre = join_seqs(parts.drop_last(), sep) + sep;
        let off = pre.len() as int;
        assert(j.subrange(off, off + parts[k].len()) =~= parts[k]);
    } else {
        let d = parts.drop_last();
        lemma_join_contains(d, sep, k);
        let off = choose|off: int| 0 <= off && off + d[k].len() <= join_seqs(d, sep).len()
            && #[trigger] join_seqs(d, sep).subrange(off, off + d[k].len()) == d[k];
        assert(j.subrange(off, off + parts[k].len()) =~= join_seqs(d, sep).subrange(off, off + d[k].len()));
    }
}

} // verus!

verus! {

/// The characters of `s`, in order.
pub fn chars_of(s: &str) -> (v: Vec<char>)
    ensures
        v@ == s@,
{
    broadcast use vstd::string::axiom_spec_iter, vstd::string::next_postcondition;
    let mut it = s.chars();
    let mut out: Vec<char> = Vec::new();
    loop
        invariant
            out@ + it.remaining() == s@,
            it.obeys_prophetic_iter_laws(),
            it.decrease() is Some,
        ensures
            out@ == s@,
        decreases it.decrease()->0,
    {
        let c = it.next();
        match c {
            Some(ch) => { out.push(ch); },
            None => {
                proof { assert(out@ =~= out@ + it.remaining()); }
                break;
            },
        }
    }
    out
}

} // verus!

verus! {

/// A string holding the characters `v[lo..hi]`.
pub fn string_from_char_range(v: &[char], lo: usize, hi: usize) -> (s: String)
    requires
        lo <= hi <= v@.len(),
    ensures
        s@ == v@.subrange(lo as int, hi as int),
{
    let mut out = String::new();
    let mut i: usize = lo;
    while i < hi
        invariant
            lo <= i <= hi <= v@.len(),
            out@ == v@.subrange(lo as int, i as int),
        decreases hi - i,
    {
        proof { assert(v@.subrange(lo as int, i + 1) =~= v@.subrange(lo as int, i as int).push(v@[i as int])); }
        push_char(&mut out, v[i]);
        i += 1;
    }
    out
}

/// A string holding the characters of `v`.
pub fn string_from_chars(v: &[char]) -> (s: String)
    ensures
        s@ == v@,
{
    let r = string_from_char_range(v, 0, v.len());
    proof { assert(v@.subrange(0, v@.len() as int) =~= v@); }
    r
}

/// The first `n` characters of `s` (all of them when `s` is shorter).
pub fn take_chars(s: &str, n: usize) -> (r: String)
    ensures
        r@ == (if n < s@.len() { s@.take(n as int) } else { s@ }),
{
    let cs = chars_of(s);
    let k: usize = if n < cs.len() { n } else { cs.len() };
    let out = string_from_char_range(cs.as_slice(), 0, k);
    proof {
        assert(n < s@.len() ==> cs@.subrange(0, k as int) =~= s@.take(n as int));
        assert(n >= s@.len() ==> cs@.subrange(0, k as int) =~= s@);
    }
    out
}

/// Whether `p` is a prefix of `s`.
pub open spec fn has_prefix(s: Seq<char>, p: Seq<char>) -> bool {
    p.len() <= s.len() && s.take(p.len() as int) == p
}

/// The rest of `s` after the prefix `prefix`, when `s` starts with it.
pub fn strip_prefix(s: &str, prefix: &str) -> (r: Option<String>)
    ensures
        match r {
            Some(rest) => has_prefix(s@, prefix@) && rest@ == s@.skip(prefix@.len() as int),
            None => !has_prefix(s@, prefix@),
        },
{
    let cs = chars_of(s);
    let ps = chars_of(prefix);
    if ps.len() > cs.len() {
        return None;
    }
    let mut i: usize = 0;
    while i < ps.len()
        invariant
            cs@ == s@,
            ps@ == prefix@,
            ps@.len() <= cs@.len(),
            i <= ps@.len(),
            forall|j: int| 0 <= j < i ==> cs@[j] == ps@[j],
        decreases ps@.len() - i,
    {
        if cs[i] != ps[i] {
            proof { assert(s@.take(prefix@.len() as int)[i as int] != prefix@[i as int]); }
            return None;
        }
        i += 1;
    }
    proof { assert(s@.take(prefix@.len() as int) =~= prefix@); }
    let rest = string_from_char_range(cs.as_slice(), ps.len(), cs.len());
    proof { assert(rest@ =~= s@.skip(prefix@.len() as int)); }
    Some(rest)
}

} // verus!

verus! {

/// `x` without one trailing carriage return.
pub open spec fn strip_cr(x: Seq<char>) -> Seq<char> {
    if x.len() > 0 && x.last() == '\r' { x.drop_last() } else { x }
}

/// Reading `s` left to right: the lines finished by a `\n` (each without
/// its `\n`, and without the `\r` of a `\r\n`), and the unfinished line.
pub open spec fn line_scan(s: Seq<char>) -> (Seq<Seq<char>>, Seq<char>)
    decreases s.len(),
{
    if s.len() == 0 {
        (Seq::empty(), Seq::empty())
    } else {
        let prev = line_scan(s.drop_last());
        if s.last() == '\n' {
            (prev.0.push(strip_cr(prev.1)), Seq::empty())
        } else {
            (prev.0, prev.1.push(s.last()))
        }
    }
}

/// The lines of `s`, as `str::lines` yields them: a final line ending is
/// optional, and an empty unfinished last line is no line.
pub open spec fn lines_of(s: Seq<char>) -> Seq<Seq<char>> {
    let sc = line_scan(s);
    if sc.1.len() == 0 { sc.0 } else { sc.0.push(sc.1) }
}

/// The lines of `s` (see `lines_of`).
pub fn split_lines(s: &str) -> (r: Vec<String>)
    ensures
        views_of(r@) == lines_of(s@),
{
    let cs = chars_of(s);
    let mut out: Vec<String> = Vec::new();
    let mut start: usize = 0;
    let mut i: usize = 0;
    while i < cs.len()
        invariant
            cs@ == s@,
            start <= i <= cs@.len(),
            line_scan(cs@.take(i as int)) == (views_of(out@), cs@.subrange(start as int, i as int)),
        decreases cs@.len() - i,
    {
        let ghost prev = line_scan(cs@.take(i as int));
        proof { assert(cs@.take(i + 1).drop_last() =~= cs@.take(i as int)); }
        if cs[i] == '\n' {
            let end: usize = if i > start && cs[i - 1] == '\r' { i - 1 } else { i };
            let line = string_from_char_range(cs.as_slice(), start, end);
            proof {
                assert(line@ =~= strip_cr(cs@.subrange(start as int, i as int)));
            }
            out.push(line);
            proof { assert(views_of(out@) =~= prev.0.push(line@)); }
            start = i + 1;
        } else {
            proof {
                assert(cs@.subrange(start as int, i + 1) =~= cs@.subrange(start as int, i as int).push(cs@[i as int]));
            }
        }
        i += 1;
        proof { assert(cs@.subrange(start as int, i as int) == line_scan(cs@.take(i as int)).1); }
    }
    proof { assert(cs@.take(i as int) =~= s@); }
    if start < cs.len() {
        let last = string_from_char_range(cs.as_slice(), start, cs.len());
        let ghost before = views_of(out@);
        out.push(last);
        proof { assert(views_of(out@) =~= before.push(last@)); }
    }
    out
}

/// `s` without leading characters that have the `White_Space` property.
pub open spec fn trim_start_seq(s: Seq<char>) -> Seq<char>
    decreases s.len(),
{
    if s.len() > 0 && white_space(s[0]) { trim_start_seq(s.drop_first()) } else { s }
}

/// `s` without trailing characters that have the `White_Space` property.
pub open spec fn trim_end_seq(s: Seq<char>) -> Seq<char>
    decreases s.len(),
{
    if s.len() > 0 && white_space(s.last()) { trim_end_seq(s.drop_last()) } else { s }
}

/// `s` without leading and trailing white space, as `str::trim`.
pub open spec fn trim_seq(s: Seq<char>) -> Seq<char> {
    trim_end_seq(trim_start_seq(s))
}

/// `s` without leading and trailing white space.
pub fn trim(s: &str) -> (r: String)
    ensures
        r@ == trim_seq(s@),
{
    let cs = chars_of(s);
    let n = cs.len();
    let mut i: usize = 0;
    proof { assert(cs@.subrange(0, n as int) =~= s@); }
    while i < n && is_white_space(cs[i])
        invariant
            cs@ == s@,
            n == cs@.len(),
            i <= n,
            trim_start_seq(s@) == trim_start_seq(cs@.subrange(i as int, n as int)),
        decreases n - i,
    {
        proof { assert(cs@.subrange(i as int, n as int).drop_first() =~= cs@.subrange(i + 1, n as int)); }
        i += 1;
    }
    let mut j: usize = n;
    proof {
        let rest = cs@.subrange(i as int, n as int);
        if i < n {
            assert(rest[0] == cs@[i as int]);
        }
    }
    while j > i && is_white_space(cs[j - 1])
        invariant
            cs@ == s@,
            n == cs@.len(),
            i <= j <= n,
            trim_start_seq(s@) == cs@.subrange(i as int, n as int),
            trim_end_seq(cs@.subrange(i as int, n as int)) == trim_end_seq(cs@.subrange(i as int, j as int)),
        decreases j - i,
    {
        proof { assert(cs@.subrange(i as int, j as int).drop_last() =~= cs@.subrange(i as int, j - 1)); }
        j -= 1;
    }
    proof {
        let mid = cs@.subrange(i as int, j as int);
        if j > i {
            assert(mid.last() == cs@[j - 1]);
        }
    }
    string_from_char_range(cs.as_slice(), i, j)
}

} // verus!
