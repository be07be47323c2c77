//! POSIX paths as strings, modelled by their components the way `std::path::Path`
//! reads them: an optional root, then the segments between `/` separators, with
//! empty segments and non-leading `.` segments dropped. Two paths are the same
//! path exactly when their component lists agree, so every comparison below goes
//! through the canonical rendering of the components.

use vstd::prelude::*;
use crate::text::push_char;

verus! {

/// A path starts at the root when its first character is `/`.
pub open spec fn spec_has_root(p: Seq<char>) -> bool {
    p.len() > 0 && p[0] == '/'
}

/// Closing a segment: empty segments vanish, `.` survives only as the very first
/// component of a relative path.
pub open spec fn flush(cur: Seq<char>, acc: Seq<Seq<char>>, first: bool) -> Seq<Seq<char>> {
    if cur.len() == 0 {
        acc
    } else if cur == seq!['.'] && !first {
        acc
    } else {
        acc.push(cur)
    }
}

/// Left-to-right scan from position `k`, with the segment `cur` being read,
/// the closed components `acc`, and `first` true while `cur` starts the path.
pub open spec fn scan(p: Seq<char>, k: int, cur: Seq<char>, acc: Seq<Seq<char>>, first: bool) -> Seq<Seq<char>>
    decreases p.len() - k,
{
    if k >= p.len() {
        flush(cur, acc, first)
    } else if p[k] == '/' {
        scan(p, k + 1, Seq::empty(), flush(cur, acc, first), false)
    } else {
        scan(p, k + 1, cur.push(p[k]), acc, first)
    }
}

/// The non-root components of `p`.
pub open spec fn spec_segs(p: Seq<char>) -> Seq<Seq<char>> {
    scan(p, 0, Seq::empty(), Seq::empty(), !spec_has_root(p))
}

/// `segs` joined with `/`.
pub open spec fn join_slash(segs: Seq<Seq<char>>) -> Seq<char>
    decreases segs.len(),
{
    if segs.len() == 0 {
        Seq::empty()
    } else if segs.len() == 1 {
        segs[0]
    } else {
        join_slash(segs.drop_last()) + seq!['/'] + segs.last()
    }
}

/// The canonical text of a path with the given root flag and components.
pub open spec fn render(root: bool, segs: Seq<Seq<char>>) -> Seq<char> {
    if root {
        seq!['/'] + join_slash(segs)
    } else {
        join_slash(segs)
    }
}

/// The canonical text of `p`: its components, re-joined.
pub open spec fn canon(p: Seq<char>) -> Seq<char> {
    render(spec_has_root(p), spec_segs(p))
}

/// The string views of a vector of strings.
pub open spec fn views(v: Seq<String>) -> Seq<Seq<char>> {
    v.map_values(|s: String| s@)
}

pub fn has_root(p: &str) -> (r: bool)
    ensures
        r == spec_has_root(p@),
{
    p.unicode_len() > 0 && p.get_char(0) == '/'
}

fn str_of(cur: &Vec<char>) -> (r: String)
    ensures
        r@ == cur@,
{
    let mut s = String::new();
    let mut i: usize = 0;
    while i < cur.len()
        invariant
            i <= cur.len(),
            s@ == cur@.subrange(0, i as int),
        decreases cur.len() - i,
    {
        push_char(&mut s, cur[i]);
        proof {
            assert(cur@.subrange(0, i + 1) =~= cur@.subrange(0, i as int).push(cur@[i as int]));
        }
        i = i + 1;
    }
    proof {
        assert(cur@.subrange(0, cur.len() as int) =~= cur@);
    }
    s
}

fn flush_exec(cur: &Vec<char>, acc: &mut Vec<String>, first: bool)
    ensures
        views(final(acc)@) == flush(cur@, views(old(acc)@), first),
{
    if cur.len() == 0 {
        return;
    }
    if cur.len() == 1 && cur[0] == '.' && !first {
        proof {
            assert(cur@ =~= seq!['.']);
        }
        return;
    }
    proof {
        if cur@ == seq!['.'] {
            assert(cur@.len() == 1 && cur@[0] == '.');
        }
    }
    let s = str_of(cur);
    acc.push(s);
    proof {
        assert(views(acc@) =~= views(old(acc)@).push(cur@));
    }
}

/// The components of `p` (without the root), in order.
pub fn segments(p: &str) -> (r: Vec<String>)
    ensures
        views(r@) == spec_segs(p@),
{
    let n = p.unicode_len();
    let mut acc: Vec<String> = Vec::new();
    let mut cur: Vec<char> = Vec::new();
    let mut first = !has_root(p);
    let mut k: usize = 0;
    proof {
        assert(views(acc@) =~= Seq::<Seq<char>>::empty());
        assert(cur@ =~= Seq::<char>::empty());
    }
    while k < n
        invariant
            n == p@.len(),
            k <= n,
            scan(p@, k as int, cur@, views(acc@), first) == spec_segs(p@),
        decreases n - k,
    {
        let c = p.get_char(k);
        if c == '/' {
            flush_exec(&cur, &mut acc, first);
            cur = Vec::new();
            first = false;
            proof {
                assert(cur@ =~= Seq::<char>::empty());
            }
        } else {
            cur.push(c);
        }
        k = k + 1;
    }
    flush_exec(&cur, &mut acc, first);
    acc
}

/// Joins strings with `/` between them.
pub fn join_with_slash(segs: &Vec<String>) -> (r: String)
    ensures
        r@ == join_slash(views(segs@)),
{
    let mut r = String::new();
    let mut i: usize = 0;
    while i < segs.len()
        invariant
            i <= segs.len(),
            r@ == join_slash(views(segs@.subrange(0, i as int))),
        decreases segs.len() - i,
    {
        let ghost before = views(segs@.subrange(0, i as int));
        if i > 0 {
            push_char(&mut r, '/');
        }
        r.append(segs[i].as_str());
        proof {
            let after = views(segs@.subrange(0, i + 1));
            assert(after.drop_last() =~= before);
            assert(after.last() == segs@[i as int]@);
            if i == 0 {
                assert(before.len() == 0);
                assert(r@ =~= segs@[0]@);
            } else {
                assert(r@ =~= join_slash(before) + seq!['/'] + segs@[i as int]@);
            }
        }
        i = i + 1;
    }
    proof {
        assert(segs@.subrange(0, segs.len() as int) =~= segs@);
    }
    r
}

/// The canonical text for a root flag and components.
pub fn render_path(root: bool, segs: &Vec<String>) -> (r: String)
    ensures
        r@ == render(root, views(segs@)),
{
    let j = join_with_slash(segs);
    if root {
        let mut r = String::new();
        push_char(&mut r, '/');
        r.append(j.as_str());
        proof {
            assert(r@ =~= seq!['/'] + j@);
        }
        r
    } else {
        j
    }
}

/// The canonical text of `p`.
pub fn canonical(p: &str) -> (r: String)
    ensures
        r@ == canon(p@),
{
    let segs = segments(p);
    render_path(has_root(p), &segs)
}

/// String equality, executable.
pub fn str_eq(a: &str, b: &str) -> (r: bool)
    ensures
        r == (a@ == b@),
{
    let x = String::from_str(a);
    let y = String::from_str(b);
    x == y
}

/// Whether `a` and `b` name the same path (same components).
pub fn same_path(a: &str, b: &str) -> (r: bool)
    ensures
        r == (canon(a@) == canon(b@)),
{
    let x = canonical(a);
    let y = canonical(b);
    x == y
}

} // verus!

verus! {

/// `Path::parent`: `None` when there is no component to drop.
pub open spec fn spec_parent(p: Seq<char>) -> Option<Seq<char>> {
    if spec_segs(p).len() == 0 {
        None
    } else {
        Some(render(spec_has_root(p), spec_segs(p).drop_last()))
    }
}

/// `Path::file_name`: the last component when it is a plain name.
pub open spec fn spec_file_name(p: Seq<char>) -> Option<Seq<char>> {
    let s = spec_segs(p);
    if s.len() == 0 || s.last() == seq!['.'] || s.last() == seq!['.', '.'] {
        None
    } else {
        Some(s.last())
    }
}

/// `Path::strip_prefix`, rendered: the components of `p` after those of `base`,
/// joined with `/`, when `base`'s components (root included) lead `p`'s.
pub open spec fn spec_strip_prefix(p: Seq<char>, base: Seq<char>) -> Option<Seq<char>> {
    let ps = spec_segs(p);
    let bs = spec_segs(base);
    if spec_has_root(p) == spec_has_root(base) && bs.len() <= ps.len() && ps.subrange(0, bs.len() as int) == bs {
        Some(join_slash(ps.subrange(bs.len() as int, ps.len() as int)))
    } else {
        None
    }
}

/// One step of lexical normalization over the accumulated components.
pub open spec fn norm_step(root: bool, acc: Seq<Seq<char>>, s: Seq<char>) -> Seq<Seq<char>> {
    if s == seq!['.'] {
        acc
    } else if s == seq!['.', '.'] {
        if acc.len() > 0 {
            acc.drop_last()
        } else if !root {
            acc.push(s)
        } else {
            acc
        }
    } else {
        acc.push(s)
    }
}

/// Lexical normalization of the first `k` components of `segs`.
pub open spec fn norm_fold(root: bool, segs: Seq<Seq<char>>, k: int) -> Seq<Seq<char>>
    decreases k,
{
    if k <= 0 {
        Seq::empty()
    } else {
        norm_step(root, norm_fold(root, segs, k - 1), segs[k - 1])
    }
}

/// `.` and `..` collapsed lexically: `..` drops the previous component; with
/// nothing to drop it is kept on a relative path and dropped past the root.
pub open spec fn spec_lexically_normalize(p: Seq<char>) -> Seq<char> {
    let segs = spec_segs(p);
    render(spec_has_root(p), norm_fold(spec_has_root(p), segs, segs.len() as int))
}

pub fn parent(p: &str) -> (r: Option<String>)
    ensures
        r matches Some(x) ==> spec_parent(p@) == Some(x@),
        r is None ==> spec_parent(p@) is None,
{
    let mut segs = segments(p);
    if segs.len() == 0 {
        return None;
    }
    let ghost before = views(segs@);
    segs.pop();
    proof {
        assert(views(segs@) =~= before.drop_last());
    }
    Some(render_path(has_root(p), &segs))
}

fn is_dot(s: &String) -> (r: bool)
    ensures
        r == (s@ == seq!['.']),
{
    let v = s.as_str();
    if v.unicode_len() == 1 && v.get_char(0) == '.' {
        proof { assert(s@ =~= seq!['.']); }
        true
    } else {
        false
    }
}

fn is_dotdot(s: &String) -> (r: bool)
    ensures
        r == (s@ == seq!['.', '.']),
{
    let v = s.as_str();
    if v.unicode_len() == 2 && v.get_char(0) == '.' && v.get_char(1) == '.' {
        proof { assert(s@ =~= seq!['.', '.']); }
        true
    } else {
        false
    }
}

pub fn file_name(p: &str) -> (r: Option<String>)
    ensures
        r matches Some(x) ==> spec_file_name(p@) == Some(x@),
        r is None ==> spec_file_name(p@) is None,
{
    let segs = segments(p);
    let n = segs.len();
    if n == 0 {
        return None;
    }
    let last = &segs[n - 1];
    if is_dot(last) || is_dotdot(last) {
        return None;
    }
    Some(last.clone())
}

pub fn strip_prefix(p: &str, base: &str) -> (r: Option<String>)
    ensures
        r matches Some(x) ==> spec_strip_prefix(p@, base@) == Some(x@),
        r is None ==> spec_strip_prefix(p@, base@) is None,
{
    if has_root(p) != has_root(base) {
        return None;
    }
    let ps = segments(p);
    let bs = segments(base);
    if bs.len() > ps.len() {
        return None;
    }
    let mut i: usize = 0;
    while i < bs.len()
        invariant
            bs.len() <= ps.len(),
            i <= bs.len(),
            views(ps@) == spec_segs(p@),
            views(bs@) == spec_segs(base@),
            forall|k: int| 0 <= k < i ==> views(ps@)[k] == views(bs@)[k],
        decreases bs.len() - i,
    {
        let same = ps[i] == bs[i];
        proof {
            assert(views(ps@)[i as int] == ps@[i as int]@);
            assert(views(bs@)[i as int] == bs@[i as int]@);
        }
        if !same {
            proof {
                assert(ps@[i as int]@ != bs@[i as int]@);
                assert(views(ps@).subrange(0, bs.len() as int)[i as int] == views(ps@)[i as int]);
                let sp = spec_segs(p@);
                let sb = spec_segs(base@);
                assert(sp == views(ps@));
                assert(sb == views(bs@));
                assert(sp.subrange(0, sb.len() as int)[i as int] != sb[i as int]);
                assert(sp.subrange(0, sb.len() as int) != sb);
                assert(views(ps@).subrange(0, bs.len() as int)[i as int] != views(bs@)[i as int]);
            }
            return None;
        }
        i = i + 1;
    }
    proof {
        assert(views(ps@).subrange(0, bs.len() as int) =~= views(bs@));
    }
    let mut rest: Vec<String> = Vec::new();
    let mut j: usize = bs.len();
    while j < ps.len()
        invariant
            bs.len() <= j <= ps.len(),
            views(rest@) == views(ps@).subrange(bs.len() as int, j as int),
        decreases ps.len() - j,
    {
        let ghost before = views(rest@);
        let item = ps[j].clone();
        rest.push(item);
        proof {
            assert(views(ps@)[j as int] == ps@[j as int]@);
            assert(views(rest@) =~= before.push(ps@[j as int]@));
            assert(views(rest@) =~= views(ps@).subrange(bs.len() as int, j + 1));
        }
        j = j + 1;
    }
    Some(join_with_slash(&rest))
}

/// Collapse `.` and `..` components lexically (no filesystem access).
pub fn lexically_normalize(p: &str) -> (r: String)
    ensures
        r@ == spec_lexically_normalize(p@),
{
    let root = has_root(p);
    let segs = segments(p);
    let mut out: Vec<String> = Vec::new();
    let mut k: usize = 0;
    proof {
        assert(views(out@) =~= Seq::<Seq<char>>::empty());
    }
    while k < segs.len()
        invariant
            k <= segs.len(),
            views(out@) == norm_fold(root, views(segs@), k as int),
        decreases segs.len() - k,
    {
        let s = &segs[k];
        let ghost before = views(out@);
        if is_dot(s) {
        } else if is_dotdot(s) {
            if out.len() > 0 {
                out.pop();
                proof { assert(views(out@) =~= before.drop_last()); }
            } else if !root {
                out.push(s.clone());
                proof { assert(views(out@) =~= before.push(s@)); }
            }
        } else {
            out.push(s.clone());
            proof { assert(views(out@) =~= before.push(s@)); }
        }
        k = k + 1;
    }
    render_path(root, &out)
}

} // verus!
