//! The orders the library sorts by: `str`/`String` order (character codes,
//! lexicographic — the same as UTF-8 byte order) and `Path` order (component by
//! component: the root first, then `.`, then `..`, then plain names by string).

use vstd::prelude::*;
use crate::path::{has_root, segments, spec_has_root, spec_segs, views};

verus! {

/// Lexicographic order on character sequences.
pub open spec fn str_lt(a: Seq<char>, b: Seq<char>) -> bool
    decreases a.len(),
{
    if a.len() == 0 {
        b.len() > 0
    } else if b.len() == 0 {
        false
    } else if (a[0] as u32) < (b[0] as u32) {
        true
    } else if (a[0] as u32) > (b[0] as u32) {
        false
    } else {
        str_lt(a.drop_first(), b.drop_first())
    }
}

/// The rank of a path component: root, `.`, `..`, then plain names.
pub open spec fn comp_rank(c: Seq<char>) -> int {
    if c == seq!['/'] {
        1
    } else if c == seq!['.'] {
        2
    } else if c == seq!['.', '.'] {
        3
    } else {
        4
    }
}

/// Order on single components.
pub open spec fn comp_lt(a: Seq<char>, b: Seq<char>) -> bool {
    comp_rank(a) < comp_rank(b) || (comp_rank(a) == comp_rank(b) && comp_rank(a) == 4 && str_lt(a, b))
}

/// Lexicographic order on component lists.
pub open spec fn comps_lt(a: Seq<Seq<char>>, b: Seq<Seq<char>>) -> bool
    decreases a.len(),
{
    if a.len() == 0 {
        b.len() > 0
    } else if b.len() == 0 {
        false
    } else if comp_lt(a[0], b[0]) {
        true
    } else if comp_lt(b[0], a[0]) {
        false
    } else {
        comps_lt(a.drop_first(), b.drop_first())
    }
}

/// The components of a path, the root (written `/`) included.
pub open spec fn path_comps(p: Seq<char>) -> Seq<Seq<char>> {
    if spec_has_root(p) {
        seq![seq!['/']] + spec_segs(p)
    } else {
        spec_segs(p)
    }
}

/// `Path` order.
pub open spec fn path_lt(a: Seq<char>, b: Seq<char>) -> bool {
    comps_lt(path_comps(a), path_comps(b))
}

pub proof fn lemma_str_lt_asym(a: Seq<char>, b: Seq<char>)
    ensures
        str_lt(a, b) ==> !str_lt(b, a),
    decreases a.len(),
{
    if a.len() > 0 && b.len() > 0 && (a[0] as u32) == (b[0] as u32) {
        lemma_str_lt_asym(a.drop_first(), b.drop_first());
    }
}

/// `str_lt` is total on distinct sequences.
pub proof fn lemma_str_lt_total(a: Seq<char>, b: Seq<char>)
    ensures
        a != b ==> str_lt(a, b) || str_lt(b, a),
    decreases a.len(),
{
    if a.len() > 0 && b.len() > 0 && (a[0] as u32) == (b[0] as u32) {
        lemma_str_lt_total(a.drop_first(), b.drop_first());
        if a.drop_first() == b.drop_first() {
            vstd::utf8::char_u32_cast(a[0], a[0] as u32);
            vstd::utf8::char_u32_cast(b[0], b[0] as u32);
            assert(a[0] == b[0]);
            assert(a =~= seq![a[0]] + a.drop_first());
            assert(b =~= seq![b[0]] + b.drop_first());
        }
    } else if a.len() == 0 && b.len() == 0 {
        assert(a =~= b);
    }
}

/// `str_lt` is transitive.
pub proof fn lemma_str_lt_trans(a: Seq<char>, b: Seq<char>, c: Seq<char>)
    requires
        str_lt(a, b),
        str_lt(b, c),
    ensures
        str_lt(a, c),
    decreases a.len(),
{
    if a.len() > 0 && b.len() > 0 && c.len() > 0 && (a[0] as u32) == (b[0] as u32) && (b[0] as u32) == (c[0] as u32) {
        lemma_str_lt_trans(a.drop_first(), b.drop_first(), c.drop_first());
    }
}

pub proof fn lemma_comps_lt_asym(a: Seq<Seq<char>>, b: Seq<Seq<char>>)
    ensures
        comps_lt(a, b) ==> !comps_lt(b, a),
    decreases a.len(),
{
    if a.len() > 0 && b.len() > 0 {
        lemma_str_lt_asym(a[0], b[0]);
        lemma_str_lt_asym(b[0], a[0]);
        lemma_comps_lt_asym(a.drop_first(), b.drop_first());
    }
}

pub proof fn lemma_path_lt_asym(a: Seq<char>, b: Seq<char>)
    ensures
        path_lt(a, b) ==> !path_lt(b, a),
{
    lemma_comps_lt_asym(path_comps(a), path_comps(b));
}

/// Executable [`str_lt`].
pub fn str_less(a: &str, b: &str) -> (r: bool)
    ensures
        r == str_lt(a@, b@),
{
    let n = a.unicode_len();
    let m = b.unicode_len();
    let mut i: usize = 0;
    proof {
        assert(a@.subrange(0, n as int) =~= a@);
        assert(b@.subrange(0, m as int) =~= b@);
    }
    while i < n && i < m
        invariant
            n == a@.len(),
            m == b@.len(),
            i <= n,
            i <= m,
            str_lt(a@, b@) == str_lt(a@.subrange(i as int, n as int), b@.subrange(i as int, m as int)),
        decreases n - i,
    {
        let x = a.get_char(i);
        let y = b.get_char(i);
        proof {
            let sa = a@.subrange(i as int, n as int);
            let sb = b@.subrange(i as int, m as int);
            assert(sa[0] == x);
            assert(sb[0] == y);
            assert(sa.drop_first() =~= a@.subrange(i + 1, n as int));
            assert(sb.drop_first() =~= b@.subrange(i + 1, m as int));
        }
        if (x as u32) < (y as u32) {
            return true;
        }
        if (x as u32) > (y as u32) {
            return false;
        }
        i = i + 1;
    }
    n - i < m - i
}

fn comp_rank_exec(c: &String) -> (r: u8)
    ensures
        r as int == comp_rank(c@),
{
    let s = c.as_str();
    let len = s.unicode_len();
    if len == 1 && s.get_char(0) == '/' {
        proof { assert(c@ =~= seq!['/']); }
        1
    } else if len == 1 && s.get_char(0) == '.' {
        proof { assert(c@ =~= seq!['.']); }
        2
    } else if len == 2 && s.get_char(0) == '.' && s.get_char(1) == '.' {
        proof { assert(c@ =~= seq!['.', '.']); }
        3
    } else {
        proof {
            if c@ == seq!['/'] || c@ == seq!['.'] {
                assert(c@.len() == 1);
            }
            if c@ == seq!['.', '.'] {
                assert(c@.len() == 2);
            }
        }
        4
    }
}

fn comp_less(a: &String, b: &String) -> (r: bool)
    ensures
        r == comp_lt(a@, b@),
{
    let ra = comp_rank_exec(a);
    let rb = comp_rank_exec(b);
    ra < rb || (ra == rb && ra == 4 && str_less(a.as_str(), b.as_str()))
}

fn path_comps_exec(p: &str) -> (r: Vec<String>)
    ensures
        views(r@) == path_comps(p@),
{
    let segs = segments(p);
    if has_root(p) {
        let mut r: Vec<String> = Vec::new();
        let mut root = String::new();
        crate::text::push_char(&mut root, '/');
        r.push(root);
        let mut i: usize = 0;
        while i < segs.len()
            invariant
                i <= segs.len(),
                r@.len() == i + 1,
                views(r@) == seq![seq!['/']] + views(segs@).subrange(0, i as int),
            decreases segs.len() - i,
        {
            let ghost before = views(r@);
            r.push(segs[i].clone());
            proof {
                assert(views(r@) =~= before.push(segs@[i as int]@));
                assert(views(r@) =~= seq![seq!['/']] + views(segs@).subrange(0, i + 1));
            }
            i = i + 1;
        }
        proof {
            assert(views(segs@).subrange(0, segs.len() as int) =~= views(segs@));
        }
        r
    } else {
        segs
    }
}

/// Executable [`path_lt`].
pub fn path_less(a: &str, b: &str) -> (r: bool)
    ensures
        r == path_lt(a@, b@),
{
    let ca = path_comps_exec(a);
    let cb = path_comps_exec(b);
    let n = ca.len();
    let m = cb.len();
    let ghost va = views(ca@);
    let ghost vb = views(cb@);
    let mut i: usize = 0;
    proof {
        assert(va.subrange(0, n as int) =~= va);
        assert(vb.subrange(0, m as int) =~= vb);
    }
    while i < n && i < m
        invariant
            n == ca.len(),
            m == cb.len(),
            va == views(ca@),
            vb == views(cb@),
            va == path_comps(a@),
            vb == path_comps(b@),
            i <= n,
            i <= m,
            comps_lt(va, vb) == comps_lt(va.subrange(i as int, n as int), vb.subrange(i as int, m as int)),
        decreases n - i,
    {
        let ghost sa = va.subrange(i as int, n as int);
        let ghost sb = vb.subrange(i as int, m as int);
        proof {
            assert(sa[0] == ca@[i as int]@);
            assert(sb[0] == cb@[i as int]@);
            assert(sa.drop_first() =~= va.subrange(i + 1, n as int));
            assert(sb.drop_first() =~= vb.subrange(i + 1, m as int));
        }
        if comp_less(&ca[i], &cb[i]) {
            proof {
                assert(comp_lt(sa[0], sb[0]));
                assert(comps_lt(sa, sb));
            }
            return true;
        }
        if comp_less(&cb[i], &ca[i]) {
            proof {
                assert(comp_lt(sb[0], sa[0]));
                assert(!comps_lt(sa, sb));
            }
            return false;
        }
        i = i + 1;
    }
    n - i < m - i
}

/// Whether `v` is sorted by [`path_lt`] (no element is below its predecessor).
pub open spec fn path_sorted(v: Seq<Seq<char>>) -> bool {
    forall|i: int| 0 <= i < v.len() - 1 ==> !path_lt(#[trigger] v[i + 1], v[i])
}

/// Inserts `x` into a [`path_sorted`] vector, keeping it sorted.
pub fn insert_path_sorted(v: &mut Vec<String>, x: String)
    requires
        path_sorted(views(old(v)@)),
    ensures
        path_sorted(views(final(v)@)),
        views(final(v)@).to_multiset() == views(old(v)@).to_multiset().insert(x@),
        final(v)@.len() == old(v)@.len() + 1,
{
    let mut p = v.len();
    let mut done = false;
    while !done && p > 0
        invariant
            p <= v.len(),
            v@ == old(v)@,
            forall|k: int| p <= k < v.len() ==> path_lt(x@, #[trigger] views(v@)[k]),
            done ==> p > 0 && !path_lt(x@, views(v@)[p - 1]),
        decreases p + (if done { 0int } else { 1int }),
    {
        if path_less(x.as_str(), v[p - 1].as_str()) {
            p = p - 1;
        } else {
            done = true;
        }
    }
    let ghost old_v = views(v@);
    let ghost xv = x@;
    v.insert(p, x);
    proof {
        let nv = views(v@);
        assert(nv =~= old_v.insert(p as int, xv));
        old_v.insert_ensures(p as int, xv);
        assert forall|i: int| 0 <= i < nv.len() - 1 implies !path_lt(#[trigger] nv[i + 1], nv[i]) by {
            if i + 1 < p {
                assert(nv[i + 1] == old_v[i + 1] && nv[i] == old_v[i]);
            } else if i + 1 == p {
                assert(nv[i + 1] == xv && nv[i] == old_v[i]);
            } else if i == p {
                assert(nv[i] == xv && nv[i + 1] == old_v[i]);
                lemma_path_lt_asym(xv, old_v[i]);
            } else {
                assert(nv[i + 1] == old_v[i] && nv[i] == old_v[i - 1]);
            }
        }
        vstd::seq_lib::to_multiset_insert(old_v, p as int, xv);
    }
}

} // verus!
