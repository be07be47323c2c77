//! Source scoping: from the workspace metadata (the `cargo metadata` shape),
//! pick exactly the crate directories the target package's build needs — its
//! workspace-member normal path-dependency closure — and flag every normal
//! path-dependency that escapes the workspace.

use vstd::prelude::*;
use crate::path::{canon, canonical, parent, spec_parent, str_eq, views};
use crate::text::{push_decimal, push_str};
use crate::order::{insert_path_sorted, path_sorted, path_lt, str_lt, path_less, str_less, lemma_path_lt_asym, lemma_str_lt_asym};

verus! {

/// One build target of a package (`kind` + `name`).
#[derive(Debug, Clone, PartialEq, Eq)]
pub struct Target {
    /// Target kinds (`["lib"]`, `["bin"]`, …).
    pub kind: Vec<String>,
    /// Target name.
    pub name: String,
}

/// One declared dependency of a package.
#[derive(Debug, Clone, PartialEq, Eq)]
pub struct Dependency {
    /// The dependency package name.
    pub name: String,
    /// `None` for a normal dependency, `Some("dev")` / `Some("build")` otherwise.
    pub kind: Option<String>,
    /// Absolute path of a path dependency; `None` for a registry/git dependency.
    pub path: Option<String>,
}

/// One package of the workspace metadata.
#[derive(Debug, Clone, PartialEq, Eq)]
pub struct Package {
    /// Opaque package id (matches `workspace_members` entries).
    pub id: String,
    /// Cargo package name.
    pub name: String,
    /// Absolute path of the package's `Cargo.toml`.
    pub manifest_path: String,
    /// Declared dependencies.
    pub dependencies: Vec<Dependency>,
    /// Build targets.
    pub targets: Vec<Target>,
}

/// The workspace metadata the scoping reads.
#[derive(Debug, Clone, PartialEq, Eq)]
pub struct Metadata {
    /// Package ids of the workspace members.
    pub workspace_members: Vec<String>,
    /// Absolute workspace root.
    pub workspace_root: String,
    /// All packages (with `--no-deps`, the workspace members).
    pub packages: Vec<Package>,
}

/// A normal path-dependency whose directory is not a workspace member.
#[derive(Debug, Clone, PartialEq, Eq)]
pub struct OutOfWorkspaceDep {
    /// The dependency package name.
    pub name: String,
    /// The directory the dependency points at.
    pub path: String,
}

/// The closure walk's result: the closure crate directories (sorted by path
/// order) and the escaping normal path-dependencies (sorted by name, then path).
#[derive(Debug, Clone, PartialEq, Eq)]
pub struct ClosureResult {
    pub dirs: Vec<String>,
    pub out_of_workspace: Vec<OutOfWorkspaceDep>,
}

/// Package `i` is a workspace member.
pub open spec fn is_member(m: Metadata, i: int) -> bool {
    views(m.workspace_members@).contains(m.packages@[i].id@)
}

/// The crate directory of package `i`: its manifest's parent (empty when there
/// is none), canonically rendered.
pub open spec fn dir_key(m: Metadata, i: int) -> Seq<char> {
    canon(
        match spec_parent(m.packages@[i].manifest_path@) {
            Some(d) => d,
            None => Seq::empty(),
        },
    )
}

/// `q` is the crate directory of some workspace member.
pub open spec fn is_member_dir(m: Metadata, q: Seq<char>) -> bool {
    exists|i: int| 0 <= i < m.packages@.len() && is_member(m, i) && #[trigger] dir_key(m, i) == q
}

/// The last member below index `k` whose directory is `q` (`-1` if none).
pub open spec fn owner_below(m: Metadata, q: Seq<char>, k: int) -> int
    decreases k,
{
    if k <= 0 {
        -1
    } else if is_member(m, k - 1) && dir_key(m, k - 1) == q {
        k - 1
    } else {
        owner_below(m, q, k - 1)
    }
}

/// The member package a directory belongs to (the last one, as a map built from
/// the member list keeps the last entry per key); `-1` for a non-member dir.
pub open spec fn owner(m: Metadata, q: Seq<char>) -> int {
    owner_below(m, q, m.packages@.len() as int)
}

/// The first member at or after `k` named `name` (`-1` if none).
pub open spec fn named_from(m: Metadata, name: Seq<char>, k: int) -> int
    decreases m.packages@.len() - k,
{
    if k < 0 || k >= m.packages@.len() {
        -1
    } else if is_member(m, k) && m.packages@[k].name@ == name {
        k
    } else {
        named_from(m, name, k + 1)
    }
}

/// The scoping target: the first member package named `name` (`-1` if none).
pub open spec fn target_index(m: Metadata, name: Seq<char>) -> int {
    named_from(m, name, 0)
}

/// A normal path dependency (the only kind the closure follows).
pub open spec fn normal_path_dep(d: Dependency) -> bool {
    d.kind is None && d.path is Some
}

/// The canonical directory a path dependency points at.
pub open spec fn dep_dir(d: Dependency) -> Seq<char> {
    canon(d.path->0@)
}

/// Dependency `e` of package `i` is a normal path dependency on the member
/// directory `q`.
pub open spec fn dep_edge(m: Metadata, i: int, e: int, q: Seq<char>) -> bool {
    let deps = m.packages@[i].dependencies@;
    &&& 0 <= e < deps.len()
    &&& normal_path_dep(deps[e])
    &&& dep_dir(deps[e]) == q
    &&& is_member_dir(m, q)
}

/// Dependency `e` of package `i` is a normal path dependency named `name` on
/// the directory `path`, which is no member's.
pub open spec fn dep_escape(m: Metadata, i: int, e: int, name: Seq<char>, path: Seq<char>) -> bool {
    let deps = m.packages@[i].dependencies@;
    &&& 0 <= e < deps.len()
    &&& normal_path_dep(deps[e])
    &&& dep_dir(deps[e]) == path
    &&& !is_member_dir(m, path)
    &&& deps[e].name@ == name
}

/// The closure steps from directory `d` to directory `q`: `d`'s package has a
/// normal path dependency on the member directory `q`.
pub open spec fn edge(m: Metadata, d: Seq<char>, q: Seq<char>) -> bool {
    &&& 0 <= owner(m, d)
    &&& exists|e: int| #[trigger] dep_edge(m, owner(m, d), e, q)
}

/// Directory `d`'s package has a normal path dependency `name` on the
/// non-member directory `path`.
pub open spec fn escapes_from(m: Metadata, d: Seq<char>, name: Seq<char>, path: Seq<char>) -> bool {
    &&& 0 <= owner(m, d)
    &&& exists|e: int| #[trigger] dep_escape(m, owner(m, d), e, name, path)
}

/// A directory set closed under [`edge`].
pub open spec fn closed_under(m: Metadata, t: Set<Seq<char>>) -> bool {
    forall|d: Seq<char>, q: Seq<char>| #[trigger] t.contains(d) && #[trigger] edge(m, d, q) ==> t.contains(q)
}


/// The set of the elements of `s`.
pub open spec fn seq_set(s: Seq<Seq<char>>) -> Set<Seq<char>> {
    Set::new(|x: Seq<char>| s.contains(x))
}

proof fn lemma_owner_below(m: Metadata, q: Seq<char>, k: int)
    requires
        0 <= k <= m.packages@.len(),
    ensures
        owner_below(m, q, k) >= 0 ==> owner_below(m, q, k) < k && is_member(m, owner_below(m, q, k))
            && dir_key(m, owner_below(m, q, k)) == q,
        owner_below(m, q, k) < 0 ==> owner_below(m, q, k) == -1 && forall|i: int|
            0 <= i < k && is_member(m, i) ==> dir_key(m, i) != q,
    decreases k,
{
    if k > 0 {
        lemma_owner_below(m, q, k - 1);
    }
}

/// What the owner of a directory is: a member with that directory, present
/// exactly when the directory is a member directory.
proof fn lemma_owner(m: Metadata, q: Seq<char>)
    ensures
        owner(m, q) >= 0 <==> is_member_dir(m, q),
        owner(m, q) >= 0 ==> owner(m, q) < m.packages@.len() && is_member(m, owner(m, q)) && dir_key(
            m,
            owner(m, q),
        ) == q,
{
    lemma_owner_below(m, q, m.packages@.len() as int);
    if is_member_dir(m, q) {
        let i = choose|i: int| 0 <= i < m.packages@.len() && is_member(m, i) && #[trigger] dir_key(m, i) == q;
        assert(dir_key(m, i) == q);
    }
    if owner(m, q) >= 0 {
        assert(dir_key(m, owner(m, q)) == q);
    }
}

proof fn lemma_named_from(m: Metadata, name: Seq<char>, k: int)
    ensures
        named_from(m, name, k) >= 0 ==> k <= named_from(m, name, k) < m.packages@.len() && is_member(
            m,
            named_from(m, name, k),
        ) && m.packages@[named_from(m, name, k)].name@ == name,
        named_from(m, name, k) < 0 ==> named_from(m, name, k) == -1,
    decreases m.packages@.len() - k,
{
    if 0 <= k < m.packages@.len() {
        lemma_named_from(m, name, k + 1);
    }
}

/// The precomputed member flags and directory keys.
spec fn tables(m: Metadata, member: Seq<bool>, keys: Seq<String>) -> bool {
    &&& member.len() == m.packages@.len()
    &&& keys.len() == m.packages@.len()
    &&& forall|j: int| 0 <= j < member.len() ==> #[trigger] member[j] == is_member(m, j)
    &&& forall|j: int| 0 <= j < keys.len() ==> #[trigger] keys[j]@ == dir_key(m, j)
}

fn member_exec(m: &Metadata, i: usize) -> (r: bool)
    requires
        i < m.packages@.len(),
    ensures
        r == is_member(*m, i as int),
{
    let id = m.packages[i].id.as_str();
    let mut k: usize = 0;
    while k < m.workspace_members.len()
        invariant
            i < m.packages@.len(),
            id@ == m.packages@[i as int].id@,
            k <= m.workspace_members@.len(),
            forall|j: int| 0 <= j < k ==> m.workspace_members@[j]@ != id@,
        decreases m.workspace_members@.len() - k,
    {
        if str_eq(m.workspace_members[k].as_str(), id) {
            proof {
                assert(views(m.workspace_members@)[k as int] == id@);
            }
            return true;
        }
        k = k + 1;
    }
    proof {
        if views(m.workspace_members@).contains(id@) {
            let j = choose|j: int| 0 <= j < views(m.workspace_members@).len() && views(m.workspace_members@)[j] == id@;
            assert(m.workspace_members@[j]@ == id@);
        }
    }
    false
}

fn dir_key_exec(m: &Metadata, i: usize) -> (r: String)
    requires
        i < m.packages@.len(),
    ensures
        r@ == dir_key(*m, i as int),
{
    let d = match parent(m.packages[i].manifest_path.as_str()) {
        Some(x) => x,
        None => String::new(),
    };
    canonical(d.as_str())
}

fn build_tables(m: &Metadata) -> (r: (Vec<bool>, Vec<String>))
    ensures
        tables(*m, r.0@, r.1@),
{
    let n = m.packages.len();
    let mut member: Vec<bool> = Vec::new();
    let mut keys: Vec<String> = Vec::new();
    let mut i: usize = 0;
    while i < n
        invariant
            n == m.packages@.len(),
            i <= n,
            member@.len() == i,
            keys@.len() == i,
            forall|j: int| 0 <= j < i ==> #[trigger] member@[j] == is_member(*m, j),
            forall|j: int| 0 <= j < i ==> #[trigger] keys@[j]@ == dir_key(*m, j),
        decreases n - i,
    {
        member.push(member_exec(m, i));
        keys.push(dir_key_exec(m, i));
        i = i + 1;
    }
    (member, keys)
}

/// Executable [`owner`], through the tables.
fn owner_exec(m: &Metadata, member: &Vec<bool>, keys: &Vec<String>, q: &str) -> (r: Option<usize>)
    requires
        tables(*m, member@, keys@),
    ensures
        r matches Some(j) ==> owner(*m, q@) == j as int,
        r is None ==> owner(*m, q@) == -1,
{
    let mut k = keys.len();
    while k > 0
        invariant
            tables(*m, member@, keys@),
            k <= keys@.len(),
            owner(*m, q@) == owner_below(*m, q@, k as int),
        decreases k,
    {
        if member[k - 1] && str_eq(keys[k - 1].as_str(), q) {
            return Some(k - 1);
        }
        k = k - 1;
    }
    None
}

/// Executable [`target_index`].
fn find_target(m: &Metadata, member: &Vec<bool>, package: &str) -> (r: Option<usize>)
    requires
        member@.len() == m.packages@.len(),
        forall|j: int| 0 <= j < member@.len() ==> #[trigger] member@[j] == is_member(*m, j),
    ensures
        r matches Some(t) ==> target_index(*m, package@) == t as int,
        r is None ==> target_index(*m, package@) == -1,
{
    let n = m.packages.len();
    let mut k: usize = 0;
    while k < n
        invariant
            n == m.packages@.len(),
            member@.len() == n,
            forall|j: int| 0 <= j < member@.len() ==> #[trigger] member@[j] == is_member(*m, j),
            k <= n,
            target_index(*m, package@) == named_from(*m, package@, k as int),
        decreases n - k,
    {
        if member[k] && str_eq(m.packages[k].name.as_str(), package) {
            return Some(k);
        }
        k = k + 1;
    }
    None
}

spec fn count_true(s: Seq<bool>) -> nat
    decreases s.len(),
{
    if s.len() == 0 {
        0
    } else {
        count_true(s.drop_last()) + if s.last() { 1nat } else { 0nat }
    }
}

proof fn lemma_count_true_bound(s: Seq<bool>)
    ensures
        count_true(s) <= s.len(),
    decreases s.len(),
{
    if s.len() > 0 {
        lemma_count_true_bound(s.drop_last());
    }
}

proof fn lemma_count_true_set(s: Seq<bool>, j: int)
    requires
        0 <= j < s.len(),
        !s[j],
    ensures
        count_true(s.update(j, true)) == count_true(s) + 1,
    decreases s.len(),
{
    let t = s.update(j, true);
    if j == s.len() - 1 {
        assert(t.drop_last() =~= s.drop_last());
    } else {
        assert(t.drop_last() =~= s.drop_last().update(j, true));
        lemma_count_true_set(s.drop_last(), j);
    }
}

proof fn lemma_count_true_none(n: nat)
    ensures
        count_true(Seq::new(n, |k: int| false)) == 0,
    decreases n,
{
    if n > 0 {
        assert(Seq::new(n, |k: int| false).drop_last() =~= Seq::new((n - 1) as nat, |k: int| false));
        lemma_count_true_none((n - 1) as nat);
    }
}

/// The `(name, path)` pairs of a list of escaping dependencies.
pub open spec fn esc_pairs(v: Seq<OutOfWorkspaceDep>) -> Seq<(Seq<char>, Seq<char>)> {
    v.map_values(|d: OutOfWorkspaceDep| (d.name@, d.path@))
}

/// The order escaping dependencies are reported in: by name, then by path.
pub open spec fn pair_lt(a: (Seq<char>, Seq<char>), b: (Seq<char>, Seq<char>)) -> bool {
    str_lt(a.0, b.0) || (a.0 == b.0 && path_lt(a.1, b.1))
}

/// Whether `v` is sorted by [`pair_lt`].
pub open spec fn pairs_sorted(v: Seq<(Seq<char>, Seq<char>)>) -> bool {
    forall|i: int| 0 <= i < v.len() - 1 ==> !pair_lt(#[trigger] v[i + 1], v[i])
}

proof fn lemma_pair_lt_asym(a: (Seq<char>, Seq<char>), b: (Seq<char>, Seq<char>))
    ensures
        pair_lt(a, b) ==> !pair_lt(b, a),
{
    lemma_str_lt_asym(a.0, b.0);
    lemma_str_lt_asym(b.0, a.0);
    lemma_path_lt_asym(a.1, b.1);
}

fn pair_less(a: &OutOfWorkspaceDep, b: &OutOfWorkspaceDep) -> (r: bool)
    ensures
        r == pair_lt((a.name@, a.path@), (b.name@, b.path@)),
{
    str_less(a.name.as_str(), b.name.as_str()) || (str_eq(a.name.as_str(), b.name.as_str())
        && path_less(a.path.as_str(), b.path.as_str()))
}

/// Inserts `x` into a list sorted by [`pair_lt`], keeping it sorted.
fn insert_dep_sorted(v: &mut Vec<OutOfWorkspaceDep>, x: OutOfWorkspaceDep)
    requires
        pairs_sorted(esc_pairs(old(v)@)),
    ensures
        pairs_sorted(esc_pairs(final(v)@)),
        esc_pairs(final(v)@).to_multiset() == esc_pairs(old(v)@).to_multiset().insert((x.name@, x.path@)),
{
    let mut p = v.len();
    let mut done = false;
    let ghost xv = (x.name@, x.path@);
    while !done && p > 0
        invariant
            p <= v.len(),
            v@ == old(v)@,
            xv == (x.name@, x.path@),
            forall|k: int| p <= k < v.len() ==> pair_lt(xv, #[trigger] esc_pairs(v@)[k]),
            done ==> p > 0 && !pair_lt(xv, esc_pairs(v@)[p - 1]),
        decreases p + (if done { 0int } else { 1int }),
    {
        if pair_less(&x, &v[p - 1]) {
            p = p - 1;
        } else {
            done = true;
        }
    }
    let ghost old_v = esc_pairs(v@);
    v.insert(p, x);
    proof {
        let nv = esc_pairs(v@);
        assert(nv =~= old_v.insert(p as int, xv));
        old_v.insert_ensures(p as int, xv);
        assert forall|i: int| 0 <= i < nv.len() - 1 implies !pair_lt(#[trigger] nv[i + 1], nv[i]) by {
            if i + 1 < p {
                assert(nv[i + 1] == old_v[i + 1] && nv[i] == old_v[i]);
            } else if i + 1 == p {
                assert(nv[i + 1] == xv && nv[i] == old_v[i]);
            } else if i == p {
                assert(nv[i] == xv && nv[i + 1] == old_v[i]);
                lemma_pair_lt_asym(xv, old_v[i]);
            } else {
                assert(nv[i + 1] == old_v[i] && nv[i] == old_v[i - 1]);
            }
        }
        vstd::seq_lib::to_multiset_insert(old_v, p as int, xv);
    }
}

fn esc_has(v: &Vec<OutOfWorkspaceDep>, name: &str, path: &str) -> (r: bool)
    ensures
        r == esc_pairs(v@).contains((name@, path@)),
{
    let mut k: usize = 0;
    while k < v.len()
        invariant
            k <= v@.len(),
            forall|j: int| 0 <= j < k ==> #[trigger] esc_pairs(v@)[j] != (name@, path@),
        decreases v@.len() - k,
    {
        if str_eq(v[k].name.as_str(), name) && str_eq(v[k].path.as_str(), path) {
            proof {
                assert(esc_pairs(v@)[k as int] == (name@, path@));
            }
            return true;
        }
        k = k + 1;
    }
    false
}

/// The walk's bookkeeping: `cl` lists distinct owner indices, starting at
/// `start`, each reached from an earlier one by an [`edge`] (`par` names it);
/// `seen` marks exactly the listed ones.
spec fn walk_ok(m: Metadata, seen: Seq<bool>, cl: Seq<usize>, par: Seq<int>, start: usize) -> bool {
    &&& seen.len() == m.packages@.len()
    &&& 1 <= cl.len() <= m.packages@.len()
    &&& count_true(seen) == cl.len()
    &&& cl[0] == start
    &&& par.len() == cl.len()
    &&& forall|k: int|
        0 <= k < cl.len() ==> (#[trigger] cl[k] as int) < m.packages@.len() && is_member(m, cl[k] as int)
            && owner(m, dir_key(m, cl[k] as int)) == cl[k] as int && seen[cl[k] as int]
    &&& forall|j: int| 0 <= j < seen.len() && #[trigger] seen[j] ==> exists|k: int| 0 <= k < cl.len() && #[trigger] cl[k] == j
    &&& forall|k1: int, k2: int| 0 <= k1 < k2 < cl.len() ==> #[trigger] cl[k1] != #[trigger] cl[k2]
    &&& forall|k: int|
        1 <= k < cl.len() ==> 0 <= #[trigger] par[k] < k && edge(
            m,
            dir_key(m, cl[par[k]] as int),
            dir_key(m, cl[k] as int),
        )
}

/// Every edge out of the first `h` listed directories lands on a seen member.
spec fn done_upto(m: Metadata, seen: Seq<bool>, cl: Seq<usize>, h: int) -> bool {
    forall|k: int, q: Seq<char>|
        0 <= k < h && #[trigger] edge(m, dir_key(m, cl[k] as int), q) ==> 0 <= owner(m, q) && seen[owner(m, q)]
}

/// `v` holds exactly the escapes of the first `h` listed packages and of the
/// first `e` dependencies of package `h`.
spec fn esc_upto(m: Metadata, cl: Seq<usize>, h: int, e: int, v: Seq<OutOfWorkspaceDep>) -> bool {
    forall|nm: Seq<char>, p: Seq<char>|
        #[trigger] esc_pairs(v).contains((nm, p)) <==> ((exists|k: int, x: int|
            0 <= k < h && #[trigger] dep_escape(m, cl[k] as int, x, nm, p)) || (exists|x: int|
            0 <= x < e && #[trigger] dep_escape(m, cl[h] as int, x, nm, p)))
}

proof fn lemma_walk_least(m: Metadata, cl: Seq<usize>, par: Seq<int>, t: Set<Seq<char>>, k: int)
    requires
        0 <= k < cl.len(),
        par.len() == cl.len(),
        forall|k: int|
            1 <= k < cl.len() ==> 0 <= #[trigger] par[k] < k && edge(
                m,
                dir_key(m, cl[par[k]] as int),
                dir_key(m, cl[k] as int),
            ),
        closed_under(m, t),
        t.contains(dir_key(m, cl[0] as int)),
    ensures
        t.contains(dir_key(m, cl[k] as int)),
    decreases k,
{
    if k > 0 {
        let j = par[k];
        lemma_walk_least(m, cl, par, t, j);
        assert(edge(m, dir_key(m, cl[j] as int), dir_key(m, cl[k] as int)));
    }
}

proof fn lemma_esc_same(
    m: Metadata,
    cl_old: Seq<usize>,
    cl_new: Seq<usize>,
    h: int,
    e: int,
    v: Seq<OutOfWorkspaceDep>,
)
    requires
        esc_upto(m, cl_old, h, e, v),
        0 <= h < cl_old.len() <= cl_new.len(),
        forall|k: int| 0 <= k < cl_old.len() ==> cl_new[k] == cl_old[k],
        forall|nm: Seq<char>, p: Seq<char>| !dep_escape(m, cl_old[h] as int, e, nm, p),
    ensures
        esc_upto(m, cl_new, h, e + 1, v),
{
    assert forall|nm: Seq<char>, p: Seq<char>| #[trigger] esc_pairs(v).contains((nm, p)) <==> ((exists|k: int, x: int|
        0 <= k < h && #[trigger] dep_escape(m, cl_new[k] as int, x, nm, p)) || (exists|x: int|
        0 <= x < e + 1 && #[trigger] dep_escape(m, cl_new[h] as int, x, nm, p))) by {
        if esc_pairs(v).contains((nm, p)) {
            if exists|k: int, x: int| 0 <= k < h && #[trigger] dep_escape(m, cl_old[k] as int, x, nm, p) {
                let (k, x) = choose|k: int, x: int| 0 <= k < h && #[trigger] dep_escape(m, cl_old[k] as int, x, nm, p);
                assert(dep_escape(m, cl_new[k] as int, x, nm, p));
            } else {
                let x = choose|x: int| 0 <= x < e && #[trigger] dep_escape(m, cl_old[h] as int, x, nm, p);
                assert(dep_escape(m, cl_new[h] as int, x, nm, p));
            }
        }
        if exists|k: int, x: int| 0 <= k < h && #[trigger] dep_escape(m, cl_new[k] as int, x, nm, p) {
            let (k, x) = choose|k: int, x: int| 0 <= k < h && #[trigger] dep_escape(m, cl_new[k] as int, x, nm, p);
            assert(dep_escape(m, cl_old[k] as int, x, nm, p));
        }
        if exists|x: int| 0 <= x < e + 1 && #[trigger] dep_escape(m, cl_new[h] as int, x, nm, p) {
            let x = choose|x: int| 0 <= x < e + 1 && #[trigger] dep_escape(m, cl_new[h] as int, x, nm, p);
            assert(dep_escape(m, cl_old[h] as int, x, nm, p));
        }
    }
}

proof fn lemma_esc_add(
    m: Metadata,
    cl: Seq<usize>,
    h: int,
    e: int,
    v_old: Seq<OutOfWorkspaceDep>,
    v_new: Seq<OutOfWorkspaceDep>,
    nm0: Seq<char>,
    p0: Seq<char>,
)
    requires
        esc_upto(m, cl, h, e, v_old),
        0 <= h < cl.len(),
        dep_escape(m, cl[h] as int, e, nm0, p0),
        esc_pairs(v_new) == esc_pairs(v_old).push((nm0, p0)) || (v_new == v_old && esc_pairs(
            v_old,
        ).contains((nm0, p0))),
    ensures
        esc_upto(m, cl, h, e + 1, v_new),
{
    assert forall|nm: Seq<char>, p: Seq<char>| #[trigger] esc_pairs(v_new).contains((nm, p)) <==> ((exists|k: int, x: int|
        0 <= k < h && #[trigger] dep_escape(m, cl[k] as int, x, nm, p)) || (exists|x: int|
        0 <= x < e + 1 && #[trigger] dep_escape(m, cl[h] as int, x, nm, p))) by {
        if (nm, p) == (nm0, p0) {
            assert(dep_escape(m, cl[h] as int, e, nm, p));
            if esc_pairs(v_new) == esc_pairs(v_old).push((nm0, p0)) {
                assert(esc_pairs(v_new)[esc_pairs(v_old).len() as int] == (nm, p));
            }
        } else {
            if esc_pairs(v_new) == esc_pairs(v_old).push((nm0, p0)) {
                if esc_pairs(v_new).contains((nm, p)) {
                    let j = choose|j: int| 0 <= j < esc_pairs(v_new).len() && esc_pairs(v_new)[j] == (nm, p);
                    assert(esc_pairs(v_old)[j] == (nm, p));
                }
                if esc_pairs(v_old).contains((nm, p)) {
                    let j = choose|j: int| 0 <= j < esc_pairs(v_old).len() && esc_pairs(v_old)[j] == (nm, p);
                    assert(esc_pairs(v_new)[j] == (nm, p));
                }
            }
            if exists|x: int| 0 <= x < e + 1 && #[trigger] dep_escape(m, cl[h] as int, x, nm, p) {
                let x = choose|x: int| 0 <= x < e + 1 && #[trigger] dep_escape(m, cl[h] as int, x, nm, p);
                assert(x != e);
            }
        }
    }
}

/// The walk from `start` over [`edge`]s: the reached owner indices (in order of
/// discovery, with a ghost parent for each), and the escapes met on the way.
#[verifier::rlimit(40)]
fn walk(m: &Metadata, member: &Vec<bool>, keys: &Vec<String>, start: usize) -> (r: (
    Vec<usize>,
    Vec<OutOfWorkspaceDep>,
    Ghost<Seq<int>>,
))
    requires
        tables(*m, member@, keys@),
        (start as int) < m.packages@.len(),
        is_member(*m, start as int),
        owner(*m, dir_key(*m, start as int)) == start as int,
    ensures
        ({
            let (cl, esc, par) = r;
            let cl = cl@;
            let par = par@;
            &&& 1 <= cl.len() <= m.packages@.len()
            &&& cl[0] == start
            &&& par.len() == cl.len()
            &&& forall|k: int|
                0 <= k < cl.len() ==> (#[trigger] cl[k] as int) < m.packages@.len() && is_member(
                    *m,
                    cl[k] as int,
                ) && owner(*m, dir_key(*m, cl[k] as int)) == cl[k] as int
            &&& forall|k1: int, k2: int| 0 <= k1 < k2 < cl.len() ==> #[trigger] cl[k1] != #[trigger] cl[k2]
            &&& forall|k: int|
                1 <= k < cl.len() ==> 0 <= #[trigger] par[k] < k && edge(
                    *m,
                    dir_key(*m, cl[par[k]] as int),
                    dir_key(*m, cl[k] as int),
                )
            &&& forall|k: int, q: Seq<char>|
                0 <= k < cl.len() && #[trigger] edge(*m, dir_key(*m, cl[k] as int), q) ==> exists|k2: int|
                    0 <= k2 < cl.len() && #[trigger] cl[k2] as int == owner(*m, q) && 0 <= owner(*m, q)
            &&& esc_upto(*m, cl, cl.len() as int, 0, esc@)
            &&& esc_pairs(esc@).no_duplicates()
        }),
{
    let n = m.packages.len();
    let mut seen: Vec<bool> = Vec::new();
    let mut z: usize = 0;
    while z < n
        invariant
            n == m.packages@.len(),
            z <= n,
            seen@ =~= Seq::new(z as nat, |k: int| false),
        decreases n - z,
    {
        seen.push(false);
        z = z + 1;
    }
    proof {
        lemma_count_true_none(n as nat);
        lemma_count_true_set(seen@, start as int);
    }
    seen.set(start, true);
    let mut cl: Vec<usize> = Vec::new();
    cl.push(start);
    let ghost mut par: Seq<int> = seq![0int];
    let mut esc: Vec<OutOfWorkspaceDep> = Vec::new();
    let mut h: usize = 0;
    proof {
        assert forall|j: int| 0 <= j < seen@.len() && #[trigger] seen@[j] implies exists|k: int|
            0 <= k < cl@.len() && #[trigger] cl@[k] == j by {
            assert(cl@[0] == j);
        }
        assert(esc_pairs(esc@) =~= Seq::empty());
    }
    while h < cl.len()
        invariant
            tables(*m, member@, keys@),
            n == m.packages@.len(),
            walk_ok(*m, seen@, cl@, par, start),
            h <= cl@.len(),
            done_upto(*m, seen@, cl@, h as int),
            esc_upto(*m, cl@, h as int, 0, esc@),
            esc_pairs(esc@).no_duplicates(),
        decreases n - h,
    {
        let i = cl[h];
        let ndeps = m.packages[i].dependencies.len();
        let mut e: usize = 0;
        proof {
            assert forall|nm: Seq<char>, p: Seq<char>| #[trigger] esc_pairs(esc@).contains((nm, p)) <==> ((
            exists|k: int, x: int| 0 <= k < h && #[trigger] dep_escape(*m, cl@[k] as int, x, nm, p))
                || (exists|x: int| 0 <= x < 0 && #[trigger] dep_escape(*m, cl@[h as int] as int, x, nm, p))) by {}
        }
        while e < ndeps
            invariant
                tables(*m, member@, keys@),
                n == m.packages@.len(),
                walk_ok(*m, seen@, cl@, par, start),
                h < cl@.len(),
                i == cl@[h as int],
                ndeps == m.packages@[i as int].dependencies@.len(),
                e <= ndeps,
                done_upto(*m, seen@, cl@, h as int),
                forall|x: int, q: Seq<char>|
                    0 <= x < e && #[trigger] dep_edge(*m, i as int, x, q) ==> 0 <= owner(*m, q) && seen@[owner(
                        *m,
                        q,
                    )],
                esc_upto(*m, cl@, h as int, e as int, esc@),
                esc_pairs(esc@).no_duplicates(),
            decreases ndeps - e,
        {
            let dep = &m.packages[i].dependencies[e];
            let ghost deps = m.packages@[i as int].dependencies@;
            let ghost old_cl = cl@;
            let ghost old_esc = esc@;
            let ghost old_seen = seen@;
            if dep.kind.is_none() && dep.path.is_some() {
                let q = match &dep.path {
                    Some(pth) => canonical(pth.as_str()),
                    None => String::new(),
                };
                proof {
                    lemma_owner(*m, q@);
                    assert(dep_dir(deps[e as int]) == q@);
                }
                match owner_exec(m, member, keys, q.as_str()) {
                    Some(j) => {
                        proof {
                            assert(dep_edge(*m, i as int, e as int, q@));
                        }
                        if !seen[j] {
                            proof {
                                lemma_count_true_set(seen@, j as int);
                                lemma_count_true_bound(seen@.update(j as int, true));
                            }
                            seen.set(j, true);
                            cl.push(j);
                            proof {
                                par = par.push(h as int);
                                assert(edge(*m, dir_key(*m, cl@[h as int] as int), q@));
                                assert(cl@[cl@.len() - 1] == j);
                                assert forall|jj: int| 0 <= jj < seen@.len() && #[trigger] seen@[jj] implies exists|k: int|
                                    0 <= k < cl@.len() && #[trigger] cl@[k] == jj by {
                                    if jj == j as int {
                                        assert(cl@[cl@.len() - 1] == jj);
                                    } else {
                                        let k = choose|k: int| 0 <= k < old_cl.len() && #[trigger] old_cl[k] == jj;
                                        assert(cl@[k] == jj);
                                    }
                                }
                                assert forall|k1: int, k2: int| 0 <= k1 < k2 < cl@.len() implies #[trigger] cl@[k1] != #[trigger] cl@[k2] by {
                                    if k2 == cl@.len() - 1 {
                                        assert(old_seen[old_cl[k1] as int]);
                                    }
                                }
                            }
                        }
                        proof {
                            assert forall|qq: Seq<char>| #[trigger] dep_edge(*m, i as int, e as int, qq) implies 0 <= owner(*m, qq) && seen@[owner(*m, qq)] by {
                                assert(qq == q@);
                            }
                            lemma_esc_same(*m, old_cl, cl@, h as int, e as int, esc@);
                        }
                    },
                    None => {
                        proof {
                            assert forall|qq: Seq<char>| !dep_edge(*m, i as int, e as int, qq) by {}
                            assert(dep_escape(*m, i as int, e as int, dep.name@, q@));
                        }
                        if !esc_has(&esc, dep.name.as_str(), q.as_str()) {
                            esc.push(OutOfWorkspaceDep { name: dep.name.clone(), path: q });
                            proof {
                                assert(esc_pairs(esc@) =~= esc_pairs(old_esc).push((dep.name@, q@)));
                                assert(esc_pairs(esc@).no_duplicates());
                            }
                        }
                        proof {
                            lemma_esc_add(*m, cl@, h as int, e as int, old_esc, esc@, dep.name@, q@);
                        }
                    },
                }
            } else {
                proof {
                    assert forall|qq: Seq<char>| !dep_edge(*m, i as int, e as int, qq) by {}
                    lemma_esc_same(*m, old_cl, cl@, h as int, e as int, esc@);
                }
            }
            proof {
                assert(forall|x: int| 0 <= x < old_seen.len() && old_seen[x] ==> #[trigger] seen@[x]);
                assert forall|k: int, qq: Seq<char>| 0 <= k < h && #[trigger] edge(*m, dir_key(*m, cl@[k] as int), qq) implies 0 <= owner(*m, qq) && seen@[owner(*m, qq)] by {
                    assert(cl@[k] == old_cl[k]);
                    assert(edge(*m, dir_key(*m, old_cl[k] as int), qq));
                    lemma_owner(*m, qq);
                }
                assert forall|x: int, qq: Seq<char>| 0 <= x < e + 1 && #[trigger] dep_edge(*m, i as int, x, qq) implies 0 <= owner(*m, qq) && seen@[owner(*m, qq)] by {
                    lemma_owner(*m, qq);
                    if x < e {
                        assert(old_seen[owner(*m, qq)]);
                    }
                }
            }
            e = e + 1;
        }
        proof {
            assert forall|k: int, qq: Seq<char>| 0 <= k < h + 1 && #[trigger] edge(*m, dir_key(*m, cl@[k] as int), qq) implies 0 <= owner(*m, qq) && seen@[owner(*m, qq)] by {
                if k == h {
                    let x = choose|x: int| #[trigger] dep_edge(*m, owner(*m, dir_key(*m, cl@[k] as int)), x, qq);
                    assert(dep_edge(*m, i as int, x, qq));
                }
            }
            assert forall|nm: Seq<char>, p: Seq<char>| #[trigger] esc_pairs(esc@).contains((nm, p)) <==> ((
            exists|k: int, x: int| 0 <= k < h + 1 && #[trigger] dep_escape(*m, cl@[k] as int, x, nm, p))
                || (exists|x: int| 0 <= x < 0 && #[trigger] dep_escape(*m, cl@[h + 1] as int, x, nm, p))) by {
                if exists|k: int, x: int| 0 <= k < h + 1 && #[trigger] dep_escape(*m, cl@[k] as int, x, nm, p) {
                    let (k, x) = choose|k: int, x: int| 0 <= k < h + 1 && #[trigger] dep_escape(*m, cl@[k] as int, x, nm, p);
                    if k == h {
                        assert(dep_escape(*m, cl@[h as int] as int, x, nm, p));
                    }
                }
                if esc_pairs(esc@).contains((nm, p)) {
                    if exists|x: int| 0 <= x < ndeps && #[trigger] dep_escape(*m, cl@[h as int] as int, x, nm, p) {
                        let x = choose|x: int| 0 <= x < ndeps && #[trigger] dep_escape(*m, cl@[h as int] as int, x, nm, p);
                        assert(dep_escape(*m, cl@[h as int] as int, x, nm, p));
                    }
                }
            }
        }
        h = h + 1;
    }
    proof {
        assert forall|k: int, q: Seq<char>| 0 <= k < cl@.len() && #[trigger] edge(*m, dir_key(*m, cl@[k] as int), q) implies exists|k2: int|
            0 <= k2 < cl@.len() && #[trigger] cl@[k2] as int == owner(*m, q) && 0 <= owner(*m, q) by {
            let o = owner(*m, q);
            lemma_owner(*m, q);
            assert(seen@[o]);
            let k2 = choose|k2: int| 0 <= k2 < cl@.len() && #[trigger] cl@[k2] == o;
            assert(cl@[k2] as int == o);
        }
    }
    (cl, esc, Ghost(par))
}

/// `dirs` is the least [`edge`]-closed set of directories containing `start`:
/// exactly the directories reachable from it.
pub open spec fn is_least_closure(m: Metadata, start: Seq<char>, dirs: Seq<Seq<char>>) -> bool {
    &&& dirs.contains(start)
    &&& closed_under(m, seq_set(dirs))
    &&& forall|t: Set<Seq<char>>| #[trigger] closed_under(m, t) && t.contains(start) ==> seq_set(dirs).subset_of(t)
}

/// `pairs` lists exactly the escapes of the packages owning `dirs`.
pub open spec fn escapes_exactly(m: Metadata, dirs: Seq<Seq<char>>, pairs: Seq<(Seq<char>, Seq<char>)>) -> bool {
    forall|nm: Seq<char>, p: Seq<char>|
        #[trigger] pairs.contains((nm, p)) <==> exists|d: Seq<char>| dirs.contains(d) && #[trigger] escapes_from(m, d, nm, p)
}

/// The closure of the workspace member named `package`: `None` when no member
/// has that name; otherwise the directories reachable from its directory over
/// normal path dependencies on member directories (each once, in `Path`
/// order), and every normal path dependency of those packages that points
/// outside the members (each `(name, path)` once, by name then path).
pub fn closure_from_metadata(m: &Metadata, package: &str) -> (r: Option<ClosureResult>)
    ensures
        r is None <==> target_index(*m, package@) < 0,
        r matches Some(res) ==> {
            let dirs = views(res.dirs@);
            let esc = esc_pairs(res.out_of_workspace@);
            &&& is_least_closure(*m, dir_key(*m, target_index(*m, package@)), dirs)
            &&& dirs.no_duplicates()
            &&& path_sorted(dirs)
            &&& escapes_exactly(*m, dirs, esc)
            &&& esc.no_duplicates()
            &&& pairs_sorted(esc)
        },
{
    let (member, keys) = build_tables(m);
    let t = match find_target(m, &member, package) {
        Some(t) => t,
        None => {
            return None;
        },
    };
    proof {
        lemma_named_from(*m, package@, 0);
        lemma_owner(*m, dir_key(*m, t as int));
        assert(is_member_dir(*m, dir_key(*m, t as int)));
    }
    let start = match owner_exec(m, &member, &keys, keys[t].as_str()) {
        Some(s) => s,
        None => {
            return None;
        },
    };
    proof {
        lemma_owner(*m, dir_key(*m, start as int));
    }
    let (cl, esc, Ghost(par)) = walk(m, &member, &keys, start);
    let ghost ds: Seq<Seq<char>> = Seq::new(cl@.len(), |k: int| dir_key(*m, cl@[k] as int));
    let mut dirs: Vec<String> = Vec::new();
    let mut k: usize = 0;
    proof {
        assert(ds.subrange(0, 0) =~= Seq::<Seq<char>>::empty());
        assert(views(dirs@) =~= Seq::<Seq<char>>::empty());
    }
    while k < cl.len()
        invariant
            tables(*m, member@, keys@),
            k <= cl@.len(),
            ds == Seq::new(cl@.len(), |k: int| dir_key(*m, cl@[k] as int)),
            forall|j: int| 0 <= j < cl@.len() ==> (#[trigger] cl@[j] as int) < m.packages@.len(),
            path_sorted(views(dirs@)),
            views(dirs@).to_multiset() == ds.subrange(0, k as int).to_multiset(),
        decreases cl@.len() - k,
    {
        let x = keys[cl[k]].clone();
        insert_path_sorted(&mut dirs, x);
        proof {
            assert(ds.subrange(0, k + 1) =~= ds.subrange(0, k as int).push(ds[k as int]));
            vstd::seq_lib::to_multiset_build(ds.subrange(0, k as int), ds[k as int]);
        }
        k = k + 1;
    }
    let mut sorted: Vec<OutOfWorkspaceDep> = Vec::new();
    let mut k: usize = 0;
    proof {
        assert(esc_pairs(sorted@) =~= Seq::empty());
        assert(esc_pairs(esc@).subrange(0, 0) =~= Seq::empty());
    }
    while k < esc.len()
        invariant
            k <= esc@.len(),
            pairs_sorted(esc_pairs(sorted@)),
            esc_pairs(sorted@).to_multiset() == esc_pairs(esc@).subrange(0, k as int).to_multiset(),
        decreases esc@.len() - k,
    {
        let x = OutOfWorkspaceDep { name: esc[k].name.clone(), path: esc[k].path.clone() };
        insert_dep_sorted(&mut sorted, x);
        proof {
            let ev = esc_pairs(esc@);
            assert(ev.subrange(0, k + 1) =~= ev.subrange(0, k as int).push(ev[k as int]));
            vstd::seq_lib::to_multiset_build(ev.subrange(0, k as int), ev[k as int]);
        }
        k = k + 1;
    }
    proof {
        let dv = views(dirs@);
        let ev = esc_pairs(esc@);
        let sv = esc_pairs(sorted@);
        let start_dir = dir_key(*m, target_index(*m, package@));
        assert(ds.subrange(0, cl@.len() as int) =~= ds);
        assert(ev.subrange(0, esc@.len() as int) =~= ev);
        dv.to_multiset_ensures();
        ds.to_multiset_ensures();
        ev.to_multiset_ensures();
        sv.to_multiset_ensures();
        // no duplicates
        assert forall|i: int, j: int| 0 <= i < ds.len() && 0 <= j < ds.len() && i != j implies ds[i] != ds[j] by {
            if i < j {
                assert(cl@[i] != cl@[j]);
            } else {
                assert(cl@[j] != cl@[i]);
            }
        }
        ds.lemma_multiset_has_no_duplicates();
        dv.lemma_multiset_has_no_duplicates_conv();
        ev.lemma_multiset_has_no_duplicates();
        sv.lemma_multiset_has_no_duplicates_conv();
        assert(dv.to_multiset() == ds.to_multiset());
        assert forall|x: Seq<char>| dv.contains(x) <==> ds.contains(x) by {
            assert(dv.to_multiset().count(x) == ds.to_multiset().count(x));
        }
        // the start
        assert(ds[0] == start_dir);
        assert(ds.contains(start_dir));
        // closed
        assert forall|d: Seq<char>, q: Seq<char>| #[trigger] seq_set(dv).contains(d) && #[trigger] edge(*m, d, q) implies seq_set(dv).contains(q) by {
            assert(ds.contains(d));
            let kk = choose|kk: int| 0 <= kk < ds.len() && ds[kk] == d;
            assert(edge(*m, dir_key(*m, cl@[kk] as int), q));
            let k2 = choose|k2: int| 0 <= k2 < cl@.len() && #[trigger] cl@[k2] as int == owner(*m, q) && 0 <= owner(*m, q);
            lemma_owner(*m, q);
            assert(ds[k2] == q);
            assert(ds.contains(q));
        }
        // least
        assert forall|tt: Set<Seq<char>>| #[trigger] closed_under(*m, tt) && tt.contains(start_dir) implies seq_set(dv).subset_of(tt) by {
            assert forall|d: Seq<char>| seq_set(dv).contains(d) implies tt.contains(d) by {
                assert(ds.contains(d));
                let kk = choose|kk: int| 0 <= kk < ds.len() && ds[kk] == d;
                lemma_walk_least(*m, cl@, par, tt, kk);
            }
        }
        // escapes
        assert forall|nm: Seq<char>, p: Seq<char>| #[trigger] sv.contains((nm, p)) <==> exists|d: Seq<char>| dv.contains(d) && #[trigger] escapes_from(*m, d, nm, p) by {
            assert(sv.to_multiset().count((nm, p)) == ev.to_multiset().count((nm, p)));
            assert(sv.contains((nm, p)) <==> ev.contains((nm, p)));
            if ev.contains((nm, p)) {
                let (kk, x) = choose|kk: int, x: int| 0 <= kk < cl@.len() && #[trigger] dep_escape(*m, cl@[kk] as int, x, nm, p);
                let d = ds[kk];
                assert(dep_escape(*m, owner(*m, d), x, nm, p));
                assert(escapes_from(*m, d, nm, p));
                assert(dv.contains(d));
            }
            if exists|d: Seq<char>| dv.contains(d) && #[trigger] escapes_from(*m, d, nm, p) {
                let d = choose|d: Seq<char>| dv.contains(d) && #[trigger] escapes_from(*m, d, nm, p);
                assert(ds.contains(d));
                let kk = choose|kk: int| 0 <= kk < ds.len() && ds[kk] == d;
                let x = choose|x: int| #[trigger] dep_escape(*m, owner(*m, d), x, nm, p);
                assert(dep_escape(*m, cl@[kk] as int, x, nm, p));
            }
        }
    }
    Some(ClosureResult { dirs, out_of_workspace: sorted })
}

/// The index of the first workspace member named `package`, if any.
pub fn find_member(m: &Metadata, package: &str) -> (r: Option<usize>)
    ensures
        r matches Some(t) ==> target_index(*m, package@) == t as int && (t as int) < m.packages@.len(),
        r is None <==> target_index(*m, package@) < 0,
{
    let (member, _keys) = build_tables(m);
    let r = find_target(m, &member, package);
    proof {
        lemma_named_from(*m, package@, 0);
    }
    r
}

/// The lines naming the first `k` escaping dependencies.
pub open spec fn escape_lines_upto(deps: Seq<OutOfWorkspaceDep>, k: nat) -> Seq<char>
    decreases k,
{
    if k == 0 {
        Seq::empty()
    } else {
        escape_lines_upto(deps, (k - 1) as nat) + "  - "@ + deps[k - 1].name@ + " (path = "@ + deps[k - 1].path@
            + ")\n"@
    }
}

/// The closing advice of the escape error.
pub open spec fn escape_advice() -> Seq<char> {
    "Remote run/deploy uploads only the workspace dependency closure, so an out-of-workspace path-dep would make the in-container `cargo build` fail to read its Cargo.toml. Fix by depending on these crates via a git or version (crates.io) spec, or by vendoring them into this workspace. (Local `--describe` resolves out-of-workspace path-deps against your on-disk tree, so it is unaffected.)"@
}

/// The upload-time error for normal path dependencies that escape the
/// workspace: the package and how many, one line per dependency, then advice.
pub open spec fn spec_out_of_workspace_error(package: Seq<char>, deps: Seq<OutOfWorkspaceDep>) -> Seq<char> {
    "package '"@ + package + "' depends on "@ + crate::text::decimal(deps.len())
        + " crate(s) by a path OUTSIDE the uploaded workspace, whose source cannot be uploaded to Modal:\n"@
        + escape_lines_upto(deps, deps.len()) + escape_advice()
}

/// Builds the escape error message.
pub fn out_of_workspace_error(package: &str, deps: &[OutOfWorkspaceDep]) -> (r: String)
    ensures
        r@ == spec_out_of_workspace_error(package@, deps@),
{
    let mut msg = String::new();
    push_str(&mut msg, "package '");
    push_str(&mut msg, package);
    push_str(&mut msg, "' depends on ");
    push_decimal(&mut msg, deps.len() as u64);
    push_str(&mut msg, " crate(s) by a path OUTSIDE the uploaded workspace, whose source cannot be uploaded to Modal:\n");
    let ghost head = msg@;
    let mut i: usize = 0;
    while i < deps.len()
        invariant
            i <= deps@.len(),
            msg@ == head + escape_lines_upto(deps@, i as nat),
        decreases deps@.len() - i,
    {
        push_str(&mut msg, "  - ");
        push_str(&mut msg, deps[i].name.as_str());
        push_str(&mut msg, " (path = ");
        push_str(&mut msg, deps[i].path.as_str());
        push_str(&mut msg, ")\n");
        proof {
            assert(msg@ =~= head + escape_lines_upto(deps@, (i + 1) as nat));
        }
        i = i + 1;
    }
    push_str(&mut msg, "Remote run/deploy uploads only the workspace dependency closure, so an out-of-workspace path-dep would make the in-container `cargo build` fail to read its Cargo.toml. Fix by depending on these crates via a git or version (crates.io) spec, or by vendoring them into this workspace. (Local `--describe` resolves out-of-workspace path-deps against your on-disk tree, so it is unaffected.)");
    proof {
        assert(msg@ =~= spec_out_of_workspace_error(package@, deps@));
    }
    msg
}

/// The closure directories of `package` for the describe cache, or `None`
/// when no workspace member has that name.
pub fn describe_cache_inputs(metadata: &Metadata, package: &str) -> (r: Option<Vec<String>>)
    ensures
        r is None <==> target_index(*metadata, package@) < 0,
        r matches Some(dirs) ==> is_least_closure(*metadata, dir_key(*metadata, target_index(*metadata, package@)), views(dirs@))
            && views(dirs@).no_duplicates() && path_sorted(views(dirs@)),
{
    match closure_from_metadata(metadata, package) {
        Some(res) => Some(res.dirs),
        None => None,
    }
}
} // verus!
