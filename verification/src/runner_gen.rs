//! The tooling-generated `modal_runner` bin: decide from the workspace metadata
//! and the target manifest whether a runner must be injected into the build copy
//! of a crate, and render the injected file and its path.

use vstd::prelude::*;
use crate::path::{file_name, parent, spec_file_name, spec_parent, spec_strip_prefix, str_eq, strip_prefix, views};
use crate::scope::{Metadata, Package, Target, find_member, target_index};
use crate::text::{push_char, push_str};
use crate::manifest::{dependencies_of, entry_views, manifest_dependencies, parse_document};

verus! {

/// The injected / auto-detected runner-bin name.
pub const RUNNER_BIN_NAME: &'static str = "modal_runner";

/// The facade package whose extern name the injected runner spells.
pub const FACADE_PACKAGE: &'static str = "modal-rust";

/// What the tooling needs to inject (or skip injecting) a runner bin for a
/// target package.
#[derive(Debug, Clone, PartialEq, Eq)]
pub struct RunnerTarget {
    /// The `-p <pkg>` argument.
    pub package: String,
    /// The library crate ident the runner links.
    pub lib_ident: String,
    /// The extern name the crate gives the facade (`None`: no facade dependency).
    pub facade_extern: Option<String>,
    /// The crate directory relative to the workspace root (`""` at the root).
    pub crate_rel: String,
    /// The package already ships a `modal_runner` bin.
    pub has_own_runner_bin: bool,
    /// The names of this package's own bin targets.
    pub bin_targets: Vec<String>,
}

impl RunnerTarget {
    /// A runner can be generated: the crate brings no runner bin of its own and
    /// the facade's extern name is known.
    pub fn is_generatable(&self) -> (r: bool)
        ensures
            r == (!self.has_own_runner_bin && self.facade_extern is Some),
    {
        !self.has_own_runner_bin && self.facade_extern.is_some()
    }

    /// `run` / `deploy` can use this crate: a runner can be generated, or the
    /// crate ships its own.
    pub fn is_runnable(&self) -> (r: bool)
        ensures
            r == ((!self.has_own_runner_bin && self.facade_extern is Some) || self.has_own_runner_bin),
    {
        self.is_generatable() || self.has_own_runner_bin
    }
}

/// `s` with every `-` replaced by `_`.
pub open spec fn dash_to_underscore(s: Seq<char>) -> Seq<char> {
    s.map_values(|c: char| if c == '-' { '_' } else { c })
}

/// Executable [`dash_to_underscore`].
pub fn replace_dashes(s: &str) -> (r: String)
    ensures
        r@ == dash_to_underscore(s@),
{
    let n = s.unicode_len();
    let mut r = String::new();
    let mut i: usize = 0;
    while i < n
        invariant
            n == s@.len(),
            i <= n,
            r@ == dash_to_underscore(s@.subrange(0, i as int)),
        decreases n - i,
    {
        let c = s.get_char(i);
        let d = if c == '-' { '_' } else { c };
        push_char(&mut r, d);
        proof {
            assert(dash_to_underscore(s@.subrange(0, i + 1)) =~= dash_to_underscore(s@.subrange(0, i as int)).push(d));
        }
        i = i + 1;
    }
    proof {
        assert(s@.subrange(0, n as int) =~= s@);
    }
    r
}

/// Target `t` has the kind `k`.
pub open spec fn has_kind(t: Target, k: Seq<char>) -> bool {
    views(t.kind@).contains(k)
}

fn has_kind_exec(t: &Target, k: &str) -> (r: bool)
    ensures
        r == has_kind(*t, k@),
{
    let mut i: usize = 0;
    while i < t.kind.len()
        invariant
            i <= t.kind@.len(),
            forall|j: int| 0 <= j < i ==> t.kind@[j]@ != k@,
        decreases t.kind@.len() - i,
    {
        if str_eq(t.kind[i].as_str(), k) {
            proof {
                assert(views(t.kind@)[i as int] == k@);
            }
            return true;
        }
        i = i + 1;
    }
    proof {
        if views(t.kind@).contains(k@) {
            let j = choose|j: int| 0 <= j < views(t.kind@).len() && views(t.kind@)[j] == k@;
            assert(t.kind@[j]@ == k@);
        }
    }
    false
}

/// The name of the first target at or after `i` with the kind `lib`.
pub open spec fn first_lib_from(ts: Seq<Target>, i: int) -> Option<Seq<char>>
    decreases ts.len() - i,
{
    if i < 0 || i >= ts.len() {
        None
    } else if has_kind(ts[i], "lib"@) {
        Some(ts[i].name@)
    } else {
        first_lib_from(ts, i + 1)
    }
}

/// The library ident a package's runner links: its first `lib` target's name,
/// else the package name with `-` turned into `_`.
pub open spec fn spec_lib_ident(p: Package) -> Seq<char> {
    match first_lib_from(p.targets@, 0) {
        Some(n) => n,
        None => dash_to_underscore(p.name@),
    }
}

/// The library ident of `pkg`.
pub fn lib_ident_of(pkg: &Package) -> (r: String)
    ensures
        r@ == spec_lib_ident(*pkg),
{
    let mut i: usize = 0;
    while i < pkg.targets.len()
        invariant
            i <= pkg.targets@.len(),
            first_lib_from(pkg.targets@, 0) == first_lib_from(pkg.targets@, i as int),
        decreases pkg.targets@.len() - i,
    {
        if has_kind_exec(&pkg.targets[i], "lib") {
            return pkg.targets[i].name.clone();
        }
        i = i + 1;
    }
    replace_dashes(pkg.name.as_str())
}

/// The package ships a target named `modal_runner` with the kind `bin`.
pub open spec fn spec_has_runner_bin(p: Package) -> bool {
    exists|i: int|
        0 <= i < p.targets@.len() && #[trigger] p.targets@[i].name@ == RUNNER_BIN_NAME@ && has_kind(
            p.targets@[i],
            "bin"@,
        )
}

/// Whether `pkg` already ships a `modal_runner` bin.
pub fn has_modal_runner_bin(pkg: &Package) -> (r: bool)
    ensures
        r == spec_has_runner_bin(*pkg),
{
    let mut i: usize = 0;
    while i < pkg.targets.len()
        invariant
            i <= pkg.targets@.len(),
            forall|j: int|
                0 <= j < i ==> !(#[trigger] pkg.targets@[j].name@ == RUNNER_BIN_NAME@ && has_kind(
                    pkg.targets@[j],
                    "bin"@,
                )),
        decreases pkg.targets@.len() - i,
    {
        if str_eq(pkg.targets[i].name.as_str(), RUNNER_BIN_NAME) && has_kind_exec(&pkg.targets[i], "bin") {
            return true;
        }
        i = i + 1;
    }
    false
}

/// The names of the first `k` targets that have the kind `bin`, in order.
pub open spec fn bin_names_upto(ts: Seq<Target>, k: nat) -> Seq<Seq<char>>
    decreases k,
{
    if k == 0 {
        Seq::empty()
    } else if has_kind(ts[k - 1], "bin"@) {
        bin_names_upto(ts, (k - 1) as nat).push(ts[k - 1].name@)
    } else {
        bin_names_upto(ts, (k - 1) as nat)
    }
}

/// The names of `pkg`'s own bin targets, in target order.
pub fn bin_target_names(pkg: &Package) -> (r: Vec<String>)
    ensures
        views(r@) == bin_names_upto(pkg.targets@, pkg.targets@.len()),
{
    let mut r: Vec<String> = Vec::new();
    let mut i: usize = 0;
    while i < pkg.targets.len()
        invariant
            i <= pkg.targets@.len(),
            views(r@) == bin_names_upto(pkg.targets@, i as nat),
        decreases pkg.targets@.len() - i,
    {
        if has_kind_exec(&pkg.targets[i], "bin") {
            let ghost before = views(r@);
            r.push(pkg.targets[i].name.clone());
            proof {
                assert(views(r@) =~= before.push(pkg.targets@[i as int].name@));
            }
        }
        i = i + 1;
    }
    r
}

/// The crate directory of the manifest `manifest` relative to `ws_root`; when
/// it lies outside the root, its last component (or `""`).
pub open spec fn spec_crate_rel(ws_root: Seq<char>, manifest: Seq<char>) -> Seq<char> {
    let dir = match spec_parent(manifest) {
        Some(d) => d,
        None => ws_root,
    };
    match spec_strip_prefix(dir, ws_root) {
        Some(rel) => rel,
        None => match spec_file_name(dir) {
            Some(n) => n,
            None => Seq::empty(),
        },
    }
}

/// The crate directory of `pkg` relative to `workspace_root`.
pub fn crate_rel_of(workspace_root: &str, pkg: &Package) -> (r: String)
    ensures
        r@ == spec_crate_rel(workspace_root@, pkg.manifest_path@),
{
    let dir = match parent(pkg.manifest_path.as_str()) {
        Some(d) => d,
        None => String::from_str(workspace_root),
    };
    match strip_prefix(dir.as_str(), workspace_root) {
        Some(rel) => rel,
        None => match file_name(dir.as_str()) {
            Some(n) => n,
            None => String::new(),
        },
    }
}

/// The view of an optional string.
pub open spec fn opt_view(o: Option<String>) -> Option<Seq<char>> {
    match o {
        Some(s) => Some(s@),
        None => None,
    }
}

/// The package a dependency entry names: its `package` field, else its key.
pub open spec fn effective_package(e: (Seq<char>, Option<Seq<char>>)) -> Seq<char> {
    match e.1 {
        Some(p) => p,
        None => e.0,
    }
}

/// The extern name of the first entry at or after `i` whose effective package
/// is the facade: its key with `-` turned into `_`.
pub open spec fn facade_from(v: Seq<(Seq<char>, Option<Seq<char>>)>, i: int) -> Option<Seq<char>>
    decreases v.len() - i,
{
    if i < 0 || i >= v.len() {
        None
    } else if effective_package(v[i]) == FACADE_PACKAGE@ {
        Some(dash_to_underscore(v[i].0))
    } else {
        facade_from(v, i + 1)
    }
}

/// The facade extern name over a manifest's dependency entries.
pub fn facade_extern_from_entries(v: &Vec<(String, Option<String>)>) -> (r: Option<String>)
    ensures
        opt_view(r) == facade_from(entry_views(v@), 0),
{
    let ghost ev = entry_views(v@);
    let mut i: usize = 0;
    while i < v.len()
        invariant
            i <= v@.len(),
            ev == entry_views(v@),
            facade_from(ev, 0) == facade_from(ev, i as int),
        decreases v@.len() - i,
    {
        let eff = match &v[i].1 {
            Some(p) => p.as_str(),
            None => v[i].0.as_str(),
        };
        proof {
            assert(ev[i as int] == (v@[i as int].0@, opt_view(v@[i as int].1)));
            assert(eff@ == effective_package(ev[i as int]));
        }
        if str_eq(eff, FACADE_PACKAGE) {
            return Some(replace_dashes(v[i].0.as_str()));
        }
        i = i + 1;
    }
    None
}

/// The extern name the manifest gives the facade package, if it depends on it.
pub fn facade_extern_name(manifest: &str) -> (r: Option<String>)
    ensures
        opt_view(r) == match manifest_dependencies(manifest@) {
            Some(v) => facade_from(v, 0),
            None => None,
        },
{
    let doc = match parse_document(manifest) {
        Ok(d) => d,
        Err(_) => {
            return None;
        },
    };
    match dependencies_of(&doc) {
        Some(v) => facade_extern_from_entries(&v),
        None => None,
    }
}

/// The body of the generated runner file.
pub open spec fn spec_runner_main(package: Seq<char>, facade: Seq<char>, lib: Seq<char>) -> Seq<char> {
    "// AUTO-GENERATED by modal-rust: the tooling injects this runner bin into the\n"@
        + "// build/upload copy of the crate so `cargo build -p "@ + package + " --bin "@
        + RUNNER_BIN_NAME@ + "` resolves\n"@
        + "// with NO Cargo.toml edit. Do not commit; your crate stays a pure library.\n"@
        + facade + "::modal_runner!("@ + lib + ");\n"@
}

/// The whole body of the generated `src/bin/modal_runner.rs`: a comment, then
/// `<facade>::modal_runner!(<lib>);`.
pub fn render_runner_main(t: &RunnerTarget) -> (r: String)
    requires
        t.facade_extern is Some,
    ensures
        r@ == spec_runner_main(t.package@, t.facade_extern->0@, t.lib_ident@),
{
    let facade = match &t.facade_extern {
        Some(f) => f.as_str(),
        None => "",
    };
    let mut r = String::new();
    push_str(&mut r, "// AUTO-GENERATED by modal-rust: the tooling injects this runner bin into the\n");
    push_str(&mut r, "// build/upload copy of the crate so `cargo build -p ");
    push_str(&mut r, t.package.as_str());
    push_str(&mut r, " --bin ");
    push_str(&mut r, RUNNER_BIN_NAME);
    push_str(&mut r, "` resolves\n");
    push_str(&mut r, "// with NO Cargo.toml edit. Do not commit; your crate stays a pure library.\n");
    push_str(&mut r, facade);
    push_str(&mut r, "::modal_runner!(");
    push_str(&mut r, t.lib_ident.as_str());
    push_str(&mut r, ");\n");
    r
}

/// The workspace-relative path of the injected runner.
pub open spec fn spec_runner_rel_path(crate_rel: Seq<char>) -> Seq<char> {
    if crate_rel.len() == 0 {
        "src/bin/"@ + RUNNER_BIN_NAME@ + ".rs"@
    } else {
        crate_rel + "/src/bin/"@ + RUNNER_BIN_NAME@ + ".rs"@
    }
}

/// `<crate_rel>/src/bin/modal_runner.rs`, or `src/bin/modal_runner.rs` at the root.
pub fn injected_runner_rel_path(t: &RunnerTarget) -> (r: String)
    ensures
        r@ == spec_runner_rel_path(t.crate_rel@),
{
    let mut r = String::new();
    if t.crate_rel.unicode_len() > 0 {
        push_str(&mut r, t.crate_rel.as_str());
        push_str(&mut r, "/src/bin/");
    } else {
        push_str(&mut r, "src/bin/");
    }
    push_str(&mut r, RUNNER_BIN_NAME);
    push_str(&mut r, ".rs");
    proof {
        assert(r@ =~= spec_runner_rel_path(t.crate_rel@));
    }
    r
}

/// The injected `(path, text)` for a target, or `None` when it is not generatable.
pub fn runner_file_for(t: &RunnerTarget) -> (r: Option<(String, String)>)
    ensures
        r is None <==> !(!t.has_own_runner_bin && t.facade_extern is Some),
        r matches Some(f) ==> f.0@ == spec_runner_rel_path(t.crate_rel@) && f.1@ == spec_runner_main(
            t.package@,
            t.facade_extern->0@,
            t.lib_ident@,
        ),
{
    if !t.is_generatable() {
        return None;
    }
    Some((injected_runner_rel_path(t), render_runner_main(t)))
}


/// What a manifest text says of the facade extern name.
pub open spec fn facade_of_manifest(text: Option<Seq<char>>) -> Option<Seq<char>> {
    match text {
        Some(m) => match manifest_dependencies(m) {
            Some(v) => facade_from(v, 0),
            None => None,
        },
        None => None,
    }
}

/// The runner target a package resolves to.
pub open spec fn spec_runner_target(m: Metadata, package: Seq<char>, manifest: Option<Seq<char>>, t: RunnerTarget) -> bool {
    let p = m.packages@[target_index(m, package)];
    &&& t.package@ == package
    &&& t.lib_ident@ == spec_lib_ident(p)
    &&& opt_view(t.facade_extern) == facade_of_manifest(manifest)
    &&& t.crate_rel@ == spec_crate_rel(m.workspace_root@, p.manifest_path@)
    &&& t.has_own_runner_bin == spec_has_runner_bin(p)
    &&& views(t.bin_targets@) == bin_names_upto(p.targets@, p.targets@.len())
}

/// The runner target of the workspace member named `package`, given the text
/// of that member's manifest (`None` when it could not be read): `None` exactly
/// when no member has that name.
pub fn resolve_runner_target(metadata: &Metadata, package: &str, manifest: Option<&str>) -> (r: Option<RunnerTarget>)
    ensures
        r is None <==> target_index(*metadata, package@) < 0,
        r matches Some(t) ==> spec_runner_target(
            *metadata,
            package@,
            match manifest {
                Some(x) => Some(x@),
                None => None,
            },
            t,
        ),
{
    let i = match find_member(metadata, package) {
        Some(i) => i,
        None => {
            return None;
        },
    };
    let pkg = &metadata.packages[i];
    let facade_extern = match manifest {
        Some(text) => facade_extern_name(text),
        None => None,
    };
    Some(RunnerTarget {
        package: String::from_str(package),
        lib_ident: lib_ident_of(pkg),
        facade_extern,
        crate_rel: crate_rel_of(metadata.workspace_root.as_str(), pkg),
        has_own_runner_bin: has_modal_runner_bin(pkg),
        bin_targets: bin_target_names(pkg),
    })
}

/// The injected runner file for `package`, if a runner must be generated.
pub fn injected_runner_file_from_metadata(metadata: &Metadata, package: &str, manifest: Option<&str>) -> (r: Option<(String, String)>)
    ensures
        r matches Some(f) ==> target_index(*metadata, package@) >= 0,
        target_index(*metadata, package@) < 0 ==> r is None,
        target_index(*metadata, package@) >= 0 ==> ({
            let p = metadata.packages@[target_index(*metadata, package@)];
            let facade = facade_of_manifest(match manifest {
                Some(x) => Some(x@),
                None => None,
            });
            &&& (r is None <==> (spec_has_runner_bin(p) || facade is None))
            &&& r matches Some(f) ==> f.0@ == spec_runner_rel_path(spec_crate_rel(metadata.workspace_root@, p.manifest_path@))
                && f.1@ == spec_runner_main(package@, facade->0, spec_lib_ident(p))
        }),
{
    match resolve_runner_target(metadata, package, manifest) {
        Some(t) => runner_file_for(&t),
        None => None,
    }
}

/// `Path::join`: an absolute `rel` replaces `base`; otherwise `rel` follows
/// `base`, with a `/` between unless `base` is empty or already ends in one.
pub open spec fn spec_join(base: Seq<char>, rel: Seq<char>) -> Seq<char> {
    if crate::path::spec_has_root(rel) {
        rel
    } else if base.len() == 0 || base.last() == '/' {
        base + rel
    } else {
        base + "/"@ + rel
    }
}

/// Joins `rel` onto `base` as `Path::join` does.
pub fn join_path(base: &str, rel: &str) -> (r: String)
    ensures
        r@ == spec_join(base@, rel@),
{
    if crate::path::has_root(rel) {
        return String::from_str(rel);
    }
    let mut r = String::from_str(base);
    let n = base.unicode_len();
    if n > 0 && base.get_char(n - 1) != '/' {
        push_str(&mut r, "/");
    }
    push_str(&mut r, rel);
    r
}

/// Whether a directory met while copying a closure directory into the shadow
/// tree is copied: build output (`target`) and version control (`.git`) stay
/// out, every other directory goes in.
pub fn copies_into_shadow(dir_name: &str) -> (r: bool)
    ensures
        r <==> !(dir_name@ == "target"@ || dir_name@ == ".git"@),
{
    let skipped = str_eq(dir_name, "target") || str_eq(dir_name, ".git");
    !skipped
}

/// Where a path of the workspace lands in the shadow tree rooted at `dest`:
/// its part below `workspace_root` joined onto `dest`, the workspace root
/// itself landing on `dest`; `None` for a path outside the workspace.
pub fn shadow_location(workspace_root: &str, dest: &str, path: &str) -> (r: Option<String>)
    ensures
        spec_strip_prefix(path@, workspace_root@) is None <==> r is None,
        spec_strip_prefix(path@, workspace_root@) matches Some(rel) ==> (r matches Some(s) && s@ == (if rel.len() == 0 {
            dest@
        } else {
            spec_join(dest@, rel)
        })),
{
    match strip_prefix(path, workspace_root) {
        None => None,
        Some(rel) => {
            if rel.unicode_len() == 0 {
                Some(String::from_str(dest))
            } else {
                Some(join_path(dest, rel.as_str()))
            }
        },
    }
}

/// The rewrite of one path dependency in a shadow manifest: an absolute path
/// stays; a relative one whose target (resolved on disk, `resolved`) is a
/// shadow-closure directory stays; any other becomes `resolved`.
pub open spec fn spec_path_dep_rewrite(path: Seq<char>, resolved: Seq<char>, closure: Seq<Seq<char>>) -> Option<Seq<char>> {
    if crate::path::spec_has_root(path) {
        None
    } else if exists|i: int| 0 <= i < closure.len() && crate::path::canon(#[trigger] closure[i]) == crate::path::canon(resolved) {
        None
    } else {
        Some(resolved)
    }
}

/// Decides the rewrite of one path dependency.
pub fn path_dep_rewrite(path: &str, resolved: &str, closure_dirs: &Vec<String>) -> (r: Option<String>)
    ensures
        opt_view(r) == spec_path_dep_rewrite(path@, resolved@, views(closure_dirs@)),
{
    if crate::path::has_root(path) {
        return None;
    }
    let mut i: usize = 0;
    while i < closure_dirs.len()
        invariant
            i <= closure_dirs@.len(),
            forall|j: int| 0 <= j < i ==> crate::path::canon(#[trigger] views(closure_dirs@)[j]) != crate::path::canon(resolved@),
        decreases closure_dirs@.len() - i,
    {
        if crate::path::same_path(closure_dirs[i].as_str(), resolved) {
            proof {
                assert(crate::path::canon(views(closure_dirs@)[i as int]) == crate::path::canon(resolved@));
            }
            return None;
        }
        i = i + 1;
    }
    Some(String::from_str(resolved))
}
} // verus!
