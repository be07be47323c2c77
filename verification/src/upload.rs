//! The scoped source upload: the closure directories, the verbatim extra
//! files, and the in-memory overrides (the rewritten workspace manifest, the
//! member manifests without dev-dependencies, the injected runner).

use vstd::prelude::*;
use crate::manifest::{cut_manifest, has_dev_deps, rewrite_workspace_members, strip_dev_dependencies, stripped_text, toml_parses, member_path};
use crate::path::{strip_prefix, views};
use crate::runner_gen::{injected_runner_file_from_metadata};
use crate::scope::{
    Metadata, closure_from_metadata, dir_key, esc_pairs, escapes_from, is_least_closure, out_of_workspace_error, target_index,
};
use crate::order::path_sorted;
use crate::text::push_str;

verus! {

/// The scoped upload set.
#[derive(Debug, Clone)]
pub struct ClosureUpload {
    /// The closure crate directories.
    pub dirs: Vec<String>,
    /// Files uploaded verbatim (the workspace lock file).
    pub extra_files: Vec<String>,
    /// In-memory overrides `(workspace-relative path, text)`.
    pub inline_files: Vec<(String, String)>,
}

/// The closure directories to upload for `package`: `Ok(None)` when no
/// workspace member has that name, an error naming every normal path
/// dependency that escapes the workspace, else the directories.
pub fn workspace_closure_dirs(metadata: &Metadata, package: &str) -> (r: Result<Option<Vec<String>>, String>)
    ensures
        r matches Ok(None) <==> target_index(*metadata, package@) < 0,
        r matches Ok(Some(d)) ==> {
            let dv = views(d@);
            &&& is_least_closure(*metadata, dir_key(*metadata, target_index(*metadata, package@)), dv)
            &&& dv.no_duplicates()
            &&& path_sorted(dv)
            &&& forall|x: Seq<char>, nm: Seq<char>, p: Seq<char>| dv.contains(x) ==> !#[trigger] escapes_from(*metadata, x, nm, p)
        },
        r is Err ==> target_index(*metadata, package@) >= 0 && exists|dv: Seq<Seq<char>>, x: Seq<char>, nm: Seq<char>, p: Seq<char>|
            #![trigger is_least_closure(*metadata, dir_key(*metadata, target_index(*metadata, package@)), dv), escapes_from(*metadata, x, nm, p)]
            is_least_closure(*metadata, dir_key(*metadata, target_index(*metadata, package@)), dv) && dv.contains(x)
                && escapes_from(*metadata, x, nm, p),
{
    match closure_from_metadata(metadata, package) {
        None => Ok(None),
        Some(res) => {
            if res.out_of_workspace.len() > 0 {
                proof {
                    let e = esc_pairs(res.out_of_workspace@);
                    assert(e.contains(e[0]));
                    let (nm, p) = e[0];
                    assert(e.contains((nm, p)));
                }
                Err(out_of_workspace_error(package, res.out_of_workspace.as_slice()))
            } else {
                proof {
                    assert forall|x: Seq<char>, nm: Seq<char>, p: Seq<char>| views(res.dirs@).contains(x) implies !#[trigger] escapes_from(*metadata, x, nm, p) by {
                        if escapes_from(*metadata, x, nm, p) {
                            assert(esc_pairs(res.out_of_workspace@).contains((nm, p)));
                        }
                    }
                }
                Ok(Some(res.dirs))
            }
        },
    }
}

/// Where a member manifest override goes: `<rel>/Cargo.toml`.
pub open spec fn member_manifest_path(rel: Seq<char>) -> Seq<char> {
    rel + "/Cargo.toml"@
}

/// The member manifests that get a stripped override, in directory order,
/// among the first `n` directories: `(override path, original text)` for each
/// directory strictly below the workspace root whose manifest text is present,
/// parses and has `dev-dependencies`.
pub open spec fn member_overrides(ws_root: Seq<char>, dirs: Seq<String>, manifests: Seq<Option<String>>, n: nat) -> Seq<
    (Seq<char>, Seq<char>),
>
    decreases n,
{
    if n == 0 {
        Seq::empty()
    } else {
        member_overrides(ws_root, dirs, manifests, (n - 1) as nat) + match member_path(ws_root, dirs[n - 1]@) {
            Some(rel) => match manifests[n - 1] {
                Some(t) => if toml_parses(t@) && has_dev_deps(t@) {
                    seq![(member_manifest_path(rel), t@)]
                } else {
                    Seq::empty()
                },
                None => Seq::empty(),
            },
            None => Seq::empty(),
        }
    }
}

/// The injected runner override for `package`: `(path, text)` when the member
/// exists, has no runner binary of its own, and its manifest names the facade.
pub open spec fn runner_override(m: Metadata, package: Seq<char>, manifest: Option<Seq<char>>) -> Option<(Seq<char>, Seq<char>)> {
    if target_index(m, package) < 0 {
        None
    } else {
        let p = m.packages@[target_index(m, package)];
        let facade = crate::runner_gen::facade_of_manifest(manifest);
        if crate::runner_gen::spec_has_runner_bin(p) || facade is None {
            None
        } else {
            Some(
                (
                    crate::runner_gen::spec_runner_rel_path(crate::runner_gen::spec_crate_rel(m.workspace_root@, p.manifest_path@)),
                    crate::runner_gen::spec_runner_main(package, facade->0, crate::runner_gen::spec_lib_ident(p)),
                ),
            )
        }
    }
}

/// Assembles the upload from resolved closure directories: `None` when the
/// workspace manifest text is missing or does not parse. The first override
/// is the rewritten workspace manifest at `Cargo.toml`; then, in directory
/// order, each member below the root whose manifest text is present and has
/// dev-dependencies gets its stripped manifest at `<rel>/Cargo.toml`; last, the
/// injected runner when one must be generated. `member_manifests[i]` is the
/// text of `dirs[i]`'s manifest, `target_manifest` that of the package's own.
pub fn build_closure_upload(
    metadata: &Metadata,
    package: &str,
    dirs: Vec<String>,
    workspace_manifest: Option<&str>,
    extra_files: Vec<String>,
    member_manifests: &Vec<Option<String>>,
    target_manifest: Option<&str>,
) -> (r: Option<ClosureUpload>)
    requires
        member_manifests@.len() == dirs@.len(),
    ensures
        r is None <==> (match workspace_manifest {
            Some(t) => !toml_parses(t@),
            None => true,
        }),
        r matches Some(u) ==> {
            let ov = member_overrides(metadata.workspace_root@, dirs@, member_manifests@, dirs@.len() as nat);
            let rf = runner_override(
                *metadata,
                package@,
                match target_manifest {
                    Some(x) => Some(x@),
                    None => None,
                },
            );
            &&& u.dirs == dirs
            &&& u.extra_files == extra_files
            &&& u.inline_files@.len() == 1 + ov.len() + if rf is Some {
                1int
            } else {
                0int
            }
            &&& u.inline_files@[0].0@ == "Cargo.toml"@
            &&& cut_manifest(workspace_manifest->0@, metadata.workspace_root@, dirs@, u.inline_files@[0].1@)
            &&& forall|j: int| 0 <= j < ov.len() ==> (#[trigger] u.inline_files@[1 + j]).0@ == ov[j].0 && stripped_text(
                ov[j].1,
                u.inline_files@[1 + j].1@,
            )
            &&& rf matches Some(f) ==> u.inline_files@[1 + ov.len() as int].0@ == f.0 && u.inline_files@[1 + ov.len() as int].1@ == f.1
        },
{
    let original = match workspace_manifest {
        Some(t) => t,
        None => {
            return None;
        },
    };
    let rewritten = match rewrite_workspace_members(original, metadata.workspace_root.as_str(), &dirs) {
        Ok(s) => s,
        Err(_) => {
            return None;
        },
    };
    let ghost root = metadata.workspace_root@;
    let mut inline_files: Vec<(String, String)> = Vec::new();
    inline_files.push((String::from_str("Cargo.toml"), rewritten));
    let mut i: usize = 0;
    while i < dirs.len()
        invariant
            i <= dirs@.len(),
            root == metadata.workspace_root@,
            member_manifests@.len() == dirs@.len(),
            inline_files@.len() == 1 + member_overrides(root, dirs@, member_manifests@, i as nat).len(),
            inline_files@[0].0@ == "Cargo.toml"@,
            cut_manifest(original@, root, dirs@, inline_files@[0].1@),
            forall|j: int| 0 <= j < member_overrides(root, dirs@, member_manifests@, i as nat).len() ==> (#[trigger] inline_files@[1
                + j]).0@ == member_overrides(root, dirs@, member_manifests@, i as nat)[j].0 && stripped_text(
                member_overrides(root, dirs@, member_manifests@, i as nat)[j].1,
                inline_files@[1 + j].1@,
            ),
        decreases dirs@.len() - i,
    {
        let ghost ov0 = member_overrides(root, dirs@, member_manifests@, i as nat);
        let ghost before = inline_files@;
        match strip_prefix(dirs[i].as_str(), metadata.workspace_root.as_str()) {
            Some(rel) => {
                if rel.unicode_len() > 0 {
                    match &member_manifests[i] {
                        Some(text) => {
                            match strip_dev_dependencies(text.as_str()) {
                                Ok(Some(stripped)) => {
                                    let mut path = rel;
                                    push_str(&mut path, "/Cargo.toml");
                                    inline_files.push((path, stripped));
                                },
                                _ => {},
                            }
                        },
                        None => {},
                    }
                }
            },
            None => {},
        }
        proof {
            let ov1 = member_overrides(root, dirs@, member_manifests@, (i + 1) as nat);
            assert(ov1.subrange(0, ov0.len() as int) =~= ov0);
            assert forall|j: int| 0 <= j < ov1.len() implies (#[trigger] inline_files@[1 + j]).0@ == ov1[j].0 && stripped_text(
                ov1[j].1,
                inline_files@[1 + j].1@,
            ) by {
                if j < ov0.len() {
                    assert(ov1[j] == ov0[j]);
                    assert(inline_files@[1 + j] == before[1 + j]);
                }
            }
        }
        i = i + 1;
    }
    let ghost ov = member_overrides(root, dirs@, member_manifests@, dirs@.len() as nat);
    let ghost mid = inline_files@;
    match injected_runner_file_from_metadata(metadata, package, target_manifest) {
        Some(f) => {
            inline_files.push(f);
            proof {
                assert forall|j: int| 0 <= j < ov.len() implies (#[trigger] inline_files@[1 + j]).0@ == ov[j].0 && stripped_text(
                    ov[j].1,
                    inline_files@[1 + j].1@,
                ) by {
                    assert(inline_files@[1 + j] == mid[1 + j]);
                }
            }
        },
        None => {},
    }
    Some(ClosureUpload { dirs, extra_files, inline_files })
}

} // verus!
