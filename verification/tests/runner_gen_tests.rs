use modal_rust::runner_gen::{
    bin_target_names, crate_rel_of, facade_extern_from_entries, facade_extern_name, has_modal_runner_bin,
    injected_runner_file_from_metadata, injected_runner_rel_path, join_path, lib_ident_of, path_dep_rewrite,
    render_runner_main, resolve_runner_target, runner_file_for, RunnerTarget, copies_into_shadow, shadow_location,
};
use modal_rust::scope::{Metadata, Package, Target};

fn pkg(name: &str, manifest: &str, targets: Vec<Target>) -> Package {
    Package {
        id: format!("{name}-id"),
        name: name.to_string(),
        manifest_path: manifest.to_string(),
        dependencies: vec![],
        targets,
    }
}

fn lib_target(name: &str) -> Target {
    Target { kind: vec!["lib".to_string()], name: name.to_string() }
}

fn bin_target(name: &str) -> Target {
    Target { kind: vec!["bin".to_string()], name: name.to_string() }
}

#[test]
fn facade_extern_default_key() {
    let m = "[package]\nname = \"q\"\n[dependencies]\nmodal-rust = { path = \"../x\" }\n";
    assert_eq!(facade_extern_name(m).as_deref(), Some("modal_rust"));
}

#[test]
fn facade_extern_bare_version_string() {
    let m = "[package]\nname = \"q\"\n[dependencies]\nmodal-rust = \"0.1\"\n";
    assert_eq!(facade_extern_name(m).as_deref(), Some("modal_rust"));
}

#[test]
fn facade_extern_honors_package_rename_inline() {
    let m = "[package]\nname = \"q\"\n[dependencies]\n\
             modal_rust_facade = { package = \"modal-rust\", path = \"../x\" }\n";
    assert_eq!(facade_extern_name(m).as_deref(), Some("modal_rust_facade"));
}

#[test]
fn facade_extern_honors_package_rename_dotted_table() {
    let m = "[package]\nname = \"q\"\n[dependencies.my_modal]\n\
             package = \"modal-rust\"\ngit = \"https://example/x\"\n";
    assert_eq!(facade_extern_name(m).as_deref(), Some("my_modal"));
}

#[test]
fn facade_extern_none_for_runtime_only_crate() {
    let m = "[package]\nname = \"q\"\n[dependencies]\n\
             modal-rust-runtime = { path = \"../rt\" }\nserde = \"1\"\n";
    assert_eq!(facade_extern_name(m), None);
}

#[test]
fn facade_extern_none_when_no_deps_table() {
    assert_eq!(facade_extern_name("[package]\nname = \"q\"\n"), None);
}

#[test]
fn facade_extern_from_entries_takes_the_first_facade_entry() {
    let v = vec![
        ("serde".to_string(), None),
        ("alias-one".to_string(), Some("modal-rust".to_string())),
        ("modal-rust".to_string(), None),
    ];
    assert_eq!(facade_extern_from_entries(&v).as_deref(), Some("alias_one"));
    assert_eq!(facade_extern_from_entries(&vec![("x".to_string(), Some("y".to_string()))]), None);
}

#[test]
fn lib_ident_prefers_lib_name_then_falls_back() {
    let with_lib = pkg("example-own", "/ws/examples/own/Cargo.toml", vec![lib_target("example_own_lib")]);
    assert_eq!(lib_ident_of(&with_lib), "example_own_lib");
    let no_lib = pkg("my-crate", "/ws/my-crate/Cargo.toml", vec![]);
    assert_eq!(lib_ident_of(&no_lib), "my_crate");
}

#[test]
fn auto_detect_finds_modal_runner_bin() {
    let owns = pkg("own", "/ws/own/Cargo.toml", vec![lib_target("own"), bin_target("modal_runner")]);
    assert!(has_modal_runner_bin(&owns));
    let other = pkg("other", "/ws/other/Cargo.toml", vec![lib_target("other"), bin_target("add-runner")]);
    assert!(!has_modal_runner_bin(&other));
    let lib_only = pkg("libonly", "/ws/libonly/Cargo.toml", vec![lib_target("libonly")]);
    assert!(!has_modal_runner_bin(&lib_only));
}

#[test]
fn crate_rel_is_workspace_relative_posix() {
    let p = pkg("q", "/ws/examples/quickstart/Cargo.toml", vec![]);
    assert_eq!(crate_rel_of("/ws", &p), "examples/quickstart");
    let root = pkg("r", "/ws/Cargo.toml", vec![]);
    assert_eq!(crate_rel_of("/ws", &root), "");
}

#[test]
fn crate_rel_outside_the_root_falls_back_to_the_dir_name() {
    let p = pkg("q", "/elsewhere/q/Cargo.toml", vec![]);
    assert_eq!(crate_rel_of("/ws", &p), "q");
}

fn target(package: &str, lib: &str, facade: Option<&str>, rel: &str, own: bool, bins: Vec<&str>) -> RunnerTarget {
    RunnerTarget {
        package: package.to_string(),
        lib_ident: lib.to_string(),
        facade_extern: facade.map(str::to_string),
        crate_rel: rel.to_string(),
        has_own_runner_bin: own,
        bin_targets: bins.into_iter().map(str::to_string).collect(),
    }
}

#[test]
fn render_and_path_for_generatable_target() {
    let t = target("quickstart", "quickstart", Some("modal_rust"), "examples/quickstart", false, vec![]);
    assert!(t.is_generatable());
    let body = render_runner_main(&t);
    assert!(body.contains("modal_rust::modal_runner!(quickstart);"), "body spells the facade extern + lib ident: {body}");
    assert_eq!(injected_runner_rel_path(&t), "examples/quickstart/src/bin/modal_runner.rs");
}

#[test]
fn render_honors_facade_rename() {
    let t = target("add-macro", "example_add_macro", Some("modal_rust_facade"), "examples/add-macro", false, vec![]);
    assert!(render_runner_main(&t).contains("modal_rust_facade::modal_runner!(example_add_macro);"));
}

#[test]
fn render_runner_main_is_exact() {
    let t = target("p", "l", Some("f"), "", false, vec![]);
    assert_eq!(
        render_runner_main(&t),
        "// AUTO-GENERATED by modal-rust: the tooling injects this runner bin into the\n\
         // build/upload copy of the crate so `cargo build -p p --bin modal_runner` resolves\n\
         // with NO Cargo.toml edit. Do not commit; your crate stays a pure library.\n\
         f::modal_runner!(l);\n"
    );
}

#[test]
fn injected_path_for_root_crate() {
    let t = target("standalone", "standalone", Some("modal_rust"), "", false, vec![]);
    assert_eq!(injected_runner_rel_path(&t), "src/bin/modal_runner.rs");
}

#[test]
fn is_generatable_false_when_own_bin_or_no_facade() {
    let own_bin = target("own", "own", Some("modal_rust"), "examples/own", true, vec!["modal_runner"]);
    assert!(!own_bin.is_generatable());
    let no_facade = target("add", "example_add", None, "examples/add", false, vec!["add-runner"]);
    assert!(!no_facade.is_generatable());
}

#[test]
fn is_runnable_matrix() {
    let generatable = target("quickstart", "quickstart", Some("modal_rust"), "examples/quickstart", false, vec![]);
    assert!(generatable.is_runnable());
    let own_bin = target("own-runner-bin", "own_runner_bin", Some("modal_rust"), "examples/own-runner-bin", true, vec!["modal_runner"]);
    assert!(own_bin.is_runnable());
    let manual = target("example-add", "example_add", None, "examples/add", false, vec!["add-runner"]);
    assert!(!manual.is_runnable());
}

#[test]
fn bin_target_names_lists_only_this_package_bins() {
    let p = pkg("example-add", "/ws/examples/add/Cargo.toml", vec![lib_target("example_add"), bin_target("add-runner")]);
    assert_eq!(bin_target_names(&p), vec!["add-runner".to_string()]);
    let lib_only = pkg("q", "/ws/q/Cargo.toml", vec![lib_target("q")]);
    assert!(bin_target_names(&lib_only).is_empty());
}

#[test]
fn resolve_from_metadata_builds_target_for_member() {
    let metadata = Metadata {
        workspace_root: "/tmp/ws".to_string(),
        workspace_members: vec!["quickstart-id".to_string()],
        packages: vec![Package {
            id: "quickstart-id".to_string(),
            name: "quickstart".to_string(),
            manifest_path: "/tmp/ws/examples/quickstart/Cargo.toml".to_string(),
            dependencies: vec![],
            targets: vec![lib_target("quickstart")],
        }],
    };
    let manifest = "[package]\nname = \"quickstart\"\n[dependencies]\nmodal-rust = { path = \"../../x\" }\n";
    let t = resolve_runner_target(&metadata, "quickstart", Some(manifest)).expect("resolved");
    assert_eq!(t.package, "quickstart");
    assert_eq!(t.lib_ident, "quickstart");
    assert_eq!(t.facade_extern.as_deref(), Some("modal_rust"));
    assert_eq!(t.crate_rel, "examples/quickstart");
    assert!(!t.has_own_runner_bin);
    assert!(t.bin_targets.is_empty(), "pure library has no bin targets");
    assert!(t.is_generatable());
    assert!(t.is_runnable());
}

#[test]
fn resolve_from_metadata_none_for_non_member() {
    let metadata = Metadata { workspace_root: "/ws".to_string(), workspace_members: vec![], packages: vec![] };
    assert!(resolve_runner_target(&metadata, "nope", None).is_none());
}

#[test]
fn resolve_from_metadata_manual_crate_is_not_runnable() {
    let metadata = Metadata {
        workspace_root: "/tmp/ws".to_string(),
        workspace_members: vec!["example-add-id".to_string()],
        packages: vec![Package {
            id: "example-add-id".to_string(),
            name: "example-add".to_string(),
            manifest_path: "/tmp/ws/examples/add/Cargo.toml".to_string(),
            dependencies: vec![],
            targets: vec![lib_target("example_add"), bin_target("add-runner")],
        }],
    };
    let manifest = "[package]\nname = \"example-add\"\n[dependencies]\n\
                    modal-rust-runtime = { path = \"../../crates/modal-rust-runtime\" }\n";
    let t = resolve_runner_target(&metadata, "example-add", Some(manifest)).expect("resolved");
    assert_eq!(t.facade_extern, None, "no `modal-rust` facade dep");
    assert!(!t.has_own_runner_bin, "ships `add-runner`, not `modal_runner`");
    assert!(!t.is_generatable());
    assert!(!t.is_runnable(), "neither generatable nor a modal_runner bin → not runnable");
    assert_eq!(t.bin_targets, vec!["add-runner".to_string()]);
    assert_eq!(injected_runner_file_from_metadata(&metadata, "example-add", Some(manifest)), None);
}

#[test]
fn runner_file_for_generatable_target_pairs_path_and_body() {
    let t = target("q", "q", Some("modal_rust"), "a/b", false, vec![]);
    let (path, body) = runner_file_for(&t).unwrap();
    assert_eq!(path, "a/b/src/bin/modal_runner.rs");
    assert!(body.ends_with("modal_rust::modal_runner!(q);\n"));
    assert!(runner_file_for(&target("q", "q", Some("m"), "", true, vec![])).is_none());
}

#[test]
fn join_path_matches_std_join() {
    assert_eq!(join_path("/a/b", "../c"), "/a/b/../c");
    assert_eq!(join_path("/a/b/", "c"), "/a/b/c");
    assert_eq!(join_path("/a", "/abs"), "/abs");
    assert_eq!(join_path("", "rel"), "rel");
}

#[test]
fn path_dep_rewrite_only_rewrites_relative_out_of_closure_deps() {
    let closure = vec!["/t/myapp".to_string()];
    assert_eq!(path_dep_rewrite("../checkout/x", "/t/checkout/x", &closure).as_deref(), Some("/t/checkout/x"));
    assert_eq!(path_dep_rewrite("../myapp", "/t/myapp/", &closure), None);
    assert_eq!(path_dep_rewrite("/abs/x", "/abs/x", &closure), None);
}

#[test]
fn shadow_copy_leaves_out_target_and_git_dirs() {
    assert!(!copies_into_shadow("target"));
    assert!(!copies_into_shadow(".git"));
    assert!(copies_into_shadow("src"));
    assert!(copies_into_shadow("targets"));
    assert!(copies_into_shadow(".github"));
}

#[test]
fn shadow_location_maps_workspace_paths_under_dest() {
    assert_eq!(shadow_location("/ws", "/tmp/shadow", "/ws"), Some("/tmp/shadow".to_string()));
    assert_eq!(shadow_location("/ws", "/tmp/shadow", "/ws/crates/app"), Some("/tmp/shadow/crates/app".to_string()));
    assert_eq!(shadow_location("/ws", "/tmp/shadow/", "/ws/Cargo.lock"), Some("/tmp/shadow/Cargo.lock".to_string()));
    assert_eq!(shadow_location("/ws", "/tmp/shadow", "/elsewhere/lib"), None);
    assert_eq!(shadow_location("/ws", "/tmp/shadow", "/wsx/lib"), None);
}
