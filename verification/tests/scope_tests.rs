use modal_rust::scope::{
    closure_from_metadata, describe_cache_inputs, find_member, out_of_workspace_error, Dependency, Metadata,
    OutOfWorkspaceDep, Package,
};
use modal_rust::upload::{build_closure_upload, workspace_closure_dirs};

fn dep(name: &str, kind: Option<&str>, path: Option<&str>) -> Dependency {
    Dependency {
        name: name.to_string(),
        kind: kind.map(str::to_string),
        path: path.map(str::to_string),
    }
}

fn package(id: &str, name: &str, manifest: &str, dependencies: Vec<Dependency>) -> Package {
    Package {
        id: id.to_string(),
        name: name.to_string(),
        manifest_path: manifest.to_string(),
        dependencies,
        targets: vec![],
    }
}

/// The real workspace shape: `example-add` has a normal path-dep on `runtime`;
/// `modal-rust` has normal path-deps on runtime/macros/sdk and a dev path-dep on
/// `example-add`.
fn fixture() -> Metadata {
    Metadata {
        workspace_root: "/ws".to_string(),
        workspace_members: vec![
            "sdk-id".to_string(),
            "rt-id".to_string(),
            "macros-id".to_string(),
            "facade-id".to_string(),
            "addex-id".to_string(),
        ],
        packages: vec![
            package("rt-id", "modal-rust-runtime", "/ws/crates/runtime/Cargo.toml", vec![]),
            package("macros-id", "modal-rust-macros", "/ws/crates/macros/Cargo.toml", vec![]),
            package("sdk-id", "modal-rust-sdk", "/ws/crates/sdk/Cargo.toml", vec![]),
            package(
                "addex-id",
                "example-add",
                "/ws/examples/add/Cargo.toml",
                vec![
                    dep("modal-rust-runtime", None, Some("/ws/crates/runtime")),
                    dep("serde", None, None),
                ],
            ),
            package(
                "facade-id",
                "modal-rust",
                "/ws/crates/facade/Cargo.toml",
                vec![
                    dep("modal-rust-runtime", None, Some("/ws/crates/runtime")),
                    dep("modal-rust-macros", None, Some("/ws/crates/macros")),
                    dep("modal-rust-sdk", None, Some("/ws/crates/sdk")),
                    dep("example-add", Some("dev"), Some("/ws/examples/add")),
                ],
            ),
        ],
    }
}

#[test]
fn closure_for_example_add_is_self_plus_runtime() {
    let m = fixture();
    let result = closure_from_metadata(&m, "example-add").unwrap();
    assert_eq!(
        result.dirs,
        vec!["/ws/crates/runtime".to_string(), "/ws/examples/add".to_string()],
        "example-add closure = {{examples/add, crates/runtime}} only"
    );
    assert!(result.out_of_workspace.is_empty(), "all path-deps are workspace members");
}

#[test]
fn closure_for_facade_excludes_dev_dep_on_example() {
    let m = fixture();
    let result = closure_from_metadata(&m, "modal-rust").unwrap();
    assert_eq!(
        result.dirs,
        vec![
            "/ws/crates/facade".to_string(),
            "/ws/crates/macros".to_string(),
            "/ws/crates/runtime".to_string(),
            "/ws/crates/sdk".to_string(),
        ],
    );
    assert!(
        !result.dirs.contains(&"/ws/examples/add".to_string()),
        "the dev path-dep on example-add must be excluded"
    );
    assert!(result.out_of_workspace.is_empty());
}

#[test]
fn closure_flags_out_of_workspace_normal_path_dep() {
    let m = Metadata {
        workspace_root: "/tmp/myapp".to_string(),
        workspace_members: vec!["myapp-id".to_string()],
        packages: vec![package(
            "myapp-id",
            "myapp",
            "/tmp/myapp/Cargo.toml",
            vec![dep("modal-rust", None, Some("/elsewhere/checkout/crates/modal-rust"))],
        )],
    };
    let result = closure_from_metadata(&m, "myapp").unwrap();
    assert_eq!(result.dirs, vec!["/tmp/myapp".to_string()]);
    assert_eq!(
        result.out_of_workspace,
        vec![OutOfWorkspaceDep {
            name: "modal-rust".to_string(),
            path: "/elsewhere/checkout/crates/modal-rust".to_string(),
        }],
        "the escaping facade path-dep is captured for a loud upload error"
    );
    let err = out_of_workspace_error("myapp", &result.out_of_workspace);
    assert!(err.contains("modal-rust"));
    assert!(err.contains("/elsewhere/checkout/crates/modal-rust"));
    assert!(err.contains("git or version"));
}

#[test]
fn unknown_package_returns_none() {
    let m = fixture();
    assert!(closure_from_metadata(&m, "not-a-member").is_none());
}

#[test]
fn out_of_workspace_error_text_is_exact() {
    let deps = vec![
        OutOfWorkspaceDep { name: "a".to_string(), path: "/x/a".to_string() },
        OutOfWorkspaceDep { name: "b".to_string(), path: "/y/b".to_string() },
    ];
    let msg = out_of_workspace_error("pkg", &deps);
    assert!(msg.starts_with(
        "package 'pkg' depends on 2 crate(s) by a path OUTSIDE the uploaded workspace, whose source cannot be uploaded to Modal:\n  - a (path = /x/a)\n  - b (path = /y/b)\nRemote run/deploy uploads only"
    ));
    assert!(msg.ends_with("so it is unaffected.)"));
}

#[test]
fn closure_follows_transitive_member_deps_and_dedups_escapes() {
    // a -> b -> c (members), b and c both escape to the same outside path.
    let m = Metadata {
        workspace_root: "/w".to_string(),
        workspace_members: vec!["a".to_string(), "b".to_string(), "c".to_string()],
        packages: vec![
            package("a", "a", "/w/a/Cargo.toml", vec![dep("b", None, Some("/w/b/"))]),
            package(
                "b",
                "b",
                "/w/b/Cargo.toml",
                vec![dep("c", None, Some("/w/c")), dep("z", None, Some("/out/z"))],
            ),
            package(
                "c",
                "c",
                "/w/c/Cargo.toml",
                vec![dep("z", None, Some("/out/z")), dep("y", None, Some("/out/y")), dep("a", Some("build"), Some("/w/a"))],
            ),
        ],
    };
    let r = closure_from_metadata(&m, "a").unwrap();
    assert_eq!(r.dirs, vec!["/w/a".to_string(), "/w/b".to_string(), "/w/c".to_string()]);
    assert_eq!(
        r.out_of_workspace,
        vec![
            OutOfWorkspaceDep { name: "y".to_string(), path: "/out/y".to_string() },
            OutOfWorkspaceDep { name: "z".to_string(), path: "/out/z".to_string() },
        ]
    );
}

#[test]
fn closure_of_a_cycle_terminates_with_each_dir_once() {
    let m = Metadata {
        workspace_root: "/w".to_string(),
        workspace_members: vec!["a".to_string(), "b".to_string()],
        packages: vec![
            package("a", "a", "/w/a/Cargo.toml", vec![dep("b", None, Some("/w/b"))]),
            package("b", "b", "/w/b/Cargo.toml", vec![dep("a", None, Some("/w/a"))]),
        ],
    };
    let r = closure_from_metadata(&m, "b").unwrap();
    assert_eq!(r.dirs, vec!["/w/a".to_string(), "/w/b".to_string()]);
}

#[test]
fn non_member_packages_are_neither_targets_nor_closure_dirs() {
    let m = Metadata {
        workspace_root: "/w".to_string(),
        workspace_members: vec!["a".to_string()],
        packages: vec![
            package("a", "a", "/w/a/Cargo.toml", vec![dep("n", None, Some("/w/n"))]),
            package("n", "n", "/w/n/Cargo.toml", vec![]),
        ],
    };
    assert!(closure_from_metadata(&m, "n").is_none());
    assert_eq!(find_member(&m, "n"), None);
    assert_eq!(find_member(&m, "a"), Some(0));
    let r = closure_from_metadata(&m, "a").unwrap();
    assert_eq!(r.dirs, vec!["/w/a".to_string()]);
    assert_eq!(r.out_of_workspace.len(), 1);
}

#[test]
fn describe_cache_inputs_is_the_closure_dirs() {
    let m = fixture();
    assert_eq!(
        describe_cache_inputs(&m, "example-add"),
        Some(vec!["/ws/crates/runtime".to_string(), "/ws/examples/add".to_string()])
    );
    assert_eq!(describe_cache_inputs(&m, "nope"), None);
}

#[test]
fn workspace_closure_dirs_errors_on_escape() {
    let m = Metadata {
        workspace_root: "/tmp/myapp".to_string(),
        workspace_members: vec!["myapp-id".to_string()],
        packages: vec![package(
            "myapp-id",
            "myapp",
            "/tmp/myapp/Cargo.toml",
            vec![dep("modal-rust", None, Some("/elsewhere/modal-rust"))],
        )],
    };
    let err = workspace_closure_dirs(&m, "myapp").unwrap_err();
    assert!(err.contains("modal-rust (path = /elsewhere/modal-rust)"));
    assert_eq!(workspace_closure_dirs(&m, "other"), Ok(None));
    assert_eq!(
        workspace_closure_dirs(&fixture(), "example-add"),
        Ok(Some(vec!["/ws/crates/runtime".to_string(), "/ws/examples/add".to_string()]))
    );
}

#[test]
fn closure_upload_rewrites_members_and_strips_member_dev_deps() {
    let m = fixture();
    let dirs = vec!["/ws/crates/runtime".to_string(), "/ws/examples/add".to_string()];
    let ws = "[workspace]\nmembers = [\"crates/runtime\", \"crates/sdk\", \"examples/add\"]\n";
    let runtime = "[package]\nname = \"modal-rust-runtime\"\n".to_string();
    let add = "[package]\nname = \"example-add\"\n\n[dev-dependencies]\nx = { path = \"../x\" }\n".to_string();
    let up = build_closure_upload(
        &m,
        "example-add",
        dirs.clone(),
        Some(ws),
        vec!["/ws/Cargo.lock".to_string()],
        &vec![Some(runtime), Some(add)],
        Some("[package]\nname = \"example-add\"\n[dependencies]\nmodal-rust-runtime = { path = \"../../crates/runtime\" }\n"),
    )
    .expect("upload");
    assert_eq!(up.dirs, dirs);
    assert_eq!(up.extra_files, vec!["/ws/Cargo.lock".to_string()]);
    assert_eq!(up.inline_files.len(), 2);
    assert_eq!(up.inline_files[0].0, "Cargo.toml");
    let doc: toml_edit::DocumentMut = up.inline_files[0].1.parse().unwrap();
    let members: Vec<String> = doc["workspace"]["members"]
        .as_array()
        .unwrap()
        .iter()
        .map(|v| v.as_str().unwrap().to_string())
        .collect();
    assert_eq!(members, vec!["crates/runtime", "examples/add"]);
    assert_eq!(up.inline_files[1].0, "examples/add/Cargo.toml");
    assert!(!up.inline_files[1].1.contains("dev-dependencies"));
    // An unparseable workspace manifest falls back (None).
    assert!(build_closure_upload(&m, "example-add", dirs.clone(), Some("[[["), vec![], &vec![None, None], None).is_none());
    assert!(build_closure_upload(&m, "example-add", dirs, None, vec![], &vec![None, None], None).is_none());
}

#[test]
fn closure_upload_injects_the_runner_for_a_facade_library() {
    let m = Metadata {
        workspace_root: "/ws".to_string(),
        workspace_members: vec!["q-id".to_string()],
        packages: vec![package("q-id", "quickstart", "/ws/examples/quickstart/Cargo.toml", vec![])],
    };
    let up = build_closure_upload(
        &m,
        "quickstart",
        vec!["/ws/examples/quickstart".to_string()],
        Some("[workspace]\nmembers = [\"examples/quickstart\"]\n"),
        vec![],
        &vec![None],
        Some("[package]\nname = \"quickstart\"\n[dependencies]\nmodal-rust = { path = \"../../x\" }\n"),
    )
    .unwrap();
    let last = up.inline_files.last().unwrap();
    assert_eq!(last.0, "examples/quickstart/src/bin/modal_runner.rs");
    assert!(last.1.contains("modal_rust::modal_runner!(quickstart);"));
}
