use modal_rust::manifest::{
    dep_path_values, rewrite_path_deps_to_absolute, rewrite_workspace_members, strip_dev_dependencies,
    workspace_relative_members,
};

fn string_array(doc: &toml_edit::DocumentMut, key: &str) -> Vec<String> {
    doc["workspace"][key]
        .as_array()
        .unwrap()
        .iter()
        .map(|v| v.as_str().unwrap().to_string())
        .collect()
}

#[test]
fn rewrite_scopes_members_and_preserves_profile() {
    let original = r#"[workspace]
resolver = "2"
members = [
    "crates/modal-rust-sdk",
    "crates/modal-rust-runtime",
    "examples/add",
    "examples/burn-add",
]
default-members = [
    "crates/modal-rust-sdk",
    "crates/modal-rust-runtime",
    "examples/add",
]

# panic-capture invariant: keep unwind.
[profile.release]
panic = "unwind"
"#;
    let dirs = vec!["/ws/crates/modal-rust-runtime".to_string(), "/ws/examples/add".to_string()];
    let out = rewrite_workspace_members(original, "/ws", &dirs).unwrap();
    let doc: toml_edit::DocumentMut = out.parse().unwrap();
    let members = string_array(&doc, "members");
    assert_eq!(members, vec!["crates/modal-rust-runtime", "examples/add"], "members scoped to the closure");
    assert_eq!(string_array(&doc, "default-members"), vec!["crates/modal-rust-runtime", "examples/add"]);
    assert!(!members.iter().any(|m| m.contains("burn-add")));
    assert!(!members.iter().any(|m| m.contains("modal-rust-sdk")));
    assert_eq!(doc["profile"]["release"]["panic"].as_str(), Some("unwind"));
    assert_eq!(doc["workspace"]["resolver"].as_str(), Some("2"));
}

#[test]
fn rewrite_standalone_manifest_is_noop() {
    let original = "[package]\nname = \"modal-user-demo\"\nedition = \"2021\"\n\
                    [dependencies]\nmodal-rust = { path = \"/x/modal-rust\" }\n";
    let dirs = vec!["/tmp/modal-user-demo".to_string()];
    let out = rewrite_workspace_members(original, "/tmp/modal-user-demo", &dirs).unwrap();
    assert_eq!(out, original, "standalone manifest is returned byte-identical");
}

#[test]
fn rewrite_handles_manifest_without_default_members() {
    let original = "[workspace]\nmembers = [\"a\", \"b\"]\n";
    let dirs = vec!["/ws/a".to_string()];
    let out = rewrite_workspace_members(original, "/ws", &dirs).unwrap();
    let doc: toml_edit::DocumentMut = out.parse().unwrap();
    assert_eq!(string_array(&doc, "members"), vec!["a"]);
    assert!(doc["workspace"].get("default-members").is_none());
}

#[test]
fn rewrite_empties_exclude_and_rejects_bad_toml() {
    let original = "[workspace]\nmembers = [\"a\"]\nexclude = [\"x\"]\n";
    let out = rewrite_workspace_members(original, "/ws", &vec!["/ws/a".to_string()]).unwrap();
    let doc: toml_edit::DocumentMut = out.parse().unwrap();
    assert!(string_array(&doc, "exclude").is_empty());
    let err = rewrite_workspace_members("[workspace\n", "/ws", &vec![]).unwrap_err();
    assert!(err.starts_with("parse Cargo.toml: "), "{err}");
}

#[test]
fn workspace_relative_members_are_sorted_unique_and_under_the_root() {
    let dirs = vec![
        "/ws/examples/add".to_string(),
        "/ws".to_string(),
        "/elsewhere/x".to_string(),
        "/ws/crates/rt".to_string(),
        "/ws/examples/add".to_string(),
    ];
    assert_eq!(workspace_relative_members("/ws", &dirs), vec!["crates/rt".to_string(), "examples/add".to_string()]);
}

#[test]
fn strip_dev_dependencies_removes_table_and_keeps_the_rest() {
    let original = "\
[package]
name = \"modal-rust\"

[dependencies]
modal-rust-runtime = { path = \"../modal-rust-runtime\" }

[dev-dependencies]
example-add = { path = \"../../examples/add\" }
inventory = \"0.3\"

[build-dependencies]
some-build-dep = \"1\"
";
    let out = strip_dev_dependencies(original).unwrap().expect("dev-deps removed");
    let doc: toml_edit::DocumentMut = out.parse().unwrap();
    assert!(doc.get("dev-dependencies").is_none());
    assert!(!out.contains("examples/add"));
    assert!(doc.get("dependencies").is_some());
    assert!(out.contains("modal-rust-runtime"));
    assert!(out.contains("[build-dependencies]"));
    assert!(out.contains("some-build-dep"));
}

#[test]
fn strip_dev_dependencies_none_when_absent() {
    let original = "[package]\nname = \"x\"\n\n[dependencies]\nserde = \"1\"\n";
    assert!(strip_dev_dependencies(original).unwrap().is_none());
}

#[test]
fn strip_dev_dependencies_handles_target_cfg_table() {
    let original = "\
[package]
name = \"x\"

[target.'cfg(unix)'.dev-dependencies]
nix = \"0.27\"
";
    let out = strip_dev_dependencies(original).unwrap().expect("target dev-deps removed");
    assert!(!out.contains("dev-dependencies"));
    assert!(!out.contains("nix"));
}

#[test]
fn strip_dev_dependencies_reports_unparseable_text() {
    let err = strip_dev_dependencies("[package\nname = 1").unwrap_err();
    assert!(err.starts_with("parse Cargo.toml: "), "{err}");
}

#[test]
fn rewrite_out_of_closure_relative_path_dep_to_absolute() {
    // A standalone crate `myapp` depends on the facade by a relative path that
    // leaves the shadow closure {myapp}: it becomes the resolved absolute path.
    let manifest = "[package]\nname = \"myapp\"\n\n[dependencies]\n\
                    modal-rust = { path = \"../checkout/crates/modal-rust\" }\n\
                    serde = \"1\"\n";
    let resolutions = vec![("../checkout/crates/modal-rust".to_string(), "/tmp/t/checkout/crates/modal-rust".to_string())];
    let closure = vec!["/tmp/t/myapp".to_string()];
    let out = rewrite_path_deps_to_absolute(manifest, &resolutions, &closure).expect("the out-of-closure path-dep was rewritten");
    assert!(out.contains("/tmp/t/checkout/crates/modal-rust"), "{out}");
    assert!(!out.contains("../checkout"), "relative spec replaced: {out}");
    assert!(out.contains("serde = \"1\""), "version dep untouched: {out}");
}

#[test]
fn rewrite_leaves_in_closure_path_dep_relative() {
    let manifest = "[package]\nname = \"quickstart\"\n\n[dependencies]\n\
                    modal-rust = { path = \"../../crates/modal-rust\" }\n";
    let resolutions = vec![("../../crates/modal-rust".to_string(), "/tmp/t/crates/modal-rust".to_string())];
    let closure = vec!["/tmp/t/examples/quickstart".to_string(), "/tmp/t/crates/modal-rust/".to_string()];
    assert!(
        rewrite_path_deps_to_absolute(manifest, &resolutions, &closure).is_none(),
        "an in-closure path-dep is left untouched (no rewrite => None)"
    );
}

#[test]
fn rewrite_leaves_absolute_path_dep_and_no_path_deps_alone() {
    let manifest = "[package]\nname = \"x\"\n\n[dependencies]\nmodal-rust = { path = \"/tmp/t/app\" }\nserde = \"1\"\n";
    let resolutions = vec![("/tmp/t/app".to_string(), "/tmp/t/app".to_string())];
    assert!(rewrite_path_deps_to_absolute(manifest, &resolutions, &vec![]).is_none());
}

#[test]
fn rewrite_reaches_dotted_tables_and_target_cfg_tables() {
    let manifest = "[package]\nname = \"x\"\n\n[dev-dependencies.helper]\npath = \"../helper\"\n\n\
                    [target.'cfg(unix)'.build-dependencies]\nsys = { path = \"../sys\", version = \"1\" }\n";
    assert_eq!(dep_path_values(manifest), vec!["../helper".to_string(), "../sys".to_string()]);
    let resolutions = vec![
        ("../helper".to_string(), "/real/helper".to_string()),
        ("../sys".to_string(), "/real/sys".to_string()),
    ];
    let out = rewrite_path_deps_to_absolute(manifest, &resolutions, &vec![]).expect("rewritten");
    let doc: toml_edit::DocumentMut = out.parse().unwrap();
    assert_eq!(doc["dev-dependencies"]["helper"]["path"].as_str(), Some("/real/helper"));
    assert_eq!(doc["target"]["cfg(unix)"]["build-dependencies"]["sys"]["path"].as_str(), Some("/real/sys"));
    assert_eq!(doc["target"]["cfg(unix)"]["build-dependencies"]["sys"]["version"].as_str(), Some("1"));
    // Without a resolution nothing is rewritten.
    assert!(rewrite_path_deps_to_absolute(manifest, &vec![], &vec![]).is_none());
    // Unparseable text: nothing to rewrite, nothing to resolve.
    assert!(rewrite_path_deps_to_absolute("[x", &resolutions, &vec![]).is_none());
    assert!(dep_path_values("[x").is_empty());
}
