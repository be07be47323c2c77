use modal_rust::remote::{
    apply_function_image, choose_local_root, run_wrapper_config_env, sanitize_object_tag, web_endpoint_attr, web_server_attr, ImageOptions,
    ImageStep, RemoteConfig, CACHE_ARCHIVE_NAME, CACHE_MOUNT, WRAPPER_CALLABLE,
};
use base64::Engine;

#[test]
fn sanitize_object_tag_passes_rust_fn_names_and_maps_others() {
    assert_eq!(sanitize_object_tag("add"), "add");
    assert_eq!(sanitize_object_tag("add_gpu"), "add_gpu");
    assert_eq!(sanitize_object_tag("Train2"), "Train2");
    assert_eq!(sanitize_object_tag("my-fn.v2"), "my-fn.v2");
    assert_eq!(sanitize_object_tag("a b/c"), "a_b_c");
    assert_eq!(sanitize_object_tag(""), WRAPPER_CALLABLE);
}

#[test]
fn web_endpoint_attr_is_a_python_identifier_prefixed_web() {
    assert_eq!(web_endpoint_attr("add"), "web_add");
    assert_eq!(web_endpoint_attr("add_gpu"), "web_add_gpu");
    assert_eq!(web_endpoint_attr("my-fn.v2"), "web_my_fn_v2");
    assert_eq!(web_endpoint_attr("a b/c"), "web_a_b_c");
    assert_eq!(web_endpoint_attr(""), "web_");
}

#[test]
fn web_server_attr_is_a_python_identifier_prefixed_web_server() {
    assert_eq!(web_server_attr("serve"), "web_server_serve");
    assert_eq!(web_server_attr("my-srv.v1"), "web_server_my_srv_v1");
}

#[test]
fn sanitize_object_tag_maps_non_ascii_to_underscore() {
    assert_eq!(sanitize_object_tag("héllo"), "h_llo");
}

#[test]
fn wrapper_config_env_renders_base64_json() {
    let env = run_wrapper_config_env("example-add", true, "/mounted-src");
    let prefix = "ENV MODAL_RUST_RUN_CONFIG_JSON_B64=".to_string();
    let encoded = env.strip_prefix(&prefix).expect("config env command has expected prefix");
    let decoded = base64::engine::general_purpose::STANDARD.decode(encoded).expect("config env is base64");
    let value: serde_json::Value = serde_json::from_slice(&decoded).expect("config env is JSON");
    assert_eq!(value["package"], "example-add");
    assert_eq!(value["cache"], true);
    assert_eq!(value["remote_src"], "/mounted-src");
    assert_eq!(value["cache_mount"], CACHE_MOUNT);
    assert_eq!(value["cache_archive_name"], CACHE_ARCHIVE_NAME);
    let archive_path = format!("{CACHE_MOUNT}/{CACHE_ARCHIVE_NAME}");
    assert_eq!(archive_path, "/cache/cache.tar.zst");
}

#[test]
fn wrapper_config_json_is_compact_and_ordered() {
    let env = run_wrapper_config_env("p\"q", false, "/s");
    let encoded = env.strip_prefix("ENV MODAL_RUST_RUN_CONFIG_JSON_B64=").unwrap();
    let decoded = base64::engine::general_purpose::STANDARD.decode(encoded).unwrap();
    assert_eq!(
        String::from_utf8(decoded).unwrap(),
        r#"{"package":"p\"q","cache":false,"remote_src":"/s","cache_mount":"/cache","cache_archive_name":"cache.tar.zst"}"#
    );
}

fn base_config() -> RemoteConfig {
    RemoteConfig::new("/ws".to_string(), "app".to_string(), "rust:1-slim".to_string(), false, true)
}

#[test]
fn default_config_has_expected_shape() {
    let cfg = base_config();
    assert_eq!(cfg.remote_src, "/src");
    assert_eq!(cfg.base_image, "rust:1-slim");
    assert_eq!(cfg.timeout_secs, 1800);
    assert!(cfg.use_cargo_scoping, "cargo scoping is the default");
    assert_eq!(cfg.modalignore_name, ".modalignore");
    assert!(!cfg.install_rust, "install_rust defaults off");
    assert!(cfg.cache, "cache defaults ON");
    assert!(cfg.options.secrets.is_empty(), "secrets default empty");
    assert!(cfg.options.volumes.is_empty(), "volumes default empty");
}

#[test]
fn with_detected_package_precedence() {
    let cfg = base_config().with_detected_package(None, Some("my-user-crate"));
    assert_eq!(cfg.package, "my-user-crate");
    let cfg = base_config().with_detected_package(None, None);
    assert_eq!(cfg.package, "app");
    let forced = RemoteConfig { package: "forced-pkg".to_string(), ..base_config() };
    let cfg = forced.with_detected_package(Some("forced-pkg"), Some("my-user-crate"));
    assert_eq!(cfg.package, "forced-pkg", "MODAL_RUST_PACKAGE still overrides auto-detect");
}

#[test]
fn image_step_constructors_keep_items_in_order() {
    assert_eq!(ImageStep::apt(&["a", "b"]), ImageStep::Apt(vec!["a".to_string(), "b".to_string()]));
    assert_eq!(ImageStep::pip(&["fastapi"]), ImageStep::Pip(vec!["fastapi".to_string()]));
    assert_eq!(ImageStep::run(&["echo ok"]), ImageStep::Run(vec!["echo ok".to_string()]));
}

#[test]
fn apply_function_image_folds_base_install_rust_and_prepends_steps() {
    let base = RemoteConfig {
        image_steps: vec![ImageStep::run(&["echo path"])],
        ..base_config()
    };
    let image = ImageOptions {
        base: Some("nvidia/cuda:12.6.3-devel-ubuntu22.04".to_string()),
        install_rust: Some(true),
        apt: vec!["libssl-dev".to_string()],
        pip: vec!["numpy".to_string()],
        run: vec![],
    };
    let folded = apply_function_image(base, Some(image));
    assert_eq!(folded.base_image, "nvidia/cuda:12.6.3-devel-ubuntu22.04");
    assert!(folded.install_rust);
    assert_eq!(
        folded.image_steps,
        vec![ImageStep::apt(&["libssl-dev"]), ImageStep::pip(&["numpy"]), ImageStep::run(&["echo path"])]
    );
}

#[test]
fn apply_function_image_is_a_noop_for_none_and_empty_spec() {
    let base = RemoteConfig { image_steps: vec![ImageStep::pip(&["x"])], ..base_config() };
    let none = apply_function_image(base.clone(), None);
    assert_eq!(none.base_image, base.base_image);
    assert_eq!(none.install_rust, base.install_rust);
    assert_eq!(none.image_steps, base.image_steps);
    let empty = apply_function_image(base.clone(), Some(ImageOptions::default()));
    assert_eq!(empty.base_image, base.base_image);
    assert_eq!(empty.install_rust, base.install_rust);
    assert_eq!(empty.image_steps, base.image_steps);
}

#[test]
fn image_options_steps_skip_empty_lists() {
    let o = ImageOptions { run: vec!["make".to_string()], ..ImageOptions::default() };
    assert_eq!(o.steps(), vec![ImageStep::run(&["make"])]);
    assert!(ImageOptions::default().steps().is_empty());
}

#[test]
fn local_root_prefers_env_then_workspace_then_nearest_manifest() {
    let ancestors = vec![
        ("/ws/examples/add".to_string(), Some("[package]\nname = \"add\"\n".to_string())),
        ("/ws/examples".to_string(), None),
        ("/ws".to_string(), Some("[workspace]\nmembers = []\n".to_string())),
    ];
    assert_eq!(choose_local_root(Some("/explicit"), &ancestors, "/ws/examples/add"), "/explicit");
    assert_eq!(choose_local_root(None, &ancestors, "/ws/examples/add"), "/ws");
    let no_ws = vec![("/a/b".to_string(), None), ("/a".to_string(), Some("[package]\n".to_string()))];
    assert_eq!(choose_local_root(None, &no_ws, "/a/b"), "/a");
    assert_eq!(choose_local_root(None, &vec![("/x".to_string(), None)], "/x"), "/x");
}

#[test]
fn remote_config_secrets_volumes_are_settable_non_macro() {
    let cfg = RemoteConfig {
        options: modal_rust::config::FunctionOptions {
            secrets: vec!["api-creds".to_string()],
            volumes: vec![("/data".to_string(), "my-vol".to_string())],
            ..modal_rust::config::FunctionOptions::default()
        },
        ..base_config()
    };
    assert_eq!(cfg.options.secrets, vec!["api-creds".to_string()]);
    assert_eq!(cfg.options.volumes, vec![("/data".to_string(), "my-vol".to_string())]);
    assert_ne!(cfg.options.volumes[0].0, CACHE_MOUNT);
    assert_eq!(cfg.package, "app");
}
