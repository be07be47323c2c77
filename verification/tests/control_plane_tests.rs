use modal_rust::config::FunctionOptions;
use modal_rust::control_plane::{
    build_deploy_dep_layer_spec, build_deploy_top_layer_spec, build_function_spec, build_image_spec, deploy_boundary,
    deploy_gates, deploy_runner_build_command, deployed_endpoint_urls, function_id_for, inline_secret_name,
    deploy_entrypoints, deploy_entrypoints_for_dump, ensure_function, log_lookup, resolve_function, reject_cache_collision, run_boundary, run_inputs, AttachedResources, Created, Entrypoint, ImageOp,
    ImagePlan, ProvisionInputs, ProvisionPlan, Provisioned, Published, RetryPlan, SourceInputs,
};
use modal_rust::deploy::{DeployedApp, DEPLOY_WRAPPER_CALLABLE, DEPLOY_WRAPPER_MODULE};
use modal_rust::dump::{RecordedCall, RecordingControlPlane};
use modal_rust::error::Error;
use modal_rust::remote::{RemoteConfig, CACHE_MOUNT, WRAPPER_CALLABLE, WRAPPER_MODULE};

const STATIC_WRAPPER: &str = "def handler(req):\n    return req\n";

fn inputs(entrypoints: Vec<Entrypoint>, base_image: &str) -> ProvisionInputs {
    ProvisionInputs {
        app_name: "app".to_string(),
        app_id: Some("ap-1".to_string()),
        source: SourceInputs {
            local_root: "/ws".to_string(),
            package: "example-add".to_string(),
            use_cargo_scoping: false,
            modalignore_name: ".modalignore".to_string(),
            remote_src: "/src".to_string(),
        },
        base_image: base_image.to_string(),
        install_rust: false,
        image_steps: vec![],
        cache: true,
        cache_target: true,
        snapshot_best_effort: false,
        dep_prebuild: false,
        run_wrapper_src: "run wrapper".to_string(),
        deploy_wrapper_src: STATIC_WRAPPER.to_string(),
        entrypoints,
    }
}

fn ep(name: &str, options: FunctionOptions, timeout_secs: u32) -> Entrypoint {
    Entrypoint { name: name.to_string(), options, timeout_secs }
}

fn resources(cache_vol_id: Option<&str>) -> AttachedResources {
    AttachedResources {
        client_mount_id: "mo-client".to_string(),
        source_mount_id: "mo-source".to_string(),
        cache_vol_id: cache_vol_id.map(str::to_string),
        secret_ids: vec![],
        user_volume_mounts: vec![],
    }
}

fn commands(plan: &ImagePlan) -> Vec<String> {
    plan.ops
        .iter()
        .filter_map(|op| match op {
            ImageOp::Command(c) => Some(c.clone()),
            _ => None,
        })
        .collect()
}

fn wrapper_modules(plan: &ImagePlan) -> Vec<(String, String)> {
    plan.ops
        .iter()
        .filter_map(|op| match op {
            ImageOp::WrapperModule(m, s) => Some((m.clone(), s.clone())),
            _ => None,
        })
        .collect()
}

#[test]
fn run_image_spec_provisions_python_and_has_no_cargo_build() {
    let i = inputs(vec![ep("add", FunctionOptions::default(), 1800)], "rust:1-slim");
    let spec = build_image_spec(&run_boundary(), &i, "mo-py-standalone");
    assert_eq!(spec.registry, "rust:1-slim");
    assert_eq!(spec.ops[0], ImageOp::AddPython("3.12".to_string()));
    assert_eq!(spec.ops[1], ImageOp::PythonStandaloneMount("mo-py-standalone".to_string()));
    assert!(!spec.ops.contains(&ImageOp::RustToolchain), "default base layer has no rust install");
    assert!(
        !commands(&spec).iter().any(|c| c.contains("cargo build")),
        "RUN image must not carry a cargo build line"
    );
    assert_eq!(wrapper_modules(&spec), vec![(WRAPPER_MODULE.to_string(), "run wrapper".to_string())]);
}

#[test]
fn run_image_spec_is_exact_with_the_cache_on() {
    let i = inputs(vec![ep("add", FunctionOptions::default(), 1800)], "rust:1-slim");
    let spec = build_image_spec(&run_boundary(), &i, "mo-py");
    let cfg = modal_rust::remote::run_wrapper_config_env("example-add", true, "/src");
    assert_eq!(
        spec.ops,
        vec![
            ImageOp::AddPython("3.12".to_string()),
            ImageOp::PythonStandaloneMount("mo-py".to_string()),
            ImageOp::Command(
                "RUN apt-get update && apt-get install -y --no-install-recommends zstd && rm -rf /var/lib/apt/lists/*"
                    .to_string()
            ),
            ImageOp::WrapperModule(WRAPPER_MODULE.to_string(), "run wrapper".to_string()),
            ImageOp::Command(cfg),
            ImageOp::Command("ENV RUST_BACKTRACE=1".to_string()),
            ImageOp::Command("ENTRYPOINT []".to_string()),
        ]
    );
    // Archiving `target/` switched off is baked into the image.
    let mut off = i.clone();
    off.cache_target = false;
    let spec = build_image_spec(&run_boundary(), &off, "mo-py");
    assert!(commands(&spec).contains(&"ENV MODAL_RUST_CACHE_TARGET=0".to_string()));
    // Cache off: no zstd and no opt-out.
    let mut nocache = i;
    nocache.cache = false;
    let spec = build_image_spec(&run_boundary(), &nocache, "mo-py");
    assert!(!commands(&spec).iter().any(|c| c.contains("zstd") || c.contains("CACHE_TARGET")));
}

#[test]
fn deploy_base_layer_installs_rust_for_cuda_base() {
    let mut i = inputs(vec![ep("add", FunctionOptions::default(), 300)], "nvidia/cuda:12.6.3-devel-ubuntu22.04");
    i.install_rust = true;
    let base = build_image_spec(&deploy_boundary(), &i, "mo-py-standalone");
    assert_eq!(base.registry, "nvidia/cuda:12.6.3-devel-ubuntu22.04");
    assert_eq!(base.ops[0], ImageOp::AddPython("3.12".to_string()));
    assert!(base.ops.contains(&ImageOp::RustToolchain), "CUDA base layer installs rust");
    assert!(wrapper_modules(&base).is_empty(), "the deploy base layer bakes no wrapper");
}

#[test]
fn deploy_top_layer_rides_source_on_the_build_context() {
    let spec = build_deploy_top_layer_spec("im-layer1", "mo-deploy-src", "example-add", false, false, STATIC_WRAPPER, &[]);
    assert_eq!(spec.ops[0], ImageOp::BaseImage("im-layer1".to_string()));
    assert!(spec.ops.contains(&ImageOp::ContextMount("mo-deploy-src".to_string())));
    let cmds = commands(&spec);
    assert!(cmds.iter().any(|c| c.contains("cargo build --release -p example-add --bin modal_runner")));
    assert!(cmds.iter().any(|c| c.contains("cp /app/src/target/release/modal_runner /app/modal_runner")));
    assert!(cmds.iter().any(|c| c.contains("COPY . /")));
    assert!(!spec.ops.iter().any(|o| matches!(o, ImageOp::AddPython(_) | ImageOp::Step(_))));
    assert!(
        !cmds.iter().any(|c| c.contains("MODAL_RUST_SNAPSHOT_PRIME")),
        "default deploy image must not carry the snapshot-prime ENV"
    );
}

#[test]
fn deploy_top_layer_bakes_snapshot_prime_env_when_enabled() {
    let spec = build_deploy_top_layer_spec("im-layer1", "mo-deploy-src", "example-add", true, false, STATIC_WRAPPER, &[]);
    let cmds = commands(&spec);
    assert!(cmds.iter().any(|c| c == "ENV MODAL_RUST_SNAPSHOT_PRIME=1"), "got: {cmds:?}");
    assert!(cmds.iter().any(|c| c == "ENV RUST_BACKTRACE=1"));
    assert!(
        !cmds.iter().any(|c| c.contains("MODAL_RUST_SNAPSHOT_BEST_EFFORT")),
        "strict default must NOT bake the best-effort ENV"
    );
}

#[test]
fn deploy_top_layer_bakes_best_effort_env_only_on_opt_in() {
    let spec = build_deploy_top_layer_spec("im-layer1", "mo-deploy-src", "example-add", true, true, STATIC_WRAPPER, &[]);
    let cmds = commands(&spec);
    assert!(cmds.iter().any(|c| c == "ENV MODAL_RUST_SNAPSHOT_PRIME=1"));
    assert!(cmds.iter().any(|c| c == "ENV MODAL_RUST_SNAPSHOT_BEST_EFFORT=1"));
    let spec = build_deploy_top_layer_spec("im-layer1", "mo-deploy-src", "example-add", false, true, STATIC_WRAPPER, &[]);
    assert!(!commands(&spec).iter().any(|c| c.contains("MODAL_RUST_SNAPSHOT")));
}

#[test]
fn deploy_top_layer_bakes_plain_wrapper_when_no_endpoint() {
    let spec = build_deploy_top_layer_spec("im-layer1", "mo-deploy-src", "example-add", false, false, STATIC_WRAPPER, &[]);
    let modules = wrapper_modules(&spec);
    assert_eq!(modules.len(), 1);
    let (module, src) = &modules[0];
    assert_eq!(module, DEPLOY_WRAPPER_MODULE);
    assert_eq!(src, STATIC_WRAPPER, "no-endpoint deploy must bake the static wrapper source byte-identically");
}

#[test]
fn deploy_top_layer_appends_web_adapter_lines_per_endpoint() {
    let spec = build_deploy_top_layer_spec(
        "im-layer1",
        "mo-deploy-src",
        "example-add",
        false,
        false,
        STATIC_WRAPPER,
        &["predict", "my-fn.v2"],
    );
    let modules = wrapper_modules(&spec);
    let (module, src) = &modules[0];
    assert_eq!(module, DEPLOY_WRAPPER_MODULE);
    assert!(src.starts_with(STATIC_WRAPPER), "the static wrapper source must come first, unmodified");
    assert!(src.contains("\nweb_predict = _make_web_handler(\"predict\")\n"));
    assert!(src.contains("\nweb_my_fn_v2 = _make_web_handler(\"my-fn.v2\")\n"));
}

#[test]
fn deploy_dep_layer_builds_the_stub_context_only() {
    let spec = build_deploy_dep_layer_spec("im-base", "mo-stub", "example-add");
    assert_eq!(spec.registry, "");
    assert_eq!(
        spec.ops,
        vec![
            ImageOp::BaseImage("im-base".to_string()),
            ImageOp::ContextMount("mo-stub".to_string()),
            ImageOp::Command("COPY . /".to_string()),
            ImageOp::Command(deploy_runner_build_command("example-add")),
            ImageOp::Command("ENTRYPOINT []".to_string()),
        ]
    );
    assert_eq!(
        deploy_runner_build_command("example-add"),
        "RUN cd /app/src && cargo build --release -p example-add --bin modal_runner"
    );
}

#[test]
fn run_function_spec_attaches_client_and_source_mounts() {
    let e = ep("add", FunctionOptions::default(), 1800);
    let spec = build_function_spec(&run_boundary(), &e, "im-1", &resources(Some("vo-1")));
    assert_eq!(spec.module, WRAPPER_MODULE);
    assert_eq!(spec.callable, WRAPPER_CALLABLE);
    assert_eq!(spec.app_function_name, "add");
    assert_eq!(spec.mount_ids, vec!["mo-client", "mo-source"]);
    assert_eq!(spec.timeout_secs, 1800);
    assert_eq!(spec.volume_mounts.len(), 1);
    assert_eq!(spec.volume_mounts[0].1, CACHE_MOUNT);
    assert_eq!(spec.volume_mounts[0].0, "vo-1");
}

#[test]
fn deploy_function_spec_attaches_client_mount_only() {
    let e = ep("add", FunctionOptions { gpu: Some("A100".to_string()), ..FunctionOptions::default() }, 900);
    let spec = build_function_spec(&deploy_boundary(), &e, "im-1", &resources(None));
    assert_eq!(spec.module, DEPLOY_WRAPPER_MODULE);
    assert_eq!(spec.callable, DEPLOY_WRAPPER_CALLABLE);
    assert_eq!(spec.mount_ids, vec!["mo-client"], "deploy attaches the client mount ONLY");
    assert!(spec.volume_mounts.is_empty(), "no cargo cache on deploy");
    assert!(spec.webhook.is_none(), "non-endpoint deploy has no webhook");
    assert_eq!(spec.gpu.as_deref(), Some("A100"));
}

#[test]
fn deploy_endpoint_sets_webhook_and_per_endpoint_adapter_callable() {
    let e = ep(
        "add",
        FunctionOptions {
            webhook_method: Some("POST".to_string()),
            webhook_requires_proxy_auth: true,
            ..FunctionOptions::default()
        },
        900,
    );
    let spec = build_function_spec(&deploy_boundary(), &e, "im-1", &resources(None));
    let webhook = spec.webhook.as_ref().expect("DEPLOY endpoint sets webhook");
    assert_eq!(webhook.method, "POST");
    assert!(webhook.requires_proxy_auth, "proxy-auth opt-in rides through");
    assert_eq!(spec.module, DEPLOY_WRAPPER_MODULE);
    assert_eq!(spec.callable, "web_add");
    assert_eq!(spec.app_function_name, "add", "object TAG stays the entrypoint");
}

#[test]
fn run_endpoint_suppresses_webhook_and_stays_wire_identical() {
    let options = FunctionOptions {
        webhook_method: Some("POST".to_string()),
        webhook_requires_proxy_auth: true,
        ..FunctionOptions::default()
    };
    let e = ep("add", options, 1800);
    let spec = build_function_spec(&run_boundary(), &e, "im-1", &resources(None));
    assert!(spec.webhook.is_none(), "RUN suppresses the webhook even when decorated");
    assert_eq!(spec.module, WRAPPER_MODULE);
    assert_eq!(spec.callable, WRAPPER_CALLABLE);
    assert_eq!(spec.app_function_name, "add");
    let plain = build_function_spec(&run_boundary(), &ep("add", FunctionOptions::default(), 1800), "im-1", &resources(None));
    assert_eq!(spec, plain, "a decorated run is wire-identical to a plain one");
}

#[test]
fn deploy_web_server_sets_web_server_webhook_and_launcher_callable() {
    let e = ep(
        "serve",
        FunctionOptions {
            web_server_port: Some(3000),
            web_server_startup_timeout: Some(30),
            ..FunctionOptions::default()
        },
        1800,
    );
    let spec = build_function_spec(&deploy_boundary(), &e, "im-1", &resources(None));
    let webhook = spec.webhook.as_ref().expect("DEPLOY web_server sets webhook");
    assert_eq!(webhook.web_server_port, Some(3000));
    assert_eq!(webhook.web_server_startup_timeout, Some(30));
    assert!(webhook.method.is_empty(), "a raw port proxy has no per-request HTTP method");
    assert_eq!(spec.module, DEPLOY_WRAPPER_MODULE);
    assert_eq!(spec.callable, "web_server_serve");
    assert_eq!(spec.app_function_name, "serve");
}

#[test]
fn run_web_server_suppresses_webhook_and_stays_wire_identical() {
    let e = ep(
        "serve",
        FunctionOptions {
            web_server_port: Some(3000),
            web_server_startup_timeout: Some(30),
            ..FunctionOptions::default()
        },
        1800,
    );
    let spec = build_function_spec(&run_boundary(), &e, "im-1", &resources(None));
    assert!(spec.webhook.is_none());
    assert_eq!(spec.module, WRAPPER_MODULE);
    assert_eq!(spec.callable, WRAPPER_CALLABLE);
    assert_eq!(spec.app_function_name, "serve");
}

#[test]
fn function_spec_prefers_the_struct_retry_policy_and_orders_volumes() {
    let e = ep(
        "my-fn.v2",
        FunctionOptions {
            retries: Some(3),
            retries_spec: Some("max_retries=5".to_string()),
            enable_memory_snapshot: true,
            ..FunctionOptions::default()
        },
        60,
    );
    let mut res = resources(Some("vo-cache"));
    res.user_volume_mounts = vec![("vo-user".to_string(), "/data".to_string())];
    res.secret_ids = vec!["st-1".to_string(), "st-2".to_string()];
    let run = build_function_spec(&run_boundary(), &e, "im-1", &res);
    assert_eq!(run.retry, RetryPlan::Spec("max_retries=5".to_string()));
    assert_eq!(
        run.volume_mounts,
        vec![("vo-cache".to_string(), "/cache".to_string()), ("vo-user".to_string(), "/data".to_string())]
    );
    assert_eq!(run.secret_ids, vec!["st-1", "st-2"]);
    assert!(!run.memory_snapshot, "snapshots are deploy-only");
    assert_eq!(run.app_function_name, "my-fn.v2");
    let deployed = build_function_spec(&deploy_boundary(), &e, "im-1", &res);
    assert!(deployed.memory_snapshot);
    let bare = build_function_spec(
        &run_boundary(),
        &ep("f", FunctionOptions { retries: Some(3), ..FunctionOptions::default() }, 60),
        "im-1",
        &res,
    );
    assert_eq!(bare.retry, RetryPlan::Count(Some(3)));
}

#[test]
fn published_accumulates_union_for_set_state_publish() {
    let mut p = Published::new();
    let created = |f: &str, d: &str, url: &str| Created {
        function_id: f.to_string(),
        definition_id: d.to_string(),
        web_url: url.to_string(),
    };
    p.record("add", &created("fu-1", "de-1", ""));
    assert_eq!(log_lookup(&p.function_ids, "add"), Some("fu-1".to_string()));
    assert_eq!(log_lookup(&p.definition_ids, "fu-1"), Some("de-1".to_string()));
    assert!(p.endpoint_urls.is_empty());
    p.record("add_gpu", &created("fu-2", "de-2", ""));
    assert_eq!(p.function_ids.len(), 2);
    assert_eq!(log_lookup(&p.function_ids, "add"), Some("fu-1".to_string()));
    assert_eq!(log_lookup(&p.function_ids, "add_gpu"), Some("fu-2".to_string()));
    assert_eq!(p.definition_ids.len(), 2);
    p.record("web_greet", &created("fu-3", "", "https://ws--app-web-greet.modal.run"));
    assert_eq!(
        log_lookup(&p.endpoint_urls, "web_greet").as_deref(),
        Some("https://ws--app-web-greet.modal.run")
    );
    assert_eq!(p.definition_ids.len(), 2);
}

#[test]
fn published_record_again_under_a_tag_replaces_only_that_tag() {
    let mut p = Published::new();
    let c = |f: &str| Created { function_id: f.to_string(), definition_id: String::new(), web_url: String::new() };
    p.record("add", &c("fu-1"));
    p.record("sub", &c("fu-2"));
    p.record("add", &c("fu-3"));
    assert_eq!(log_lookup(&p.function_ids, "add"), Some("fu-3".to_string()));
    assert_eq!(log_lookup(&p.function_ids, "sub"), Some("fu-2".to_string()));
    assert_eq!(log_lookup(&p.function_ids, "mul"), None);
    assert_eq!(function_id_for(&p, "add"), Ok("fu-3".to_string()));
    assert_eq!(
        function_id_for(&p, "mul"),
        Err(Error::Config("provision did not yield a function id for \"mul\"".to_string()))
    );
}

#[test]
fn deployed_endpoint_urls_pairs_names_with_served_urls_in_plan_order() {
    let mut p = Published::new();
    p.record(
        "my_fn",
        &Created { function_id: "fu-1".to_string(), definition_id: String::new(), web_url: "https://a".to_string() },
    );
    p.record("plain", &Created { function_id: "fu-2".to_string(), definition_id: String::new(), web_url: String::new() });
    let plan = vec![ep("plain", FunctionOptions::default(), 1), ep("my fn", FunctionOptions::default(), 1)];
    assert_eq!(deployed_endpoint_urls(&plan, &p), vec![("my fn".to_string(), "https://a".to_string())]);
}

#[test]
fn reject_cache_collision_only_when_cache_on_and_path_matches() {
    assert!(reject_cache_collision(true, CACHE_MOUNT).is_err());
    assert!(reject_cache_collision(true, "/data").is_ok());
    assert!(reject_cache_collision(false, CACHE_MOUNT).is_ok());
}

#[test]
fn run_plan_needs_an_entrypoint_and_deploy_takes_them_all() {
    assert_eq!(run_boundary().plan(&vec![ep("a", FunctionOptions::default(), 1)]), Ok(ProvisionPlan::Single));
    assert_eq!(
        run_boundary().plan(&vec![]),
        Err(Error::Config("RUN provision requires exactly one entrypoint".to_string()))
    );
    assert_eq!(deploy_boundary().plan(&vec![]), Ok(ProvisionPlan::Many));
}

#[test]
fn deploy_gates_collect_prime_endpoints_and_web_servers() {
    let eps = vec![
        ep("a", FunctionOptions::default(), 1),
        ep("b", FunctionOptions { webhook_method: Some("GET".to_string()), ..FunctionOptions::default() }, 1),
        ep(
            "c",
            FunctionOptions {
                webhook_method: Some("GET".to_string()),
                web_server_port: Some(8000),
                enable_memory_snapshot: true,
                ..FunctionOptions::default()
            },
            1,
        ),
    ];
    let g = deploy_gates(&eps);
    assert!(g.bake_snapshot_prime);
    assert_eq!(g.endpoint_entrypoints, vec!["b".to_string()]);
    assert_eq!(g.web_server_entrypoints, vec![("c".to_string(), 8000)]);
    let g = deploy_gates(&vec![ep("a", FunctionOptions::default(), 1)]);
    assert!(!g.bake_snapshot_prime);
    assert!(g.endpoint_entrypoints.is_empty());
}

#[test]
fn inline_secret_name_is_deterministic() {
    assert_eq!(inline_secret_name("app", "add"), "modal-rust-inline-env-app-add");
}

#[test]
fn run_inputs_carry_the_entrypoint_overrides() {
    let mut cfg = RemoteConfig::new("/ws".to_string(), "example-add".to_string(), "rust:1-slim".to_string(), false, true);
    cfg.options.timeout_secs = Some(60);
    cfg.options.cache = Some(false);
    let i = run_inputs("app", "ap-1", "add", &cfg, true, "run", "deploy");
    assert_eq!(i.app_id.as_deref(), Some("ap-1"));
    assert_eq!(i.entrypoints.len(), 1);
    assert_eq!(i.entrypoints[0].name, "add");
    assert_eq!(i.entrypoints[0].timeout_secs, 60);
    assert!(!i.cache, "the entrypoint's cache choice wins");
    let cfg = RemoteConfig::new("/ws".to_string(), "example-add".to_string(), "rust:1-slim".to_string(), false, true);
    let i = run_inputs("app", "ap-1", "add", &cfg, true, "run", "deploy");
    assert_eq!(i.entrypoints[0].timeout_secs, 1800);
    assert!(i.cache);
}

#[test]
fn deployed_app_maps_endpoint_urls_back_to_names_in_name_order() {
    let mut p = Published::new();
    let c = |f: &str, url: &str| Created { function_id: f.to_string(), definition_id: String::new(), web_url: url.to_string() };
    p.record("zeta", &c("fu-1", "https://z"));
    p.record("my_fn", &c("fu-2", "https://m"));
    p.record("plain", &c("fu-3", ""));
    let plan = vec![
        ep("zeta", FunctionOptions::default(), 1),
        ep("plain", FunctionOptions::default(), 1),
        ep("my fn", FunctionOptions::default(), 1),
    ];
    let provisioned = Provisioned { image_id: "im-2".to_string(), publish_url: "https://app".to_string(), dep_layer: false };
    let app = DeployedApp::from_provisioned("app", "fu-1".to_string(), provisioned, &plan, &p);
    assert_eq!(app.name, "app");
    assert_eq!(app.function_id, "fu-1");
    assert_eq!(app.image_id, "im-2");
    assert_eq!(app.url, "https://app");
    assert_eq!(
        app.endpoint_urls,
        vec![("my fn".to_string(), "https://m".to_string()), ("zeta".to_string(), "https://z".to_string())]
    );
}

#[test]
fn ensure_function_over_the_recorder_returns_the_created_id_and_threads_the_union() {
    let cfg = RemoteConfig::new("/ws".to_string(), "example-add".to_string(), "rust:1-slim".to_string(), false, true);
    let mut cp = RecordingControlPlane::new();
    let mut published = Published::new();
    let id = ensure_function(&mut cp, "ap-1", "app", "add", &cfg, true, "run", "deploy", &mut published).unwrap();
    assert_eq!(id, "fu-1");
    assert_eq!(log_lookup(&published.function_ids, "add"), Some("fu-1".to_string()));
    let id = ensure_function(&mut cp, "ap-1", "app", "mul", &cfg, true, "run", "deploy", &mut published).unwrap();
    assert_eq!(id, "fu-1");
    assert_eq!(log_lookup(&published.function_ids, "add"), Some("fu-1".to_string()));
    assert_eq!(log_lookup(&published.function_ids, "mul"), Some("fu-1".to_string()));
    assert!(matches!(cp.requests[0], RecordedCall::AppCreate { .. }));
}

#[test]
fn ensure_function_refuses_a_user_volume_at_the_cache_path() {
    let mut cfg = RemoteConfig::new("/ws".to_string(), "example-add".to_string(), "rust:1-slim".to_string(), false, true);
    cfg.options.volumes = vec![(CACHE_MOUNT.to_string(), "vol".to_string())];
    let mut cp = RecordingControlPlane::new();
    let mut published = Published::new();
    match ensure_function(&mut cp, "ap-1", "app", "add", &cfg, true, "run", "deploy", &mut published) {
        Err(Error::Config(m)) => assert!(m.contains("cache")),
        other => panic!("expected a config error, got {other:?}"),
    }
}

#[test]
fn deploy_entrypoints_take_the_configs_else_the_registered_names() {
    let configs = vec![("a".to_string(), FunctionOptions { gpu: Some("T4".to_string()), ..FunctionOptions::default() })];
    let names = vec!["x".to_string(), "y".to_string()];
    let eps = deploy_entrypoints(&configs, &names);
    assert_eq!(eps.len(), 1);
    assert_eq!(eps[0].name, "a");
    assert_eq!(eps[0].options.gpu.as_deref(), Some("T4"));
    let eps = deploy_entrypoints(&vec![], &names);
    assert_eq!(eps.iter().map(|e| e.name.clone()).collect::<Vec<_>>(), names);
    assert_eq!(eps[1].options, FunctionOptions::default());
    assert!(deploy_entrypoints(&vec![], &vec![]).is_empty());
}

#[test]
fn deploy_entrypoints_for_dump_fall_back_to_the_shared_callable() {
    let mut cfg = modal_rust::deploy::DeployConfig::for_app(
        "app".to_string(),
        RemoteConfig::new("/ws".to_string(), "example-add".to_string(), "rust:1-slim".to_string(), false, true),
        false,
    );
    cfg.options.gpu = Some("A100".to_string());
    let eps = deploy_entrypoints_for_dump(&vec![], &vec![], &cfg);
    assert_eq!(eps.len(), 1);
    assert_eq!(eps[0].name, DEPLOY_WRAPPER_CALLABLE);
    assert_eq!(eps[0].options.gpu.as_deref(), Some("A100"));
    let eps = deploy_entrypoints_for_dump(&vec![], &vec!["add".to_string()], &cfg);
    assert_eq!(eps[0].name, "add");
    assert_eq!(eps[0].options, FunctionOptions::default());
}

#[test]
fn resolve_function_memoizes_per_entrypoint_and_effective_options() {
    let cfg = RemoteConfig::new("/ws".to_string(), "example-add".to_string(), "rust:1-slim".to_string(), false, true);
    let configs = vec![("add".to_string(), FunctionOptions { timeout_secs: Some(60), ..FunctionOptions::default() })];
    let mut cp = RecordingControlPlane::new();
    let mut memo: Vec<(String, FunctionOptions, String)> = Vec::new();
    let mut published = Published::new();
    let (id, deadline) =
        resolve_function(&mut cp, &mut memo, "ap-1", "app", "add", &configs, &cfg, true, "run", "deploy", &mut published)
            .unwrap();
    assert_eq!(id, "fu-1");
    assert_eq!(deadline, 180, "the entrypoint's timeout plus two minutes");
    assert_eq!(memo.len(), 1);
    assert_eq!(memo[0].1.cache, Some(true), "the run's cache made explicit");
    assert_eq!(memo[0].1.timeout_secs, Some(60));
    let sent = cp.requests.len();
    let again =
        resolve_function(&mut cp, &mut memo, "ap-1", "app", "add", &configs, &cfg, true, "run", "deploy", &mut published)
            .unwrap();
    assert_eq!(again, (id, 180));
    assert_eq!(cp.requests.len(), sent, "a memoized function sends nothing");
    let (_, d2) =
        resolve_function(&mut cp, &mut memo, "ap-1", "app", "mul", &configs, &cfg, true, "run", "deploy", &mut published)
            .unwrap();
    assert_eq!(d2, 1800 + 120, "no decorator config: the run's timeout");
    assert_eq!(memo.len(), 2);
    assert!(cp.requests.len() > sent);
}

fn manifest_configs(entries: Vec<(&str, modal_rust::config::FunctionConfig)>) -> Vec<(String, FunctionOptions)> {
    FunctionOptions::by_name(entries.into_iter().map(|(n, c)| (n.to_string(), FunctionOptions::from_config(&c))).collect())
}

#[test]
fn deploy_publishes_distinct_function_per_divergent_entrypoint() {
    let configs = manifest_configs(vec![
        ("cpu", modal_rust::config::FunctionConfig::default()),
        (
            "gpu",
            modal_rust::config::FunctionConfig {
                gpu: Some("T4"),
                timeout_secs: Some(1800),
                ..modal_rust::config::FunctionConfig::default()
            },
        ),
    ]);
    let plan = deploy_entrypoints(&configs, &vec![]);
    assert_eq!(plan.len(), 2, "one deploy function per entrypoint");
    let cpu = plan.iter().find(|e| e.name == "cpu").expect("cpu in plan");
    let gpu = plan.iter().find(|e| e.name == "gpu").expect("gpu in plan");
    assert_eq!(cpu.options.gpu, None);
    assert_eq!(cpu.options.timeout_secs, None);
    assert_eq!(gpu.options.gpu.as_deref(), Some("T4"));
    assert_eq!(gpu.options.timeout_secs, Some(1800));
}

#[test]
fn deploy_plan_carries_identical_per_entrypoint_configs() {
    let cfg = modal_rust::config::FunctionConfig {
        gpu: Some("T4"),
        timeout_secs: Some(1800),
        cache: Some(false),
        secrets: &["my-secret"],
        volumes: &[("/data", "my-vol")],
        ..modal_rust::config::FunctionConfig::default()
    };
    let configs = manifest_configs(vec![("train", cfg.clone()), ("eval", cfg.clone())]);
    let plan = deploy_entrypoints(&configs, &vec![]);
    assert_eq!(plan.len(), 2);
    for ep in &plan {
        assert_eq!(ep.options.gpu.as_deref(), Some("T4"));
        assert_eq!(ep.options.timeout_secs, Some(1800));
        assert_eq!(ep.options.secrets, &["my-secret".to_string()]);
        assert_eq!(ep.options.volumes, vec![("/data".to_string(), "my-vol".to_string())]);
    }
}

#[test]
fn manual_local_with_registry_path_config_is_default() {
    assert_eq!(modal_rust::config::options_for(&vec![], "anything"), FunctionOptions::default());
}
