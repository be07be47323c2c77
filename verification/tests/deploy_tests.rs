use modal_rust::config::FunctionOptions;
use modal_rust::control_plane::{
    build_image_spec, deploy_boundary, deploy_inputs, deploy_plan, prepare_deploy, DeployEntrypoint, Entrypoint, ImageOp,
};
use modal_rust::deploy::{
    append_endpoint_pip_step, baked_deploy_wrapper_src, deploy_function, web_adapter_suffix, DeployConfig, DEFAULT_DEPLOY_APP,
    DEPLOY_SRC, DEPLOY_TIMEOUT_SECS, DEPLOY_WRAPPER_CALLABLE,
};
use modal_rust::dump::{RecordedCall, RecordingControlPlane};
use modal_rust::remote::{ImageOptions, ImageStep, RemoteConfig, DEFAULT_BASE_IMAGE, DEFAULT_PACKAGE};

/// A stand-in for the static deploy wrapper text the deploy image bakes.
const STATIC_WRAPPER: &str = "import os\n\ndef handler(req):\n    return req\n";

fn base_remote() -> RemoteConfig {
    RemoteConfig::new(
        "/ws".to_string(),
        DEFAULT_PACKAGE.to_string(),
        DEFAULT_BASE_IMAGE.to_string(),
        false,
        true,
    )
}

#[test]
fn web_adapter_suffix_generates_one_line_per_endpoint() {
    assert_eq!(web_adapter_suffix(&["add"]), "web_add = _make_web_handler(\"add\")\n");
    assert_eq!(
        web_adapter_suffix(&["predict", "my-fn.v2"]),
        "web_predict = _make_web_handler(\"predict\")\n\
         web_my_fn_v2 = _make_web_handler(\"my-fn.v2\")\n"
    );
    assert_eq!(web_adapter_suffix(&[]), "", "no endpoints ⇒ empty suffix");
}

#[test]
fn baked_deploy_wrapper_src_is_byte_identical_without_endpoints() {
    assert_eq!(baked_deploy_wrapper_src(STATIC_WRAPPER, &[]), STATIC_WRAPPER);
}

#[test]
fn baked_deploy_wrapper_src_appends_the_adapter_suffix_after_the_static_source() {
    let src = baked_deploy_wrapper_src(STATIC_WRAPPER, &["add"]);
    assert!(src.starts_with(STATIC_WRAPPER), "the static wrapper source must lead, unmodified");
    assert_eq!(
        &src[STATIC_WRAPPER.len()..],
        "\nweb_add = _make_web_handler(\"add\")\n",
        "the generated adapter lines ride after a separating newline"
    );
}

#[test]
fn deploy_config_default_has_stable_app_name() {
    // The environment-free default: no app override, the default base image,
    // no toolchain install.
    let cfg = DeployConfig::for_app(DEFAULT_DEPLOY_APP.to_string(), base_remote(), false);
    assert_eq!(cfg.app_name, "modal-rust-add-deploy");
    assert_eq!(cfg.base_image, "rust:1-slim");
    assert!(cfg.use_cargo_scoping, "cargo scoping is the default");
    assert_eq!(cfg.modalignore_name, ".modalignore");
    assert!(!cfg.install_rust, "install_rust defaults off");
    assert!(cfg.options.secrets.is_empty(), "secrets default empty");
    assert!(cfg.options.volumes.is_empty(), "volumes default empty");
    assert_eq!(cfg.timeout_secs, DEPLOY_TIMEOUT_SECS);
}

#[test]
fn deploy_config_secrets_volumes_are_settable_non_macro() {
    let cfg = DeployConfig {
        options: FunctionOptions {
            secrets: vec!["api-creds".to_string()],
            volumes: vec![("/models".to_string(), "weights".to_string())],
            ..FunctionOptions::default()
        },
        ..DeployConfig::for_app("my-app".to_string(), base_remote(), false)
    };
    assert_eq!(cfg.options.secrets, vec!["api-creds".to_string()]);
    assert_eq!(cfg.options.volumes, vec![("/models".to_string(), "weights".to_string())]);
    assert_eq!(cfg.app_name, "my-app");
}

#[test]
fn endpoint_deploy_appends_and_bakes_the_fastapi_pip_step() {
    let endpoint = FunctionOptions { webhook_method: Some("POST".to_string()), ..FunctionOptions::default() };
    let plan = vec![Entrypoint { name: "predict".to_string(), options: endpoint.clone(), timeout_secs: 300 }];
    let mut steps = vec![ImageStep::apt(&["libssl-dev"])];
    append_endpoint_pip_step(&mut steps, &vec![endpoint]);
    assert_eq!(
        steps,
        vec![ImageStep::apt(&["libssl-dev"]), ImageStep::pip(&["fastapi[standard]"])],
        "endpoint deploy appends the fastapi auto-step after the user steps"
    );
    // The deploy base layer bakes it after the user's own step.
    let mut cfg = DeployConfig::for_app("app".to_string(), base_remote(), false);
    cfg.image_steps = steps;
    let inputs = deploy_inputs(&cfg, plan, false, "run-src", STATIC_WRAPPER);
    assert_eq!(inputs.source.remote_src, DEPLOY_SRC);
    let base = build_image_spec(&deploy_boundary(), &inputs, "mo-py-standalone");
    assert!(
        base.ops.iter().any(|op| *op == ImageOp::Step(ImageStep::pip(&["fastapi[standard]"]))),
        "deploy base layer must bake the fastapi pip step, got: {:?}",
        base.ops
    );
}

#[test]
fn non_endpoint_deploy_image_steps_stay_byte_identical() {
    let plain = FunctionOptions::default();
    let mut steps: Vec<ImageStep> = Vec::new();
    append_endpoint_pip_step(&mut steps, &vec![plain.clone()]);
    assert!(steps.is_empty(), "no endpoint ⇒ no auto-step on the default path");

    let user = vec![ImageStep::pip(&["requests"]), ImageStep::run(&["echo ok"])];
    let mut steps = user.clone();
    append_endpoint_pip_step(&mut steps, &vec![plain]);
    assert_eq!(steps, user, "no endpoint ⇒ user steps stay byte-identical");
}

#[test]
fn endpoint_deploy_skips_the_auto_step_when_user_pip_installs_fastapi() {
    let endpoint = FunctionOptions { webhook_method: Some("GET".to_string()), ..FunctionOptions::default() };
    let user = vec![ImageStep::pip(&["fastapi==0.115.0", "uvloop"])];
    let mut steps = user.clone();
    append_endpoint_pip_step(&mut steps, &vec![endpoint.clone()]);
    assert_eq!(steps, user, "a user fastapi pip step suppresses the auto-step");

    let mut steps = vec![ImageStep::run(&["echo fastapi"])];
    append_endpoint_pip_step(&mut steps, &vec![endpoint]);
    assert_eq!(
        steps,
        vec![ImageStep::run(&["echo fastapi"]), ImageStep::pip(&["fastapi[standard]"])],
        "non-pip steps do not suppress the auto-step"
    );
}

#[test]
fn fastapi_dedup_matches_the_package_name_not_a_substring() {
    let endpoint = FunctionOptions { webhook_method: Some("POST".to_string()), ..FunctionOptions::default() };
    // `fastapi-utils` is another package: the auto-step still rides.
    let mut steps = vec![ImageStep::pip(&["fastapi-utils"])];
    append_endpoint_pip_step(&mut steps, &vec![endpoint.clone()]);
    assert_eq!(steps.len(), 2);
    // Case does not matter for the name; the name ends at the first specifier.
    for spec in ["FastAPI >=0.1", "fastapi", "fastapi[all]", "FASTAPI~=0.100"] {
        let mut steps = vec![ImageStep::pip(&[spec])];
        append_endpoint_pip_step(&mut steps, &vec![endpoint.clone()]);
        assert_eq!(steps.len(), 1, "{spec:?} names fastapi");
    }
}

#[test]
fn deploy_plan_falls_back_to_one_shared_function_without_entrypoints() {
    let cfg = DeployConfig::for_app("app".to_string(), base_remote(), false);
    let plan = deploy_plan(&cfg, &vec![]);
    assert_eq!(plan.len(), 1);
    assert_eq!(plan[0].name, DEPLOY_WRAPPER_CALLABLE);
    assert_eq!(plan[0].timeout_secs, 300);
    assert_eq!(plan[0].options, FunctionOptions::default());
}

#[test]
fn deploy_plan_keeps_each_entrypoint_with_its_own_timeout() {
    let cfg = DeployConfig::for_app("app".to_string(), base_remote(), false);
    let eps = vec![
        DeployEntrypoint { name: "add".to_string(), options: FunctionOptions::default() },
        DeployEntrypoint {
            name: "add_gpu".to_string(),
            options: FunctionOptions {
                gpu: Some("A100".to_string()),
                timeout_secs: Some(900),
                ..FunctionOptions::default()
            },
        },
    ];
    let plan = deploy_plan(&cfg, &eps);
    assert_eq!(plan.len(), 2);
    assert_eq!(plan[0].name, "add");
    assert_eq!(plan[0].timeout_secs, 300);
    assert_eq!(plan[1].name, "add_gpu");
    assert_eq!(plan[1].timeout_secs, 900);
    assert_eq!(plan[1].options.gpu.as_deref(), Some("A100"));
}

#[test]
fn with_function_image_folds_the_first_declaration() {
    let cfg = DeployConfig::for_app("app".to_string(), base_remote(), false);
    let same = cfg.clone().with_function_image(None);
    assert_eq!(same.base_image, cfg.base_image);
    assert!(same.image_steps.is_empty());
    let img = ImageOptions {
        base: Some("nvidia/cuda:12.6.3-devel-ubuntu22.04".to_string()),
        install_rust: Some(true),
        apt: vec!["libssl-dev".to_string()],
        pip: vec![],
        run: vec!["echo hi".to_string()],
    };
    let folded = cfg.with_function_image(Some(img));
    assert_eq!(folded.base_image, "nvidia/cuda:12.6.3-devel-ubuntu22.04");
    assert!(folded.install_rust);
    assert_eq!(folded.image_steps, vec![ImageStep::apt(&["libssl-dev"]), ImageStep::run(&["echo hi"])]);
    assert_eq!(folded.app_name, "app");
}

#[test]
fn prepare_deploy_folds_the_image_then_adds_the_endpoint_step() {
    let mut cfg = DeployConfig::for_app("app".to_string(), base_remote(), true);
    cfg.image_steps = vec![ImageStep::run(&["echo path"])];
    let eps = vec![
        DeployEntrypoint { name: "plain".to_string(), options: FunctionOptions::default() },
        DeployEntrypoint {
            name: "predict".to_string(),
            options: FunctionOptions { webhook_method: Some("POST".to_string()), ..FunctionOptions::default() },
        },
    ];
    let img = ImageOptions {
        base: Some("python-base".to_string()),
        install_rust: Some(true),
        apt: vec![],
        pip: vec!["numpy".to_string()],
        run: vec![],
    };
    let inputs = prepare_deploy(cfg, &eps, Some(img), true, "run", STATIC_WRAPPER);
    assert_eq!(inputs.base_image, "python-base");
    assert!(inputs.install_rust);
    assert_eq!(
        inputs.image_steps,
        vec![ImageStep::pip(&["numpy"]), ImageStep::run(&["echo path"]), ImageStep::pip(&["fastapi[standard]"])]
    );
    assert_eq!(inputs.entrypoints.len(), 2);
    assert_eq!(inputs.entrypoints[1].name, "predict");
    assert!(!inputs.cache);
    assert!(inputs.dep_prebuild);
    assert!(inputs.snapshot_best_effort);
    assert_eq!(inputs.app_id, None);
    assert_eq!(inputs.deploy_wrapper_src, STATIC_WRAPPER);
}

#[test]
fn deploy_function_over_the_recorder_reports_the_first_function_and_top_image() {
    let cfg = DeployConfig::for_app("app".to_string(), base_remote(), false);
    let eps = vec![
        DeployEntrypoint { name: "add".to_string(), options: FunctionOptions::default() },
        DeployEntrypoint { name: "mul".to_string(), options: FunctionOptions::default() },
    ];
    let mut cp = RecordingControlPlane::new();
    let app = deploy_function(&mut cp, cfg, &eps, None, false, "run", STATIC_WRAPPER).unwrap();
    assert_eq!(app.name, "app");
    assert_eq!(app.function_id, "fu-1");
    // Three mounts take mo-1..mo-3; the base layer im-4, the top layer im-5.
    assert_eq!(app.image_id, "im-5");
    assert_eq!(app.url, "");
    assert!(app.endpoint_urls.is_empty());
    let precreates: Vec<String> = cp
        .requests
        .iter()
        .filter_map(|r| match r {
            RecordedCall::FunctionPrecreate { function_name } => Some(function_name.clone()),
            _ => None,
        })
        .collect();
    assert_eq!(precreates, vec!["add".to_string(), "mul".to_string()]);
    let layers: Vec<u8> = cp
        .requests
        .iter()
        .filter_map(|r| match r {
            RecordedCall::ImageGetOrCreate { layer, .. } => Some(*layer),
            _ => None,
        })
        .collect();
    assert_eq!(layers, vec![0, 1]);
}

#[test]
fn deploy_function_without_entrypoints_deploys_the_fallback_function() {
    let cfg = DeployConfig::for_app("app".to_string(), base_remote(), false);
    let mut cp = RecordingControlPlane::new();
    let app = deploy_function(&mut cp, cfg, &vec![], None, true, "run", STATIC_WRAPPER).unwrap();
    assert_eq!(app.function_id, "fu-1");
    let precreates: Vec<String> = cp
        .requests
        .iter()
        .filter_map(|r| match r {
            RecordedCall::FunctionPrecreate { function_name } => Some(function_name.clone()),
            _ => None,
        })
        .collect();
    assert_eq!(precreates, vec![DEPLOY_WRAPPER_CALLABLE.to_string()]);
    assert!(cp.requests.iter().any(|r| matches!(r, RecordedCall::PrebuildMount)));
}

#[test]
fn deploy_function_looks_up_the_first_function_by_name_after_publishing() {
    let cfg = DeployConfig::for_app("app".to_string(), base_remote(), false);
    let eps = vec![
        DeployEntrypoint { name: "Add-One".to_string(), options: FunctionOptions::default() },
        DeployEntrypoint { name: "mul".to_string(), options: FunctionOptions::default() },
    ];
    let mut cp = RecordingControlPlane::new();
    let app = deploy_function(&mut cp, cfg, &eps, None, false, "run", STATIC_WRAPPER).unwrap();
    assert_eq!(app.function_id, "fu-1");
    let n = cp.requests.len();
    assert!(matches!(cp.requests[n - 2], RecordedCall::AppPublish { app_state: "deployed" }));
    match &cp.requests[n - 1] {
        RecordedCall::FunctionFromName { app_name, object_tag } => {
            assert_eq!(app_name, "app");
            assert_eq!(object_tag, &modal_rust::remote::sanitize_object_tag("Add-One"));
        }
        other => panic!("expected the lookup last, got {other:?}"),
    }
}
