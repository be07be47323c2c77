use modal_rust::config::FunctionOptions;
use modal_rust::control_plane::{
    deploy_boundary, deploy_inputs, deploy_plan, run_boundary, run_inputs, DeployEntrypoint, ImageOp, ProvisionInputs,
    RetryPlan,
};
use modal_rust::deploy::DeployConfig;
use modal_rust::dump::{
    dry_run, dump_deploy_manifest, record_provision, Manifest, MountRole, PlannedRequest, RecordedCall,
    RecordingControlPlane, RunMode,
};
use modal_rust::error::Error;
use modal_rust::remote::{ImageStep, RemoteConfig, CACHE_VOLUME_NAME};

fn run_cfg(options: FunctionOptions) -> RemoteConfig {
    let mut cfg = RemoteConfig::new("/ws".to_string(), "app".to_string(), "rust:1-slim".to_string(), false, true);
    cfg.use_cargo_scoping = false;
    cfg.options = options;
    cfg
}

fn run(options: FunctionOptions) -> ProvisionInputs {
    run_inputs("app", "ap-1", "add", &run_cfg(options), true, "run wrapper", "deploy wrapper")
}

fn kinds(calls: &[RecordedCall]) -> Vec<&'static str> {
    calls
        .iter()
        .map(|c| match c {
            RecordedCall::AppCreate { .. } => "AppCreate",
            RecordedCall::AppGetOrCreate { .. } => "AppGetOrCreate",
            RecordedCall::VolumeGetOrCreate { .. } => "VolumeGetOrCreate",
            RecordedCall::SecretGetOrCreate { .. } => "SecretGetOrCreate",
            RecordedCall::InlineSecretGetOrCreate { .. } => "InlineSecretGetOrCreate",
            RecordedCall::MountGetOrCreate { .. } => "MountGetOrCreate",
            RecordedCall::PrebuildMount => "PrebuildMount",
            RecordedCall::ImageGetOrCreate { .. } => "ImageGetOrCreate",
            RecordedCall::FunctionPrecreate { .. } => "FunctionPrecreate",
            RecordedCall::FunctionCreate { .. } => "FunctionCreate",
            RecordedCall::AppPublish { .. } => "AppPublish",
            RecordedCall::FunctionFromName { .. } => "FunctionFromName",
        })
        .collect()
}

fn creates(calls: &[RecordedCall]) -> Vec<modal_rust::control_plane::FunctionPlan> {
    calls
        .iter()
        .filter_map(|c| match c {
            RecordedCall::FunctionCreate { spec } => Some(spec.clone()),
            _ => None,
        })
        .collect()
}

#[test]
fn dry_run_renders_the_full_run_sequence() {
    let options = FunctionOptions {
        gpu: Some("T4".to_string()),
        timeout_secs: Some(1800),
        cache: Some(true),
        ..FunctionOptions::default()
    };
    let calls = record_provision(&run(options), &run_boundary()).expect("dry run");
    assert_eq!(
        kinds(&calls),
        vec![
            "AppCreate",
            "VolumeGetOrCreate",
            "MountGetOrCreate",
            "MountGetOrCreate",
            "MountGetOrCreate",
            "ImageGetOrCreate",
            "FunctionPrecreate",
            "FunctionCreate",
            "AppPublish",
        ]
    );
    assert_eq!(calls[0], RecordedCall::AppCreate { description: "app".to_string() });
    assert_eq!(calls[1], RecordedCall::VolumeGetOrCreate { name: CACHE_VOLUME_NAME.to_string(), v2: true });
    assert_eq!(calls[2], RecordedCall::MountGetOrCreate { role: MountRole::Client });
    assert_eq!(calls[3], RecordedCall::MountGetOrCreate { role: MountRole::Source });
    assert_eq!(calls[4], RecordedCall::MountGetOrCreate { role: MountRole::PythonStandalone });
    assert_eq!(calls[6], RecordedCall::FunctionPrecreate { function_name: "add".to_string() });
    assert_eq!(calls[8], RecordedCall::AppPublish { app_state: "ephemeral" });
    let fc = &creates(&calls)[0];
    assert_eq!(fc.module, "modal_rust_run_wrapper");
    assert_eq!(fc.mount_ids.len(), 2, "RUN attaches client + source mounts");
    assert_eq!(fc.gpu.as_deref(), Some("T4"));
    assert_eq!(fc.timeout_secs, 1800);
    assert_eq!(fc.volume_mounts, vec![("vo-1".to_string(), "/cache".to_string())]);
    assert!(fc.secret_ids.is_empty());
    assert_eq!(fc.app_function_name, "add");
    match &calls[5] {
        RecordedCall::ImageGetOrCreate { spec, layer } => {
            assert_eq!(*layer, 0);
            assert_eq!(spec.registry, "rust:1-slim");
            assert!(!spec.ops.iter().any(|o| matches!(o, ImageOp::Command(c) if c.contains("cargo build"))));
        },
        other => panic!("expected the image, got {other:?}"),
    }
}

#[test]
fn dry_run_cache_off_drops_the_volume() {
    let calls = record_provision(&run(FunctionOptions { cache: Some(false), ..FunctionOptions::default() }), &run_boundary())
        .expect("dry run");
    assert!(!kinds(&calls).contains(&"VolumeGetOrCreate"), "cache off ⇒ no volume");
    assert!(creates(&calls)[0].volume_mounts.is_empty(), "no /cache mount when cache off");
}

#[test]
fn dry_run_secrets_and_user_volumes_ride_into_function_create() {
    let options = FunctionOptions {
        cache: Some(false),
        secrets: vec!["api-creds".to_string()],
        volumes: vec![("/data".to_string(), "my-vol".to_string())],
        ..FunctionOptions::default()
    };
    let calls = record_provision(&run(options), &run_boundary()).expect("dry run");
    assert!(kinds(&calls).contains(&"SecretGetOrCreate"));
    assert!(calls.contains(&RecordedCall::VolumeGetOrCreate { name: "my-vol".to_string(), v2: false }));
    let fc = &creates(&calls)[0];
    assert_eq!(fc.secret_ids.len(), 1, "the secret id rode into FunctionCreate");
    assert!(fc.volume_mounts.iter().any(|(_, path)| path == "/data"));
}

#[test]
fn dry_run_inline_env_resolves_a_deterministic_inline_secret() {
    let options = FunctionOptions {
        cache: Some(false),
        env: vec![("K".to_string(), "V".to_string())],
        ..FunctionOptions::default()
    };
    let calls = record_provision(&run(options), &run_boundary()).expect("dry run");
    assert!(calls.contains(&RecordedCall::InlineSecretGetOrCreate { name: "modal-rust-inline-env-app-add".to_string() }));
    assert_eq!(creates(&calls)[0].secret_ids.len(), 1);
}

fn deploy_cfg(app: &str, steps: Vec<ImageStep>) -> DeployConfig {
    let mut base = RemoteConfig::new("/ws".to_string(), "app".to_string(), "rust:1-slim".to_string(), false, true);
    base.use_cargo_scoping = false;
    base.image_steps = steps;
    DeployConfig::for_app(app.to_string(), base, false)
}

#[test]
fn dump_deploy_manifest_is_client_mount_only_with_cargo_build() {
    let cfg = deploy_cfg("my-deploy", vec![]);
    let eps = vec![DeployEntrypoint {
        name: "add".to_string(),
        options: FunctionOptions {
            gpu: Some("A100".to_string()),
            timeout_secs: Some(900),
            ..FunctionOptions::default()
        },
    }];
    let inputs = deploy_inputs(&cfg, deploy_plan(&cfg, &eps), false, "run wrapper", "deploy wrapper");
    let calls = record_provision(&inputs, &deploy_boundary()).expect("dump deploy");
    assert_eq!(
        kinds(&calls),
        vec![
            "MountGetOrCreate",
            "MountGetOrCreate",
            "MountGetOrCreate",
            "AppGetOrCreate",
            "ImageGetOrCreate",
            "ImageGetOrCreate",
            "FunctionPrecreate",
            "FunctionCreate",
            "AppPublish",
        ]
    );
    assert_eq!(calls[3], RecordedCall::AppGetOrCreate { app_name: "my-deploy".to_string() });
    let fc = &creates(&calls)[0];
    assert_eq!(fc.module, "modal_rust_deploy_wrapper");
    assert_eq!(fc.mount_ids.len(), 1, "DEPLOY attaches CLIENT mount ONLY");
    assert_eq!(fc.gpu.as_deref(), Some("A100"));
    assert_eq!(fc.timeout_secs, 900);
    assert_eq!(fc.app_function_name, "add");
    match &calls[5] {
        RecordedCall::ImageGetOrCreate { spec, layer } => {
            assert_eq!(*layer, 1);
            assert!(spec.ops.iter().any(|o| matches!(o, ImageOp::Command(c) if c.contains("cargo build --release"))));
            assert!(spec.ops.contains(&ImageOp::Command("COPY . /".to_string())));
        },
        other => panic!("expected the top layer, got {other:?}"),
    }
    assert_eq!(calls[8], RecordedCall::AppPublish { app_state: "deployed" });
}

#[test]
fn dump_deploy_manifest_renders_one_function_per_divergent_entrypoint() {
    let cfg = deploy_cfg("multi-deploy", vec![]);
    let eps = vec![
        DeployEntrypoint { name: "cpu".to_string(), options: FunctionOptions::default() },
        DeployEntrypoint {
            name: "gpu".to_string(),
            options: FunctionOptions {
                gpu: Some("A100".to_string()),
                timeout_secs: Some(900),
                ..FunctionOptions::default()
            },
        },
    ];
    let inputs = deploy_inputs(&cfg, deploy_plan(&cfg, &eps), false, "run wrapper", "deploy wrapper");
    let calls = record_provision(&inputs, &deploy_boundary()).expect("dump deploy");
    assert_eq!(
        kinds(&calls),
        vec![
            "MountGetOrCreate",
            "MountGetOrCreate",
            "MountGetOrCreate",
            "AppGetOrCreate",
            "ImageGetOrCreate",
            "ImageGetOrCreate",
            "FunctionPrecreate",
            "FunctionCreate",
            "FunctionPrecreate",
            "FunctionCreate",
            "AppPublish",
        ]
    );
    let cs = creates(&calls);
    assert_eq!(cs.len(), 2);
    assert_eq!(cs[0].app_function_name, "cpu");
    assert_eq!(cs[0].gpu, None);
    assert_eq!(cs[1].app_function_name, "gpu");
    assert_eq!(cs[1].gpu.as_deref(), Some("A100"));
    assert_eq!(cs[1].timeout_secs, 900);
    assert_eq!(cs[0].retry, RetryPlan::Count(None));
}

#[test]
fn dry_run_image_steps_ride_into_the_run_image_dockerfile() {
    let mut cfg = run_cfg(FunctionOptions::default());
    cfg.image_steps = vec![ImageStep::apt(&["libpng-dev"]), ImageStep::pip(&["numpy"]), ImageStep::run(&["echo hi > /opt/marker"])];
    let inputs = run_inputs("app", "ap-1", "add", &cfg, true, "run wrapper", "deploy wrapper");
    let calls = record_provision(&inputs, &run_boundary()).expect("dry run");
    let img = calls
        .iter()
        .find_map(|c| match c {
            RecordedCall::ImageGetOrCreate { spec, layer: 0 } => Some(spec.clone()),
            _ => None,
        })
        .expect("RUN image (layer 0)");
    let pos = |op: ImageOp| img.ops.iter().position(|o| *o == op).expect("op present");
    let apt = pos(ImageOp::Step(ImageStep::apt(&["libpng-dev"])));
    let pip = pos(ImageOp::Step(ImageStep::pip(&["numpy"])));
    let run = pos(ImageOp::Step(ImageStep::run(&["echo hi > /opt/marker"])));
    let python = pos(ImageOp::AddPython("3.12".to_string()));
    let bake = img.ops.iter().position(|o| matches!(o, ImageOp::WrapperModule(..))).expect("wrapper bake");
    assert!(apt < pip && pip < run, "chain order preserved");
    assert!(python < apt, "provisioning precedes the image steps");
    assert!(run < bake, "image steps precede the wrapper bake");
}

#[test]
fn dump_deploy_image_steps_ride_into_the_base_layer_not_the_top() {
    let cfg = deploy_cfg("dep", vec![ImageStep::apt(&["libssl-dev"]), ImageStep::pip(&["requests"])]);
    let eps = vec![DeployEntrypoint { name: "add".to_string(), options: FunctionOptions::default() }];
    let inputs = deploy_inputs(&cfg, deploy_plan(&cfg, &eps), false, "run wrapper", "deploy wrapper");
    let calls = record_provision(&inputs, &deploy_boundary()).expect("dump deploy");
    let layer = |n: u8| {
        calls
            .iter()
            .find_map(|c| match c {
                RecordedCall::ImageGetOrCreate { spec, layer } if *layer == n => Some(spec.clone()),
                _ => None,
            })
            .unwrap_or_else(|| panic!("layer {n} image present"))
    };
    let base = layer(0);
    let top = layer(1);
    assert!(base.ops.contains(&ImageOp::Step(ImageStep::apt(&["libssl-dev"]))));
    assert!(base.ops.contains(&ImageOp::Step(ImageStep::pip(&["requests"]))));
    assert!(!base.ops.iter().any(|o| matches!(o, ImageOp::Command(c) if c.contains("cargo build"))));
    assert!(top.ops.iter().any(|o| matches!(o, ImageOp::Command(c) if c.contains("cargo build --release"))));
    assert!(!top.ops.iter().any(|o| matches!(o, ImageOp::Step(_))), "image steps live ONLY on the base layer");
}

#[test]
fn dry_run_user_volume_at_cache_path_is_rejected() {
    let options = FunctionOptions {
        cache: Some(true),
        volumes: vec![("/cache".to_string(), "rogue".to_string())],
        ..FunctionOptions::default()
    };
    let err = record_provision(&run(options), &run_boundary()).unwrap_err();
    match err {
        Error::Config(m) => assert!(m.contains("/cache"), "collision is reported"),
        other => panic!("unexpected {other:?}"),
    }
}

#[test]
fn dry_run_without_entrypoints_is_a_config_error() {
    let mut inputs = run(FunctionOptions::default());
    inputs.entrypoints.clear();
    assert_eq!(
        record_provision(&inputs, &run_boundary()),
        Err(Error::Config("RUN provision requires exactly one entrypoint".to_string()))
    );
}

#[test]
fn recording_control_plane_counts_ids() {
    let mut cp = RecordingControlPlane::new();
    assert_eq!(cp.next_id(), 1);
    assert_eq!(cp.next_id(), 2);
    assert!(cp.requests.is_empty());
}

#[test]
fn manifest_render_is_numbered_and_abbreviates_the_baked_wrapper() {
    let m = Manifest {
        mode: RunMode::Run,
        app_name: "app".to_string(),
        requests: vec![
            PlannedRequest::AppCreate { description: "app".to_string() },
            PlannedRequest::VolumeGetOrCreate { name: "modal-rust-cargo-cache".to_string(), v2: true },
            PlannedRequest::MountGetOrCreate { role: MountRole::PythonStandalone },
            PlannedRequest::ImageGetOrCreate {
                dockerfile_commands: vec![
                    "FROM rust:1-slim".to_string(),
                    "RUN python3 -c 'import base64; base64.b64decode(\"...\")'".to_string(),
                ],
                layer: 0,
            },
            PlannedRequest::FunctionPrecreate { function_name: "add".to_string() },
            PlannedRequest::FunctionCreate {
                module: "modal_rust_run_wrapper".to_string(),
                function: "add".to_string(),
                mount_ids_count: 2,
                gpu: Some("T4".to_string()),
                milli_cpu: 0,
                memory_mb: 0,
                timeout_secs: 1800,
                volume_mounts: vec![("/cache".to_string(), "vo-1".to_string())],
                secret_count: 0,
                retries: None,
                schedule: None,
                min_containers: Some(1),
                max_containers: None,
                buffer_containers: None,
                scaledown_window: None,
                function_data_is_none: true,
            },
            PlannedRequest::AppPublish { app_state: "ephemeral" },
        ],
    };
    let render = m.render();
    assert_eq!(
        render,
        "RUN manifest for app \"app\"\n\
         \x20 1. AppCreate              description=\"app\" (ephemeral)\n\
         \x20 2. VolumeGetOrCreate      name=\"modal-rust-cargo-cache\" v2=true\n\
         \x20 3. MountGetOrCreate       role=PythonStandalone\n\
         \x20 4. ImageGetOrCreate       layer=0  [FROM rust:1-slim; RUN <baked wrapper>]\n\
         \x20 5. FunctionPrecreate      function=\"add\"\n\
         \x20 6. FunctionCreate         module=\"modal_rust_run_wrapper\" function=\"add\" mount_ids=2 gpu=Some(\"T4\") \
         cpu=0m memory=0MiB timeout=1800s volumes=[(\"/cache\", \"vo-1\")] secrets=0 retries=None schedule=None \
         min_containers=Some(1) max_containers=None buffer_containers=None scaledown_window=None \
         function_data_is_none=true\n\
         \x20 7. AppPublish             state=ephemeral\n"
    );
    assert!(!render.contains("b64decode("));
    let d = Manifest { mode: RunMode::Deploy, app_name: "x".to_string(), requests: vec![] };
    assert_eq!(d.render(), "DEPLOY manifest for app \"x\"\n");
}

#[test]
fn dry_run_works_without_a_connected_app() {
    let manifest = dry_run(&vec![], None, "add", &run_cfg(FunctionOptions::default()), true, "run wrapper", "deploy wrapper")
        .expect("offline dry_run");
    assert_eq!(manifest.app_name, "app", "falls back to the package name");
    assert!(!manifest.requests.is_empty());
    assert_eq!(manifest.mode, RunMode::Run);
}

#[test]
fn dry_run_uses_the_connected_app_name_and_the_decorator_config() {
    let configs = vec![(
        "add".to_string(),
        FunctionOptions { cache: Some(false), secrets: vec!["api-creds".to_string()], ..FunctionOptions::default() },
    )];
    let m = dry_run(&configs, Some("my-app"), "add", &run_cfg(FunctionOptions::default()), true, "run", "deploy").unwrap();
    assert_eq!(m.app_name, "my-app");
    assert!(matches!(&m.requests[0], RecordedCall::AppCreate { description } if description == "my-app"));
    // The decorator turned the cache off: no cache volume rides.
    assert!(!m.requests.iter().any(|r| matches!(r, RecordedCall::VolumeGetOrCreate { .. })));
    assert!(m.requests.iter().any(|r| matches!(r, RecordedCall::SecretGetOrCreate { name } if name == "api-creds")));
    // No decorator config: the run's cache (on) rides.
    let m = dry_run(&configs, None, "other", &run_cfg(FunctionOptions::default()), true, "run", "deploy").unwrap();
    assert!(m.requests.iter().any(|r| matches!(r, RecordedCall::VolumeGetOrCreate { v2: true, .. })));
}

#[test]
fn dry_run_reports_the_cache_collision() {
    let configs = vec![(
        "add".to_string(),
        FunctionOptions {
            cache: Some(true),
            volumes: vec![("/cache".to_string(), "rogue".to_string())],
            ..FunctionOptions::default()
        },
    )];
    match dry_run(&configs, None, "add", &run_cfg(FunctionOptions::default()), true, "run", "deploy") {
        Err(Error::Config(m)) => assert!(m.contains("/cache"), "collision is reported"),
        other => panic!("expected the collision error, got {other:?}"),
    }
}

#[test]
fn dump_deploy_manifest_plans_the_declared_configs_in_order() {
    let cfg = deploy_cfg("my-deploy", vec![]);
    let configs = vec![
        ("cpu".to_string(), FunctionOptions::default()),
        ("gpu".to_string(), FunctionOptions { gpu: Some("A100".to_string()), ..FunctionOptions::default() }),
    ];
    let m = dump_deploy_manifest(&configs, &vec![], &cfg, false, "run", "deploy").unwrap();
    assert_eq!(m.mode, RunMode::Deploy);
    assert_eq!(m.app_name, "my-deploy");
    let tags: Vec<String> = m
        .requests
        .iter()
        .filter_map(|r| match r {
            RecordedCall::FunctionPrecreate { function_name } => Some(function_name.clone()),
            _ => None,
        })
        .collect();
    assert_eq!(tags, vec!["cpu".to_string(), "gpu".to_string()]);
    assert!(matches!(m.requests.last(), Some(RecordedCall::AppPublish { app_state: "deployed" })));
}

#[test]
fn dump_deploy_manifest_falls_back_to_names_then_the_shared_callable() {
    let cfg = deploy_cfg("app", vec![]);
    let m = dump_deploy_manifest(&vec![], &vec!["add".to_string()], &cfg, false, "run", "deploy").unwrap();
    assert!(m.requests.iter().any(|r| matches!(r, RecordedCall::FunctionPrecreate { function_name } if function_name == "add")));
    let m = dump_deploy_manifest(&vec![], &vec![], &cfg, false, "run", "deploy").unwrap();
    let tags: Vec<&RecordedCall> =
        m.requests.iter().filter(|r| matches!(r, RecordedCall::FunctionPrecreate { .. })).collect();
    assert_eq!(tags.len(), 1);
    assert!(matches!(tags[0], RecordedCall::FunctionPrecreate { function_name } if function_name == modal_rust::deploy::DEPLOY_WRAPPER_CALLABLE));
}

#[test]
fn manifest_render_keeps_one_line_per_request_when_names_hold_line_breaks() {
    let m = Manifest {
        mode: RunMode::Deploy,
        app_name: "two\nlines".to_string(),
        requests: vec![
            PlannedRequest::AppGetOrCreate { app_name: "a\nb".to_string() },
            PlannedRequest::SecretGetOrCreate { name: "s\r\nt".to_string() },
            PlannedRequest::FunctionPrecreate { function_name: "f\n".to_string() },
        ],
    };
    let render = m.render();
    assert_eq!(render.matches('\n').count(), m.requests.len() + 1);
    assert_eq!(render.lines().count(), m.requests.len() + 1);
    assert_eq!(render.lines().next(), Some("DEPLOY manifest for app \"two\\nlines\""));
    assert_eq!(render.lines().nth(1), Some("  1. AppGetOrCreate         app_name=\"a\\nb\" (persistent)"));
}

#[test]
fn provisioning_counts_each_call_kind_as_promised() {
    let cfg = deploy_cfg("three", vec![]);
    let eps = vec![
        DeployEntrypoint { name: "a".to_string(), options: FunctionOptions::default() },
        DeployEntrypoint {
            name: "b".to_string(),
            options: FunctionOptions { gpu: Some("T4".to_string()), ..FunctionOptions::default() },
        },
        DeployEntrypoint {
            name: "c".to_string(),
            options: FunctionOptions { timeout_secs: Some(60), ..FunctionOptions::default() },
        },
    ];
    let inputs = deploy_inputs(&cfg, deploy_plan(&cfg, &eps), false, "run wrapper", "deploy wrapper");
    let n = inputs.entrypoints.len();
    let calls = record_provision(&inputs, &deploy_boundary()).expect("dump deploy");
    let count = |k: &str| kinds(&calls).into_iter().filter(|x| *x == k).count();
    assert_eq!(count("MountGetOrCreate"), 3);
    assert_eq!(count("AppGetOrCreate"), 1);
    assert_eq!(count("FunctionPrecreate"), n);
    assert_eq!(count("FunctionCreate"), n);
    assert_eq!(count("AppPublish"), 1);
    assert_eq!(kinds(&calls)[3], "AppGetOrCreate");
    let tags: Vec<String> = calls
        .iter()
        .filter_map(|c| match c {
            RecordedCall::FunctionPrecreate { function_name } => Some(function_name.clone()),
            _ => None,
        })
        .collect();
    let expected: Vec<String> = inputs.entrypoints.iter().map(|e| modal_rust::remote::sanitize_object_tag(&e.name)).collect();
    assert_eq!(tags, expected);

    let run_calls = record_provision(&run(FunctionOptions::default()), &run_boundary()).expect("dry run");
    let run_kinds = kinds(&run_calls);
    assert_eq!(run_kinds[0], "AppCreate");
    assert_eq!(run_kinds.iter().filter(|x| **x == "AppPublish").count(), 1);
    assert_eq!(run_kinds.iter().filter(|x| **x == "FunctionCreate").count(), 1);
}
