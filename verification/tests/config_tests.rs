use modal_rust::config::{
    describe_entries, first_declared_image, options_for, FunctionConfig, FunctionOptions, DESCRIBE_SCHEMA,
};
use modal_rust::error::RunnerError;

#[test]
fn function_config_default_has_empty_secrets_and_volumes() {
    let d = FunctionConfig::default();
    assert!(d.secrets.is_empty());
    assert!(d.required_keys.is_empty());
    assert!(d.env.is_empty());
    assert!(d.volumes.is_empty());
    assert!(d.retries_spec.is_none());
    assert!(d.image.is_none());
    assert!(!d.enable_memory_snapshot);
    assert!(d.webhook_method.is_none());
    assert!(!d.webhook_requires_proxy_auth);
    let c = FunctionConfig::new();
    assert_eq!(d, c);
}

#[test]
fn function_config_converts_to_owned_options() {
    let config = FunctionConfig {
        gpu: Some("T4"),
        timeout_secs: Some(1800),
        cache: Some(false),
        milli_cpu: Some(2000),
        memory_mb: Some(4096),
        secrets: &["my-secret"],
        required_keys: &["API_KEY"],
        env: &[("REGION", "us")],
        volumes: &[("/data", "my-vol")],
        retries: Some(3),
        retries_spec: None,
        schedule: Some("cron:UTC:0 9 * * 1"),
        min_containers: Some(1),
        max_containers: Some(5),
        buffer_containers: Some(2),
        scaledown_window: Some(120),
        image: Some(r#"{"base":"rust:1-slim"}"#),
        enable_memory_snapshot: true,
        webhook_method: Some("POST"),
        webhook_requires_proxy_auth: true,
        web_server_port: Some(3000),
        web_server_startup_timeout: Some(30),
        max_concurrent_inputs: Some(8),
        target_concurrent_inputs: Some(4),
    };
    let options = FunctionOptions::from_config(&config);
    assert_eq!(options.gpu.as_deref(), Some("T4"));
    assert_eq!(options.timeout_secs, Some(1800));
    assert_eq!(options.cache, Some(false));
    assert_eq!(options.milli_cpu, Some(2000));
    assert_eq!(options.memory_mb, Some(4096));
    assert_eq!(options.secrets, vec!["my-secret".to_string()]);
    assert_eq!(options.required_keys, vec!["API_KEY".to_string()]);
    assert_eq!(options.env, vec![("REGION".to_string(), "us".to_string())]);
    assert_eq!(options.volumes, vec![("/data".to_string(), "my-vol".to_string())]);
    assert_eq!(options.retries, Some(3));
    assert_eq!(options.retries_spec, None);
    assert_eq!(options.schedule.as_deref(), Some("cron:UTC:0 9 * * 1"));
    assert_eq!(options.min_containers, Some(1));
    assert_eq!(options.max_containers, Some(5));
    assert_eq!(options.buffer_containers, Some(2));
    assert_eq!(options.scaledown_window, Some(120));
    assert_eq!(options.image.as_deref(), Some(r#"{"base":"rust:1-slim"}"#));
    assert!(options.enable_memory_snapshot);
    assert_eq!(options.webhook_method.as_deref(), Some("POST"));
    assert!(options.webhook_requires_proxy_auth);
    assert_eq!(options.web_server_port, Some(3000));
    assert_eq!(options.web_server_startup_timeout, Some(30));
    assert_eq!(options.max_concurrent_inputs, Some(8));
    assert_eq!(options.target_concurrent_inputs, Some(4));
}

#[test]
fn config_round_trip_no_field_survives_default() {
    let config = FunctionConfig {
        gpu: Some("H100"),
        timeout_secs: Some(600),
        cache: Some(true),
        milli_cpu: Some(4000),
        memory_mb: Some(8192),
        secrets: &["sec-a", "sec-b"],
        required_keys: &["REQUIRED_KEY"],
        env: &[("ENV_KEY", "env-val")],
        volumes: &[("/mnt/data", "vol-name")],
        retries: Some(5),
        retries_spec: Some("retries:max=5,backoff=2.0,initial_delay=1,max_delay=30"),
        schedule: Some("cron:UTC:0 0 * * *"),
        min_containers: Some(2),
        max_containers: Some(10),
        buffer_containers: Some(3),
        scaledown_window: Some(300),
        image: Some(r#"{"base":"nvidia/cuda:12.6.3-devel","install_rust":true}"#),
        enable_memory_snapshot: true,
        webhook_method: Some("POST"),
        webhook_requires_proxy_auth: true,
        web_server_port: Some(3000),
        web_server_startup_timeout: Some(30),
        max_concurrent_inputs: Some(8),
        target_concurrent_inputs: Some(4),
    };

    let opts = FunctionOptions::from_config(&config);

    let FunctionOptions {
        gpu,
        timeout_secs,
        cache,
        milli_cpu,
        memory_mb,
        secrets,
        required_keys,
        env,
        volumes,
        retries,
        retries_spec,
        schedule,
        min_containers,
        max_containers,
        buffer_containers,
        scaledown_window,
        image,
        enable_memory_snapshot,
        webhook_method,
        webhook_requires_proxy_auth,
        web_server_port,
        web_server_startup_timeout,
        max_concurrent_inputs,
        target_concurrent_inputs,
    } = opts;

    assert_eq!(gpu.as_deref(), Some("H100"));
    assert_eq!(timeout_secs, Some(600));
    assert_eq!(cache, Some(true));
    assert_eq!(milli_cpu, Some(4000));
    assert_eq!(memory_mb, Some(8192));
    assert_eq!(secrets, vec!["sec-a".to_string(), "sec-b".to_string()]);
    assert_eq!(required_keys, vec!["REQUIRED_KEY".to_string()]);
    assert_eq!(env, vec![("ENV_KEY".to_string(), "env-val".to_string())]);
    assert_eq!(volumes, vec![("/mnt/data".to_string(), "vol-name".to_string())]);
    assert_eq!(retries, Some(5));
    assert_eq!(retries_spec.as_deref(), Some("retries:max=5,backoff=2.0,initial_delay=1,max_delay=30"));
    assert_eq!(schedule.as_deref(), Some("cron:UTC:0 0 * * *"));
    assert_eq!(min_containers, Some(2));
    assert_eq!(max_containers, Some(10));
    assert_eq!(buffer_containers, Some(3));
    assert_eq!(scaledown_window, Some(300));
    assert_eq!(image.as_deref(), Some(r#"{"base":"nvidia/cuda:12.6.3-devel","install_rust":true}"#));
    assert!(enable_memory_snapshot);
    assert_eq!(webhook_method.as_deref(), Some("POST"));
    assert!(webhook_requires_proxy_auth);
    assert_eq!(web_server_port, Some(3000));
    assert_eq!(web_server_startup_timeout, Some(30));
    assert_eq!(max_concurrent_inputs, Some(8));
    assert_eq!(target_concurrent_inputs, Some(4));
}

#[test]
fn default_options_and_duplicate_agree_with_derived_defaults() {
    assert_eq!(FunctionOptions::default_options(), FunctionOptions::default());
    let o = FunctionOptions {
        gpu: Some("A10G".to_string()),
        secrets: vec!["s".to_string()],
        volumes: vec![("/v".to_string(), "n".to_string())],
        retries: Some(2),
        ..FunctionOptions::default()
    };
    assert_eq!(o.duplicate(), o);
}

#[test]
fn runner_error_still_reexported_for_handler_fn_shape() {
    let err = RunnerError::Decode("x".to_string());
    assert_eq!(err.kind(), "decode_error");
}

#[test]
fn runner_error_kinds_cover_the_five_variants() {
    assert_eq!(RunnerError::UnknownEntrypoint("e".to_string()).kind(), "unknown_entrypoint");
    assert_eq!(RunnerError::Function { message: "m".to_string(), details: None }.kind(), "function_error");
    assert_eq!(RunnerError::Encode("m".to_string()).kind(), "encode_error");
    assert_eq!(RunnerError::Panic { message: "m".to_string(), backtrace: String::new() }.kind(), "panic");
}

#[test]
fn describe_entries_take_the_first_config_or_the_default() {
    let gpu = FunctionOptions { gpu: Some("A100".to_string()), ..FunctionOptions::default() };
    let later = FunctionOptions { gpu: Some("T4".to_string()), ..FunctionOptions::default() };
    let configs = vec![("add".to_string(), gpu.clone()), ("add".to_string(), later)];
    let names = vec!["add".to_string(), "serve".to_string()];
    let entries = describe_entries(&names, &configs);
    assert_eq!(entries, vec![("add".to_string(), gpu), ("serve".to_string(), FunctionOptions::default())]);
    assert_eq!(DESCRIBE_SCHEMA, "modal-rust/describe@1");
}

#[test]
fn first_declared_image_wins() {
    let none = FunctionOptions::default();
    let a = FunctionOptions { image: Some("{\"base\":\"a\"}".to_string()), ..FunctionOptions::default() };
    let b = FunctionOptions { image: Some("{\"base\":\"b\"}".to_string()), ..FunctionOptions::default() };
    assert_eq!(first_declared_image(&vec![none.clone(), a, b]), Some("{\"base\":\"a\"}".to_string()));
    assert_eq!(first_declared_image(&vec![none]), None);
    assert_eq!(first_declared_image(&vec![]), None);
}

#[test]
fn options_by_name_sorts_names_and_keeps_the_last_pair() {
    let a1 = FunctionOptions { gpu: Some("T4".to_string()), ..FunctionOptions::default() };
    let a2 = FunctionOptions { gpu: Some("A100".to_string()), ..FunctionOptions::default() };
    let b = FunctionOptions { timeout_secs: Some(9), ..FunctionOptions::default() };
    let by = FunctionOptions::by_name(vec![
        ("sub".to_string(), b.clone()),
        ("add".to_string(), a1),
        ("Zed".to_string(), FunctionOptions::default()),
        ("add".to_string(), a2.clone()),
    ]);
    assert_eq!(
        by,
        vec![
            ("Zed".to_string(), FunctionOptions::default()),
            ("add".to_string(), a2),
            ("sub".to_string(), b),
        ]
    );
    assert!(FunctionOptions::by_name(vec![]).is_empty());
}

#[test]
fn options_for_copies_the_first_recorded_else_the_defaults() {
    let configs = vec![
        ("add".to_string(), FunctionOptions { timeout_secs: Some(60), ..FunctionOptions::default() }),
        ("add".to_string(), FunctionOptions { timeout_secs: Some(90), ..FunctionOptions::default() }),
    ];
    assert_eq!(options_for(&configs, "add").timeout_secs, Some(60));
    assert_eq!(options_for(&configs, "mul"), FunctionOptions::default());
}
