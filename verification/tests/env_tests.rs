use modal_rust::env::{
    cache_enabled, cache_target_enabled, env_bool_value, is_truthy, BASE_IMAGE, CACHE_TARGET, DEPLOY_APP,
    INSTALL_RUST, NO_CACHE, PACKAGE, RUNNER, RUN_CONFIG_JSON_B64, SERVE, SNAPSHOT_BEST_EFFORT, SNAPSHOT_PRIME,
    SOURCE_DIR, TEST_SECRET,
};

#[test]
fn env_bool_truthy_table() {
    assert!(!env_bool_value(None), "unset => false");
    for truthy in ["1", "true", "YES", " on ", "True"] {
        assert!(env_bool_value(Some(truthy)), "{truthy:?} must parse truthy");
        assert!(is_truthy(truthy));
    }
    for falsy in ["0", "false", "no", "off", "", "2"] {
        assert!(!env_bool_value(Some(falsy)), "{falsy:?} must parse falsy");
        assert!(!is_truthy(falsy));
    }
}

#[test]
fn discover_cache_target_default_on_env_opts_out() {
    assert!(cache_target_enabled(None), "target caching defaults ON");
    for falsy in ["0", "false", "NO", "Off"] {
        assert!(!cache_target_enabled(Some(falsy)), "{falsy:?} must opt target caching OUT");
    }
    assert!(cache_target_enabled(Some("1")));
    assert!(cache_target_enabled(Some("anything")));
}

#[test]
fn discover_cache_default_on_env_flips_off() {
    assert!(cache_enabled(None), "cache defaults ON");
    assert!(!cache_enabled(Some("1")), "a truthy NO_CACHE flips it off");
    assert!(!cache_enabled(Some(" TRUE ")));
    assert!(cache_enabled(Some("0")));
}

#[test]
fn every_declared_name_carries_the_prefix() {
    for name in [
        PACKAGE,
        SOURCE_DIR,
        BASE_IMAGE,
        INSTALL_RUST,
        NO_CACHE,
        CACHE_TARGET,
        DEPLOY_APP,
        SNAPSHOT_BEST_EFFORT,
        SERVE,
        SNAPSHOT_PRIME,
        RUN_CONFIG_JSON_B64,
        TEST_SECRET,
        RUNNER,
    ] {
        assert!(name.starts_with("MODAL_RUST_"), "{name}");
    }
    assert_eq!(CACHE_TARGET, "MODAL_RUST_CACHE_TARGET");
    assert_eq!(NO_CACHE, "MODAL_RUST_NO_CACHE");
}
