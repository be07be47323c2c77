//! The `MODAL_RUST_*` environment-variable names and the parsers for their values.
//!
//! Reading the process environment happens at the edge (the caller hands the raw
//! value in); the decision of what a value means is made here.

use vstd::prelude::*;
use crate::text::{lower, trim, trimmed_lower};

verus! {

/// Cargo package built/invoked remotely (`cargo build -p <pkg>`).
pub const PACKAGE: &'static str = "MODAL_RUST_PACKAGE";
/// Source dir to upload.
pub const SOURCE_DIR: &'static str = "MODAL_RUST_SOURCE_DIR";
/// Base image for the run/deploy build.
pub const BASE_IMAGE: &'static str = "MODAL_RUST_BASE_IMAGE";
/// Truthy ⇒ install the Rust toolchain into the image.
pub const INSTALL_RUST: &'static str = "MODAL_RUST_INSTALL_RUST";
/// Truthy ⇒ disable the run-path cargo build cache (default ON).
pub const NO_CACHE: &'static str = "MODAL_RUST_NO_CACHE";
/// `target/` archiving in the build cache — default ON; a falsy value opts out.
pub const CACHE_TARGET: &'static str = "MODAL_RUST_CACHE_TARGET";
/// Stable deploy app name override.
pub const DEPLOY_APP: &'static str = "MODAL_RUST_DEPLOY_APP";
/// Truthy ⇒ a failed snapshot prime degrades to lazy `#[enter]`.
pub const SNAPSHOT_BEST_EFFORT: &'static str = "MODAL_RUST_SNAPSHOT_BEST_EFFORT";
/// Container-side escape hatch read only by the Python wrappers.
pub const SERVE: &'static str = "MODAL_RUST_SERVE";
/// Baked into the deploy image when any entrypoint enables memory snapshots.
pub const SNAPSHOT_PRIME: &'static str = "MODAL_RUST_SNAPSHOT_PRIME";
/// Base64-encoded JSON run config baked into the run image.
pub const RUN_CONFIG_JSON_B64: &'static str = "MODAL_RUST_RUN_CONFIG_JSON_B64";
/// The secret key the live secrets/volumes test round-trips.
pub const TEST_SECRET: &'static str = "MODAL_RUST_TEST_SECRET";
/// Overrides the deploy wrapper's runner path (wrapper tests only).
pub const RUNNER: &'static str = "MODAL_RUST_RUNNER";

/// The truthy words, after trimming and ASCII lower-casing.
pub open spec fn truthy_word(w: Seq<char>) -> bool {
    w == "1"@ || w == "true"@ || w == "yes"@ || w == "on"@
}

/// The falsy words that opt `target/` caching out.
pub open spec fn falsy_word(w: Seq<char>) -> bool {
    w == "0"@ || w == "false"@ || w == "no"@ || w == "off"@
}

/// What a set variable's value means for a boolean knob.
pub open spec fn spec_is_truthy(v: Seq<char>) -> bool {
    truthy_word(lower(trim(v)))
}

fn eq_lit(a: &String, lit: &str) -> (r: bool)
    ensures
        r == (a@ == lit@),
{
    let b = String::from_str(lit);
    *a == b
}

/// The ONE truthy parser for `MODAL_RUST_*` boolean knobs: trimmed,
/// case-insensitive `1`/`true`/`yes`/`on` ⇒ `true`; anything else ⇒ `false`.
pub fn is_truthy(value: &str) -> (r: bool)
    ensures
        r == spec_is_truthy(value@),
{
    let w = trimmed_lower(value);
    eq_lit(&w, "1") || eq_lit(&w, "true") || eq_lit(&w, "yes") || eq_lit(&w, "on")
}

/// `env_bool` over the looked-up value: unset ⇒ `false`, set ⇒ [`is_truthy`].
pub fn env_bool_value(value: Option<&str>) -> (r: bool)
    ensures
        r == match value {
            None => false,
            Some(v) => spec_is_truthy(v@),
        },
{
    match value {
        None => false,
        Some(v) => is_truthy(v),
    }
}

/// `target/` caching knob: unset ⇒ ON; a trimmed, case-insensitive
/// `0`/`false`/`no`/`off` ⇒ OFF; anything else ⇒ ON.
pub fn cache_target_enabled(value: Option<&str>) -> (r: bool)
    ensures
        r == match value {
            None => true,
            Some(v) => !falsy_word(lower(trim(v@))),
        },
{
    match value {
        None => true,
        Some(v) => {
            let w = trimmed_lower(v);
            !(eq_lit(&w, "0") || eq_lit(&w, "false") || eq_lit(&w, "no") || eq_lit(&w, "off"))
        },
    }
}

/// The run-path cache default: ON unless `MODAL_RUST_NO_CACHE` is truthy.
pub fn cache_enabled(no_cache: Option<&str>) -> (r: bool)
    ensures
        r == !match no_cache {
            None => false,
            Some(v) => spec_is_truthy(v@),
        },
{
    !env_bool_value(no_cache)
}

} // verus!
