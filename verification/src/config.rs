//! Per-function configuration: the static, const-initializable shape the
//! registration records carry, and the owned options the rest of the library
//! works with.

use vstd::prelude::*;
use crate::path::views;
use crate::order::str_lt;

verus! {

/// Per-function deploy/run configuration as a registration record declares it.
#[derive(Debug, Clone, Default, PartialEq, Eq)]
pub struct FunctionConfig {
    /// GPU spec string, Modal format (`"T4"`, `"A100-80GB"`, `"H100:4"`); `None` runs on CPU.
    pub gpu: Option<&'static str>,
    /// Function timeout in seconds; `None` keeps the path default.
    pub timeout_secs: Option<u32>,
    /// Build-cache hint; `None` keeps the path default.
    pub cache: Option<bool>,
    /// Requested CPU in milli-cores; `None` keeps the server default.
    pub milli_cpu: Option<u32>,
    /// Requested memory in MiB; `None` keeps the server default.
    pub memory_mb: Option<u32>,
    /// Named Modal secrets to attach.
    pub secrets: &'static [&'static str],
    /// Keys asserted present on the named secrets.
    pub required_keys: &'static [&'static str],
    /// Inline secret key/values.
    pub env: &'static [(&'static str, &'static str)],
    /// User volumes as `(mount_path, volume_name)` pairs.
    pub volumes: &'static [(&'static str, &'static str)],
    /// Automatic retry count; `None` sets no retry policy.
    pub retries: Option<u32>,
    /// Custom retry-policy spec (the struct form); wins over `retries`.
    pub retries_spec: Option<&'static str>,
    /// Run-schedule spec (`Cron` / `Period`).
    pub schedule: Option<&'static str>,
    /// Autoscaler floor.
    pub min_containers: Option<u32>,
    /// Autoscaler ceiling.
    pub max_containers: Option<u32>,
    /// Warm buffer of idle containers.
    pub buffer_containers: Option<u32>,
    /// Idle seconds before scale-down.
    pub scaledown_window: Option<u32>,
    /// Per-function image spec (compact JSON).
    pub image: Option<&'static str>,
    /// Memory-snapshot opt-in (deploy only).
    pub enable_memory_snapshot: bool,
    /// Web-endpoint HTTP method (deploy only).
    pub webhook_method: Option<&'static str>,
    /// Proxy-auth opt-in for the endpoint.
    pub webhook_requires_proxy_auth: bool,
    /// Web-server port (deploy only).
    pub web_server_port: Option<u16>,
    /// Web-server startup timeout in seconds.
    pub web_server_startup_timeout: Option<u32>,
    /// Per-container maximum input concurrency.
    pub max_concurrent_inputs: Option<u32>,
    /// Per-container target input concurrency.
    pub target_concurrent_inputs: Option<u32>,
}

impl FunctionConfig {
    /// The all-default configuration.
    pub fn new() -> (r: FunctionConfig)
        ensures
            r == spec_default_config(),
            r.secrets@.len() == 0,
            r.required_keys@.len() == 0,
            r.env@.len() == 0,
            r.volumes@.len() == 0,
    {
        FunctionConfig {
            gpu: None,
            timeout_secs: None,
            cache: None,
            milli_cpu: None,
            memory_mb: None,
            secrets: &[],
            required_keys: &[],
            env: &[],
            volumes: &[],
            retries: None,
            retries_spec: None,
            schedule: None,
            min_containers: None,
            max_containers: None,
            buffer_containers: None,
            scaledown_window: None,
            image: None,
            enable_memory_snapshot: false,
            webhook_method: None,
            webhook_requires_proxy_auth: false,
            web_server_port: None,
            web_server_startup_timeout: None,
            max_concurrent_inputs: None,
            target_concurrent_inputs: None,
        }
    }
}

/// The all-default configuration, as a value.
pub open spec fn spec_default_config() -> FunctionConfig {
    FunctionConfig {
        gpu: None,
        timeout_secs: None,
        cache: None,
        milli_cpu: None,
        memory_mb: None,
        secrets: &[],
        required_keys: &[],
        env: &[],
        volumes: &[],
        retries: None,
        retries_spec: None,
        schedule: None,
        min_containers: None,
        max_containers: None,
        buffer_containers: None,
        scaledown_window: None,
        image: None,
        enable_memory_snapshot: false,
        webhook_method: None,
        webhook_requires_proxy_auth: false,
        web_server_port: None,
        web_server_startup_timeout: None,
        max_concurrent_inputs: None,
        target_concurrent_inputs: None,
    }
}

/// Owned per-function deploy/run options.
#[derive(Debug, Clone, Default, PartialEq, Eq, PartialOrd, Ord)]
pub struct FunctionOptions {
    /// GPU spec string, Modal format (`"T4"`, `"A100-80GB"`, `"H100:4"`); `None` runs on CPU.
    pub gpu: Option<String>,
    /// Function timeout in seconds; `None` keeps the path default.
    pub timeout_secs: Option<u32>,
    /// Build-cache hint; `None` keeps the path default.
    pub cache: Option<bool>,
    /// Requested CPU in milli-cores; `None` keeps the server default.
    pub milli_cpu: Option<u32>,
    /// Requested memory in MiB; `None` keeps the server default.
    pub memory_mb: Option<u32>,
    /// Named Modal secrets to attach.
    pub secrets: Vec<String>,
    /// Keys asserted present on the named secrets.
    pub required_keys: Vec<String>,
    /// Inline secret key/values.
    pub env: Vec<(String, String)>,
    /// User volumes as `(mount_path, volume_name)` pairs.
    pub volumes: Vec<(String, String)>,
    /// Automatic retry count; `None` sets no retry policy.
    pub retries: Option<u32>,
    /// Custom retry-policy spec (the struct form); wins over `retries`.
    pub retries_spec: Option<String>,
    /// Run-schedule spec (`Cron` / `Period`).
    pub schedule: Option<String>,
    /// Autoscaler floor.
    pub min_containers: Option<u32>,
    /// Autoscaler ceiling.
    pub max_containers: Option<u32>,
    /// Warm buffer of idle containers.
    pub buffer_containers: Option<u32>,
    /// Idle seconds before scale-down.
    pub scaledown_window: Option<u32>,
    /// Per-function image spec (compact JSON).
    pub image: Option<String>,
    /// Memory-snapshot opt-in (deploy only).
    pub enable_memory_snapshot: bool,
    /// Web-endpoint HTTP method (deploy only).
    pub webhook_method: Option<String>,
    /// Proxy-auth opt-in for the endpoint.
    pub webhook_requires_proxy_auth: bool,
    /// Web-server port (deploy only).
    pub web_server_port: Option<u16>,
    /// Web-server startup timeout in seconds.
    pub web_server_startup_timeout: Option<u32>,
    /// Per-container maximum input concurrency.
    pub max_concurrent_inputs: Option<u32>,
    /// Per-container target input concurrency.
    pub target_concurrent_inputs: Option<u32>,
}


/// The view of an owned optional string.
pub open spec fn opt_owned(o: Option<String>) -> Option<Seq<char>> {
    match o {
        Some(s) => Some(s@),
        None => None,
    }
}

/// The view of a borrowed optional string.
pub open spec fn opt_borrowed(o: Option<&str>) -> Option<Seq<char>> {
    match o {
        Some(s) => Some(s@),
        None => None,
    }
}

/// The views of borrowed strings.
pub open spec fn str_views(s: Seq<&str>) -> Seq<Seq<char>> {
    s.map_values(|x: &str| x@)
}

/// The views of owned string pairs.
pub open spec fn pair_views(v: Seq<(String, String)>) -> Seq<(Seq<char>, Seq<char>)> {
    v.map_values(|p: (String, String)| (p.0@, p.1@))
}

/// The views of borrowed string pairs.
pub open spec fn borrowed_pair_views(v: Seq<(&str, &str)>) -> Seq<(Seq<char>, Seq<char>)> {
    v.map_values(|p: (&str, &str)| (p.0@, p.1@))
}

/// `o` holds exactly what `c` declares, owned.
pub open spec fn options_from(c: FunctionConfig, o: FunctionOptions) -> bool {
    &&& opt_owned(o.gpu) == opt_borrowed(c.gpu)
    &&& o.timeout_secs == c.timeout_secs
    &&& o.cache == c.cache
    &&& o.milli_cpu == c.milli_cpu
    &&& o.memory_mb == c.memory_mb
    &&& views(o.secrets@) == str_views(c.secrets@)
    &&& views(o.required_keys@) == str_views(c.required_keys@)
    &&& pair_views(o.env@) == borrowed_pair_views(c.env@)
    &&& pair_views(o.volumes@) == borrowed_pair_views(c.volumes@)
    &&& o.retries == c.retries
    &&& opt_owned(o.retries_spec) == opt_borrowed(c.retries_spec)
    &&& opt_owned(o.schedule) == opt_borrowed(c.schedule)
    &&& o.min_containers == c.min_containers
    &&& o.max_containers == c.max_containers
    &&& o.buffer_containers == c.buffer_containers
    &&& o.scaledown_window == c.scaledown_window
    &&& opt_owned(o.image) == opt_borrowed(c.image)
    &&& o.enable_memory_snapshot == c.enable_memory_snapshot
    &&& opt_owned(o.webhook_method) == opt_borrowed(c.webhook_method)
    &&& o.webhook_requires_proxy_auth == c.webhook_requires_proxy_auth
    &&& o.web_server_port == c.web_server_port
    &&& o.web_server_startup_timeout == c.web_server_startup_timeout
    &&& o.max_concurrent_inputs == c.max_concurrent_inputs
    &&& o.target_concurrent_inputs == c.target_concurrent_inputs
}

fn owned_opt(o: Option<&str>) -> (r: Option<String>)
    ensures
        opt_owned(r) == opt_borrowed(o),
{
    match o {
        Some(s) => Some(String::from_str(s)),
        None => None,
    }
}

fn owned_strs(s: &[&str]) -> (r: Vec<String>)
    ensures
        views(r@) == str_views(s@),
{
    let mut r: Vec<String> = Vec::new();
    let mut i: usize = 0;
    while i < s.len()
        invariant
            i <= s@.len(),
            views(r@) == str_views(s@).subrange(0, i as int),
        decreases s@.len() - i,
    {
        let ghost before = views(r@);
        r.push(String::from_str(s[i]));
        proof {
            assert(views(r@) =~= before.push(s@[i as int]@));
            assert(str_views(s@).subrange(0, i + 1) =~= str_views(s@).subrange(0, i as int).push(s@[i as int]@));
        }
        i = i + 1;
    }
    proof {
        assert(str_views(s@).subrange(0, s@.len() as int) =~= str_views(s@));
    }
    r
}

fn owned_pairs(s: &[(&str, &str)]) -> (r: Vec<(String, String)>)
    ensures
        pair_views(r@) == borrowed_pair_views(s@),
{
    let mut r: Vec<(String, String)> = Vec::new();
    let mut i: usize = 0;
    while i < s.len()
        invariant
            i <= s@.len(),
            pair_views(r@) == borrowed_pair_views(s@).subrange(0, i as int),
        decreases s@.len() - i,
    {
        let ghost before = pair_views(r@);
        let (a, b) = s[i];
        r.push((String::from_str(a), String::from_str(b)));
        proof {
            assert(pair_views(r@) =~= before.push((s@[i as int].0@, s@[i as int].1@)));
            assert(borrowed_pair_views(s@).subrange(0, i + 1) =~= borrowed_pair_views(s@).subrange(0, i as int).push(
                (s@[i as int].0@, s@[i as int].1@),
            ));
        }
        i = i + 1;
    }
    proof {
        assert(borrowed_pair_views(s@).subrange(0, s@.len() as int) =~= borrowed_pair_views(s@));
    }
    r
}

impl FunctionOptions {
    /// The owned options a registration's [`FunctionConfig`] declares: every
    /// field carried over, the borrowed strings copied.
    pub fn from_config(config: &FunctionConfig) -> (r: FunctionOptions)
        ensures
            options_from(*config, r),
    {
        FunctionOptions {
            gpu: owned_opt(config.gpu),
            timeout_secs: config.timeout_secs,
            cache: config.cache,
            milli_cpu: config.milli_cpu,
            memory_mb: config.memory_mb,
            secrets: owned_strs(config.secrets),
            required_keys: owned_strs(config.required_keys),
            env: owned_pairs(config.env),
            volumes: owned_pairs(config.volumes),
            retries: config.retries,
            retries_spec: owned_opt(config.retries_spec),
            schedule: owned_opt(config.schedule),
            min_containers: config.min_containers,
            max_containers: config.max_containers,
            buffer_containers: config.buffer_containers,
            scaledown_window: config.scaledown_window,
            image: owned_opt(config.image),
            enable_memory_snapshot: config.enable_memory_snapshot,
            webhook_method: owned_opt(config.webhook_method),
            webhook_requires_proxy_auth: config.webhook_requires_proxy_auth,
            web_server_port: config.web_server_port,
            web_server_startup_timeout: config.web_server_startup_timeout,
            max_concurrent_inputs: config.max_concurrent_inputs,
            target_concurrent_inputs: config.target_concurrent_inputs,
        }
    }
}

/// `o` is the all-default options value: every option unset, every list empty.
pub open spec fn is_default_options(o: FunctionOptions) -> bool {
    &&& o.gpu is None
    &&& o.timeout_secs is None
    &&& o.cache is None
    &&& o.milli_cpu is None
    &&& o.memory_mb is None
    &&& o.secrets@.len() == 0
    &&& o.required_keys@.len() == 0
    &&& o.env@.len() == 0
    &&& o.volumes@.len() == 0
    &&& o.retries is None
    &&& o.retries_spec is None
    &&& o.schedule is None
    &&& o.min_containers is None
    &&& o.max_containers is None
    &&& o.buffer_containers is None
    &&& o.scaledown_window is None
    &&& o.image is None
    &&& !o.enable_memory_snapshot
    &&& o.webhook_method is None
    &&& !o.webhook_requires_proxy_auth
    &&& o.web_server_port is None
    &&& o.web_server_startup_timeout is None
    &&& o.max_concurrent_inputs is None
    &&& o.target_concurrent_inputs is None
}

impl FunctionOptions {
    /// The all-default options.
    pub fn default_options() -> (r: FunctionOptions)
        ensures
            is_default_options(r),
    {
        FunctionOptions {
            gpu: None,
            timeout_secs: None,
            cache: None,
            milli_cpu: None,
            memory_mb: None,
            secrets: Vec::new(),
            required_keys: Vec::new(),
            env: Vec::new(),
            volumes: Vec::new(),
            retries: None,
            retries_spec: None,
            schedule: None,
            min_containers: None,
            max_containers: None,
            buffer_containers: None,
            scaledown_window: None,
            image: None,
            enable_memory_snapshot: false,
            webhook_method: None,
            webhook_requires_proxy_auth: false,
            web_server_port: None,
            web_server_startup_timeout: None,
            max_concurrent_inputs: None,
            target_concurrent_inputs: None,
        }
    }
}

/// `a` and `b` hold the same options.
pub open spec fn same_options(a: FunctionOptions, b: FunctionOptions) -> bool {
    &&& opt_owned(a.gpu) == opt_owned(b.gpu)
    &&& a.timeout_secs == b.timeout_secs
    &&& a.cache == b.cache
    &&& a.milli_cpu == b.milli_cpu
    &&& a.memory_mb == b.memory_mb
    &&& views(a.secrets@) == views(b.secrets@)
    &&& views(a.required_keys@) == views(b.required_keys@)
    &&& pair_views(a.env@) == pair_views(b.env@)
    &&& pair_views(a.volumes@) == pair_views(b.volumes@)
    &&& a.retries == b.retries
    &&& opt_owned(a.retries_spec) == opt_owned(b.retries_spec)
    &&& opt_owned(a.schedule) == opt_owned(b.schedule)
    &&& a.min_containers == b.min_containers
    &&& a.max_containers == b.max_containers
    &&& a.buffer_containers == b.buffer_containers
    &&& a.scaledown_window == b.scaledown_window
    &&& opt_owned(a.image) == opt_owned(b.image)
    &&& a.enable_memory_snapshot == b.enable_memory_snapshot
    &&& opt_owned(a.webhook_method) == opt_owned(b.webhook_method)
    &&& a.webhook_requires_proxy_auth == b.webhook_requires_proxy_auth
    &&& a.web_server_port == b.web_server_port
    &&& a.web_server_startup_timeout == b.web_server_startup_timeout
    &&& a.max_concurrent_inputs == b.max_concurrent_inputs
    &&& a.target_concurrent_inputs == b.target_concurrent_inputs
}

fn opt_str_eq(a: &Option<String>, b: &Option<String>) -> (r: bool)
    ensures
        r == (opt_owned(*a) == opt_owned(*b)),
{
    match (a, b) {
        (Some(x), Some(y)) => crate::path::str_eq(x.as_str(), y.as_str()),
        (None, None) => true,
        _ => false,
    }
}

fn opt_u32_eq(a: Option<u32>, b: Option<u32>) -> (r: bool)
    ensures
        r == (a == b),
{
    match (a, b) {
        (Some(x), Some(y)) => x == y,
        (None, None) => true,
        _ => false,
    }
}

fn opt_u16_eq(a: Option<u16>, b: Option<u16>) -> (r: bool)
    ensures
        r == (a == b),
{
    match (a, b) {
        (Some(x), Some(y)) => x == y,
        (None, None) => true,
        _ => false,
    }
}

fn opt_bool_eq(a: Option<bool>, b: Option<bool>) -> (r: bool)
    ensures
        r == (a == b),
{
    match (a, b) {
        (Some(x), Some(y)) => x == y,
        (None, None) => true,
        _ => false,
    }
}

fn strings_eq(a: &Vec<String>, b: &Vec<String>) -> (r: bool)
    ensures
        r == (views(a@) == views(b@)),
{
    if a.len() != b.len() {
        proof {
            assert(views(a@).len() != views(b@).len());
        }
        return false;
    }
    let mut i: usize = 0;
    while i < a.len()
        invariant
            i <= a@.len(),
            a@.len() == b@.len(),
            forall|k: int| 0 <= k < i ==> (#[trigger] a@[k])@ == b@[k]@,
        decreases a@.len() - i,
    {
        if !crate::path::str_eq(a[i].as_str(), b[i].as_str()) {
            proof {
                assert(views(a@)[i as int] != views(b@)[i as int]);
            }
            return false;
        }
        i = i + 1;
    }
    proof {
        assert(views(a@) =~= views(b@));
    }
    true
}

fn pairs_eq(a: &Vec<(String, String)>, b: &Vec<(String, String)>) -> (r: bool)
    ensures
        r == (pair_views(a@) == pair_views(b@)),
{
    if a.len() != b.len() {
        proof {
            assert(pair_views(a@).len() != pair_views(b@).len());
        }
        return false;
    }
    let mut i: usize = 0;
    while i < a.len()
        invariant
            i <= a@.len(),
            a@.len() == b@.len(),
            forall|k: int| 0 <= k < i ==> (#[trigger] a@[k]).0@ == b@[k].0@ && a@[k].1@ == b@[k].1@,
        decreases a@.len() - i,
    {
        if !crate::path::str_eq(a[i].0.as_str(), b[i].0.as_str()) || !crate::path::str_eq(a[i].1.as_str(), b[i].1.as_str()) {
            proof {
                assert(pair_views(a@)[i as int] != pair_views(b@)[i as int]);
            }
            return false;
        }
        i = i + 1;
    }
    proof {
        assert(pair_views(a@) =~= pair_views(b@));
    }
    true
}

/// Whether two option sets hold the same options, field by field.
pub fn options_equal(a: &FunctionOptions, b: &FunctionOptions) -> (r: bool)
    ensures
        r == same_options(*a, *b),
{
    opt_str_eq(&a.gpu, &b.gpu) && opt_u32_eq(a.timeout_secs, b.timeout_secs) && opt_bool_eq(a.cache, b.cache)
        && opt_u32_eq(a.milli_cpu, b.milli_cpu) && opt_u32_eq(a.memory_mb, b.memory_mb) && strings_eq(&a.secrets, &b.secrets)
        && strings_eq(&a.required_keys, &b.required_keys) && pairs_eq(&a.env, &b.env) && pairs_eq(&a.volumes, &b.volumes)
        && opt_u32_eq(a.retries, b.retries) && opt_str_eq(&a.retries_spec, &b.retries_spec) && opt_str_eq(
        &a.schedule,
        &b.schedule,
    ) && opt_u32_eq(a.min_containers, b.min_containers) && opt_u32_eq(a.max_containers, b.max_containers) && opt_u32_eq(
        a.buffer_containers,
        b.buffer_containers,
    ) && opt_u32_eq(a.scaledown_window, b.scaledown_window) && opt_str_eq(&a.image, &b.image) && a.enable_memory_snapshot
        == b.enable_memory_snapshot && opt_str_eq(&a.webhook_method, &b.webhook_method) && a.webhook_requires_proxy_auth
        == b.webhook_requires_proxy_auth && opt_u16_eq(a.web_server_port, b.web_server_port) && opt_u32_eq(
        a.web_server_startup_timeout,
        b.web_server_startup_timeout,
    ) && opt_u32_eq(a.max_concurrent_inputs, b.max_concurrent_inputs) && opt_u32_eq(
        a.target_concurrent_inputs,
        b.target_concurrent_inputs,
    )
}

fn clone_opt_string(o: &Option<String>) -> (r: Option<String>)
    ensures
        opt_owned(r) == opt_owned(*o),
{
    match o {
        Some(s) => Some(s.clone()),
        None => None,
    }
}

fn clone_string_vec(v: &Vec<String>) -> (r: Vec<String>)
    ensures
        views(r@) == views(v@),
{
    let mut r: Vec<String> = Vec::new();
    let mut i: usize = 0;
    while i < v.len()
        invariant
            i <= v@.len(),
            views(r@) == views(v@).subrange(0, i as int),
        decreases v@.len() - i,
    {
        let ghost before = views(r@);
        r.push(v[i].clone());
        proof {
            assert(views(r@) =~= before.push(v@[i as int]@));
            assert(views(v@).subrange(0, i + 1) =~= views(v@).subrange(0, i as int).push(v@[i as int]@));
        }
        i = i + 1;
    }
    proof {
        assert(views(v@).subrange(0, v@.len() as int) =~= views(v@));
    }
    r
}

fn clone_pair_vec(v: &Vec<(String, String)>) -> (r: Vec<(String, String)>)
    ensures
        pair_views(r@) == pair_views(v@),
{
    let mut r: Vec<(String, String)> = Vec::new();
    let mut i: usize = 0;
    while i < v.len()
        invariant
            i <= v@.len(),
            pair_views(r@) == pair_views(v@).subrange(0, i as int),
        decreases v@.len() - i,
    {
        let ghost before = pair_views(r@);
        r.push((v[i].0.clone(), v[i].1.clone()));
        proof {
            assert(pair_views(r@) =~= before.push((v@[i as int].0@, v@[i as int].1@)));
            assert(pair_views(v@).subrange(0, i + 1) =~= pair_views(v@).subrange(0, i as int).push(
                (v@[i as int].0@, v@[i as int].1@),
            ));
        }
        i = i + 1;
    }
    proof {
        assert(pair_views(v@).subrange(0, v@.len() as int) =~= pair_views(v@));
    }
    r
}

impl FunctionOptions {
    /// A copy of these options.
    pub fn duplicate(&self) -> (r: FunctionOptions)
        ensures
            same_options(r, *self),
    {
        let o = self;
        FunctionOptions {
            gpu: clone_opt_string(&o.gpu),
            timeout_secs: o.timeout_secs,
            cache: o.cache,
            milli_cpu: o.milli_cpu,
            memory_mb: o.memory_mb,
            secrets: clone_string_vec(&o.secrets),
            required_keys: clone_string_vec(&o.required_keys),
            env: clone_pair_vec(&o.env),
            volumes: clone_pair_vec(&o.volumes),
            retries: o.retries,
            retries_spec: clone_opt_string(&o.retries_spec),
            schedule: clone_opt_string(&o.schedule),
            min_containers: o.min_containers,
            max_containers: o.max_containers,
            buffer_containers: o.buffer_containers,
            scaledown_window: o.scaledown_window,
            image: clone_opt_string(&o.image),
            enable_memory_snapshot: o.enable_memory_snapshot,
            webhook_method: clone_opt_string(&o.webhook_method),
            webhook_requires_proxy_auth: o.webhook_requires_proxy_auth,
            web_server_port: o.web_server_port,
            web_server_startup_timeout: o.web_server_startup_timeout,
            max_concurrent_inputs: o.max_concurrent_inputs,
            target_concurrent_inputs: o.target_concurrent_inputs,
        }
    }
}
/// The schema tag of the `--describe` manifest.
pub const DESCRIBE_SCHEMA: &'static str = "modal-rust/describe@1";

/// The options first recorded under `name`, if any.
pub open spec fn config_for(configs: Seq<(String, FunctionOptions)>, name: Seq<char>) -> Option<FunctionOptions>
    decreases configs.len(),
{
    if configs.len() == 0 {
        None
    } else if configs[0].0@ == name {
        Some(configs[0].1)
    } else {
        config_for(configs.drop_first(), name)
    }
}

fn lookup_config(configs: &Vec<(String, FunctionOptions)>, name: &str) -> (r: Option<usize>)
    ensures
        match config_for(configs@, name@) {
            None => r is None,
            Some(o) => r matches Some(j) && j < configs@.len() && configs@[j as int].1 == o,
        },
{
    let mut j: usize = 0;
    proof {
        assert(configs@.subrange(0, configs@.len() as int) =~= configs@);
    }
    while j < configs.len()
        invariant
            j <= configs@.len(),
            config_for(configs@, name@) == config_for(configs@.subrange(j as int, configs@.len() as int), name@),
        decreases configs@.len() - j,
    {
        proof {
            assert(configs@.subrange(j as int, configs@.len() as int).drop_first() =~= configs@.subrange(
                j + 1,
                configs@.len() as int,
            ));
        }
        if crate::path::str_eq(configs[j].0.as_str(), name) {
            return Some(j);
        }
        j = j + 1;
    }
    None
}

/// The options recorded for `name`: a copy of the first recorded under it,
/// or the defaults when none is.
pub fn options_for(configs: &Vec<(String, FunctionOptions)>, name: &str) -> (r: FunctionOptions)
    ensures
        match config_for(configs@, name@) {
            Some(o) => same_options(r, o),
            None => is_default_options(r),
        },
{
    match lookup_config(configs, name) {
        Some(j) => configs[j].1.duplicate(),
        None => FunctionOptions::default_options(),
    }
}

/// The `--describe` entries: every entrypoint name, in order, with the options
/// first recorded under it, or the defaults when none is.
pub fn describe_entries(names: &Vec<String>, configs: &Vec<(String, FunctionOptions)>) -> (r: Vec<(String, FunctionOptions)>)
    ensures
        r@.len() == names@.len(),
        forall|i: int| 0 <= i < r@.len() ==> (#[trigger] r@[i]).0@ == names@[i]@ && match config_for(configs@, names@[i]@) {
            Some(o) => same_options(r@[i].1, o),
            None => is_default_options(r@[i].1),
        },
{
    let mut r: Vec<(String, FunctionOptions)> = Vec::new();
    let mut i: usize = 0;
    while i < names.len()
        invariant
            i <= names@.len(),
            r@.len() == i,
            forall|k: int| 0 <= k < i ==> (#[trigger] r@[k]).0@ == names@[k]@ && match config_for(configs@, names@[k]@) {
                Some(o) => same_options(r@[k].1, o),
                None => is_default_options(r@[k].1),
            },
        decreases names@.len() - i,
    {
        let options = match lookup_config(configs, names[i].as_str()) {
            Some(j) => configs[j].1.duplicate(),
            None => FunctionOptions::default_options(),
        };
        r.push((names[i].clone(), options));
        i = i + 1;
    }
    r
}

/// The image declaration of the first entrypoint that declares one.
pub open spec fn first_image(opts: Seq<FunctionOptions>) -> Option<Seq<char>>
    decreases opts.len(),
{
    if opts.len() == 0 {
        None
    } else if opts[0].image is Some {
        Some(opts[0].image->0@)
    } else {
        first_image(opts.drop_first())
    }
}

/// The image declaration (its spec text) of the first entrypoint that declares
/// one: the shared deploy image is built from it.
pub fn first_declared_image(options: &Vec<FunctionOptions>) -> (r: Option<String>)
    ensures
        opt_owned(r) == first_image(options@),
{
    let mut j: usize = 0;
    proof {
        assert(options@.subrange(0, options@.len() as int) =~= options@);
    }
    while j < options.len()
        invariant
            j <= options@.len(),
            first_image(options@) == first_image(options@.subrange(j as int, options@.len() as int)),
        decreases options@.len() - j,
    {
        proof {
            assert(options@.subrange(j as int, options@.len() as int).drop_first() =~= options@.subrange(
                j + 1,
                options@.len() as int,
            ));
        }
        match &options[j].image {
            Some(spec) => {
                return Some(spec.clone());
            },
            None => {},
        }
        j = j + 1;
    }
    None
}

/// The value each name ends up with when `(name, value)` pairs are collected
/// in order: a later pair under a name replaces an earlier one.
pub open spec fn named_map<V>(v: Seq<(String, V)>) -> Map<Seq<char>, V>
    decreases v.len(),
{
    if v.len() == 0 {
        Map::empty()
    } else {
        named_map(v.drop_last()).insert(v.last().0@, v.last().1)
    }
}

/// The names are in strictly increasing string order.
pub open spec fn names_sorted<V>(v: Seq<(String, V)>) -> bool {
    forall|i: int, j: int| 0 <= i < j < v.len() ==> str_lt(#[trigger] v[i].0@, #[trigger] v[j].0@)
}

/// `v` lists exactly the map `m`, by name.
pub open spec fn lists_map<V>(v: Seq<(String, V)>, m: Map<Seq<char>, V>) -> bool {
    &&& forall|i: int| 0 <= i < v.len() ==> m.contains_key(#[trigger] v[i].0@) && m[v[i].0@] == v[i].1
    &&& forall|k: Seq<char>| #[trigger] m.contains_key(k) ==> exists|i: int| 0 <= i < v.len() && #[trigger] v[i].0@ == k
}

/// Collects `(name, value)` pairs by name, as a name-ordered map does: the
/// names in string order, each once, with the value of its last pair.
pub fn by_name<V>(pairs: Vec<(String, V)>) -> (r: Vec<(String, V)>)
    ensures
        names_sorted(r@),
        lists_map(r@, named_map(pairs@)),
{
    let ghost orig = pairs@;
    let n = pairs.len();
    let mut rest = pairs;
    let mut r: Vec<(String, V)> = Vec::new();
    let mut k: usize = 0;
    proof {
        assert(orig.subrange(0, 0).len() == 0);
        assert(rest@ =~= orig.subrange(0, orig.len() as int));
    }
    while rest.len() > 0
        invariant
            k <= orig.len(),
            orig.len() == n,
            rest@ == orig.subrange(k as int, orig.len() as int),
            names_sorted(r@),
            lists_map(r@, named_map(orig.subrange(0, k as int))),
        decreases rest@.len(),
    {
        let ghost m0 = named_map(orig.subrange(0, k as int));
        let x = rest.remove(0);
        proof {
            assert(x == orig[k as int]);
            assert(orig.subrange(0, k + 1).drop_last() =~= orig.subrange(0, k as int));
            assert(orig.subrange(0, k + 1).last() == x);
            assert(rest@ =~= orig.subrange(k + 1, orig.len() as int));
        }
        let ghost m1 = m0.insert(x.0@, x.1);
        let ghost before = r@;
        let mut p = r.len();
        let mut done = false;
        while !done && p > 0
            invariant
                p <= r@.len(),
                r@ == before,
                forall|j: int| p <= j < r@.len() ==> str_lt(x.0@, #[trigger] r@[j].0@),
                done ==> p > 0 && !str_lt(x.0@, r@[p - 1].0@),
            decreases p + (if done { 0int } else { 1int }),
        {
            if crate::order::str_less(x.0.as_str(), r[p - 1].0.as_str()) {
                p = p - 1;
            } else {
                done = true;
            }
        }
        if p > 0 && crate::path::str_eq(r[p - 1].0.as_str(), x.0.as_str()) {
            let q = p - 1;
            r.set(q, x);
            proof {
                assert forall|i: int, j: int| 0 <= i < j < r@.len() implies str_lt(#[trigger] r@[i].0@, #[trigger] r@[j].0@) by {
                    assert(r@[i].0@ == before[i].0@ && r@[j].0@ == before[j].0@);
                }
                assert forall|i: int| 0 <= i < r@.len() implies m1.contains_key(#[trigger] r@[i].0@) && m1[r@[i].0@] == r@[i].1 by {
                    if i != q {
                        if i < q {
                            assert(str_lt(before[i].0@, before[q as int].0@));
                        } else {
                            assert(str_lt(before[q as int].0@, before[i].0@));
                        }
                        lemma_str_lt_irrefl(before[q as int].0@);
                        assert(r@[i] == before[i]);
                    }
                }
                assert forall|key: Seq<char>| #[trigger] m1.contains_key(key) implies exists|i: int| 0 <= i < r@.len() && #[trigger] r@[i].0@ == key by {
                    if key == x.0@ {
                        assert(r@[q as int].0@ == key);
                    } else {
                        let i = choose|i: int| 0 <= i < before.len() && #[trigger] before[i].0@ == key;
                        assert(r@[i].0@ == key);
                    }
                }
            }
        } else {
            let ghost xv = x;
            proof {
                if p > 0 {
                    crate::order::lemma_str_lt_total(x.0@, before[p - 1].0@);
                    assert(str_lt(before[p - 1].0@, x.0@));
                    assert forall|i: int| 0 <= i < p implies str_lt(#[trigger] before[i].0@, x.0@) by {
                        if i < p - 1 {
                            assert(str_lt(before[i].0@, before[p - 1].0@));
                            crate::order::lemma_str_lt_trans(before[i].0@, before[p - 1].0@, x.0@);
                        }
                    }
                }
            }
            r.insert(p, x);
            proof {
                let nv = r@;
                assert(nv =~= before.insert(p as int, xv));
                before.insert_ensures(p as int, xv);
                assert forall|i: int| 0 <= i < before.len() implies #[trigger] before[i].0@ != xv.0@ by {
                    lemma_str_lt_irrefl(xv.0@);
                    if i < p {
                        assert(str_lt(before[i].0@, xv.0@));
                    } else {
                        assert(str_lt(xv.0@, before[i].0@));
                    }
                }
                assert forall|i: int, j: int| 0 <= i < j < nv.len() implies str_lt(#[trigger] nv[i].0@, #[trigger] nv[j].0@) by {
                    if j < p {
                        assert(nv[i] == before[i] && nv[j] == before[j]);
                    } else if j == p {
                        assert(nv[i] == before[i]);
                    } else if i < p {
                        assert(nv[i] == before[i] && nv[j] == before[j - 1]);
                        crate::order::lemma_str_lt_trans(before[i].0@, xv.0@, before[j - 1].0@);
                    } else if i == p {
                        assert(nv[j] == before[j - 1]);
                    } else {
                        assert(nv[i] == before[i - 1] && nv[j] == before[j - 1]);
                    }
                }
                assert forall|i: int| 0 <= i < nv.len() implies m1.contains_key(#[trigger] nv[i].0@) && m1[nv[i].0@] == nv[i].1 by {
                    if i < p {
                        assert(nv[i] == before[i]);
                    } else if i > p {
                        assert(nv[i] == before[i - 1]);
                    }
                }
                assert forall|key: Seq<char>| #[trigger] m1.contains_key(key) implies exists|i: int| 0 <= i < nv.len() && #[trigger] nv[i].0@ == key by {
                    if key == xv.0@ {
                        assert(nv[p as int].0@ == key);
                    } else {
                        let i = choose|i: int| 0 <= i < before.len() && #[trigger] before[i].0@ == key;
                        if i < p {
                            assert(nv[i].0@ == key);
                        } else {
                            assert(nv[i + 1].0@ == key);
                        }
                    }
                }
            }
        }
        k = k + 1;
    }
    proof {
        assert(orig.subrange(0, orig.len() as int) =~= orig);
    }
    r
}

proof fn lemma_str_lt_irrefl(a: Seq<char>)
    ensures
        !str_lt(a, a),
{
    crate::order::lemma_str_lt_asym(a, a);
}

impl FunctionOptions {
    /// Per-entrypoint options collected by name: the names in string order,
    /// each once, with the options of its last pair.
    pub fn by_name(configs: Vec<(String, FunctionOptions)>) -> (r: Vec<(String, FunctionOptions)>)
        ensures
            names_sorted(r@),
            lists_map(r@, named_map(configs@)),
    {
        by_name(configs)
    }
}

} // verus!
