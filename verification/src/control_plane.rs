//! The provisioning plan behind run, deploy and dump: the run/deploy boundary,
//! the deploy-only image gates, the image layers and function-create plans the
//! builders produce, the cumulative publish union, and the provisioning
//! sequence itself, written once over a [`ControlPlane`].

use vstd::prelude::*;
use crate::config::FunctionOptions;
use crate::deploy::{
    DEPLOY_RUNNER, DEPLOY_SRC, DEPLOY_WRAPPER_CALLABLE, DEPLOY_WRAPPER_MODULE, any_endpoint, append_endpoint_pip_step,
    baked_deploy_wrapper_src, spec_baked_wrapper, with_endpoint_step,
};
use crate::env::{CACHE_TARGET, SNAPSHOT_BEST_EFFORT, SNAPSHOT_PRIME};
use crate::error::Error;
use crate::path::{str_eq, views};
use crate::remote::{
    CACHE_MOUNT, CACHE_VOLUME_NAME, ImageOptions, ImageStep, PYTHON_SERIES, spec_image_steps, WRAPPER_CALLABLE, WRAPPER_MODULE, run_wrapper_config_env, spec_object_tag,
    spec_run_wrapper_config_env, spec_web_endpoint_attr, spec_web_server_attr, step_view, steps_view,
    web_endpoint_attr, web_server_attr,
};
use crate::text::push_str;

verus! {

/// How the app object is resolved and the state it is published in.
#[derive(Debug, Clone, Copy, PartialEq, Eq, Structural)]
pub enum AppState {
    /// The run path: an ephemeral app.
    Ephemeral,
    /// The deploy path: a persistent named app.
    Deployed,
}

/// How the source reaches the container.
#[derive(Debug, Clone, Copy, PartialEq, Eq, Structural)]
pub enum SourceDelivery {
    /// Run: the source is mounted and built in the function body.
    RunMount,
    /// Deploy: the source rides the image build context and is built in a layer.
    DeployContext,
}

/// The only run/deploy divergence, as data.
#[derive(Debug, Clone, Copy, PartialEq, Eq, Structural)]
pub struct Boundary {
    /// App resolution and publish state.
    pub app_state: AppState,
    /// Source delivery and build timing.
    pub source_delivery: SourceDelivery,
}

/// The run boundary: ephemeral app, source mount.
pub fn run_boundary() -> (r: Boundary)
    ensures
        r == (Boundary { app_state: AppState::Ephemeral, source_delivery: SourceDelivery::RunMount }),
{
    Boundary { app_state: AppState::Ephemeral, source_delivery: SourceDelivery::RunMount }
}

/// The deploy boundary: persistent app, source in the build context.
pub fn deploy_boundary() -> (r: Boundary)
    ensures
        r == (Boundary { app_state: AppState::Deployed, source_delivery: SourceDelivery::DeployContext }),
{
    Boundary { app_state: AppState::Deployed, source_delivery: SourceDelivery::DeployContext }
}

/// One entrypoint to provision: its name (the object tag's source), its
/// options and its resolved timeout.
#[derive(Debug, Clone)]
pub struct Entrypoint {
    /// The entrypoint name.
    pub name: String,
    /// Owned per-entrypoint options.
    pub options: FunctionOptions,
    /// The effective function timeout in seconds.
    pub timeout_secs: u32,
}

/// The entrypoint arity and publish cadence of a boundary.
#[derive(Debug, Clone, Copy, PartialEq, Eq, Structural)]
pub enum ProvisionPlan {
    /// Run: exactly one entrypoint (the first), re-published after its create.
    Single,
    /// Deploy: every entrypoint, published once after all creates.
    Many,
}

impl Boundary {
    /// The plan this boundary owns: run provisions exactly one entrypoint (any
    /// other count is refused here, up front); deploy provisions them all.
    pub fn plan(&self, entrypoints: &Vec<Entrypoint>) -> (r: Result<ProvisionPlan, Error>)
        ensures
            self.source_delivery == SourceDelivery::DeployContext ==> r == Ok::<ProvisionPlan, Error>(ProvisionPlan::Many),
            self.source_delivery == SourceDelivery::RunMount ==> (entrypoints@.len() == 1 ==> r == Ok::<ProvisionPlan, Error>(ProvisionPlan::Single)),
            self.source_delivery == SourceDelivery::RunMount && entrypoints@.len() != 1 ==> (r matches Err(Error::Config(m)) && m@ == "RUN provision requires exactly one entrypoint"@),
    {
        match self.source_delivery {
            SourceDelivery::RunMount => {
                if entrypoints.len() == 1 {
                    Ok(ProvisionPlan::Single)
                } else {
                    Err(Error::Config(String::from_str("RUN provision requires exactly one entrypoint")))
                }
            },
            SourceDelivery::DeployContext => Ok(ProvisionPlan::Many),
        }
    }
}

/// The deploy-only image gates, computed from the entrypoints.
#[derive(Debug, Clone)]
pub struct DeployGates {
    /// Some entrypoint enables memory snapshots.
    pub bake_snapshot_prime: bool,
    /// The web-endpoint entrypoints (a webhook method, no web-server port), in order.
    pub endpoint_entrypoints: Vec<String>,
    /// The web-server entrypoints with their ports, in order.
    pub web_server_entrypoints: Vec<(String, u16)>,
}

/// The endpoint names among the first `k` entrypoints.
pub open spec fn endpoints_upto(eps: Seq<Entrypoint>, k: nat) -> Seq<Seq<char>>
    decreases k,
{
    if k == 0 {
        Seq::empty()
    } else {
        let e = eps[k - 1];
        endpoints_upto(eps, (k - 1) as nat) + if e.options.webhook_method is Some && e.options.web_server_port is None {
            seq![e.name@]
        } else {
            Seq::empty()
        }
    }
}

/// The web servers among the first `k` entrypoints.
pub open spec fn web_servers_upto(eps: Seq<Entrypoint>, k: nat) -> Seq<(Seq<char>, u16)>
    decreases k,
{
    if k == 0 {
        Seq::empty()
    } else {
        let e = eps[k - 1];
        web_servers_upto(eps, (k - 1) as nat) + match e.options.web_server_port {
            Some(p) => seq![(e.name@, p)],
            None => Seq::empty(),
        }
    }
}

/// The views of the web-server pairs.
pub open spec fn server_views(v: Seq<(String, u16)>) -> Seq<(Seq<char>, u16)> {
    v.map_values(|p: (String, u16)| (p.0@, p.1))
}

/// Computes the deploy gates.
pub fn deploy_gates(entrypoints: &Vec<Entrypoint>) -> (r: DeployGates)
    ensures
        r.bake_snapshot_prime == exists|i: int| 0 <= i < entrypoints@.len() && (#[trigger] entrypoints@[i]).options.enable_memory_snapshot,
        views(r.endpoint_entrypoints@) == endpoints_upto(entrypoints@, entrypoints@.len()),
        server_views(r.web_server_entrypoints@) == web_servers_upto(entrypoints@, entrypoints@.len()),
{
    let mut prime = false;
    let mut eps: Vec<String> = Vec::new();
    let mut servers: Vec<(String, u16)> = Vec::new();
    let mut i: usize = 0;
    while i < entrypoints.len()
        invariant
            i <= entrypoints@.len(),
            prime == exists|t: int| 0 <= t < i && (#[trigger] entrypoints@[t]).options.enable_memory_snapshot,
            views(eps@) == endpoints_upto(entrypoints@, i as nat),
            server_views(servers@) == web_servers_upto(entrypoints@, i as nat),
        decreases entrypoints@.len() - i,
    {
        let e = &entrypoints[i];
        if e.options.enable_memory_snapshot {
            prime = true;
        }
        let ghost before = views(eps@);
        if e.options.webhook_method.is_some() && e.options.web_server_port.is_none() {
            eps.push(e.name.clone());
        }
        proof {
            assert(views(eps@) =~= endpoints_upto(entrypoints@, (i + 1) as nat));
        }
        let ghost sbefore = server_views(servers@);
        match e.options.web_server_port {
            Some(p) => {
                servers.push((e.name.clone(), p));
            },
            None => {},
        }
        proof {
            assert(server_views(servers@) =~= web_servers_upto(entrypoints@, (i + 1) as nat));
        }
        i = i + 1;
    }
    DeployGates { bake_snapshot_prime: prime, endpoint_entrypoints: eps, web_server_entrypoints: servers }
}

/// The deterministic name of an entrypoint's inline secret.
pub open spec fn spec_inline_secret_name(app_name: Seq<char>, object_tag: Seq<char>) -> Seq<char> {
    "modal-rust-inline-env-"@ + app_name + "-"@ + object_tag
}

/// `modal-rust-inline-env-<app>-<tag>`.
pub fn inline_secret_name(app_name: &str, object_tag: &str) -> (r: String)
    ensures
        r@ == spec_inline_secret_name(app_name@, object_tag@),
{
    let mut r = String::new();
    push_str(&mut r, "modal-rust-inline-env-");
    push_str(&mut r, app_name);
    push_str(&mut r, "-");
    push_str(&mut r, object_tag);
    r
}

/// The message of a user volume mounted at the cache path.
pub open spec fn cache_collision_message() -> Seq<char> {
    "user volume mount path \"/cache\" collides with the cargo-cache volume; choose a different mount path (or disable the cache)"@
}

/// Rejects a user volume at the cargo-cache path while the cache is on.
pub fn reject_cache_collision(cache: bool, mount_path: &str) -> (r: Result<(), Error>)
    ensures
        r is Err <==> (cache && mount_path@ == CACHE_MOUNT@),
        r matches Err(e) ==> e matches Error::Config(m) && m@ == cache_collision_message(),
{
    if cache && str_eq(mount_path, CACHE_MOUNT) {
        return Err(Error::Config(String::from_str(
            "user volume mount path \"/cache\" collides with the cargo-cache volume; choose a different mount path (or disable the cache)",
        )));
    }
    Ok(())
}

/// The image-build-time runner build.
pub open spec fn spec_build_command(package: Seq<char>) -> Seq<char> {
    "RUN cd "@ + DEPLOY_SRC@ + " && cargo build --release -p "@ + package + " --bin modal_runner"@
}

/// `RUN cd /app/src && cargo build --release -p <package> --bin modal_runner`.
pub fn deploy_runner_build_command(package: &str) -> (r: String)
    ensures
        r@ == spec_build_command(package@),
{
    let mut r = String::new();
    push_str(&mut r, "RUN cd ");
    push_str(&mut r, DEPLOY_SRC);
    push_str(&mut r, " && cargo build --release -p ");
    push_str(&mut r, package);
    push_str(&mut r, " --bin modal_runner");
    r
}


/// The source-upload inputs shared by the run mount and the deploy context.
#[derive(Debug, Clone)]
pub struct SourceInputs {
    /// The workspace root uploaded as the source.
    pub local_root: String,
    /// The cargo package owning the entrypoints.
    pub package: String,
    /// Scope the upload to the package's dependency closure.
    pub use_cargo_scoping: bool,
    /// The highest-precedence ignore filename.
    pub modalignore_name: String,
    /// Where the source mount lands in-container (run).
    pub remote_src: String,
}

/// Everything provisioning threads, besides the boundary.
#[derive(Debug, Clone)]
pub struct ProvisionInputs {
    /// The app name.
    pub app_name: String,
    /// The app id when the app already exists (the run path).
    pub app_id: Option<String>,
    /// The source-upload inputs.
    pub source: SourceInputs,
    /// The base registry image tag.
    pub base_image: String,
    /// Install the Rust toolchain into the image.
    pub install_rust: bool,
    /// Ordered image-builder steps.
    pub image_steps: Vec<ImageStep>,
    /// The run-path cargo build cache.
    pub cache: bool,
    /// `target/` archiving in the build cache (an opt-out must be baked).
    pub cache_target: bool,
    /// Degrade a failed snapshot prime to lazy initialization (deploy).
    pub snapshot_best_effort: bool,
    /// Insert the dependency-prebuild layer (deploy).
    pub dep_prebuild: bool,
    /// The static run wrapper source baked into the run image.
    pub run_wrapper_src: String,
    /// The static deploy wrapper source the deploy image bakes.
    pub deploy_wrapper_src: String,
    /// The entrypoints to create.
    pub entrypoints: Vec<Entrypoint>,
}

/// One image-builder call, in the order the image applies them.
#[derive(Debug, Clone, PartialEq, Eq)]
pub enum ImageOp {
    /// `add_python(series)`.
    AddPython(String),
    /// The python-build-standalone mount id.
    PythonStandaloneMount(String),
    /// One dockerfile command.
    Command(String),
    /// Install the Rust toolchain.
    RustToolchain,
    /// One user image-builder step.
    Step(ImageStep),
    /// Bake the wrapper module `(module, source)`.
    WrapperModule(String, String),
    /// Base this layer on a built image (`FROM base`).
    BaseImage(String),
    /// The build-context mount.
    ContextMount(String),
}

/// One image layer: the registry tag (empty for a layer over a built image)
/// and its builder calls in order.
#[derive(Debug, Clone, PartialEq, Eq)]
pub struct ImagePlan {
    /// The registry tag.
    pub registry: String,
    /// The builder calls, in order.
    pub ops: Vec<ImageOp>,
}

/// An image-builder call as plain values.
pub enum OpView {
    AddPython(Seq<char>),
    PythonStandaloneMount(Seq<char>),
    Command(Seq<char>),
    RustToolchain,
    Step((int, Seq<Seq<char>>)),
    WrapperModule(Seq<char>, Seq<char>),
    BaseImage(Seq<char>),
    ContextMount(Seq<char>),
}

/// The plain values of one call.
pub open spec fn op_view(o: ImageOp) -> OpView {
    match o {
        ImageOp::AddPython(s) => OpView::AddPython(s@),
        ImageOp::PythonStandaloneMount(s) => OpView::PythonStandaloneMount(s@),
        ImageOp::Command(s) => OpView::Command(s@),
        ImageOp::RustToolchain => OpView::RustToolchain,
        ImageOp::Step(st) => OpView::Step(step_view(st)),
        ImageOp::WrapperModule(m, src) => OpView::WrapperModule(m@, src@),
        ImageOp::BaseImage(s) => OpView::BaseImage(s@),
        ImageOp::ContextMount(s) => OpView::ContextMount(s@),
    }
}

/// The plain values of a list of calls.
pub open spec fn ops_view(v: Seq<ImageOp>) -> Seq<OpView> {
    v.map_values(|o: ImageOp| op_view(o))
}

/// The user steps as calls.
pub open spec fn step_ops(steps: Seq<(int, Seq<Seq<char>>)>) -> Seq<OpView> {
    steps.map_values(|s: (int, Seq<Seq<char>>)| OpView::Step(s))
}

/// The command installing `zstd` for the build-cache archive.
pub open spec fn zstd_command() -> Seq<char> {
    "RUN apt-get update && apt-get install -y --no-install-recommends zstd && rm -rf /var/lib/apt/lists/*"@
}

/// The calls every first layer starts with: Python, its mount, the toolchain
/// when asked, then the user steps.
pub open spec fn provisioning_ops(i: ProvisionInputs, py: Seq<char>, zstd: bool) -> Seq<OpView> {
    seq![OpView::AddPython(PYTHON_SERIES@), OpView::PythonStandaloneMount(py)] + (if zstd {
        seq![OpView::Command(zstd_command())]
    } else {
        Seq::empty()
    }) + (if i.install_rust {
        seq![OpView::RustToolchain]
    } else {
        Seq::empty()
    }) + step_ops(steps_view(i.image_steps@))
}

/// The run image's calls: provisioning (with `zstd` when the cache is on), the
/// run wrapper and its configuration, a backtrace switch, the `target/`
/// opt-out when the cache is on but `target/` archiving is off, and an empty
/// entrypoint.
pub open spec fn run_layer_ops(i: ProvisionInputs, py: Seq<char>) -> Seq<OpView> {
    provisioning_ops(i, py, i.cache) + seq![
        OpView::WrapperModule(WRAPPER_MODULE@, i.run_wrapper_src@),
        OpView::Command(spec_run_wrapper_config_env(i.source.package@, i.cache, i.source.remote_src@)),
        OpView::Command("ENV RUST_BACKTRACE=1"@),
    ] + (if i.cache && !i.cache_target {
        seq![OpView::Command("ENV "@ + CACHE_TARGET@ + "=0"@)]
    } else {
        Seq::empty()
    }) + seq![OpView::Command("ENTRYPOINT []"@)]
}

/// The run image bakes the wrapper configuration of the inputs' own package,
/// cache switch and remote source path: the in-container wrapper restores and
/// archives the build cache exactly when the provisioning attaches the cache.
pub proof fn lemma_run_config_carries_cache(i: ProvisionInputs, py: Seq<char>)
    ensures
        run_layer_ops(i, py).contains(OpView::Command(spec_run_wrapper_config_env(i.source.package@, i.cache, i.source.remote_src@))),
{
    let k: int = provisioning_ops(i, py, i.cache).len() as int + 1;
    assert(run_layer_ops(i, py)[k] == OpView::Command(spec_run_wrapper_config_env(i.source.package@, i.cache, i.source.remote_src@)));
}

/// The first image layer of a boundary: the whole run image, or the deploy base.
pub open spec fn spec_first_layer(b: Boundary, i: ProvisionInputs, py: Seq<char>) -> Seq<OpView> {
    match b.source_delivery {
        SourceDelivery::RunMount => run_layer_ops(i, py),
        SourceDelivery::DeployContext => provisioning_ops(i, py, false),
    }
}

fn push_op(ops: &mut Vec<ImageOp>, o: ImageOp)
    ensures
        ops_view(final(ops)@) == ops_view(old(ops)@).push(op_view(o)),
{
    let ghost before = ops_view(ops@);
    let ghost ov = op_view(o);
    ops.push(o);
    proof {
        assert(ops_view(ops@) =~= before.push(ov));
    }
}

fn command(s: &str) -> (r: ImageOp)
    ensures
        op_view(r) == OpView::Command(s@),
{
    ImageOp::Command(String::from_str(s))
}

fn clone_step(s: &ImageStep) -> (r: ImageStep)
    ensures
        step_view(r) == step_view(*s),
{
    match s {
        ImageStep::Apt(v) => ImageStep::Apt(clone_strings(v)),
        ImageStep::Pip(v) => ImageStep::Pip(clone_strings(v)),
        ImageStep::Run(v) => ImageStep::Run(clone_strings(v)),
    }
}

fn clone_strings(v: &Vec<String>) -> (r: Vec<String>)
    ensures
        views(r@) == views(v@),
{
    let mut r: Vec<String> = Vec::new();
    let mut i: usize = 0;
    while i < v.len()
        invariant
            i <= v@.len(),
            views(r@) == views(v@).subrange(0, i as int),
        decreases v@.len() - i,
    {
        let ghost before = views(r@);
        r.push(v[i].clone());
        proof {
            assert(views(r@) =~= before.push(v@[i as int]@));
            assert(views(v@).subrange(0, i + 1) =~= views(v@).subrange(0, i as int).push(v@[i as int]@));
        }
        i = i + 1;
    }
    proof {
        assert(views(v@).subrange(0, v@.len() as int) =~= views(v@));
    }
    r
}

fn push_provisioning(ops: &mut Vec<ImageOp>, inputs: &ProvisionInputs, py_mount_id: &str, zstd: bool)
    ensures
        ops_view(final(ops)@) == ops_view(old(ops)@) + provisioning_ops(*inputs, py_mount_id@, zstd),
{
    let ghost start = ops_view(ops@);
    push_op(ops, ImageOp::AddPython(String::from_str(PYTHON_SERIES)));
    push_op(ops, ImageOp::PythonStandaloneMount(String::from_str(py_mount_id)));
    if zstd {
        push_op(ops, command("RUN apt-get update && apt-get install -y --no-install-recommends zstd && rm -rf /var/lib/apt/lists/*"));
    }
    if inputs.install_rust {
        push_op(ops, ImageOp::RustToolchain);
    }
    let ghost mid = ops_view(ops@);
    let mut k: usize = 0;
    while k < inputs.image_steps.len()
        invariant
            k <= inputs.image_steps@.len(),
            ops_view(ops@) == mid + step_ops(steps_view(inputs.image_steps@)).subrange(0, k as int),
        decreases inputs.image_steps@.len() - k,
    {
        let st = clone_step(&inputs.image_steps[k]);
        push_op(ops, ImageOp::Step(st));
        proof {
            assert(step_ops(steps_view(inputs.image_steps@)).subrange(0, k + 1) =~= step_ops(
                steps_view(inputs.image_steps@),
            ).subrange(0, k as int).push(OpView::Step(step_view(inputs.image_steps@[k as int]))));
        }
        k = k + 1;
    }
    proof {
        assert(step_ops(steps_view(inputs.image_steps@)).subrange(0, inputs.image_steps@.len() as int) =~= step_ops(
            steps_view(inputs.image_steps@),
        ));
        assert(ops_view(ops@) =~= start + provisioning_ops(*inputs, py_mount_id@, zstd));
    }
}

/// The first image layer for the boundary: the run image (Python, the run
/// wrapper and its configuration, no cargo build), or the deploy base layer
/// (Python, toolchain and user steps only).
pub fn build_image_spec(boundary: &Boundary, inputs: &ProvisionInputs, py_mount_id: &str) -> (r: ImagePlan)
    ensures
        r.registry@ == inputs.base_image@,
        ops_view(r.ops@) == spec_first_layer(*boundary, *inputs, py_mount_id@),
        boundary.source_delivery == SourceDelivery::RunMount ==> ops_view(r.ops@).contains(
            OpView::Command(spec_run_wrapper_config_env(inputs.source.package@, inputs.cache, inputs.source.remote_src@)),
        ),
{
    let mut ops: Vec<ImageOp> = Vec::new();
    match boundary.source_delivery {
        SourceDelivery::RunMount => {
            push_provisioning(&mut ops, inputs, py_mount_id, inputs.cache);
            let ghost a = ops_view(ops@);
            push_op(&mut ops, ImageOp::WrapperModule(String::from_str(WRAPPER_MODULE), inputs.run_wrapper_src.clone()));
            push_op(&mut ops, ImageOp::Command(run_wrapper_config_env(inputs.source.package.as_str(), inputs.cache, inputs.source.remote_src.as_str())));
            push_op(&mut ops, command("ENV RUST_BACKTRACE=1"));
            let ghost b = ops_view(ops@);
            if inputs.cache && !inputs.cache_target {
                let mut c = String::new();
                push_str(&mut c, "ENV ");
                push_str(&mut c, CACHE_TARGET);
                push_str(&mut c, "=0");
                push_op(&mut ops, ImageOp::Command(c));
            }
            push_op(&mut ops, command("ENTRYPOINT []"));
            proof {
                assert(ops_view(ops@) =~= run_layer_ops(*inputs, py_mount_id@));
                lemma_run_config_carries_cache(*inputs, py_mount_id@);
            }
        },
        SourceDelivery::DeployContext => {
            push_provisioning(&mut ops, inputs, py_mount_id, false);
            proof {
                assert(ops_view(ops@) =~= provisioning_ops(*inputs, py_mount_id@, false));
            }
        },
    }
    ImagePlan { registry: inputs.base_image.clone(), ops }
}

/// The command baking the built runner to its fixed path.
pub open spec fn bake_runner_command() -> Seq<char> {
    "RUN cp "@ + DEPLOY_SRC@ + "/target/release/modal_runner "@ + DEPLOY_RUNNER@ + " && chmod +x "@ + DEPLOY_RUNNER@
}

/// The deploy top layer's calls: over the base image, the baked deploy wrapper
/// (with one adapter line per endpoint), the source context, the build at
/// image-build time, the runner bake, a backtrace switch, the snapshot-prime
/// switch (and its best-effort companion) when asked, and an empty entrypoint.
pub open spec fn top_layer_ops(
    base_image_id: Seq<char>,
    source_mount_id: Seq<char>,
    package: Seq<char>,
    prime: bool,
    best_effort: bool,
    wrapper: Seq<char>,
) -> Seq<OpView> {
    seq![
        OpView::BaseImage(base_image_id),
        OpView::WrapperModule(DEPLOY_WRAPPER_MODULE@, wrapper),
        OpView::ContextMount(source_mount_id),
        OpView::Command("COPY . /"@),
        OpView::Command(spec_build_command(package)),
        OpView::Command(bake_runner_command()),
        OpView::Command("ENV RUST_BACKTRACE=1"@),
    ] + (if prime {
        seq![OpView::Command("ENV "@ + SNAPSHOT_PRIME@ + "=1"@)] + if best_effort {
            seq![OpView::Command("ENV "@ + SNAPSHOT_BEST_EFFORT@ + "=1"@)]
        } else {
            Seq::empty()
        }
    } else {
        Seq::empty()
    }) + seq![OpView::Command("ENTRYPOINT []"@)]
}

/// The deploy top layer over `base_image_id`, with the source context
/// `source_mount_id`; the wrapper baked is `static_wrapper` plus the adapter
/// lines of `endpoint_entrypoints`.
pub fn build_deploy_top_layer_spec(
    base_image_id: &str,
    source_mount_id: &str,
    package: &str,
    bake_snapshot_prime: bool,
    bake_snapshot_best_effort: bool,
    static_wrapper: &str,
    endpoint_entrypoints: &[&str],
) -> (r: ImagePlan)
    ensures
        r.registry@.len() == 0,
        ops_view(r.ops@) == top_layer_ops(
            base_image_id@,
            source_mount_id@,
            package@,
            bake_snapshot_prime,
            bake_snapshot_best_effort,
            spec_baked_wrapper(static_wrapper@, crate::config::str_views(endpoint_entrypoints@)),
        ),
{
    let mut ops: Vec<ImageOp> = Vec::new();
    push_op(&mut ops, ImageOp::BaseImage(String::from_str(base_image_id)));
    push_op(
        &mut ops,
        ImageOp::WrapperModule(String::from_str(DEPLOY_WRAPPER_MODULE), baked_deploy_wrapper_src(static_wrapper, endpoint_entrypoints)),
    );
    push_op(&mut ops, ImageOp::ContextMount(String::from_str(source_mount_id)));
    push_op(&mut ops, command("COPY . /"));
    push_op(&mut ops, ImageOp::Command(deploy_runner_build_command(package)));
    let mut bake = String::new();
    push_str(&mut bake, "RUN cp ");
    push_str(&mut bake, DEPLOY_SRC);
    push_str(&mut bake, "/target/release/modal_runner ");
    push_str(&mut bake, DEPLOY_RUNNER);
    push_str(&mut bake, " && chmod +x ");
    push_str(&mut bake, DEPLOY_RUNNER);
    push_op(&mut ops, ImageOp::Command(bake));
    push_op(&mut ops, command("ENV RUST_BACKTRACE=1"));
    if bake_snapshot_prime {
        let mut c = String::new();
        push_str(&mut c, "ENV ");
        push_str(&mut c, SNAPSHOT_PRIME);
        push_str(&mut c, "=1");
        push_op(&mut ops, ImageOp::Command(c));
        if bake_snapshot_best_effort {
            let mut c = String::new();
            push_str(&mut c, "ENV ");
            push_str(&mut c, SNAPSHOT_BEST_EFFORT);
            push_str(&mut c, "=1");
            push_op(&mut ops, ImageOp::Command(c));
        }
    }
    push_op(&mut ops, command("ENTRYPOINT []"));
    proof {
        assert(ops_view(ops@) =~= top_layer_ops(
            base_image_id@,
            source_mount_id@,
            package@,
            bake_snapshot_prime,
            bake_snapshot_best_effort,
            spec_baked_wrapper(static_wrapper@, crate::config::str_views(endpoint_entrypoints@)),
        ));
    }
    ImagePlan { registry: String::new(), ops }
}

/// Where the build happens: the run image never carries the image-time build
/// (the run path builds in the function body), while the deploy top layer
/// always does; and the top layer bakes the best-effort switch only next to
/// the snapshot-prime switch.
pub proof fn lemma_build_timing(
    i: ProvisionInputs,
    py: Seq<char>,
    package: Seq<char>,
    base_image_id: Seq<char>,
    source_mount_id: Seq<char>,
    top_package: Seq<char>,
    prime: bool,
    best_effort: bool,
    wrapper: Seq<char>,
)
    ensures
        !run_layer_ops(i, py).contains(OpView::Command(spec_build_command(package))),
        top_layer_ops(base_image_id, source_mount_id, top_package, prime, best_effort, wrapper).contains(
            OpView::Command(spec_build_command(top_package)),
        ),
        top_layer_ops(base_image_id, source_mount_id, top_package, prime, best_effort, wrapper).contains(
            OpView::Command("ENV "@ + SNAPSHOT_BEST_EFFORT@ + "=1"@),
        ) ==> prime && best_effort,
{
    reveal_strlit("RUN cd ");
    reveal_strlit("RUN apt-get update && apt-get install -y --no-install-recommends zstd && rm -rf /var/lib/apt/lists/*");
    reveal_strlit("ENV ");
    reveal_strlit("ENV RUST_BACKTRACE=1");
    reveal_strlit("ENTRYPOINT []");
    reveal_strlit("COPY . /");
    reveal_strlit("RUN cp ");
    reveal_strlit("=1");
    let b = spec_build_command(package);
    assert(b[0] == 'R' && b[4] == 'c');
    let ops = run_layer_ops(i, py);
    if ops.contains(OpView::Command(b)) {
        let k = choose|k: int| 0 <= k < ops.len() && ops[k] == OpView::Command(b);
        let head = provisioning_ops(i, py, i.cache);
        let z = if i.cache { seq![OpView::Command(zstd_command())] } else { Seq::<OpView>::empty() };
        let t = if i.install_rust { seq![OpView::RustToolchain] } else { Seq::<OpView>::empty() };
        let st = step_ops(steps_view(i.image_steps@));
        assert(head == seq![OpView::AddPython(PYTHON_SERIES@), OpView::PythonStandaloneMount(py)] + z + t + st);
        if k < head.len() {
            let h0 = seq![OpView::AddPython(PYTHON_SERIES@), OpView::PythonStandaloneMount(py)];
            if k >= h0.len() + z.len() + t.len() {
                assert(head[k] == st[k - h0.len() - z.len() - t.len()]);
            } else if k >= h0.len() + z.len() {
                assert(head[k] == t[k - h0.len() - z.len()]);
            } else if k >= h0.len() {
                assert(head[k] == z[k - h0.len()]);
                assert(zstd_command()[4] == 'a');
            } else {
                assert(head[k] == h0[k]);
            }
            assert(ops[k] == head[k]);
        } else {
            let cfg = spec_run_wrapper_config_env(i.source.package@, i.cache, i.source.remote_src@);
            assert(cfg[0] == 'E');
            let optout: Seq<char> = "ENV "@ + CACHE_TARGET@ + "=0"@;
            assert(optout[0] == 'E');
            assert(("ENV RUST_BACKTRACE=1"@)[0] == 'E');
            assert(("ENTRYPOINT []"@)[0] == 'E');
        }
    }
    let top = top_layer_ops(base_image_id, source_mount_id, top_package, prime, best_effort, wrapper);
    assert(top[4] == OpView::Command(spec_build_command(top_package)));
    let be: Seq<char> = "ENV "@ + SNAPSHOT_BEST_EFFORT@ + "=1"@;
    if top.contains(OpView::Command(be)) && !(prime && best_effort) {
        let k = choose|k: int| 0 <= k < top.len() && top[k] == OpView::Command(be);
        reveal_strlit("MODAL_RUST_SNAPSHOT_BEST_EFFORT");
        reveal_strlit("MODAL_RUST_SNAPSHOT_PRIME");
        let pr: Seq<char> = "ENV "@ + SNAPSHOT_PRIME@ + "=1"@;
        assert(be[0] == 'E' && be[2] == 'V' && be[4] == 'M' && be[24] == 'B');
        assert(pr[24] == 'P');
        let head = seq![
            OpView::BaseImage(base_image_id),
            OpView::WrapperModule(DEPLOY_WRAPPER_MODULE@, wrapper),
            OpView::ContextMount(source_mount_id),
            OpView::Command("COPY . /"@),
            OpView::Command(spec_build_command(top_package)),
            OpView::Command(bake_runner_command()),
            OpView::Command("ENV RUST_BACKTRACE=1"@),
        ];
        let mid = if prime {
            seq![OpView::Command(pr)] + if best_effort {
                seq![OpView::Command(be)]
            } else {
                Seq::empty()
            }
        } else {
            Seq::empty()
        };
        assert(top == head + mid + seq![OpView::Command("ENTRYPOINT []"@)]);
        assert(mid.len() <= 1);
        if k < 7 {
            assert(top[k] == head[k]);
            assert(("COPY . /"@)[0] == 'C');
            assert(spec_build_command(top_package)[0] == 'R');
            assert(bake_runner_command()[0] == 'R');
            assert(("ENV RUST_BACKTRACE=1"@)[4] == 'R');
        } else if k < 7 + mid.len() {
            assert(top[k] == mid[k - 7]);
        } else {
            assert(("ENTRYPOINT []"@)[2] == 'T');
        }
    }
}

/// The commands a deploy top layer may carry: the copy, the package build, the
/// runner bake, the backtrace switch, the two snapshot switches, the empty
/// entrypoint.
pub open spec fn top_layer_command(c: Seq<char>, package: Seq<char>) -> bool {
    ||| c == "COPY . /"@
    ||| c == spec_build_command(package)
    ||| c == bake_runner_command()
    ||| c == "ENV RUST_BACKTRACE=1"@
    ||| c == "ENV "@ + SNAPSHOT_PRIME@ + "=1"@
    ||| c == "ENV "@ + SNAPSHOT_BEST_EFFORT@ + "=1"@
    ||| c == "ENTRYPOINT []"@
}

/// The snapshot switches of the deploy top layer: the prime switch is baked
/// exactly when asked, the best-effort switch exactly when both are asked,
/// and the backtrace switch always; no command beyond the copy, the build,
/// the runner bake, the backtrace and snapshot switches and the entrypoint
/// is baked.
pub proof fn lemma_snapshot_switches(
    base_image_id: Seq<char>,
    source_mount_id: Seq<char>,
    package: Seq<char>,
    prime: bool,
    best_effort: bool,
    wrapper: Seq<char>,
)
    ensures
        top_layer_ops(base_image_id, source_mount_id, package, prime, best_effort, wrapper).contains(
            OpView::Command("ENV "@ + SNAPSHOT_PRIME@ + "=1"@),
        ) <==> prime,
        top_layer_ops(base_image_id, source_mount_id, package, prime, best_effort, wrapper).contains(
            OpView::Command("ENV "@ + SNAPSHOT_BEST_EFFORT@ + "=1"@),
        ) <==> prime && best_effort,
        top_layer_ops(base_image_id, source_mount_id, package, prime, best_effort, wrapper).contains(
            OpView::Command("ENV RUST_BACKTRACE=1"@),
        ),
        forall|k: int|
            0 <= k < top_layer_ops(base_image_id, source_mount_id, package, prime, best_effort, wrapper).len()
                ==> (#[trigger] top_layer_ops(base_image_id, source_mount_id, package, prime, best_effort, wrapper)[k] matches OpView::Command(c)
                ==> top_layer_command(c, package)),
{
    reveal_strlit("RUN cd ");
    reveal_strlit("ENV ");
    reveal_strlit("ENV RUST_BACKTRACE=1");
    reveal_strlit("ENTRYPOINT []");
    reveal_strlit("COPY . /");
    reveal_strlit("RUN cp ");
    reveal_strlit("=1");
    reveal_strlit("MODAL_RUST_SNAPSHOT_BEST_EFFORT");
    reveal_strlit("MODAL_RUST_SNAPSHOT_PRIME");
    let top = top_layer_ops(base_image_id, source_mount_id, package, prime, best_effort, wrapper);
    let pr: Seq<char> = "ENV "@ + SNAPSHOT_PRIME@ + "=1"@;
    let be: Seq<char> = "ENV "@ + SNAPSHOT_BEST_EFFORT@ + "=1"@;
    assert(be[0] == 'E' && be[2] == 'V' && be[4] == 'M' && be[24] == 'B');
    assert(pr[0] == 'E' && pr[2] == 'V' && pr[4] == 'M' && pr[24] == 'P');
    let head = seq![
        OpView::BaseImage(base_image_id),
        OpView::WrapperModule(DEPLOY_WRAPPER_MODULE@, wrapper),
        OpView::ContextMount(source_mount_id),
        OpView::Command("COPY . /"@),
        OpView::Command(spec_build_command(package)),
        OpView::Command(bake_runner_command()),
        OpView::Command("ENV RUST_BACKTRACE=1"@),
    ];
    let mid = if prime {
        seq![OpView::Command(pr)] + if best_effort {
            seq![OpView::Command(be)]
        } else {
            Seq::empty()
        }
    } else {
        Seq::empty()
    };
    assert(top == head + mid + seq![OpView::Command("ENTRYPOINT []"@)]);
    assert(top[6] == OpView::Command("ENV RUST_BACKTRACE=1"@));
    if prime {
        assert(top[7] == OpView::Command(pr));
        if best_effort {
            assert(top[8] == OpView::Command(be));
        }
    }
    assert(spec_build_command(package)[0] == 'R');
    assert(bake_runner_command()[0] == 'R');
    assert(("COPY . /"@)[0] == 'C');
    assert(("ENV RUST_BACKTRACE=1"@)[4] == 'R');
    assert(("ENTRYPOINT []"@)[2] == 'T');
    assert forall|k: int| 0 <= k < top.len() && (top[k] == OpView::Command(pr) || top[k] == OpView::Command(be)) implies k
        >= 7 && k < 7 + mid.len() by {
        if k < 7 {
            assert(top[k] == head[k]);
        } else if k >= 7 + mid.len() {
            assert(top[k] == OpView::Command("ENTRYPOINT []"@));
        }
    }
    if top.contains(OpView::Command(pr)) {
        let k = choose|k: int| 0 <= k < top.len() && top[k] == OpView::Command(pr);
        assert(top[k] == mid[k - 7]);
    }
    if top.contains(OpView::Command(be)) {
        let k = choose|k: int| 0 <= k < top.len() && top[k] == OpView::Command(be);
        assert(top[k] == mid[k - 7]);
        if prime && !best_effort {
            assert(mid.len() == 1 && mid[0] == OpView::Command(pr));
        }
    }
    assert forall|k: int| 0 <= k < top.len() implies (#[trigger] top[k] matches OpView::Command(c) ==> top_layer_command(c, package)) by {
        if k < 7 {
            assert(top[k] == head[k]);
        } else if k < 7 + mid.len() {
            assert(top[k] == mid[k - 7]);
            if k > 7 {
                assert(prime && best_effort);
            }
        } else {
            assert(top[k] == OpView::Command("ENTRYPOINT []"@));
        }
    }
}

/// The dependency-prebuild layer's calls: over the base image, the stub
/// context, the build, and an empty entrypoint (no wrapper, no switches).
pub open spec fn dep_layer_ops(base_image_id: Seq<char>, stub_mount_id: Seq<char>, package: Seq<char>) -> Seq<OpView> {
    seq![
        OpView::BaseImage(base_image_id),
        OpView::ContextMount(stub_mount_id),
        OpView::Command("COPY . /"@),
        OpView::Command(spec_build_command(package)),
        OpView::Command("ENTRYPOINT []"@),
    ]
}

/// The dependency-prebuild layer over `base_image_id` with the stub context.
pub fn build_deploy_dep_layer_spec(base_image_id: &str, stub_mount_id: &str, package: &str) -> (r: ImagePlan)
    ensures
        r.registry@.len() == 0,
        ops_view(r.ops@) == dep_layer_ops(base_image_id@, stub_mount_id@, package@),
{
    let mut ops: Vec<ImageOp> = Vec::new();
    push_op(&mut ops, ImageOp::BaseImage(String::from_str(base_image_id)));
    push_op(&mut ops, ImageOp::ContextMount(String::from_str(stub_mount_id)));
    push_op(&mut ops, command("COPY . /"));
    push_op(&mut ops, ImageOp::Command(deploy_runner_build_command(package)));
    push_op(&mut ops, command("ENTRYPOINT []"));
    proof {
        assert(ops_view(ops@) =~= dep_layer_ops(base_image_id@, stub_mount_id@, package@));
    }
    ImagePlan { registry: String::new(), ops }
}

/// One image layer as plain values: its registry tag, its calls and its ordinal.
pub open spec fn image_view(p: ImagePlan, layer: u8) -> (Seq<char>, Seq<OpView>, u8) {
    (p.registry@, ops_view(p.ops@), layer)
}

/// The layers a deploy builds, given the ids the plane answered (the Python
/// mount `py`, the base image, the source context, the prebuild stub and the
/// prebuild image): the base layer; the prebuild layer over the base when one
/// rode (`dep`); and the top layer over the prebuild image or the base, with
/// the snapshot switch when some entrypoint snapshots and the deploy wrapper
/// baked with the endpoint adapters. The top layer's ordinal is 1 when it sits
/// on the base image id, else 2.
pub open spec fn deploy_layers(
    i: ProvisionInputs,
    py: Seq<char>,
    base_id: Seq<char>,
    src_id: Seq<char>,
    stub_id: Seq<char>,
    dep_id: Seq<char>,
    dep: bool,
) -> Seq<(Seq<char>, Seq<OpView>, u8)> {
    let top_base = if dep {
        dep_id
    } else {
        base_id
    };
    let prime = exists|k: int| 0 <= k < i.entrypoints@.len() && (#[trigger] i.entrypoints@[k]).options.enable_memory_snapshot;
    let wrapper = spec_baked_wrapper(i.deploy_wrapper_src@, endpoints_upto(i.entrypoints@, i.entrypoints@.len()));
    seq![(i.base_image@, provisioning_ops(i, py, false), 0u8)] + (if dep {
        seq![(Seq::<char>::empty(), dep_layer_ops(base_id, stub_id, i.source.package@), 1u8)]
    } else {
        Seq::empty()
    }) + seq![
        (
            Seq::<char>::empty(),
            top_layer_ops(top_base, src_id, i.source.package@, prime, i.snapshot_best_effort, wrapper),
            if top_base == base_id { 1u8 } else { 2u8 },
        ),
    ]
}

/// The image layers a successful provisioning handed to the plane, whatever
/// ids the plane answered: the run image alone (run), or the deploy layers
/// (`dep`: the prebuild layer rode).
pub open spec fn images_built(
    b: Boundary,
    i: ProvisionInputs,
    before: Seq<(Seq<char>, Seq<OpView>, u8)>,
    after: Seq<(Seq<char>, Seq<OpView>, u8)>,
    dep: bool,
) -> bool {
    match b.source_delivery {
        SourceDelivery::RunMount => exists|py: Seq<char>| after == before.push((i.base_image@, #[trigger] run_layer_ops(i, py), 0u8)),
        SourceDelivery::DeployContext => exists|py: Seq<char>, base_id: Seq<char>, src_id: Seq<char>, stub_id: Seq<char>, dep_id: Seq<char>|
            after == before + #[trigger] deploy_layers(i, py, base_id, src_id, stub_id, dep_id, dep),
    }
}

fn clone_op(o: &ImageOp) -> (r: ImageOp)
    ensures
        op_view(r) == op_view(*o),
{
    match o {
        ImageOp::AddPython(s) => ImageOp::AddPython(s.clone()),
        ImageOp::PythonStandaloneMount(s) => ImageOp::PythonStandaloneMount(s.clone()),
        ImageOp::Command(s) => ImageOp::Command(s.clone()),
        ImageOp::RustToolchain => ImageOp::RustToolchain,
        ImageOp::Step(st) => ImageOp::Step(clone_step(st)),
        ImageOp::WrapperModule(m, src) => ImageOp::WrapperModule(m.clone(), src.clone()),
        ImageOp::BaseImage(s) => ImageOp::BaseImage(s.clone()),
        ImageOp::ContextMount(s) => ImageOp::ContextMount(s.clone()),
    }
}

impl ImagePlan {
    /// A copy with the same registry tag and calls.
    pub fn duplicate(&self) -> (r: ImagePlan)
        ensures
            image_view(r, 0) == image_view(*self, 0),
    {
        let mut ops: Vec<ImageOp> = Vec::new();
        let mut k: usize = 0;
        while k < self.ops.len()
            invariant
                k <= self.ops@.len(),
                ops_view(ops@) == ops_view(self.ops@).subrange(0, k as int),
            decreases self.ops@.len() - k,
        {
            push_op(&mut ops, clone_op(&self.ops[k]));
            proof {
                assert(ops_view(self.ops@).subrange(0, k + 1) =~= ops_view(self.ops@).subrange(0, k as int).push(
                    op_view(self.ops@[k as int]),
                ));
            }
            k = k + 1;
        }
        proof {
            assert(ops_view(self.ops@).subrange(0, self.ops@.len() as int) =~= ops_view(self.ops@));
        }
        ImagePlan { registry: self.registry.clone(), ops }
    }
}

/// The webhook a deployed function is created with.
#[derive(Debug, Clone, PartialEq, Eq)]
pub struct WebhookPlan {
    /// The HTTP method (empty for a raw web-server port proxy).
    pub method: String,
    /// Requests must carry Modal's proxy-auth headers.
    pub requires_proxy_auth: bool,
    /// The web-server port (a raw port proxy) or `None` (a request/response endpoint).
    pub web_server_port: Option<u16>,
    /// The web-server startup timeout.
    pub web_server_startup_timeout: Option<u32>,
}

/// The retry policy a function is created with.
#[derive(Debug, Clone, PartialEq, Eq)]
pub enum RetryPlan {
    /// The struct-form policy spec.
    Spec(String),
    /// The bare retry count (`None`: no policy).
    Count(Option<u32>),
}

/// What one file-mode function create carries.
#[derive(Debug, Clone, PartialEq, Eq)]
pub struct FunctionPlan {
    /// The wrapper module.
    pub module: String,
    /// The in-container callable.
    pub callable: String,
    /// The image the function runs on.
    pub image_id: String,
    /// The object tag.
    pub app_function_name: String,
    /// The attached mount ids.
    pub mount_ids: Vec<String>,
    /// The client's own dependencies are mounted.
    pub mount_client_dependencies: bool,
    /// The timeout in seconds.
    pub timeout_secs: u32,
    /// The GPU spec.
    pub gpu: Option<String>,
    /// Milli-cores.
    pub milli_cpu: Option<u32>,
    /// MiB.
    pub memory_mb: Option<u32>,
    /// Per-container maximum input concurrency.
    pub max_concurrent_inputs: Option<u32>,
    /// Per-container target input concurrency.
    pub target_concurrent_inputs: Option<u32>,
    /// The schedule spec.
    pub schedule: Option<String>,
    /// Autoscaler floor.
    pub min_containers: Option<u32>,
    /// Autoscaler ceiling.
    pub max_containers: Option<u32>,
    /// Warm buffer.
    pub buffer_containers: Option<u32>,
    /// Idle seconds before scale-down.
    pub scaledown_window: Option<u32>,
    /// Memory snapshots enabled.
    pub memory_snapshot: bool,
    /// The webhook, if the function is web-exposed.
    pub webhook: Option<WebhookPlan>,
    /// The retry policy.
    pub retry: RetryPlan,
    /// Volume mounts as `(volume_id, mount_path)`, in attach order.
    pub volume_mounts: Vec<(String, String)>,
    /// The attached secret ids.
    pub secret_ids: Vec<String>,
}

/// The per-entrypoint resources a function create attaches.
#[derive(Debug, Clone)]
pub struct AttachedResources {
    /// The hosted client mount id (both paths).
    pub client_mount_id: String,
    /// The uploaded source mount id (run only).
    pub source_mount_id: String,
    /// The cargo-cache volume id (run with the cache on).
    pub cache_vol_id: Option<String>,
    /// The resolved secret ids.
    pub secret_ids: Vec<String>,
    /// User volumes as `(volume_id, mount_path)`.
    pub user_volume_mounts: Vec<(String, String)>,
}

/// The webhook of an entrypoint on a boundary, as plain values: a web server
/// (a port) wins over an endpoint (a method); neither exists off the deploy path.
pub open spec fn spec_webhook(b: Boundary, o: FunctionOptions) -> Option<(Seq<char>, bool, Option<u16>, Option<u32>)> {
    if b.app_state == AppState::Deployed && o.web_server_port is Some {
        Some((Seq::empty(), o.webhook_requires_proxy_auth, o.web_server_port, o.web_server_startup_timeout))
    } else if b.app_state == AppState::Deployed && o.webhook_method is Some {
        Some((o.webhook_method->0@, o.webhook_requires_proxy_auth, None, None))
    } else {
        None
    }
}

/// The plain values of a webhook.
pub open spec fn webhook_view(w: Option<WebhookPlan>) -> Option<(Seq<char>, bool, Option<u16>, Option<u32>)> {
    match w {
        Some(x) => Some((x.method@, x.requires_proxy_auth, x.web_server_port, x.web_server_startup_timeout)),
        None => None,
    }
}

/// The in-container callable of an entrypoint on a boundary.
pub open spec fn spec_callable(b: Boundary, name: Seq<char>, o: FunctionOptions) -> Seq<char> {
    match b.source_delivery {
        SourceDelivery::RunMount => WRAPPER_CALLABLE@,
        SourceDelivery::DeployContext => match spec_webhook(b, o) {
            Some(w) => if w.2 is Some {
                spec_web_server_attr(name)
            } else {
                spec_web_endpoint_attr(name)
            },
            None => DEPLOY_WRAPPER_CALLABLE@,
        },
    }
}

/// The plain values of `(id, path)` pairs.
pub open spec fn pair_views(v: Seq<(String, String)>) -> Seq<(Seq<char>, Seq<char>)> {
    crate::config::pair_views(v)
}

/// The resources a function is created with, as plain values: the client
/// and source mount ids, the cache volume id, the secret ids and the user
/// volumes as `(volume id, mount path)`.
pub open spec fn res_view(res: AttachedResources) -> (Seq<char>, Seq<char>, Option<Seq<char>>, Seq<Seq<char>>, Seq<(Seq<char>, Seq<char>)>) {
    (res.client_mount_id@, res.source_mount_id@, crate::config::opt_owned(res.cache_vol_id), views(res.secret_ids@), pair_views(res.user_volume_mounts@))
}

/// The function-create plan of an entrypoint.
pub open spec fn function_planned(b: Boundary, ep: Entrypoint, image_id: Seq<char>, res: AttachedResources, r: FunctionPlan) -> bool {
    function_planned_v(b, ep, image_id, res_view(res), r)
}

/// The function-create plan of an entrypoint over an image and resources
/// given as plain values ([`res_view`]).
pub open spec fn function_planned_v(
    b: Boundary,
    ep: Entrypoint,
    image_id: Seq<char>,
    res: (Seq<char>, Seq<char>, Option<Seq<char>>, Seq<Seq<char>>, Seq<(Seq<char>, Seq<char>)>),
    r: FunctionPlan,
) -> bool {
    let o = ep.options;
    &&& r.module@ == (match b.source_delivery {
        SourceDelivery::RunMount => WRAPPER_MODULE@,
        SourceDelivery::DeployContext => DEPLOY_WRAPPER_MODULE@,
    })
    &&& r.callable@ == spec_callable(b, ep.name@, o)
    &&& r.image_id@ == image_id
    &&& r.app_function_name@ == spec_object_tag(ep.name@)
    &&& views(r.mount_ids@) == (match b.source_delivery {
        SourceDelivery::RunMount => seq![res.0, res.1],
        SourceDelivery::DeployContext => seq![res.0],
    })
    &&& r.mount_client_dependencies
    &&& r.timeout_secs == ep.timeout_secs
    &&& crate::config::opt_owned(r.gpu) == crate::config::opt_owned(o.gpu)
    &&& r.milli_cpu == o.milli_cpu
    &&& r.memory_mb == o.memory_mb
    &&& r.max_concurrent_inputs == o.max_concurrent_inputs
    &&& r.target_concurrent_inputs == o.target_concurrent_inputs
    &&& crate::config::opt_owned(r.schedule) == crate::config::opt_owned(o.schedule)
    &&& r.min_containers == o.min_containers
    &&& r.max_containers == o.max_containers
    &&& r.buffer_containers == o.buffer_containers
    &&& r.scaledown_window == o.scaledown_window
    &&& r.memory_snapshot == (o.enable_memory_snapshot && b.app_state == AppState::Deployed)
    &&& webhook_view(r.webhook) == spec_webhook(b, o)
    &&& (match o.retries_spec {
        Some(spec) => r.retry matches RetryPlan::Spec(x) && x@ == spec@,
        None => r.retry == RetryPlan::Count(o.retries),
    })
    &&& pair_views(r.volume_mounts@) == (match res.2 {
        Some(v) => seq![(v, CACHE_MOUNT@)],
        None => Seq::empty(),
    }) + res.4
    &&& views(r.secret_ids@) == res.3
}

/// Every option an entrypoint declares rides into its create request
/// unchanged, on either boundary: the image, the tag, the timeout, the GPU,
/// CPU and memory requests, the input concurrency, the schedule, the whole
/// autoscaler (floor, ceiling, buffer, scaledown window) and the retry count.
pub proof fn lemma_plan_carries_options(b: Boundary, ep: Entrypoint, image_id: Seq<char>, res: AttachedResources, r: FunctionPlan)
    requires
        function_planned(b, ep, image_id, res, r),
    ensures
        r.image_id@ == image_id,
        r.app_function_name@ == spec_object_tag(ep.name@),
        r.timeout_secs == ep.timeout_secs,
        crate::config::opt_owned(r.gpu) == crate::config::opt_owned(ep.options.gpu),
        r.milli_cpu == ep.options.milli_cpu,
        r.memory_mb == ep.options.memory_mb,
        r.max_concurrent_inputs == ep.options.max_concurrent_inputs,
        r.target_concurrent_inputs == ep.options.target_concurrent_inputs,
        crate::config::opt_owned(r.schedule) == crate::config::opt_owned(ep.options.schedule),
        r.min_containers == ep.options.min_containers,
        r.max_containers == ep.options.max_containers,
        r.buffer_containers == ep.options.buffer_containers,
        r.scaledown_window == ep.options.scaledown_window,
        ep.options.retries_spec is None ==> r.retry == RetryPlan::Count(ep.options.retries),
        ep.options.retries_spec matches Some(x) ==> (r.retry matches RetryPlan::Spec(y) && y@ == x@),
        r.memory_snapshot == (ep.options.enable_memory_snapshot && b.app_state == AppState::Deployed),
{
}

/// The URL is deploy-only: a function created on the run boundary never has a
/// webhook or memory snapshots and keeps the run wrapper's shared dispatch
/// callable, whatever web options its entrypoint declares; on the deploy
/// boundary a web endpoint (a method, no port) gets its own adapter callable.
pub proof fn lemma_web_is_deploy_only(b: Boundary, ep: Entrypoint, image_id: Seq<char>, res: AttachedResources, r: FunctionPlan)
    requires
        function_planned(b, ep, image_id, res, r),
    ensures
        b.app_state == AppState::Ephemeral ==> r.webhook is None && !r.memory_snapshot,
        b.app_state == AppState::Ephemeral && b.source_delivery == SourceDelivery::RunMount ==> r.callable@ == WRAPPER_CALLABLE@
            && r.module@ == WRAPPER_MODULE@,
        b == deploy_boundary_spec() && ep.options.webhook_method is Some && ep.options.web_server_port is None ==> r.callable@
            == spec_web_endpoint_attr(ep.name@) && r.webhook is Some,
{
}

/// The deploy boundary as a value.
pub open spec fn deploy_boundary_spec() -> Boundary {
    Boundary { app_state: AppState::Deployed, source_delivery: SourceDelivery::DeployContext }
}

fn clone_opt(o: &Option<String>) -> (r: Option<String>)
    ensures
        crate::config::opt_owned(r) == crate::config::opt_owned(*o),
{
    match o {
        Some(s) => Some(s.clone()),
        None => None,
    }
}

fn clone_pairs(v: &Vec<(String, String)>, out: &mut Vec<(String, String)>)
    ensures
        pair_views(final(out)@) == pair_views(old(out)@) + pair_views(v@),
{
    let ghost start = pair_views(out@);
    let mut i: usize = 0;
    while i < v.len()
        invariant
            i <= v@.len(),
            pair_views(out@) == start + pair_views(v@).subrange(0, i as int),
        decreases v@.len() - i,
    {
        let ghost before = pair_views(out@);
        out.push((v[i].0.clone(), v[i].1.clone()));
        proof {
            assert(pair_views(out@) =~= before.push((v@[i as int].0@, v@[i as int].1@)));
            assert(pair_views(v@).subrange(0, i + 1) =~= pair_views(v@).subrange(0, i as int).push(
                (v@[i as int].0@, v@[i as int].1@),
            ));
        }
        i = i + 1;
    }
    proof {
        assert(pair_views(v@).subrange(0, v@.len() as int) =~= pair_views(v@));
    }
}

/// The function-create plan for one entrypoint: the boundary's wrapper module
/// and mounts, the per-entrypoint callable on deploy (a web server's launcher,
/// an endpoint's adapter, else the shared dispatch), the options carried over,
/// the webhook and memory snapshots on deploy only, the struct-form retry policy
/// over the bare count, the cache volume before the user volumes.
pub fn build_function_spec(boundary: &Boundary, ep: &Entrypoint, image_id: &str, res: &AttachedResources) -> (r: FunctionPlan)
    ensures
        function_planned(*boundary, *ep, image_id@, *res, r),
        r.image_id@ == image_id@,
        r.app_function_name@ == spec_object_tag(ep.name@),
        r.timeout_secs == ep.timeout_secs,
        crate::config::opt_owned(r.gpu) == crate::config::opt_owned(ep.options.gpu),
        r.milli_cpu == ep.options.milli_cpu,
        r.memory_mb == ep.options.memory_mb,
        r.max_concurrent_inputs == ep.options.max_concurrent_inputs,
        r.target_concurrent_inputs == ep.options.target_concurrent_inputs,
        crate::config::opt_owned(r.schedule) == crate::config::opt_owned(ep.options.schedule),
        r.min_containers == ep.options.min_containers,
        r.max_containers == ep.options.max_containers,
        r.buffer_containers == ep.options.buffer_containers,
        r.scaledown_window == ep.options.scaledown_window,
        ep.options.retries_spec is None ==> r.retry == RetryPlan::Count(ep.options.retries),
        ep.options.retries_spec matches Some(x) ==> (r.retry matches RetryPlan::Spec(y) && y@ == x@),
        r.memory_snapshot == (ep.options.enable_memory_snapshot && boundary.app_state == AppState::Deployed),
{
    let o = &ep.options;
    let deployed = match boundary.app_state {
        AppState::Deployed => true,
        AppState::Ephemeral => false,
    };
    let webhook = if deployed && o.web_server_port.is_some() {
        Some(WebhookPlan {
            method: String::new(),
            requires_proxy_auth: o.webhook_requires_proxy_auth,
            web_server_port: o.web_server_port,
            web_server_startup_timeout: o.web_server_startup_timeout,
        })
    } else if deployed && o.webhook_method.is_some() {
        let m = match &o.webhook_method {
            Some(m) => m.clone(),
            None => String::new(),
        };
        Some(WebhookPlan {
            method: m,
            requires_proxy_auth: o.webhook_requires_proxy_auth,
            web_server_port: None,
            web_server_startup_timeout: None,
        })
    } else {
        None
    };
    let is_web_server = match &webhook {
        Some(w) => w.web_server_port.is_some(),
        None => false,
    };
    let mut mount_ids: Vec<String> = Vec::new();
    mount_ids.push(res.client_mount_id.clone());
    let (module, callable) = match boundary.source_delivery {
        SourceDelivery::RunMount => {
            mount_ids.push(res.source_mount_id.clone());
            (String::from_str(WRAPPER_MODULE), String::from_str(WRAPPER_CALLABLE))
        },
        SourceDelivery::DeployContext => {
            let callable = if is_web_server {
                web_server_attr(ep.name.as_str())
            } else if webhook.is_some() {
                web_endpoint_attr(ep.name.as_str())
            } else {
                String::from_str(DEPLOY_WRAPPER_CALLABLE)
            };
            (String::from_str(DEPLOY_WRAPPER_MODULE), callable)
        },
    };
    proof {
        match boundary.source_delivery {
            SourceDelivery::RunMount => {
                assert(views(mount_ids@) =~= seq![res.client_mount_id@, res.source_mount_id@]);
            },
            SourceDelivery::DeployContext => {
                assert(views(mount_ids@) =~= seq![res.client_mount_id@]);
            },
        }
    }
    let retry = match &o.retries_spec {
        Some(spec) => RetryPlan::Spec(spec.clone()),
        None => RetryPlan::Count(o.retries),
    };
    let mut volume_mounts: Vec<(String, String)> = Vec::new();
    match &res.cache_vol_id {
        Some(vid) => {
            volume_mounts.push((vid.clone(), String::from_str(CACHE_MOUNT)));
        },
        None => {},
    }
    proof {
        assert(pair_views(volume_mounts@) =~= (match res.cache_vol_id {
            Some(v) => seq![(v@, CACHE_MOUNT@)],
            None => Seq::empty(),
        }));
    }
    clone_pairs(&res.user_volume_mounts, &mut volume_mounts);
    let secret_ids = clone_strings(&res.secret_ids);
    FunctionPlan {
        module,
        callable,
        image_id: String::from_str(image_id),
        app_function_name: crate::remote::sanitize_object_tag(ep.name.as_str()),
        mount_ids,
        mount_client_dependencies: true,
        timeout_secs: ep.timeout_secs,
        gpu: clone_opt(&o.gpu),
        milli_cpu: o.milli_cpu,
        memory_mb: o.memory_mb,
        max_concurrent_inputs: o.max_concurrent_inputs,
        target_concurrent_inputs: o.target_concurrent_inputs,
        schedule: clone_opt(&o.schedule),
        min_containers: o.min_containers,
        max_containers: o.max_containers,
        buffer_containers: o.buffer_containers,
        scaledown_window: o.scaledown_window,
        memory_snapshot: o.enable_memory_snapshot && deployed,
        webhook,
        retry,
        volume_mounts,
        secret_ids,
    }
}

/// The plain values of a retry policy.
pub open spec fn retry_view(r: RetryPlan) -> (bool, Seq<char>, Option<u32>) {
    match r {
        RetryPlan::Spec(s) => (true, s@, None),
        RetryPlan::Count(n) => (false, Seq::empty(), n),
    }
}

/// `a` and `b` are the same function-create plan.
pub open spec fn same_plan(a: FunctionPlan, b: FunctionPlan) -> bool {
    &&& a.module@ == b.module@
    &&& a.callable@ == b.callable@
    &&& a.image_id@ == b.image_id@
    &&& a.app_function_name@ == b.app_function_name@
    &&& views(a.mount_ids@) == views(b.mount_ids@)
    &&& a.mount_client_dependencies == b.mount_client_dependencies
    &&& a.timeout_secs == b.timeout_secs
    &&& crate::config::opt_owned(a.gpu) == crate::config::opt_owned(b.gpu)
    &&& a.milli_cpu == b.milli_cpu
    &&& a.memory_mb == b.memory_mb
    &&& a.max_concurrent_inputs == b.max_concurrent_inputs
    &&& a.target_concurrent_inputs == b.target_concurrent_inputs
    &&& crate::config::opt_owned(a.schedule) == crate::config::opt_owned(b.schedule)
    &&& a.min_containers == b.min_containers
    &&& a.max_containers == b.max_containers
    &&& a.buffer_containers == b.buffer_containers
    &&& a.scaledown_window == b.scaledown_window
    &&& a.memory_snapshot == b.memory_snapshot
    &&& webhook_view(a.webhook) == webhook_view(b.webhook)
    &&& retry_view(a.retry) == retry_view(b.retry)
    &&& pair_views(a.volume_mounts@) == pair_views(b.volume_mounts@)
    &&& views(a.secret_ids@) == views(b.secret_ids@)
}

/// Two lists of plans agree plan by plan.
pub open spec fn same_plans(a: Seq<FunctionPlan>, b: Seq<FunctionPlan>) -> bool {
    a.len() == b.len() && forall|k: int| 0 <= k < a.len() ==> same_plan(#[trigger] a[k], b[k])
}

impl FunctionPlan {
    /// A copy of this plan.
    pub fn duplicate(&self) -> (r: FunctionPlan)
        ensures
            same_plan(r, *self),
    {
        let webhook = match &self.webhook {
            Some(w) => Some(WebhookPlan {
                method: w.method.clone(),
                requires_proxy_auth: w.requires_proxy_auth,
                web_server_port: w.web_server_port,
                web_server_startup_timeout: w.web_server_startup_timeout,
            }),
            None => None,
        };
        let retry = match &self.retry {
            RetryPlan::Spec(s) => RetryPlan::Spec(s.clone()),
            RetryPlan::Count(n) => RetryPlan::Count(*n),
        };
        FunctionPlan {
            module: self.module.clone(),
            callable: self.callable.clone(),
            image_id: self.image_id.clone(),
            app_function_name: self.app_function_name.clone(),
            mount_ids: clone_strings(&self.mount_ids),
            mount_client_dependencies: self.mount_client_dependencies,
            timeout_secs: self.timeout_secs,
            gpu: clone_opt(&self.gpu),
            milli_cpu: self.milli_cpu,
            memory_mb: self.memory_mb,
            max_concurrent_inputs: self.max_concurrent_inputs,
            target_concurrent_inputs: self.target_concurrent_inputs,
            schedule: clone_opt(&self.schedule),
            min_containers: self.min_containers,
            max_containers: self.max_containers,
            buffer_containers: self.buffer_containers,
            scaledown_window: self.scaledown_window,
            memory_snapshot: self.memory_snapshot,
            webhook,
            retry,
            volume_mounts: clone_mounts(&self.volume_mounts),
            secret_ids: clone_strings(&self.secret_ids),
        }
    }
}

/// A plan that agrees with an entrypoint's plan is one too.
proof fn lemma_planned_same(b: Boundary, ep: Entrypoint, image_id: Seq<char>, res: AttachedResources, p: FunctionPlan, q: FunctionPlan)
    requires
        function_planned(b, ep, image_id, res, p),
        same_plan(p, q),
    ensures
        function_planned(b, ep, image_id, res, q),
{
    lemma_planned_same_v(b, ep, image_id, res_view(res), p, q);
}

proof fn lemma_planned_same_v(
    b: Boundary,
    ep: Entrypoint,
    image_id: Seq<char>,
    res: (Seq<char>, Seq<char>, Option<Seq<char>>, Seq<Seq<char>>, Seq<(Seq<char>, Seq<char>)>),
    p: FunctionPlan,
    q: FunctionPlan,
)
    requires
        function_planned_v(b, ep, image_id, res, p),
        same_plan(p, q),
    ensures
        function_planned_v(b, ep, image_id, res, q),
{
    match ep.options.retries_spec {
        Some(s) => {
            assert(p.retry is Spec);
            assert(q.retry is Spec);
        },
        None => {
            assert(p.retry == RetryPlan::Count(ep.options.retries));
            assert(q.retry is Count);
        },
    }
}

/// The resources the `k`-th entrypoint's function is created with, as far as
/// the inputs decide them (the ids are the control plane's): the cache volume
/// exactly on a run with the cache on, one secret id per secret resolved, and
/// the user volumes at their paths, in order. A run resolves the first
/// entrypoint's secrets and volumes; a deploy each entrypoint's own.
pub open spec fn resources_fit(b: Boundary, i: ProvisionInputs, k: int, res: AttachedResources) -> bool {
    let o = match b.source_delivery {
        SourceDelivery::RunMount => i.entrypoints@[0].options,
        SourceDelivery::DeployContext => i.entrypoints@[k].options,
    };
    &&& (res.cache_vol_id is Some) == (b.source_delivery == SourceDelivery::RunMount && i.cache)
    &&& res.secret_ids@.len() == secret_count(o)
    &&& res.user_volume_mounts@.len() == o.volumes@.len()
    &&& forall|j: int| 0 <= j < o.volumes@.len() ==> (#[trigger] res.user_volume_mounts@[j]).1@ == o.volumes@[j].0@
}

/// `p` is the `k`-th entrypoint's function plan, over some built image and
/// some resources that fit.
pub open spec fn planned_at(b: Boundary, i: ProvisionInputs, k: int, p: FunctionPlan) -> bool {
    exists|img: Seq<char>, res: AttachedResources| #[trigger] function_planned(b, i.entrypoints@[k], img, res, p) && resources_fit(
        b,
        i,
        k,
        res,
    )
}

/// `after` is `before` followed by the plans of the first `k` entrypoints.
pub open spec fn created_upto(b: Boundary, i: ProvisionInputs, before: Seq<FunctionPlan>, after: Seq<FunctionPlan>, k: int) -> bool {
    &&& after.len() == before.len() + k
    &&& same_plans(after.subrange(0, before.len() as int), before)
    &&& forall|j: int| 0 <= j < k ==> #[trigger] planned_at(b, i, j, after[before.len() + j])
}

proof fn lemma_created_step(
    b: Boundary,
    i: ProvisionInputs,
    before: Seq<FunctionPlan>,
    c1: Seq<FunctionPlan>,
    c2: Seq<FunctionPlan>,
    k: int,
    plan: FunctionPlan,
    img: Seq<char>,
    res: AttachedResources,
)
    requires
        0 <= k < i.entrypoints@.len(),
        created_upto(b, i, before, c1, k),
        same_plans(c2, c1.push(plan)),
        function_planned(b, i.entrypoints@[k], img, res, plan),
        resources_fit(b, i, k, res),
    ensures
        created_upto(b, i, before, c2, k + 1),
{
    let n = before.len() as int;
    assert(c2.len() == c1.len() + 1);
    assert forall|x: int| 0 <= x < n implies same_plan(#[trigger] c2.subrange(0, n)[x], before[x]) by {
        assert(c2.subrange(0, n)[x] == c2[x]);
        assert(same_plan(c2[x], c1.push(plan)[x]));
        assert(c1.push(plan)[x] == c1[x]);
        assert(c1.subrange(0, n)[x] == c1[x]);
    }
    assert forall|j: int| 0 <= j < k + 1 implies #[trigger] planned_at(b, i, j, c2[n + j]) by {
        assert(same_plan(c2[n + j], c1.push(plan)[n + j]));
        if j < k {
            assert(c1.push(plan)[n + j] == c1[n + j]);
            assert(planned_at(b, i, j, c1[n + j]));
            let (w_img, w_res) = choose|w_img: Seq<char>, w_res: AttachedResources| #[trigger] function_planned(
                b,
                i.entrypoints@[j],
                w_img,
                w_res,
                c1[n + j],
            ) && resources_fit(b, i, j, w_res);
            lemma_planned_same(b, i.entrypoints@[j], w_img, w_res, c1[n + j], c2[n + j]);
        } else {
            assert(c1.push(plan)[n + j] == plan);
            lemma_planned_same(b, i.entrypoints@[j], img, res, plan, c2[n + j]);
        }
    }
}

/// The map a log of `(key, value)` entries stands for: later entries win.
pub open spec fn log_map(v: Seq<(String, String)>) -> Map<Seq<char>, Seq<char>>
    decreases v.len(),
{
    if v.len() == 0 {
        Map::empty()
    } else {
        log_map(v.drop_last()).insert(v.last().0@, v.last().1@)
    }
}

/// What one function create returned.
#[derive(Debug, Clone, Default)]
pub struct Created {
    /// The invokable function id.
    pub function_id: String,
    /// The definition id (may be empty).
    pub definition_id: String,
    /// The served URL of a web function (empty otherwise).
    pub web_url: String,
}

/// The cumulative set of functions published into one app, as entry logs
/// (see [`log_map`]).
#[derive(Debug, Clone, Default)]
pub struct Published {
    /// Object tag to function id.
    pub function_ids: Vec<(String, String)>,
    /// Function id to definition id (only non-empty definition ids).
    pub definition_ids: Vec<(String, String)>,
    /// Object tag to served URL (only non-empty URLs).
    pub endpoint_urls: Vec<(String, String)>,
}

impl Published {
    /// An empty union.
    pub fn new() -> (r: Published)
        ensures
            log_map(r.function_ids@) == Map::<Seq<char>, Seq<char>>::empty(),
            log_map(r.definition_ids@) == Map::<Seq<char>, Seq<char>>::empty(),
            log_map(r.endpoint_urls@) == Map::<Seq<char>, Seq<char>>::empty(),
    {
        Published { function_ids: Vec::new(), definition_ids: Vec::new(), endpoint_urls: Vec::new() }
    }

    /// Records one create under `object_tag`: its function id; its definition
    /// id and served URL when non-empty.
    pub fn record(&mut self, object_tag: &str, created: &Created)
        ensures
            log_map(final(self).function_ids@) == log_map(old(self).function_ids@).insert(object_tag@, created.function_id@),
            log_map(final(self).definition_ids@) == (if created.definition_id@.len() > 0 {
                log_map(old(self).definition_ids@).insert(created.function_id@, created.definition_id@)
            } else {
                log_map(old(self).definition_ids@)
            }),
            log_map(final(self).endpoint_urls@) == (if created.web_url@.len() > 0 {
                log_map(old(self).endpoint_urls@).insert(object_tag@, created.web_url@)
            } else {
                log_map(old(self).endpoint_urls@)
            }),
    {
        let ghost f0 = self.function_ids@;
        self.function_ids.push((String::from_str(object_tag), created.function_id.clone()));
        proof {
            assert(self.function_ids@.drop_last() =~= f0);
        }
        if created.definition_id.unicode_len() > 0 {
            let ghost d0 = self.definition_ids@;
            self.definition_ids.push((created.function_id.clone(), created.definition_id.clone()));
            proof {
                assert(self.definition_ids@.drop_last() =~= d0);
            }
        }
        if created.web_url.unicode_len() > 0 {
            let ghost u0 = self.endpoint_urls@;
            self.endpoint_urls.push((String::from_str(object_tag), created.web_url.clone()));
            proof {
                assert(self.endpoint_urls@.drop_last() =~= u0);
            }
        }
    }
}

/// Recording a create keeps every function recorded under another tag, with
/// its id: the publish union only grows.
pub proof fn lemma_record_keeps_others(
    before: Seq<(String, String)>,
    after: Seq<(String, String)>,
    tag: Seq<char>,
    id: Seq<char>,
    other: Seq<char>,
)
    requires
        log_map(after) == log_map(before).insert(tag, id),
        other != tag,
    ensures
        log_map(before).contains_key(other) ==> log_map(after).contains_key(other) && log_map(after)[other]
            == log_map(before)[other],
        log_map(after).contains_key(tag) && log_map(after)[tag] == id,
{
}

/// One control-plane call, with the plain arguments it was handed where they
/// name something (image layers and function plans are logged apart).
pub enum Call {
    /// The app, by name, resolved in a state.
    App(Seq<char>, AppState),
    /// A volume by name (`true`: the cargo cache).
    Volume(Seq<char>, bool),
    /// A named secret.
    Secret(Seq<char>),
    /// An inline secret, under its name.
    InlineSecret(Seq<char>),
    ClientMount,
    SourceMount,
    PrebuildMount,
    PythonMount,
    Image,
    /// A precreate under an object tag.
    Precreate(Seq<char>),
    Create,
    /// A publish in a state.
    Publish(AppState),
    /// A lookup of a deployed function by app name and object tag.
    Lookup(Seq<char>, Seq<char>),
}

/// What the plane answered, by kind and in order (app ids; volume ids; secret
/// ids, named and inline; mount ids, client, source and Python alike; prebuild
/// stub ids; image ids; precreate ids; created functions as function id,
/// definition id and web URL; publish URLs; looked-up function ids), and what
/// each publish was handed (the function ids and definition ids by key).
pub struct Ledger {
    pub apps: Seq<Seq<char>>,
    pub volumes: Seq<Seq<char>>,
    pub secrets: Seq<Seq<char>>,
    pub mounts: Seq<Seq<char>>,
    pub stubs: Seq<Seq<char>>,
    pub images: Seq<Seq<char>>,
    pub precreates: Seq<Seq<char>>,
    pub functions: Seq<(Seq<char>, Seq<char>, Seq<char>)>,
    pub urls: Seq<Seq<char>>,
    pub publishes: Seq<(Map<Seq<char>, Seq<char>>, Map<Seq<char>, Seq<char>>)>,
    pub lookups: Seq<Seq<char>>,
}

/// The kind of id a call answers.
pub enum Answer {
    App,
    Volume,
    Secret,
    Mount,
    Image,
    Precreate,
    Url,
    Lookup,
}

/// The ledger after a call of kind `k` answered `r`: an id is appended to its
/// kind's list; an error appends nothing.
pub open spec fn answered(l: Ledger, k: Answer, r: Result<String, Error>) -> Ledger {
    match r {
        Ok(id) => match k {
            Answer::App => Ledger { apps: l.apps.push(id@), ..l },
            Answer::Volume => Ledger { volumes: l.volumes.push(id@), ..l },
            Answer::Secret => Ledger { secrets: l.secrets.push(id@), ..l },
            Answer::Mount => Ledger { mounts: l.mounts.push(id@), ..l },
            Answer::Image => Ledger { images: l.images.push(id@), ..l },
            Answer::Precreate => Ledger { precreates: l.precreates.push(id@), ..l },
            Answer::Url => Ledger { urls: l.urls.push(id@), ..l },
            Answer::Lookup => Ledger { lookups: l.lookups.push(id@), ..l },
        },
        Err(_) => l,
    }
}

/// The ledger after the prebuild stub call answered `r`.
pub open spec fn answered_stub(l: Ledger, r: Result<Option<String>, Error>) -> Ledger {
    match r {
        Ok(Some(id)) => Ledger { stubs: l.stubs.push(id@), ..l },
        _ => l,
    }
}

/// The ledger after a create answered `r`.
pub open spec fn answered_function(l: Ledger, r: Result<Created, Error>) -> Ledger {
    match r {
        Ok(c) => Ledger { functions: l.functions.push((c.function_id@, c.definition_id@, c.web_url@)), ..l },
        Err(_) => l,
    }
}

/// What a call was handed beyond what its [`Call`] names, for the calls that
/// take more: the pre-resolved app id, a named secret's required keys, an
/// inline secret's key/values, a source upload's inputs ([`source_view`]) and
/// remote path, the Python series.
pub enum Handed {
    App(Option<Seq<char>>),
    Secret(Seq<Seq<char>>),
    InlineSecret(Seq<(Seq<char>, Seq<char>)>),
    SourceMount((Seq<char>, Seq<char>, bool, Seq<char>, Seq<char>), Seq<char>),
    PrebuildMount((Seq<char>, Seq<char>, bool, Seq<char>, Seq<char>), Seq<char>),
    PythonMount(Seq<char>),
}

/// The control-plane operations provisioning drives. `calls` is the log of the
/// calls made so far; every operation appends its call, whatever it returns.
/// An `infallible` plane (one that answers offline) never returns an error and
/// stays infallible; a plane that `builds_stubs` can upload a dependency-prebuild
/// stub, and stays so; `created` lists the plans handed to `create`, in order,
/// `built` the image layers handed to `ensure_image` as plain values, and
/// `handed` what the calls that take more than their [`Call`] names were handed,
/// and `ledger` what the plane answered and what each publish was handed.
pub trait ControlPlane {
    spec fn calls(&self) -> Seq<Call>;

    spec fn infallible(&self) -> bool;

    spec fn builds_stubs(&self) -> bool;

    spec fn created(&self) -> Seq<FunctionPlan>;

    spec fn built(&self) -> Seq<(Seq<char>, Seq<OpView>, u8)>;

    spec fn handed(&self) -> Seq<Handed>;

    spec fn ledger(&self) -> Ledger;

    /// Resolves the app object; returns its id.
    fn ensure_app(&mut self, app_name: &str, pre_resolved: Option<&str>, state: AppState) -> (r: Result<String, Error>)
        ensures
            final(self).calls() == old(self).calls().push(Call::App(app_name@, state)),
            final(self).infallible() == old(self).infallible(),
            final(self).builds_stubs() == old(self).builds_stubs(),
            final(self).created() == old(self).created(),
            final(self).built() == old(self).built(),
            final(self).handed() == old(self).handed().push(Handed::App(crate::config::opt_borrowed(pre_resolved))),
            final(self).ledger() == answered(old(self).ledger(), Answer::App, r),
            old(self).infallible() ==> r is Ok,
    ;

    /// Resolves a volume by name (`v2`: the cargo cache); returns its id.
    fn ensure_volume(&mut self, name: &str, v2: bool) -> (r: Result<String, Error>)
        ensures
            final(self).calls() == old(self).calls().push(Call::Volume(name@, v2)),
            final(self).infallible() == old(self).infallible(),
            final(self).builds_stubs() == old(self).builds_stubs(),
            final(self).created() == old(self).created(),
            final(self).built() == old(self).built(),
            final(self).handed() == old(self).handed(),
            final(self).ledger() == answered(old(self).ledger(), Answer::Volume, r),
            old(self).infallible() ==> r is Ok,
    ;

    /// Resolves a named secret asserting `required_keys`; returns its id.
    fn ensure_secret(&mut self, name: &str, required_keys: &Vec<String>) -> (r: Result<String, Error>)
        ensures
            final(self).calls() == old(self).calls().push(Call::Secret(name@)),
            final(self).infallible() == old(self).infallible(),
            final(self).builds_stubs() == old(self).builds_stubs(),
            final(self).created() == old(self).created(),
            final(self).built() == old(self).built(),
            final(self).handed() == old(self).handed().push(Handed::Secret(views(required_keys@))),
            final(self).ledger() == answered(old(self).ledger(), Answer::Secret, r),
            old(self).infallible() ==> r is Ok,
    ;

    /// Resolves an inline secret from key/values under `name`; returns its id.
    fn ensure_inline_secret(&mut self, name: &str, env: &Vec<(String, String)>) -> (r: Result<String, Error>)
        ensures
            final(self).calls() == old(self).calls().push(Call::InlineSecret(name@)),
            final(self).infallible() == old(self).infallible(),
            final(self).builds_stubs() == old(self).builds_stubs(),
            final(self).created() == old(self).created(),
            final(self).built() == old(self).built(),
            final(self).handed() == old(self).handed().push(Handed::InlineSecret(pair_views(env@))),
            final(self).ledger() == answered(old(self).ledger(), Answer::Secret, r),
            old(self).infallible() ==> r is Ok,
    ;

    /// Resolves the hosted client mount; returns its id.
    fn ensure_client_mount(&mut self) -> (r: Result<String, Error>)
        ensures
            final(self).calls() == old(self).calls().push(Call::ClientMount),
            final(self).infallible() == old(self).infallible(),
            final(self).builds_stubs() == old(self).builds_stubs(),
            final(self).created() == old(self).created(),
            final(self).built() == old(self).built(),
            final(self).handed() == old(self).handed(),
            final(self).ledger() == answered(old(self).ledger(), Answer::Mount, r),
            old(self).infallible() ==> r is Ok,
    ;

    /// Uploads the source to `remote_path`; returns the mount id.
    fn ensure_source_mount(&mut self, source: &SourceInputs, remote_path: &str) -> (r: Result<String, Error>)
        ensures
            final(self).calls() == old(self).calls().push(Call::SourceMount),
            final(self).infallible() == old(self).infallible(),
            final(self).builds_stubs() == old(self).builds_stubs(),
            final(self).created() == old(self).created(),
            final(self).built() == old(self).built(),
            final(self).handed() == old(self).handed().push(Handed::SourceMount(source_view(*source), remote_path@)),
            final(self).ledger() == answered(old(self).ledger(), Answer::Mount, r),
            old(self).infallible() ==> r is Ok,
    ;

    /// Uploads the dependency-prebuild stub; `None` when no stub can be built
    /// (always, on a plane that builds no stubs).
    fn ensure_prebuild_mount(&mut self, source: &SourceInputs, remote_path: &str) -> (r: Result<Option<String>, Error>)
        ensures
            r matches Ok(Some(_)) ==> old(self).builds_stubs(),
            final(self).calls() == old(self).calls().push(Call::PrebuildMount),
            final(self).infallible() == old(self).infallible(),
            final(self).builds_stubs() == old(self).builds_stubs(),
            final(self).created() == old(self).created(),
            final(self).built() == old(self).built(),
            final(self).handed() == old(self).handed().push(Handed::PrebuildMount(source_view(*source), remote_path@)),
            final(self).ledger() == answered_stub(old(self).ledger(), r),
            old(self).infallible() ==> r is Ok,
    ;

    /// Resolves the python-build-standalone mount; returns its id.
    fn ensure_python_mount(&mut self, series: &str) -> (r: Result<String, Error>)
        ensures
            final(self).calls() == old(self).calls().push(Call::PythonMount),
            final(self).infallible() == old(self).infallible(),
            final(self).builds_stubs() == old(self).builds_stubs(),
            final(self).created() == old(self).created(),
            final(self).built() == old(self).built(),
            final(self).handed() == old(self).handed().push(Handed::PythonMount(series@)),
            final(self).ledger() == answered(old(self).ledger(), Answer::Mount, r),
            old(self).infallible() ==> r is Ok,
    ;

    /// Builds one image layer; returns the image id.
    fn ensure_image(&mut self, app_id: &str, spec: &ImagePlan, layer: u8) -> (r: Result<String, Error>)
        ensures
            final(self).calls() == old(self).calls().push(Call::Image),
            final(self).infallible() == old(self).infallible(),
            final(self).builds_stubs() == old(self).builds_stubs(),
            final(self).created() == old(self).created(),
            final(self).built() == old(self).built().push(image_view(*spec, layer)),
            final(self).handed() == old(self).handed(),
            final(self).ledger() == answered(old(self).ledger(), Answer::Image, r),
            old(self).infallible() ==> r is Ok,
    ;

    /// Precreates the function under `object_tag`; returns the precreate id.
    fn precreate(&mut self, app_id: &str, object_tag: &str) -> (r: Result<String, Error>)
        ensures
            final(self).calls() == old(self).calls().push(Call::Precreate(object_tag@)),
            final(self).infallible() == old(self).infallible(),
            final(self).builds_stubs() == old(self).builds_stubs(),
            final(self).created() == old(self).created(),
            final(self).built() == old(self).built(),
            final(self).handed() == old(self).handed(),
            final(self).ledger() == answered(old(self).ledger(), Answer::Precreate, r),
            old(self).infallible() ==> r is Ok,
    ;

    /// Creates the function.
    fn create(&mut self, app_id: &str, precreate_id: &str, plan: &FunctionPlan) -> (r: Result<Created, Error>)
        ensures
            final(self).calls() == old(self).calls().push(Call::Create),
            final(self).infallible() == old(self).infallible(),
            final(self).builds_stubs() == old(self).builds_stubs(),
            same_plans(final(self).created(), old(self).created().push(*plan)),
            final(self).built() == old(self).built(),
            final(self).handed() == old(self).handed(),
            final(self).ledger() == answered_function(old(self).ledger(), r),
            old(self).infallible() ==> r is Ok,
    ;

    /// Publishes the union of functions in `state`; returns the app URL.
    fn publish(
        &mut self,
        app_id: &str,
        app_name: &str,
        function_ids: &Vec<(String, String)>,
        definition_ids: &Vec<(String, String)>,
        state: AppState,
    ) -> (r: Result<String, Error>)
        ensures
            final(self).calls() == old(self).calls().push(Call::Publish(state)),
            final(self).infallible() == old(self).infallible(),
            final(self).builds_stubs() == old(self).builds_stubs(),
            final(self).created() == old(self).created(),
            final(self).built() == old(self).built(),
            final(self).handed() == old(self).handed(),
            final(self).ledger() == answered(Ledger { publishes: old(self).ledger().publishes.push((log_map(function_ids@), log_map(definition_ids@))), ..old(self).ledger() }, Answer::Url, r),
            old(self).infallible() ==> r is Ok,
    ;

    /// Looks up a deployed function by app name and object tag; returns its id.
    fn function_from_name(&mut self, app_name: &str, object_tag: &str) -> (r: Result<String, Error>)
        ensures
            final(self).calls() == old(self).calls().push(Call::Lookup(app_name@, object_tag@)),
            final(self).infallible() == old(self).infallible(),
            final(self).builds_stubs() == old(self).builds_stubs(),
            final(self).created() == old(self).created(),
            final(self).built() == old(self).built(),
            final(self).handed() == old(self).handed(),
            final(self).ledger() == answered(old(self).ledger(), Answer::Lookup, r),
            old(self).infallible() ==> r is Ok,
    ;
}

/// The secrets an entrypoint resolves: each named one, and the inline one when
/// it declares key/values.
pub open spec fn secret_count(o: FunctionOptions) -> nat {
    o.secrets@.len() + if o.env@.len() > 0 {
        1nat
    } else {
        0nat
    }
}

/// The calls resolving the first `n` named secrets.
pub open spec fn named_secret_calls(o: FunctionOptions, n: nat) -> Seq<Call> {
    Seq::new(n, |j: int| Call::Secret(o.secrets@[j]@))
}

/// The calls resolving an entrypoint's secrets: each named secret in order,
/// then the inline one, named after the app and the object tag, when it
/// declares key/values.
pub open spec fn secret_calls(app_name: Seq<char>, tag: Seq<char>, o: FunctionOptions) -> Seq<Call> {
    named_secret_calls(o, o.secrets@.len()) + if o.env@.len() > 0 {
        seq![Call::InlineSecret(spec_inline_secret_name(app_name, tag))]
    } else {
        Seq::empty()
    }
}

/// The calls resolving the first `n` user volumes, by name (never the cache).
pub open spec fn named_volume_calls(o: FunctionOptions, n: nat) -> Seq<Call> {
    Seq::new(n, |j: int| Call::Volume(o.volumes@[j].1@, false))
}

/// The calls resolving an entrypoint's user volumes, in order.
pub open spec fn volume_calls(o: FunctionOptions) -> Seq<Call> {
    named_volume_calls(o, o.volumes@.len())
}

/// The source-upload inputs as plain values: root, package, scoping switch,
/// ignore filename, run-path remote location.
pub open spec fn source_view(s: SourceInputs) -> (Seq<char>, Seq<char>, bool, Seq<char>, Seq<char>) {
    (s.local_root@, s.package@, s.use_cargo_scoping, s.modalignore_name@, s.remote_src@)
}

/// The three mounts, in order.
pub open spec fn mount_calls() -> Seq<Call> {
    seq![Call::ClientMount, Call::SourceMount, Call::PythonMount]
}

/// What the first `n` named secrets are handed: the required keys each.
pub open spec fn named_secret_handed(o: FunctionOptions, n: nat) -> Seq<Handed> {
    Seq::new(n, |j: int| Handed::Secret(views(o.required_keys@)))
}

/// What resolving an entrypoint's secrets hands over: the required keys to
/// each named secret, then the key/values to the inline one when there are any.
pub open spec fn secret_handed(o: FunctionOptions) -> Seq<Handed> {
    named_secret_handed(o, o.secrets@.len()) + if o.env@.len() > 0 {
        seq![Handed::InlineSecret(pair_views(o.env@))]
    } else {
        Seq::empty()
    }
}

/// Resolving an entrypoint's secrets hands every named secret exactly the
/// entrypoint's declared required keys (so the plane checks each of them on
/// that secret), and the inline secret, when there is one, its key/values.
pub proof fn lemma_secrets_handed_required_keys(o: FunctionOptions)
    ensures
        secret_handed(o).len() == secret_count(o),
        forall|j: int| 0 <= j < o.secrets@.len() ==> #[trigger] secret_handed(o)[j] == Handed::Secret(views(o.required_keys@)),
        o.env@.len() > 0 ==> secret_handed(o)[o.secrets@.len() as int] == Handed::InlineSecret(pair_views(o.env@)),
{
}

/// What the deploy path's per-entrypoint secrets hand over, for the first `k` entrypoints.
pub open spec fn deploy_loop_handed(eps: Seq<Entrypoint>, k: nat) -> Seq<Handed>
    decreases k,
{
    if k == 0 {
        Seq::empty()
    } else {
        deploy_loop_handed(eps, (k - 1) as nat) + secret_handed(eps[k - 1].options)
    }
}

/// What a successful provisioning hands over beyond the calls' names. Run:
/// the pre-resolved app id, the first entrypoint's secrets' keys and
/// key/values, the source mount at the run's remote path, the Python series.
/// Deploy: the source context at the deploy path, the Python series, the app
/// id, the prebuild stub at the deploy path when asked, and every
/// entrypoint's secrets' keys and key/values.
pub open spec fn expected_handed(i: ProvisionInputs, b: Boundary) -> Seq<Handed> {
    let app = Handed::App(crate::config::opt_owned(i.app_id));
    let py = Handed::PythonMount(PYTHON_SERIES@);
    match b.source_delivery {
        SourceDelivery::RunMount => seq![app] + secret_handed(i.entrypoints@[0].options) + seq![
            Handed::SourceMount(source_view(i.source), i.source.remote_src@),
            py,
        ],
        SourceDelivery::DeployContext => seq![Handed::SourceMount(source_view(i.source), DEPLOY_SRC@), py, app] + (if i.dep_prebuild {
            seq![Handed::PrebuildMount(source_view(i.source), DEPLOY_SRC@)]
        } else {
            Seq::empty()
        }) + deploy_loop_handed(i.entrypoints@, i.entrypoints@.len()),
    }
}

/// The per-entrypoint calls of the run path over the first `k` entrypoints:
/// a precreate under the entrypoint's tag, a create, and a publish of the
/// union in `state` each.
pub open spec fn run_loop_calls(eps: Seq<Entrypoint>, state: AppState, k: nat) -> Seq<Call>
    decreases k,
{
    if k == 0 {
        Seq::empty()
    } else {
        run_loop_calls(eps, state, (k - 1) as nat) + seq![
            Call::Precreate(spec_object_tag(eps[k - 1].name@)),
            Call::Create,
            Call::Publish(state),
        ]
    }
}

/// The per-entrypoint calls of the deploy path over the first `k` entrypoints:
/// a precreate under the entrypoint's tag, its secrets and volumes, a create.
pub open spec fn deploy_loop_calls(app_name: Seq<char>, eps: Seq<Entrypoint>, k: nat) -> Seq<Call>
    decreases k,
{
    if k == 0 {
        Seq::empty()
    } else {
        let tag = spec_object_tag(eps[k - 1].name@);
        deploy_loop_calls(app_name, eps, (k - 1) as nat) + seq![Call::Precreate(tag)] + secret_calls(
            app_name,
            tag,
            eps[k - 1].options,
        ) + volume_calls(eps[k - 1].options) + seq![Call::Create]
    }
}

/// The whole call sequence of a successful provisioning. Run: the app, the
/// cache volume when on, the first entrypoint's secrets and volumes, the
/// mounts, the image, then precreate/create/publish per entrypoint. Deploy:
/// the mounts, the app, the base image, the prebuild stub and its layer when
/// asked (the layer only when a stub was built, `stub`), the top image, the
/// per-entrypoint calls, and one publish. The app and every publish are in the
/// boundary's state.
pub open spec fn expected_calls(i: ProvisionInputs, b: Boundary, stub: bool) -> Seq<Call> {
    let app = Call::App(i.app_name@, b.app_state);
    match b.source_delivery {
        SourceDelivery::RunMount => seq![app] + (if i.cache {
            seq![Call::Volume(CACHE_VOLUME_NAME@, true)]
        } else {
            Seq::empty()
        }) + secret_calls(i.app_name@, spec_object_tag(i.entrypoints@[0].name@), i.entrypoints@[0].options)
            + volume_calls(i.entrypoints@[0].options) + mount_calls() + seq![Call::Image] + run_loop_calls(
            i.entrypoints@,
            b.app_state,
            i.entrypoints@.len(),
        ),
        SourceDelivery::DeployContext => mount_calls() + seq![app, Call::Image] + (if i.dep_prebuild {
            seq![Call::PrebuildMount] + if stub {
                seq![Call::Image]
            } else {
                Seq::empty()
            }
        } else {
            Seq::empty()
        }) + seq![Call::Image] + deploy_loop_calls(i.app_name@, i.entrypoints@, i.entrypoints@.len()) + seq![
            Call::Publish(b.app_state),
        ],
    }
}

/// The kind of a control-plane call, without what it carries.
pub enum CallShape {
    App,
    Volume,
    Secret,
    InlineSecret,
    ClientMount,
    SourceMount,
    PrebuildMount,
    PythonMount,
    Image,
    Precreate,
    Create,
    Publish,
    Lookup,
}

/// The kind of `c`.
pub open spec fn shape(c: Call) -> CallShape {
    match c {
        Call::App(..) => CallShape::App,
        Call::Volume(..) => CallShape::Volume,
        Call::Secret(..) => CallShape::Secret,
        Call::InlineSecret(..) => CallShape::InlineSecret,
        Call::ClientMount => CallShape::ClientMount,
        Call::SourceMount => CallShape::SourceMount,
        Call::PrebuildMount => CallShape::PrebuildMount,
        Call::PythonMount => CallShape::PythonMount,
        Call::Image => CallShape::Image,
        Call::Precreate(..) => CallShape::Precreate,
        Call::Create => CallShape::Create,
        Call::Publish(..) => CallShape::Publish,
        Call::Lookup(..) => CallShape::Lookup,
    }
}

/// How many calls of `s` are of kind `k`.
pub open spec fn shape_count(s: Seq<Call>, k: CallShape) -> nat
    decreases s.len(),
{
    if s.len() == 0 {
        0
    } else {
        shape_count(s.drop_last(), k) + if shape(s.last()) == k {
            1nat
        } else {
            0nat
        }
    }
}

/// The object tags of the precreates of `s`, in order.
pub open spec fn precreate_tags(s: Seq<Call>) -> Seq<Seq<char>>
    decreases s.len(),
{
    if s.len() == 0 {
        Seq::empty()
    } else {
        match s.last() {
            Call::Precreate(t) => precreate_tags(s.drop_last()).push(t),
            _ => precreate_tags(s.drop_last()),
        }
    }
}

/// The object tags of the first `k` entrypoints, in order.
pub open spec fn entrypoint_tags(eps: Seq<Entrypoint>, k: nat) -> Seq<Seq<char>> {
    Seq::new(k, |j: int| spec_object_tag(eps[j].name@))
}

proof fn lemma_shape_count_add(a: Seq<Call>, b: Seq<Call>, k: CallShape)
    ensures
        shape_count(a + b, k) == shape_count(a, k) + shape_count(b, k),
    decreases b.len(),
{
    if b.len() == 0 {
        assert(a + b =~= a);
    } else {
        lemma_shape_count_add(a, b.drop_last(), k);
        assert((a + b).drop_last() =~= a + b.drop_last());
    }
}

proof fn lemma_precreate_tags_add(a: Seq<Call>, b: Seq<Call>)
    ensures
        precreate_tags(a + b) == precreate_tags(a) + precreate_tags(b),
    decreases b.len(),
{
    if b.len() == 0 {
        assert(a + b =~= a);
        assert(precreate_tags(a) + precreate_tags(b) =~= precreate_tags(a));
    } else {
        lemma_precreate_tags_add(a, b.drop_last());
        assert((a + b).drop_last() =~= a + b.drop_last());
        assert((a + b).last() == b.last());
        match b.last() {
            Call::Precreate(t) => {
                assert(precreate_tags(a) + precreate_tags(b.drop_last()).push(t) =~= (precreate_tags(a) + precreate_tags(b.drop_last())).push(t));
            },
            _ => {},
        }
    }
}

/// Calls none of which is of kind `k`, or a precreate, count neither.
proof fn lemma_shape_none(s: Seq<Call>, k: CallShape)
    requires
        forall|j: int| 0 <= j < s.len() ==> shape(#[trigger] s[j]) != k && shape(s[j]) != CallShape::Precreate,
    ensures
        shape_count(s, k) == 0,
        precreate_tags(s) == Seq::<Seq<char>>::empty(),
    decreases s.len(),
{
    if s.len() > 0 {
        lemma_shape_none(s.drop_last(), k);
        assert(shape(s[s.len() - 1]) != k);
    }
}

proof fn lemma_entry_calls_shapes(app_name: Seq<char>, tag: Seq<char>, o: FunctionOptions, k: CallShape)
    requires
        k != CallShape::Secret && k != CallShape::InlineSecret && k != CallShape::Volume,
    ensures
        shape_count(secret_calls(app_name, tag, o), k) == 0,
        shape_count(volume_calls(o), k) == 0,
        precreate_tags(secret_calls(app_name, tag, o)) == Seq::<Seq<char>>::empty(),
        precreate_tags(volume_calls(o)) == Seq::<Seq<char>>::empty(),
{
    lemma_shape_none(secret_calls(app_name, tag, o), k);
    lemma_shape_none(volume_calls(o), k);
}

proof fn lemma_single_shape(c: Call, k: CallShape)
    ensures
        shape_count(seq![c], k) == if shape(c) == k {
            1nat
        } else {
            0nat
        },
        precreate_tags(seq![c]) == (match c {
            Call::Precreate(t) => seq![t],
            _ => Seq::<Seq<char>>::empty(),
        }),
{
    assert(seq![c].drop_last() =~= Seq::<Call>::empty());
    assert(seq![c].last() == c);
    assert(shape_count(Seq::<Call>::empty(), k) == 0);
    assert(precreate_tags(Seq::<Call>::empty()) == Seq::<Seq<char>>::empty());
    assert(shape_count(seq![c], k) == shape_count(seq![c].drop_last(), k) + if shape(c) == k {
        1nat
    } else {
        0nat
    });
    match c {
        Call::Precreate(t) => {
            assert(Seq::<Seq<char>>::empty().push(t) =~= seq![t]);
        },
        _ => {},
    }
}

proof fn lemma_run_loop_shapes(eps: Seq<Entrypoint>, state: AppState, m: nat, k: CallShape)
    requires
        m <= eps.len(),
    ensures
        shape_count(run_loop_calls(eps, state, m), k) == if k == CallShape::Precreate || k == CallShape::Create || k == CallShape::Publish {
            m
        } else {
            0
        },
        precreate_tags(run_loop_calls(eps, state, m)) == entrypoint_tags(eps, m),
    decreases m,
{
    if m == 0 {
        assert(entrypoint_tags(eps, 0) =~= Seq::<Seq<char>>::empty());
    } else {
        let prev = run_loop_calls(eps, state, (m - 1) as nat);
        let t = spec_object_tag(eps[m - 1].name@);
        let step = seq![Call::Precreate(t), Call::Create, Call::Publish(state)];
        lemma_run_loop_shapes(eps, state, (m - 1) as nat, k);
        lemma_shape_count_add(prev, step, k);
        lemma_precreate_tags_add(prev, step);
        assert(step =~= seq![Call::Precreate(t)] + seq![Call::Create] + seq![Call::Publish(state)]);
        lemma_single_shape(Call::Precreate(t), k);
        lemma_single_shape(Call::Create, k);
        lemma_single_shape(Call::Publish(state), k);
        lemma_shape_count_add(seq![Call::Precreate(t)], seq![Call::Create], k);
        lemma_shape_count_add(seq![Call::Precreate(t)] + seq![Call::Create], seq![Call::Publish(state)], k);
        lemma_precreate_tags_add(seq![Call::Precreate(t)], seq![Call::Create]);
        lemma_precreate_tags_add(seq![Call::Precreate(t)] + seq![Call::Create], seq![Call::Publish(state)]);
        assert(entrypoint_tags(eps, m) =~= entrypoint_tags(eps, (m - 1) as nat).push(t));
    }
}

proof fn lemma_deploy_loop_shapes(app_name: Seq<char>, eps: Seq<Entrypoint>, m: nat, k: CallShape)
    requires
        m <= eps.len(),
        k != CallShape::Secret && k != CallShape::InlineSecret && k != CallShape::Volume,
    ensures
        shape_count(deploy_loop_calls(app_name, eps, m), k) == if k == CallShape::Precreate || k == CallShape::Create {
            m
        } else {
            0
        },
        precreate_tags(deploy_loop_calls(app_name, eps, m)) == entrypoint_tags(eps, m),
    decreases m,
{
    if m == 0 {
        assert(entrypoint_tags(eps, 0) =~= Seq::<Seq<char>>::empty());
    } else {
        let prev = deploy_loop_calls(app_name, eps, (m - 1) as nat);
        let t = spec_object_tag(eps[m - 1].name@);
        let o = eps[m - 1].options;
        let a = prev + seq![Call::Precreate(t)];
        let b = a + secret_calls(app_name, t, o);
        let c = b + volume_calls(o);
        lemma_deploy_loop_shapes(app_name, eps, (m - 1) as nat, k);
        lemma_entry_calls_shapes(app_name, t, o, k);
        lemma_single_shape(Call::Precreate(t), k);
        lemma_single_shape(Call::Create, k);
        lemma_shape_count_add(prev, seq![Call::Precreate(t)], k);
        lemma_shape_count_add(a, secret_calls(app_name, t, o), k);
        lemma_shape_count_add(b, volume_calls(o), k);
        lemma_shape_count_add(c, seq![Call::Create], k);
        lemma_precreate_tags_add(prev, seq![Call::Precreate(t)]);
        lemma_precreate_tags_add(a, secret_calls(app_name, t, o));
        lemma_precreate_tags_add(b, volume_calls(o));
        lemma_precreate_tags_add(c, seq![Call::Create]);
        assert(entrypoint_tags(eps, m) =~= entrypoint_tags(eps, (m - 1) as nat).push(t));
        assert(precreate_tags(b) =~= precreate_tags(a));
        assert(precreate_tags(c) =~= precreate_tags(b));
    }
}

/// The kinds the provisioning law counts: the app, the three mounts, the
/// precreates, creates and publishes.
pub open spec fn counted_shape(k: CallShape) -> bool {
    ||| k == CallShape::App
    ||| k == CallShape::ClientMount
    ||| k == CallShape::SourceMount
    ||| k == CallShape::PythonMount
    ||| k == CallShape::Precreate
    ||| k == CallShape::Create
    ||| k == CallShape::Publish
}

/// How often a successful provisioning makes a call of a counted kind: the
/// app and each mount once, a precreate and a create per entrypoint, and a
/// publish per entrypoint on a run, one in all on a deploy.
pub open spec fn expected_shape_count(i: ProvisionInputs, b: Boundary, k: CallShape) -> nat {
    let n = i.entrypoints@.len();
    if k == CallShape::Precreate || k == CallShape::Create {
        n
    } else if k == CallShape::Publish {
        match b.source_delivery {
            SourceDelivery::RunMount => n,
            SourceDelivery::DeployContext => 1,
        }
    } else {
        1
    }
}

proof fn lemma_mount_shapes(k: CallShape)
    requires
        counted_shape(k),
    ensures
        shape_count(mount_calls(), k) == if k == CallShape::ClientMount || k == CallShape::SourceMount || k
            == CallShape::PythonMount {
            1nat
        } else {
            0nat
        },
        precreate_tags(mount_calls()) == Seq::<Seq<char>>::empty(),
{
    let a = seq![Call::ClientMount];
    let b = seq![Call::SourceMount];
    let c = seq![Call::PythonMount];
    assert(mount_calls() =~= a + b + c);
    lemma_single_shape(Call::ClientMount, k);
    lemma_single_shape(Call::SourceMount, k);
    lemma_single_shape(Call::PythonMount, k);
    lemma_shape_count_add(a, b, k);
    lemma_shape_count_add(a + b, c, k);
    lemma_precreate_tags_add(a, b);
    lemma_precreate_tags_add(a + b, c);
}

/// The calls of a successful provisioning, counted by kind, and the tags its
/// precreates carry.
proof fn lemma_expected_shapes(i: ProvisionInputs, b: Boundary, stub: bool, k: CallShape)
    requires
        counted_shape(k),
        b.source_delivery == SourceDelivery::RunMount ==> i.entrypoints@.len() == 1,
    ensures
        shape_count(expected_calls(i, b, stub), k) == expected_shape_count(i, b, k),
        precreate_tags(expected_calls(i, b, stub)) == entrypoint_tags(i.entrypoints@, i.entrypoints@.len()),
{
    let n = i.entrypoints@.len();
    let app = Call::App(i.app_name@, b.app_state);
    lemma_mount_shapes(k);
    lemma_single_shape(app, k);
    lemma_single_shape(Call::Image, k);
    match b.source_delivery {
        SourceDelivery::RunMount => {
            let o = i.entrypoints@[0].options;
            let cache: Seq<Call> = if i.cache {
                seq![Call::Volume(CACHE_VOLUME_NAME@, true)]
            } else {
                Seq::empty()
            };
            let sc = secret_calls(i.app_name@, spec_object_tag(i.entrypoints@[0].name@), o);
            let p1 = seq![app] + cache;
            let p2 = p1 + sc;
            let p3 = p2 + volume_calls(o);
            let p4 = p3 + mount_calls();
            let p5 = p4 + seq![Call::Image];
            let lp = run_loop_calls(i.entrypoints@, b.app_state, n);
            assert(expected_calls(i, b, stub) == p5 + lp);
            lemma_shape_none(cache, k);
            lemma_entry_calls_shapes(i.app_name@, spec_object_tag(i.entrypoints@[0].name@), o, k);
            lemma_run_loop_shapes(i.entrypoints@, b.app_state, n, k);
            lemma_shape_count_add(seq![app], cache, k);
            lemma_shape_count_add(p1, sc, k);
            lemma_shape_count_add(p2, volume_calls(o), k);
            lemma_shape_count_add(p3, mount_calls(), k);
            lemma_shape_count_add(p4, seq![Call::Image], k);
            lemma_shape_count_add(p5, lp, k);
            lemma_precreate_tags_add(seq![app], cache);
            lemma_precreate_tags_add(p1, sc);
            lemma_precreate_tags_add(p2, volume_calls(o));
            lemma_precreate_tags_add(p3, mount_calls());
            lemma_precreate_tags_add(p4, seq![Call::Image]);
            lemma_precreate_tags_add(p5, lp);
            assert(precreate_tags(p5) =~= Seq::<Seq<char>>::empty());
            assert(precreate_tags(p5 + lp) =~= precreate_tags(lp));
        },
        SourceDelivery::DeployContext => {
            let pre: Seq<Call> = if i.dep_prebuild {
                seq![Call::PrebuildMount] + if stub {
                    seq![Call::Image]
                } else {
                    Seq::empty()
                }
            } else {
                Seq::empty()
            };
            let q1 = mount_calls() + seq![app, Call::Image];
            let q2 = q1 + pre;
            let q3 = q2 + seq![Call::Image];
            let lp = deploy_loop_calls(i.app_name@, i.entrypoints@, n);
            let q4 = q3 + lp;
            let pb = seq![Call::Publish(b.app_state)];
            assert(expected_calls(i, b, stub) == q4 + pb);
            assert(seq![app, Call::Image] =~= seq![app] + seq![Call::Image]);
            lemma_shape_count_add(seq![app], seq![Call::Image], k);
            lemma_precreate_tags_add(seq![app], seq![Call::Image]);
            assert forall|j: int| 0 <= j < pre.len() implies shape(#[trigger] pre[j]) != k && shape(pre[j]) != CallShape::Precreate by {
                if i.dep_prebuild && j > 0 {
                    assert(pre[j] == Call::Image);
                }
            }
            lemma_shape_none(pre, k);
            lemma_deploy_loop_shapes(i.app_name@, i.entrypoints@, n, k);
            lemma_single_shape(Call::Publish(b.app_state), k);
            lemma_shape_count_add(mount_calls(), seq![app, Call::Image], k);
            lemma_shape_count_add(q1, pre, k);
            lemma_shape_count_add(q2, seq![Call::Image], k);
            lemma_shape_count_add(q3, lp, k);
            lemma_shape_count_add(q4, pb, k);
            lemma_precreate_tags_add(mount_calls(), seq![app, Call::Image]);
            lemma_precreate_tags_add(q1, pre);
            lemma_precreate_tags_add(q2, seq![Call::Image]);
            lemma_precreate_tags_add(q3, lp);
            lemma_precreate_tags_add(q4, pb);
            assert(precreate_tags(q3) =~= Seq::<Seq<char>>::empty());
            assert(precreate_tags(q3 + lp) =~= precreate_tags(lp));
            assert(precreate_tags(q4) + Seq::<Seq<char>>::empty() =~= precreate_tags(q4));
        },
    }
}

/// Whether a call kind takes part in making functions: a precreate, a create
/// or a publish.
pub open spec fn function_step(k: CallShape) -> bool {
    k == CallShape::Precreate || k == CallShape::Create || k == CallShape::Publish
}

/// The kinds of the precreates, creates and publishes of `s`, in order.
pub open spec fn function_steps(s: Seq<Call>) -> Seq<CallShape>
    decreases s.len(),
{
    if s.len() == 0 {
        Seq::empty()
    } else if function_step(shape(s.last())) {
        function_steps(s.drop_last()).push(shape(s.last()))
    } else {
        function_steps(s.drop_last())
    }
}

/// A run's function steps over `n` entrypoints: a precreate, a create and a
/// publish for each, in turn.
pub open spec fn run_steps(n: nat) -> Seq<CallShape>
    decreases n,
{
    if n == 0 {
        Seq::empty()
    } else {
        run_steps((n - 1) as nat) + seq![CallShape::Precreate, CallShape::Create, CallShape::Publish]
    }
}

/// A deploy's precreates and creates over `n` entrypoints: a precreate and a
/// create for each, in turn.
pub open spec fn deploy_steps(n: nat) -> Seq<CallShape>
    decreases n,
{
    if n == 0 {
        Seq::empty()
    } else {
        deploy_steps((n - 1) as nat) + seq![CallShape::Precreate, CallShape::Create]
    }
}

proof fn lemma_steps_add(a: Seq<Call>, b: Seq<Call>)
    ensures
        function_steps(a + b) == function_steps(a) + function_steps(b),
    decreases b.len(),
{
    if b.len() == 0 {
        assert(a + b =~= a);
        assert(function_steps(a) + function_steps(b) =~= function_steps(a));
    } else {
        lemma_steps_add(a, b.drop_last());
        assert((a + b).drop_last() =~= a + b.drop_last());
        assert((a + b).last() == b.last());
        if function_step(shape(b.last())) {
            assert(function_steps(a) + function_steps(b.drop_last()).push(shape(b.last())) =~= (function_steps(a)
                + function_steps(b.drop_last())).push(shape(b.last())));
        }
    }
}

proof fn lemma_steps_none(s: Seq<Call>)
    requires
        forall|j: int| 0 <= j < s.len() ==> !function_step(shape(#[trigger] s[j])),
    ensures
        function_steps(s) == Seq::<CallShape>::empty(),
    decreases s.len(),
{
    if s.len() > 0 {
        lemma_steps_none(s.drop_last());
        assert(!function_step(shape(s[s.len() - 1])));
    }
}

proof fn lemma_steps_single(c: Call)
    ensures
        function_steps(seq![c]) == if function_step(shape(c)) {
            seq![shape(c)]
        } else {
            Seq::<CallShape>::empty()
        },
{
    assert(seq![c].drop_last() =~= Seq::<Call>::empty());
    assert(seq![c].last() == c);
    assert(function_steps(Seq::<Call>::empty()) == Seq::<CallShape>::empty());
    assert(Seq::<CallShape>::empty().push(shape(c)) =~= seq![shape(c)]);
}

proof fn lemma_entry_steps(app_name: Seq<char>, tag: Seq<char>, o: FunctionOptions)
    ensures
        function_steps(secret_calls(app_name, tag, o)) == Seq::<CallShape>::empty(),
        function_steps(volume_calls(o)) == Seq::<CallShape>::empty(),
{
    lemma_steps_none(secret_calls(app_name, tag, o));
    lemma_steps_none(volume_calls(o));
}

proof fn lemma_run_loop_steps(eps: Seq<Entrypoint>, state: AppState, m: nat)
    requires
        m <= eps.len(),
    ensures
        function_steps(run_loop_calls(eps, state, m)) == run_steps(m),
    decreases m,
{
    if m > 0 {
        let prev = run_loop_calls(eps, state, (m - 1) as nat);
        let t = spec_object_tag(eps[m - 1].name@);
        let a = seq![Call::Precreate(t)];
        let b = seq![Call::Create];
        let c = seq![Call::Publish(state)];
        lemma_run_loop_steps(eps, state, (m - 1) as nat);
        assert(seq![Call::Precreate(t), Call::Create, Call::Publish(state)] =~= a + b + c);
        lemma_steps_single(Call::Precreate(t));
        lemma_steps_single(Call::Create);
        lemma_steps_single(Call::Publish(state));
        lemma_steps_add(a, b);
        lemma_steps_add(a + b, c);
        lemma_steps_add(prev, a + b + c);
        assert(function_steps(a + b + c) =~= seq![CallShape::Precreate, CallShape::Create, CallShape::Publish]);
    }
}

proof fn lemma_deploy_loop_steps(app_name: Seq<char>, eps: Seq<Entrypoint>, m: nat)
    requires
        m <= eps.len(),
    ensures
        function_steps(deploy_loop_calls(app_name, eps, m)) == deploy_steps(m),
    decreases m,
{
    if m > 0 {
        let prev = deploy_loop_calls(app_name, eps, (m - 1) as nat);
        let t = spec_object_tag(eps[m - 1].name@);
        let o = eps[m - 1].options;
        let a = prev + seq![Call::Precreate(t)];
        let b = a + secret_calls(app_name, t, o);
        let c = b + volume_calls(o);
        lemma_deploy_loop_steps(app_name, eps, (m - 1) as nat);
        lemma_entry_steps(app_name, t, o);
        lemma_steps_single(Call::Precreate(t));
        lemma_steps_single(Call::Create);
        lemma_steps_add(prev, seq![Call::Precreate(t)]);
        lemma_steps_add(a, secret_calls(app_name, t, o));
        lemma_steps_add(b, volume_calls(o));
        lemma_steps_add(c, seq![Call::Create]);
        assert(function_steps(b) =~= function_steps(a));
        assert(function_steps(c) =~= function_steps(b));
        assert(deploy_steps(m) =~= deploy_steps((m - 1) as nat) + seq![CallShape::Precreate] + seq![CallShape::Create]);
    }
}

/// The precreates, creates and publishes of a successful provisioning, in
/// order: on a run a precreate, a create and a publish per entrypoint; on a
/// deploy a precreate and a create per entrypoint, then one publish.
proof fn lemma_expected_steps(i: ProvisionInputs, b: Boundary, stub: bool)
    ensures
        function_steps(expected_calls(i, b, stub)) == match b.source_delivery {
            SourceDelivery::RunMount => run_steps(i.entrypoints@.len()),
            SourceDelivery::DeployContext => deploy_steps(i.entrypoints@.len()).push(CallShape::Publish),
        },
{
    let n = i.entrypoints@.len();
    let app = Call::App(i.app_name@, b.app_state);
    lemma_steps_none(mount_calls());
    lemma_steps_single(app);
    lemma_steps_single(Call::Image);
    match b.source_delivery {
        SourceDelivery::RunMount => {
            let o = i.entrypoints@[0].options;
            let cache: Seq<Call> = if i.cache {
                seq![Call::Volume(CACHE_VOLUME_NAME@, true)]
            } else {
                Seq::empty()
            };
            let sc = secret_calls(i.app_name@, spec_object_tag(i.entrypoints@[0].name@), o);
            let p1 = seq![app] + cache;
            let p2 = p1 + sc;
            let p3 = p2 + volume_calls(o);
            let p4 = p3 + mount_calls();
            let p5 = p4 + seq![Call::Image];
            let lp = run_loop_calls(i.entrypoints@, b.app_state, n);
            assert(expected_calls(i, b, stub) == p5 + lp);
            lemma_steps_none(cache);
            lemma_entry_steps(i.app_name@, spec_object_tag(i.entrypoints@[0].name@), o);
            lemma_run_loop_steps(i.entrypoints@, b.app_state, n);
            lemma_steps_add(seq![app], cache);
            lemma_steps_add(p1, sc);
            lemma_steps_add(p2, volume_calls(o));
            lemma_steps_add(p3, mount_calls());
            lemma_steps_add(p4, seq![Call::Image]);
            lemma_steps_add(p5, lp);
            assert(function_steps(p5) =~= Seq::<CallShape>::empty());
            assert(function_steps(p5 + lp) =~= function_steps(lp));
        },
        SourceDelivery::DeployContext => {
            let pre: Seq<Call> = if i.dep_prebuild {
                seq![Call::PrebuildMount] + if stub {
                    seq![Call::Image]
                } else {
                    Seq::empty()
                }
            } else {
                Seq::empty()
            };
            let q1 = mount_calls() + seq![app, Call::Image];
            let q2 = q1 + pre;
            let q3 = q2 + seq![Call::Image];
            let lp = deploy_loop_calls(i.app_name@, i.entrypoints@, n);
            let q4 = q3 + lp;
            let pb = seq![Call::Publish(b.app_state)];
            assert(expected_calls(i, b, stub) == q4 + pb);
            assert(seq![app, Call::Image] =~= seq![app] + seq![Call::Image]);
            lemma_steps_add(seq![app], seq![Call::Image]);
            assert forall|j: int| 0 <= j < pre.len() implies !function_step(shape(#[trigger] pre[j])) by {
                if i.dep_prebuild && j > 0 {
                    assert(pre[j] == Call::Image);
                }
            }
            lemma_steps_none(pre);
            lemma_deploy_loop_steps(i.app_name@, i.entrypoints@, n);
            lemma_steps_single(Call::Publish(b.app_state));
            lemma_steps_add(mount_calls(), seq![app, Call::Image]);
            lemma_steps_add(q1, pre);
            lemma_steps_add(q2, seq![Call::Image]);
            lemma_steps_add(q3, lp);
            lemma_steps_add(q4, pb);
            assert(function_steps(q3) =~= Seq::<CallShape>::empty());
            assert(function_steps(q3 + lp) =~= function_steps(lp));
            assert(function_steps(q4) + seq![CallShape::Publish] =~= function_steps(q4).push(CallShape::Publish));
        },
    }
}

/// A successful provisioning (the calls [`provision`] promises on success)
/// asks for the client, source and Python mounts once each and for the app
/// once: first of all on a run, right after the three mounts on a deploy. It
/// precreates and creates once per entrypoint, the precreates under the
/// entrypoints' tags in order, each create right after its precreate (among
/// the precreates, creates and publishes), and publishes once after each
/// create on a run, once after the last create on a deploy.
pub proof fn lemma_provision_call_counts(i: ProvisionInputs, b: Boundary, stub: bool)
    requires
        b.source_delivery == SourceDelivery::RunMount ==> i.entrypoints@.len() == 1,
    ensures
        forall|k: CallShape| counted_shape(k) ==> #[trigger] shape_count(expected_calls(i, b, stub), k) == expected_shape_count(i, b, k),
        precreate_tags(expected_calls(i, b, stub)) == entrypoint_tags(i.entrypoints@, i.entrypoints@.len()),
        b.source_delivery == SourceDelivery::RunMount ==> expected_calls(i, b, stub)[0] == Call::App(i.app_name@, b.app_state),
        b.source_delivery == SourceDelivery::DeployContext ==> expected_calls(i, b, stub).subrange(0, 4) == mount_calls().push(Call::App(i.app_name@, b.app_state)),
        b.source_delivery == SourceDelivery::RunMount ==> function_steps(expected_calls(i, b, stub)) == run_steps(i.entrypoints@.len()),
        b.source_delivery == SourceDelivery::DeployContext ==> function_steps(expected_calls(i, b, stub)) == deploy_steps(i.entrypoints@.len()).push(CallShape::Publish),
{
    lemma_expected_steps(i, b, stub);
    assert forall|k: CallShape| counted_shape(k) implies #[trigger] shape_count(expected_calls(i, b, stub), k) == expected_shape_count(i, b, k) by {
        lemma_expected_shapes(i, b, stub, k);
    }
    lemma_expected_shapes(i, b, stub, CallShape::App);
    let e = expected_calls(i, b, stub);
    match b.source_delivery {
        SourceDelivery::RunMount => {},
        SourceDelivery::DeployContext => {
            assert(e.subrange(0, 4) =~= mount_calls().push(Call::App(i.app_name@, b.app_state)));
        },
    }
}

/// What provisioning returns.
#[derive(Debug, Clone, Default)]
pub struct Provisioned {
    /// The built (top) image id.
    pub image_id: String,
    /// The publish URL (empty for ephemeral apps).
    pub publish_url: String,
    /// The dependency-prebuild layer rode (deploy).
    pub dep_layer: bool,
}

/// Resolves an entrypoint's named secrets (each asserting the required keys)
/// and then its inline secret when it declares key/values; returns the ids in
/// that order.
pub fn resolve_entrypoint_secrets<C: ControlPlane>(
    cp: &mut C,
    app_name: &str,
    object_tag: &str,
    options: &FunctionOptions,
) -> (r: Result<Vec<String>, Error>)
    ensures
        r is Ok ==> final(cp).calls() == old(cp).calls() + secret_calls(app_name@, object_tag@, *options),
        r is Ok ==> final(cp).handed() == old(cp).handed() + secret_handed(*options),
        r is Ok ==> final(cp).handed().len() == old(cp).handed().len() + secret_count(*options),
        r is Ok ==> forall|j: int| old(cp).handed().len() <= j < old(cp).handed().len() + options.secrets@.len()
            ==> #[trigger] final(cp).handed()[j] == Handed::Secret(views(options.required_keys@)),
        r matches Ok(ids) ==> ids@.len() == secret_count(*options),
        r matches Ok(ids) ==> final(cp).ledger() == (Ledger { secrets: old(cp).ledger().secrets + views(ids@), ..old(cp).ledger() }),
        final(cp).infallible() == old(cp).infallible(),
        final(cp).created() == old(cp).created(),
        final(cp).built() == old(cp).built(),
        old(cp).infallible() ==> r is Ok,
{
    let ghost c0 = cp.calls();
    let ghost h0 = cp.handed();
    let ghost inf = cp.infallible();
    let ghost cr = cp.created();
    let ghost l0 = cp.ledger();
    let mut ids: Vec<String> = Vec::new();
    let mut i: usize = 0;
    while i < options.secrets.len()
        invariant
            i <= options.secrets@.len(),
            cp.calls() == c0 + named_secret_calls(*options, i as nat),
            cp.ledger() == (Ledger { secrets: l0.secrets + views(ids@), ..l0 }),
            l0 == old(cp).ledger(),
            cp.handed() == h0 + named_secret_handed(*options, i as nat),
            h0 == old(cp).handed(),
            cp.infallible() == inf,
            inf == old(cp).infallible(),
            cp.created() == cr,
            cr == old(cp).created(),
            cp.built() == old(cp).built(),
            ids@.len() == i,
        decreases options.secrets@.len() - i,
    {
        let id = match cp.ensure_secret(options.secrets[i].as_str(), &options.required_keys) {
            Ok(id) => id,
            Err(e) => {
                return Err(e);
            },
        };
        let ghost before = views(ids@);
        ids.push(id);
        proof {
            assert(named_secret_calls(*options, (i + 1) as nat) =~= named_secret_calls(*options, i as nat).push(
                Call::Secret(options.secrets@[i as int]@),
            ));
            assert(views(ids@) =~= before.push(id@));
            assert(named_secret_handed(*options, (i + 1) as nat) =~= named_secret_handed(*options, i as nat).push(
                Handed::Secret(views(options.required_keys@)),
            ));
        }
        i = i + 1;
    }
    if options.env.len() > 0 {
        let name = inline_secret_name(app_name, object_tag);
        let id = match cp.ensure_inline_secret(name.as_str(), &options.env) {
            Ok(id) => id,
            Err(e) => {
                return Err(e);
            },
        };
        let ghost before = views(ids@);
        ids.push(id);
        proof {
            assert(views(ids@) =~= before.push(id@));
        }
    }
    proof {
        assert(cp.calls() =~= c0 + secret_calls(app_name@, object_tag@, *options));
        assert(cp.handed() =~= h0 + secret_handed(*options));
        lemma_secrets_handed_required_keys(*options);
        assert forall|j: int| h0.len() <= j < h0.len() + options.secrets@.len() implies #[trigger] cp.handed()[j]
            == Handed::Secret(views(options.required_keys@)) by {
            assert(cp.handed()[j] == secret_handed(*options)[j - h0.len()]);
        }
    }
    Ok(ids)
}

/// Some user volume of the options mounts at the cargo-cache path.
pub open spec fn mounts_at_cache(o: FunctionOptions) -> bool {
    exists|j: int| 0 <= j < o.volumes@.len() && (#[trigger] o.volumes@[j]).0@ == CACHE_MOUNT@
}

/// The volume ids of `(volume id, mount path)` pairs.
pub open spec fn vol_ids(v: Seq<(String, String)>) -> Seq<Seq<char>> {
    v.map_values(|p: (String, String)| p.0@)
}

/// Resolves an entrypoint's user volumes in order, as `(volume_id, mount_path)`;
/// when `reject_cache` is set (the run path), a volume at the cargo-cache path
/// is refused before it is resolved.
pub fn resolve_user_volumes<C: ControlPlane>(
    cp: &mut C,
    options: &FunctionOptions,
    reject_cache: bool,
) -> (r: Result<Vec<(String, String)>, Error>)
    ensures
        r is Ok ==> final(cp).calls() == old(cp).calls() + volume_calls(*options),
        final(cp).handed() == old(cp).handed(),
        r is Ok && reject_cache ==> forall|j: int| 0 <= j < options.volumes@.len() ==> (#[trigger] options.volumes@[j]).0@ != CACHE_MOUNT@,
        r matches Ok(v) ==> v@.len() == options.volumes@.len() && forall|j: int| 0 <= j < v@.len() ==> (#[trigger] v@[j]).1@ == options.volumes@[j].0@,
        r matches Ok(v) ==> final(cp).ledger() == (Ledger { volumes: old(cp).ledger().volumes + vol_ids(v@), ..old(cp).ledger() }),
        final(cp).infallible() == old(cp).infallible(),
        final(cp).created() == old(cp).created(),
        final(cp).built() == old(cp).built(),
        old(cp).infallible() ==> (r is Ok <==> !(reject_cache && mounts_at_cache(*options))),
        old(cp).infallible() ==> (r matches Err(e) ==> e matches Error::Config(m) && m@ == cache_collision_message()),
{
    let ghost c0 = cp.calls();
    let ghost inf = cp.infallible();
    let ghost cr = cp.created();
    let ghost l0 = cp.ledger();
    let mut mounts: Vec<(String, String)> = Vec::new();
    let mut i: usize = 0;
    while i < options.volumes.len()
        invariant
            i <= options.volumes@.len(),
            cp.ledger() == (Ledger { volumes: l0.volumes + vol_ids(mounts@), ..l0 }),
            l0 == old(cp).ledger(),
            cp.handed() == old(cp).handed(),
            cp.calls() == c0 + named_volume_calls(*options, i as nat),
            cp.infallible() == inf,
            inf == old(cp).infallible(),
            cp.created() == cr,
            cr == old(cp).created(),
            cp.built() == old(cp).built(),
            mounts@.len() == i,
            forall|j: int| 0 <= j < i ==> (#[trigger] mounts@[j]).1@ == options.volumes@[j].0@,
            reject_cache ==> forall|j: int| 0 <= j < i ==> (#[trigger] options.volumes@[j]).0@ != CACHE_MOUNT@,
        decreases options.volumes@.len() - i,
    {
        let (mount_path, name) = (&options.volumes[i].0, &options.volumes[i].1);
        if reject_cache {
            match reject_cache_collision(true, mount_path.as_str()) {
                Ok(()) => {},
                Err(e) => {
                    return Err(e);
                },
            }
        }
        let vid = match cp.ensure_volume(name.as_str(), false) {
            Ok(v) => v,
            Err(e) => {
                return Err(e);
            },
        };
        let ghost before = vol_ids(mounts@);
        let ghost vv = vid@;
        mounts.push((vid, mount_path.clone()));
        proof {
            assert(vol_ids(mounts@) =~= before.push(vv));
            assert(named_volume_calls(*options, (i + 1) as nat) =~= named_volume_calls(*options, i as nat).push(
                Call::Volume(options.volumes@[i as int].1@, false),
            ));
        }
        i = i + 1;
    }
    Ok(mounts)
}

/// The object tags of the first `k` entrypoints.
pub open spec fn tags_upto(eps: Seq<Entrypoint>, k: nat) -> Set<Seq<char>>
    decreases k,
{
    if k == 0 {
        Set::empty()
    } else {
        tags_upto(eps, (k - 1) as nat).insert(spec_object_tag(eps[k - 1].name@))
    }
}

/// The first `n` entrypoints' tags include the tag of each of them.
pub(crate) proof fn lemma_tags_upto_contains(eps: Seq<Entrypoint>, n: nat, k: int)
    requires
        0 <= k < n <= eps.len(),
    ensures
        tags_upto(eps, n).contains(spec_object_tag(eps[k].name@)),
    decreases n,
{
    if k < n - 1 {
        lemma_tags_upto_contains(eps, (n - 1) as nat, k);
    }
}

/// A function's resources as plain values ([`res_view`]).
pub type ResView = (Seq<char>, Seq<char>, Option<Seq<char>>, Seq<Seq<char>>, Seq<(Seq<char>, Seq<char>)>);

/// The secrets the first `k` entrypoints resolve, together.
pub open spec fn secret_prefix(eps: Seq<Entrypoint>, k: int) -> nat
    decreases k,
{
    if k <= 0 {
        0
    } else {
        secret_prefix(eps, k - 1) + secret_count(eps[k - 1].options)
    }
}

/// The user volumes the first `k` entrypoints resolve, together.
pub open spec fn volume_prefix(eps: Seq<Entrypoint>, k: int) -> nat
    decreases k,
{
    if k <= 0 {
        0
    } else {
        volume_prefix(eps, k - 1) + eps[k - 1].options.volumes@.len()
    }
}

/// The resources of the `k`-th entrypoint's function, as the plane answered
/// them between the ledgers `l0` and `l1`: the client and source mounts (the
/// first two mounts answered), on a run the cache volume (the first volume
/// answered, when the cache is on) and the run entrypoint's secrets and user
/// volumes in the order answered after it; on a deploy, the `k`-th
/// entrypoint's secrets and user volumes, each taken after those of the
/// entrypoints before it.
pub open spec fn resources_at(b: Boundary, i: ProvisionInputs, l0: Ledger, l1: Ledger, k: int) -> ResView {
    let m = l0.mounts.len() as int;
    match b.source_delivery {
        SourceDelivery::RunMount => {
            let o = i.entrypoints@[0].options;
            let v = l0.volumes.len() as int;
            let s = l0.secrets.len() as int;
            let c: int = if i.cache {
                1
            } else {
                0
            };
            (
                l1.mounts[m],
                l1.mounts[m + 1],
                if i.cache {
                    Some(l1.volumes[v])
                } else {
                    None
                },
                l1.secrets.subrange(s, s + secret_count(o)),
                Seq::new(o.volumes@.len(), |j: int| (l1.volumes[v + c + j], o.volumes@[j].0@)),
            )
        },
        SourceDelivery::DeployContext => {
            let o = i.entrypoints@[k].options;
            let v = (l0.volumes.len() + volume_prefix(i.entrypoints@, k)) as int;
            let s = (l0.secrets.len() + secret_prefix(i.entrypoints@, k)) as int;
            (
                l1.mounts[m],
                l1.mounts[m + 1],
                None,
                l1.secrets.subrange(s, s + secret_count(o)),
                Seq::new(o.volumes@.len(), |j: int| (l1.volumes[v + j], o.volumes@[j].0@)),
            )
        },
    }
}

/// The functions created between `before` and `after` are the entrypoints',
/// in order, each planned over the last image the plane answered and the
/// resources it answered for that entrypoint ([`resources_at`]).
pub open spec fn created_on(b: Boundary, i: ProvisionInputs, before: Seq<FunctionPlan>, after: Seq<FunctionPlan>, l0: Ledger, l1: Ledger) -> bool {
    &&& after.len() == before.len() + i.entrypoints@.len()
    &&& forall|j: int| 0 <= j < i.entrypoints@.len() ==> #[trigger] function_planned_v(
        b,
        i.entrypoints@[j],
        l1.images.last(),
        resources_at(b, i, l0, l1, j),
        after[before.len() + j],
    )
}

/// A publish record as plain values: function ids by tag, definition ids by
/// function id, endpoint URLs by tag.
pub open spec fn published_view(p: Published) -> (Map<Seq<char>, Seq<char>>, Map<Seq<char>, Seq<char>>, Map<Seq<char>, Seq<char>>) {
    (log_map(p.function_ids@), log_map(p.definition_ids@), log_map(p.endpoint_urls@))
}

/// A publish record after recording the function `f` (function id,
/// definition id, web URL) under `tag`, as [`Published::record`] does.
pub open spec fn record_maps(
    p: (Map<Seq<char>, Seq<char>>, Map<Seq<char>, Seq<char>>, Map<Seq<char>, Seq<char>>),
    tag: Seq<char>,
    f: (Seq<char>, Seq<char>, Seq<char>),
) -> (Map<Seq<char>, Seq<char>>, Map<Seq<char>, Seq<char>>, Map<Seq<char>, Seq<char>>) {
    (
        p.0.insert(tag, f.0),
        if f.1.len() > 0 {
            p.1.insert(f.0, f.1)
        } else {
            p.1
        },
        if f.2.len() > 0 {
            p.2.insert(tag, f.2)
        } else {
            p.2
        },
    )
}

/// The publish record after the first `k` entrypoints' functions, answered
/// from position `f0` of `fns` on, are recorded under their tags.
pub open spec fn published_after(
    p0: (Map<Seq<char>, Seq<char>>, Map<Seq<char>, Seq<char>>, Map<Seq<char>, Seq<char>>),
    eps: Seq<Entrypoint>,
    fns: Seq<(Seq<char>, Seq<char>, Seq<char>)>,
    f0: int,
    k: nat,
) -> (Map<Seq<char>, Seq<char>>, Map<Seq<char>, Seq<char>>, Map<Seq<char>, Seq<char>>)
    decreases k,
{
    if k == 0 {
        p0
    } else {
        record_maps(published_after(p0, eps, fns, f0, (k - 1) as nat), spec_object_tag(eps[k - 1].name@), fns[f0 + k - 1])
    }
}

/// Recording created functions in entrypoint order: under each entrypoint's
/// tag stands the function id its own create answered, unless a later
/// entrypoint shares the tag (then the later one's); the recorded tags are
/// exactly the old keys and the entrypoints' tags, and every other key keeps
/// its old function id.
pub proof fn lemma_published_values(
    p0: (Map<Seq<char>, Seq<char>>, Map<Seq<char>, Seq<char>>, Map<Seq<char>, Seq<char>>),
    eps: Seq<Entrypoint>,
    fns: Seq<(Seq<char>, Seq<char>, Seq<char>)>,
    f0: int,
    n: nat,
)
    requires
        n <= eps.len(),
    ensures
        published_after(p0, eps, fns, f0, n).0.dom() == p0.0.dom().union(tags_upto(eps, n)),
        forall|t: Seq<char>| #[trigger] p0.0.contains_key(t) && !tags_upto(eps, n).contains(t)
            ==> published_after(p0, eps, fns, f0, n).0[t] == p0.0[t],
        forall|k: int| 0 <= k < n && (forall|j: int| k < j < n ==> spec_object_tag(#[trigger] eps[j].name@) != spec_object_tag(eps[k].name@))
            ==> published_after(p0, eps, fns, f0, n).0[spec_object_tag(#[trigger] eps[k].name@)] == fns[f0 + k].0,
    decreases n,
{
    if n > 0 {
        let m = (n - 1) as nat;
        lemma_published_values(p0, eps, fns, f0, m);
        let prev = published_after(p0, eps, fns, f0, m);
        let t = spec_object_tag(eps[m as int].name@);
        assert(published_after(p0, eps, fns, f0, n).0 == prev.0.insert(t, fns[f0 + m].0));
        assert(published_after(p0, eps, fns, f0, n).0.dom() =~= p0.0.dom().union(tags_upto(eps, n)));
        assert forall|k: int| 0 <= k < n && (forall|j: int| k < j < n ==> spec_object_tag(#[trigger] eps[j].name@) != spec_object_tag(eps[k].name@))
            implies published_after(p0, eps, fns, f0, n).0[spec_object_tag(#[trigger] eps[k].name@)] == fns[f0 + k].0 by {
            if k < m {
                assert(spec_object_tag(eps[m as int].name@) != spec_object_tag(eps[k].name@));
                assert(forall|j: int| k < j < m ==> spec_object_tag(#[trigger] eps[j].name@) != spec_object_tag(eps[k].name@));
            }
        }
    }
}

/// What a successful provisioning left in the ledgers, from `l0` to `l1`:
/// the functions created as [`created_on`] says, one create answered per
/// entrypoint, the publish record `p1` the old one `p0` with every created
/// function recorded under its entrypoint's tag, the last publish handed that
/// record's function and definition ids, the image id reported the last image
/// answered and the URL reported the last publish's.
pub open spec fn ledgered(
    b: Boundary,
    i: ProvisionInputs,
    cr0: Seq<FunctionPlan>,
    cr1: Seq<FunctionPlan>,
    l0: Ledger,
    l1: Ledger,
    p0: (Map<Seq<char>, Seq<char>>, Map<Seq<char>, Seq<char>>, Map<Seq<char>, Seq<char>>),
    p1: (Map<Seq<char>, Seq<char>>, Map<Seq<char>, Seq<char>>, Map<Seq<char>, Seq<char>>),
    image_id: Seq<char>,
    url: Seq<char>,
) -> bool {
    let n = i.entrypoints@.len();
    let pa = published_after(p0, i.entrypoints@, l1.functions, l0.functions.len() as int, n);
    &&& created_on(b, i, cr0, cr1, l0, l1)
    &&& l1.functions.len() == l0.functions.len() + n
    &&& l1.functions.subrange(0, l0.functions.len() as int) == l0.functions
    &&& p1 == pa
    &&& l1.publishes == l0.publishes.push((pa.0, pa.1))
    &&& image_id == l1.images.last()
    &&& url == l1.urls.last()
}

/// The publish union grew by exactly the tags of the first `k` entrypoints:
/// they are all recorded, and what was recorded under any other tag is kept.
pub open spec fn union_grown(before: Map<Seq<char>, Seq<char>>, after: Map<Seq<char>, Seq<char>>, eps: Seq<Entrypoint>, k: nat) -> bool {
    &&& after.dom() == before.dom().union(tags_upto(eps, k))
    &&& forall|t: Seq<char>| #[trigger] before.contains_key(t) && !tags_upto(eps, k).contains(t) ==> after[t] == before[t]
}

proof fn lemma_union_step(
    before: Map<Seq<char>, Seq<char>>,
    mid: Map<Seq<char>, Seq<char>>,
    after: Map<Seq<char>, Seq<char>>,
    eps: Seq<Entrypoint>,
    k: nat,
    id: Seq<char>,
)
    requires
        union_grown(before, mid, eps, k),
        k < eps.len(),
        after == mid.insert(spec_object_tag(eps[k as int].name@), id),
    ensures
        union_grown(before, after, eps, k + 1),
{
    let tag = spec_object_tag(eps[k as int].name@);
    assert(tags_upto(eps, k + 1) == tags_upto(eps, k).insert(tag));
    assert(after.dom() =~= before.dom().union(tags_upto(eps, k + 1)));
    assert forall|t: Seq<char>| #[trigger] before.contains_key(t) && !tags_upto(eps, k + 1).contains(t) implies after[t] == before[t] by {
        assert(t != tag);
        assert(!tags_upto(eps, k).contains(t));
    }
}

fn clone_ids(v: &Vec<String>) -> (r: Vec<String>)
    ensures
        views(r@) == views(v@),
{
    clone_strings(v)
}

fn clone_mounts(v: &Vec<(String, String)>) -> (r: Vec<(String, String)>)
    ensures
        pair_views(r@) == pair_views(v@),
{
    let mut r: Vec<(String, String)> = Vec::new();
    clone_pairs(v, &mut r);
    proof {
        assert(pair_views(r@) =~= pair_views(v@));
    }
    r
}

/// The run path: the app, the cache volume, the single entrypoint's secrets
/// and volumes, the mounts, one image, then per entrypoint a precreate, a
/// create and a re-publish of the cumulative union.
#[verifier::rlimit(40)]
fn provision_run<C: ControlPlane>(cp: &mut C, inputs: &ProvisionInputs, boundary: &Boundary, published: &mut Published) -> (r: Result<Provisioned, Error>)
    requires
        boundary.source_delivery == SourceDelivery::RunMount,
        inputs.entrypoints@.len() == 1,
    ensures
        r is Ok ==> final(cp).calls() == old(cp).calls() + expected_calls(*inputs, *boundary, false),
        r is Ok ==> union_grown(log_map(old(published).function_ids@), log_map(final(published).function_ids@), inputs.entrypoints@, inputs.entrypoints@.len()),
        r matches Ok(p) ==> !p.dep_layer,
        final(cp).infallible() == old(cp).infallible(),
        old(cp).infallible() ==> (r is Ok <==> !(inputs.cache && mounts_at_cache(inputs.entrypoints@[0].options))),
        old(cp).infallible() ==> (r matches Err(e) ==> e matches Error::Config(m) && m@ == cache_collision_message()),
        r is Ok ==> created_upto(*boundary, *inputs, old(cp).created(), final(cp).created(), inputs.entrypoints@.len() as int),
        r is Ok ==> images_built(*boundary, *inputs, old(cp).built(), final(cp).built(), false),
        r is Ok ==> final(cp).handed() == old(cp).handed() + expected_handed(*inputs, *boundary),
        r matches Ok(p) ==> ledgered(
            *boundary,
            *inputs,
            old(cp).created(),
            final(cp).created(),
            old(cp).ledger(),
            final(cp).ledger(),
            published_view(*old(published)),
            published_view(*final(published)),
            p.image_id@,
            p.publish_url@,
        ),
{
    let ghost c0 = cp.calls();
    let ghost inf = cp.infallible();
    let ghost cr0 = cp.created();
    let ghost b0 = cp.built();
    let ghost h0 = cp.handed();
    let ghost l0 = cp.ledger();
    let ghost p0 = published_view(*published);
    let ghost m0 = log_map(published.function_ids@);
    let pre: Option<&str> = match &inputs.app_id {
        Some(a) => Some(a.as_str()),
        None => None,
    };
    let app_id = match cp.ensure_app(inputs.app_name.as_str(), pre, boundary.app_state) {
        Ok(a) => a,
        Err(e) => {
            return Err(e);
        },
    };
    let cache_vol_id = if inputs.cache {
        match cp.ensure_volume(crate::remote::CACHE_VOLUME_NAME, true) {
            Ok(v) => Some(v),
            Err(e) => {
                return Err(e);
            },
        }
    } else {
        None
    };
    let ghost c1 = cp.calls();
    let ep0 = &inputs.entrypoints[0];
    let tag0 = crate::remote::sanitize_object_tag(ep0.name.as_str());
    let run_secret_ids = match resolve_entrypoint_secrets(cp, inputs.app_name.as_str(), tag0.as_str(), &ep0.options) {
        Ok(v) => v,
        Err(e) => {
            return Err(e);
        },
    };
    let run_user_volume_mounts = match resolve_user_volumes(cp, &ep0.options, inputs.cache) {
        Ok(v) => v,
        Err(e) => {
            return Err(e);
        },
    };
    let ghost c2 = cp.calls();
    let client_mount_id = match cp.ensure_client_mount() {
        Ok(v) => v,
        Err(e) => {
            return Err(e);
        },
    };
    let source_mount_id = match cp.ensure_source_mount(&inputs.source, inputs.source.remote_src.as_str()) {
        Ok(v) => v,
        Err(e) => {
            return Err(e);
        },
    };
    let py_mount_id = match cp.ensure_python_mount(PYTHON_SERIES) {
        Ok(v) => v,
        Err(e) => {
            return Err(e);
        },
    };
    let base_spec = build_image_spec(boundary, inputs, py_mount_id.as_str());
    let image_id = match cp.ensure_image(app_id.as_str(), &base_spec, 0) {
        Ok(v) => v,
        Err(e) => {
            return Err(e);
        },
    };
    let ghost b1 = cp.built();
    let ghost h1 = cp.handed();
    proof {
        assert(b1 == b0.push((inputs.base_image@, run_layer_ops(*inputs, py_mount_id@), 0u8)));
        assert(h1 =~= h0 + expected_handed(*inputs, *boundary));
    }
    let ghost pre_calls = cp.calls();
    proof {
        assert(pre_calls =~= c0 + (seq![Call::App(inputs.app_name@, boundary.app_state)] + (if inputs.cache {
            seq![Call::Volume(CACHE_VOLUME_NAME@, true)]
        } else {
            Seq::empty()
        }) + secret_calls(inputs.app_name@, spec_object_tag(inputs.entrypoints@[0].name@), inputs.entrypoints@[0].options)
            + volume_calls(inputs.entrypoints@[0].options) + mount_calls() + seq![Call::Image]));
    }
    let ghost l1 = cp.ledger();
    let ep = &inputs.entrypoints[0];
    let tag = crate::remote::sanitize_object_tag(ep.name.as_str());
    let precreate_id = match cp.precreate(app_id.as_str(), tag.as_str()) {
        Ok(v) => v,
        Err(e) => {
            return Err(e);
        },
    };
    let res = AttachedResources {
        client_mount_id: client_mount_id.clone(),
        source_mount_id: source_mount_id.clone(),
        cache_vol_id: clone_opt(&cache_vol_id),
        secret_ids: clone_ids(&run_secret_ids),
        user_volume_mounts: clone_mounts(&run_user_volume_mounts),
    };
    let fn_spec = build_function_spec(boundary, ep, image_id.as_str(), &res);
    let ghost c1 = cp.created();
    proof {
        assert forall|j: int| 0 <= j < res.user_volume_mounts@.len() implies (#[trigger] res.user_volume_mounts@[j]).1@
            == inputs.entrypoints@[0].options.volumes@[j].0@ by {
            assert(pair_views(res.user_volume_mounts@)[j] == pair_views(run_user_volume_mounts@)[j]);
        }
        assert(views(res.secret_ids@).len() == views(run_secret_ids@).len());
        assert(pair_views(res.user_volume_mounts@).len() == pair_views(run_user_volume_mounts@).len());
        assert((res.cache_vol_id is Some) == (cache_vol_id is Some));
        assert(resources_fit(*boundary, *inputs, 0, res));
        assert(cr0.subrange(0, cr0.len() as int) =~= cr0);
        assert(created_upto(*boundary, *inputs, cr0, c1, 0));
        let o = inputs.entrypoints@[0].options;
        let rv = resources_at(*boundary, *inputs, l0, l1, 0);
        assert(rv.3 =~= views(res.secret_ids@));
        assert(rv.4 =~= pair_views(res.user_volume_mounts@)) by {
            assert forall|j: int| 0 <= j < o.volumes@.len() implies #[trigger] rv.4[j] == pair_views(res.user_volume_mounts@)[j] by {
                assert(pair_views(res.user_volume_mounts@)[j] == pair_views(run_user_volume_mounts@)[j]);
                assert(vol_ids(run_user_volume_mounts@)[j] == run_user_volume_mounts@[j].0@);
            }
        }
        assert(res_view(res) == rv);
    }
    let created = match cp.create(app_id.as_str(), precreate_id.as_str(), &fn_spec) {
        Ok(v) => v,
        Err(e) => {
            return Err(e);
        },
    };
    proof {
        lemma_created_step(*boundary, *inputs, cr0, c1, cp.created(), 0, fn_spec, image_id@, res);
        assert(same_plan(cp.created()[cr0.len() as int], c1.push(fn_spec)[cr0.len() as int]));
        lemma_planned_same_v(*boundary, *ep, image_id@, res_view(res), fn_spec, cp.created()[cr0.len() as int]);
    }
    let ghost mid = log_map(published.function_ids@);
    published.record(tag.as_str(), &created);
    proof {
        assert(m0.dom().union(tags_upto(inputs.entrypoints@, 0)) =~= m0.dom());
        lemma_union_step(m0, mid, log_map(published.function_ids@), inputs.entrypoints@, 0, created.function_id@);
    }
    let publish_url = match cp.publish(
        app_id.as_str(),
        inputs.app_name.as_str(),
        &published.function_ids,
        &published.definition_ids,
        boundary.app_state,
    ) {
        Ok(v) => v,
        Err(e) => {
            return Err(e);
        },
    };
    proof {
        assert(run_loop_calls(inputs.entrypoints@, boundary.app_state, 1) =~= run_loop_calls(
            inputs.entrypoints@,
            boundary.app_state,
            0,
        ) + seq![Call::Precreate(spec_object_tag(inputs.entrypoints@[0].name@)), Call::Create, Call::Publish(boundary.app_state)]);
        assert(cp.calls() =~= c0 + expected_calls(*inputs, *boundary, false));
        assert(cp.built() == b0.push((inputs.base_image@, run_layer_ops(*inputs, py_mount_id@), 0u8)));
        let lf = cp.ledger();
        assert(resources_at(*boundary, *inputs, l0, lf, 0) == resources_at(*boundary, *inputs, l0, l1, 0));
        assert(lf.functions.subrange(0, l0.functions.len() as int) =~= l0.functions);
        assert(created_on(*boundary, *inputs, cr0, cp.created(), l0, lf));
        let pa = published_after(p0, inputs.entrypoints@, lf.functions, l0.functions.len() as int, 1);
        assert(lf.functions.len() == l0.functions.len() + 1);
        assert(lf.functions[l0.functions.len() as int] == (created.function_id@, created.definition_id@, created.web_url@));
        assert(published_after(p0, inputs.entrypoints@, lf.functions, l0.functions.len() as int, 0) == p0);
        assert(pa == record_maps(p0, spec_object_tag(inputs.entrypoints@[0].name@), lf.functions[l0.functions.len() as int]));
        assert(published_view(*published).0 =~= pa.0);
        assert(published_view(*published).1 =~= pa.1);
        assert(published_view(*published).2 =~= pa.2);
        assert(published_view(*published) == pa);
        assert(lf.publishes == l0.publishes.push((pa.0, pa.1)));
        assert(image_id@ == lf.images.last());
        assert(publish_url@ == lf.urls.last());
    }
    Ok(Provisioned { image_id, publish_url, dep_layer: false })
}

fn str_refs<'a>(v: &'a Vec<String>) -> (r: Vec<&'a str>)
    ensures
        crate::config::str_views(r@) == views(v@),
{
    let mut r: Vec<&str> = Vec::new();
    let mut i: usize = 0;
    while i < v.len()
        invariant
            i <= v@.len(),
            crate::config::str_views(r@) == views(v@).subrange(0, i as int),
        decreases v@.len() - i,
    {
        let ghost before = crate::config::str_views(r@);
        r.push(v[i].as_str());
        proof {
            assert(crate::config::str_views(r@) =~= before.push(v@[i as int]@));
            assert(views(v@).subrange(0, i + 1) =~= views(v@).subrange(0, i as int).push(v@[i as int]@));
        }
        i = i + 1;
    }
    proof {
        assert(views(v@).subrange(0, v@.len() as int) =~= views(v@));
    }
    r
}

/// The deploy path: the mounts, the persistent app, the base layer, the
/// prebuild stub and its layer when asked, the top layer, then per entrypoint
/// a precreate, its secrets and volumes and a create, and one publish.
#[verifier::rlimit(100)]
#[verifier::spinoff_prover]
fn provision_deploy<C: ControlPlane>(cp: &mut C, inputs: &ProvisionInputs, boundary: &Boundary, published: &mut Published) -> (r: Result<Provisioned, Error>)
    requires
        boundary.source_delivery == SourceDelivery::DeployContext,
    ensures
        r matches Ok(p) ==> final(cp).calls() == old(cp).calls() + expected_calls(*inputs, *boundary, p.dep_layer),
        r matches Ok(p) ==> p.dep_layer ==> inputs.dep_prebuild && old(cp).builds_stubs(),
        r is Ok ==> union_grown(log_map(old(published).function_ids@), log_map(final(published).function_ids@), inputs.entrypoints@, inputs.entrypoints@.len()),
        final(cp).infallible() == old(cp).infallible(),
        old(cp).infallible() ==> r is Ok,
        r is Ok ==> created_upto(*boundary, *inputs, old(cp).created(), final(cp).created(), inputs.entrypoints@.len() as int),
        r matches Ok(p) ==> images_built(*boundary, *inputs, old(cp).built(), final(cp).built(), p.dep_layer),
        r is Ok ==> final(cp).handed() == old(cp).handed() + expected_handed(*inputs, *boundary),
        r matches Ok(p) ==> ledgered(
            *boundary,
            *inputs,
            old(cp).created(),
            final(cp).created(),
            old(cp).ledger(),
            final(cp).ledger(),
            published_view(*old(published)),
            published_view(*final(published)),
            p.image_id@,
            p.publish_url@,
        ),
{
    let ghost c0 = cp.calls();
    let ghost inf = cp.infallible();
    let ghost cr0 = cp.created();
    let ghost b0 = cp.built();
    let ghost h0 = cp.handed();
    let ghost l0 = cp.ledger();
    let ghost p0 = published_view(*published);
    let ghost m0 = log_map(published.function_ids@);
    let client_mount_id = match cp.ensure_client_mount() {
        Ok(v) => v,
        Err(e) => {
            return Err(e);
        },
    };
    let source_mount_id = match cp.ensure_source_mount(&inputs.source, DEPLOY_SRC) {
        Ok(v) => v,
        Err(e) => {
            return Err(e);
        },
    };
    let py_mount_id = match cp.ensure_python_mount(PYTHON_SERIES) {
        Ok(v) => v,
        Err(e) => {
            return Err(e);
        },
    };
    let pre: Option<&str> = match &inputs.app_id {
        Some(a) => Some(a.as_str()),
        None => None,
    };
    let app_id = match cp.ensure_app(inputs.app_name.as_str(), pre, boundary.app_state) {
        Ok(a) => a,
        Err(e) => {
            return Err(e);
        },
    };
    let base_spec = build_image_spec(boundary, inputs, py_mount_id.as_str());
    let base_image_id = match cp.ensure_image(app_id.as_str(), &base_spec, 0) {
        Ok(v) => v,
        Err(e) => {
            return Err(e);
        },
    };
    let ghost c1 = cp.calls();
    let ghost b1 = cp.built();
    proof {
        assert(b1 == b0.push((inputs.base_image@, provisioning_ops(*inputs, py_mount_id@, false), 0u8)));
    }
    let ghost mut stub_g: Seq<char> = Seq::empty();
    let mut dep_layer = false;
    let top_base = if inputs.dep_prebuild {
        match cp.ensure_prebuild_mount(&inputs.source, DEPLOY_SRC) {
            Ok(Some(stub_mount_id)) => {
                let dep_spec = build_deploy_dep_layer_spec(base_image_id.as_str(), stub_mount_id.as_str(), inputs.source.package.as_str());
                dep_layer = true;
                proof {
                    stub_g = stub_mount_id@;
                }
                proof {
                    assert(dep_spec.registry@ =~= Seq::<char>::empty());
                }
                match cp.ensure_image(app_id.as_str(), &dep_spec, 1) {
                    Ok(v) => {
                        proof {
                            assert(cp.built() == b1.push(
                                (Seq::<char>::empty(), dep_layer_ops(base_image_id@, stub_g, inputs.source.package@), 1u8),
                            ));
                        }
                        v
                    },
                    Err(e) => {
                        return Err(e);
                    },
                }
            },
            Ok(None) => base_image_id.clone(),
            Err(e) => {
                return Err(e);
            },
        }
    } else {
        base_image_id.clone()
    };
    let ghost c2 = cp.calls();
    proof {
        assert(c2 == c1 + (if inputs.dep_prebuild {
            seq![Call::PrebuildMount] + if dep_layer {
                seq![Call::Image]
            } else {
                Seq::empty()
            }
        } else {
            Seq::empty()
        })) by {
            if inputs.dep_prebuild {
                if dep_layer {
                    assert(c2 =~= c1 + (seq![Call::PrebuildMount] + seq![Call::Image]));
                } else {
                    assert(c2 =~= c1 + (seq![Call::PrebuildMount] + Seq::empty()));
                }
            } else {
                assert(c2 =~= c1 + Seq::<Call>::empty());
            }
        }
    }
    let top_layer_ordinal: u8 = if str_eq(top_base.as_str(), base_image_id.as_str()) { 1 } else { 2 };
    let gates = deploy_gates(&inputs.entrypoints);
    let eps = str_refs(&gates.endpoint_entrypoints);
    let top_spec = build_deploy_top_layer_spec(
        top_base.as_str(),
        source_mount_id.as_str(),
        inputs.source.package.as_str(),
        gates.bake_snapshot_prime,
        inputs.snapshot_best_effort,
        inputs.deploy_wrapper_src.as_str(),
        eps.as_slice(),
    );
    let image_id = match cp.ensure_image(app_id.as_str(), &top_spec, top_layer_ordinal) {
        Ok(v) => v,
        Err(e) => {
            return Err(e);
        },
    };
    let ghost b3 = cp.built();
    let ghost h3 = cp.handed();
    let ghost l3 = cp.ledger();
    let ghost f0 = l0.functions.len() as int;
    let ghost mm = l0.mounts.len() as int;
    proof {
        assert(l3.mounts.len() >= mm + 2 && l3.mounts[mm] == client_mount_id@ && l3.mounts[mm + 1] == source_mount_id@);
        assert(l3.images.last() == image_id@);
        assert(l3.secrets == l0.secrets && l3.volumes == l0.volumes && l3.functions == l0.functions);
        assert(l3.publishes == l0.publishes);
    }
    proof {
        assert(h3 =~= h0 + (seq![Handed::SourceMount(source_view(inputs.source), DEPLOY_SRC@), Handed::PythonMount(PYTHON_SERIES@), Handed::App(
            crate::config::opt_owned(inputs.app_id),
        )] + (if inputs.dep_prebuild {
            seq![Handed::PrebuildMount(source_view(inputs.source), DEPLOY_SRC@)]
        } else {
            Seq::empty()
        })));
    }
    let ghost dep_g = if dep_layer { top_base@ } else { Seq::<char>::empty() };
    let ghost d = deploy_layers(*inputs, py_mount_id@, base_image_id@, source_mount_id@, stub_g, dep_g, dep_layer);
    proof {
        assert(base_spec.registry@ == inputs.base_image@);
        assert(top_spec.registry@ =~= Seq::<char>::empty());
        if dep_layer {
            assert(b3 =~= b0 + d);
        } else {
            assert(top_base@ == base_image_id@);
            assert(b3 =~= b0 + d);
        }
    }
    let ghost pre_calls = cp.calls();
    let mut k: usize = 0;
    proof {
        assert(m0.dom().union(tags_upto(inputs.entrypoints@, 0)) =~= m0.dom());
        assert(pre_calls + deploy_loop_calls(inputs.app_name@, inputs.entrypoints@, 0) =~= pre_calls);
        assert(h3 + deploy_loop_handed(inputs.entrypoints@, 0) =~= h3);
        assert(cp.created().subrange(0, cr0.len() as int) =~= cr0);
    }
    while k < inputs.entrypoints.len()
        invariant
            k <= inputs.entrypoints@.len(),
            boundary.source_delivery == SourceDelivery::DeployContext,
            cp.calls() == pre_calls + deploy_loop_calls(inputs.app_name@, inputs.entrypoints@, k as nat),
            cp.infallible() == inf,
            inf == old(cp).infallible(),
            cr0 == old(cp).created(),
            cp.built() == b3,
            cp.handed() == h3 + deploy_loop_handed(inputs.entrypoints@, k as nat),
            created_upto(*boundary, *inputs, cr0, cp.created(), k as int),
            union_grown(m0, log_map(published.function_ids@), inputs.entrypoints@, k as nat),
            f0 == l0.functions.len(),
            mm == l0.mounts.len(),
            l3.mounts.len() >= mm + 2 && l3.mounts[mm] == client_mount_id@ && l3.mounts[mm + 1] == source_mount_id@,
            l3.images.last() == image_id@,
            cp.ledger().mounts == l3.mounts,
            cp.ledger().images == l3.images,
            cp.ledger().publishes == l0.publishes,
            cp.ledger().secrets.len() == l0.secrets.len() + secret_prefix(inputs.entrypoints@, k as int),
            cp.ledger().volumes.len() == l0.volumes.len() + volume_prefix(inputs.entrypoints@, k as int),
            cp.ledger().functions.len() == f0 + k,
            cp.ledger().functions.subrange(0, f0) == l0.functions,
            published_view(*published) == published_after(p0, inputs.entrypoints@, cp.ledger().functions, f0, k as nat),
            forall|j: int| 0 <= j < k ==> #[trigger] function_planned_v(
                *boundary,
                inputs.entrypoints@[j],
                image_id@,
                resources_at(*boundary, *inputs, l0, cp.ledger(), j),
                cp.created()[cr0.len() + j],
            ),
        decreases inputs.entrypoints@.len() - k,
    {
        let ep = &inputs.entrypoints[k];
        let tag = crate::remote::sanitize_object_tag(ep.name.as_str());
        let ghost ck = cp.calls();
        let ghost la = cp.ledger();
        let ghost pva = published_view(*published);
        let precreate_id = match cp.precreate(app_id.as_str(), tag.as_str()) {
            Ok(v) => v,
            Err(e) => {
                return Err(e);
            },
        };
        let secret_ids = match resolve_entrypoint_secrets(cp, inputs.app_name.as_str(), tag.as_str(), &ep.options) {
            Ok(v) => v,
            Err(e) => {
                return Err(e);
            },
        };
        let user_volume_mounts = match resolve_user_volumes(cp, &ep.options, false) {
            Ok(v) => v,
            Err(e) => {
                return Err(e);
            },
        };
        let res = AttachedResources {
            client_mount_id: client_mount_id.clone(),
            source_mount_id: source_mount_id.clone(),
            cache_vol_id: None,
            secret_ids,
            user_volume_mounts,
        };
        let fn_spec = build_function_spec(boundary, ep, image_id.as_str(), &res);
        let ghost c1 = cp.created();
        let ghost ld = cp.ledger();
        proof {
            assert(resources_fit(*boundary, *inputs, k as int, res));
            let o = inputs.entrypoints@[k as int].options;
            let rv = resources_at(*boundary, *inputs, l0, ld, k as int);
            let s = la.secrets.len() as int;
            assert(ld.secrets == la.secrets + views(res.secret_ids@));
            assert(rv.3 =~= views(res.secret_ids@));
            assert(ld.volumes == la.volumes + vol_ids(res.user_volume_mounts@));
            assert(rv.4 =~= pair_views(res.user_volume_mounts@)) by {
                assert forall|j: int| 0 <= j < o.volumes@.len() implies #[trigger] rv.4[j] == pair_views(res.user_volume_mounts@)[j] by {
                    assert(vol_ids(res.user_volume_mounts@)[j] == res.user_volume_mounts@[j].0@);
                    assert(ld.volumes[la.volumes.len() + j] == vol_ids(res.user_volume_mounts@)[j]);
                }
            }
            assert(res_view(res) == rv);
        }
        let created = match cp.create(app_id.as_str(), precreate_id.as_str(), &fn_spec) {
            Ok(v) => v,
            Err(e) => {
                return Err(e);
            },
        };
        proof {
            lemma_created_step(*boundary, *inputs, cr0, c1, cp.created(), k as int, fn_spec, image_id@, res);
        }
        let ghost mid = log_map(published.function_ids@);
        published.record(tag.as_str(), &created);
        proof {
            lemma_union_step(m0, mid, log_map(published.function_ids@), inputs.entrypoints@, k as nat, created.function_id@);
            assert(cp.calls() =~= pre_calls + deploy_loop_calls(inputs.app_name@, inputs.entrypoints@, (k + 1) as nat));
            assert(cp.handed() =~= h3 + deploy_loop_handed(inputs.entrypoints@, (k + 1) as nat));
            let le = cp.ledger();
            let n0 = cr0.len() as int;
            assert(le.secrets == ld.secrets && le.volumes == ld.volumes && le.mounts == ld.mounts);
            assert(ld.secrets.subrange(0, la.secrets.len() as int) =~= la.secrets);
            assert(ld.volumes.subrange(0, la.volumes.len() as int) =~= la.volumes);
            assert forall|j: int| 0 <= j < k + 1 implies #[trigger] function_planned_v(
                *boundary,
                inputs.entrypoints@[j],
                image_id@,
                resources_at(*boundary, *inputs, l0, le, j),
                cp.created()[n0 + j],
            ) by {
                assert(same_plan(cp.created()[n0 + j], c1.push(fn_spec)[n0 + j]));
                if j < k {
                    lemma_prefix_mono(inputs.entrypoints@, j + 1, k as int);
                    lemma_resources_stable(*boundary, *inputs, l0, la, le, j);
                    assert(c1.push(fn_spec)[n0 + j] == c1[n0 + j]);
                    lemma_planned_same_v(
                        *boundary,
                        inputs.entrypoints@[j],
                        image_id@,
                        resources_at(*boundary, *inputs, l0, le, j),
                        c1[n0 + j],
                        cp.created()[n0 + j],
                    );
                } else {
                    assert(c1.push(fn_spec)[n0 + j] == fn_spec);
                    assert(resources_at(*boundary, *inputs, l0, le, j) == resources_at(*boundary, *inputs, l0, ld, j));
                    lemma_planned_same_v(*boundary, *ep, image_id@, res_view(res), fn_spec, cp.created()[n0 + j]);
                }
            }
            assert(le.functions == la.functions.push((created.function_id@, created.definition_id@, created.web_url@)));
            assert(le.functions.subrange(0, la.functions.len() as int) =~= la.functions);
            lemma_published_stable(p0, inputs.entrypoints@, la.functions, le.functions, f0, k as nat);
            let pn = published_view(*published);
            let pe = published_after(p0, inputs.entrypoints@, le.functions, f0, (k + 1) as nat);
            assert(pe == record_maps(pva, spec_object_tag(inputs.entrypoints@[k as int].name@), le.functions[f0 + k]));
            assert(pn.0 =~= pe.0);
            assert(pn.1 =~= pe.1);
            assert(pn.2 =~= pe.2);
            assert(le.functions.subrange(0, f0) =~= l0.functions) by {
                assert(la.functions.subrange(0, f0) == l0.functions);
                assert forall|t: int| 0 <= t < f0 implies le.functions.subrange(0, f0)[t] == l0.functions[t] by {
                    assert(la.functions.subrange(0, f0)[t] == la.functions[t]);
                }
            }
        }
        k = k + 1;
    }
    let ghost lp = cp.ledger();
    let publish_url = match cp.publish(
        app_id.as_str(),
        inputs.app_name.as_str(),
        &published.function_ids,
        &published.definition_ids,
        boundary.app_state,
    ) {
        Ok(v) => v,
        Err(e) => {
            return Err(e);
        },
    };
    proof {
        let lf0 = cp.ledger();
        assert forall|j: int| 0 <= j < inputs.entrypoints@.len() implies #[trigger] resources_at(*boundary, *inputs, l0, lf0, j)
            == resources_at(*boundary, *inputs, l0, lp, j) by {
            assert(lf0.mounts == lp.mounts && lf0.secrets == lp.secrets && lf0.volumes == lp.volumes);
        }
        assert forall|j: int| 0 <= j < inputs.entrypoints@.len() implies #[trigger] function_planned_v(
            *boundary,
            inputs.entrypoints@[j],
            lf0.images.last(),
            resources_at(*boundary, *inputs, l0, lf0, j),
            cp.created()[cr0.len() + j],
        ) by {
            assert(resources_at(*boundary, *inputs, l0, lf0, j) == resources_at(*boundary, *inputs, l0, lp, j));
        }
        assert(cp.calls() =~= c0 + expected_calls(*inputs, *boundary, dep_layer));
        assert(cp.built() == b0 + deploy_layers(*inputs, py_mount_id@, base_image_id@, source_mount_id@, stub_g, dep_g, dep_layer));
        assert(cp.handed() =~= h0 + expected_handed(*inputs, *boundary));
        let lf = cp.ledger();
        assert(lf.functions.subrange(0, f0) =~= l0.functions);
        assert(created_on(*boundary, *inputs, cr0, cp.created(), l0, lf));
    }
    Ok(Provisioned { image_id, publish_url, dep_layer })
}

proof fn lemma_prefix_mono(eps: Seq<Entrypoint>, j: int, k: int)
    requires
        0 <= j <= k,
    ensures
        secret_prefix(eps, j) <= secret_prefix(eps, k),
        volume_prefix(eps, j) <= volume_prefix(eps, k),
    decreases k,
{
    if j < k {
        lemma_prefix_mono(eps, j, k - 1);
    }
}

proof fn lemma_resources_stable(b: Boundary, i: ProvisionInputs, l0: Ledger, la: Ledger, lb: Ledger, j: int)
    requires
        b.source_delivery == SourceDelivery::DeployContext,
        0 <= j < i.entrypoints@.len(),
        la.mounts == lb.mounts,
        la.secrets.len() <= lb.secrets.len(),
        lb.secrets.subrange(0, la.secrets.len() as int) == la.secrets,
        la.volumes.len() <= lb.volumes.len(),
        lb.volumes.subrange(0, la.volumes.len() as int) == la.volumes,
        l0.secrets.len() + secret_prefix(i.entrypoints@, j + 1) <= la.secrets.len(),
        l0.volumes.len() + volume_prefix(i.entrypoints@, j + 1) <= la.volumes.len(),
    ensures
        resources_at(b, i, l0, la, j) == resources_at(b, i, l0, lb, j),
{
    let o = i.entrypoints@[j].options;
    let v = (l0.volumes.len() + volume_prefix(i.entrypoints@, j)) as int;
    let s = (l0.secrets.len() + secret_prefix(i.entrypoints@, j)) as int;
    assert(la.secrets.subrange(s, s + secret_count(o)) =~= lb.secrets.subrange(s, s + secret_count(o))) by {
        assert forall|t: int| 0 <= t < secret_count(o) implies #[trigger] la.secrets.subrange(s, s + secret_count(o))[t]
            == lb.secrets.subrange(s, s + secret_count(o))[t] by {
            assert(lb.secrets.subrange(0, la.secrets.len() as int)[s + t] == lb.secrets[s + t]);
        }
    }
    let va = Seq::new(o.volumes@.len(), |t: int| (la.volumes[v + t], o.volumes@[t].0@));
    let vb = Seq::new(o.volumes@.len(), |t: int| (lb.volumes[v + t], o.volumes@[t].0@));
    assert(va =~= vb) by {
        assert forall|t: int| 0 <= t < o.volumes@.len() implies va[t] == vb[t] by {
            assert(lb.volumes.subrange(0, la.volumes.len() as int)[v + t] == lb.volumes[v + t]);
        }
    }
}

proof fn lemma_published_stable(
    p0: (Map<Seq<char>, Seq<char>>, Map<Seq<char>, Seq<char>>, Map<Seq<char>, Seq<char>>),
    eps: Seq<Entrypoint>,
    fa: Seq<(Seq<char>, Seq<char>, Seq<char>)>,
    fb: Seq<(Seq<char>, Seq<char>, Seq<char>)>,
    f0: int,
    k: nat,
)
    requires
        0 <= f0,
        f0 + k <= fa.len() <= fb.len(),
        fb.subrange(0, fa.len() as int) == fa,
    ensures
        published_after(p0, eps, fa, f0, k) == published_after(p0, eps, fb, f0, k),
    decreases k,
{
    if k > 0 {
        lemma_published_stable(p0, eps, fa, fb, f0, (k - 1) as nat);
        assert(fb.subrange(0, fa.len() as int)[f0 + k - 1] == fb[f0 + k - 1]);
    }
}

/// The run's single entrypoint mounts a user volume at the cargo-cache path
/// while the cache is on.
pub open spec fn run_collides(i: ProvisionInputs) -> bool {
    i.entrypoints@.len() > 0 && i.cache && mounts_at_cache(i.entrypoints@[0].options)
}

/// The one provisioning sequence over any [`ControlPlane`]: the boundary's plan
/// decides the shape (run: one entrypoint required, re-published after each
/// create; deploy: every entrypoint, published once); on success the calls made
/// are exactly [`expected_calls`], the functions created are the entrypoints'
/// plans in order ([`created_upto`]), the image layers handed to the plane are
/// those of [`images_built`] whatever ids it answered, the keys, key/values,
/// remote paths and series handed over are those of [`expected_handed`], and
/// the publish union has grown by
/// exactly the entrypoints' tags. What the plane answered is threaded through
/// ([`ledgered`]): each function is created on the last image answered with the
/// mounts, volumes and secrets answered for it, is recorded under its tag with
/// the ids its create answered, and the publish is handed the grown record.
/// On an infallible plane it fails only on a run without exactly one
/// entrypoint or with a user volume at the cache path.
pub fn provision<C: ControlPlane>(cp: &mut C, inputs: &ProvisionInputs, boundary: &Boundary, published: &mut Published) -> (r: Result<Provisioned, Error>)
    ensures
        boundary.source_delivery == SourceDelivery::RunMount && inputs.entrypoints@.len() != 1 ==> (r matches Err(Error::Config(m)) && m@ == "RUN provision requires exactly one entrypoint"@ && *final(cp) == *old(cp) && *final(published) == *old(published)),
        r matches Ok(p) ==> final(cp).calls() == old(cp).calls() + expected_calls(*inputs, *boundary, p.dep_layer),
        r matches Ok(p) ==> p.dep_layer ==> (inputs.dep_prebuild && boundary.source_delivery == SourceDelivery::DeployContext
            && old(cp).builds_stubs()),
        r is Ok ==> union_grown(log_map(old(published).function_ids@), log_map(final(published).function_ids@), inputs.entrypoints@, inputs.entrypoints@.len()),
        final(cp).infallible() == old(cp).infallible(),
        old(cp).infallible() ==> (r is Ok <==> !(boundary.source_delivery == SourceDelivery::RunMount && (inputs.entrypoints@.len() != 1 || run_collides(*inputs)))),
        old(cp).infallible() && boundary.source_delivery == SourceDelivery::RunMount && inputs.entrypoints@.len() == 1 ==> (r matches Err(e) ==> e matches Error::Config(m) && m@ == cache_collision_message()),
        r is Ok ==> created_upto(*boundary, *inputs, old(cp).created(), final(cp).created(), inputs.entrypoints@.len() as int),
        r matches Ok(p) ==> images_built(*boundary, *inputs, old(cp).built(), final(cp).built(), p.dep_layer),
        r is Ok ==> final(cp).handed() == old(cp).handed() + expected_handed(*inputs, *boundary),
        r matches Ok(p) ==> ledgered(
            *boundary,
            *inputs,
            old(cp).created(),
            final(cp).created(),
            old(cp).ledger(),
            final(cp).ledger(),
            published_view(*old(published)),
            published_view(*final(published)),
            p.image_id@,
            p.publish_url@,
        ),
{
    match boundary.plan(&inputs.entrypoints) {
        Err(e) => Err(e),
        Ok(ProvisionPlan::Single) => provision_run(cp, inputs, boundary, published),
        Ok(ProvisionPlan::Many) => provision_deploy(cp, inputs, boundary, published),
    }
}

/// One decorated entrypoint to deploy: its name and options.
#[derive(Debug, Clone)]
pub struct DeployEntrypoint {
    /// The entrypoint name.
    pub name: String,
    /// Owned per-entrypoint options.
    pub options: FunctionOptions,
}

/// The entrypoints an app deploys: one per declared configuration, in the
/// order given, each with a copy of its options; with none declared, each
/// registered name with the default options.
pub fn deploy_entrypoints(configs: &Vec<(String, FunctionOptions)>, known_names: &Vec<String>) -> (r: Vec<DeployEntrypoint>)
    ensures
        configs@.len() > 0 ==> r@.len() == configs@.len() && forall|i: int| 0 <= i < r@.len() ==> (#[trigger] r@[i]).name@
            == configs@[i].0@ && crate::config::same_options(r@[i].options, configs@[i].1),
        configs@.len() == 0 ==> r@.len() == known_names@.len() && forall|i: int| 0 <= i < r@.len() ==> (#[trigger] r@[i]).name@
            == known_names@[i]@ && crate::config::is_default_options(r@[i].options),
{
    let mut r: Vec<DeployEntrypoint> = Vec::new();
    if configs.len() > 0 {
        let mut i: usize = 0;
        while i < configs.len()
            invariant
                i <= configs@.len(),
                r@.len() == i,
                forall|k: int| 0 <= k < i ==> (#[trigger] r@[k]).name@ == configs@[k].0@ && crate::config::same_options(
                    r@[k].options,
                    configs@[k].1,
                ),
            decreases configs@.len() - i,
        {
            r.push(DeployEntrypoint { name: configs[i].0.clone(), options: configs[i].1.duplicate() });
            i = i + 1;
        }
    } else {
        let mut i: usize = 0;
        while i < known_names.len()
            invariant
                i <= known_names@.len(),
                r@.len() == i,
                forall|k: int| 0 <= k < i ==> (#[trigger] r@[k]).name@ == known_names@[k]@ && crate::config::is_default_options(
                    r@[k].options,
                ),
            decreases known_names@.len() - i,
        {
            r.push(DeployEntrypoint { name: known_names[i].clone(), options: FunctionOptions::default_options() });
            i = i + 1;
        }
    }
    r
}

/// `r` is the deploy plan the dump renders: the app's declared
/// configurations, else its registered names with default options, else one
/// function under the shared callable with the deploy's options.
pub open spec fn dump_entrypoints(
    configs: Seq<(String, FunctionOptions)>,
    known_names: Seq<String>,
    config: crate::deploy::DeployConfig,
    r: Seq<DeployEntrypoint>,
) -> bool {
    if configs.len() > 0 {
        r.len() == configs.len() && forall|i: int| 0 <= i < r.len() ==> (#[trigger] r[i]).name@ == configs[i].0@
            && crate::config::same_options(r[i].options, configs[i].1)
    } else if known_names.len() > 0 {
        r.len() == known_names.len() && forall|i: int| 0 <= i < r.len() ==> (#[trigger] r[i]).name@ == known_names[i]@
            && crate::config::is_default_options(r[i].options)
    } else {
        r.len() == 1 && r[0].name@ == DEPLOY_WRAPPER_CALLABLE@ && crate::config::same_options(r[0].options, config.options)
    }
}

/// The deploy plan the dump renders: the app's entrypoints, or, when it has
/// none, one function under the shared callable with the deploy's options.
pub fn deploy_entrypoints_for_dump(
    configs: &Vec<(String, FunctionOptions)>,
    known_names: &Vec<String>,
    config: &crate::deploy::DeployConfig,
) -> (r: Vec<DeployEntrypoint>)
    ensures
        configs@.len() > 0 ==> r@.len() == configs@.len() && forall|i: int| 0 <= i < r@.len() ==> (#[trigger] r@[i]).name@
            == configs@[i].0@ && crate::config::same_options(r@[i].options, configs@[i].1),
        configs@.len() == 0 && known_names@.len() > 0 ==> r@.len() == known_names@.len() && forall|i: int| 0 <= i < r@.len()
            ==> (#[trigger] r@[i]).name@ == known_names@[i]@ && crate::config::is_default_options(r@[i].options),
        configs@.len() == 0 && known_names@.len() == 0 ==> r@.len() == 1 && r@[0].name@ == DEPLOY_WRAPPER_CALLABLE@
            && crate::config::same_options(r@[0].options, config.options),
        dump_entrypoints(configs@, known_names@, *config, r@),
{
    let eps = deploy_entrypoints(configs, known_names);
    if eps.len() == 0 {
        let mut r: Vec<DeployEntrypoint> = Vec::new();
        r.push(DeployEntrypoint { name: String::from_str(DEPLOY_WRAPPER_CALLABLE), options: config.options.duplicate() });
        r
    } else {
        eps
    }
}

/// The entrypoints a deploy creates: one per declared entrypoint (its own
/// timeout, else the deploy's), or, with none declared, one fallback function
/// under the shared callable with the deploy's options and timeout.
pub open spec fn deploy_planned(config: crate::deploy::DeployConfig, eps: Seq<DeployEntrypoint>, r: Seq<Entrypoint>) -> bool {
    if eps.len() == 0 {
        &&& r.len() == 1
        &&& r[0].name@ == DEPLOY_WRAPPER_CALLABLE@
        &&& crate::config::same_options(r[0].options, config.options)
        &&& r[0].timeout_secs == config.timeout_secs
    } else {
        &&& r.len() == eps.len()
        &&& forall|i: int| 0 <= i < r.len() ==> {
            &&& (#[trigger] r[i]).name@ == eps[i].name@
            &&& crate::config::same_options(r[i].options, eps[i].options)
            &&& r[i].timeout_secs == (match eps[i].options.timeout_secs {
                Some(t) => t,
                None => config.timeout_secs,
            })
        }
    }
}

/// Plans the deploy's functions.
pub fn deploy_plan(config: &crate::deploy::DeployConfig, entrypoints: &Vec<DeployEntrypoint>) -> (r: Vec<Entrypoint>)
    ensures
        deploy_planned(*config, entrypoints@, r@),
{
    let mut r: Vec<Entrypoint> = Vec::new();
    if entrypoints.len() == 0 {
        r.push(Entrypoint {
            name: String::from_str(DEPLOY_WRAPPER_CALLABLE),
            options: config.options.duplicate(),
            timeout_secs: config.timeout_secs,
        });
        return r;
    }
    let mut i: usize = 0;
    while i < entrypoints.len()
        invariant
            i <= entrypoints@.len(),
            r@.len() == i,
            forall|k: int| 0 <= k < i ==> {
                &&& (#[trigger] r@[k]).name@ == entrypoints@[k].name@
                &&& crate::config::same_options(r@[k].options, entrypoints@[k].options)
                &&& r@[k].timeout_secs == (match entrypoints@[k].options.timeout_secs {
                    Some(t) => t,
                    None => config.timeout_secs,
                })
            },
        decreases entrypoints@.len() - i,
    {
        let ep = &entrypoints[i];
        let timeout = match ep.options.timeout_secs {
            Some(t) => t,
            None => config.timeout_secs,
        };
        r.push(Entrypoint { name: ep.name.clone(), options: ep.options.duplicate(), timeout_secs: timeout });
        i = i + 1;
    }
    r
}

/// The provisioning inputs of a deploy: the deploy's build fields, the
/// persistent app resolved by name, the source at the deploy path, no cargo
/// cache, the given wrapper texts and the planned entrypoints.
pub fn deploy_inputs(
    config: &crate::deploy::DeployConfig,
    plan: Vec<Entrypoint>,
    dep_prebuild: bool,
    run_wrapper_src: &str,
    deploy_wrapper_src: &str,
) -> (r: ProvisionInputs)
    ensures
        r.app_name@ == config.app_name@,
        r.app_id is None,
        r.source.local_root@ == config.local_root@,
        r.source.package@ == config.package@,
        r.source.use_cargo_scoping == config.use_cargo_scoping,
        r.source.modalignore_name@ == config.modalignore_name@,
        r.source.remote_src@ == DEPLOY_SRC@,
        r.base_image@ == config.base_image@,
        r.install_rust == config.install_rust,
        steps_view(r.image_steps@) == steps_view(config.image_steps@),
        !r.cache,
        r.cache_target,
        r.snapshot_best_effort == config.snapshot_best_effort,
        r.dep_prebuild == dep_prebuild,
        r.run_wrapper_src@ == run_wrapper_src@,
        r.deploy_wrapper_src@ == deploy_wrapper_src@,
        r.entrypoints == plan,
{
    ProvisionInputs {
        app_name: config.app_name.clone(),
        app_id: None,
        source: SourceInputs {
            local_root: config.local_root.clone(),
            package: config.package.clone(),
            use_cargo_scoping: config.use_cargo_scoping,
            modalignore_name: config.modalignore_name.clone(),
            remote_src: String::from_str(DEPLOY_SRC),
        },
        base_image: config.base_image.clone(),
        install_rust: config.install_rust,
        image_steps: clone_steps(&config.image_steps),
        cache: false,
        cache_target: true,
        snapshot_best_effort: config.snapshot_best_effort,
        dep_prebuild,
        run_wrapper_src: String::from_str(run_wrapper_src),
        deploy_wrapper_src: String::from_str(deploy_wrapper_src),
        entrypoints: plan,
    }
}

/// The image fields after the first declared image (`None`: none declares one)
/// is folded over `(base, install, steps)`: its steps go first, its base and
/// toolchain switch override.
pub open spec fn folded_image(
    base: Seq<char>,
    install: bool,
    steps: Seq<(int, Seq<Seq<char>>)>,
    image: Option<ImageOptions>,
) -> (Seq<char>, bool, Seq<(int, Seq<Seq<char>>)>) {
    match image {
        None => (base, install, steps),
        Some(img) => (
            match img.base {
                Some(b) => b@,
                None => base,
            },
            match img.install_rust {
                Some(b) => b,
                None => install,
            },
            if spec_image_steps(img).len() > 0 {
                spec_image_steps(img) + steps
            } else {
                steps
            },
        ),
    }
}

/// Some planned function is a web endpoint.
pub open spec fn plans_endpoint(plan: Seq<Entrypoint>) -> bool {
    exists|i: int| 0 <= i < plan.len() && (#[trigger] plan[i]).options.webhook_method is Some
}

/// The deploy image the inputs carry: the declared image folded in, then the
/// FastAPI step when some planned function is an endpoint.
pub open spec fn deploy_image_prepared(config: crate::deploy::DeployConfig, image: Option<ImageOptions>, r: ProvisionInputs) -> bool {
    let f = folded_image(config.base_image@, config.install_rust, steps_view(config.image_steps@), image);
    &&& r.base_image@ == f.0
    &&& r.install_rust == f.1
    &&& steps_view(r.image_steps@) == with_endpoint_step(f.2, plans_endpoint(r.entrypoints@))
}

/// `i` is the provisioning inputs of a deploy as [`prepare_deploy`] prepares them.
pub open spec fn deploy_inputs_of(
    config: crate::deploy::DeployConfig,
    entrypoints: Seq<DeployEntrypoint>,
    image: Option<ImageOptions>,
    dep_prebuild: bool,
    run_wrapper_src: Seq<char>,
    deploy_wrapper_src: Seq<char>,
    i: ProvisionInputs,
) -> bool {
    &&& deploy_planned(config, entrypoints, i.entrypoints@)
    &&& deploy_image_prepared(config, image, i)
    &&& i.app_name@ == config.app_name@
    &&& i.app_id is None
    &&& i.source.local_root@ == config.local_root@
    &&& i.source.package@ == config.package@
    &&& i.source.use_cargo_scoping == config.use_cargo_scoping
    &&& i.source.modalignore_name@ == config.modalignore_name@
    &&& i.source.remote_src@ == DEPLOY_SRC@
    &&& !i.cache
    &&& i.cache_target
    &&& i.snapshot_best_effort == config.snapshot_best_effort
    &&& i.dep_prebuild == dep_prebuild
    &&& i.run_wrapper_src@ == run_wrapper_src
    &&& i.deploy_wrapper_src@ == deploy_wrapper_src
}

/// What a successful provisioning of `i` under `b` did to the plane, between
/// `before` and `after`: the calls of [`expected_calls`] (`dep`: the prebuild
/// layer rode, only when asked and the plane builds stubs), the functions of
/// [`created_upto`], the layers of [`images_built`], what
/// [`expected_handed`] lists, and functions created over the image and
/// resources the plane answered ([`created_on`]), one create answered each.
pub open spec fn provisioned_over<C: ControlPlane>(b: Boundary, i: ProvisionInputs, before: C, after: C, dep: bool) -> bool {
    &&& after.calls() == before.calls() + expected_calls(i, b, dep)
    &&& dep ==> i.dep_prebuild && b.source_delivery == SourceDelivery::DeployContext && before.builds_stubs()
    &&& created_upto(b, i, before.created(), after.created(), i.entrypoints@.len() as int)
    &&& images_built(b, i, before.built(), after.built(), dep)
    &&& after.handed() == before.handed() + expected_handed(i, b)
    &&& created_on(b, i, before.created(), after.created(), before.ledger(), after.ledger())
    &&& after.ledger().functions.len() == before.ledger().functions.len() + i.entrypoints@.len()
}

/// The run boundary, as a value.
pub open spec fn run_boundary_spec() -> Boundary {
    Boundary { app_state: AppState::Ephemeral, source_delivery: SourceDelivery::RunMount }
}

/// Provisions one run entrypoint over `cp` in the connect-time app `app_id`,
/// threading the cumulative publish union, and returns the function id created
/// for the entrypoint (invoked directly, the ephemeral app not being
/// resolvable by name). On an infallible plane it fails only when a user
/// volume sits at the cargo-cache path while the cache is on.
pub fn ensure_function<C: ControlPlane>(
    cp: &mut C,
    app_id: &str,
    app_name: &str,
    entrypoint: &str,
    config: &crate::remote::RemoteConfig,
    cache_target: bool,
    run_wrapper_src: &str,
    deploy_wrapper_src: &str,
    published: &mut Published,
) -> (r: Result<String, Error>)
    ensures
        exists|i: ProvisionInputs| #[trigger]
            run_inputs_of(app_name@, app_id@, entrypoint@, *config, cache_target, run_wrapper_src@, deploy_wrapper_src@, i) && {
                &&& r is Ok ==> provisioned_over(run_boundary_spec(), i, *old(cp), *final(cp), false)
                &&& r is Ok ==> union_grown(
                    log_map(old(published).function_ids@),
                    log_map(final(published).function_ids@),
                    i.entrypoints@,
                    1,
                )
                &&& r is Ok ==> published_view(*final(published)) == published_after(
                    published_view(*old(published)),
                    i.entrypoints@,
                    final(cp).ledger().functions,
                    old(cp).ledger().functions.len() as int,
                    1,
                )
                &&& old(cp).infallible() ==> (r is Ok <==> !run_collides(i))
                &&& old(cp).infallible() ==> (r matches Err(e) ==> e matches Error::Config(m) && m@ == cache_collision_message())
            },
        r matches Ok(id) ==> log_map(final(published).function_ids@).contains_key(spec_object_tag(entrypoint@))
            && id@ == log_map(final(published).function_ids@)[spec_object_tag(entrypoint@)],
        final(cp).infallible() == old(cp).infallible(),
{
    let inputs = run_inputs(app_name, app_id, entrypoint, config, cache_target, run_wrapper_src, deploy_wrapper_src);
    let boundary = run_boundary();
    match provision(cp, &inputs, &boundary, published) {
        Ok(_) => {},
        Err(e) => {
            return Err(e);
        },
    }
    proof {
        assert(tags_upto(inputs.entrypoints@, 1) == tags_upto(inputs.entrypoints@, 0).insert(spec_object_tag(entrypoint@)));
        assert(tags_upto(inputs.entrypoints@, 1).contains(spec_object_tag(entrypoint@)));
    }
    function_id_for(published, entrypoint)
}

/// The run function memoized for `entrypoint` under options the same as `o`:
/// the id of the first such entry.
pub open spec fn memo_lookup(memo: Seq<(String, FunctionOptions, String)>, entrypoint: Seq<char>, o: FunctionOptions) -> Option<
    Seq<char>,
>
    decreases memo.len(),
{
    if memo.len() == 0 {
        None
    } else if memo[0].0@ == entrypoint && crate::config::same_options(memo[0].1, o) {
        Some(memo[0].2@)
    } else {
        memo_lookup(memo.drop_first(), entrypoint, o)
    }
}

/// `o` is the effective options a run of `entrypoint` is keyed and created
/// with: the decorator options recorded for it (else the defaults), with the
/// cache and the timeout made explicit, the run's where they leave them.
pub open spec fn run_options(
    configs: Seq<(String, FunctionOptions)>,
    entrypoint: Seq<char>,
    config: crate::remote::RemoteConfig,
    o: FunctionOptions,
) -> bool {
    match crate::config::config_for(configs, entrypoint) {
        Some(d) => {
            &&& o.cache == Some(
                match d.cache {
                    Some(c) => c,
                    None => config.cache,
                },
            )
            &&& o.timeout_secs == Some(
                match d.timeout_secs {
                    Some(t) => t,
                    None => config.timeout_secs,
                },
            )
            &&& crate::config::same_options(o, FunctionOptions { cache: o.cache, timeout_secs: o.timeout_secs, ..d })
        },
        None => {
            &&& o.cache == Some(config.cache)
            &&& o.timeout_secs == Some(config.timeout_secs)
            &&& crate::config::is_default_options(FunctionOptions { cache: None, timeout_secs: None, ..o })
        },
    }
}

fn lookup_memo(memo: &Vec<(String, FunctionOptions, String)>, entrypoint: &str, o: &FunctionOptions) -> (r: Option<String>)
    ensures
        crate::config::opt_owned(r) == memo_lookup(memo@, entrypoint@, *o),
{
    let mut j: usize = 0;
    proof {
        assert(memo@.subrange(0, memo@.len() as int) =~= memo@);
    }
    while j < memo.len()
        invariant
            j <= memo@.len(),
            memo_lookup(memo@, entrypoint@, *o) == memo_lookup(memo@.subrange(j as int, memo@.len() as int), entrypoint@, *o),
        decreases memo@.len() - j,
    {
        proof {
            assert(memo@.subrange(j as int, memo@.len() as int).drop_first() =~= memo@.subrange(j + 1, memo@.len() as int));
        }
        if str_eq(memo[j].0.as_str(), entrypoint) && crate::config::options_equal(&memo[j].1, o) {
            return Some(memo[j].2.clone());
        }
        j = j + 1;
    }
    None
}

fn with_options(config: &crate::remote::RemoteConfig, options: FunctionOptions) -> (r: crate::remote::RemoteConfig)
    ensures
        r.local_root@ == config.local_root@,
        r.package@ == config.package@,
        r.remote_src@ == config.remote_src@,
        r.use_cargo_scoping == config.use_cargo_scoping,
        r.modalignore_name@ == config.modalignore_name@,
        r.base_image@ == config.base_image@,
        r.timeout_secs == config.timeout_secs,
        r.install_rust == config.install_rust,
        steps_view(r.image_steps@) == steps_view(config.image_steps@),
        r.cache == config.cache,
        r.options == options,
{
    crate::remote::RemoteConfig {
        local_root: config.local_root.clone(),
        package: config.package.clone(),
        remote_src: config.remote_src.clone(),
        use_cargo_scoping: config.use_cargo_scoping,
        modalignore_name: config.modalignore_name.clone(),
        base_image: config.base_image.clone(),
        timeout_secs: config.timeout_secs,
        install_rust: config.install_rust,
        image_steps: clone_steps(&config.image_steps),
        cache: config.cache,
        options,
    }
}

/// Resolves the run function of `entrypoint` for its effective options: the
/// id memoized for the same entrypoint and options, with nothing sent; else
/// [`ensure_function`] under the run configuration with those options, its id
/// memoized on success. With it, the invocation deadline: the effective
/// timeout plus two minutes.
pub fn resolve_function<C: ControlPlane>(
    cp: &mut C,
    memo: &mut Vec<(String, FunctionOptions, String)>,
    app_id: &str,
    app_name: &str,
    entrypoint: &str,
    configs: &Vec<(String, FunctionOptions)>,
    config: &crate::remote::RemoteConfig,
    cache_target: bool,
    run_wrapper_src: &str,
    deploy_wrapper_src: &str,
    published: &mut Published,
) -> (r: Result<(String, u64), Error>)
    ensures
        exists|o: FunctionOptions| #[trigger] run_options(configs@, entrypoint@, *config, o) && {
            &&& r matches Ok(p) ==> p.1 == o.timeout_secs->0 + 120
            &&& memo_lookup(old(memo)@, entrypoint@, o) matches Some(id) ==> {
                &&& r matches Ok(p) && p.0@ == id
                &&& final(memo)@ == old(memo)@
                &&& *final(cp) == *old(cp)
                &&& *final(published) == *old(published)
            }
            &&& memo_lookup(old(memo)@, entrypoint@, o) is None ==> {
                &&& r is Err ==> final(memo)@ == old(memo)@
                &&& r matches Ok(p) ==> final(memo)@.len() == old(memo)@.len() + 1 && final(memo)@.subrange(0, old(memo)@.len() as int)
                    == old(memo)@ && final(memo)@.last().0@ == entrypoint@ && crate::config::same_options(final(memo)@.last().1, o)
                    && final(memo)@.last().2@ == p.0@
                &&& r matches Ok(p) ==> log_map(final(published).function_ids@).contains_key(spec_object_tag(entrypoint@))
                    && p.0@ == log_map(final(published).function_ids@)[spec_object_tag(entrypoint@)]
                &&& exists|i: ProvisionInputs| #[trigger]
                    run_inputs_of(
                        app_name@,
                        app_id@,
                        entrypoint@,
                        crate::remote::RemoteConfig { options: o, ..*config },
                        cache_target,
                        run_wrapper_src@,
                        deploy_wrapper_src@,
                        i,
                    ) && (r is Ok ==> provisioned_over(run_boundary_spec(), i, *old(cp), *final(cp), false)) && (old(
                        cp,
                    ).infallible() ==> (r is Ok <==> !run_collides(i)))
            }
        },
        final(cp).infallible() == old(cp).infallible(),
{
    let mut options = crate::config::options_for(configs, entrypoint);
    let cache = match options.cache {
        Some(c) => c,
        None => config.cache,
    };
    let timeout = match options.timeout_secs {
        Some(t) => t,
        None => config.timeout_secs,
    };
    options.cache = Some(cache);
    options.timeout_secs = Some(timeout);
    let ghost o = options;
    proof {
        assert(run_options(configs@, entrypoint@, *config, o));
    }
    let deadline: u64 = timeout as u64 + 120;
    match lookup_memo(memo, entrypoint, &options) {
        Some(id) => {
            return Ok((id, deadline));
        },
        None => {},
    }
    let key = options.duplicate();
    let run_config = with_options(config, options);
    let ghost spec_config = crate::remote::RemoteConfig { options: o, ..*config };
    let id = match ensure_function(
        cp,
        app_id,
        app_name,
        entrypoint,
        &run_config,
        cache_target,
        run_wrapper_src,
        deploy_wrapper_src,
        published,
    ) {
        Ok(id) => id,
        Err(e) => {
            proof {
                let i = choose|i: ProvisionInputs| #[trigger]
                    run_inputs_of(app_name@, app_id@, entrypoint@, run_config, cache_target, run_wrapper_src@, deploy_wrapper_src@, i)
                    && (old(cp).infallible() ==> (false <==> !run_collides(i)));
                assert(run_inputs_of(app_name@, app_id@, entrypoint@, spec_config, cache_target, run_wrapper_src@, deploy_wrapper_src@, i));
            }
            return Err(e);
        },
    };
    proof {
        let i = choose|i: ProvisionInputs| #[trigger]
            run_inputs_of(app_name@, app_id@, entrypoint@, run_config, cache_target, run_wrapper_src@, deploy_wrapper_src@, i)
            && provisioned_over(run_boundary_spec(), i, *old(cp), *cp, false) && (old(cp).infallible() ==> (true <==> !run_collides(i)));
        assert(run_inputs_of(app_name@, app_id@, entrypoint@, spec_config, cache_target, run_wrapper_src@, deploy_wrapper_src@, i));
    }
    let ghost before = memo@;
    memo.push((String::from_str(entrypoint), key, id.clone()));
    proof {
        assert(memo@.subrange(0, before.len() as int) =~= before);
    }
    Ok((id, deadline))
}

/// The provisioning inputs of a deploy, prepared as the deploy path does: the
/// first declared entrypoint image folded into the shared image, one function
/// planned per entrypoint (or the fallback), the FastAPI step added when some
/// planned function is an endpoint, then the deploy's inputs.
pub fn prepare_deploy(
    config: crate::deploy::DeployConfig,
    entrypoints: &Vec<DeployEntrypoint>,
    image: Option<ImageOptions>,
    dep_prebuild: bool,
    run_wrapper_src: &str,
    deploy_wrapper_src: &str,
) -> (r: ProvisionInputs)
    ensures
        deploy_planned(config, entrypoints@, r.entrypoints@),
        deploy_image_prepared(config, image, r),
        r.app_name@ == config.app_name@,
        r.app_id is None,
        r.source.local_root@ == config.local_root@,
        r.source.package@ == config.package@,
        r.source.use_cargo_scoping == config.use_cargo_scoping,
        r.source.modalignore_name@ == config.modalignore_name@,
        r.source.remote_src@ == DEPLOY_SRC@,
        !r.cache,
        r.cache_target,
        r.snapshot_best_effort == config.snapshot_best_effort,
        r.dep_prebuild == dep_prebuild,
        r.run_wrapper_src@ == run_wrapper_src@,
        r.deploy_wrapper_src@ == deploy_wrapper_src@,
        deploy_inputs_of(config, entrypoints@, image, dep_prebuild, run_wrapper_src@, deploy_wrapper_src@, r),
{
    let ghost c0 = config;
    let ghost img0 = image;
    let mut cfg = config.with_function_image(image);
    let ghost f = folded_image(c0.base_image@, c0.install_rust, steps_view(c0.image_steps@), img0);
    proof {
        assert(cfg.base_image@ == f.0 && cfg.install_rust == f.1 && steps_view(cfg.image_steps@) == f.2);
        assert(cfg.options == c0.options && cfg.timeout_secs == c0.timeout_secs);
    }
    let plan = deploy_plan(&cfg, entrypoints);
    let mut opts: Vec<FunctionOptions> = Vec::new();
    let mut i: usize = 0;
    while i < plan.len()
        invariant
            i <= plan@.len(),
            opts@.len() == i,
            forall|k: int| 0 <= k < i ==> crate::config::same_options(#[trigger] opts@[k], plan@[k].options),
        decreases plan@.len() - i,
    {
        opts.push(plan[i].options.duplicate());
        i = i + 1;
    }
    proof {
        if any_endpoint(opts@) {
            let k = choose|k: int| 0 <= k < opts@.len() && (#[trigger] opts@[k]).webhook_method is Some;
            assert(crate::config::same_options(opts@[k], plan@[k].options));
            assert(plan@[k].options.webhook_method is Some);
        }
        if plans_endpoint(plan@) {
            let k = choose|k: int| 0 <= k < plan@.len() && (#[trigger] plan@[k]).options.webhook_method is Some;
            assert(crate::config::same_options(opts@[k], plan@[k].options));
            assert(opts@[k].webhook_method is Some);
        }
        assert(any_endpoint(opts@) == plans_endpoint(plan@));
    }
    append_endpoint_pip_step(&mut cfg.image_steps, &opts);
    deploy_inputs(&cfg, plan, dep_prebuild, run_wrapper_src, deploy_wrapper_src)
}

pub(crate) fn clone_steps(v: &Vec<ImageStep>) -> (r: Vec<ImageStep>)
    ensures
        steps_view(r@) == steps_view(v@),
{
    let mut r: Vec<ImageStep> = Vec::new();
    let mut i: usize = 0;
    while i < v.len()
        invariant
            i <= v@.len(),
            steps_view(r@) == steps_view(v@).subrange(0, i as int),
        decreases v@.len() - i,
    {
        let ghost before = steps_view(r@);
        r.push(clone_step(&v[i]));
        proof {
            assert(steps_view(r@) =~= before.push(step_view(v@[i as int])));
            assert(steps_view(v@).subrange(0, i + 1) =~= steps_view(v@).subrange(0, i as int).push(step_view(v@[i as int])));
        }
        i = i + 1;
    }
    proof {
        assert(steps_view(v@).subrange(0, v@.len() as int) =~= steps_view(v@));
    }
    r
}

/// `i` is the provisioning inputs of a run for one entrypoint: the run
/// configuration's build fields, the connect-time app id, the entrypoint with
/// its own options and timeout (else the run's), and its cache choice (else the run's).
pub open spec fn run_inputs_of(
    app_name: Seq<char>,
    app_id: Seq<char>,
    entrypoint: Seq<char>,
    config: crate::remote::RemoteConfig,
    cache_target: bool,
    run_wrapper_src: Seq<char>,
    deploy_wrapper_src: Seq<char>,
    i: ProvisionInputs,
) -> bool {
    &&& i.app_name@ == app_name
    &&& i.app_id matches Some(a) && a@ == app_id
    &&& i.source.local_root@ == config.local_root@
    &&& i.source.package@ == config.package@
    &&& i.source.use_cargo_scoping == config.use_cargo_scoping
    &&& i.source.modalignore_name@ == config.modalignore_name@
    &&& i.source.remote_src@ == config.remote_src@
    &&& i.base_image@ == config.base_image@
    &&& i.install_rust == config.install_rust
    &&& steps_view(i.image_steps@) == steps_view(config.image_steps@)
    &&& i.cache == match config.options.cache {
        Some(c) => c,
        None => config.cache,
    }
    &&& i.cache_target == cache_target
    &&& !i.snapshot_best_effort
    &&& !i.dep_prebuild
    &&& i.run_wrapper_src@ == run_wrapper_src
    &&& i.deploy_wrapper_src@ == deploy_wrapper_src
    &&& i.entrypoints@.len() == 1
    &&& i.entrypoints@[0].name@ == entrypoint
    &&& crate::config::same_options(i.entrypoints@[0].options, config.options)
    &&& i.entrypoints@[0].timeout_secs == match config.options.timeout_secs {
        Some(t) => t,
        None => config.timeout_secs,
    }
}

/// The provisioning inputs of a run for one entrypoint: the run configuration's
/// build fields, the connect-time app id, the entrypoint with its own timeout
/// (else the run's), and its cache choice (else the run's).
pub fn run_inputs(
    app_name: &str,
    app_id: &str,
    entrypoint: &str,
    config: &crate::remote::RemoteConfig,
    cache_target: bool,
    run_wrapper_src: &str,
    deploy_wrapper_src: &str,
) -> (r: ProvisionInputs)
    ensures
        r.app_name@ == app_name@,
        r.app_id matches Some(a) && a@ == app_id@,
        r.source.package@ == config.package@,
        r.source.remote_src@ == config.remote_src@,
        r.base_image@ == config.base_image@,
        r.install_rust == config.install_rust,
        steps_view(r.image_steps@) == steps_view(config.image_steps@),
        r.cache == match config.options.cache {
            Some(c) => c,
            None => config.cache,
        },
        r.cache_target == cache_target,
        !r.snapshot_best_effort,
        !r.dep_prebuild,
        r.entrypoints@.len() == 1,
        r.entrypoints@[0].name@ == entrypoint@,
        crate::config::same_options(r.entrypoints@[0].options, config.options),
        r.entrypoints@[0].timeout_secs == match config.options.timeout_secs {
            Some(t) => t,
            None => config.timeout_secs,
        },
        run_inputs_of(app_name@, app_id@, entrypoint@, *config, cache_target, run_wrapper_src@, deploy_wrapper_src@, r),
{
    let timeout = match config.options.timeout_secs {
        Some(t) => t,
        None => config.timeout_secs,
    };
    let cache = match config.options.cache {
        Some(c) => c,
        None => config.cache,
    };
    let mut entrypoints: Vec<Entrypoint> = Vec::new();
    entrypoints.push(Entrypoint { name: String::from_str(entrypoint), options: config.options.duplicate(), timeout_secs: timeout });
    ProvisionInputs {
        app_name: String::from_str(app_name),
        app_id: Some(String::from_str(app_id)),
        source: SourceInputs {
            local_root: config.local_root.clone(),
            package: config.package.clone(),
            use_cargo_scoping: config.use_cargo_scoping,
            modalignore_name: config.modalignore_name.clone(),
            remote_src: config.remote_src.clone(),
        },
        base_image: config.base_image.clone(),
        install_rust: config.install_rust,
        image_steps: clone_steps(&config.image_steps),
        cache,
        cache_target,
        snapshot_best_effort: false,
        dep_prebuild: false,
        run_wrapper_src: String::from_str(run_wrapper_src),
        deploy_wrapper_src: String::from_str(deploy_wrapper_src),
        entrypoints,
    }
}

/// The value the last entry under `key` holds in a log (`None` when absent).
pub fn log_lookup(v: &Vec<(String, String)>, key: &str) -> (r: Option<String>)
    ensures
        r is None <==> !log_map(v@).contains_key(key@),
        r matches Some(x) ==> log_map(v@)[key@] == x@,
{
    let mut k = v.len();
    proof {
        assert(v@.subrange(0, k as int) =~= v@);
    }
    while k > 0
        invariant
            k <= v@.len(),
            forall|j: int| k <= j < v@.len() ==> (#[trigger] v@[j]).0@ != key@,
            log_map(v@).contains_key(key@) == log_map(v@.subrange(0, k as int)).contains_key(key@),
            log_map(v@).contains_key(key@) ==> log_map(v@)[key@] == log_map(v@.subrange(0, k as int))[key@],
        decreases k,
    {
        let ghost pre = v@.subrange(0, k as int);
        proof {
            assert(pre.drop_last() =~= v@.subrange(0, k - 1));
        }
        if str_eq(v[k - 1].0.as_str(), key) {
            return Some(v[k - 1].1.clone());
        }
        k = k - 1;
    }
    proof {
        assert(v@.subrange(0, 0) =~= Seq::<(String, String)>::empty());
    }
    None
}

/// The `(name, url)` pairs of the first `k` planned entrypoints whose object
/// tag has a URL in `urls`.
pub open spec fn urls_upto(plan: Seq<Entrypoint>, urls: Map<Seq<char>, Seq<char>>, k: nat) -> Seq<(Seq<char>, Seq<char>)>
    decreases k,
{
    if k == 0 {
        Seq::empty()
    } else {
        let e = plan[k - 1];
        let tag = spec_object_tag(e.name@);
        urls_upto(plan, urls, (k - 1) as nat) + if urls.contains_key(tag) {
            seq![(e.name@, urls[tag])]
        } else {
            Seq::empty()
        }
    }
}

/// The served endpoint URLs of a deploy, by entrypoint name, in plan order.
pub fn deployed_endpoint_urls(plan: &Vec<Entrypoint>, published: &Published) -> (r: Vec<(String, String)>)
    ensures
        pair_views(r@) == urls_upto(plan@, log_map(published.endpoint_urls@), plan@.len()),
{
    let mut r: Vec<(String, String)> = Vec::new();
    let mut i: usize = 0;
    while i < plan.len()
        invariant
            i <= plan@.len(),
            pair_views(r@) == urls_upto(plan@, log_map(published.endpoint_urls@), i as nat),
        decreases plan@.len() - i,
    {
        let tag = crate::remote::sanitize_object_tag(plan[i].name.as_str());
        let ghost before = pair_views(r@);
        match log_lookup(&published.endpoint_urls, tag.as_str()) {
            Some(url) => {
                r.push((plan[i].name.clone(), url));
            },
            None => {},
        }
        proof {
            assert(pair_views(r@) =~= urls_upto(plan@, log_map(published.endpoint_urls@), (i + 1) as nat));
        }
        i = i + 1;
    }
    r
}


/// The invokable function id provisioning recorded for `entrypoint`'s object
/// tag, or a configuration error naming the entrypoint.
pub fn function_id_for(published: &Published, entrypoint: &str) -> (r: Result<String, Error>)
    ensures
        r is Ok <==> log_map(published.function_ids@).contains_key(spec_object_tag(entrypoint@)),
        r matches Ok(id) ==> id@ == log_map(published.function_ids@)[spec_object_tag(entrypoint@)],
        r matches Err(e) ==> e matches Error::Config(m) && m@ == "provision did not yield a function id for "@
            + crate::dump::debug_str(entrypoint@),
{
    let tag = crate::remote::sanitize_object_tag(entrypoint);
    match log_lookup(&published.function_ids, tag.as_str()) {
        Some(id) => Ok(id),
        None => {
            let mut m = String::new();
            push_str(&mut m, "provision did not yield a function id for ");
            let q = crate::dump::debug_quote(entrypoint);
            push_str(&mut m, q.as_str());
            Err(Error::Config(m))
        },
    }
}
} // verus!
