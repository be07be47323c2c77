//! The deploy path's configuration and the wrapper source baked into the
//! deploy image: the static source plus one generated adapter line per web
//! endpoint, and the FastAPI step an endpoint deploy needs.

use vstd::prelude::*;
use crate::config::{FunctionOptions, by_name, lists_map, named_map, names_sorted, pair_views, str_views};
use crate::control_plane::{
    Call, ControlPlane, DeployEntrypoint, Ledger, Entrypoint, ProvisionInputs, Provisioned, Published, deploy_boundary, deploy_boundary_spec,
    deploy_inputs_of, deployed_endpoint_urls, log_map, prepare_deploy,
    provision, provisioned_over, published_after, published_view, urls_upto,
};
use crate::error::Error;
use crate::path::{str_eq, views};
use crate::remote::{
    ImageOptions, ImageStep, RemoteConfig, apply_function_image, sanitize_object_tag, fold_fields, spec_web_endpoint_attr, step_view,
    steps_view, web_endpoint_attr,
};
use crate::text::{lower, push_str, trim, trimmed_lower};

verus! {

/// The importable module name of the baked deploy wrapper.
pub const DEPLOY_WRAPPER_MODULE: &'static str = "modal_rust_deploy_wrapper";
/// The shared callable within the deploy wrapper module.
pub const DEPLOY_WRAPPER_CALLABLE: &'static str = "handler";
/// Where the source context lands inside the deploy image.
pub const DEPLOY_SRC: &'static str = "/app/src";
/// The fixed path the built runner is baked to.
pub const DEPLOY_RUNNER: &'static str = "/app/modal_runner";
/// The default stable deploy app name.
pub const DEFAULT_DEPLOY_APP: &'static str = "modal-rust-add-deploy";
/// The deploy function timeout in seconds.
pub const DEPLOY_TIMEOUT_SECS: u32 = 300;
/// The pip requirement an endpoint deploy installs.
pub const ENDPOINT_FASTAPI_REQUIREMENT: &'static str = "fastapi[standard]";

/// One adapter line: `web_<sanitized> = _make_web_handler("<entrypoint>")`.
pub open spec fn adapter_line(ep: Seq<char>) -> Seq<char> {
    spec_web_endpoint_attr(ep) + " = _make_web_handler(\""@ + ep + "\")\n"@
}

/// The adapter lines of the first `k` endpoints.
pub open spec fn adapter_lines_upto(eps: Seq<Seq<char>>, k: nat) -> Seq<char>
    decreases k,
{
    if k == 0 {
        Seq::empty()
    } else {
        adapter_lines_upto(eps, (k - 1) as nat) + adapter_line(eps[k - 1])
    }
}

/// The generated adapter suffix: one line per endpoint entrypoint, in order.
pub fn web_adapter_suffix(endpoint_entrypoints: &[&str]) -> (r: String)
    ensures
        r@ == adapter_lines_upto(str_views(endpoint_entrypoints@), endpoint_entrypoints@.len()),
{
    let mut r = String::new();
    let mut i: usize = 0;
    while i < endpoint_entrypoints.len()
        invariant
            i <= endpoint_entrypoints@.len(),
            r@ == adapter_lines_upto(str_views(endpoint_entrypoints@), i as nat),
        decreases endpoint_entrypoints@.len() - i,
    {
        let ep = endpoint_entrypoints[i];
        let attr = web_endpoint_attr(ep);
        push_str(&mut r, attr.as_str());
        push_str(&mut r, " = _make_web_handler(\"");
        push_str(&mut r, ep);
        push_str(&mut r, "\")\n");
        proof {
            assert(r@ =~= adapter_lines_upto(str_views(endpoint_entrypoints@), (i + 1) as nat));
        }
        i = i + 1;
    }
    r
}

/// The deploy wrapper source baked into the image: the static source alone
/// when there is no endpoint, else the static source, a newline and the
/// adapter suffix.
pub open spec fn spec_baked_wrapper(static_src: Seq<char>, eps: Seq<Seq<char>>) -> Seq<char> {
    if eps.len() == 0 {
        static_src
    } else {
        static_src + "\n"@ + adapter_lines_upto(eps, eps.len())
    }
}

/// The baked wrapper always starts with the static source, unmodified; with no
/// endpoint it is exactly the static source.
pub proof fn lemma_baked_wrapper_keeps_the_static_source(static_src: Seq<char>, eps: Seq<Seq<char>>)
    ensures
        spec_baked_wrapper(static_src, eps).len() >= static_src.len(),
        spec_baked_wrapper(static_src, eps).subrange(0, static_src.len() as int) == static_src,
        eps.len() == 0 ==> spec_baked_wrapper(static_src, eps) == static_src,
{
    let b = spec_baked_wrapper(static_src, eps);
    assert(b.subrange(0, static_src.len() as int) =~= static_src);
}

/// The deploy wrapper source to bake over the static wrapper text `static_src`.
pub fn baked_deploy_wrapper_src(static_src: &str, endpoint_entrypoints: &[&str]) -> (r: String)
    ensures
        r@ == spec_baked_wrapper(static_src@, str_views(endpoint_entrypoints@)),
{
    let mut r = String::new();
    push_str(&mut r, static_src);
    if endpoint_entrypoints.len() > 0 {
        push_str(&mut r, "\n");
        let suffix = web_adapter_suffix(endpoint_entrypoints);
        push_str(&mut r, suffix.as_str());
    }
    proof {
        assert(r@ =~= spec_baked_wrapper(static_src@, str_views(endpoint_entrypoints@)));
    }
    r
}

/// All knobs of the deploy path.
#[derive(Debug, Clone)]
pub struct DeployConfig {
    /// The stable deploy app name.
    pub app_name: String,
    /// The directory uploaded as the image build context.
    pub local_root: String,
    /// The cargo package owning the entrypoints.
    pub package: String,
    /// Scope the upload to the package's dependency closure.
    pub use_cargo_scoping: bool,
    /// The highest-precedence ignore filename.
    pub modalignore_name: String,
    /// The base registry tag of the deploy image.
    pub base_image: String,
    /// The function timeout in seconds.
    pub timeout_secs: u32,
    /// Install the Rust toolchain into the base layer.
    pub install_rust: bool,
    /// Ordered image-builder steps of the base layer.
    pub image_steps: Vec<ImageStep>,
    /// Degrade a failed snapshot prime to lazy initialization.
    pub snapshot_best_effort: bool,
    /// Owned options of the fallback function.
    pub options: FunctionOptions,
}

impl DeployConfig {
    /// A deploy configuration named `app_name` over the run path's defaults
    /// `base`, with the deploy timeout and default options.
    pub fn for_app(app_name: String, base: RemoteConfig, snapshot_best_effort: bool) -> (r: DeployConfig)
        ensures
            r.app_name == app_name,
            r.local_root == base.local_root,
            r.package == base.package,
            r.use_cargo_scoping == base.use_cargo_scoping,
            r.modalignore_name == base.modalignore_name,
            r.base_image == base.base_image,
            r.timeout_secs == DEPLOY_TIMEOUT_SECS,
            r.install_rust == base.install_rust,
            r.image_steps == base.image_steps,
            r.snapshot_best_effort == snapshot_best_effort,
            crate::config::is_default_options(r.options),
    {
        DeployConfig {
            app_name,
            local_root: base.local_root,
            package: base.package,
            use_cargo_scoping: base.use_cargo_scoping,
            modalignore_name: base.modalignore_name,
            base_image: base.base_image,
            timeout_secs: DEPLOY_TIMEOUT_SECS,
            install_rust: base.install_rust,
            image_steps: base.image_steps,
            snapshot_best_effort,
            options: FunctionOptions::default_options(),
        }
    }

    /// Folds the first entrypoint image declaration (`None`: none declares one)
    /// into the shared deploy image: its steps go first, its base and toolchain
    /// switch override; nothing else changes.
    pub fn with_function_image(self, image: Option<ImageOptions>) -> (r: DeployConfig)
        ensures
            image is None ==> r == self,
            image matches Some(img) ==> fold_fields(
                self.base_image@,
                self.install_rust,
                steps_view(self.image_steps@),
                img,
                r.base_image@,
                r.install_rust,
                steps_view(r.image_steps@),
            ) && r == (DeployConfig {
                base_image: r.base_image,
                install_rust: r.install_rust,
                image_steps: r.image_steps,
                ..self
            }),
    {
        match image {
            None => self,
            Some(img) => {
                let mut d = self;
                let view = RemoteConfig {
                    local_root: String::new(),
                    package: String::new(),
                    remote_src: String::new(),
                    use_cargo_scoping: true,
                    modalignore_name: String::new(),
                    base_image: d.base_image,
                    timeout_secs: 0,
                    install_rust: d.install_rust,
                    image_steps: d.image_steps,
                    cache: false,
                    options: FunctionOptions::default_options(),
                };
                let folded = apply_function_image(view, Some(img));
                d.base_image = folded.base_image;
                d.install_rust = folded.install_rust;
                d.image_steps = folded.image_steps;
                d
            },
        }
    }
}


/// A character that ends a requirement's package name.
pub open spec fn name_stop(c: char) -> bool {
    c == '[' || c == '=' || c == '<' || c == '>' || c == '!' || c == '~' || c == ' ' || c == ';'
}

/// The index of the first name-ending character at or after `i` (or the length).
pub open spec fn name_end_from(p: Seq<char>, i: int) -> int
    decreases p.len() - i,
{
    if i < 0 || i >= p.len() {
        p.len() as int
    } else if name_stop(p[i]) {
        i
    } else {
        name_end_from(p, i + 1)
    }
}

/// A pip requirement names the package `fastapi` (any ASCII case), whatever
/// extras, version pins or markers follow the name.
pub open spec fn names_fastapi(p: Seq<char>) -> bool {
    lower(trim(p.subrange(0, name_end_from(p, 0)))) == "fastapi"@
}

/// A pip step that installs FastAPI.
pub open spec fn step_has_fastapi(s: ImageStep) -> bool {
    match s {
        ImageStep::Pip(v) => exists|j: int| 0 <= j < v@.len() && names_fastapi(#[trigger] v@[j]@),
        _ => false,
    }
}

/// Some pip step already installs FastAPI.
pub open spec fn pip_installs_fastapi(steps: Seq<ImageStep>) -> bool {
    exists|i: int| 0 <= i < steps.len() && step_has_fastapi(#[trigger] steps[i])
}

/// Some entrypoint is a web endpoint.
pub open spec fn any_endpoint(opts: Seq<FunctionOptions>) -> bool {
    exists|i: int| 0 <= i < opts.len() && (#[trigger] opts[i]).webhook_method is Some
}

/// A step, as plain values, that pip-installs FastAPI.
pub open spec fn view_has_fastapi(s: (int, Seq<Seq<char>>)) -> bool {
    s.0 == 1 && exists|j: int| 0 <= j < s.1.len() && names_fastapi(#[trigger] s.1[j])
}

/// The steps after the endpoint rule: with `web` (some function is an
/// endpoint) and no pip step installing FastAPI, `pip_install(["fastapi[standard]"])`
/// is appended; otherwise the steps stay as they are.
pub open spec fn with_endpoint_step(steps: Seq<(int, Seq<Seq<char>>)>, web: bool) -> Seq<(int, Seq<Seq<char>>)> {
    if web && !(exists|i: int| 0 <= i < steps.len() && view_has_fastapi(#[trigger] steps[i])) {
        steps.push((1int, seq![ENDPOINT_FASTAPI_REQUIREMENT@]))
    } else {
        steps
    }
}

proof fn lemma_fastapi_views(steps: Seq<ImageStep>)
    ensures
        pip_installs_fastapi(steps) == (exists|i: int| 0 <= i < steps_view(steps).len() && view_has_fastapi(#[trigger] steps_view(steps)[i])),
{
    if pip_installs_fastapi(steps) {
        let i = choose|i: int| 0 <= i < steps.len() && step_has_fastapi(#[trigger] steps[i]);
        match steps[i] {
            ImageStep::Pip(v) => {
                let j = choose|j: int| 0 <= j < v@.len() && names_fastapi(#[trigger] v@[j]@);
                assert(views(v@)[j] == v@[j]@);
                assert(steps_view(steps)[i] == step_view(steps[i]));
                assert(names_fastapi(steps_view(steps)[i].1[j]));
                assert(view_has_fastapi(steps_view(steps)[i]));
            },
            _ => {},
        }
    }
    if exists|i: int| 0 <= i < steps_view(steps).len() && view_has_fastapi(#[trigger] steps_view(steps)[i]) {
        let i = choose|i: int| 0 <= i < steps_view(steps).len() && view_has_fastapi(#[trigger] steps_view(steps)[i]);
        match steps[i] {
            ImageStep::Pip(v) => {
                let j = choose|j: int| 0 <= j < views(v@).len() && names_fastapi(#[trigger] views(v@)[j]);
                assert(names_fastapi(v@[j]@));
                assert(step_has_fastapi(steps[i]));
            },
            _ => {},
        }
    }
}

proof fn lemma_name_end(p: Seq<char>, i: int)
    requires
        0 <= i <= p.len(),
    ensures
        i <= name_end_from(p, i) <= p.len(),
    decreases p.len() - i,
{
    if i < p.len() && !name_stop(p[i]) {
        lemma_name_end(p, i + 1);
    }
}

fn requirement_names_fastapi(p: &str) -> (r: bool)
    ensures
        r == names_fastapi(p@),
{
    let n = p.unicode_len();
    let mut k: usize = 0;
    let mut name = String::new();
    proof {
        lemma_name_end(p@, 0);
    }
    let mut done = false;
    while k < n && !done
        invariant
            n == p@.len(),
            k <= n,
            name_end_from(p@, 0) == name_end_from(p@, k as int),
            name@ == p@.subrange(0, k as int),
            done ==> k < n && name_stop(p@[k as int]),
        decreases n - k + (if done { 0int } else { 1int }),
    {
        let c = p.get_char(k);
        if c == '[' || c == '=' || c == '<' || c == '>' || c == '!' || c == '~' || c == ' ' || c == ';' {
            done = true;
        } else {
            crate::text::push_char(&mut name, c);
            proof {
                assert(p@.subrange(0, k + 1) =~= p@.subrange(0, k as int).push(c));
            }
            k = k + 1;
        }
    }
    proof {
        assert(name_end_from(p@, k as int) == k);
    }
    let t = trimmed_lower(name.as_str());
    str_eq(t.as_str(), "fastapi")
}

fn step_installs_fastapi(step: &ImageStep) -> (r: bool)
    ensures
        r == step_has_fastapi(*step),
{
    match step {
        ImageStep::Pip(v) => {
            let mut j: usize = 0;
            while j < v.len()
                invariant
                    j <= v@.len(),
                    forall|t: int| 0 <= t < j ==> !names_fastapi(#[trigger] v@[t]@),
                    step_has_fastapi(*step) == (exists|t: int| 0 <= t < v@.len() && names_fastapi(#[trigger] v@[t]@)),
                decreases v@.len() - j,
            {
                if requirement_names_fastapi(v[j].as_str()) {
                    proof {
                        assert(names_fastapi(v@[j as int]@));
                    }
                    return true;
                }
                j = j + 1;
            }
            false
        },
        _ => false,
    }
}

/// Appends `pip_install(["fastapi[standard]"])` to the deploy base-layer steps
/// when some entrypoint is a web endpoint and no pip step of the user's already
/// installs FastAPI; otherwise the steps stay as they are.
pub fn append_endpoint_pip_step(image_steps: &mut Vec<ImageStep>, entrypoint_options: &Vec<FunctionOptions>)
    ensures
        steps_view(final(image_steps)@) == (if any_endpoint(entrypoint_options@) && !pip_installs_fastapi(
            old(image_steps)@,
        ) {
            steps_view(old(image_steps)@).push((1int, seq![ENDPOINT_FASTAPI_REQUIREMENT@]))
        } else {
            steps_view(old(image_steps)@)
        }),
        final(image_steps)@.len() >= old(image_steps)@.len(),
        forall|i: int| 0 <= i < old(image_steps)@.len() ==> final(image_steps)@[i] == old(image_steps)@[i],
        steps_view(final(image_steps)@) == with_endpoint_step(steps_view(old(image_steps)@), any_endpoint(entrypoint_options@)),
{
    proof {
        lemma_fastapi_views(image_steps@);
    }
    let mut any = false;
    let mut i: usize = 0;
    while i < entrypoint_options.len()
        invariant
            i <= entrypoint_options@.len(),
            any == exists|t: int| 0 <= t < i && (#[trigger] entrypoint_options@[t]).webhook_method is Some,
        decreases entrypoint_options@.len() - i,
    {
        if entrypoint_options[i].webhook_method.is_some() {
            any = true;
        }
        i = i + 1;
    }
    if !any {
        return;
    }
    let mut found = false;
    let mut i: usize = 0;
    while i < image_steps.len()
        invariant
            i <= image_steps@.len(),
            found == exists|t: int| 0 <= t < i && step_has_fastapi(#[trigger] image_steps@[t]),
        decreases image_steps@.len() - i,
    {
        if step_installs_fastapi(&image_steps[i]) {
            found = true;
        }
        i = i + 1;
    }
    if !found {
        let ghost before = steps_view(image_steps@);
        let mut items: Vec<String> = Vec::new();
        items.push(String::from_str(ENDPOINT_FASTAPI_REQUIREMENT));
        proof {
            assert(views(items@) =~= seq![ENDPOINT_FASTAPI_REQUIREMENT@]);
        }
        image_steps.push(ImageStep::Pip(items));
        proof {
            assert(steps_view(image_steps@) =~= before.push((1int, seq![ENDPOINT_FASTAPI_REQUIREMENT@])));
        }
    }
}
/// The map a list of `(name, value)` pairs stands for: a later pair under a
/// name replaces an earlier one.
pub open spec fn pairs_map(v: Seq<(Seq<char>, Seq<char>)>) -> Map<Seq<char>, Seq<char>>
    decreases v.len(),
{
    if v.len() == 0 {
        Map::empty()
    } else {
        pairs_map(v.drop_last()).insert(v.last().0, v.last().1)
    }
}

proof fn lemma_named_map_views(u: Seq<(String, String)>)
    ensures
        forall|k: Seq<char>| #[trigger] named_map(u).contains_key(k) <==> pairs_map(pair_views(u)).contains_key(k),
        forall|k: Seq<char>| #[trigger] named_map(u).contains_key(k) ==> named_map(u)[k]@ == pairs_map(pair_views(u))[k],
    decreases u.len(),
{
    if u.len() > 0 {
        let d = u.drop_last();
        lemma_named_map_views(d);
        let pv = pair_views(u);
        assert(pv.drop_last() =~= pair_views(d));
        assert(pv.last() == (u.last().0@, u.last().1@));
        assert(named_map(u) == named_map(d).insert(u.last().0@, u.last().1));
        assert(pairs_map(pv) == pairs_map(pair_views(d)).insert(u.last().0@, u.last().1@));
    } else {
        assert(pair_views(u).len() == 0);
    }
}

/// A deployed app: its stable name, the invokable function id of the first
/// planned function, the built image id, the app URL and the served endpoint
/// URLs by entrypoint name.
#[derive(Debug, Clone)]
pub struct DeployedApp {
    /// The stable deploy app name.
    pub name: String,
    /// The invokable function id.
    pub function_id: String,
    /// The built deploy image id.
    pub image_id: String,
    /// The deployed app URL (may be empty).
    pub url: String,
    /// Entrypoint name to served web URL, in name order, each name once.
    pub endpoint_urls: Vec<(String, String)>,
}

impl DeployedApp {
    /// What a finished deploy of `plan` under `app_name` reports: the served
    /// endpoint URLs mapped back from object tags to entrypoint names.
    pub fn from_provisioned(
        app_name: &str,
        function_id: String,
        provisioned: Provisioned,
        plan: &Vec<Entrypoint>,
        published: &Published,
    ) -> (r: DeployedApp)
        ensures
            r.name@ == app_name@,
            r.function_id == function_id,
            r.image_id == provisioned.image_id,
            r.url == provisioned.publish_url,
            names_sorted(r.endpoint_urls@),
            forall|i: int| 0 <= i < r.endpoint_urls@.len() ==> pairs_map(
                urls_upto(plan@, log_map(published.endpoint_urls@), plan@.len()),
            ).contains_key(#[trigger] r.endpoint_urls@[i].0@) && pairs_map(
                urls_upto(plan@, log_map(published.endpoint_urls@), plan@.len()),
            )[r.endpoint_urls@[i].0@] == r.endpoint_urls@[i].1@,
            forall|k: Seq<char>| #[trigger] pairs_map(urls_upto(plan@, log_map(published.endpoint_urls@), plan@.len())).contains_key(k)
                ==> exists|i: int| 0 <= i < r.endpoint_urls@.len() && #[trigger] r.endpoint_urls@[i].0@ == k,
    {
        let urls = deployed_endpoint_urls(plan, published);
        let ghost u = urls@;
        proof {
            lemma_named_map_views(u);
        }
        let sorted = by_name(urls);
        let r = DeployedApp {
            name: String::from_str(app_name),
            function_id,
            image_id: provisioned.image_id,
            url: provisioned.publish_url,
            endpoint_urls: sorted,
        };
        proof {
            let m = pairs_map(urls_upto(plan@, log_map(published.endpoint_urls@), plan@.len()));
            assert(m == pairs_map(pair_views(u)));
            assert forall|k: Seq<char>| #[trigger] m.contains_key(k) implies exists|i: int| 0 <= i < r.endpoint_urls@.len()
                && #[trigger] r.endpoint_urls@[i].0@ == k by {
                assert(named_map(u).contains_key(k));
                let i = choose|i: int| 0 <= i < r.endpoint_urls@.len() && #[trigger] r.endpoint_urls@[i].0@ == k;
                assert(r.endpoint_urls@[i].0@ == k);
            }
        }
        r
    }
}

/// `after` is `before` asked to look up the function under `object_tag` of
/// `app_name`, and nothing else: the lookup is the one call added, its answer
/// the one id added to the ledger.
pub open spec fn looked_up<C: ControlPlane>(before: C, after: C, app_name: Seq<char>, object_tag: Seq<char>) -> bool {
    &&& after.calls() == before.calls().push(Call::Lookup(app_name, object_tag))
    &&& after.created() == before.created()
    &&& after.built() == before.built()
    &&& after.handed() == before.handed()
    &&& after.ledger() == (Ledger { lookups: before.ledger().lookups.push(after.ledger().lookups.last()), ..before.ledger() })
}

/// `a` is what a deploy of `plan` under `app_name` reports, given its publish
/// record `p` (function ids, definition ids, endpoint URLs by key), the id the
/// lookup of the first planned function answered, the top image id and the
/// app URL: that function id, the image id, the URL, and the served endpoint
/// URLs by entrypoint name, in name order, each name once.
pub open spec fn deployed_as(
    a: DeployedApp,
    app_name: Seq<char>,
    plan: Seq<Entrypoint>,
    p: (Map<Seq<char>, Seq<char>>, Map<Seq<char>, Seq<char>>, Map<Seq<char>, Seq<char>>),
    function_id: Seq<char>,
    image_id: Seq<char>,
    url: Seq<char>,
) -> bool {
    let m = pairs_map(urls_upto(plan, p.2, plan.len()));
    &&& a.name@ == app_name
    &&& a.function_id@ == function_id
    &&& a.image_id@ == image_id
    &&& a.url@ == url
    &&& names_sorted(a.endpoint_urls@)
    &&& forall|i: int| 0 <= i < a.endpoint_urls@.len() ==> m.contains_key(#[trigger] a.endpoint_urls@[i].0@) && m[a.endpoint_urls@[i].0@]
        == a.endpoint_urls@[i].1@
    &&& forall|k: Seq<char>| #[trigger] m.contains_key(k) ==> exists|i: int| 0 <= i < a.endpoint_urls@.len() && #[trigger] a.endpoint_urls@[i].0@ == k
}

/// Deploys `entrypoints` over `cp`: the deploy's inputs prepared as
/// [`prepare_deploy`] does, one provisioning under the deploy boundary, then
/// a lookup of the first planned function by app name and object tag (which
/// shows the deployed app resolves by name, and fails the deploy where it
/// does not), and the app reported with the looked-up function id and the
/// served endpoint URLs. On an infallible plane it never fails.
pub fn deploy_function<C: ControlPlane>(
    cp: &mut C,
    config: DeployConfig,
    entrypoints: &Vec<DeployEntrypoint>,
    image: Option<ImageOptions>,
    dep_prebuild: bool,
    run_wrapper_src: &str,
    deploy_wrapper_src: &str,
) -> (r: Result<DeployedApp, Error>)
    ensures
        exists|i: ProvisionInputs| #[trigger]
            deploy_inputs_of(config, entrypoints@, image, dep_prebuild, run_wrapper_src@, deploy_wrapper_src@, i) && (r is Ok
                ==> exists|dep: bool, mid: C| #[trigger] provisioned_over(deploy_boundary_spec(), i, *old(cp), mid, dep)
                && looked_up(mid, *final(cp), config.app_name@, crate::remote::spec_object_tag(i.entrypoints@[0].name@))) && (
            r matches Ok(app) ==> deployed_as(
                app,
                config.app_name@,
                i.entrypoints@,
                published_after(
                    (Map::empty(), Map::empty(), Map::empty()),
                    i.entrypoints@,
                    final(cp).ledger().functions,
                    old(cp).ledger().functions.len() as int,
                    i.entrypoints@.len(),
                ),
                final(cp).ledger().lookups.last(),
                final(cp).ledger().images.last(),
                final(cp).ledger().urls.last(),
            )),
        old(cp).infallible() ==> r is Ok,
        r matches Ok(app) ==> app.name@ == config.app_name@,
        final(cp).infallible() == old(cp).infallible(),
{
    let app_name = config.app_name.clone();
    let inputs = prepare_deploy(config, entrypoints, image, dep_prebuild, run_wrapper_src, deploy_wrapper_src);
    let mut published = Published::new();
    let boundary = deploy_boundary();
    let provisioned = match provision(cp, &inputs, &boundary, &mut published) {
        Ok(p) => p,
        Err(e) => {
            return Err(e);
        },
    };
    let ghost mid = *cp;
    proof {
        assert(provisioned_over(deploy_boundary_spec(), inputs, *old(cp), mid, provisioned.dep_layer));
    }
    let first_tag = sanitize_object_tag(inputs.entrypoints[0].name.as_str());
    let function_id = match cp.function_from_name(app_name.as_str(), first_tag.as_str()) {
        Ok(id) => id,
        Err(e) => {
            return Err(e);
        },
    };
    proof {
        assert(looked_up(mid, *cp, app_name@, first_tag@));
    }
    let app = DeployedApp::from_provisioned(app_name.as_str(), function_id, provisioned, &inputs.entrypoints, &published);
    proof {
        assert(published_view(published) == published_after(
            (Map::empty(), Map::empty(), Map::empty()),
            inputs.entrypoints@,
            cp.ledger().functions,
            old(cp).ledger().functions.len() as int,
            inputs.entrypoints@.len(),
        ));
        assert(deployed_as(
            app,
            app_name@,
            inputs.entrypoints@,
            published_view(published),
            cp.ledger().lookups.last(),
            cp.ledger().images.last(),
            cp.ledger().urls.last(),
        ));
    }
    Ok(app)
}

} // verus!
