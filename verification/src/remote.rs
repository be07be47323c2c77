//! The run path's naming and configuration: object tags and in-container
//! callable names, image-builder steps, the run configuration and its folds,
//! and the run wrapper's baked configuration.

use vstd::prelude::*;
use crate::config::{FunctionOptions, opt_owned, str_views};
use crate::path::views;
use crate::env::RUN_CONFIG_JSON_B64;
use crate::text::{contains_sub, is_alnum, char_is_alnum, push_char, push_str};
use base64::Engine;
use serde_json::Value;

verus! {

/// The importable module name of the baked run wrapper.
pub const WRAPPER_MODULE: &'static str = "modal_rust_run_wrapper";
/// The in-container dispatch callable every entrypoint shares.
pub const WRAPPER_CALLABLE: &'static str = "handler";
/// Where the uploaded source mount lands in-container.
pub const REMOTE_SRC: &'static str = "/src";
/// The Python series provisioned with `add_python`.
pub const PYTHON_SERIES: &'static str = "3.12";
/// The run function timeout (covers the in-body build).
pub const REMOTE_TIMEOUT_SECS: u32 = 1800;
/// The last-resort package when neither the environment nor a registration names one.
pub const DEFAULT_PACKAGE: &'static str = "example-add";
/// The default base image (`rust:1-slim`).
pub const DEFAULT_BASE_IMAGE: &'static str = "rust:1-slim";
/// The default highest-precedence ignore filename.
pub const DEFAULT_MODALIGNORE_NAME: &'static str = ".modalignore";
/// The in-container mount path of the cargo-cache volume.
pub const CACHE_MOUNT: &'static str = "/cache";
/// The archive object persisted on the cache volume.
pub const CACHE_ARCHIVE_NAME: &'static str = "cache.tar.zst";
/// The deployment name of the cargo-cache volume.
pub const CACHE_VOLUME_NAME: &'static str = "modal-rust-cargo-cache";

/// A character an object tag keeps: ASCII alphanumeric, `_`, `-` or `.`.
pub open spec fn tag_char(c: char) -> bool {
    is_alnum(c) || c == '_' || c == '-' || c == '.'
}

/// A character a Python identifier part keeps: ASCII alphanumeric or `_`.
pub open spec fn ident_char(c: char) -> bool {
    is_alnum(c) || c == '_'
}

/// `s` with every character outside `keep` mapped to `_`.
pub open spec fn map_chars(s: Seq<char>, tag: bool) -> Seq<char> {
    s.map_values(|c: char| if (if tag { tag_char(c) } else { ident_char(c) }) { c } else { '_' })
}

fn mapped(s: &str, tag: bool) -> (r: String)
    ensures
        r@ == map_chars(s@, tag),
{
    let n = s.unicode_len();
    let mut r = String::new();
    let mut i: usize = 0;
    while i < n
        invariant
            n == s@.len(),
            i <= n,
            r@ == map_chars(s@.subrange(0, i as int), tag),
        decreases n - i,
    {
        let c = s.get_char(i);
        let keep = if tag {
            char_is_alnum(c) || c == '_' || c == '-' || c == '.'
        } else {
            char_is_alnum(c) || c == '_'
        };
        let d = if keep { c } else { '_' };
        push_char(&mut r, d);
        proof {
            assert(map_chars(s@.subrange(0, i + 1), tag) =~= map_chars(s@.subrange(0, i as int), tag).push(d));
        }
        i = i + 1;
    }
    proof {
        assert(s@.subrange(0, n as int) =~= s@);
    }
    r
}

/// The object tag of an entrypoint: its characters with every one outside
/// `[A-Za-z0-9_.-]` mapped to `_`; an empty name falls back to the shared callable.
pub open spec fn spec_object_tag(entrypoint: Seq<char>) -> Seq<char> {
    if entrypoint.len() == 0 {
        WRAPPER_CALLABLE@
    } else {
        map_chars(entrypoint, true)
    }
}

/// An object tag is never empty and keeps only `[A-Za-z0-9_.-]`; tagging a
/// tag changes nothing; and a non-empty name made only of those characters
/// (every Rust function name) is its own tag.
pub proof fn lemma_object_tag_shape(entrypoint: Seq<char>)
    ensures
        spec_object_tag(entrypoint).len() > 0,
        forall|i: int| 0 <= i < spec_object_tag(entrypoint).len() ==> tag_char(#[trigger] spec_object_tag(entrypoint)[i]),
        spec_object_tag(spec_object_tag(entrypoint)) == spec_object_tag(entrypoint),
        entrypoint.len() > 0 && (forall|i: int| 0 <= i < entrypoint.len() ==> tag_char(#[trigger] entrypoint[i]))
            ==> spec_object_tag(entrypoint) == entrypoint,
{
    reveal_strlit("handler");
    let t = spec_object_tag(entrypoint);
    if entrypoint.len() == 0 {
        assert(t == seq!['h', 'a', 'n', 'd', 'l', 'e', 'r']);
        assert forall|i: int| 0 <= i < t.len() implies tag_char(#[trigger] t[i]) by {
            assert(is_alnum(t[i]));
        }
    }
    assert(map_chars(t, true) =~= t);
    if entrypoint.len() > 0 && (forall|i: int| 0 <= i < entrypoint.len() ==> tag_char(#[trigger] entrypoint[i])) {
        assert(map_chars(entrypoint, true) =~= entrypoint);
    }
}

/// Sanitizes an entrypoint name into a Modal object tag.
pub fn sanitize_object_tag(entrypoint: &str) -> (r: String)
    ensures
        r@ == spec_object_tag(entrypoint@),
{
    let tag = mapped(entrypoint, true);
    if tag.unicode_len() == 0 {
        String::from_str(WRAPPER_CALLABLE)
    } else {
        tag
    }
}

/// `web_` followed by the entrypoint with every character outside
/// `[A-Za-z0-9_]` mapped to `_`.
pub open spec fn spec_web_endpoint_attr(entrypoint: Seq<char>) -> Seq<char> {
    "web_"@ + map_chars(entrypoint, false)
}

/// The per-endpoint adapter attribute of a web-endpoint entrypoint.
pub fn web_endpoint_attr(entrypoint: &str) -> (r: String)
    ensures
        r@ == spec_web_endpoint_attr(entrypoint@),
{
    let mut r = String::new();
    push_str(&mut r, "web_");
    let m = mapped(entrypoint, false);
    push_str(&mut r, m.as_str());
    r
}

/// `web_server_` followed by the entrypoint with every character outside
/// `[A-Za-z0-9_]` mapped to `_`.
pub open spec fn spec_web_server_attr(entrypoint: Seq<char>) -> Seq<char> {
    "web_server_"@ + map_chars(entrypoint, false)
}

/// The adapter and launcher attributes are Python identifiers: `web_` (or
/// `web_server_`) followed only by `[A-Za-z0-9_]`.
pub proof fn lemma_web_attrs_are_identifiers(entrypoint: Seq<char>)
    ensures
        spec_web_endpoint_attr(entrypoint).subrange(0, 4) == "web_"@,
        forall|i: int| 0 <= i < spec_web_endpoint_attr(entrypoint).len() ==> ident_char(#[trigger] spec_web_endpoint_attr(entrypoint)[i]),
        spec_web_server_attr(entrypoint).subrange(0, 11) == "web_server_"@,
        forall|i: int| 0 <= i < spec_web_server_attr(entrypoint).len() ==> ident_char(#[trigger] spec_web_server_attr(entrypoint)[i]),
{
    reveal_strlit("web_");
    reveal_strlit("web_server_");
    let a = spec_web_endpoint_attr(entrypoint);
    let b = spec_web_server_attr(entrypoint);
    let m = map_chars(entrypoint, false);
    assert(a.subrange(0, 4) =~= "web_"@);
    assert(b.subrange(0, 11) =~= "web_server_"@);
    assert forall|i: int| 0 <= i < a.len() implies ident_char(#[trigger] a[i]) by {
        if i < 4 {
            assert(a[i] == "web_"@[i]);
        } else {
            assert(a[i] == m[i - 4]);
        }
    }
    assert forall|i: int| 0 <= i < b.len() implies ident_char(#[trigger] b[i]) by {
        if i < 11 {
            assert(b[i] == "web_server_"@[i]);
        } else {
            assert(b[i] == m[i - 11]);
        }
    }
}

/// The launcher attribute of a web-server entrypoint.
pub fn web_server_attr(entrypoint: &str) -> (r: String)
    ensures
        r@ == spec_web_server_attr(entrypoint@),
{
    let mut r = String::new();
    push_str(&mut r, "web_server_");
    let m = mapped(entrypoint, false);
    push_str(&mut r, m.as_str());
    r
}


/// One image-builder step, rendered into the image in chain order.
#[derive(Debug, Clone, PartialEq, Eq)]
pub enum ImageStep {
    /// `apt_install([..])`: system packages.
    Apt(Vec<String>),
    /// `pip_install([..])`: Python packages.
    Pip(Vec<String>),
    /// `run_commands([..])`: shell commands run at image-build time.
    Run(Vec<String>),
}

/// A step as plain values: its kind (`0` apt, `1` pip, `2` run) and its items.
pub open spec fn step_view(s: ImageStep) -> (int, Seq<Seq<char>>) {
    match s {
        ImageStep::Apt(v) => (0, views(v@)),
        ImageStep::Pip(v) => (1, views(v@)),
        ImageStep::Run(v) => (2, views(v@)),
    }
}

/// The plain values of a list of steps.
pub open spec fn steps_view(v: Seq<ImageStep>) -> Seq<(int, Seq<Seq<char>>)> {
    v.map_values(|s: ImageStep| step_view(s))
}

fn owned_items(items: &[&str]) -> (r: Vec<String>)
    ensures
        views(r@) == str_views(items@),
{
    let mut r: Vec<String> = Vec::new();
    let mut i: usize = 0;
    while i < items.len()
        invariant
            i <= items@.len(),
            views(r@) == str_views(items@).subrange(0, i as int),
        decreases items@.len() - i,
    {
        let ghost before = views(r@);
        r.push(String::from_str(items[i]));
        proof {
            assert(views(r@) =~= before.push(items@[i as int]@));
            assert(str_views(items@).subrange(0, i + 1) =~= str_views(items@).subrange(0, i as int).push(
                items@[i as int]@,
            ));
        }
        i = i + 1;
    }
    proof {
        assert(str_views(items@).subrange(0, items@.len() as int) =~= str_views(items@));
    }
    r
}

impl ImageStep {
    /// `apt_install`: a system-package step.
    pub fn apt(packages: &[&str]) -> (r: ImageStep)
        ensures
            step_view(r) == (0int, str_views(packages@)),
    {
        ImageStep::Apt(owned_items(packages))
    }

    /// `pip_install`: a Python-package step.
    pub fn pip(packages: &[&str]) -> (r: ImageStep)
        ensures
            step_view(r) == (1int, str_views(packages@)),
    {
        ImageStep::Pip(owned_items(packages))
    }

    /// `run_commands`: a shell-command step.
    pub fn run(commands: &[&str]) -> (r: ImageStep)
        ensures
            step_view(r) == (2int, str_views(commands@)),
    {
        ImageStep::Run(owned_items(commands))
    }
}

/// A per-function `image = Image(..)` declaration: an optional base image, an
/// optional toolchain switch, and apt / pip / run items.
#[derive(Debug, Clone, Default, PartialEq, Eq)]
pub struct ImageOptions {
    /// Base image tag overriding the path default.
    pub base: Option<String>,
    /// Whether to install the Rust toolchain, overriding the path default.
    pub install_rust: Option<bool>,
    /// `apt_install` packages.
    pub apt: Vec<String>,
    /// `pip_install` packages.
    pub pip: Vec<String>,
    /// `run_commands` commands.
    pub run: Vec<String>,
}

/// The steps an image declaration contributes: apt, then pip, then run, each
/// only when its list is non-empty.
pub open spec fn spec_image_steps(o: ImageOptions) -> Seq<(int, Seq<Seq<char>>)> {
    (if o.apt@.len() > 0 { seq![(0int, views(o.apt@))] } else { Seq::empty() })
        + (if o.pip@.len() > 0 { seq![(1int, views(o.pip@))] } else { Seq::empty() })
        + (if o.run@.len() > 0 { seq![(2int, views(o.run@))] } else { Seq::empty() })
}

fn clone_items(v: &Vec<String>) -> (r: Vec<String>)
    ensures
        views(r@) == views(v@),
{
    let mut r: Vec<String> = Vec::new();
    let mut i: usize = 0;
    while i < v.len()
        invariant
            i <= v@.len(),
            views(r@) == views(v@).subrange(0, i as int),
        decreases v@.len() - i,
    {
        let ghost before = views(r@);
        r.push(v[i].clone());
        proof {
            assert(views(r@) =~= before.push(v@[i as int]@));
            assert(views(v@).subrange(0, i + 1) =~= views(v@).subrange(0, i as int).push(v@[i as int]@));
        }
        i = i + 1;
    }
    proof {
        assert(views(v@).subrange(0, v@.len() as int) =~= views(v@));
    }
    r
}

impl ImageOptions {
    /// The ordered steps this declaration contributes.
    pub fn steps(&self) -> (r: Vec<ImageStep>)
        ensures
            steps_view(r@) == spec_image_steps(*self),
    {
        let mut r: Vec<ImageStep> = Vec::new();
        if self.apt.len() > 0 {
            r.push(ImageStep::Apt(clone_items(&self.apt)));
        }
        let ghost a = steps_view(r@);
        if self.pip.len() > 0 {
            r.push(ImageStep::Pip(clone_items(&self.pip)));
        }
        let ghost b = steps_view(r@);
        if self.run.len() > 0 {
            r.push(ImageStep::Run(clone_items(&self.run)));
        }
        proof {
            assert(steps_view(r@) =~= spec_image_steps(*self));
        }
        r
    }
}

/// All knobs of the run path.
#[derive(Debug, Clone)]
pub struct RemoteConfig {
    /// The directory uploaded as the source (and the workspace root).
    pub local_root: String,
    /// The cargo package owning the entrypoints.
    pub package: String,
    /// Where the source mount lands in-container.
    pub remote_src: String,
    /// Scope the upload to the package's dependency closure.
    pub use_cargo_scoping: bool,
    /// The highest-precedence ignore filename.
    pub modalignore_name: String,
    /// The base registry tag of the run image.
    pub base_image: String,
    /// The function timeout in seconds.
    pub timeout_secs: u32,
    /// Install the Rust toolchain into the image.
    pub install_rust: bool,
    /// Ordered image-builder steps.
    pub image_steps: Vec<ImageStep>,
    /// The cargo build cache.
    pub cache: bool,
    /// Owned per-function options.
    pub options: FunctionOptions,
}

impl RemoteConfig {
    /// A run configuration over the discovered root, package, base image and
    /// switches, with the path defaults for everything else.
    pub fn new(local_root: String, package: String, base_image: String, install_rust: bool, cache: bool) -> (r: RemoteConfig)
        ensures
            r.local_root == local_root,
            r.package == package,
            r.remote_src@ == REMOTE_SRC@,
            r.use_cargo_scoping,
            r.modalignore_name@ == DEFAULT_MODALIGNORE_NAME@,
            r.base_image == base_image,
            r.timeout_secs == REMOTE_TIMEOUT_SECS,
            r.install_rust == install_rust,
            r.image_steps@.len() == 0,
            r.cache == cache,
    {
        RemoteConfig {
            local_root,
            package,
            remote_src: String::from_str(REMOTE_SRC),
            use_cargo_scoping: true,
            modalignore_name: String::from_str(DEFAULT_MODALIGNORE_NAME),
            base_image,
            timeout_secs: REMOTE_TIMEOUT_SECS,
            install_rust,
            image_steps: Vec::new(),
            cache,
            options: FunctionOptions::default_options(),
        }
    }

    /// Fills the package from the one a registration captured, unless the
    /// environment overrides it.
    pub fn with_detected_package(self, env_override: Option<&str>, detected: Option<&str>) -> (r: RemoteConfig)
        ensures
            r.package@ == (if env_override is None && detected is Some {
                detected->0@
            } else {
                self.package@
            }),
            r == (RemoteConfig { package: r.package, ..self }),
    {
        let mut c = self;
        if env_override.is_none() {
            match detected {
                Some(pkg) => {
                    c.package = String::from_str(pkg);
                },
                None => {},
            }
        }
        c
    }
}

/// The image fields after folding the declaration `img` over `(base, install,
/// steps)`: its steps go first, its base and toolchain switch override.
pub open spec fn fold_fields(
    base: Seq<char>,
    install: bool,
    steps: Seq<(int, Seq<Seq<char>>)>,
    img: ImageOptions,
    base2: Seq<char>,
    install2: bool,
    steps2: Seq<(int, Seq<Seq<char>>)>,
) -> bool {
    &&& steps2 == (if spec_image_steps(img).len() > 0 {
        spec_image_steps(img) + steps
    } else {
        steps
    })
    &&& base2 == (match img.base {
        Some(b) => b@,
        None => base,
    })
    &&& install2 == (match img.install_rust {
        Some(b) => b,
        None => install,
    })
}

/// The fold of an image declaration into a run configuration; nothing but the
/// image fields changes.
pub open spec fn image_folded(c: RemoteConfig, img: ImageOptions, r: RemoteConfig) -> bool {
    &&& fold_fields(
        c.base_image@,
        c.install_rust,
        steps_view(c.image_steps@),
        img,
        r.base_image@,
        r.install_rust,
        steps_view(r.image_steps@),
    )
    &&& r == (RemoteConfig { image_steps: r.image_steps, base_image: r.base_image, install_rust: r.install_rust, ..c })
}

/// Folds a function's own image declaration (`None`: no declaration) into the
/// run configuration.
pub fn apply_function_image(config: RemoteConfig, image: Option<ImageOptions>) -> (r: RemoteConfig)
    ensures
        image is None ==> r == config,
        image matches Some(img) ==> image_folded(config, img, r),
{
    match image {
        None => config,
        Some(img) => {
            let mut c = config;
            let mut steps = img.steps();
            if steps.len() > 0 {
                let ghost front = steps_view(steps@);
                let mut rest = Vec::new();
                std::mem::swap(&mut rest, &mut c.image_steps);
                let ghost tail = steps_view(rest@);
                steps.append(&mut rest);
                proof {
                    assert(steps_view(steps@) =~= front + tail);
                }
                c.image_steps = steps;
            }
            match img.base {
                Some(b) => {
                    c.base_image = b;
                },
                None => {},
            }
            match img.install_rust {
                Some(b) => {
                    c.install_rust = b;
                },
                None => {},
            }
            c
        },
    }
}


/// The lowercase hex digit of a nibble.
pub open spec fn hex_digit(n: nat) -> char {
    "0123456789abcdef"@[n as int]
}

/// How one character stands in a JSON string literal: the quote and the
/// backslash behind a backslash; backspace, tab, line feed, form feed and
/// carriage return as `\b`, `\t`, `\n`, `\f`, `\r`; any other control
/// character below U+0020 as `\u00` and two lowercase hex digits; every other
/// character as itself.
pub open spec fn json_escape(c: char) -> Seq<char> {
    let n = c as u32;
    if c == '"' {
        seq!['\\', '"']
    } else if c == '\\' {
        seq!['\\', '\\']
    } else if n == 8 {
        seq!['\\', 'b']
    } else if n == 9 {
        seq!['\\', 't']
    } else if n == 10 {
        seq!['\\', 'n']
    } else if n == 12 {
        seq!['\\', 'f']
    } else if n == 13 {
        seq!['\\', 'r']
    } else if n < 32 {
        seq!['\\', 'u', '0', '0', hex_digit((n / 16) as nat), hex_digit((n % 16) as nat)]
    } else {
        seq![c]
    }
}

/// The escaped characters of `s`, in order.
pub open spec fn json_escaped(s: Seq<char>) -> Seq<char>
    decreases s.len(),
{
    if s.len() == 0 {
        Seq::empty()
    } else {
        json_escaped(s.drop_last()) + json_escape(s.last())
    }
}

/// The JSON string literal of `s`: quoted, each character escaped.
pub open spec fn json_quoted(s: Seq<char>) -> Seq<char> {
    seq!['"'] + json_escaped(s) + seq!['"']
}

fn push_json_escape(out: &mut String, c: char)
    ensures
        final(out)@ == old(out)@ + json_escape(c),
{
    let ghost before = out@;
    let n = c as u32;
    if c == '"' || c == '\\' {
        push_char(out, '\\');
        push_char(out, c);
    } else if n == 8 {
        push_str(out, "\\b");
    } else if n == 9 {
        push_str(out, "\\t");
    } else if n == 10 {
        push_str(out, "\\n");
    } else if n == 12 {
        push_str(out, "\\f");
    } else if n == 13 {
        push_str(out, "\\r");
    } else if n < 32 {
        let hex = "0123456789abcdef";
        proof {
            reveal_strlit("0123456789abcdef");
        }
        push_str(out, "\\u00");
        push_char(out, hex.get_char((n / 16) as usize));
        push_char(out, hex.get_char((n % 16) as usize));
    } else {
        push_char(out, c);
    }
    proof {
        reveal_strlit("\\b");
        reveal_strlit("\\t");
        reveal_strlit("\\n");
        reveal_strlit("\\f");
        reveal_strlit("\\r");
        reveal_strlit("\\u00");
        assert(out@ =~= before + json_escape(c));
    }
}

/// The JSON string literal of `s`, as `serde_json` writes a string.
pub fn json_string(s: &str) -> (r: String)
    ensures
        r@ == json_quoted(s@),
{
    let mut out = String::new();
    push_char(&mut out, '"');
    let n = s.unicode_len();
    let mut i: usize = 0;
    while i < n
        invariant
            n == s@.len(),
            i <= n,
            out@ == seq!['"'] + json_escaped(s@.subrange(0, i as int)),
        decreases n - i,
    {
        let c = s.get_char(i);
        push_json_escape(&mut out, c);
        proof {
            assert(s@.subrange(0, i + 1).drop_last() =~= s@.subrange(0, i as int));
            assert(out@ =~= seq!['"'] + json_escaped(s@.subrange(0, i + 1)));
        }
        i = i + 1;
    }
    push_char(&mut out, '"');
    proof {
        assert(s@.subrange(0, n as int) =~= s@);
    }
    out
}

/// The standard-alphabet, padded base64 text of the UTF-8 bytes of `s`.
pub uninterp spec fn base64_of_text(s: Seq<char>) -> Seq<char>;

/// `base64::engine::general_purpose::STANDARD.encode` of the UTF-8 bytes of `s`.
#[verifier::external_body]
fn base64_text(s: &str) -> (r: String)
    ensures
        r@ == base64_of_text(s@),
{
    base64::engine::general_purpose::STANDARD.encode(s.as_bytes())
}

/// The run wrapper's configuration as compact JSON, fields in order.
pub open spec fn run_wrapper_config_json(package: Seq<char>, cache: bool, remote_src: Seq<char>) -> Seq<char> {
    "{\"package\":"@ + json_quoted(package) + ",\"cache\":"@ + (if cache {
        "true"@
    } else {
        "false"@
    }) + ",\"remote_src\":"@ + json_quoted(remote_src) + ",\"cache_mount\":"@ + json_quoted(
        CACHE_MOUNT@,
    ) + ",\"cache_archive_name\":"@ + json_quoted(CACHE_ARCHIVE_NAME@) + "}"@
}

/// The dockerfile `ENV` command carrying the wrapper configuration, base64-encoded.
pub open spec fn spec_run_wrapper_config_env(package: Seq<char>, cache: bool, remote_src: Seq<char>) -> Seq<char> {
    "ENV "@ + RUN_CONFIG_JSON_B64@ + "="@ + base64_of_text(run_wrapper_config_json(package, cache, remote_src))
}

/// `ENV MODAL_RUST_RUN_CONFIG_JSON_B64=<base64 of the JSON configuration>`.
pub fn run_wrapper_config_env(package: &str, cache: bool, remote_src: &str) -> (r: String)
    ensures
        r@ == spec_run_wrapper_config_env(package@, cache, remote_src@),
{
    let mut json = String::new();
    push_str(&mut json, "{\"package\":");
    let q = json_string(package);
    push_str(&mut json, q.as_str());
    push_str(&mut json, ",\"cache\":");
    if cache {
        push_str(&mut json, "true");
    } else {
        push_str(&mut json, "false");
    }
    push_str(&mut json, ",\"remote_src\":");
    let q = json_string(remote_src);
    push_str(&mut json, q.as_str());
    push_str(&mut json, ",\"cache_mount\":");
    let q = json_string(CACHE_MOUNT);
    push_str(&mut json, q.as_str());
    push_str(&mut json, ",\"cache_archive_name\":");
    let q = json_string(CACHE_ARCHIVE_NAME);
    push_str(&mut json, q.as_str());
    push_str(&mut json, "}");
    proof {
        assert(json@ =~= run_wrapper_config_json(package@, cache, remote_src@));
    }
    let encoded = base64_text(json.as_str());
    let mut r = String::new();
    push_str(&mut r, "ENV ");
    push_str(&mut r, RUN_CONFIG_JSON_B64);
    push_str(&mut r, "=");
    push_str(&mut r, encoded.as_str());
    r
}
/// The source directory to upload: the directory the environment names; else
/// the nearest directory (from the working directory up, `ancestors` in that
/// order with the text of its `Cargo.toml` when it has one) whose manifest
/// mentions `[workspace]`; else the nearest with a manifest; else `cwd`.
pub open spec fn spec_local_root(env_dir: Option<Seq<char>>, ancestors: Seq<(Seq<char>, Option<Seq<char>>)>, cwd: Seq<char>) -> Seq<char> {
    match env_dir {
        Some(d) => d,
        None => match first_workspace(ancestors) {
            Some(d) => d,
            None => match first_manifest(ancestors) {
                Some(d) => d,
                None => cwd,
            },
        },
    }
}

/// The first directory whose manifest mentions `[workspace]`.
pub open spec fn first_workspace(a: Seq<(Seq<char>, Option<Seq<char>>)>) -> Option<Seq<char>>
    decreases a.len(),
{
    if a.len() == 0 {
        None
    } else if a[0].1 is Some && contains_sub(a[0].1->0, "[workspace]"@) {
        Some(a[0].0)
    } else {
        first_workspace(a.drop_first())
    }
}

/// The first directory with a manifest.
pub open spec fn first_manifest(a: Seq<(Seq<char>, Option<Seq<char>>)>) -> Option<Seq<char>>
    decreases a.len(),
{
    if a.len() == 0 {
        None
    } else if a[0].1 is Some {
        Some(a[0].0)
    } else {
        first_manifest(a.drop_first())
    }
}

/// The plain values of the ancestor list.
pub open spec fn ancestor_views(a: Seq<(String, Option<String>)>) -> Seq<(Seq<char>, Option<Seq<char>>)> {
    a.map_values(|x: (String, Option<String>)| (x.0@, crate::config::opt_owned(x.1)))
}

/// Chooses the source directory to upload (see [`spec_local_root`]).
pub fn choose_local_root(env_dir: Option<&str>, ancestors: &Vec<(String, Option<String>)>, cwd: &str) -> (r: String)
    ensures
        r@ == spec_local_root(crate::config::opt_borrowed(env_dir), ancestor_views(ancestors@), cwd@),
{
    match env_dir {
        Some(d) => {
            return String::from_str(d);
        },
        None => {},
    }
    let ghost a = ancestor_views(ancestors@);
    let mut nearest: Option<usize> = None;
    let mut j: usize = 0;
    proof {
        assert(a.subrange(0, a.len() as int) =~= a);
    }
    while j < ancestors.len()
        invariant
            j <= ancestors@.len(),
            env_dir is None,
            a == ancestor_views(ancestors@),
            first_workspace(a) == first_workspace(a.subrange(j as int, a.len() as int)),
            match nearest {
                None => first_manifest(a) == first_manifest(a.subrange(j as int, a.len() as int)),
                Some(n) => n < j && first_manifest(a) == Some(ancestors@[n as int].0@),
            },
        decreases ancestors@.len() - j,
    {
        proof {
            assert(a.subrange(j as int, a.len() as int).drop_first() =~= a.subrange(j + 1, a.len() as int));
            assert(a[j as int] == (ancestors@[j as int].0@, crate::config::opt_owned(ancestors@[j as int].1)));
        }
        match &ancestors[j].1 {
            Some(text) => {
                if nearest.is_none() {
                    nearest = Some(j);
                }
                if crate::text::str_contains(text.as_str(), "[workspace]") {
                    proof {
                        assert(a.subrange(j as int, a.len() as int)[0] == a[j as int]);
                    }
                    return ancestors[j].0.clone();
                }
            },
            None => {},
        }
        j = j + 1;
    }
    proof {
        assert(a.subrange(a.len() as int, a.len() as int) =~= Seq::<(Seq<char>, Option<Seq<char>>)>::empty());
    }
    match nearest {
        Some(n) => ancestors[n].0.clone(),
        None => String::from_str(cwd),
    }
}


/// The parts of a runner reply as `serde_json` reads it (`None` when it is not
/// JSON), each `None` where the reply lacks it or holds another JSON type:
/// `ok` as a boolean; `value` as JSON text; the `error` object's `kind` and
/// `message` as strings, its `details` as JSON text, its `backtrace` as a
/// string.
pub uninterp spec fn envelope_parts(envelope: Seq<char>) -> Option<
    (Option<bool>, Option<Seq<char>>, Option<Seq<char>>, Option<Seq<char>>, Option<Seq<char>>, Option<Seq<char>>),
>;

/// The parts of a runner reply, each absent where the reply lacks it.
#[derive(Debug, Clone)]
pub struct RawEnvelope {
    /// `ok`, when it is a boolean.
    pub ok: Option<bool>,
    /// `value`, as JSON text.
    pub value: Option<String>,
    /// `error.kind`, when it is a string.
    pub kind: Option<String>,
    /// `error.message`, when it is a string.
    pub message: Option<String>,
    /// `error.details`, as JSON text.
    pub details: Option<String>,
    /// `error.backtrace`, when it is a string.
    pub backtrace: Option<String>,
}

/// The plain values of the parts, or of their absence.
pub open spec fn parts_view(r: Result<RawEnvelope, String>) -> Option<
    (Option<bool>, Option<Seq<char>>, Option<Seq<char>>, Option<Seq<char>>, Option<Seq<char>>, Option<Seq<char>>),
> {
    match r {
        Ok(f) => Some((f.ok, opt_owned(f.value), opt_owned(f.kind), opt_owned(f.message), opt_owned(f.details), opt_owned(f.backtrace))),
        Err(_) => None,
    }
}

/// `serde_json::from_str` of the reply into a `serde_json::Value`, each part
/// read with `Value::get` or `Value::pointer` and taken as it stands
/// (`Value::as_bool`, `Value::as_str`, or its JSON text by `Value::to_string`);
/// the error is the parser's message.
#[verifier::external_body]
fn read_envelope(envelope: &str) -> (r: Result<RawEnvelope, String>)
    ensures
        parts_view(r) == envelope_parts(envelope@),
{
    let v: Value = serde_json::from_str(envelope).map_err(|e| e.to_string())?;
    Ok(RawEnvelope {
        ok: v.get("ok").and_then(Value::as_bool),
        value: v.get("value").map(Value::to_string),
        kind: v.pointer("/error/kind").and_then(Value::as_str).map(String::from),
        message: v.pointer("/error/message").and_then(Value::as_str).map(String::from),
        details: v.pointer("/error/details").map(Value::to_string),
        backtrace: v.pointer("/error/backtrace").and_then(Value::as_str).map(String::from),
    })
}

/// An optional text, or `default` where it is absent.
pub open spec fn text_or(o: Option<Seq<char>>, default: Seq<char>) -> Seq<char> {
    match o {
        Some(t) => t,
        None => default,
    }
}

fn owned_or(o: Option<String>, default: &str) -> (r: String)
    ensures
        r@ == text_or(opt_owned(o), default@),
{
    match o {
        Some(t) => t,
        None => String::from_str(default),
    }
}

/// Classifies the runner's one-line reply: a reply that is not JSON is a
/// decode error; a reply whose `ok` is `true` hands back its `value` as JSON
/// text (`null` when absent; the caller decodes it into its output type); any
/// other reply (`ok` false, absent or not a boolean) is a handler failure,
/// rebuilt from its `error` object, where an absent or non-string `kind`,
/// `message` or `backtrace` reads as empty.
pub fn classify_envelope(envelope: &str) -> (r: Result<String, crate::error::Error>)
    ensures
        envelope_parts(envelope@) is None ==> r matches Err(crate::error::Error::Decode(_)),
        envelope_parts(envelope@) matches Some(p) ==> (p.0 == Some(true) ==> (r matches Ok(v) && v@ == text_or(p.1, "null"@))),
        envelope_parts(envelope@) matches Some(p) ==> (p.0 != Some(true) ==> (r matches Err(crate::error::Error::Runner(e))
            && crate::error::reconstructed(text_or(p.2, ""@), text_or(p.3, ""@), p.4, text_or(p.5, ""@), e))),
{
    match read_envelope(envelope) {
        Err(m) => Err(crate::error::Error::Decode(m)),
        Ok(f) => {
            let ok_true = match f.ok {
                Some(b) => b,
                None => false,
            };
            if ok_true {
                Ok(owned_or(f.value, "null"))
            } else {
                let kind = owned_or(f.kind, "");
                let message = owned_or(f.message, "");
                let backtrace = owned_or(f.backtrace, "");
                let details: Option<&str> = match &f.details {
                    Some(d) => Some(d.as_str()),
                    None => None,
                };
                Err(
                    crate::error::Error::Runner(
                        crate::error::reconstruct_runner_error(kind.as_str(), message.as_str(), details, backtrace.as_str()),
                    ),
                )
            }
        },
    }
}

} // verus!
