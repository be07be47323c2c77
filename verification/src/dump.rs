//! The dry-run / dump manifest: the ordered control-plane requests a run or a
//! deploy would send, and their readable text render.

use vstd::prelude::*;
use crate::text::{
    contains_sub, occurs_at, decimal, lemma_decimal_no_newline, lemma_newline_count_add, lemma_no_newline_count, lemma_no_newline_join,
    newline_count, no_newline, push_decimal, push_str, str_contains,
};
use crate::control_plane::{
    AppState, Boundary, Call, ControlPlane, Handed, Ledger, Created, FunctionPlan, ImagePlan, Published, SourceDelivery, SourceInputs,
    ProvisionInputs, OpView, cache_collision_message, created_upto, expected_calls, image_view, images_built, provision,
    run_collides,
};
use crate::config::{FunctionOptions, config_for, is_default_options, options_for, same_options};
use crate::control_plane::{
    DeployEntrypoint, Entrypoint, clone_steps, deploy_boundary, deploy_boundary_spec, deploy_entrypoints_for_dump,
    deploy_inputs, deploy_plan, deploy_planned, dump_entrypoints, run_boundary, run_boundary_spec,
};
use crate::deploy::DeployConfig;
use crate::remote::{RemoteConfig, steps_view};
use crate::error::Error;

verus! {

/// Which path a [`Manifest`] was assembled for.
#[derive(Debug, Clone, Copy, PartialEq, Eq)]
pub enum RunMode {
    /// The ephemeral run path.
    Run,
    /// The persistent deploy path.
    Deploy,
}

/// The role a mount plays in the manifest.
#[derive(Debug, Clone, Copy, PartialEq, Eq)]
pub enum MountRole {
    /// The hosted modal-client mount.
    Client,
    /// The uploaded source mount (run) or image build context (deploy).
    Source,
    /// The hosted python-build-standalone mount.
    PythonStandalone,
}

/// One planned outbound request.
#[derive(Debug, Clone, PartialEq)]
pub enum PlannedRequest {
    /// `AppCreate` (ephemeral run app).
    AppCreate { description: String },
    /// `AppGetOrCreate` (persistent deploy app).
    AppGetOrCreate { app_name: String },
    /// `VolumeGetOrCreate` (`v2`: the cargo cache; otherwise a user volume).
    VolumeGetOrCreate { name: String, v2: bool },
    /// `SecretGetOrCreate` (a named user secret).
    SecretGetOrCreate { name: String },
    /// `MountGetOrCreate` (one of the three mount roles).
    MountGetOrCreate { role: MountRole },
    /// `ImageGetOrCreate`: one layer's dockerfile commands and its ordinal.
    ImageGetOrCreate { dockerfile_commands: Vec<String>, layer: u8 },
    /// `FunctionPrecreate`.
    FunctionPrecreate { function_name: String },
    /// `FunctionCreate` (file mode), projected.
    FunctionCreate {
        module: String,
        function: String,
        mount_ids_count: usize,
        gpu: Option<String>,
        milli_cpu: u32,
        memory_mb: u32,
        timeout_secs: u32,
        volume_mounts: Vec<(String, String)>,
        secret_count: usize,
        retries: Option<u32>,
        schedule: Option<String>,
        min_containers: Option<u32>,
        max_containers: Option<u32>,
        buffer_containers: Option<u32>,
        scaledown_window: Option<u32>,
        function_data_is_none: bool,
    },
    /// `AppPublish` (`"ephemeral"` or `"deployed"`).
    AppPublish { app_state: &'static str },
}

/// The assembled control-plane manifest.
#[derive(Debug, Clone)]
pub struct Manifest {
    /// Run vs deploy.
    pub mode: RunMode,
    /// The app name.
    pub app_name: String,
    /// The planned requests, in send order.
    pub requests: Vec<PlannedRequest>,
}

/// What `{:?}` writes for a string: the quoted, escaped text.
pub uninterp spec fn debug_str(s: Seq<char>) -> Seq<char>;

/// `format!("{:?}", s)`: std's `Debug` for `str` writes the text quoted, each
/// character escaped as `char::escape_debug` does, so a line break comes out
/// as the two characters `\n` and the result holds no line break.
#[verifier::external_body]
pub(crate) fn debug_quote(s: &str) -> (r: String)
    ensures
        r@ == debug_str(s@),
        no_newline(r@),
{
    format!("{:?}", s)
}

/// `{:?}` of an optional string.
pub open spec fn debug_opt_str(o: Option<String>) -> Seq<char> {
    match o {
        Some(x) => "Some("@ + debug_str(x@) + ")"@,
        None => "None"@,
    }
}

/// `{:?}` of an optional number.
pub open spec fn debug_opt_num(o: Option<u32>) -> Seq<char> {
    match o {
        Some(x) => "Some("@ + decimal(x as nat) + ")"@,
        None => "None"@,
    }
}

/// `{:?}` of one `(String, String)` pair.
pub open spec fn debug_pair(p: (String, String)) -> Seq<char> {
    "("@ + debug_str(p.0@) + ", "@ + debug_str(p.1@) + ")"@
}

/// The `{:?}` items of the first `k` pairs, separated by `", "`.
pub open spec fn debug_pairs_upto(v: Seq<(String, String)>, k: nat) -> Seq<char>
    decreases k,
{
    if k == 0 {
        Seq::empty()
    } else if k == 1 {
        debug_pair(v[0])
    } else {
        debug_pairs_upto(v, (k - 1) as nat) + ", "@ + debug_pair(v[k - 1])
    }
}

/// `{:?}` of a list of pairs.
pub open spec fn debug_pairs(v: Seq<(String, String)>) -> Seq<char> {
    "["@ + debug_pairs_upto(v, v.len()) + "]"@
}

/// `{}` of a `bool`.
pub open spec fn bool_word(b: bool) -> Seq<char> {
    if b {
        "true"@
    } else {
        "false"@
    }
}

/// `{:?}` of a [`MountRole`].
pub open spec fn role_word(r: MountRole) -> Seq<char> {
    match r {
        MountRole::Client => "Client"@,
        MountRole::Source => "Source"@,
        MountRole::PythonStandalone => "PythonStandalone"@,
    }
}

/// A dockerfile command as the render shows it: the long baked-wrapper command
/// (the one that decodes base64) is abbreviated.
pub open spec fn shown_command(c: Seq<char>) -> Seq<char> {
    if contains_sub(c, "b64decode("@) {
        "RUN <baked wrapper>"@
    } else {
        c
    }
}

/// A shown dockerfile command never holds the decoder call: a command that
/// does is shown abbreviated.
pub proof fn lemma_shown_command_hides_decoder(c: Seq<char>)
    ensures
        !contains_sub(shown_command(c), "b64decode("@),
{
    reveal_strlit("b64decode(");
    reveal_strlit("RUN <baked wrapper>");
    let lit = "RUN <baked wrapper>"@;
    let pat = "b64decode("@;
    if contains_sub(c, pat) {
        assert forall|i: int| !#[trigger] occurs_at(lit, pat, i) by {
            if occurs_at(lit, pat, i) {
                assert(lit.subrange(i, i + 10)[0] == lit[i]);
                assert(lit.subrange(i, i + 10)[1] == lit[i + 1]);
                assert(pat[0] == 'b' && pat[1] == '6');
                assert(lit[i] == 'b');
                assert(i == 5);
                assert(lit[6] == 'a');
            }
        }
    }
}

/// The render's words: the header names the mode (`RUN`, `DEPLOY`), a flag
/// reads `true` or `false`, an app request says whether the app is
/// ephemeral or persistent.
pub proof fn lemma_render_words(description: String, app_name: String)
    ensures
        mode_word(RunMode::Run) == "RUN"@,
        mode_word(RunMode::Deploy) == "DEPLOY"@,
        bool_word(true) == "true"@,
        bool_word(false) == "false"@,
        req_line(PlannedRequest::AppCreate { description }) == "AppCreate              description="@ + debug_str(description@)
            + " (ephemeral)"@,
        req_line(PlannedRequest::AppGetOrCreate { app_name }) == "AppGetOrCreate         app_name="@ + debug_str(app_name@)
            + " (persistent)"@,
{
}

/// A mount request's line names its role by the variant's own name
/// (`Client`, `Source`, `PythonStandalone`, as `{:?}` writes them), so two
/// different roles never render alike.
pub proof fn lemma_mount_role_words(a: MountRole, b: MountRole)
    ensures
        role_word(MountRole::Client) == "Client"@,
        role_word(MountRole::Source) == "Source"@,
        role_word(MountRole::PythonStandalone) == "PythonStandalone"@,
        role_word(a) == role_word(b) ==> a == b,
        req_line(PlannedRequest::MountGetOrCreate { role: a }) == "MountGetOrCreate       role="@ + role_word(a),
{
    reveal_strlit("Client");
    reveal_strlit("Source");
    reveal_strlit("PythonStandalone");
    if role_word(a) == role_word(b) && a != b {
        assert(role_word(a)[0] != role_word(b)[0] || role_word(a).len() != role_word(b).len());
    }
}

/// The shown forms of the first `k` commands, joined by `"; "`.
pub open spec fn shown_commands_upto(v: Seq<String>, k: nat) -> Seq<char>
    decreases k,
{
    if k == 0 {
        Seq::empty()
    } else if k == 1 {
        shown_command(v[0]@)
    } else {
        shown_commands_upto(v, (k - 1) as nat) + "; "@ + shown_command(v[k - 1]@)
    }
}

/// The mode word of the header.
pub open spec fn mode_word(m: RunMode) -> Seq<char> {
    match m {
        RunMode::Run => "RUN"@,
        RunMode::Deploy => "DEPLOY"@,
    }
}

/// No dockerfile command of `v` breaks a line.
pub open spec fn commands_one_line(v: Seq<String>) -> bool {
    forall|j: int| 0 <= j < v.len() ==> no_newline(#[trigger] v[j]@)
}

/// What a request carries as raw text holds no line break: the dockerfile
/// commands of an image request, the state of a publish request.
pub open spec fn request_one_line(r: PlannedRequest) -> bool {
    match r {
        PlannedRequest::ImageGetOrCreate { dockerfile_commands, .. } => commands_one_line(dockerfile_commands@),
        PlannedRequest::AppPublish { app_state } => no_newline(app_state@),
        _ => true,
    }
}

/// Every request of `m` is [`request_one_line`].
pub open spec fn manifest_one_line(m: Manifest) -> bool {
    forall|i: int| 0 <= i < m.requests@.len() ==> request_one_line(#[trigger] m.requests@[i])
}

/// The first part of a `FunctionCreate` line.
pub open spec fn create_head(
    module: String,
    function: String,
    mount_ids_count: usize,
    gpu: Option<String>,
    milli_cpu: u32,
    memory_mb: u32,
    timeout_secs: u32,
) -> Seq<char> {
    "FunctionCreate         module="@ + debug_str(module@) + " function="@ + debug_str(function@)
        + " mount_ids="@ + decimal(mount_ids_count as nat) + " gpu="@ + debug_opt_str(gpu) + " cpu="@
        + decimal(milli_cpu as nat) + "m memory="@ + decimal(memory_mb as nat) + "MiB timeout="@
        + decimal(timeout_secs as nat) + "s"@
}

/// The middle part of a `FunctionCreate` line.
pub open spec fn create_mid(
    volume_mounts: Vec<(String, String)>,
    secret_count: usize,
    retries: Option<u32>,
    schedule: Option<String>,
) -> Seq<char> {
    " volumes="@ + debug_pairs(volume_mounts@) + " secrets="@ + decimal(secret_count as nat)
        + " retries="@ + debug_opt_num(retries) + " schedule="@ + debug_opt_str(schedule)
}

/// The last part of a `FunctionCreate` line.
pub open spec fn create_tail(
    min_containers: Option<u32>,
    max_containers: Option<u32>,
    buffer_containers: Option<u32>,
    scaledown_window: Option<u32>,
    function_data_is_none: bool,
) -> Seq<char> {
    " min_containers="@ + debug_opt_num(min_containers) + " max_containers="@ + debug_opt_num(
        max_containers,
    ) + " buffer_containers="@ + debug_opt_num(buffer_containers) + " scaledown_window="@
        + debug_opt_num(scaledown_window) + " function_data_is_none="@ + bool_word(
        function_data_is_none,
    )
}

/// The text of one request line (without its number).
pub open spec fn req_line(r: PlannedRequest) -> Seq<char> {
    match r {
        PlannedRequest::AppCreate { description } => "AppCreate              description="@
            + debug_str(description@) + " (ephemeral)"@,
        PlannedRequest::AppGetOrCreate { app_name } => "AppGetOrCreate         app_name="@
            + debug_str(app_name@) + " (persistent)"@,
        PlannedRequest::VolumeGetOrCreate { name, v2 } => "VolumeGetOrCreate      name="@
            + debug_str(name@) + " v2="@ + bool_word(v2),
        PlannedRequest::SecretGetOrCreate { name } => "SecretGetOrCreate      name="@ + debug_str(
            name@,
        ),
        PlannedRequest::MountGetOrCreate { role } => "MountGetOrCreate       role="@ + role_word(role),
        PlannedRequest::ImageGetOrCreate { dockerfile_commands, layer } =>
            "ImageGetOrCreate       layer="@ + decimal(layer as nat) + "  ["@ + shown_commands_upto(
            dockerfile_commands@,
            dockerfile_commands@.len(),
        ) + "]"@,
        PlannedRequest::FunctionPrecreate { function_name } => "FunctionPrecreate      function="@
            + debug_str(function_name@),
        PlannedRequest::FunctionCreate {
            module,
            function,
            mount_ids_count,
            gpu,
            milli_cpu,
            memory_mb,
            timeout_secs,
            volume_mounts,
            secret_count,
            retries,
            schedule,
            min_containers,
            max_containers,
            buffer_containers,
            scaledown_window,
            function_data_is_none,
        } => create_head(module, function, mount_ids_count, gpu, milli_cpu, memory_mb, timeout_secs)
            + create_mid(volume_mounts, secret_count, retries, schedule) + create_tail(
            min_containers,
            max_containers,
            buffer_containers,
            scaledown_window,
            function_data_is_none,
        ),
        PlannedRequest::AppPublish { app_state } => "AppPublish             state="@ + app_state@,
    }
}

/// The numbered lines of the first `k` requests.
pub open spec fn req_lines_upto(reqs: Seq<PlannedRequest>, k: nat) -> Seq<char>
    decreases k,
{
    if k == 0 {
        Seq::empty()
    } else {
        req_lines_upto(reqs, (k - 1) as nat) + "  "@ + decimal(k) + ". "@ + req_line(reqs[k - 1])
            + "\n"@
    }
}

/// The whole render: a header naming the mode and the app, then one numbered
/// line per request in send order.
pub open spec fn spec_render(m: Manifest) -> Seq<char> {
    mode_word(m.mode) + " manifest for app "@ + debug_str(m.app_name@) + "\n"@ + req_lines_upto(
        m.requests@,
        m.requests@.len(),
    )
}

fn push_opt_str(s: &mut String, o: &Option<String>)
    ensures
        final(s)@ == old(s)@ + debug_opt_str(*o),
        no_newline(debug_opt_str(*o)),
{
    match o {
        Some(x) => {
            push_str(s, "Some(");
            let q = debug_quote(x.as_str());
            push_str(s, q.as_str());
            push_str(s, ")");
        },
        None => {
            push_str(s, "None");
        },
    }
    proof {
        broadcast use lemma_no_newline_join;
        reveal_strlit("Some(");
        reveal_strlit(")");
        reveal_strlit("None");
    }
}

fn push_opt_num(s: &mut String, o: Option<u32>)
    ensures
        final(s)@ == old(s)@ + debug_opt_num(o),
        no_newline(debug_opt_num(o)),
{
    match o {
        Some(x) => {
            push_str(s, "Some(");
            push_decimal(s, x as u64);
            push_str(s, ")");
            proof {
                lemma_decimal_no_newline(x as nat);
            }
        },
        None => {
            push_str(s, "None");
        },
    }
    proof {
        broadcast use lemma_no_newline_join;
        reveal_strlit("Some(");
        reveal_strlit(")");
        reveal_strlit("None");
    }
}

fn push_bool(s: &mut String, b: bool)
    ensures
        final(s)@ == old(s)@ + bool_word(b),
        no_newline(bool_word(b)),
{
    if b {
        push_str(s, "true");
    } else {
        push_str(s, "false");
    }
    proof {
        reveal_strlit("true");
        reveal_strlit("false");
    }
}

fn push_pairs(s: &mut String, v: &Vec<(String, String)>)
    ensures
        final(s)@ == old(s)@ + debug_pairs(v@),
        no_newline(debug_pairs(v@)),
{
    push_str(s, "[");
    let ghost start = s@;
    let mut i: usize = 0;
    proof {
        reveal_strlit("(");
        reveal_strlit(", ");
        reveal_strlit(")");
    }
    while i < v.len()
        invariant
            i <= v@.len(),
            s@ == start + debug_pairs_upto(v@, i as nat),
            start == old(s)@ + "["@,
            no_newline(debug_pairs_upto(v@, i as nat)),
            no_newline("("@),
            no_newline(", "@),
            no_newline(")"@),
        decreases v@.len() - i,
    {
        if i > 0 {
            push_str(s, ", ");
        }
        push_str(s, "(");
        let a = debug_quote(v[i].0.as_str());
        push_str(s, a.as_str());
        push_str(s, ", ");
        let b = debug_quote(v[i].1.as_str());
        push_str(s, b.as_str());
        push_str(s, ")");
        proof {
            broadcast use lemma_no_newline_join;
            if i == 0 {
                assert(s@ =~= start + debug_pairs_upto(v@, 1));
            } else {
                assert(s@ =~= start + debug_pairs_upto(v@, (i + 1) as nat));
            }
            assert(no_newline(debug_pair(v@[i as int])));
        }
        i = i + 1;
    }
    push_str(s, "]");
    proof {
        broadcast use lemma_no_newline_join;
        reveal_strlit("[");
        reveal_strlit("]");
        assert(s@ =~= old(s)@ + debug_pairs(v@));
    }
}

fn push_commands(s: &mut String, v: &Vec<String>)
    ensures
        final(s)@ == old(s)@ + shown_commands_upto(v@, v@.len()),
        commands_one_line(v@) ==> no_newline(shown_commands_upto(v@, v@.len())),
{
    let ghost start = old(s)@;
    let mut i: usize = 0;
    proof {
        assert(s@ =~= start + shown_commands_upto(v@, 0));
        reveal_strlit("; ");
        reveal_strlit("RUN <baked wrapper>");
    }
    while i < v.len()
        invariant
            i <= v@.len(),
            s@ == start + shown_commands_upto(v@, i as nat),
            commands_one_line(v@) ==> no_newline(shown_commands_upto(v@, i as nat)),
            no_newline("; "@),
            no_newline("RUN <baked wrapper>"@),
        decreases v@.len() - i,
    {
        if i > 0 {
            push_str(s, "; ");
        }
        if str_contains(v[i].as_str(), "b64decode(") {
            push_str(s, "RUN <baked wrapper>");
        } else {
            push_str(s, v[i].as_str());
        }
        proof {
            broadcast use lemma_no_newline_join;
            if i == 0 {
                assert(s@ =~= start + shown_commands_upto(v@, 1));
            } else {
                assert(s@ =~= start + shown_commands_upto(v@, (i + 1) as nat));
            }
            if commands_one_line(v@) {
                assert(no_newline(v@[i as int]@));
                assert(no_newline(shown_command(v@[i as int]@)));
            }
        }
        i = i + 1;
    }
}

fn push_create_head(
    s: &mut String,
    module: &String,
    function: &String,
    mount_ids_count: usize,
    gpu: &Option<String>,
    milli_cpu: u32,
    memory_mb: u32,
    timeout_secs: u32,
)
    ensures
        final(s)@ == old(s)@ + create_head(
            *module,
            *function,
            mount_ids_count,
            *gpu,
            milli_cpu,
            memory_mb,
            timeout_secs,
        ),
        no_newline(create_head(*module, *function, mount_ids_count, *gpu, milli_cpu, memory_mb, timeout_secs)),
{
    push_str(s, "FunctionCreate         module=");
    let q = debug_quote(module.as_str());
    push_str(s, q.as_str());
    push_str(s, " function=");
    let q = debug_quote(function.as_str());
    push_str(s, q.as_str());
    push_str(s, " mount_ids=");
    push_decimal(s, mount_ids_count as u64);
    push_str(s, " gpu=");
    push_opt_str(s, gpu);
    push_str(s, " cpu=");
    push_decimal(s, milli_cpu as u64);
    push_str(s, "m memory=");
    push_decimal(s, memory_mb as u64);
    push_str(s, "MiB timeout=");
    push_decimal(s, timeout_secs as u64);
    push_str(s, "s");
    proof {
        broadcast use lemma_no_newline_join;
        reveal_strlit("FunctionCreate         module=");
        reveal_strlit(" function=");
        reveal_strlit(" mount_ids=");
        reveal_strlit(" gpu=");
        reveal_strlit(" cpu=");
        reveal_strlit("m memory=");
        reveal_strlit("MiB timeout=");
        reveal_strlit("s");
        lemma_decimal_no_newline(mount_ids_count as nat);
        lemma_decimal_no_newline(milli_cpu as nat);
        lemma_decimal_no_newline(memory_mb as nat);
        lemma_decimal_no_newline(timeout_secs as nat);
        assert(s@ =~= old(s)@ + create_head(
            *module,
            *function,
            mount_ids_count,
            *gpu,
            milli_cpu,
            memory_mb,
            timeout_secs,
        ));
    }
}

fn push_create_mid(
    s: &mut String,
    volume_mounts: &Vec<(String, String)>,
    secret_count: usize,
    retries: Option<u32>,
    schedule: &Option<String>,
)
    ensures
        final(s)@ == old(s)@ + create_mid(*volume_mounts, secret_count, retries, *schedule),
        no_newline(create_mid(*volume_mounts, secret_count, retries, *schedule)),
{
    push_str(s, " volumes=");
    push_pairs(s, volume_mounts);
    push_str(s, " secrets=");
    push_decimal(s, secret_count as u64);
    push_str(s, " retries=");
    push_opt_num(s, retries);
    push_str(s, " schedule=");
    push_opt_str(s, schedule);
    proof {
        broadcast use lemma_no_newline_join;
        reveal_strlit(" volumes=");
        reveal_strlit(" secrets=");
        reveal_strlit(" retries=");
        reveal_strlit(" schedule=");
        lemma_decimal_no_newline(secret_count as nat);
        assert(s@ =~= old(s)@ + create_mid(*volume_mounts, secret_count, retries, *schedule));
    }
}

fn push_create_tail(
    s: &mut String,
    min_containers: Option<u32>,
    max_containers: Option<u32>,
    buffer_containers: Option<u32>,
    scaledown_window: Option<u32>,
    function_data_is_none: bool,
)
    ensures
        final(s)@ == old(s)@ + create_tail(
            min_containers,
            max_containers,
            buffer_containers,
            scaledown_window,
            function_data_is_none,
        ),
        no_newline(create_tail(min_containers, max_containers, buffer_containers, scaledown_window, function_data_is_none)),
{
    push_str(s, " min_containers=");
    push_opt_num(s, min_containers);
    push_str(s, " max_containers=");
    push_opt_num(s, max_containers);
    push_str(s, " buffer_containers=");
    push_opt_num(s, buffer_containers);
    push_str(s, " scaledown_window=");
    push_opt_num(s, scaledown_window);
    push_str(s, " function_data_is_none=");
    push_bool(s, function_data_is_none);
    proof {
        broadcast use lemma_no_newline_join;
        reveal_strlit(" min_containers=");
        reveal_strlit(" max_containers=");
        reveal_strlit(" buffer_containers=");
        reveal_strlit(" scaledown_window=");
        reveal_strlit(" function_data_is_none=");
        assert(s@ =~= old(s)@ + create_tail(
            min_containers,
            max_containers,
            buffer_containers,
            scaledown_window,
            function_data_is_none,
        ));
    }
}

fn push_req_line(s: &mut String, r: &PlannedRequest)
    ensures
        final(s)@ == old(s)@ + req_line(*r),
        request_one_line(*r) ==> no_newline(req_line(*r)),
        *r == (PlannedRequest::MountGetOrCreate { role: MountRole::Client }) ==> final(s)@ == old(s)@
            + "MountGetOrCreate       role=Client"@,
        *r == (PlannedRequest::MountGetOrCreate { role: MountRole::Source }) ==> final(s)@ == old(s)@
            + "MountGetOrCreate       role=Source"@,
        *r == (PlannedRequest::MountGetOrCreate { role: MountRole::PythonStandalone }) ==> final(s)@ == old(s)@
            + "MountGetOrCreate       role=PythonStandalone"@,
{
    let ghost s0 = s@;
    match r {
        PlannedRequest::AppCreate { description } => {
            push_str(s, "AppCreate              description=");
            let q = debug_quote(description.as_str());
            push_str(s, q.as_str());
            push_str(s, " (ephemeral)");
        },
        PlannedRequest::AppGetOrCreate { app_name } => {
            push_str(s, "AppGetOrCreate         app_name=");
            let q = debug_quote(app_name.as_str());
            push_str(s, q.as_str());
            push_str(s, " (persistent)");
        },
        PlannedRequest::VolumeGetOrCreate { name, v2 } => {
            push_str(s, "VolumeGetOrCreate      name=");
            let q = debug_quote(name.as_str());
            push_str(s, q.as_str());
            push_str(s, " v2=");
            push_bool(s, *v2);
        },
        PlannedRequest::SecretGetOrCreate { name } => {
            push_str(s, "SecretGetOrCreate      name=");
            let q = debug_quote(name.as_str());
            push_str(s, q.as_str());
        },
        PlannedRequest::MountGetOrCreate { role } => {
            push_str(s, "MountGetOrCreate       role=");
            match role {
                MountRole::Client => push_str(s, "Client"),
                MountRole::Source => push_str(s, "Source"),
                MountRole::PythonStandalone => push_str(s, "PythonStandalone"),
            }
        },
        PlannedRequest::ImageGetOrCreate { dockerfile_commands, layer } => {
            push_str(s, "ImageGetOrCreate       layer=");
            push_decimal(s, *layer as u64);
            proof {
                lemma_decimal_no_newline(*layer as nat);
            }
            push_str(s, "  [");
            push_commands(s, dockerfile_commands);
            push_str(s, "]");
        },
        PlannedRequest::FunctionPrecreate { function_name } => {
            push_str(s, "FunctionPrecreate      function=");
            let q = debug_quote(function_name.as_str());
            push_str(s, q.as_str());
        },
        PlannedRequest::FunctionCreate {
            module,
            function,
            mount_ids_count,
            gpu,
            milli_cpu,
            memory_mb,
            timeout_secs,
            volume_mounts,
            secret_count,
            retries,
            schedule,
            min_containers,
            max_containers,
            buffer_containers,
            scaledown_window,
            function_data_is_none,
        } => {
            push_create_head(s, module, function, *mount_ids_count, gpu, *milli_cpu, *memory_mb, *timeout_secs);
            push_create_mid(s, volume_mounts, *secret_count, *retries, schedule);
            push_create_tail(
                s,
                *min_containers,
                *max_containers,
                *buffer_containers,
                *scaledown_window,
                *function_data_is_none,
            );
        },
        PlannedRequest::AppPublish { app_state } => {
            push_str(s, "AppPublish             state=");
            push_str(s, *app_state);
        },
    }
    proof {
        broadcast use lemma_no_newline_join;
        reveal_strlit("AppCreate              description=");
        reveal_strlit(" (ephemeral)");
        reveal_strlit("AppGetOrCreate         app_name=");
        reveal_strlit(" (persistent)");
        reveal_strlit("VolumeGetOrCreate      name=");
        reveal_strlit(" v2=");
        reveal_strlit("SecretGetOrCreate      name=");
        reveal_strlit("MountGetOrCreate       role=");
        reveal_strlit("Client");
        reveal_strlit("Source");
        reveal_strlit("PythonStandalone");
        reveal_strlit("ImageGetOrCreate       layer=");
        reveal_strlit("  [");
        reveal_strlit("]");
        reveal_strlit("FunctionPrecreate      function=");
        reveal_strlit("AppPublish             state=");
        reveal_strlit("MountGetOrCreate       role=Client");
        reveal_strlit("MountGetOrCreate       role=Source");
        reveal_strlit("MountGetOrCreate       role=PythonStandalone");
        assert(s@ =~= s0 + req_line(*r));
    }
}

proof fn lemma_one_newline(a: Seq<char>)
    requires
        no_newline(a),
    ensures
        newline_count(a + "\n"@) == 1,
{
    reveal_strlit("\n");
    lemma_no_newline_count(a);
    lemma_newline_count_add(a, "\n"@);
    assert("\n"@.drop_last() =~= Seq::<char>::empty());
    assert(newline_count(Seq::<char>::empty()) == 0);
    assert(newline_count("\n"@) == 1);
}

/// The numbered lines of the first `k` requests break exactly `k` times when
/// no request line breaks inside.
proof fn lemma_req_lines_count(reqs: Seq<PlannedRequest>, k: nat)
    requires
        k <= reqs.len(),
        forall|j: int| 0 <= j < k ==> no_newline(#[trigger] req_line(reqs[j])),
    ensures
        newline_count(req_lines_upto(reqs, k)) == k,
    decreases k,
{
    broadcast use lemma_no_newline_join;
    if k > 0 {
        lemma_req_lines_count(reqs, (k - 1) as nat);
        reveal_strlit("  ");
        reveal_strlit(". ");
        lemma_decimal_no_newline(k);
        assert(no_newline(req_line(reqs[k - 1])));
        let prev = req_lines_upto(reqs, (k - 1) as nat);
        let line = "  "@ + decimal(k) + ". "@ + req_line(reqs[k - 1]);
        assert(req_lines_upto(reqs, k) =~= prev + (line + "\n"@));
        lemma_one_newline(line);
        lemma_newline_count_add(prev, line + "\n"@);
    }
}

impl Manifest {
    /// A readable, deterministic text render: a header line, then one numbered
    /// line per planned request, in send order; the image line lists its
    /// dockerfile commands, the baked wrapper's abbreviated
    /// ([`lemma_shown_command_hides_decoder`]). Names are shown quoted and
    /// escaped, so when no dockerfile command or publish state breaks a line
    /// the text holds exactly one line break per line.
    pub fn render(&self) -> (r: String)
        ensures
            r@ == spec_render(*self),
            manifest_one_line(*self) ==> newline_count(r@) == self.requests@.len() + 1,
    {
        let mut out = String::new();
        match self.mode {
            RunMode::Run => push_str(&mut out, "RUN"),
            RunMode::Deploy => push_str(&mut out, "DEPLOY"),
        }
        push_str(&mut out, " manifest for app ");
        let q = debug_quote(self.app_name.as_str());
        push_str(&mut out, q.as_str());
        push_str(&mut out, "\n");
        let ghost head = out@;
        let mut i: usize = 0;
        while i < self.requests.len()
            invariant
                i <= self.requests@.len(),
                out@ == head + req_lines_upto(self.requests@, i as nat),
                manifest_one_line(*self) ==> forall|j: int| 0 <= j < i ==> no_newline(#[trigger] req_line(self.requests@[j])),
            decreases self.requests@.len() - i,
        {
            push_str(&mut out, "  ");
            push_decimal(&mut out, (i + 1) as u64);
            push_str(&mut out, ". ");
            push_req_line(&mut out, &self.requests[i]);
            proof {
                if manifest_one_line(*self) {
                    assert(request_one_line(self.requests@[i as int]));
                }
            }
            push_str(&mut out, "\n");
            proof {
                assert(out@ =~= head + req_lines_upto(self.requests@, (i + 1) as nat));
            }
            i = i + 1;
        }
        proof {
            assert(out@ =~= spec_render(*self));
            if manifest_one_line(*self) {
                broadcast use lemma_no_newline_join;
                reveal_strlit("RUN");
                reveal_strlit("DEPLOY");
                reveal_strlit(" manifest for app ");
                let line = mode_word(self.mode) + " manifest for app "@ + debug_str(self.app_name@);
                let rest = req_lines_upto(self.requests@, self.requests@.len());
                assert(no_newline(line));
                lemma_one_newline(line);
                lemma_req_lines_count(self.requests@, self.requests@.len());
                assert(spec_render(*self) =~= (line + "\n"@) + rest);
                lemma_newline_count_add(line + "\n"@, rest);
            }
        }
        out
    }
}


/// One request the recording control plane saw, with the library-level plan it
/// carried.
#[derive(Debug, Clone, PartialEq, Eq)]
pub enum RecordedCall {
    /// `AppCreate` (ephemeral).
    AppCreate { description: String },
    /// `AppGetOrCreate` (persistent).
    AppGetOrCreate { app_name: String },
    /// `VolumeGetOrCreate`.
    VolumeGetOrCreate { name: String, v2: bool },
    /// `SecretGetOrCreate` by name.
    SecretGetOrCreate { name: String },
    /// `SecretGetOrCreate` from inline key/values.
    InlineSecretGetOrCreate { name: String },
    /// `MountGetOrCreate` of one role.
    MountGetOrCreate { role: MountRole },
    /// The dependency-prebuild stub mount.
    PrebuildMount,
    /// `ImageGetOrCreate` of one layer.
    ImageGetOrCreate { spec: ImagePlan, layer: u8 },
    /// `FunctionPrecreate`.
    FunctionPrecreate { function_name: String },
    /// `FunctionCreate` with its plan.
    FunctionCreate { spec: FunctionPlan },
    /// `AppPublish` in a state.
    AppPublish { app_state: &'static str },
    /// `FunctionGet` of a deployed function by app name and object tag.
    FunctionFromName { app_name: String, object_tag: String },
}

/// The control-plane call a recorded request stands for.
pub open spec fn call_kind(r: RecordedCall) -> Call {
    match r {
        RecordedCall::AppCreate { description } => Call::App(description@, AppState::Ephemeral),
        RecordedCall::AppGetOrCreate { app_name } => Call::App(app_name@, AppState::Deployed),
        RecordedCall::VolumeGetOrCreate { name, v2 } => Call::Volume(name@, v2),
        RecordedCall::SecretGetOrCreate { name } => Call::Secret(name@),
        RecordedCall::InlineSecretGetOrCreate { name } => Call::InlineSecret(name@),
        RecordedCall::MountGetOrCreate { role } => match role {
            MountRole::Client => Call::ClientMount,
            MountRole::Source => Call::SourceMount,
            MountRole::PythonStandalone => Call::PythonMount,
        },
        RecordedCall::PrebuildMount => Call::PrebuildMount,
        RecordedCall::ImageGetOrCreate { .. } => Call::Image,
        RecordedCall::FunctionPrecreate { function_name } => Call::Precreate(function_name@),
        RecordedCall::FunctionCreate { .. } => Call::Create,
        RecordedCall::AppPublish { app_state } => Call::Publish(
            if app_state@ == "deployed"@ {
                AppState::Deployed
            } else {
                AppState::Ephemeral
            },
        ),
        RecordedCall::FunctionFromName { app_name, object_tag } => Call::Lookup(app_name@, object_tag@),
    }
}

/// The function-create plans among recorded requests, in order.
pub open spec fn recorded_plans(v: Seq<RecordedCall>) -> Seq<FunctionPlan>
    decreases v.len(),
{
    if v.len() == 0 {
        Seq::empty()
    } else {
        recorded_plans(v.drop_last()) + match v.last() {
            RecordedCall::FunctionCreate { spec } => seq![spec],
            _ => Seq::empty(),
        }
    }
}

/// The image layers among recorded requests, as plain values, in order.
pub open spec fn recorded_images(v: Seq<RecordedCall>) -> Seq<(Seq<char>, Seq<OpView>, u8)>
    decreases v.len(),
{
    if v.len() == 0 {
        Seq::empty()
    } else {
        recorded_images(v.drop_last()) + match v.last() {
            RecordedCall::ImageGetOrCreate { spec, layer } => seq![image_view(spec, layer)],
            _ => Seq::empty(),
        }
    }
}

/// The calls a list of recorded requests stands for.
pub open spec fn call_kinds(v: Seq<RecordedCall>) -> Seq<Call> {
    v.map_values(|r: RecordedCall| call_kind(r))
}

/// The shared counter after one more counted id (it stays at the maximum).
pub open spec fn next_count(c: u64) -> u64 {
    if c < u64::MAX {
        (c + 1) as u64
    } else {
        c
    }
}

/// The offline control plane: records each request and answers with a
/// deterministic fake id (mounts, volumes and images share one counter).
pub struct RecordingControlPlane {
    /// The shared id counter.
    pub counter: u64,
    /// The recorded requests, in order.
    pub requests: Vec<RecordedCall>,
    /// What the calls were handed beyond what the requests record.
    pub handed_log: Ghost<Seq<Handed>>,
    /// What the recorder answered, and what each publish was handed.
    pub ledger_log: Ghost<Ledger>,
}

impl RecordingControlPlane {
    /// A fresh recorder: counter zero, nothing recorded.
    pub fn new() -> (r: RecordingControlPlane)
        ensures
            r.counter == 0,
            r.requests@.len() == 0,
            r.handed_log@.len() == 0,
    {
        RecordingControlPlane {
            counter: 0,
            requests: Vec::new(),
            handed_log: Ghost(Seq::empty()),
            ledger_log: Ghost(
                Ledger {
                    apps: Seq::empty(),
                    volumes: Seq::empty(),
                    secrets: Seq::empty(),
                    mounts: Seq::empty(),
                    stubs: Seq::empty(),
                    images: Seq::empty(),
                    precreates: Seq::empty(),
                    functions: Seq::empty(),
                    urls: Seq::empty(),
                    publishes: Seq::empty(),
                    lookups: Seq::empty(),
                },
            ),
        }
    }

    /// Advances the shared counter and returns it (it stays at the maximum once there).
    pub fn next_id(&mut self) -> (r: u64)
        ensures
            final(self).counter == (if old(self).counter < u64::MAX { (old(self).counter + 1) as u64 } else { old(self).counter }),
            r == final(self).counter,
            final(self).requests == old(self).requests,
            final(self).handed_log == old(self).handed_log,
            final(self).ledger_log == old(self).ledger_log,
    {
        if self.counter < u64::MAX {
            self.counter = self.counter + 1;
        }
        self.counter
    }

    fn record(&mut self, r: RecordedCall)
        ensures
            call_kinds(final(self).requests@) == call_kinds(old(self).requests@).push(call_kind(r)),
            final(self).requests@ == old(self).requests@.push(r),
            final(self).counter == old(self).counter,
            final(self).handed_log == old(self).handed_log,
            final(self).ledger_log == old(self).ledger_log,
            !(r is FunctionCreate) ==> recorded_plans(final(self).requests@) == recorded_plans(old(self).requests@),
            !(r is ImageGetOrCreate) ==> recorded_images(final(self).requests@) == recorded_images(old(self).requests@),
    {
        let ghost before = call_kinds(self.requests@);
        let ghost old_requests = self.requests@;
        let ghost k = call_kind(r);
        self.requests.push(r);
        proof {
            assert(call_kinds(self.requests@) =~= before.push(k));
            assert(self.requests@.drop_last() =~= old_requests);
            if !(r is FunctionCreate) {
                assert(recorded_plans(self.requests@) =~= recorded_plans(old_requests));
            }
            if !(r is ImageGetOrCreate) {
                assert(recorded_images(self.requests@) =~= recorded_images(old_requests));
            }
        }
    }

    fn counted_id(&mut self, prefix: &str) -> (r: String)
        ensures
            final(self).requests == old(self).requests,
            final(self).handed_log == old(self).handed_log,
            final(self).ledger_log == old(self).ledger_log,
            final(self).counter == next_count(old(self).counter),
            r@ == prefix@ + decimal(final(self).counter as nat),
    {
        let n = self.next_id();
        let mut s = String::new();
        push_str(&mut s, prefix);
        push_decimal(&mut s, n);
        s
    }
}

impl ControlPlane for RecordingControlPlane {
    open spec fn calls(&self) -> Seq<Call> {
        call_kinds(self.requests@)
    }

    open spec fn infallible(&self) -> bool {
        true
    }

    open spec fn builds_stubs(&self) -> bool {
        false
    }

    open spec fn created(&self) -> Seq<FunctionPlan> {
        recorded_plans(self.requests@)
    }

    open spec fn built(&self) -> Seq<(Seq<char>, Seq<OpView>, u8)> {
        recorded_images(self.requests@)
    }

    open spec fn handed(&self) -> Seq<Handed> {
        self.handed_log@
    }

    open spec fn ledger(&self) -> Ledger {
        self.ledger_log@
    }

    fn ensure_app(&mut self, app_name: &str, pre_resolved: Option<&str>, state: AppState) -> (r: Result<String, Error>)
        ensures
            r matches Ok(id) && id@ == "ap-1"@,
            final(self).counter == old(self).counter,
    {
        match state {
            AppState::Ephemeral => self.record(RecordedCall::AppCreate { description: String::from_str(app_name) }),
            AppState::Deployed => self.record(RecordedCall::AppGetOrCreate { app_name: String::from_str(app_name) }),
        }
        self.handed_log = Ghost(self.handed_log@.push(Handed::App(crate::config::opt_borrowed(pre_resolved))));
        let id = String::from_str("ap-1");
        self.ledger_log = Ghost(Ledger { apps: self.ledger_log@.apps.push(id@), ..self.ledger_log@ });
        Ok(id)
    }

    fn ensure_volume(&mut self, name: &str, v2: bool) -> (r: Result<String, Error>)
        ensures
            r matches Ok(id) && id@ == "vo-"@ + decimal(final(self).counter as nat),
            final(self).counter == next_count(old(self).counter),
    {
        self.record(RecordedCall::VolumeGetOrCreate { name: String::from_str(name), v2 });
        let id = self.counted_id("vo-");
        self.ledger_log = Ghost(Ledger { volumes: self.ledger_log@.volumes.push(id@), ..self.ledger_log@ });
        Ok(id)
    }

    fn ensure_secret(&mut self, name: &str, required_keys: &Vec<String>) -> (r: Result<String, Error>)
        ensures
            r matches Ok(id) && id@ == "sc-1"@,
            final(self).counter == old(self).counter,
    {
        self.record(RecordedCall::SecretGetOrCreate { name: String::from_str(name) });
        self.handed_log = Ghost(self.handed_log@.push(Handed::Secret(crate::path::views(required_keys@))));
        let id = String::from_str("sc-1");
        self.ledger_log = Ghost(Ledger { secrets: self.ledger_log@.secrets.push(id@), ..self.ledger_log@ });
        Ok(id)
    }

    fn ensure_inline_secret(&mut self, name: &str, env: &Vec<(String, String)>) -> (r: Result<String, Error>)
        ensures
            r matches Ok(id) && id@ == "sc-1"@,
            final(self).counter == old(self).counter,
    {
        self.record(RecordedCall::InlineSecretGetOrCreate { name: String::from_str(name) });
        self.handed_log = Ghost(self.handed_log@.push(Handed::InlineSecret(crate::config::pair_views(env@))));
        let id = String::from_str("sc-1");
        self.ledger_log = Ghost(Ledger { secrets: self.ledger_log@.secrets.push(id@), ..self.ledger_log@ });
        Ok(id)
    }

    fn ensure_client_mount(&mut self) -> (r: Result<String, Error>)
        ensures
            r matches Ok(id) && id@ == "mo-"@ + decimal(final(self).counter as nat),
            final(self).counter == next_count(old(self).counter),
    {
        self.record(RecordedCall::MountGetOrCreate { role: MountRole::Client });
        let id = self.counted_id("mo-");
        self.ledger_log = Ghost(Ledger { mounts: self.ledger_log@.mounts.push(id@), ..self.ledger_log@ });
        Ok(id)
    }

    fn ensure_source_mount(&mut self, source: &SourceInputs, remote_path: &str) -> (r: Result<String, Error>)
        ensures
            r matches Ok(id) && id@ == "mo-"@ + decimal(final(self).counter as nat),
            final(self).counter == next_count(old(self).counter),
    {
        self.record(RecordedCall::MountGetOrCreate { role: MountRole::Source });
        self.handed_log = Ghost(self.handed_log@.push(Handed::SourceMount(crate::control_plane::source_view(*source), remote_path@)));
        let id = self.counted_id("mo-");
        self.ledger_log = Ghost(Ledger { mounts: self.ledger_log@.mounts.push(id@), ..self.ledger_log@ });
        Ok(id)
    }

    fn ensure_prebuild_mount(&mut self, source: &SourceInputs, remote_path: &str) -> (r: Result<Option<String>, Error>)
        ensures
            r matches Ok(None),
            final(self).counter == old(self).counter,
    {
        self.record(RecordedCall::PrebuildMount);
        self.handed_log = Ghost(self.handed_log@.push(Handed::PrebuildMount(crate::control_plane::source_view(*source), remote_path@)));
        Ok(None)
    }

    fn ensure_python_mount(&mut self, series: &str) -> (r: Result<String, Error>)
        ensures
            r matches Ok(id) && id@ == "mo-"@ + decimal(final(self).counter as nat),
            final(self).counter == next_count(old(self).counter),
    {
        self.record(RecordedCall::MountGetOrCreate { role: MountRole::PythonStandalone });
        self.handed_log = Ghost(self.handed_log@.push(Handed::PythonMount(series@)));
        let id = self.counted_id("mo-");
        self.ledger_log = Ghost(Ledger { mounts: self.ledger_log@.mounts.push(id@), ..self.ledger_log@ });
        Ok(id)
    }

    fn ensure_image(&mut self, app_id: &str, spec: &ImagePlan, layer: u8) -> (r: Result<String, Error>)
        ensures
            r matches Ok(id) && id@ == "im-"@ + decimal(final(self).counter as nat),
            final(self).counter == next_count(old(self).counter),
    {
        let ghost before = self.requests@;
        let copy = spec.duplicate();
        let ghost c = copy;
        self.record(RecordedCall::ImageGetOrCreate { spec: copy, layer });
        proof {
            assert(self.requests@.drop_last() =~= before);
            assert(recorded_images(self.requests@) =~= recorded_images(before).push(image_view(c, layer)));
        }
        let id = self.counted_id("im-");
        self.ledger_log = Ghost(Ledger { images: self.ledger_log@.images.push(id@), ..self.ledger_log@ });
        Ok(id)
    }

    fn precreate(&mut self, app_id: &str, object_tag: &str) -> (r: Result<String, Error>)
        ensures
            r matches Ok(id) && id@ == "fu-pre-1"@,
            final(self).counter == old(self).counter,
    {
        self.record(RecordedCall::FunctionPrecreate { function_name: String::from_str(object_tag) });
        let id = String::from_str("fu-pre-1");
        self.ledger_log = Ghost(Ledger { precreates: self.ledger_log@.precreates.push(id@), ..self.ledger_log@ });
        Ok(id)
    }

    fn create(&mut self, app_id: &str, precreate_id: &str, plan: &FunctionPlan) -> (r: Result<Created, Error>)
        ensures
            r matches Ok(c) && c.function_id@ == "fu-1"@ && c.definition_id@.len() == 0 && c.web_url@.len() == 0,
            final(self).counter == old(self).counter,
    {
        let ghost before = self.requests@;
        let copy = plan.duplicate();
        let ghost c = copy;
        self.record(RecordedCall::FunctionCreate { spec: copy });
        proof {
            assert(self.requests@.drop_last() =~= before);
            assert(recorded_plans(self.requests@) =~= recorded_plans(before).push(c));
        }
        let c = Created { function_id: String::from_str("fu-1"), definition_id: String::new(), web_url: String::new() };
        self.ledger_log = Ghost(
            Ledger {
                functions: self.ledger_log@.functions.push((c.function_id@, c.definition_id@, c.web_url@)),
                ..self.ledger_log@
            },
        );
        Ok(c)
    }

    fn publish(
        &mut self,
        app_id: &str,
        app_name: &str,
        function_ids: &Vec<(String, String)>,
        definition_ids: &Vec<(String, String)>,
        state: AppState,
    ) -> (r: Result<String, Error>)
        ensures
            r matches Ok(u) && u@.len() == 0,
            final(self).counter == old(self).counter,
    {
        let app_state = match state {
            AppState::Ephemeral => "ephemeral",
            AppState::Deployed => "deployed",
        };
        proof {
            reveal_strlit("ephemeral");
            reveal_strlit("deployed");
            assert(("ephemeral"@)[0] != ("deployed"@)[0]);
        }
        self.record(RecordedCall::AppPublish { app_state });
        let u = String::new();
        self.ledger_log = Ghost(
            Ledger {
                publishes: self.ledger_log@.publishes.push(
                    (crate::control_plane::log_map(function_ids@), crate::control_plane::log_map(definition_ids@)),
                ),
                urls: self.ledger_log@.urls.push(u@),
                ..self.ledger_log@
            },
        );
        Ok(u)
    }

    fn function_from_name(&mut self, app_name: &str, object_tag: &str) -> (r: Result<String, Error>)
        ensures
            r matches Ok(id) && id@ == "fu-1"@,
            final(self).counter == old(self).counter,
    {
        self.record(
            RecordedCall::FunctionFromName { app_name: String::from_str(app_name), object_tag: String::from_str(object_tag) },
        );
        let id = String::from_str("fu-1");
        self.ledger_log = Ghost(Ledger { lookups: self.ledger_log@.lookups.push(id@), ..self.ledger_log@ });
        Ok(id)
    }
}

/// Drives [`provision`] over a fresh recorder and returns what it recorded:
/// exactly the requests of [`expected_calls`] (the recorder builds no prebuild
/// stub, so no prebuild layer follows its mount), its function creates carrying
/// the entrypoints' plans in order. It fails only where the live
/// path would before any outside call could: a run without exactly one entrypoint, or a
/// run whose user volume sits at the cargo-cache path while the cache is on.
pub fn record_provision(inputs: &ProvisionInputs, boundary: &Boundary) -> (r: Result<Vec<RecordedCall>, Error>)
    ensures
        r is Ok <==> !(boundary.source_delivery == SourceDelivery::RunMount && (inputs.entrypoints@.len() != 1
            || run_collides(*inputs))),
        r matches Ok(v) ==> call_kinds(v@) == expected_calls(*inputs, *boundary, false),
        r matches Ok(v) ==> created_upto(*boundary, *inputs, Seq::empty(), recorded_plans(v@), inputs.entrypoints@.len() as int),
        r matches Ok(v) ==> images_built(*boundary, *inputs, Seq::empty(), recorded_images(v@), false),
        boundary.source_delivery == SourceDelivery::RunMount && inputs.entrypoints@.len() != 1 ==> (r matches Err(
            Error::Config(m),
        ) && m@ == "RUN provision requires exactly one entrypoint"@),
        boundary.source_delivery == SourceDelivery::RunMount && inputs.entrypoints@.len() == 1 && run_collides(*inputs) ==> (r matches Err(Error::Config(m))
            && m@ == cache_collision_message()),
{
    let mut cp = RecordingControlPlane::new();
    let mut published = Published::new();
    proof {
        assert(call_kinds(cp.requests@) =~= Seq::<Call>::empty());
        assert(recorded_plans(cp.requests@) =~= Seq::<FunctionPlan>::empty());
        assert(recorded_images(cp.requests@) =~= Seq::<(Seq<char>, Seq<OpView>, u8)>::empty());
    }
    match provision(&mut cp, inputs, boundary, &mut published) {
        Ok(p) => {
            proof {
                assert(call_kinds(cp.requests@) =~= expected_calls(*inputs, *boundary, p.dep_layer));
            }
            Ok(cp.requests)
        },
        Err(e) => Err(e),
    }
}

/// The requests a run or a deploy would send, as recorded offline.
#[derive(Debug, Clone)]
pub struct RecordedManifest {
    /// Run vs deploy.
    pub mode: RunMode,
    /// The app name.
    pub app_name: String,
    /// The recorded requests, in send order.
    pub requests: Vec<RecordedCall>,
}

/// The cache a run of an entrypoint uses: its own choice, else the run's.
pub open spec fn effective_cache(o: FunctionOptions, config: RemoteConfig) -> bool {
    match o.cache {
        Some(c) => c,
        None => config.cache,
    }
}

/// `o` is the decorator options recorded for `entrypoint` (the defaults when
/// none are), with the cache choice made explicit.
pub open spec fn dry_run_options(configs: Seq<(String, FunctionOptions)>, entrypoint: Seq<char>, config: RemoteConfig, o: FunctionOptions) -> bool {
    match config_for(configs, entrypoint) {
        Some(d) => o.cache == Some(effective_cache(d, config)) && same_options(o, FunctionOptions { cache: o.cache, ..d }),
        None => o.cache == Some(config.cache) && is_default_options(FunctionOptions { cache: None, ..o }),
    }
}

/// `i` is the provisioning inputs a dry run of `entrypoint` records: the
/// connected app's name (else the package), no app id yet, the run
/// configuration's build fields, and the entrypoint with its decorator options
/// and timeout (else the run's) and its effective cache.
pub open spec fn dry_run_inputs_of(
    configs: Seq<(String, FunctionOptions)>,
    connected_app_name: Option<Seq<char>>,
    entrypoint: Seq<char>,
    config: RemoteConfig,
    cache_target: bool,
    run_wrapper_src: Seq<char>,
    deploy_wrapper_src: Seq<char>,
    i: ProvisionInputs,
) -> bool {
    let o = i.entrypoints@[0].options;
    &&& i.app_name@ == match connected_app_name {
        Some(n) => n,
        None => config.package@,
    }
    &&& i.app_id is None
    &&& i.source.local_root@ == config.local_root@
    &&& i.source.package@ == config.package@
    &&& i.source.use_cargo_scoping == config.use_cargo_scoping
    &&& i.source.modalignore_name@ == config.modalignore_name@
    &&& i.source.remote_src@ == config.remote_src@
    &&& i.base_image@ == config.base_image@
    &&& i.install_rust == config.install_rust
    &&& steps_view(i.image_steps@) == steps_view(config.image_steps@)
    &&& i.cache_target == cache_target
    &&& !i.snapshot_best_effort
    &&& !i.dep_prebuild
    &&& i.run_wrapper_src@ == run_wrapper_src
    &&& i.deploy_wrapper_src@ == deploy_wrapper_src
    &&& i.entrypoints@.len() == 1
    &&& i.entrypoints@[0].name@ == entrypoint
    &&& dry_run_options(configs, entrypoint, config, o)
    &&& i.cache == o.cache->0
    &&& i.entrypoints@[0].timeout_secs == match o.timeout_secs {
        Some(t) => t,
        None => config.timeout_secs,
    }
}

/// The run manifest for `entrypoint`, recorded offline over the one
/// provisioning sequence: the decorator options recorded for it (`configs`)
/// with the run's cache as fallback, under the connected app's name (else the
/// package). It fails only where the run would before any outside call: a user
/// volume at the cargo-cache path while the cache is on.
pub fn dry_run(
    configs: &Vec<(String, FunctionOptions)>,
    connected_app_name: Option<&str>,
    entrypoint: &str,
    config: &RemoteConfig,
    cache_target: bool,
    run_wrapper_src: &str,
    deploy_wrapper_src: &str,
) -> (r: Result<RecordedManifest, Error>)
    ensures
        exists|i: ProvisionInputs| #[trigger]
            dry_run_inputs_of(
                configs@,
                crate::config::opt_borrowed(connected_app_name),
                entrypoint@,
                *config,
                cache_target,
                run_wrapper_src@,
                deploy_wrapper_src@,
                i,
            ) && {
                &&& r is Ok <==> !run_collides(i)
                &&& r matches Err(e) ==> e matches Error::Config(m) && m@ == cache_collision_message()
                &&& r matches Ok(m) ==> m.mode == RunMode::Run && m.app_name@ == i.app_name@
                    && call_kinds(m.requests@) == expected_calls(i, run_boundary_spec(), false)
                    && created_upto(run_boundary_spec(), i, Seq::empty(), recorded_plans(m.requests@), 1)
                    && images_built(run_boundary_spec(), i, Seq::empty(), recorded_images(m.requests@), false)
            },
{
    let mut options = options_for(configs, entrypoint);
    let cache = match options.cache {
        Some(c) => c,
        None => config.cache,
    };
    options.cache = Some(cache);
    let timeout = match options.timeout_secs {
        Some(t) => t,
        None => config.timeout_secs,
    };
    let app_name = match connected_app_name {
        Some(n) => String::from_str(n),
        None => config.package.clone(),
    };
    let mut entrypoints: Vec<Entrypoint> = Vec::new();
    entrypoints.push(Entrypoint { name: String::from_str(entrypoint), options, timeout_secs: timeout });
    let inputs = ProvisionInputs {
        app_name: app_name.clone(),
        app_id: None,
        source: SourceInputs {
            local_root: config.local_root.clone(),
            package: config.package.clone(),
            use_cargo_scoping: config.use_cargo_scoping,
            modalignore_name: config.modalignore_name.clone(),
            remote_src: config.remote_src.clone(),
        },
        base_image: config.base_image.clone(),
        install_rust: config.install_rust,
        image_steps: clone_steps(&config.image_steps),
        cache,
        cache_target,
        snapshot_best_effort: false,
        dep_prebuild: false,
        run_wrapper_src: String::from_str(run_wrapper_src),
        deploy_wrapper_src: String::from_str(deploy_wrapper_src),
        entrypoints,
    };
    proof {
        let c = crate::config::opt_borrowed(connected_app_name);
        assert(dry_run_inputs_of(configs@, c, entrypoint@, *config, cache_target, run_wrapper_src@, deploy_wrapper_src@, inputs));
    }
    let boundary = run_boundary();
    match record_provision(&inputs, &boundary) {
        Ok(requests) => Ok(RecordedManifest { mode: RunMode::Run, app_name, requests }),
        Err(e) => Err(e),
    }
}

/// `i` is the provisioning inputs a deploy dump records for the plan `eps`:
/// the deploy configuration's fields as they stand (no image folded in), the
/// plan's functions with their own timeouts (else the deploy's).
pub open spec fn dump_inputs_of(
    configs: Seq<(String, FunctionOptions)>,
    known_names: Seq<String>,
    config: DeployConfig,
    dep_prebuild: bool,
    run_wrapper_src: Seq<char>,
    deploy_wrapper_src: Seq<char>,
    eps: Seq<DeployEntrypoint>,
    i: ProvisionInputs,
) -> bool {
    &&& dump_entrypoints(configs, known_names, config, eps)
    &&& deploy_planned(config, eps, i.entrypoints@)
    &&& i.app_name@ == config.app_name@
    &&& i.app_id is None
    &&& i.source.local_root@ == config.local_root@
    &&& i.source.package@ == config.package@
    &&& i.source.use_cargo_scoping == config.use_cargo_scoping
    &&& i.source.modalignore_name@ == config.modalignore_name@
    &&& i.source.remote_src@ == crate::deploy::DEPLOY_SRC@
    &&& i.base_image@ == config.base_image@
    &&& i.install_rust == config.install_rust
    &&& steps_view(i.image_steps@) == steps_view(config.image_steps@)
    &&& !i.cache
    &&& i.cache_target
    &&& i.snapshot_best_effort == config.snapshot_best_effort
    &&& i.dep_prebuild == dep_prebuild
    &&& i.run_wrapper_src@ == run_wrapper_src
    &&& i.deploy_wrapper_src@ == deploy_wrapper_src
}

/// The deploy manifest, recorded offline over the one provisioning sequence:
/// the app's declared configurations (else its registered names, else one
/// function under the shared callable) planned under the deploy
/// configuration. It never fails.
pub fn dump_deploy_manifest(
    configs: &Vec<(String, FunctionOptions)>,
    known_names: &Vec<String>,
    config: &DeployConfig,
    dep_prebuild: bool,
    run_wrapper_src: &str,
    deploy_wrapper_src: &str,
) -> (r: Result<RecordedManifest, Error>)
    ensures
        r is Ok,
        exists|eps: Seq<DeployEntrypoint>, i: ProvisionInputs| #[trigger]
            dump_inputs_of(configs@, known_names@, *config, dep_prebuild, run_wrapper_src@, deploy_wrapper_src@, eps, i) && (
            r matches Ok(m) ==> m.mode == RunMode::Deploy && m.app_name@ == config.app_name@ && call_kinds(m.requests@)
                == expected_calls(i, deploy_boundary_spec(), false) && created_upto(
                deploy_boundary_spec(),
                i,
                Seq::empty(),
                recorded_plans(m.requests@),
                i.entrypoints@.len() as int,
            ) && images_built(deploy_boundary_spec(), i, Seq::empty(), recorded_images(m.requests@), false)),
{
    let eps = deploy_entrypoints_for_dump(configs, known_names, config);
    let plan = deploy_plan(config, &eps);
    let inputs = deploy_inputs(config, plan, dep_prebuild, run_wrapper_src, deploy_wrapper_src);
    proof {
        assert(dump_inputs_of(configs@, known_names@, *config, dep_prebuild, run_wrapper_src@, deploy_wrapper_src@, eps@, inputs));
    }
    let boundary = deploy_boundary();
    match record_provision(&inputs, &boundary) {
        Ok(requests) => Ok(RecordedManifest { mode: RunMode::Deploy, app_name: config.app_name.clone(), requests }),
        Err(e) => Err(e),
    }
}

/// The dump cannot drift from the live path: what a recording of some inputs
/// holds (its calls, its function plans and its image layers) is what any
/// plane that provisions the same inputs without a prebuild layer is handed:
/// the same calls with the same arguments, one plan per entrypoint planned
/// alike, and as many image layers.
pub proof fn lemma_dump_matches_live<C: ControlPlane>(i: ProvisionInputs, b: Boundary, v: Seq<RecordedCall>, before: C, after: C)
    requires
        call_kinds(v) == expected_calls(i, b, false),
        created_upto(b, i, Seq::empty(), recorded_plans(v), i.entrypoints@.len() as int),
        images_built(b, i, Seq::empty(), recorded_images(v), false),
        crate::control_plane::provisioned_over(b, i, before, after, false),
    ensures
        after.calls() == before.calls() + call_kinds(v),
        after.created().len() == before.created().len() + recorded_plans(v).len(),
        forall|k: int| 0 <= k < recorded_plans(v).len() ==> #[trigger] crate::control_plane::planned_at(b, i, k, recorded_plans(v)[k])
            && crate::control_plane::planned_at(b, i, k, after.created()[before.created().len() + k]),
        after.built().len() == before.built().len() + recorded_images(v).len(),
{
    assert forall|k: int| 0 <= k < recorded_plans(v).len() implies #[trigger] crate::control_plane::planned_at(
        b,
        i,
        k,
        recorded_plans(v)[k],
    ) && crate::control_plane::planned_at(b, i, k, after.created()[before.created().len() + k]) by {
        assert(recorded_plans(v)[0 + k] == recorded_plans(v)[k]);
    }
    match b.source_delivery {
        SourceDelivery::RunMount => {
            let py1 = choose|py: Seq<char>| recorded_images(v) == Seq::<(Seq<char>, Seq<OpView>, u8)>::empty().push(
                (i.base_image@, #[trigger] crate::control_plane::run_layer_ops(i, py), 0u8),
            );
            let py2 = choose|py: Seq<char>| after.built() == before.built().push(
                (i.base_image@, #[trigger] crate::control_plane::run_layer_ops(i, py), 0u8),
            );
        },
        SourceDelivery::DeployContext => {
            let (a, b1, c, d, e) = choose|a: Seq<char>, b1: Seq<char>, c: Seq<char>, d: Seq<char>, e: Seq<char>|
                recorded_images(v) == Seq::<(Seq<char>, Seq<OpView>, u8)>::empty() + #[trigger] crate::control_plane::deploy_layers(
                    i,
                    a,
                    b1,
                    c,
                    d,
                    e,
                    false,
                );
            let (a2, b2, c2, d2, e2) = choose|a: Seq<char>, b1: Seq<char>, c: Seq<char>, d: Seq<char>, e: Seq<char>|
                after.built() == before.built() + #[trigger] crate::control_plane::deploy_layers(i, a, b1, c, d, e, false);
        },
    }
}

} // verus!
