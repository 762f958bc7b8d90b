//! Everything that the creation of the restricted process is called with.
//!
//! The process is created from a restricted token, inside an AppContainer
//! without capabilities, suspended, with an explicit list of the handles that
//! it may inherit.  It is put into a job that ends it with the parent and
//! allows it no process beside itself, and only then set going.

use super::attribute_list::{
    valid_places, Attribute, ThreadAttribute, ThreadAttributeHandles, ThreadAttributeList,
    ThreadAttributeSecurityCapabilities,
};
use super::conv::{append_units, as_c_str_w, copy_units, wide, wide_text};
use super::environ::{
    any_pair_has_nul, env_block, raised_key, sort_pairs, unique_ignoring_case, upper_key, EnvPair,
};
use super::error::WindowsSandboxError;
use super::win32::{
    create_suspended, create_unicode_environment, extended_startupinfo_present,
    job_object_limit_active_process, job_object_limit_kill_on_job_close, startf_usestdhandles,
};
use super::launch_quote::{check_unique_keys, encode_env_strings, is_nul_error, is_twice_error};
use crate::runtime::error::SandboxError;
use vstd::prelude::*;
use vstd::string::StringExecFns;

verus! {

/// The process is created with its first thread held back.
pub const CREATE_SUSPENDED: u32 = 0x0000_0004;

/// The environment block is made of UTF-16 code units.
pub const CREATE_UNICODE_ENVIRONMENT: u32 = 0x0000_0400;

/// The start-up information carries the list of attributes.
pub const EXTENDED_STARTUPINFO_PRESENT: u32 = 0x0008_0000;

/// The start-up information names the handles of the standard streams.
pub const STARTF_USESTDHANDLES: u32 = 0x0000_0100;

/// The job allows only so many processes as its limit says.
pub const JOB_OBJECT_LIMIT_ACTIVE_PROCESS: u32 = 0x0000_0008;

/// The processes of the job end when the last handle of the job is closed.
pub const JOB_OBJECT_LIMIT_KILL_ON_JOB_CLOSE: u32 = 0x0000_2000;

/// What the system said about the place that the process runs in.
pub struct ContainerFacts {
    /// The folder of the AppContainer profile.
    pub folder: Vec<u16>,
    /// The parent's `SYSTEMROOT`, where it has one.
    pub system_root: Option<Vec<u16>>,
    /// The parent's `WINDIR`, where it has one.
    pub windir: Option<Vec<u16>>,
}

/// Everything that the creation of the process, and of its job, is called
/// with.
pub struct CreationPlan {
    /// The executable, with its NUL.
    pub app: Vec<u16>,
    /// The command line, with its NUL.
    pub cmdline: Vec<u16>,
    /// The directory to start in, with its NUL.
    pub cwd: Vec<u16>,
    /// The environment block.
    pub env_block: Vec<u16>,
    pub stdin: Option<usize>,
    pub stdout: Option<usize>,
    pub stderr: Option<usize>,
    /// The attributes of the process: its handles and its AppContainer.
    pub attributes: ThreadAttributeList,
    /// Whether handles are inherited at all.  The list of handles is the
    /// gate; without this it would let nothing through.
    pub inherit_handles: bool,
    pub creation_flags: u32,
    pub startup_flags: u32,
    pub job_limit_flags: u32,
    pub active_process_limit: u32,
}

/// True for the keys of the variables that the launch decides, letter case
/// set aside: the system root, the Windows directory, the search path, and
/// the folders of the AppContainer.
pub open spec fn is_forced(key: Seq<u16>) -> bool {
    ||| upper_key(key) == "SYSTEMROOT"@
    ||| upper_key(key) == "WINDIR"@
    ||| upper_key(key) == "PATH"@
    ||| upper_key(key) == "LOCALAPPDATA"@
    ||| upper_key(key) == "TEMP"@
    ||| upper_key(key) == "TMP"@
}

/// The variables whose keys the launch does not decide, in their order.
pub open spec fn without_forced(env: Seq<EnvPair>) -> Seq<EnvPair>
    decreases env.len(),
{
    if env.len() == 0 {
        Seq::empty()
    } else if is_forced(env.last().0) {
        without_forced(env.drop_last())
    } else {
        without_forced(env.drop_last()).push(env.last())
    }
}

/// The minimal search path: the system root and its `System32`.
pub open spec fn minimal_path(system_root: Seq<u16>) -> Seq<u16> {
    system_root + wide_text(";"@) + system_root + wide_text("\\System32"@)
}

/// The variables that the launch decides: the system root and the Windows
/// directory of the parent, a minimal search path, and the folders of the
/// AppContainer.
pub open spec fn forced_pairs(folder: Seq<u16>, system_root: Seq<u16>, windir: Seq<u16>) -> Seq<
    EnvPair,
> {
    seq![
        (wide_text("SystemRoot"@), system_root),
        (wide_text("Windir"@), windir),
        (wide_text("Path"@), minimal_path(system_root)),
        (wide_text("LOCALAPPDATA"@), folder),
        (wide_text("TEMP"@), folder + wide_text("\\Temp"@)),
        (wide_text("TMP"@), folder + wide_text("\\Temp"@)),
    ]
}

/// The environment that the process is given: the caller's variables but
/// those whose keys the launch decides, and behind them the variables that
/// the launch decides.  Whatever the caller named for one of these, in any
/// letter case, does not reach the process.
pub open spec fn with_defaults(
    env: Seq<EnvPair>,
    folder: Seq<u16>,
    system_root: Seq<u16>,
    windir: Seq<u16>,
) -> Seq<EnvPair> {
    without_forced(env) + forced_pairs(folder, system_root, windir)
}

/// Of the caller's variables exactly those reach the process whose keys the
/// launch does not decide: none of the variables that are kept has such a key,
/// and every variable of the caller with another key is kept.
pub proof fn lemma_without_forced(env: Seq<EnvPair>)
    ensures
        forall|k: int|
            0 <= k < without_forced(env).len() ==> !is_forced((#[trigger] without_forced(env)[k]).0)
                && env.contains(without_forced(env)[k]),
        forall|i: int|
            0 <= i < env.len() && !is_forced((#[trigger] env[i]).0) ==> without_forced(
                env,
            ).contains(env[i]),
    decreases env.len(),
{
    if env.len() > 0 {
        let init = env.drop_last();
        let kept = without_forced(env);
        lemma_without_forced(init);
        assert forall|k: int| 0 <= k < kept.len() implies !is_forced((#[trigger] kept[k]).0)
            && env.contains(kept[k]) by {
            if k < without_forced(init).len() {
                let pair = without_forced(init)[k];
                assert(init.contains(pair));
                let j = choose|j: int| 0 <= j < init.len() && init[j] == pair;
                assert(env[j] == pair);
            } else {
                assert(env[env.len() - 1] == kept[k]);
            }
        }
        assert forall|i: int| 0 <= i < env.len() && !is_forced((#[trigger] env[i]).0) implies kept.contains(
            env[i],
        ) by {
            if i < init.len() {
                assert(init[i] == env[i]);
                assert(without_forced(init).contains(env[i]));
                let k = choose|k: int|
                    0 <= k < without_forced(init).len() && without_forced(init)[k] == env[i];
                assert(kept[k] == env[i]);
            } else {
                assert(kept[kept.len() - 1] == env[i]);
            }
        }
    }
}

/// In an environment that names no variable twice, each variable that the
/// launch decides is the only one of its key, letter case set aside, and has
/// the value that the launch gave it.
pub proof fn lemma_forced_variables_stand_alone(
    env: Seq<EnvPair>,
    folder: Seq<u16>,
    system_root: Seq<u16>,
    windir: Seq<u16>,
    k: int,
    i: int,
)
    requires
        unique_ignoring_case(with_defaults(env, folder, system_root, windir)),
        0 <= k < 6,
        0 <= i < with_defaults(env, folder, system_root, windir).len(),
        upper_key(with_defaults(env, folder, system_root, windir)[i].0) == upper_key(
            forced_pairs(folder, system_root, windir)[k].0,
        ),
    ensures
        i == without_forced(env).len() + k,
        with_defaults(env, folder, system_root, windir)[i] == forced_pairs(
            folder,
            system_root,
            windir,
        )[k],
{
    let all = with_defaults(env, folder, system_root, windir);
    let at = without_forced(env).len() + k;
    assert(all[at] == forced_pairs(folder, system_root, windir)[k]);
    if i < at {
        assert(upper_key(all[i].0) != upper_key(all[at].0));
    } else if at < i {
        assert(upper_key(all[at].0) != upper_key(all[i].0));
    }
}

/// The handles that may cross into the process: the extra ones, then those of
/// the standard streams that there are.
pub open spec fn allowed_handles_of(
    extra: Seq<usize>,
    stdin: Option<usize>,
    stdout: Option<usize>,
    stderr: Option<usize>,
) -> Seq<usize> {
    extra + optional(stdin) + optional(stdout) + optional(stderr)
}

/// A handle that may be missing, as a list.
pub open spec fn optional(handle: Option<usize>) -> Seq<usize> {
    match handle {
        Some(h) => seq![h],
        None => Seq::empty(),
    }
}

/// The list of the handles that may cross into the process.  There must be
/// one at least: Windows takes no empty list, and a process without a handle
/// could talk to nobody.
pub fn allowed_handle_list(
    allowed_handles: &Vec<usize>,
    stdin: Option<usize>,
    stdout: Option<usize>,
    stderr: Option<usize>,
) -> (r: Result<Vec<usize>, WindowsSandboxError>)
    ensures
        allowed_handles_of(allowed_handles@, stdin, stdout, stderr).len() > 0 <==> r is Ok,
        r matches Ok(handles) ==> handles@ == allowed_handles_of(
            allowed_handles@,
            stdin,
            stdout,
            stderr,
        ),
        r matches Err(e) ==> e matches WindowsSandboxError::Sandbox(SandboxError::JailSetup(m))
            && m@ == "must have at least 1 handle"@,
{
    let mut handles: Vec<usize> = Vec::with_capacity(allowed_handles.len());
    let mut i: usize = 0;
    while i < allowed_handles.len()
        invariant
            i <= allowed_handles@.len(),
            handles@ == allowed_handles@.take(i as int),
        decreases allowed_handles@.len() - i,
    {
        handles.push(allowed_handles[i]);
        i += 1;
        assert(handles@ =~= allowed_handles@.take(i as int));
    }
    assert(allowed_handles@.take(i as int) =~= allowed_handles@);
    match stdin {
        Some(h) => {
            handles.push(h);
        },
        None => (),
    };
    match stdout {
        Some(h) => {
            handles.push(h);
        },
        None => (),
    };
    match stderr {
        Some(h) => {
            handles.push(h);
        },
        None => (),
    };
    assert(handles@ =~= allowed_handles_of(allowed_handles@, stdin, stdout, stderr));
    if handles.len() == 0 {
        return Err(WindowsSandboxError::setup_message("must have at least 1 handle"));
    }
    Ok(handles)
}

/// The environment without the variables that the launch decides.
fn drop_forced(environ: Vec<(Vec<u16>, Vec<u16>)>) -> (kept: Vec<(Vec<u16>, Vec<u16>)>)
    ensures
        kept.deep_view() == without_forced(environ.deep_view()),
{
    let ghost pairs = environ.deep_view();
    let root = String::from_str("SYSTEMROOT");
    let windir = String::from_str("WINDIR");
    let path = String::from_str("PATH");
    let local = String::from_str("LOCALAPPDATA");
    let temp = String::from_str("TEMP");
    let tmp = String::from_str("TMP");
    let mut kept: Vec<(Vec<u16>, Vec<u16>)> = Vec::new();
    let mut i: usize = 0;
    proof {
        assert(pairs.take(0) =~= Seq::<EnvPair>::empty());
        assert(kept.deep_view() =~= without_forced(pairs.take(0)));
    }
    while i < environ.len()
        invariant
            i <= environ@.len(),
            pairs == environ.deep_view(),
            root@ == "SYSTEMROOT"@,
            windir@ == "WINDIR"@,
            path@ == "PATH"@,
            local@ == "LOCALAPPDATA"@,
            temp@ == "TEMP"@,
            tmp@ == "TMP"@,
            kept.deep_view() == without_forced(pairs.take(i as int)),
        decreases environ@.len() - i,
    {
        let ghost pair = (environ@[i as int].0@, environ@[i as int].1@);
        let ghost before = kept.deep_view();
        proof {
            assert(pairs[i as int] == pair);
            assert(pairs.take(i + 1).drop_last() =~= pairs.take(i as int));
            assert(pairs.take(i + 1).last() == pair);
        }
        let raised = raised_key(&environ[i].0);
        if !(raised == root || raised == windir || raised == path || raised == local || raised
            == temp || raised == tmp) {
            kept.push((copy_units(&environ[i].0), copy_units(&environ[i].1)));
            proof {
                assert(kept.deep_view() =~~= before.push(pair));
            }
        }
        i += 1;
    }
    assert(pairs.take(i as int) =~= pairs);
    kept
}

/// A variable from a name of ASCII characters and a value.
fn variable(name: &str, value: Vec<u16>) -> (pair: (Vec<u16>, Vec<u16>))
    requires
        name.is_ascii(),
    ensures
        pair.0@ == wide_text(name@),
        pair.1@ == value@,
{
    (wide(name), value)
}

/// The value of a variable of the parent, or nothing where the parent has
/// none.
fn value_or_empty(value: &Option<Vec<u16>>) -> (r: Vec<u16>)
    ensures
        r@ == value_of(*value),
{
    match value {
        Some(v) => copy_units(v),
        None => Vec::new(),
    }
}

/// The value of a variable of the parent, or nothing where the parent has
/// none.
pub open spec fn value_of(value: Option<Vec<u16>>) -> Seq<u16> {
    match value {
        Some(v) => v@,
        None => Seq::empty(),
    }
}

/// The environment block of the process: the caller's variables without
/// those that the launch decides, then the system root, the Windows directory
/// and a minimal search path from the parent and the folders of the
/// AppContainer, sorted and encoded.
fn with_default_environ(facts: &ContainerFacts, environ: Vec<(Vec<u16>, Vec<u16>)>) -> (r: Result<
    Vec<u16>,
    WindowsSandboxError,
>)
    ensures
        ({
            let env = with_defaults(
                environ.deep_view(),
                facts.folder@,
                value_of(facts.system_root),
                value_of(facts.windir),
            );
            &&& (unique_ignoring_case(env) && !any_pair_has_nul(env)) <==> r is Ok
            &&& r matches Ok(block) ==> block@ == env_block(sort_pairs(env))
            &&& r matches Err(e) ==> e matches WindowsSandboxError::Sandbox(s) && if !unique_ignoring_case(
                env,
            ) {
                is_twice_error(s)
            } else {
                is_nul_error(s)
            }
        }),
{
    let system_root = value_or_empty(&facts.system_root);
    proof {
        reveal_strlit("SystemRoot");
        reveal_strlit("Windir");
        reveal_strlit("Path");
        reveal_strlit("LOCALAPPDATA");
        reveal_strlit("TEMP");
        reveal_strlit("TMP");
        reveal_strlit(";");
        reveal_strlit("\\System32");
        reveal_strlit("\\Temp");
    }
    // What the caller named for the variables of the launch does not count.
    let mut environ = drop_forced(environ);
    let ghost kept = environ.deep_view();
    // The system root and the Windows directory are the parent's.
    let root = variable("SystemRoot", copy_units(&system_root));
    let windir = variable("Windir", value_or_empty(&facts.windir));
    // A minimal path.
    let mut path = copy_units(&system_root);
    append_units(&mut path, &wide(";"));
    append_units(&mut path, &system_root);
    append_units(&mut path, &wide("\\System32"));
    let path = variable("Path", path);
    // The AppContainer profile folders.
    let mut temp_folder = copy_units(&facts.folder);
    append_units(&mut temp_folder, &wide("\\Temp"));
    let local = variable("LOCALAPPDATA", copy_units(&facts.folder));
    let temp = variable("TEMP", copy_units(&temp_folder));
    let tmp = variable("TMP", temp_folder);
    environ.push(root);
    environ.push(windir);
    environ.push(path);
    environ.push(local);
    environ.push(temp);
    environ.push(tmp);
    proof {
        assert(environ.deep_view() =~~= kept + forced_pairs(
            facts.folder@,
            value_of(facts.system_root),
            value_of(facts.windir),
        ));
    }
    match check_unique_keys(&environ) {
        Ok(_) => {},
        Err(e) => {
            return Err(WindowsSandboxError::Sandbox(e));
        },
    }
    match encode_env_strings(&environ) {
        Ok(block) => Ok(block),
        Err(e) => Err(WindowsSandboxError::Sandbox(e)),
    }
}

/// Spawn the executable in a restricted mode: everything that the creation of
/// the process is called with.
///
/// `cmdline` is the quoted command line with its NUL, `env` the caller's
/// environment, `allowed_handles` the handles beside those of the standard
/// streams that the process may inherit, `sid` the security identifier of the
/// AppContainer.  Of the caller's environment the variables that the launch
/// decides do not count; the launch puts its own in their place.  The launch
/// is refused where no handle at all would cross into the process, where the
/// environment of the process would name a variable twice, letter case set
/// aside, and where a variable holds a NUL.
pub fn launch_restricted(
    exe: &Vec<u16>,
    cmdline: &Vec<u16>,
    cwd: &Vec<u16>,
    env: Vec<(Vec<u16>, Vec<u16>)>,
    stdin: Option<usize>,
    stdout: Option<usize>,
    stderr: Option<usize>,
    allowed_handles: &Vec<usize>,
    sid: usize,
    facts: &ContainerFacts,
) -> (r: Result<CreationPlan, WindowsSandboxError>)
    ensures
        ({
            let handles = allowed_handles_of(allowed_handles@, stdin, stdout, stderr);
            let environment = with_defaults(
                env.deep_view(),
                facts.folder@,
                value_of(facts.system_root),
                value_of(facts.windir),
            );
            &&& (handles.len() > 0 && unique_ignoring_case(environment) && !any_pair_has_nul(
                environment,
            )) <==> r is Ok
            &&& r matches Ok(plan) ==> {
                &&& plan.app@ == exe@.push(0u16)
                &&& plan.cmdline@ == cmdline@
                &&& plan.cwd@ == cwd@.push(0u16)
                &&& plan.env_block@ == env_block(sort_pairs(environment))
                &&& plan.stdin == stdin && plan.stdout == stdout && plan.stderr == stderr
                &&& plan.attributes.entries().len() == 2
                &&& plan.attributes.entries()[0] matches Attribute::Handles(h) && h.handles@
                    == handles
                &&& plan.attributes.entries()[1] matches Attribute::SecurityCapabilities(c)
                    && c.app_container_sid == sid && c.capability_count == 0
                &&& plan.inherit_handles
                &&& plan.creation_flags == CREATE_SUSPENDED | EXTENDED_STARTUPINFO_PRESENT
                    | CREATE_UNICODE_ENVIRONMENT
                &&& plan.startup_flags == STARTF_USESTDHANDLES
                &&& plan.job_limit_flags == JOB_OBJECT_LIMIT_KILL_ON_JOB_CLOSE
                    | JOB_OBJECT_LIMIT_ACTIVE_PROCESS
                &&& plan.active_process_limit == 1
            }
            &&& r matches Err(e) ==> e matches WindowsSandboxError::Sandbox(s) && if handles.len()
                == 0 {
                s matches SandboxError::JailSetup(m) && m@ == "must have at least 1 handle"@
            } else if !unique_ignoring_case(environment) {
                is_twice_error(s)
            } else {
                is_nul_error(s)
            }
        }),
{
    // Pre-condition check.
    let handles = allowed_handle_list(allowed_handles, stdin, stdout, stderr)?;
    let ghost listed = handles@;
    // Build the attribute list.
    let mut wanted: Vec<Attribute> = Vec::new();
    // Allow the child process to access the allowed handles list.
    wanted.push(Attribute::Handles(ThreadAttributeHandles { handles }));
    // Security Capabilities tells the creation to make an AppContainer token.
    // Capabilities = none => no file/network capabilities beyond the default container allowances.
    wanted.push(
        Attribute::SecurityCapabilities(
            ThreadAttributeSecurityCapabilities { app_container_sid: sid, capability_count: 0 },
        ),
    );
    proof {
        let w = wanted@;
        assert(w.drop_last().drop_last() =~= Seq::<Attribute>::empty());
        assert(w.drop_last().last() == w[0]);
        assert(w[0].is_valid() && w[1].is_valid());
        assert(valid_places(w.drop_last().drop_last()) =~= Seq::<int>::empty());
        assert(valid_places(w.drop_last()) =~= seq![0int]);
        assert(valid_places(w) =~= seq![0int, 1int]);
    }
    let attributes = ThreadAttributeList::new(wanted);
    let app = as_c_str_w(exe);
    let cwd = as_c_str_w(cwd);
    let env_block = with_default_environ(facts, env)?;
    Ok(
        CreationPlan {
            app,
            cmdline: copy_units(cmdline),
            cwd,
            env_block,
            stdin,
            stdout,
            stderr,
            attributes,
            // Must be true to allow handle inheritance to occur at all.
            inherit_handles: true,
            // Start suspended to allow the job assignment before execution.
            creation_flags: create_suspended() | extended_startupinfo_present()
                | create_unicode_environment(),
            startup_flags: startf_usestdhandles(),
            job_limit_flags: job_object_limit_kill_on_job_close()
                | job_object_limit_active_process(),
            active_process_limit: 1,
        },
    )
}

/// How far the creation of the process has come.
#[derive(Debug, Clone, Copy, PartialEq, Eq, Structural)]
pub enum SpawnState {
    /// Nothing is made yet.
    Prepared,
    /// The process exists; its first thread is held back.
    Suspended,
    /// The job exists.
    JobCreated,
    /// The job has its limits.
    JobLimited,
    /// The process is in the job.
    Assigned,
    /// The process runs.
    Running,
    /// A step has failed.
    Failed,
}

/// The state that follows when the step of a state went well or failed.
pub open spec fn spawn_state_after(state: SpawnState, ok: bool) -> SpawnState {
    match state {
        SpawnState::Prepared => if ok {
            SpawnState::Suspended
        } else {
            SpawnState::Failed
        },
        SpawnState::Suspended => if ok {
            SpawnState::JobCreated
        } else {
            SpawnState::Failed
        },
        SpawnState::JobCreated => if ok {
            SpawnState::JobLimited
        } else {
            SpawnState::Failed
        },
        SpawnState::JobLimited => if ok {
            SpawnState::Assigned
        } else {
            SpawnState::Failed
        },
        SpawnState::Assigned => SpawnState::Running,
        SpawnState::Running => SpawnState::Running,
        SpawnState::Failed => SpawnState::Failed,
    }
}

/// The state of the creation once the step of its state went well or failed:
/// the process is created, the job is created, the job is given its limits,
/// the process is put into the job, the first thread is set going.
pub fn spawn_step(state: SpawnState, ok: bool) -> (next: SpawnState)
    ensures
        next == spawn_state_after(state, ok),
{
    match state {
        SpawnState::Prepared => if ok {
            SpawnState::Suspended
        } else {
            SpawnState::Failed
        },
        SpawnState::Suspended => if ok {
            SpawnState::JobCreated
        } else {
            SpawnState::Failed
        },
        SpawnState::JobCreated => if ok {
            SpawnState::JobLimited
        } else {
            SpawnState::Failed
        },
        SpawnState::JobLimited => if ok {
            SpawnState::Assigned
        } else {
            SpawnState::Failed
        },
        SpawnState::Assigned => SpawnState::Running,
        SpawnState::Running => SpawnState::Running,
        SpawnState::Failed => SpawnState::Failed,
    }
}

/// The process is set going only inside its job: the one state from which a
/// step leads to the running process is the state in which the process is in
/// the job, and that state is reached only when the job has its limits.
pub proof fn lemma_runs_only_in_job(state: SpawnState, ok: bool)
    ensures
        spawn_state_after(state, ok) is Running ==> state is Assigned || state is Running,
        spawn_state_after(state, ok) is Assigned ==> state is JobLimited && ok,
        spawn_state_after(state, ok) is JobLimited ==> state is JobCreated && ok,
        spawn_state_after(state, ok) is JobCreated ==> state is Suspended && ok,
{
}

/// The process is created held back, and its job takes no second process and
/// ends with its last handle.
pub proof fn lemma_flags_hold()
    ensures
        (CREATE_SUSPENDED | EXTENDED_STARTUPINFO_PRESENT | CREATE_UNICODE_ENVIRONMENT)
            & CREATE_SUSPENDED == CREATE_SUSPENDED,
        (CREATE_SUSPENDED | EXTENDED_STARTUPINFO_PRESENT | CREATE_UNICODE_ENVIRONMENT)
            & EXTENDED_STARTUPINFO_PRESENT == EXTENDED_STARTUPINFO_PRESENT,
        (JOB_OBJECT_LIMIT_KILL_ON_JOB_CLOSE | JOB_OBJECT_LIMIT_ACTIVE_PROCESS)
            & JOB_OBJECT_LIMIT_KILL_ON_JOB_CLOSE == JOB_OBJECT_LIMIT_KILL_ON_JOB_CLOSE,
        (JOB_OBJECT_LIMIT_KILL_ON_JOB_CLOSE | JOB_OBJECT_LIMIT_ACTIVE_PROCESS)
            & JOB_OBJECT_LIMIT_ACTIVE_PROCESS == JOB_OBJECT_LIMIT_ACTIVE_PROCESS,
{
    assert((0x4u32 | 0x80000u32 | 0x400u32) & 0x4u32 == 0x4u32) by (bit_vector);
    assert((0x4u32 | 0x80000u32 | 0x400u32) & 0x80000u32 == 0x80000u32) by (bit_vector);
    assert((0x2000u32 | 0x8u32) & 0x2000u32 == 0x2000u32) by (bit_vector);
    assert((0x2000u32 | 0x8u32) & 0x8u32 == 0x8u32) by (bit_vector);
}

} // verus!
