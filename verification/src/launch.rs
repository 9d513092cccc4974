//! The launch protocol: validates a start request and assembles the spawn
//! command for one instance.
//!
//! Paths are modelled as strings joined with `/`; the embedding program
//! hands in whether each launch artifact exists and performs the spawn
//! itself.  Preconditions are checked in order — instance not already
//! running, main artifact present, asset bundle present — and no registry
//! mutation happens here.

use vstd::prelude::*;
use vstd::string::StringExecFns;

use crate::errors::SupervisorError;
use crate::registry::Registry;
use crate::text::split_ws_spec;
use crate::text::split_ws_str;

verus! {

/// The outcome envelope of a start request.
#[derive(Debug, Clone, PartialEq, Eq)]
pub struct StartResult {
    pub success: bool,
    pub pid: Option<u32>,
    pub error: Option<String>,
}

/// A successful start, reporting the spawned process id.
pub fn start_success(pid: u32) -> (r: StartResult)
    ensures
        r.success,
        r.pid == Some(pid),
        r.error is None,
{
    StartResult { success: true, pid: Some(pid), error: None }
}

/// A failed start, carrying the error's message.
pub fn start_failure(err: &SupervisorError) -> (r: StartResult)
    ensures
        !r.success,
        r.pid is None,
        match r.error {
            Some(m) => m@ == err.message_spec(),
            None => false,
        },
{
    StartResult { success: false, pid: None, error: Some(err.message()) }
}

/// `base` and `rest` joined by the path separator.
pub open spec fn join_path(base: Seq<char>, rest: Seq<char>) -> Seq<char> {
    base + "/"@ + rest
}

/// The main launch artifact: `<root>/Server/HytaleServer.jar`.
pub open spec fn server_jar_path_spec(root: Seq<char>) -> Seq<char> {
    join_path(join_path(root, "Server"@), "HytaleServer.jar"@)
}

/// The asset bundle: `<root>/Assets.zip`.
pub open spec fn assets_path_spec(root: Seq<char>) -> Seq<char> {
    join_path(root, "Assets.zip"@)
}

/// The ahead-of-time cache artifact: `<root>/Server/HytaleServer.aot`.
pub open spec fn aot_cache_path_spec(root: Seq<char>) -> Seq<char> {
    join_path(join_path(root, "Server"@), "HytaleServer.aot"@)
}

/// The working directory of a spawned instance: `<root>/Server`.
pub open spec fn working_dir_spec(root: Seq<char>) -> Seq<char> {
    join_path(root, "Server"@)
}

/// The cache flag passed when the cache artifact is present.
pub open spec fn aot_flag_spec(root: Seq<char>) -> Seq<char> {
    "-XX:AOTCache="@ + aot_cache_path_spec(root)
}

/// The interpreter used when none is configured.
pub open spec fn default_interpreter() -> Seq<char> {
    "java"@
}

/// The full argument list of a launch: interpreter-level tokens, the
/// optional cache flag, the artifact invocation, the asset reference,
/// then process-level tokens.
pub open spec fn launch_args_spec(
    root: Seq<char>,
    jvm: Seq<Seq<char>>,
    aot_exists: bool,
    server: Seq<Seq<char>>,
) -> Seq<Seq<char>> {
    jvm + (if aot_exists {
        seq![aot_flag_spec(root)]
    } else {
        Seq::empty()
    }) + seq!["-jar"@, server_jar_path_spec(root), "--assets"@, assets_path_spec(root)] + server
}

/// The argument strings carry exactly the expected character sequences.
pub open spec fn args_match(args: Seq<String>, expected: Seq<Seq<char>>) -> bool {
    args.len() == expected.len() && forall|i: int| 0 <= i < args.len() ==> args[i]@ == expected[i]
}

/// The assembled spawn command for one instance.
#[derive(Debug)]
pub struct LaunchPlan {
    pub program: String,
    pub args: Vec<String>,
    pub working_dir: String,
}

/// Joins two path components with the separator.
pub fn join_path_str(base: &str, rest: &str) -> (r: String)
    ensures
        r@ == join_path(base@, rest@),
{
    let mut s = String::from_str(base);
    s.append("/");
    s.append(rest);
    s
}

/// Appends every element of `src` to `dst`, in order.
fn append_all(dst: &mut Vec<String>, src: Vec<String>)
    ensures
        final(dst)@ == old(dst)@ + src@,
{
    let mut rest = src;
    let ghost dst0 = dst@;
    let ghost src0 = rest@;
    while rest.len() > 0
        invariant
            dst@ + rest@ == dst0 + src0,
        decreases rest@.len(),
    {
        let ghost d = dst@;
        let ghost r = rest@;
        let s = rest.remove(0);
        dst.push(s);
        proof {
            assert(d.push(r[0]) + r.skip(1) =~= d + r);
            assert(rest@ =~= r.skip(1));
        }
    }
    proof {
        assert(dst@ + rest@ =~= dst@);
    }
}

/// Validates a start request and assembles its spawn command.
///
/// Checks, in order: the instance is not already running, the main
/// artifact exists, the asset bundle exists.  On success the plan holds
/// the configured interpreter (or the default), the assembled argument
/// list, and the working directory; nothing is mutated.
pub fn plan_launch(
    registry: &Registry,
    instance_id: &String,
    instance_path: &str,
    java_path: &Option<String>,
    jvm_args: &Option<String>,
    server_args: &Option<String>,
    jar_exists: bool,
    assets_exists: bool,
    aot_exists: bool,
) -> (r: Result<LaunchPlan, SupervisorError>)
    requires
        registry.wf(),
    ensures
        ({
            let root = instance_path@;
            let jvm = match jvm_args {
                Some(a) => split_ws_spec(a@),
                None => Seq::empty(),
            };
            let server = match server_args {
                Some(a) => split_ws_spec(a@),
                None => Seq::empty(),
            };
            match r {
                Ok(plan) => !registry.contains_id(instance_id@) && jar_exists && assets_exists
                    && plan.program@ == (match java_path {
                    Some(j) => j@,
                    None => default_interpreter(),
                }) && plan.working_dir@ == working_dir_spec(root) && args_match(
                    plan.args@,
                    launch_args_spec(root, jvm, aot_exists, server),
                ),
                Err(SupervisorError::AlreadyRunning) => registry.contains_id(instance_id@),
                Err(SupervisorError::ArtifactMissing(p)) => !registry.contains_id(instance_id@)
                    && ((!jar_exists && p@ == server_jar_path_spec(root)) || (jar_exists
                    && !assets_exists && p@ == assets_path_spec(root))),
                Err(_) => false,
            }
        }),
{
    if registry.contains(instance_id) {
        return Err(SupervisorError::AlreadyRunning);
    }
    let server_dir = join_path_str(instance_path, "Server");
    let jar_path = join_path_str(server_dir.as_str(), "HytaleServer.jar");
    if !jar_exists {
        return Err(SupervisorError::ArtifactMissing(jar_path));
    }
    let assets_path = join_path_str(instance_path, "Assets.zip");
    if !assets_exists {
        return Err(SupervisorError::ArtifactMissing(assets_path));
    }

    let program = match java_path {
        Some(j) => j.clone(),
        None => String::from_str("java"),
    };

    let ghost root = instance_path@;
    let ghost jvm_spec = match jvm_args {
        Some(a) => split_ws_spec(a@),
        None => Seq::<Seq<char>>::empty(),
    };
    let ghost server_spec = match server_args {
        Some(a) => split_ws_spec(a@),
        None => Seq::<Seq<char>>::empty(),
    };

    let mut args: Vec<String> = match jvm_args {
        Some(a) => split_ws_str(a.as_str()),
        None => Vec::new(),
    };
    proof {
        assert(args@.len() == jvm_spec.len());
    }

    if aot_exists {
        let aot_path = join_path_str(server_dir.as_str(), "HytaleServer.aot");
        let mut flag = String::from_str("-XX:AOTCache=");
        flag.append(aot_path.as_str());
        args.push(flag);
    }

    args.push(String::from_str("-jar"));
    args.push(jar_path);
    args.push(String::from_str("--assets"));
    args.push(assets_path);

    let server_tokens = match server_args {
        Some(a) => split_ws_str(a.as_str()),
        None => Vec::new(),
    };
    proof {
        assert(server_tokens@.len() == server_spec.len());
    }
    append_all(&mut args, server_tokens);

    proof {
        let mid: Seq<Seq<char>> = if aot_exists {
            seq![aot_flag_spec(root)]
        } else {
            Seq::empty()
        };
        let fixed: Seq<Seq<char>> = seq![
            "-jar"@,
            server_jar_path_spec(root),
            "--assets"@,
            assets_path_spec(root),
        ];
        let expected = launch_args_spec(root, jvm_spec, aot_exists, server_spec);
        assert(expected.len() == jvm_spec.len() + mid.len() + 4 + server_spec.len());
        assert(args@.len() == expected.len());
        assert forall|i: int| 0 <= i < args@.len() implies args@[i]@ == expected[i] by {
            let jl = jvm_spec.len() as int;
            let ml = mid.len() as int;
            assert(expected[i] == (jvm_spec + mid + fixed + server_spec)[i]);
            if i < jl {
                assert(expected[i] == jvm_spec[i]);
            } else if i < jl + ml {
                assert(expected[i] == mid[i - jl]);
            } else if i < jl + ml + 4 {
                assert(expected[i] == fixed[i - jl - ml]);
            } else {
                assert(expected[i] == server_spec[i - jl - ml - 4]);
            }
        }
    }

    Ok(LaunchPlan { program, args, working_dir: server_dir })
}

} // verus!
