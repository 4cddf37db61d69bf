//! The decisions behind the lifecycle and inspect commands: which sidecars a
//! command acts on, where a sidecar runs, and which socket `inspect` talks to.
use vstd::prelude::*;

use crate::paths::{is_absolute, is_absolute_path, join_path, path_join};
use crate::plan::{ExecutionPlan, SidecarPlan};
use crate::socket::{parse_endpoint, EndpointView, SocketEndpoint};
use crate::process::StampedProcess;
use crate::text::{cat, cat3, copy_str, decimal, decimal_string, starts_with_str, str_eq};

verus! {

/// The names of the sidecars of a plan.
pub open spec fn plan_names(plan: ExecutionPlan) -> Seq<Seq<char>> {
    plan.sidecars@.map_values(|s: SidecarPlan| s.name@)
}

/// The first position at or after `i` where `names` holds `name`.
pub open spec fn find_from(names: Seq<Seq<char>>, name: Seq<char>, i: int) -> Option<int>
    decreases names.len() - i,
{
    if i < 0 || i >= names.len() {
        None
    } else if names[i] == name {
        Some(i)
    } else {
        find_from(names, name, i + 1)
    }
}

/// The search finds the first position at or after `i` that holds `name`,
/// and finds nothing exactly when no such position holds it.
pub proof fn lemma_find_from_is_first(names: Seq<Seq<char>>, name: Seq<char>, i: int)
    requires
        0 <= i,
    ensures
        match find_from(names, name, i) {
            Some(k) => i <= k < names.len() && names[k] == name && forall|j: int|
                i <= j < k ==> #[trigger] names[j] != name,
            None => forall|j: int| i <= j < names.len() ==> #[trigger] names[j] != name,
        },
    decreases names.len() - i,
{
    if i < names.len() && names[i] != name {
        lemma_find_from_is_first(names, name, i + 1);
    }
}

/// The position of the first sidecar of `plan` named `name`.
pub fn find_sidecar(plan: &ExecutionPlan, name: &str) -> (r: Option<usize>)
    ensures
        match r {
            Some(k) => find_from(plan_names(*plan), name@, 0) == Some(k as int) && k
                < plan.sidecars.len(),
            None => find_from(plan_names(*plan), name@, 0) is None,
        },
{
    let ghost names = plan_names(*plan);
    let mut i: usize = 0;
    while i < plan.sidecars.len()
        invariant
            i <= plan.sidecars.len(),
            names == plan_names(*plan),
            find_from(names, name@, 0) == find_from(names, name@, i as int),
        decreases plan.sidecars.len() - i,
    {
        assert(names[i as int] == plan.sidecars@[i as int].name@);
        if str_eq(plan.sidecars[i].name.as_str(), name) {
            return Some(i);
        }
        i = i + 1;
    }
    None
}

/// The refusal of an unknown sidecar name.
pub open spec fn unknown_sidecar_message(name: Seq<char>) -> Seq<char> {
    "unknown sidecar `"@ + name + "` in this manifest"@
}

/// The sidecars that a lifecycle command acts on: the one named, or all of
/// them; a name that no sidecar has, or a manifest without sidecars, is refused.
pub fn select_targets<'plan>(plan: &'plan ExecutionPlan, sidecar: Option<&str>) -> (res: Result<
    Vec<&'plan SidecarPlan>,
    String,
>)
    ensures
        match sidecar {
            Some(name) => match find_from(plan_names(*plan), name@, 0) {
                Some(k) => res matches Ok(v) && v@.len() == 1 && *v@[0] == plan.sidecars@[k],
                None => res matches Err(e) && e@ == unknown_sidecar_message(name@),
            },
            None => if plan.sidecars.len() == 0 {
                res matches Err(e) && e@ == "manifest declares no sidecars"@
            } else {
                res matches Ok(v) && v@.len() == plan.sidecars.len() && forall|i: int|
                    0 <= i < v@.len() ==> *v@[i] == plan.sidecars@[i]
            },
        },
{
    match sidecar {
        Some(name) => match find_sidecar(plan, name) {
            Some(k) => {
                let mut v: Vec<&'plan SidecarPlan> = Vec::new();
                v.push(&plan.sidecars[k]);
                Ok(v)
            },
            None => Err(cat3("unknown sidecar `", name, "` in this manifest")),
        },
        None => {
            if plan.sidecars.len() == 0 {
                return Err(copy_str("manifest declares no sidecars"));
            }
            let mut v: Vec<&'plan SidecarPlan> = Vec::new();
            let mut i: usize = 0;
            while i < plan.sidecars.len()
                invariant
                    i <= plan.sidecars.len(),
                    v@.len() == i,
                    forall|j: int| 0 <= j < i ==> *v@[j] == plan.sidecars@[j],
                decreases plan.sidecars.len() - i,
            {
                v.push(&plan.sidecars[i]);
                i = i + 1;
            }
            Ok(v)
        },
    }
}

/// The directory a sidecar runs in: its `cwd` when absolute on the platform,
/// else `cwd` joined to the manifest's directory, when there is one.
pub open spec fn cwd_of(windows: bool, config_dir: Option<Seq<char>>, cwd: Seq<char>) -> Seq<
    char,
> {
    if is_absolute(windows, cwd) {
        cwd
    } else {
        match config_dir {
            Some(dir) => path_join(windows, dir, cwd),
            None => cwd,
        }
    }
}

/// The directory a sidecar runs in.
pub fn resolve_cwd(windows: bool, config_dir: Option<&str>, cwd: &str) -> (out: String)
    ensures
        out@ == cwd_of(
            windows,
            match config_dir {
                Some(d) => Some(d@),
                None => None,
            },
            cwd@,
        ),
{
    if is_absolute_path(windows, cwd) {
        return copy_str(cwd);
    }
    match config_dir {
        Some(dir) => join_path(windows, dir, cwd),
        None => copy_str(cwd),
    }
}

/// A sidecar's `cwd` that is not absolute is taken below the manifest's
/// directory, whatever that directory is, relative or absolute; an absolute
/// `cwd` is taken as it is; without a manifest directory `cwd` is taken as it
/// is. On Unix, below means with one `/` between the two unless the
/// directory ends in one; on Windows with one `\`, for a plain relative
/// `cwd` (no drive, no leading separator).
pub proof fn lemma_cwd_below_manifest_dir(windows: bool, dir: Seq<char>, cwd: Seq<char>)
    ensures
        !is_absolute(windows, cwd) ==> cwd_of(windows, Some(dir), cwd) == path_join(
            windows,
            dir,
            cwd,
        ),
        is_absolute(windows, cwd) ==> cwd_of(windows, Some(dir), cwd) == cwd,
        cwd_of(windows, None, cwd) == cwd,
        (cwd.len() == 0 || cwd[0] != '/') && dir.len() > 0 && dir.last() != '/' ==> cwd_of(
            false,
            Some(dir),
            cwd,
        ) == dir + seq!['/'] + cwd,
        (cwd.len() == 0 || cwd[0] != '/') && dir.len() > 0 && dir.last() == '/' ==> cwd_of(
            false,
            Some(dir),
            cwd,
        ) == dir + cwd,
        cwd.len() > 0 && cwd[0] == '/' ==> cwd_of(false, Some(dir), cwd) == cwd,
        cwd.len() > 0 && cwd[0] != '/' && cwd[0] != '\\' && !(cwd.len() >= 2 && cwd[1] == ':')
            && dir.len() > 0 && dir.last() != '/' && dir.last() != '\\' && !(dir.len() == 2
            && dir[1] == ':') ==> cwd_of(true, Some(dir), cwd) == dir + seq!['\\'] + cwd,
{
}

/// The socket that `inspect <sidecar>` talks to, or why there is none.
pub open spec fn inspect_endpoint_of(plan: ExecutionPlan, name: Seq<char>) -> Result<
    EndpointView,
    Seq<char>,
> {
    match find_from(plan_names(plan), name, 0) {
        None => Err(unknown_sidecar_message(name)),
        Some(k) => match plan.sidecars@[k].inspect_socket {
            None => Err(
                "sidecar `"@ + name + "` has no inspect_socket configured in this manifest"@,
            ),
            Some(socket) => parse_endpoint(socket@),
        },
    }
}

/// The socket that `inspect <sidecar>` talks to: the parsed `inspect_socket`
/// of the first sidecar with that name.
pub fn resolve_inspect_endpoint(plan: &ExecutionPlan, sidecar: &str) -> (res: Result<
    SocketEndpoint,
    String,
>)
    ensures
        match res {
            Ok(e) => inspect_endpoint_of(*plan, sidecar@) == Ok::<EndpointView, Seq<char>>(e@),
            Err(m) => inspect_endpoint_of(*plan, sidecar@) == Err::<EndpointView, Seq<char>>(m@),
        },
{
    let k = match find_sidecar(plan, sidecar) {
        Some(k) => k,
        None => {
            return Err(cat3("unknown sidecar `", sidecar, "` in this manifest"));
        },
    };
    match &plan.sidecars[k].inspect_socket {
        None => Err(
            cat3("sidecar `", sidecar, "` has no inspect_socket configured in this manifest"),
        ),
        Some(socket) => match SocketEndpoint::parse(socket.as_str()) {
            Ok(e) => Ok(e),
            Err(err) => Err(err.to_string()),
        },
    }
}

/// `start` refuses a sidecar that already runs, naming the first of its
/// stamped processes.
pub open spec fn start_refusal(name: Seq<char>, running: Seq<StampedProcess>) -> Option<Seq<char>> {
    if running.len() == 0 {
        None
    } else {
        Some(
            "sidecar `"@ + name + "` is already running (pid "@ + decimal(running[0].pid as nat)
                + "); run `sidecar stop` first"@,
        )
    }
}

/// Whether `start` may spawn the sidecar `name`, given the stamped processes
/// already running for it.
pub fn check_not_running(name: &str, running: &[StampedProcess]) -> (res: Result<(), String>)
    ensures
        match res {
            Ok(()) => start_refusal(name@, running@) is None,
            Err(e) => start_refusal(name@, running@) == Some(e@),
        },
{
    if running.len() == 0 {
        return Ok(());
    }
    let pid = decimal_string(running[0].pid as usize);
    let head = cat3("sidecar `", name, "` is already running (pid ");
    let tail = cat(pid.as_str(), "); run `sidecar stop` first");
    Err(cat(head.as_str(), tail.as_str()))
}

/// The closing notice of `stop`: when no sidecar was named and none was
/// stopped, `no sidecars were running`.
pub fn stop_notice(stopped_total: usize, sidecar: Option<&str>) -> (notice: Option<String>)
    ensures
        match notice {
            Some(n) => stopped_total == 0 && sidecar is None && n@ == "no sidecars were running"@,
            None => !(stopped_total == 0 && sidecar is None),
        },
{
    if stopped_total == 0 && sidecar.is_none() {
        Some(copy_str("no sidecars were running"))
    } else {
        None
    }
}

/// The notice of `stop` for a sidecar without stamped processes, and of
/// `reset` for a namespace without them.
pub fn idle_notice(name: &str, running: &[StampedProcess], reset: bool) -> (notice: Option<String>)
    ensures
        match notice {
            Some(n) => running.len() == 0 && n@ == if reset {
                "namespace `"@ + name@ + "` has no stamped processes"@
            } else {
                "not running: "@ + name@
            },
            None => running.len() > 0,
        },
{
    if running.len() > 0 {
        None
    } else if reset {
        Some(cat3("namespace `", name, "` has no stamped processes"))
    } else {
        Some(cat("not running: ", name))
    }
}

} // verus!
