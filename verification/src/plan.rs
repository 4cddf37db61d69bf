//! Execution plans: what a manifest asks the tool to run.
use vstd::prelude::*;

use crate::config::{AppConfig, InspectEndpointConfig, Manifest, ProjectConfig, SidecarConfig};
use crate::stamp::{
    avoids_stamp_flags, lemma_flag_value_skips, lemma_stamp_round_trip, stamp_args, stamp_of,
    Stamp, DEFAULT_SOURCE, STAMP_APP_FLAG, STAMP_MODE_FLAG, STAMP_NAMESPACE_FLAG,
    STAMP_SOURCE_FLAG,
};
use crate::text::{copy_str, opt_view, views};

verus! {

#[derive(Clone, Debug, PartialEq, Eq)]
pub struct ExecutionPlan {
    pub project: String,
    pub namespace: String,
    pub root: String,
    pub app: Option<AppPlan>,
    pub sidecars: Vec<SidecarPlan>,
    pub inspect_endpoints: Vec<InspectEndpointPlan>,
}

#[derive(Clone, Debug, PartialEq, Eq)]
pub struct AppPlan {
    pub name: String,
    pub command: String,
    pub args: Vec<String>,
    pub cwd: String,
    pub health_url: Option<String>,
}

#[derive(Clone, Debug, PartialEq, Eq)]
pub struct SidecarPlan {
    pub name: String,
    pub command: String,
    pub args: Vec<String>,
    pub cwd: String,
    pub stamp: Stamp,
    pub inspect_socket: Option<String>,
    pub health_url: Option<String>,
}

#[derive(Clone, Debug, PartialEq, Eq)]
pub struct InspectEndpointPlan {
    pub name: String,
    pub kind: String,
    pub url: String,
}

/// A copy of a list of strings.
pub fn copy_strings(v: &Vec<String>) -> (out: Vec<String>)
    ensures
        views(out@) == views(v@),
{
    let mut out: Vec<String> = Vec::new();
    let mut i: usize = 0;
    while i < v.len()
        invariant
            i <= v.len(),
            views(out@) == views(v@).take(i as int),
        decreases v.len() - i,
    {
        let ghost prev = out@;
        let c = copy_str(v[i].as_str());
        out.push(c);
        assert(views(out@) =~= views(prev).push(v@[i as int]@));
        assert(views(out@) =~= views(v@).take(i + 1));
        i = i + 1;
    }
    assert(views(v@).take(v.len() as int) =~= views(v@));
    out
}

/// A copy of an optional string.
pub fn copy_opt(o: &Option<String>) -> (out: Option<String>)
    ensures
        opt_view(out) == opt_view(*o),
{
    match o {
        Some(s) => Some(copy_str(s.as_str())),
        None => None,
    }
}

impl AppPlan {
    /// This plan carries the settings of `c` unchanged.
    pub open spec fn models(self, c: AppConfig) -> bool {
        &&& self.name@ == c.name@
        &&& self.command@ == c.command@
        &&& views(self.args@) == views(c.args@)
        &&& self.cwd@ == c.cwd@
        &&& opt_view(self.health_url) == opt_view(c.health_url)
    }

    pub fn from_config(config: &AppConfig) -> (plan: Self)
        ensures
            plan.models(*config),
    {
        AppPlan {
            name: copy_str(config.name.as_str()),
            command: copy_str(config.command.as_str()),
            args: copy_strings(&config.args),
            cwd: copy_str(config.cwd.as_str()),
            health_url: copy_opt(&config.health_url),
        }
    }
}

impl SidecarPlan {
    /// This plan carries the settings of `c`, stamped with its name and mode,
    /// the namespace of `project` and the tool's own source label.
    pub open spec fn models(self, c: SidecarConfig, project: ProjectConfig) -> bool {
        &&& self.name@ == c.name@
        &&& self.command@ == c.command@
        &&& views(self.args@) == views(c.args@)
        &&& self.cwd@ == c.cwd@
        &&& opt_view(self.inspect_socket) == opt_view(c.inspect_socket)
        &&& opt_view(self.health_url) == opt_view(c.health_url)
        &&& self.stamp.app@ == c.name@
        &&& self.stamp.namespace@ == project.namespace@
        &&& self.stamp.mode@ == c.mode@
        &&& self.stamp.source@ == DEFAULT_SOURCE@
    }

    pub fn from_config(config: &SidecarConfig, project: &ProjectConfig) -> (plan: Self)
        ensures
            plan.models(*config, *project),
    {
        let stamp = Stamp {
            app: copy_str(config.name.as_str()),
            namespace: copy_str(project.namespace.as_str()),
            mode: copy_str(config.mode.as_str()),
            source: copy_str(DEFAULT_SOURCE),
        };
        SidecarPlan {
            name: copy_str(config.name.as_str()),
            command: copy_str(config.command.as_str()),
            args: copy_strings(&config.args),
            cwd: copy_str(config.cwd.as_str()),
            stamp,
            inspect_socket: copy_opt(&config.inspect_socket),
            health_url: copy_opt(&config.health_url),
        }
    }

    /// The argv to spawn with: the sidecar's own args, then its stamp args.
    pub open spec fn spawn_args_view(self) -> Seq<Seq<char>> {
        views(self.args@) + stamp_args(
            self.stamp.app@,
            self.stamp.namespace@,
            self.stamp.mode@,
            self.stamp.source@,
        )
    }

    /// Final argv to spawn (sidecar args followed by stamp args).
    pub fn spawn_args(&self) -> (argv: Vec<String>)
        ensures
            views(argv@) == self.spawn_args_view(),
    {
        let mut argv = copy_strings(&self.args);
        let mut stamp = self.stamp.args();
        let ghost first = views(argv@);
        let ghost second = views(stamp@);
        argv.append(&mut stamp);
        assert(views(argv@) =~= first + second);
        argv
    }
}

/// A spawned sidecar is discoverable: the argv it is spawned with reads back as
/// its stamp, provided that its own args carry no stamp flag.
pub proof fn lemma_spawned_sidecar_carries_its_stamp(plan: SidecarPlan)
    requires
        forall|i: int| 0 <= i < plan.args.len() ==> avoids_stamp_flags(#[trigger] views(plan.args@)[i]),
    ensures
        stamp_of(plan.spawn_args_view()) == Some(plan.stamp.labels()),
{
    let front = views(plan.args@);
    let rest = stamp_args(
        plan.stamp.app@,
        plan.stamp.namespace@,
        plan.stamp.mode@,
        plan.stamp.source@,
    );
    lemma_flag_value_skips(front, rest, STAMP_APP_FLAG@);
    lemma_flag_value_skips(front, rest, STAMP_NAMESPACE_FLAG@);
    lemma_flag_value_skips(front, rest, STAMP_MODE_FLAG@);
    lemma_flag_value_skips(front, rest, STAMP_SOURCE_FLAG@);
    lemma_stamp_round_trip(plan.stamp.app@, plan.stamp.namespace@, plan.stamp.mode@, plan.stamp.source@);
}

impl InspectEndpointPlan {
    /// This plan carries the settings of `c` unchanged.
    pub open spec fn models(self, c: InspectEndpointConfig) -> bool {
        &&& self.name@ == c.name@
        &&& self.kind@ == c.kind@
        &&& self.url@ == c.url@
    }

    pub fn from_config(config: &InspectEndpointConfig) -> (plan: Self)
        ensures
            plan.models(*config),
    {
        InspectEndpointPlan {
            name: copy_str(config.name.as_str()),
            kind: copy_str(config.kind.as_str()),
            url: copy_str(config.url.as_str()),
        }
    }
}

impl ExecutionPlan {
    /// This plan carries the project settings of `c`, and one plan per app,
    /// sidecar and inspect endpoint of `c`, in the manifest's order.
    pub open spec fn models(self, c: Manifest) -> bool {
        &&& self.project@ == c.project.name@
        &&& self.namespace@ == c.project.namespace@
        &&& self.root@ == c.project.root@
        &&& match (self.app, c.app) {
            (Some(p), Some(a)) => p.models(a),
            (None, None) => true,
            _ => false,
        }
        &&& self.sidecars.len() == c.sidecars.len()
        &&& forall|i: int|
            0 <= i < self.sidecars.len() ==> (#[trigger] self.sidecars@[i]).models(
                c.sidecars@[i],
                c.project,
            )
        &&& self.inspect_endpoints.len() == c.inspect.endpoints.len()
        &&& forall|i: int|
            0 <= i < self.inspect_endpoints.len() ==> (
            #[trigger] self.inspect_endpoints@[i]).models(c.inspect.endpoints@[i])
    }

    pub fn from_config(config: &Manifest) -> (plan: Self)
        ensures
            plan.models(*config),
    {
        let app = match &config.app {
            Some(a) => Some(AppPlan::from_config(a)),
            None => None,
        };
        let mut sidecars: Vec<SidecarPlan> = Vec::new();
        let mut i: usize = 0;
        while i < config.sidecars.len()
            invariant
                i <= config.sidecars.len(),
                sidecars.len() == i,
                forall|j: int|
                    0 <= j < i ==> (#[trigger] sidecars@[j]).models(
                        config.sidecars@[j],
                        config.project,
                    ),
            decreases config.sidecars.len() - i,
        {
            sidecars.push(SidecarPlan::from_config(&config.sidecars[i], &config.project));
            i = i + 1;
        }
        let mut endpoints: Vec<InspectEndpointPlan> = Vec::new();
        let mut k: usize = 0;
        while k < config.inspect.endpoints.len()
            invariant
                k <= config.inspect.endpoints.len(),
                endpoints.len() == k,
                forall|j: int|
                    0 <= j < k ==> (#[trigger] endpoints@[j]).models(config.inspect.endpoints@[j]),
            decreases config.inspect.endpoints.len() - k,
        {
            endpoints.push(InspectEndpointPlan::from_config(&config.inspect.endpoints[k]));
            k = k + 1;
        }
        ExecutionPlan {
            project: copy_str(config.project.name.as_str()),
            namespace: copy_str(config.project.namespace.as_str()),
            root: copy_str(config.project.root.as_str()),
            app,
            sidecars,
            inspect_endpoints: endpoints,
        }
    }
}

} // verus!
