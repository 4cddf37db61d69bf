//! A loaded manifest and the checks that `doctor` reports on it.
use vstd::prelude::*;

use crate::config::Manifest;
use crate::plan::ExecutionPlan;
use crate::socket::{parse_endpoint, SocketEndpoint};
use crate::text::{cat, cat3, copy_str, decimal, decimal_string, is_blank, is_blank_str, str_eq};

verus! {

/// How serious a diagnostic is.
#[derive(Clone, Copy, Debug, PartialEq, Eq)]
pub enum Severity {
    Error,
    Warning,
}

/// One finding of `doctor`: where in the manifest, and what.
#[derive(Clone, Debug, PartialEq, Eq)]
pub struct Diagnostic {
    pub severity: Severity,
    pub path: String,
    pub message: String,
}

/// A diagnostic as plain values: severity, manifest path, message.
pub type DiagnosticView = (Severity, Seq<char>, Seq<char>);

impl Diagnostic {
    pub open spec fn view(self) -> DiagnosticView {
        (self.severity, self.path@, self.message@)
    }

    pub fn error(path: &str, message: &str) -> (d: Self)
        ensures
            d@ == (Severity::Error, path@, message@),
    {
        Diagnostic { severity: Severity::Error, path: copy_str(path), message: copy_str(message) }
    }

    pub fn warning(path: &str, message: &str) -> (d: Self)
        ensures
            d@ == (Severity::Warning, path@, message@),
    {
        Diagnostic {
            severity: Severity::Warning,
            path: copy_str(path),
            message: copy_str(message),
        }
    }
}

/// The views of a list of diagnostics.
pub open spec fn diagnostic_views(v: Seq<Diagnostic>) -> Seq<DiagnosticView> {
    v.map_values(|d: Diagnostic| d@)
}

pub const VALUE_EMPTY_MESSAGE: &'static str = "value must not be empty";

pub const NO_APP_MESSAGE: &'static str =
    "no app command is configured; only sidecar and inspect plans can run";

pub const DUPLICATE_SIDECAR_MESSAGE: &'static str = "duplicate sidecar name `";

pub const DUPLICATE_ENDPOINT_MESSAGE: &'static str = "duplicate inspect endpoint name `";

/// The diagnostic for a required value, if it is blank.
pub open spec fn required(path: Seq<char>, value: Seq<char>) -> Seq<DiagnosticView> {
    if is_blank(value) {
        seq![(Severity::Error, path, VALUE_EMPTY_MESSAGE@)]
    } else {
        Seq::empty()
    }
}

/// The manifest path of sidecar `i`: `sidecars[<i>]`.
pub open spec fn sidecar_path(i: nat) -> Seq<char> {
    "sidecars["@ + decimal(i) + "]"@
}

/// The manifest path of inspect endpoint `i`: `inspect.endpoints[<i>]`.
pub open spec fn endpoint_path(i: nat) -> Seq<char> {
    "inspect.endpoints["@ + decimal(i) + "]"@
}

/// Some entry before `i` in `names` equals `names[i]`.
pub open spec fn seen_before(names: Seq<Seq<char>>, i: int) -> bool {
    exists|j: int| 0 <= j < i && names[j] == names[i]
}

/// The names of the sidecars of a manifest.
pub open spec fn sidecar_names(c: Manifest) -> Seq<Seq<char>> {
    c.sidecars@.map_values(|s: crate::config::SidecarConfig| s.name@)
}

/// The names of the inspect endpoints of a manifest.
pub open spec fn endpoint_names(c: Manifest) -> Seq<Seq<char>> {
    c.inspect.endpoints@.map_values(|e: crate::config::InspectEndpointConfig| e.name@)
}

/// What `doctor` reports on the project and app sections.
pub open spec fn head_diagnostics(c: Manifest) -> Seq<DiagnosticView> {
    required("project.name"@, c.project.name@) + match c.app {
        Some(app) => required("app.name"@, app.name@) + required("app.command"@, app.command@),
        None => seq![(Severity::Warning, "app"@, NO_APP_MESSAGE@)],
    }
}

/// What `doctor` reports on sidecar `i`: blank name or command, a name that
/// an earlier sidecar already has, and an inspect socket that does not parse.
pub open spec fn sidecar_diagnostics(c: Manifest, i: int) -> Seq<DiagnosticView> {
    let s = c.sidecars@[i];
    let path = sidecar_path(i as nat);
    required(path + ".name"@, s.name@) + required(path + ".command"@, s.command@) + (if !is_blank(
        s.name@,
    ) && seen_before(sidecar_names(c), i) {
        seq![(Severity::Error, path + ".name"@, DUPLICATE_SIDECAR_MESSAGE@ + s.name@ + "`"@)]
    } else {
        Seq::empty()
    }) + match s.inspect_socket {
        Some(socket) => match parse_endpoint(socket@) {
            Err(message) => seq![(Severity::Error, path + ".socket"@, message)],
            Ok(_) => Seq::empty(),
        },
        None => Seq::empty(),
    }
}

/// What `doctor` reports on inspect endpoint `i`: blank name, kind or url,
/// and a name that an earlier endpoint already has.
pub open spec fn endpoint_diagnostics(c: Manifest, i: int) -> Seq<DiagnosticView> {
    let e = c.inspect.endpoints@[i];
    let path = endpoint_path(i as nat);
    required(path + ".name"@, e.name@) + required(path + ".kind"@, e.kind@) + required(
        path + ".url"@,
        e.url@,
    ) + (if !is_blank(e.name@) && seen_before(endpoint_names(c), i) {
        seq![(Severity::Error, path + ".name"@, DUPLICATE_ENDPOINT_MESSAGE@ + e.name@ + "`"@)]
    } else {
        Seq::empty()
    })
}

/// The reports `f(0)`, ..., `f(n - 1)`, one after the other.
pub open spec fn reports_upto(f: spec_fn(int) -> Seq<DiagnosticView>, n: int) -> Seq<
    DiagnosticView,
>
    decreases n,
{
    if n <= 0 {
        Seq::empty()
    } else {
        reports_upto(f, n - 1) + f(n - 1)
    }
}

/// The reports on the first `n` sidecars, in order.
pub open spec fn sidecars_diagnostics(c: Manifest, n: int) -> Seq<DiagnosticView> {
    reports_upto(|i: int| sidecar_diagnostics(c, i), n)
}

/// The reports on the first `n` inspect endpoints, in order.
pub open spec fn endpoints_diagnostics(c: Manifest, n: int) -> Seq<DiagnosticView> {
    reports_upto(|i: int| endpoint_diagnostics(c, i), n)
}

/// Everything `doctor` reports on a manifest, in order.
pub open spec fn manifest_diagnostics(c: Manifest) -> Seq<DiagnosticView> {
    head_diagnostics(c) + sidecars_diagnostics(c, c.sidecars.len() as int) + endpoints_diagnostics(
        c,
        c.inspect.endpoints.len() as int,
    )
}

/// What one report holds, the reports up to a later one hold too.
proof fn lemma_reports_upto_contain(
    f: spec_fn(int) -> Seq<DiagnosticView>,
    n: int,
    i: int,
    d: DiagnosticView,
)
    requires
        0 <= i < n,
        f(i).contains(d),
    ensures
        reports_upto(f, n).contains(d),
    decreases n,
{
    let own = f(i);
    let k = choose|k: int| 0 <= k < own.len() && #[trigger] own[k] == d;
    let prev = reports_upto(f, n - 1);
    if i == n - 1 {
        assert(reports_upto(f, n)[prev.len() + k] == d);
    } else {
        lemma_reports_upto_contain(f, n - 1, i, d);
        let j = choose|j: int| 0 <= j < prev.len() && #[trigger] prev[j] == d;
        assert(reports_upto(f, n)[j] == d);
    }
}

/// Duplicate sidecar names are reported: every sidecar whose non-blank name
/// an earlier sidecar already has gets an error at its `name` path.
pub proof fn lemma_duplicate_sidecar_reported(c: Manifest, j: int, i: int)
    requires
        0 <= j < i < c.sidecars.len(),
        c.sidecars@[j].name@ == c.sidecars@[i].name@,
        !is_blank(c.sidecars@[i].name@),
    ensures
        manifest_diagnostics(c).contains(
            (
                Severity::Error,
                sidecar_path(i as nat) + ".name"@,
                DUPLICATE_SIDECAR_MESSAGE@ + c.sidecars@[i].name@ + "`"@,
            ),
        ),
{
    let s = c.sidecars@[i];
    let path = sidecar_path(i as nat);
    let d = (Severity::Error, path + ".name"@, DUPLICATE_SIDECAR_MESSAGE@ + s.name@ + "`"@);
    assert(sidecar_names(c)[j] == sidecar_names(c)[i]);
    assert(seen_before(sidecar_names(c), i));
    let a = required(path + ".name"@, s.name@) + required(path + ".command"@, s.command@);
    assert(sidecar_diagnostics(c, i)[a.len() as int] == d);
    lemma_reports_upto_contain(|k: int| sidecar_diagnostics(c, k), c.sidecars.len() as int, i, d);
    let all = sidecars_diagnostics(c, c.sidecars.len() as int);
    let m = choose|m: int| 0 <= m < all.len() && #[trigger] all[m] == d;
    assert(manifest_diagnostics(c)[head_diagnostics(c).len() + m] == d);
}

/// Duplicate inspect endpoint names are reported: every endpoint whose
/// non-blank name an earlier endpoint already has gets an error at its `name`
/// path.
pub proof fn lemma_duplicate_endpoint_reported(c: Manifest, j: int, i: int)
    requires
        0 <= j < i < c.inspect.endpoints.len(),
        c.inspect.endpoints@[j].name@ == c.inspect.endpoints@[i].name@,
        !is_blank(c.inspect.endpoints@[i].name@),
    ensures
        manifest_diagnostics(c).contains(
            (
                Severity::Error,
                endpoint_path(i as nat) + ".name"@,
                DUPLICATE_ENDPOINT_MESSAGE@ + c.inspect.endpoints@[i].name@ + "`"@,
            ),
        ),
{
    let e = c.inspect.endpoints@[i];
    let path = endpoint_path(i as nat);
    let d = (Severity::Error, path + ".name"@, DUPLICATE_ENDPOINT_MESSAGE@ + e.name@ + "`"@);
    assert(endpoint_names(c)[j] == endpoint_names(c)[i]);
    assert(seen_before(endpoint_names(c), i));
    let a = required(path + ".name"@, e.name@) + required(path + ".kind"@, e.kind@) + required(
        path + ".url"@,
        e.url@,
    );
    assert(endpoint_diagnostics(c, i)[a.len() as int] == d);
    lemma_reports_upto_contain(
        |k: int| endpoint_diagnostics(c, k),
        c.inspect.endpoints.len() as int,
        i,
        d,
    );
    let all = endpoints_diagnostics(c, c.inspect.endpoints.len() as int);
    let m = choose|m: int| 0 <= m < all.len() && #[trigger] all[m] == d;
    let front = head_diagnostics(c) + sidecars_diagnostics(c, c.sidecars.len() as int);
    assert(manifest_diagnostics(c)[front.len() + m] == d);
}

/// Blank required values of the project and app sections are reported at
/// their paths, and a manifest without an app gets the warning that says so.
pub proof fn lemma_blank_head_values_reported(c: Manifest)
    ensures
        is_blank(c.project.name@) ==> manifest_diagnostics(c).contains(
            (Severity::Error, "project.name"@, "value must not be empty"@),
        ),
        c.app is Some && is_blank(c.app->Some_0.name@) ==> manifest_diagnostics(c).contains(
            (Severity::Error, "app.name"@, "value must not be empty"@),
        ),
        c.app is Some && is_blank(c.app->Some_0.command@) ==> manifest_diagnostics(c).contains(
            (Severity::Error, "app.command"@, "value must not be empty"@),
        ),
        c.app is None ==> manifest_diagnostics(c).contains(
            (
                Severity::Warning,
                "app"@,
                "no app command is configured; only sidecar and inspect plans can run"@,
            ),
        ),
{
    let m = manifest_diagnostics(c);
    let p = required("project.name"@, c.project.name@);
    if is_blank(c.project.name@) {
        assert(m[0] == p[0]);
    }
    match c.app {
        Some(app) => {
            let n = required("app.name"@, app.name@);
            if is_blank(app.name@) {
                assert(m[p.len() as int] == n[0]);
            }
            if is_blank(app.command@) {
                assert(m[(p.len() + n.len()) as int] == (
                    Severity::Error,
                    "app.command"@,
                    VALUE_EMPTY_MESSAGE@,
                ));
            }
        },
        None => {
            assert(m[p.len() as int] == (Severity::Warning, "app"@, NO_APP_MESSAGE@));
        },
    }
}

/// A report on sidecar `i` is in what `doctor` reports.
proof fn lemma_sidecar_report_in_manifest(c: Manifest, i: int, d: DiagnosticView)
    requires
        0 <= i < c.sidecars.len(),
        sidecar_diagnostics(c, i).contains(d),
    ensures
        manifest_diagnostics(c).contains(d),
{
    lemma_reports_upto_contain(|k: int| sidecar_diagnostics(c, k), c.sidecars.len() as int, i, d);
    let all = sidecars_diagnostics(c, c.sidecars.len() as int);
    let m = choose|m: int| 0 <= m < all.len() && #[trigger] all[m] == d;
    assert(manifest_diagnostics(c)[head_diagnostics(c).len() + m] == d);
}

/// A report on inspect endpoint `i` is in what `doctor` reports.
proof fn lemma_endpoint_report_in_manifest(c: Manifest, i: int, d: DiagnosticView)
    requires
        0 <= i < c.inspect.endpoints.len(),
        endpoint_diagnostics(c, i).contains(d),
    ensures
        manifest_diagnostics(c).contains(d),
{
    lemma_reports_upto_contain(
        |k: int| endpoint_diagnostics(c, k),
        c.inspect.endpoints.len() as int,
        i,
        d,
    );
    let all = endpoints_diagnostics(c, c.inspect.endpoints.len() as int);
    let m = choose|m: int| 0 <= m < all.len() && #[trigger] all[m] == d;
    let front = head_diagnostics(c) + sidecars_diagnostics(c, c.sidecars.len() as int);
    assert(manifest_diagnostics(c)[front.len() + m] == d);
}

/// A sidecar with a blank name or command is reported at that path.
pub proof fn lemma_blank_sidecar_values_reported(c: Manifest, i: int)
    requires
        0 <= i < c.sidecars.len(),
    ensures
        is_blank(c.sidecars@[i].name@) ==> manifest_diagnostics(c).contains(
            (Severity::Error, sidecar_path(i as nat) + ".name"@, "value must not be empty"@),
        ),
        is_blank(c.sidecars@[i].command@) ==> manifest_diagnostics(c).contains(
            (Severity::Error, sidecar_path(i as nat) + ".command"@, "value must not be empty"@),
        ),
{
    let s = c.sidecars@[i];
    let path = sidecar_path(i as nat);
    let own = sidecar_diagnostics(c, i);
    let n = required(path + ".name"@, s.name@);
    if is_blank(s.name@) {
        let d = (Severity::Error, path + ".name"@, VALUE_EMPTY_MESSAGE@);
        assert(own[0] == d);
        lemma_sidecar_report_in_manifest(c, i, d);
    }
    if is_blank(s.command@) {
        let d = (Severity::Error, path + ".command"@, VALUE_EMPTY_MESSAGE@);
        assert(own[n.len() as int] == d);
        lemma_sidecar_report_in_manifest(c, i, d);
    }
}

/// An inspect endpoint with a blank name, kind or url is reported at that
/// path.
pub proof fn lemma_blank_endpoint_values_reported(c: Manifest, i: int)
    requires
        0 <= i < c.inspect.endpoints.len(),
    ensures
        is_blank(c.inspect.endpoints@[i].name@) ==> manifest_diagnostics(c).contains(
            (Severity::Error, endpoint_path(i as nat) + ".name"@, "value must not be empty"@),
        ),
        is_blank(c.inspect.endpoints@[i].kind@) ==> manifest_diagnostics(c).contains(
            (Severity::Error, endpoint_path(i as nat) + ".kind"@, "value must not be empty"@),
        ),
        is_blank(c.inspect.endpoints@[i].url@) ==> manifest_diagnostics(c).contains(
            (Severity::Error, endpoint_path(i as nat) + ".url"@, "value must not be empty"@),
        ),
{
    let e = c.inspect.endpoints@[i];
    let path = endpoint_path(i as nat);
    let own = endpoint_diagnostics(c, i);
    let n = required(path + ".name"@, e.name@);
    let k = required(path + ".kind"@, e.kind@);
    if is_blank(e.name@) {
        let d = (Severity::Error, path + ".name"@, VALUE_EMPTY_MESSAGE@);
        assert(own[0] == d);
        lemma_endpoint_report_in_manifest(c, i, d);
    }
    if is_blank(e.kind@) {
        let d = (Severity::Error, path + ".kind"@, VALUE_EMPTY_MESSAGE@);
        assert(own[n.len() as int] == d);
        lemma_endpoint_report_in_manifest(c, i, d);
    }
    if is_blank(e.url@) {
        let d = (Severity::Error, path + ".url"@, VALUE_EMPTY_MESSAGE@);
        assert(own[(n.len() + k.len()) as int] == d);
        lemma_endpoint_report_in_manifest(c, i, d);
    }
}

/// A manifest, and the path it was read from.
#[derive(Clone, Debug)]
pub struct DevState {
    pub config_path: String,
    pub config: Manifest,
}

/// Adds an error for `path` when `value` is blank.
pub fn validate_required_name(diagnostics: &mut Vec<Diagnostic>, path: &str, value: &str)
    ensures
        diagnostic_views(final(diagnostics)@) == diagnostic_views(old(diagnostics)@) + required(
            path@,
            value@,
        ),
{
    let ghost before = diagnostic_views(diagnostics@);
    if is_blank_str(value) {
        diagnostics.push(Diagnostic::error(path, VALUE_EMPTY_MESSAGE));
    }
    assert(diagnostic_views(diagnostics@) =~= before + required(path@, value@));
}

/// Pushes `d` onto `diagnostics`.
fn push_diagnostic(diagnostics: &mut Vec<Diagnostic>, d: Diagnostic)
    ensures
        diagnostic_views(final(diagnostics)@) == diagnostic_views(old(diagnostics)@).push(d@),
{
    diagnostics.push(d);
    assert(diagnostic_views(diagnostics@) =~= diagnostic_views(old(diagnostics)@).push(d@));
}

impl DevState {
    /// Whether an earlier sidecar has the name of sidecar `i`.
    fn sidecar_seen_before(&self, i: usize) -> (b: bool)
        requires
            i < self.config.sidecars.len(),
        ensures
            b == seen_before(sidecar_names(self.config), i as int),
    {
        let ghost names = sidecar_names(self.config);
        let mut j: usize = 0;
        while j < i
            invariant
                i < self.config.sidecars.len(),
                j <= i,
                names == sidecar_names(self.config),
                forall|k: int| 0 <= k < j ==> names[k] != names[i as int],
            decreases i - j,
        {
            if str_eq(self.config.sidecars[j].name.as_str(), self.config.sidecars[i].name.as_str()) {
                assert(names[j as int] == names[i as int]);
                return true;
            }
            j = j + 1;
        }
        false
    }

    /// Whether an earlier inspect endpoint has the name of endpoint `i`.
    fn endpoint_seen_before(&self, i: usize) -> (b: bool)
        requires
            i < self.config.inspect.endpoints.len(),
        ensures
            b == seen_before(endpoint_names(self.config), i as int),
    {
        let ghost names = endpoint_names(self.config);
        let mut j: usize = 0;
        while j < i
            invariant
                i < self.config.inspect.endpoints.len(),
                j <= i,
                names == endpoint_names(self.config),
                forall|k: int| 0 <= k < j ==> names[k] != names[i as int],
            decreases i - j,
        {
            if str_eq(
                self.config.inspect.endpoints[j].name.as_str(),
                self.config.inspect.endpoints[i].name.as_str(),
            ) {
                assert(names[j as int] == names[i as int]);
                return true;
            }
            j = j + 1;
        }
        false
    }

    /// Appends the reports on sidecar `i`.
    fn check_sidecar(&self, diagnostics: &mut Vec<Diagnostic>, i: usize)
        requires
            i < self.config.sidecars.len(),
        ensures
            diagnostic_views(final(diagnostics)@) == diagnostic_views(old(diagnostics)@)
                + sidecar_diagnostics(self.config, i as int),
    {
        let ghost before = diagnostic_views(diagnostics@);
        let sidecar = &self.config.sidecars[i];
        let path = cat3("sidecars[", decimal_string(i).as_str(), "]");
        let name_path = cat(path.as_str(), ".name");
        validate_required_name(diagnostics, name_path.as_str(), sidecar.name.as_str());
        let command_path = cat(path.as_str(), ".command");
        validate_required_name(diagnostics, command_path.as_str(), sidecar.command.as_str());
        let ghost after_required = diagnostic_views(diagnostics@);
        if !is_blank_str(sidecar.name.as_str()) && self.sidecar_seen_before(i) {
            let message = cat3(DUPLICATE_SIDECAR_MESSAGE, sidecar.name.as_str(), "`");
            push_diagnostic(diagnostics, Diagnostic::error(name_path.as_str(), message.as_str()));
        }
        let ghost after_duplicate = diagnostic_views(diagnostics@);
        if let Some(socket) = &sidecar.inspect_socket {
            if let Err(error) = SocketEndpoint::parse(socket.as_str()) {
                let socket_path = cat(path.as_str(), ".socket");
                let message = error.to_string();
                push_diagnostic(
                    diagnostics,
                    Diagnostic::error(socket_path.as_str(), message.as_str()),
                );
            }
        }
        assert(diagnostic_views(diagnostics@) =~= before + sidecar_diagnostics(
            self.config,
            i as int,
        ));
    }

    /// Appends the reports on inspect endpoint `i`.
    fn check_endpoint(&self, diagnostics: &mut Vec<Diagnostic>, i: usize)
        requires
            i < self.config.inspect.endpoints.len(),
        ensures
            diagnostic_views(final(diagnostics)@) == diagnostic_views(old(diagnostics)@)
                + endpoint_diagnostics(self.config, i as int),
    {
        let ghost before = diagnostic_views(diagnostics@);
        let endpoint = &self.config.inspect.endpoints[i];
        let path = cat3("inspect.endpoints[", decimal_string(i).as_str(), "]");
        let name_path = cat(path.as_str(), ".name");
        validate_required_name(diagnostics, name_path.as_str(), endpoint.name.as_str());
        let kind_path = cat(path.as_str(), ".kind");
        validate_required_name(diagnostics, kind_path.as_str(), endpoint.kind.as_str());
        let url_path = cat(path.as_str(), ".url");
        validate_required_name(diagnostics, url_path.as_str(), endpoint.url.as_str());
        if !is_blank_str(endpoint.name.as_str()) && self.endpoint_seen_before(i) {
            let message = cat3(DUPLICATE_ENDPOINT_MESSAGE, endpoint.name.as_str(), "`");
            push_diagnostic(diagnostics, Diagnostic::error(name_path.as_str(), message.as_str()));
        }
        assert(diagnostic_views(diagnostics@) =~= before + endpoint_diagnostics(
            self.config,
            i as int,
        ));
    }

    /// Everything that is wrong with the manifest, in manifest order.
    pub fn diagnostics(&self) -> (out: Vec<Diagnostic>)
        ensures
            diagnostic_views(out@) == manifest_diagnostics(self.config),
    {
        let mut diagnostics: Vec<Diagnostic> = Vec::new();
        assert(diagnostic_views(diagnostics@) =~= Seq::<DiagnosticView>::empty());
        validate_required_name(&mut diagnostics, "project.name", self.config.project.name.as_str());
        match &self.config.app {
            Some(app) => {
                validate_required_name(&mut diagnostics, "app.name", app.name.as_str());
                validate_required_name(&mut diagnostics, "app.command", app.command.as_str());
            },
            None => {
                push_diagnostic(&mut diagnostics, Diagnostic::warning("app", NO_APP_MESSAGE));
            },
        }
        let ghost head = diagnostic_views(diagnostics@);
        assert(head =~= head_diagnostics(self.config));
        let mut i: usize = 0;
        while i < self.config.sidecars.len()
            invariant
                i <= self.config.sidecars.len(),
                diagnostic_views(diagnostics@) == head + sidecars_diagnostics(self.config, i as int),
            decreases self.config.sidecars.len() - i,
        {
            self.check_sidecar(&mut diagnostics, i);
            assert(head + sidecars_diagnostics(self.config, i + 1) =~= head
                + sidecars_diagnostics(self.config, i as int) + sidecar_diagnostics(
                self.config,
                i as int,
            ));
            i = i + 1;
        }
        let ghost middle = diagnostic_views(diagnostics@);
        let mut k: usize = 0;
        assert(middle + endpoints_diagnostics(self.config, 0) =~= middle);
        while k < self.config.inspect.endpoints.len()
            invariant
                k <= self.config.inspect.endpoints.len(),
                diagnostic_views(diagnostics@) == middle + endpoints_diagnostics(
                    self.config,
                    k as int,
                ),
            decreases self.config.inspect.endpoints.len() - k,
        {
            self.check_endpoint(&mut diagnostics, k);
            assert(middle + endpoints_diagnostics(self.config, k + 1) =~= middle
                + endpoints_diagnostics(self.config, k as int) + endpoint_diagnostics(
                self.config,
                k as int,
            ));
            k = k + 1;
        }
        diagnostics
    }

    /// The execution plan of the manifest.
    pub fn execution_plan(&self) -> (plan: ExecutionPlan)
        ensures
            plan.models(self.config),
    {
        ExecutionPlan::from_config(&self.config)
    }
}

} // verus!
