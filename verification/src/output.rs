//! The text form of what the commands report: one string per printed line.
//! The JSON form serialises the same data and is written by the program.
use vstd::prelude::*;

use crate::cli::OutputFormat;
use crate::inspect::InspectResponse;
use crate::plan::{ExecutionPlan, InspectEndpointPlan, SidecarPlan};
use crate::state::{diagnostic_views, Diagnostic, DiagnosticView, Severity};
use crate::tauri_dev::command_line;
use crate::text::{cat, cat3, copy_str, decimal, decimal_string, join, views};

verus! {

/// Appends one line.
fn push_line(lines: &mut Vec<String>, line: String)
    ensures
        views(final(lines)@) == views(old(lines)@).push(line@),
{
    lines.push(line);
    assert(views(lines@) =~= views(old(lines)@).push(line@));
}

/// `a`, `b`, `c` and `d`, one after the other.
fn cat4(a: &str, b: &str, c: &str, d: &str) -> (r: String)
    ensures
        r@ == a@ + b@ + c@ + d@,
{
    let head = cat3(a, b, c);
    cat(head.as_str(), d)
}

/// The word for a severity.
pub open spec fn severity_word(s: Severity) -> Seq<char> {
    match s {
        Severity::Error => "error"@,
        Severity::Warning => "warning"@,
    }
}

/// `<severity> <path> - <message>`.
pub open spec fn diagnostic_line(d: DiagnosticView) -> Seq<char> {
    severity_word(d.0) + " "@ + d.1 + " - "@ + d.2
}

/// The text report of `doctor`: a count line, then one line per diagnostic;
/// or a single line when there is nothing to report.
pub open spec fn diagnostic_report(tool: Seq<char>, ds: Seq<DiagnosticView>) -> Seq<Seq<char>> {
    if ds.len() == 0 {
        seq![tool + " doctor found no issues"@]
    } else {
        seq![tool + " doctor found "@ + decimal(ds.len()) + " issue(s)"@] + ds.map_values(
            |d: DiagnosticView| diagnostic_line(d),
        )
    }
}

/// The `doctor` report has one line per diagnostic, all of them, in order,
/// after a line with their count; with none, a single line says so.
pub proof fn lemma_diagnostic_report_lines(tool: Seq<char>, ds: Seq<DiagnosticView>)
    ensures
        ds.len() == 0 ==> diagnostic_report(tool, ds) == seq![tool + " doctor found no issues"@],
        ds.len() > 0 ==> diagnostic_report(tool, ds).len() == 1 + ds.len(),
        ds.len() > 0 ==> diagnostic_report(tool, ds)[0] == tool + " doctor found "@ + decimal(
            ds.len(),
        ) + " issue(s)"@,
        forall|i: int|
            0 <= i < ds.len() && (#[trigger] ds[i]).0 == Severity::Error ==> diagnostic_report(
                tool,
                ds,
            )[i + 1] == "error "@ + ds[i].1 + " - "@ + ds[i].2,
        forall|i: int|
            0 <= i < ds.len() && (#[trigger] ds[i]).0 == Severity::Warning ==> diagnostic_report(
                tool,
                ds,
            )[i + 1] == "warning "@ + ds[i].1 + " - "@ + ds[i].2,
{
    reveal_strlit("error");
    reveal_strlit("warning");
    reveal_strlit(" ");
    reveal_strlit("error ");
    reveal_strlit("warning ");
    assert("error"@ + " "@ =~= "error "@);
    assert("warning"@ + " "@ =~= "warning "@);
    let r = diagnostic_report(tool, ds);
    assert forall|i: int| 0 <= i < ds.len() implies r[i + 1] == severity_word(
        (#[trigger] ds[i]).0,
    ) + " "@ + ds[i].1 + " - "@ + ds[i].2 by {
        assert(r[i + 1] == diagnostic_line(ds[i]));
    }
    assert forall|i: int| 0 <= i < ds.len() && (#[trigger] ds[i]).0 == Severity::Error implies r[i
        + 1] == "error "@ + ds[i].1 + " - "@ + ds[i].2 by {
        assert(r[i + 1] == severity_word(ds[i].0) + " "@ + ds[i].1 + " - "@ + ds[i].2);
        assert(severity_word(ds[i].0) + " "@ + ds[i].1 + " - "@ + ds[i].2 =~= "error "@ + ds[i].1
            + " - "@ + ds[i].2);
    }
    assert forall|i: int| 0 <= i < ds.len() && (#[trigger] ds[i]).0 == Severity::Warning implies r[i
        + 1] == "warning "@ + ds[i].1 + " - "@ + ds[i].2 by {
        assert(r[i + 1] == severity_word(ds[i].0) + " "@ + ds[i].1 + " - "@ + ds[i].2);
        assert(severity_word(ds[i].0) + " "@ + ds[i].1 + " - "@ + ds[i].2 =~= "warning "@
            + ds[i].1 + " - "@ + ds[i].2);
    }
}

/// The text report of `doctor`, one string per line.
pub fn diagnostic_lines(tool: &str, diagnostics: &[Diagnostic]) -> (lines: Vec<String>)
    ensures
        views(lines@) == diagnostic_report(tool@, diagnostic_views(diagnostics@)),
{
    let ghost ds = diagnostic_views(diagnostics@);
    let mut lines: Vec<String> = Vec::new();
    assert(views(lines@) =~= Seq::<Seq<char>>::empty());
    if diagnostics.len() == 0 {
        push_line(&mut lines, cat(tool, " doctor found no issues"));
        assert(views(lines@) =~= diagnostic_report(tool@, ds));
        return lines;
    }
    let count = decimal_string(diagnostics.len());
    push_line(&mut lines, cat3(tool, " doctor found ", count.as_str()).concat(" issue(s)"));
    let ghost head = views(lines@);
    let mut i: usize = 0;
    while i < diagnostics.len()
        invariant
            i <= diagnostics.len(),
            ds == diagnostic_views(diagnostics@),
            views(lines@) == head + ds.take(i as int).map_values(
                |d: DiagnosticView| diagnostic_line(d),
            ),
        decreases diagnostics.len() - i,
    {
        let d = &diagnostics[i];
        let word = match d.severity {
            Severity::Error => "error",
            Severity::Warning => "warning",
        };
        let line = cat4(word, " ", d.path.as_str(), " - ").concat(d.message.as_str());
        assert(line@ == diagnostic_line(ds[i as int]));
        push_line(&mut lines, line);
        assert(ds.take(i + 1).map_values(|d: DiagnosticView| diagnostic_line(d)) =~= ds.take(
            i as int,
        ).map_values(|d: DiagnosticView| diagnostic_line(d)).push(diagnostic_line(ds[i as int])));
        i = i + 1;
    }
    assert(ds.take(diagnostics.len() as int) =~= ds);
    lines
}

/// A command and its arguments as one line.
pub open spec fn command_text(command: Seq<char>, args: Seq<Seq<char>>) -> Seq<char> {
    join(seq![command] + args, " "@)
}

/// `- <name> -> <command line>`.
pub open spec fn sidecar_line(s: SidecarPlan) -> Seq<char> {
    "- "@ + s.name@ + " -> "@ + command_text(s.command@, views(s.args@))
}

/// `- <name> <kind> <url>`.
pub open spec fn endpoint_line(e: InspectEndpointPlan) -> Seq<char> {
    "- "@ + e.name@ + " "@ + e.kind@ + " "@ + e.url@
}

/// The text form of a plan: project, app, the sidecars and the inspect
/// endpoints, each list after its count.
pub open spec fn plan_report(p: ExecutionPlan) -> Seq<Seq<char>> {
    seq![
        "project: "@ + p.project@,
        match p.app {
            Some(app) => "app: "@ + app.name@ + " -> "@ + command_text(app.command@, views(app.args@)),
            None => "app: <none>"@,
        },
        "sidecars: "@ + decimal(p.sidecars.len() as nat),
    ] + p.sidecars@.map_values(|s: SidecarPlan| sidecar_line(s)) + seq![
        "inspect endpoints: "@ + decimal(p.inspect_endpoints.len() as nat),
    ] + p.inspect_endpoints@.map_values(|e: InspectEndpointPlan| endpoint_line(e))
}

/// The plan report has the project, the app, the sidecar count, one line per
/// sidecar, the endpoint count and one line per inspect endpoint: every
/// sidecar and every endpoint, in order.
pub proof fn lemma_plan_report_lines(p: ExecutionPlan)
    ensures
        plan_report(p).len() == 4 + p.sidecars.len() + p.inspect_endpoints.len(),
        plan_report(p)[0] == "project: "@ + p.project@,
        plan_report(p)[2] == "sidecars: "@ + decimal(p.sidecars.len() as nat),
        plan_report(p)[3 + p.sidecars.len()] == "inspect endpoints: "@ + decimal(
            p.inspect_endpoints.len() as nat,
        ),
        forall|i: int|
            0 <= i < p.sidecars.len() ==> plan_report(p)[3 + i] == "- "@ + (
            #[trigger] p.sidecars@[i]).name@ + " -> "@ + join(
                seq![p.sidecars@[i].command@] + views(p.sidecars@[i].args@),
                " "@,
            ),
        forall|j: int|
            0 <= j < p.inspect_endpoints.len() ==> plan_report(p)[4 + p.sidecars.len() + j] == "- "@
                + (#[trigger] p.inspect_endpoints@[j]).name@ + " "@ + p.inspect_endpoints@[j].kind@
                + " "@ + p.inspect_endpoints@[j].url@,
{
    let r = plan_report(p);
    let n = p.sidecars.len() as int;
    assert forall|i: int| 0 <= i < n implies r[3 + i] == sidecar_line(
        #[trigger] p.sidecars@[i],
    ) by {}
    assert forall|j: int| 0 <= j < p.inspect_endpoints.len() implies r[4 + n + j] == endpoint_line(
        #[trigger] p.inspect_endpoints@[j],
    ) by {}
}

/// The text form of a plan, one string per line.
pub fn plan_lines(plan: &ExecutionPlan) -> (lines: Vec<String>)
    ensures
        views(lines@) == plan_report(*plan),
{
    let mut lines: Vec<String> = Vec::new();
    assert(views(lines@) =~= Seq::<Seq<char>>::empty());
    push_line(&mut lines, cat("project: ", plan.project.as_str()));
    match &plan.app {
        Some(app) => {
            let command = command_line(app.command.as_str(), app.args.as_slice());
            push_line(&mut lines, cat4("app: ", app.name.as_str(), " -> ", command.as_str()));
        },
        None => {
            push_line(&mut lines, copy_str("app: <none>"));
        },
    }
    let count = decimal_string(plan.sidecars.len());
    push_line(&mut lines, cat("sidecars: ", count.as_str()));
    let ghost head = views(lines@);
    let ghost all = plan.sidecars@.map_values(|s: SidecarPlan| sidecar_line(s));
    let mut i: usize = 0;
    while i < plan.sidecars.len()
        invariant
            i <= plan.sidecars.len(),
            all == plan.sidecars@.map_values(|s: SidecarPlan| sidecar_line(s)),
            views(lines@) == head + all.take(i as int),
        decreases plan.sidecars.len() - i,
    {
        let s = &plan.sidecars[i];
        let command = command_line(s.command.as_str(), s.args.as_slice());
        let line = cat4("- ", s.name.as_str(), " -> ", command.as_str());
        assert(line@ == all[i as int]);
        push_line(&mut lines, line);
        assert(all.take(i + 1) =~= all.take(i as int).push(all[i as int]));
        i = i + 1;
    }
    assert(all.take(plan.sidecars.len() as int) =~= all);
    let count = decimal_string(plan.inspect_endpoints.len());
    push_line(&mut lines, cat("inspect endpoints: ", count.as_str()));
    let ghost middle = views(lines@);
    let ghost eps = plan.inspect_endpoints@.map_values(|e: InspectEndpointPlan| endpoint_line(e));
    let mut k: usize = 0;
    while k < plan.inspect_endpoints.len()
        invariant
            k <= plan.inspect_endpoints.len(),
            eps == plan.inspect_endpoints@.map_values(|e: InspectEndpointPlan| endpoint_line(e)),
            views(lines@) == middle + eps.take(k as int),
        decreases plan.inspect_endpoints.len() - k,
    {
        let e = &plan.inspect_endpoints[k];
        let line = cat4("- ", e.name.as_str(), " ", e.kind.as_str()).concat(" ").concat(
            e.url.as_str(),
        );
        assert(line@ == eps[k as int]);
        push_line(&mut lines, line);
        assert(eps.take(k + 1) =~= eps.take(k as int).push(eps[k as int]));
        k = k + 1;
    }
    assert(eps.take(plan.inspect_endpoints.len() as int) =~= eps);
    assert(views(lines@) =~= plan_report(*plan));
    lines
}

/// The lines of one sidecar in the `status` report.
pub open spec fn status_row(name: Seq<char>, pids: Seq<u32>) -> Seq<Seq<char>> {
    if pids.len() == 0 {
        seq!["- "@ + name + ": stopped"@]
    } else {
        seq!["- "@ + name + ": running (pid "@ + decimal(pids[0] as nat) + ")"@] + pids.skip(
            1,
        ).map_values(|p: u32| "  + duplicate (pid "@ + decimal(p as nat) + ")"@)
    }
}

/// The lines of the first `n` sidecars in the `status` report.
pub open spec fn status_rows(rows: Seq<(Seq<char>, Seq<u32>)>, n: int) -> Seq<Seq<char>>
    decreases n,
{
    if n <= 0 {
        Seq::empty()
    } else {
        status_rows(rows, n - 1) + status_row(rows[n - 1].0, rows[n - 1].1)
    }
}

/// The views of the rows of a `status` report.
pub open spec fn row_views(rows: Seq<(String, Vec<u32>)>) -> Seq<(Seq<char>, Seq<u32>)> {
    rows.map_values(|r: (String, Vec<u32>)| (r.0@, r.1@))
}

/// The text of `status`: the namespace, then for each sidecar whether it
/// runs, with the pid of every stamped process found for it.
pub open spec fn status_report(namespace: Seq<char>, rows: Seq<(Seq<char>, Seq<u32>)>) -> Seq<
    Seq<char>,
> {
    seq!["namespace: "@ + namespace] + status_rows(rows, rows.len() as int)
}

/// What the lines of one row hold, the lines of the rows up to a later one
/// hold too.
proof fn lemma_status_rows_contain(rows: Seq<(Seq<char>, Seq<u32>)>, n: int, i: int, line: Seq<char>)
    requires
        0 <= i < n <= rows.len(),
        status_row(rows[i].0, rows[i].1).contains(line),
    ensures
        status_rows(rows, n).contains(line),
    decreases n,
{
    let prev = status_rows(rows, n - 1);
    let own = status_row(rows[n - 1].0, rows[n - 1].1);
    if i == n - 1 {
        let k = choose|k: int| 0 <= k < own.len() && #[trigger] own[k] == line;
        assert(status_rows(rows, n)[prev.len() + k] == line);
    } else {
        lemma_status_rows_contain(rows, n - 1, i, line);
        let j = choose|j: int| 0 <= j < prev.len() && #[trigger] prev[j] == line;
        assert(status_rows(rows, n)[j] == line);
    }
}

/// The `status` report names the namespace on its first line, and reports
/// every sidecar: stopped when no process was found for it, else running
/// with the first pid, and each further pid as a duplicate.
pub proof fn lemma_status_report_rows(
    namespace: Seq<char>,
    rows: Seq<(Seq<char>, Seq<u32>)>,
    i: int,
)
    requires
        0 <= i < rows.len(),
    ensures
        status_report(namespace, rows)[0] == "namespace: "@ + namespace,
        rows[i].1.len() == 0 ==> status_report(namespace, rows).contains(
            "- "@ + rows[i].0 + ": stopped"@,
        ),
        rows[i].1.len() > 0 ==> status_report(namespace, rows).contains(
            "- "@ + rows[i].0 + ": running (pid "@ + decimal(rows[i].1[0] as nat) + ")"@,
        ),
        forall|j: int|
            1 <= j < rows[i].1.len() ==> status_report(namespace, rows).contains(
                "  + duplicate (pid "@ + decimal(#[trigger] rows[i].1[j] as nat) + ")"@,
            ),
{
    let head = seq!["namespace: "@ + namespace];
    let all = status_rows(rows, rows.len() as int);
    let r = status_report(namespace, rows);
    let name = rows[i].0;
    let pids = rows[i].1;
    let own = status_row(name, pids);
    assert forall|line: Seq<char>| own.contains(line) implies r.contains(line) by {
        lemma_status_rows_contain(rows, rows.len() as int, i, line);
        let m = choose|m: int| 0 <= m < all.len() && #[trigger] all[m] == line;
        assert(r[1 + m] == line);
    }
    if pids.len() == 0 {
        assert(own[0] == "- "@ + name + ": stopped"@);
    } else {
        assert(own[0] == "- "@ + name + ": running (pid "@ + decimal(pids[0] as nat) + ")"@);
        assert forall|j: int| 1 <= j < pids.len() implies r.contains(
            "  + duplicate (pid "@ + decimal(#[trigger] pids[j] as nat) + ")"@,
        ) by {
            assert(own[j] == "  + duplicate (pid "@ + decimal(pids[j] as nat) + ")"@);
        }
    }
}

/// The text of `status`, one string per line.
pub fn status_lines(namespace: &str, rows: &[(String, Vec<u32>)]) -> (lines: Vec<String>)
    ensures
        views(lines@) == status_report(namespace@, row_views(rows@)),
{
    let ghost rs = row_views(rows@);
    let mut lines: Vec<String> = Vec::new();
    assert(views(lines@) =~= Seq::<Seq<char>>::empty());
    push_line(&mut lines, cat("namespace: ", namespace));
    let ghost head = views(lines@);
    let mut i: usize = 0;
    while i < rows.len()
        invariant
            i <= rows.len(),
            rs == row_views(rows@),
            views(lines@) == head + status_rows(rs, i as int),
        decreases rows.len() - i,
    {
        let ghost before = views(lines@);
        let name = rows[i].0.as_str();
        let pids = &rows[i].1;
        assert(rs[i as int] == (name@, pids@));
        if pids.len() == 0 {
            push_line(&mut lines, cat3("- ", name, ": stopped"));
        } else {
            let first = decimal_string(pids[0] as usize);
            push_line(&mut lines, cat4("- ", name, ": running (pid ", first.as_str()).concat(")"));
            let ghost mid = views(lines@);
            let ghost extra = pids@.skip(1).map_values(
                |p: u32| "  + duplicate (pid "@ + decimal(p as nat) + ")"@,
            );
            let mut j: usize = 1;
            assert(extra.take(0) =~= Seq::<Seq<char>>::empty());
            assert(mid + extra.take(0) =~= mid);
            while j < pids.len()
                invariant
                    1 <= j <= pids.len(),
                    extra == pids@.skip(1).map_values(
                        |p: u32| "  + duplicate (pid "@ + decimal(p as nat) + ")"@,
                    ),
                    views(lines@) == mid + extra.take(j - 1),
                decreases pids.len() - j,
            {
                let pid = decimal_string(pids[j] as usize);
                let line = cat3("  + duplicate (pid ", pid.as_str(), ")");
                assert(line@ == extra[j - 1]);
                push_line(&mut lines, line);
                assert(extra.take(j as int) =~= extra.take(j - 1).push(extra[j - 1]));
                j = j + 1;
            }
            assert(extra.take(pids.len() - 1) =~= extra);
        }
        assert(views(lines@) =~= before + status_row(rs[i as int].0, rs[i as int].1));
        assert(head + status_rows(rs, i + 1) =~= head + status_rows(rs, i as int) + status_row(
            rs[i as int].0,
            rs[i as int].1,
        ));
        i = i + 1;
    }
    lines
}

/// `- pid=<pid> cmd=<command>`.
pub open spec fn process_line(p: (u32, Seq<char>)) -> Seq<char> {
    "- pid="@ + decimal(p.0 as nat) + " cmd="@ + p.1
}

/// The text of `list`: the namespace, then one line per stamped process, or a
/// line that there is none.
pub open spec fn list_report(namespace: Seq<char>, processes: Seq<(u32, Seq<char>)>) -> Seq<
    Seq<char>,
> {
    seq!["namespace: "@ + namespace] + if processes.len() == 0 {
        seq!["no stamped processes"@]
    } else {
        processes.map_values(|p: (u32, Seq<char>)| process_line(p))
    }
}

/// The `list` report names the namespace on its first line, then has one
/// line `- pid=<pid> cmd=<command>` for each process, all of them, in order;
/// with no process, its second and last line says there is none.
pub proof fn lemma_list_report_lines(namespace: Seq<char>, processes: Seq<(u32, Seq<char>)>)
    ensures
        list_report(namespace, processes)[0] == "namespace: "@ + namespace,
        processes.len() == 0 ==> list_report(namespace, processes) == seq![
            "namespace: "@ + namespace,
            "no stamped processes"@,
        ],
        processes.len() > 0 ==> list_report(namespace, processes).len() == 1 + processes.len(),
        forall|i: int|
            0 <= i < processes.len() ==> #[trigger] list_report(namespace, processes)[i + 1]
                == "- pid="@ + decimal(processes[i].0 as nat) + " cmd="@ + processes[i].1,
{
    let r = list_report(namespace, processes);
    if processes.len() == 0 {
        assert(r =~= seq!["namespace: "@ + namespace, "no stamped processes"@]);
    }
}

/// The views of the processes of a `list` report.
pub open spec fn process_views(processes: Seq<(u32, String)>) -> Seq<(u32, Seq<char>)> {
    processes.map_values(|p: (u32, String)| (p.0, p.1@))
}

/// The text of `list`, one string per line.
pub fn list_lines(namespace: &str, processes: &[(u32, String)]) -> (lines: Vec<String>)
    ensures
        views(lines@) == list_report(namespace@, process_views(processes@)),
{
    let ghost ps = process_views(processes@);
    let mut lines: Vec<String> = Vec::new();
    assert(views(lines@) =~= Seq::<Seq<char>>::empty());
    push_line(&mut lines, cat("namespace: ", namespace));
    if processes.len() == 0 {
        push_line(&mut lines, copy_str("no stamped processes"));
        assert(views(lines@) =~= list_report(namespace@, ps));
        return lines;
    }
    let ghost head = views(lines@);
    let ghost all = ps.map_values(|p: (u32, Seq<char>)| process_line(p));
    let mut i: usize = 0;
    while i < processes.len()
        invariant
            i <= processes.len(),
            ps == process_views(processes@),
            all == ps.map_values(|p: (u32, Seq<char>)| process_line(p)),
            views(lines@) == head + all.take(i as int),
        decreases processes.len() - i,
    {
        let pid = decimal_string(processes[i].0 as usize);
        let line = cat4("- pid=", pid.as_str(), " cmd=", processes[i].1.as_str());
        assert(ps[i as int] == (processes@[i as int].0, processes@[i as int].1@));
        assert(line@ == all[i as int]);
        push_line(&mut lines, line);
        assert(all.take(i + 1) =~= all.take(i as int).push(all[i as int]));
        i = i + 1;
    }
    assert(all.take(processes.len() as int) =~= all);
    assert(views(lines@) =~= list_report(namespace@, ps));
    lines
}

/// The first line of a data answer to `inspect` in text form; the pretty
/// JSON of the data follows it.
pub fn inspect_header_line(sidecar: &str, event: &str) -> (line: String)
    ensures
        line@ == "ok "@ + sidecar@ + " "@ + event@,
{
    cat3("ok ", sidecar, " ").concat(event)
}

/// How `inspect` ends once the answer is printed: an endpoint error fails the
/// command, with the message in text form and a fixed message in JSON form.
pub fn inspect_outcome(response: &InspectResponse, format: OutputFormat) -> (res: Result<(), String>)
    ensures
        match response {
            InspectResponse::Data(_) => res is Ok,
            InspectResponse::Error(m) => res is Err && res->Err_0@ == match format {
                OutputFormat::Text => "inspect error: "@ + m@,
                OutputFormat::Json => "inspect endpoint returned ok=false"@,
            },
        },
{
    match response {
        InspectResponse::Data(_) => Ok(()),
        InspectResponse::Error(message) => match format {
            OutputFormat::Text => Err(cat("inspect error: ", message.as_str())),
            OutputFormat::Json => Err(copy_str("inspect endpoint returned ok=false")),
        },
    }
}

} // verus!
