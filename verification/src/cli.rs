//! The `sidecar` command line: argument parsing and the choice of what a
//! command line asks for.
//!
//! Global flags (`--config`, `--format`, `--data-home`, `-p`/`--project`,
//! `--all`) may stand anywhere on the command line; every other argument
//! that does not start with `-` is a word of the command.
use vstd::prelude::*;

use crate::paths::{data_paths, resolve_data_paths, DataHomeEnv, DataPaths};
use crate::state::{DevState, Diagnostic, Severity};
use crate::text::{
    cat, cat3, copy_str, join, join_strings, opt_view, str_eq, starts_with_str,
    trim_start_matches, trim_start_matches_str, views,
};

verus! {

/// How a command prints its result.
#[derive(Clone, Copy, Debug, PartialEq, Eq)]
pub enum OutputFormat {
    Text,
    Json,
}

/// A parsed command line.
#[derive(Clone, Debug, PartialEq, Eq)]
pub struct ParsedArgs {
    pub command: Vec<String>,
    pub config: Option<String>,
    pub format: OutputFormat,
    pub data_home: Option<String>,
    pub project_override: Option<String>,
    pub reset_all: bool,
}

/// A parsed command line, as plain values.
pub struct ParsedModel {
    pub command: Seq<Seq<char>>,
    pub config: Option<Seq<char>>,
    pub format: OutputFormat,
    pub data_home: Option<Seq<char>>,
    pub project_override: Option<Seq<char>>,
    pub reset_all: bool,
}

impl ParsedArgs {
    pub open spec fn view(self) -> ParsedModel {
        ParsedModel {
            command: views(self.command@),
            config: opt_view(self.config),
            format: self.format,
            data_home: opt_view(self.data_home),
            project_override: opt_view(self.project_override),
            reset_all: self.reset_all,
        }
    }
}

pub const HELP_TEXT: &'static str = r#"sidecar

Product-neutral sidecar lifecycle and inspect IPC manager.
It appends stamp args, discovers stamped processes, and sends one-shot inspect
requests; consumers own product semantics and inspect server behavior.

Commands:
  doctor   --config <path> [--format text|json]
  plan     --config <path> [--format text|json]
  inspect  config --config <path> [--format text|json]
  inspect  <sidecar> <event> [<json-payload>] --config <path> [--format text|json]
  start    --config <path> [<sidecar>]
  restart  --config <path> [<sidecar>]
  stop     --config <path> [<sidecar>]
  status   --config <path> [--format text|json]
  list     --config <path> [--format text|json]
  reset    --config <path> [--all]
  update
  help
  version

Global flags:
  --config <path>       explicit manifest path; no default filename is reserved
  -p, --project <name>  override [project].namespace, like docker compose -p
  --data-home <path>    override global state/update-cache root
  --format text|json    output format where the command supports it

Model:
  Manifest: [project], optional [app], repeated [[sidecars]], and optional
  [[inspect.endpoints]]. See README.md for the schema.
  Stamps: --sidecar-stamp-{app,namespace,mode,source} are the discovery contract.
  Inspect: one JSON request/response line over unix:// sockets; TCP is fallback.
  State: <data-home>/state plus <data-home>/projects/<namespace>; see AGENTS.md.

Safety:
  reset is the compatibility escape hatch: stop stamped processes and remove
  project state; add --all to also remove global state.
  update delegates to the released installer. Dev builds cannot self-update.

Exit shape:
  0 on success. 1 on config, diagnostic, lifecycle, inspect, or update failure.

Project:
  Source:  https://github.com/PerishCode/sidecar
  Issues:  https://github.com/PerishCode/sidecar/issues
  Details: README.md for usage/schema; AGENTS.md for boundaries and PR workflow.
"#;

/// The version this build reports: the version that the build was stamped
/// with, else `v` and the package version.
pub fn version(build_version: Option<&str>, package_version: &str) -> (v: String)
    ensures
        v@ == match build_version {
            Some(b) => b@,
            None => "v"@ + package_version@,
        },
{
    match build_version {
        Some(b) => copy_str(b),
        None => cat("v", package_version),
    }
}

/// The release channel this build reports: the channel that the build was
/// stamped with, else `dev`.
pub fn channel(build_channel: Option<&str>) -> (c: String)
    ensures
        c@ == match build_channel {
            Some(b) => b@,
            None => "dev"@,
        },
{
    match build_channel {
        Some(b) => copy_str(b),
        None => copy_str("dev"),
    }
}

/// The usage text.
pub fn help_text() -> (h: &'static str)
    ensures
        h@ == HELP_TEXT@,
{
    HELP_TEXT
}

/// What `--format <value>` selects.
pub open spec fn format_of(value: Seq<char>) -> Result<OutputFormat, Seq<char>> {
    if value == "text"@ {
        Ok(OutputFormat::Text)
    } else if value == "json"@ {
        Ok(OutputFormat::Json)
    } else {
        Err("unsupported output format: "@ + value)
    }
}

/// Parses an output format: `text` or `json`.
pub fn parse_format(value: &str) -> (res: Result<OutputFormat, String>)
    ensures
        match res {
            Ok(f) => format_of(value@) == Ok::<OutputFormat, Seq<char>>(f),
            Err(e) => format_of(value@) == Err::<OutputFormat, Seq<char>>(e@),
        },
{
    if str_eq(value, "text") {
        Ok(OutputFormat::Text)
    } else if str_eq(value, "json") {
        Ok(OutputFormat::Json)
    } else {
        Err(cat("unsupported output format: ", value))
    }
}

/// The arguments that stand for a command word although they start with `-`.
pub open spec fn is_word_flag(arg: Seq<char>) -> bool {
    arg == "-h"@ || arg == "--help"@ || arg == "-V"@ || arg == "--version"@
}

/// What parsing `args` from position `i` on gives, starting from `st`.
pub open spec fn parse_from(args: Seq<Seq<char>>, i: int, st: ParsedModel) -> Result<
    ParsedModel,
    Seq<char>,
>
    decreases args.len() - i,
{
    if i < 0 || i >= args.len() {
        Ok(st)
    } else {
        let arg = args[i];
        if arg == "--config"@ {
            if i + 1 < args.len() {
                parse_from(args, i + 2, ParsedModel { config: Some(args[i + 1]), ..st })
            } else {
                Err("--config requires a value"@)
            }
        } else if arg == "--format"@ {
            if i + 1 < args.len() {
                match format_of(args[i + 1]) {
                    Ok(f) => parse_from(args, i + 2, ParsedModel { format: f, ..st }),
                    Err(e) => Err(e),
                }
            } else {
                Err("--format requires a value"@)
            }
        } else if arg == "--data-home"@ {
            if i + 1 < args.len() {
                parse_from(args, i + 2, ParsedModel { data_home: Some(args[i + 1]), ..st })
            } else {
                Err("--data-home requires a value"@)
            }
        } else if arg == "-p"@ || arg == "--project"@ {
            if i + 1 < args.len() {
                parse_from(args, i + 2, ParsedModel { project_override: Some(args[i + 1]), ..st })
            } else {
                Err("--project requires a value"@)
            }
        } else if arg == "--all"@ {
            parse_from(args, i + 1, ParsedModel { reset_all: true, ..st })
        } else if "--config="@.is_prefix_of(arg) {
            parse_from(
                args,
                i + 1,
                ParsedModel { config: Some(trim_start_matches(arg, "--config="@)), ..st },
            )
        } else if "--format="@.is_prefix_of(arg) {
            match format_of(trim_start_matches(arg, "--format="@)) {
                Ok(f) => parse_from(args, i + 1, ParsedModel { format: f, ..st }),
                Err(e) => Err(e),
            }
        } else if "--data-home="@.is_prefix_of(arg) {
            parse_from(
                args,
                i + 1,
                ParsedModel { data_home: Some(trim_start_matches(arg, "--data-home="@)), ..st },
            )
        } else if "--project="@.is_prefix_of(arg) {
            parse_from(
                args,
                i + 1,
                ParsedModel {
                    project_override: Some(trim_start_matches(arg, "--project="@)),
                    ..st
                },
            )
        } else if "-"@.is_prefix_of(arg) && !is_word_flag(arg) {
            Err("unknown option: "@ + arg)
        } else {
            parse_from(args, i + 1, ParsedModel { command: st.command.push(arg), ..st })
        }
    }
}

/// A command line with no command words and no flags.
pub open spec fn empty_parse() -> ParsedModel {
    ParsedModel {
        command: Seq::empty(),
        config: None,
        format: OutputFormat::Text,
        data_home: None,
        project_override: None,
        reset_all: false,
    }
}

/// What parsing a full command line gives; its first argument names the binary.
pub open spec fn parse_args(args: Seq<Seq<char>>) -> Result<ParsedModel, Seq<char>> {
    parse_from(args, 1, empty_parse())
}

/// Parses a command line; its first argument names the binary and is skipped.
pub fn parse(args: Vec<String>) -> (res: Result<ParsedArgs, String>)
    ensures
        match res {
            Ok(p) => parse_args(views(args@)) == Ok::<ParsedModel, Seq<char>>(p@),
            Err(e) => parse_args(views(args@)) == Err::<ParsedModel, Seq<char>>(e@),
        },
{
    let ghost all = views(args@);
    let mut command: Vec<String> = Vec::new();
    let mut config: Option<String> = None;
    let mut format = OutputFormat::Text;
    let mut data_home: Option<String> = None;
    let mut project_override: Option<String> = None;
    let mut reset_all = false;
    let mut i: usize = 1;
    proof {
        reveal_strlit("-");
    }
    assert(views(command@) =~= Seq::<Seq<char>>::empty());
    while i < args.len()
        invariant
            all == views(args@),
            1 <= i,
            parse_args(all) == parse_from(
                all,
                i as int,
                ParsedModel {
                    command: views(command@),
                    config: opt_view(config),
                    format,
                    data_home: opt_view(data_home),
                    project_override: opt_view(project_override),
                    reset_all,
                },
            ),
        decreases args.len() - i,
    {
        let arg = args[i].as_str();
        assert(all[i as int] == arg@);
        if str_eq(arg, "--config") {
            if i + 1 < args.len() {
                assert(all[i + 1] == args@[i + 1]@);
                config = Some(copy_str(args[i + 1].as_str()));
                i = i + 2;
            } else {
                return Err(copy_str("--config requires a value"));
            }
        } else if str_eq(arg, "--format") {
            if i + 1 < args.len() {
                assert(all[i + 1] == args@[i + 1]@);
                match parse_format(args[i + 1].as_str()) {
                    Ok(f) => {
                        format = f;
                    },
                    Err(e) => {
                        return Err(e);
                    },
                }
                i = i + 2;
            } else {
                return Err(copy_str("--format requires a value"));
            }
        } else if str_eq(arg, "--data-home") {
            if i + 1 < args.len() {
                assert(all[i + 1] == args@[i + 1]@);
                data_home = Some(copy_str(args[i + 1].as_str()));
                i = i + 2;
            } else {
                return Err(copy_str("--data-home requires a value"));
            }
        } else if str_eq(arg, "-p") || str_eq(arg, "--project") {
            if i + 1 < args.len() {
                assert(all[i + 1] == args@[i + 1]@);
                project_override = Some(copy_str(args[i + 1].as_str()));
                i = i + 2;
            } else {
                return Err(copy_str("--project requires a value"));
            }
        } else if str_eq(arg, "--all") {
            reset_all = true;
            i = i + 1;
        } else if starts_with_str(arg, "--config=") {
            config = Some(trim_start_matches_str(arg, "--config="));
            i = i + 1;
        } else if starts_with_str(arg, "--format=") {
            let value = trim_start_matches_str(arg, "--format=");
            match parse_format(value.as_str()) {
                Ok(f) => {
                    format = f;
                },
                Err(e) => {
                    return Err(e);
                },
            }
            i = i + 1;
        } else if starts_with_str(arg, "--data-home=") {
            data_home = Some(trim_start_matches_str(arg, "--data-home="));
            i = i + 1;
        } else if starts_with_str(arg, "--project=") {
            project_override = Some(trim_start_matches_str(arg, "--project="));
            i = i + 1;
        } else if starts_with_str(arg, "-") && !(str_eq(arg, "-h") || str_eq(arg, "--help")
            || str_eq(arg, "-V") || str_eq(arg, "--version")) {
            return Err(cat("unknown option: ", arg));
        } else {
            let ghost before = command@;
            command.push(copy_str(arg));
            assert(views(command@) =~= views(before).push(arg@));
            i = i + 1;
        }
    }
    Ok(ParsedArgs { command, config, format, data_home, project_override, reset_all })
}

/// A command word: an argument that does not start with `-`.
pub open spec fn is_plain_word(w: Seq<char>) -> bool {
    !(w.len() > 0 && w[0] == '-')
}

/// A command word is none of the flags, nor an inline form of one.
pub proof fn lemma_plain_word_is_no_flag(w: Seq<char>)
    requires
        is_plain_word(w),
    ensures
        w != "--config"@,
        w != "--format"@,
        w != "--data-home"@,
        w != "-p"@,
        w != "--project"@,
        w != "--all"@,
        !"--config="@.is_prefix_of(w),
        !"--format="@.is_prefix_of(w),
        !"--data-home="@.is_prefix_of(w),
        !"--project="@.is_prefix_of(w),
        !"-"@.is_prefix_of(w),
{
    reveal_strlit("--config");
    reveal_strlit("--format");
    reveal_strlit("--data-home");
    reveal_strlit("-p");
    reveal_strlit("--project");
    reveal_strlit("--all");
    reveal_strlit("--config=");
    reveal_strlit("--format=");
    reveal_strlit("--data-home=");
    reveal_strlit("--project=");
    reveal_strlit("-");
    if w.len() > 0 {
        assert(w.subrange(0, 1int)[0] == w[0]);
    }
}

/// Parsing a run of command words appends them to the command.
proof fn lemma_parse_words(args: Seq<Seq<char>>, i: int, n: int, st: ParsedModel)
    requires
        0 <= i,
        0 <= n,
        i + n <= args.len(),
        forall|k: int| i <= k < i + n ==> is_plain_word(#[trigger] args[k]),
    ensures
        parse_from(args, i, st) == parse_from(
            args,
            i + n,
            ParsedModel { command: st.command + args.subrange(i, i + n), ..st },
        ),
    decreases n,
{
    if n == 0 {
        assert(st.command + args.subrange(i, i) =~= st.command);
    } else {
        assert(is_plain_word(args[i]));
        lemma_plain_word_is_no_flag(args[i]);
        let next = ParsedModel { command: st.command.push(args[i]), ..st };
        lemma_parse_words(args, i + 1, n - 1, next);
        assert(next.command + args.subrange(i + 1, i + n) =~= st.command + args.subrange(i, i + n));
    }
}

/// Global flags may stand anywhere: `--config <path>` after the command words
/// parses as it does before them, for any command words and any path.
pub proof fn lemma_config_flag_position_independent(
    binary: Seq<char>,
    words: Seq<Seq<char>>,
    path: Seq<char>,
)
    requires
        forall|k: int| 0 <= k < words.len() ==> is_plain_word(#[trigger] words[k]),
    ensures
        parse_args(seq![binary] + words + seq!["--config"@, path]) == parse_args(
            seq![binary, "--config"@, path] + words,
        ),
        parse_args(seq![binary] + words + seq!["--config"@, path]) == Ok::<ParsedModel, Seq<char>>(
            ParsedModel { command: words, config: Some(path), ..empty_parse() },
        ),
{
    let after = seq![binary] + words + seq!["--config"@, path];
    let before = seq![binary, "--config"@, path] + words;
    let n = words.len() as int;
    let done = ParsedModel { command: words, config: Some(path), ..empty_parse() };
    assert forall|k: int| 1 <= k < 1 + n implies is_plain_word(#[trigger] after[k]) by {
        assert(after[k] == words[k - 1]);
    }
    lemma_parse_words(after, 1, n, empty_parse());
    assert(after.subrange(1, 1 + n) =~= words);
    assert(Seq::<Seq<char>>::empty() + words =~= words);
    assert(after[1 + n] == "--config"@);
    assert(after[2 + n] == path);
    assert(parse_from(after, 3 + n, done) == Ok::<ParsedModel, Seq<char>>(done));
    assert forall|k: int| 3 <= k < 3 + n implies is_plain_word(#[trigger] before[k]) by {
        assert(before[k] == words[k - 3]);
    }
    assert(before[1] == "--config"@);
    assert(before[2] == path);
    let configured = ParsedModel { config: Some(path), ..empty_parse() };
    lemma_parse_words(before, 3, n, configured);
    assert(before.subrange(3, 3 + n) =~= words);
    assert(parse_from(before, 3 + n, done) == Ok::<ParsedModel, Seq<char>>(done));
}

/// The refusal of words after the first `expected` ones of a command.
pub open spec fn extra_args_error(command: Seq<Seq<char>>, expected: int, name: Seq<char>) -> Option<
    Seq<char>,
> {
    if command.len() > expected {
        Some("unsupported "@ + name + " arguments: "@ + join(command.skip(expected), " "@))
    } else {
        None
    }
}

/// Refuses a command that has more than `expected_len` words.
pub fn require_no_extra_args(parsed: &ParsedArgs, expected_len: usize, command: &str) -> (res:
    Result<(), String>)
    ensures
        match res {
            Ok(()) => extra_args_error(parsed@.command, expected_len as int, command@) is None,
            Err(e) => extra_args_error(parsed@.command, expected_len as int, command@) == Some(
                e@,
            ),
        },
{
    if parsed.command.len() > expected_len {
        let rest = join_strings(parsed.command.as_slice(), expected_len, " ");
        let head = cat3("unsupported ", command, " arguments: ");
        return Err(cat(head.as_str(), rest.as_str()));
    }
    Ok(())
}

/// The optional target of `start`, `stop` and `restart`.
pub open spec fn target_of(command: Seq<Seq<char>>, name: Seq<char>) -> Result<
    Option<Seq<char>>,
    Seq<char>,
> {
    if command.len() <= 1 {
        Ok(None)
    } else if command.len() == 2 {
        Ok(Some(command[1]))
    } else {
        Err("unsupported "@ + name + " arguments: "@ + join(command.skip(2), " "@))
    }
}

/// The sidecar that `start`, `stop` or `restart` names, if any.
pub fn optional_target(parsed: &ParsedArgs, command: &str) -> (res: Result<Option<String>, String>)
    requires
        parsed.command.len() >= 1,
    ensures
        match res {
            Ok(t) => target_of(parsed@.command, command@) == Ok::<Option<Seq<char>>, Seq<char>>(
                opt_view(t),
            ),
            Err(e) => target_of(parsed@.command, command@) == Err::<Option<Seq<char>>, Seq<char>>(
                e@,
            ),
        },
{
    if parsed.command.len() == 1 {
        Ok(None)
    } else if parsed.command.len() == 2 {
        Ok(Some(copy_str(parsed.command[1].as_str())))
    } else {
        let rest = join_strings(parsed.command.as_slice(), 2, " ");
        let head = cat3("unsupported ", command, " arguments: ");
        Err(cat(head.as_str(), rest.as_str()))
    }
}

/// What a command line asks for.
#[derive(Clone, Debug, PartialEq, Eq)]
pub enum Action {
    /// No command: print the usage text.
    Usage,
    Help,
    Version,
    Update,
    Doctor,
    Plan,
    InspectConfig,
    Inspect { sidecar: String, event: String, payload: Option<String> },
    Start(Option<String>),
    Stop(Option<String>),
    Restart(Option<String>),
    Status,
    List,
    Reset,
}

/// What a command line asks for, as plain values.
pub enum ActionView {
    Usage,
    Help,
    Version,
    Update,
    Doctor,
    Plan,
    InspectConfig,
    Inspect { sidecar: Seq<char>, event: Seq<char>, payload: Option<Seq<char>> },
    Start(Option<Seq<char>>),
    Stop(Option<Seq<char>>),
    Restart(Option<Seq<char>>),
    Status,
    List,
    Reset,
}

impl Action {
    pub open spec fn view(self) -> ActionView {
        match self {
            Action::Usage => ActionView::Usage,
            Action::Help => ActionView::Help,
            Action::Version => ActionView::Version,
            Action::Update => ActionView::Update,
            Action::Doctor => ActionView::Doctor,
            Action::Plan => ActionView::Plan,
            Action::InspectConfig => ActionView::InspectConfig,
            Action::Inspect { sidecar, event, payload } => ActionView::Inspect {
                sidecar: sidecar@,
                event: event@,
                payload: opt_view(payload),
            },
            Action::Start(t) => ActionView::Start(opt_view(t)),
            Action::Stop(t) => ActionView::Stop(opt_view(t)),
            Action::Restart(t) => ActionView::Restart(opt_view(t)),
            Action::Status => ActionView::Status,
            Action::List => ActionView::List,
            Action::Reset => ActionView::Reset,
        }
    }
}

/// An action, unless `error` refuses the command first.
pub open spec fn unless(error: Option<Seq<char>>, action: ActionView) -> Result<ActionView, Seq<char>> {
    match error {
        Some(e) => Err(e),
        None => Ok(action),
    }
}

/// The action for a command whose optional target `target` gives.
pub open spec fn targeted(
    target: Result<Option<Seq<char>>, Seq<char>>,
    make: spec_fn(Option<Seq<char>>) -> ActionView,
) -> Result<ActionView, Seq<char>> {
    match target {
        Ok(t) => Ok(make(t)),
        Err(e) => Err(e),
    }
}

/// What the command words `c` ask for.
pub open spec fn action_of(c: Seq<Seq<char>>) -> Result<ActionView, Seq<char>> {
    if c.len() == 0 {
        Ok(ActionView::Usage)
    } else {
        let cmd = c[0];
        if cmd == "help"@ || cmd == "--help"@ || cmd == "-h"@ {
            Ok(ActionView::Help)
        } else if cmd == "version"@ || cmd == "--version"@ || cmd == "-V"@ {
            Ok(ActionView::Version)
        } else if cmd == "update"@ {
            unless(extra_args_error(c, 1, "update"@), ActionView::Update)
        } else if cmd == "doctor"@ {
            unless(extra_args_error(c, 1, "doctor"@), ActionView::Doctor)
        } else if cmd == "plan"@ {
            unless(extra_args_error(c, 1, "plan"@), ActionView::Plan)
        } else if cmd == "inspect"@ {
            if c.len() == 1 {
                Err(INSPECT_USAGE_MESSAGE@)
            } else if c[1] == "config"@ {
                unless(extra_args_error(c, 2, "inspect config"@), ActionView::InspectConfig)
            } else if c.len() < 3 {
                Err(INSPECT_EVENT_MESSAGE@)
            } else if c.len() > 4 {
                Err("unsupported inspect arguments: "@ + join(c.skip(4), " "@))
            } else {
                Ok(
                    ActionView::Inspect {
                        sidecar: c[1],
                        event: c[2],
                        payload: if c.len() == 4 {
                            Some(c[3])
                        } else {
                            None
                        },
                    },
                )
            }
        } else if cmd == "start"@ {
            targeted(target_of(c, cmd), |t| ActionView::Start(t))
        } else if cmd == "stop"@ {
            targeted(target_of(c, cmd), |t| ActionView::Stop(t))
        } else if cmd == "restart"@ {
            targeted(target_of(c, cmd), |t| ActionView::Restart(t))
        } else if cmd == "status"@ {
            unless(extra_args_error(c, 1, "status"@), ActionView::Status)
        } else if cmd == "list"@ {
            unless(extra_args_error(c, 1, "list"@), ActionView::List)
        } else if cmd == "reset"@ {
            unless(extra_args_error(c, 1, "reset"@), ActionView::Reset)
        } else {
            Err("unknown command: "@ + join(c, " "@) + "; run `sidecar help`"@)
        }
    }
}

/// `w` is none of the command words that `action_of` tests before the
/// lifecycle commands.
spec fn no_earlier_command(w: Seq<char>) -> bool {
    w != "help"@ && w != "--help"@ && w != "-h"@ && w != "version"@ && w != "--version"@ && w
        != "-V"@ && w != "update"@ && w != "doctor"@ && w != "plan"@ && w != "inspect"@
}

/// The command words that come before the lifecycle commands in `action_of`
/// are none of `start`, `stop` and `restart`.
proof fn lemma_lifecycle_words_distinct()
    ensures
        no_earlier_command("start"@),
        no_earlier_command("stop"@),
        no_earlier_command("restart"@),
        "start"@ != "stop"@,
        "start"@ != "restart"@,
        "stop"@ != "restart"@,
{
    reveal_strlit("start");
    reveal_strlit("stop");
    reveal_strlit("restart");
    reveal_strlit("help");
    reveal_strlit("--help");
    reveal_strlit("-h");
    reveal_strlit("version");
    reveal_strlit("--version");
    reveal_strlit("-V");
    reveal_strlit("update");
    reveal_strlit("doctor");
    reveal_strlit("plan");
    reveal_strlit("inspect");
    assert("start"@.len() != "stop"@.len());
    assert("stop"@[0] != "help"@[0]);
    assert("stop"@[0] != "plan"@[0]);
    assert("start"@[0] != "plan"@[0]);
    assert("start"@[0] != "update"@[0]);
    assert("start"@[0] != "doctor"@[0]);
    assert("restart"@[0] != "version"@[0]);
    assert("restart"@[0] != "inspect"@[0]);
    assert("restart"@[0] != "--help"@[0]);
}

/// `start`, `stop` and `restart` act on every sidecar when no name follows
/// them, and on exactly the named sidecar when one does: the name on the
/// command line is handed on unchanged.
pub proof fn lemma_lifecycle_target_passed_on(name: Seq<char>)
    ensures
        action_of(seq!["start"@]) == Ok::<ActionView, Seq<char>>(ActionView::Start(None)),
        action_of(seq!["stop"@]) == Ok::<ActionView, Seq<char>>(ActionView::Stop(None)),
        action_of(seq!["restart"@]) == Ok::<ActionView, Seq<char>>(ActionView::Restart(None)),
        action_of(seq!["start"@, name]) == Ok::<ActionView, Seq<char>>(
            ActionView::Start(Some(name)),
        ),
        action_of(seq!["stop"@, name]) == Ok::<ActionView, Seq<char>>(
            ActionView::Stop(Some(name)),
        ),
        action_of(seq!["restart"@, name]) == Ok::<ActionView, Seq<char>>(
            ActionView::Restart(Some(name)),
        ),
{
    lemma_lifecycle_words_distinct();
    assert(seq!["start"@][0] == "start"@);
    assert(seq!["stop"@][0] == "stop"@);
    assert(seq!["restart"@][0] == "restart"@);
    assert(seq!["start"@, name][0] == "start"@);
    assert(seq!["stop"@, name][0] == "stop"@);
    assert(seq!["restart"@, name][0] == "restart"@);
    assert(seq!["start"@, name][1] == name);
    assert(seq!["stop"@, name][1] == name);
    assert(seq!["restart"@, name][1] == name);
}

/// `stop <name>` with the manifest given after the name stops exactly that
/// sidecar, and likewise `start` and `restart`.
pub proof fn lemma_lifecycle_target_with_config_after(
    binary: Seq<char>,
    name: Seq<char>,
    path: Seq<char>,
)
    requires
        is_plain_word(name),
    ensures
        parse_args(seq![binary, "stop"@, name, "--config"@, path]) is Ok,
        parse_args(seq![binary, "start"@, name, "--config"@, path]) is Ok,
        parse_args(seq![binary, "restart"@, name, "--config"@, path]) is Ok,
        action_of(parse_args(seq![binary, "stop"@, name, "--config"@, path])->Ok_0.command) == Ok::<
            ActionView,
            Seq<char>,
        >(ActionView::Stop(Some(name))),
        action_of(parse_args(seq![binary, "start"@, name, "--config"@, path])->Ok_0.command)
            == Ok::<ActionView, Seq<char>>(ActionView::Start(Some(name))),
        action_of(parse_args(seq![binary, "restart"@, name, "--config"@, path])->Ok_0.command)
            == Ok::<ActionView, Seq<char>>(ActionView::Restart(Some(name))),
{
    reveal_strlit("start");
    reveal_strlit("stop");
    reveal_strlit("restart");
    lemma_lifecycle_target_passed_on(name);
    let ws = seq!["stop"@, name];
    assert(is_plain_word(ws[0]));
    lemma_config_flag_position_independent(binary, ws, path);
    assert(seq![binary] + ws + seq!["--config"@, path] =~= seq![binary, "stop"@, name, "--config"@, path]);
    let ws = seq!["start"@, name];
    assert(is_plain_word(ws[0]));
    lemma_config_flag_position_independent(binary, ws, path);
    assert(seq![binary] + ws + seq!["--config"@, path] =~= seq![binary, "start"@, name, "--config"@, path]);
    let ws = seq!["restart"@, name];
    assert(is_plain_word(ws[0]));
    lemma_config_flag_position_independent(binary, ws, path);
    assert(seq![binary] + ws + seq!["--config"@, path] =~= seq![binary, "restart"@, name, "--config"@, path]);
}

/// `inspect <sidecar> <event> [payload]` hands the sidecar, the event and the
/// payload on unchanged, for every sidecar name but `config`.
pub proof fn lemma_inspect_words_passed_on(
    sidecar: Seq<char>,
    event: Seq<char>,
    payload: Seq<char>,
)
    requires
        sidecar != "config"@,
    ensures
        action_of(seq!["inspect"@, sidecar, event]) == Ok::<ActionView, Seq<char>>(
            ActionView::Inspect { sidecar, event, payload: None },
        ),
        action_of(seq!["inspect"@, sidecar, event, payload]) == Ok::<ActionView, Seq<char>>(
            ActionView::Inspect { sidecar, event, payload: Some(payload) },
        ),
{
    reveal_strlit("inspect");
    reveal_strlit("help");
    reveal_strlit("--help");
    reveal_strlit("-h");
    reveal_strlit("version");
    reveal_strlit("--version");
    reveal_strlit("-V");
    reveal_strlit("update");
    reveal_strlit("doctor");
    reveal_strlit("plan");
    assert("inspect"@[0] != "help"@[0]);
    assert("inspect"@[0] != "--help"@[0]);
    assert("inspect"@[0] != "version"@[0]);
    assert("inspect"@[0] != "--version"@[0]);
    assert("inspect"@[0] != "update"@[0]);
    assert("inspect"@[0] != "doctor"@[0]);
    assert("inspect"@[0] != "plan"@[0]);
    let a = seq!["inspect"@, sidecar, event];
    let b = seq!["inspect"@, sidecar, event, payload];
    assert(a[0] == "inspect"@ && a[1] == sidecar && a[2] == event);
    assert(b[0] == "inspect"@ && b[1] == sidecar && b[2] == event && b[3] == payload);
}

pub const INSPECT_USAGE_MESSAGE: &'static str =
    "inspect requires `config` or `<sidecar> <event> [payload]`";

pub const INSPECT_EVENT_MESSAGE: &'static str =
    "inspect <sidecar> <event> [payload] \u{2014} event is required";

fn refuse_extra(parsed: &ParsedArgs, expected_len: usize, name: &str, action: Action) -> (res:
    Result<Action, String>)
    ensures
        match res {
            Ok(a) => unless(extra_args_error(parsed@.command, expected_len as int, name@), action@)
                == Ok::<ActionView, Seq<char>>(a@),
            Err(e) => unless(extra_args_error(parsed@.command, expected_len as int, name@), action@)
                == Err::<ActionView, Seq<char>>(e@),
        },
{
    match require_no_extra_args(parsed, expected_len, name) {
        Ok(()) => Ok(action),
        Err(e) => Err(e),
    }
}

/// What a parsed command line asks for, or why it is refused.
pub fn decide(parsed: &ParsedArgs) -> (res: Result<Action, String>)
    ensures
        match res {
            Ok(a) => action_of(parsed@.command) == Ok::<ActionView, Seq<char>>(a@),
            Err(e) => action_of(parsed@.command) == Err::<ActionView, Seq<char>>(e@),
        },
{
    let c = &parsed.command;
    if c.len() == 0 {
        return Ok(Action::Usage);
    }
    let cmd = c[0].as_str();
    if str_eq(cmd, "help") || str_eq(cmd, "--help") || str_eq(cmd, "-h") {
        Ok(Action::Help)
    } else if str_eq(cmd, "version") || str_eq(cmd, "--version") || str_eq(cmd, "-V") {
        Ok(Action::Version)
    } else if str_eq(cmd, "update") {
        refuse_extra(parsed, 1, "update", Action::Update)
    } else if str_eq(cmd, "doctor") {
        refuse_extra(parsed, 1, "doctor", Action::Doctor)
    } else if str_eq(cmd, "plan") {
        refuse_extra(parsed, 1, "plan", Action::Plan)
    } else if str_eq(cmd, "inspect") {
        if c.len() == 1 {
            Err(copy_str(INSPECT_USAGE_MESSAGE))
        } else if str_eq(c[1].as_str(), "config") {
            refuse_extra(parsed, 2, "inspect config", Action::InspectConfig)
        } else if c.len() < 3 {
            Err(copy_str(INSPECT_EVENT_MESSAGE))
        } else if c.len() > 4 {
            let rest = join_strings(c.as_slice(), 4, " ");
            Err(cat("unsupported inspect arguments: ", rest.as_str()))
        } else {
            let payload = if c.len() == 4 {
                Some(copy_str(c[3].as_str()))
            } else {
                None
            };
            Ok(
                Action::Inspect {
                    sidecar: copy_str(c[1].as_str()),
                    event: copy_str(c[2].as_str()),
                    payload,
                },
            )
        }
    } else if str_eq(cmd, "start") {
        match optional_target(parsed, cmd) {
            Ok(t) => Ok(Action::Start(t)),
            Err(e) => Err(e),
        }
    } else if str_eq(cmd, "stop") {
        match optional_target(parsed, cmd) {
            Ok(t) => Ok(Action::Stop(t)),
            Err(e) => Err(e),
        }
    } else if str_eq(cmd, "restart") {
        match optional_target(parsed, cmd) {
            Ok(t) => Ok(Action::Restart(t)),
            Err(e) => Err(e),
        }
    } else if str_eq(cmd, "status") {
        refuse_extra(parsed, 1, "status", Action::Status)
    } else if str_eq(cmd, "list") {
        refuse_extra(parsed, 1, "list", Action::List)
    } else if str_eq(cmd, "reset") {
        refuse_extra(parsed, 1, "reset", Action::Reset)
    } else {
        let words = join_strings(c.as_slice(), 0, " ");
        proof {
            assert(parsed@.command.skip(0) =~= parsed@.command);
        }
        Err(cat3("unknown command: ", words.as_str(), "; run `sidecar help`"))
    }
}

/// Some diagnostic in `d` is an error.
pub open spec fn has_error(d: Seq<Diagnostic>) -> bool {
    exists|i: int| 0 <= i < d.len() && d[i].severity == Severity::Error
}

/// The outcome of `doctor`: a failure exactly when some diagnostic is an error.
pub fn doctor_outcome(diagnostics: &[Diagnostic]) -> (res: Result<(), String>)
    ensures
        res is Ok <==> !has_error(diagnostics@),
        res matches Err(e) ==> e@ == "sidecar doctor found configuration errors"@,
{
    let mut i: usize = 0;
    while i < diagnostics.len()
        invariant
            i <= diagnostics.len(),
            forall|j: int| 0 <= j < i ==> diagnostics@[j].severity != Severity::Error,
        decreases diagnostics.len() - i,
    {
        match diagnostics[i].severity {
            Severity::Error => {
                return Err(copy_str("sidecar doctor found configuration errors"));
            },
            Severity::Warning => {},
        }
        i = i + 1;
    }
    Ok(())
}

/// The namespace that replaces the manifest's: the `--project` flag, else a
/// non-empty `SIDECAR_PROJECT`.
pub open spec fn namespace_override(
    project_override: Option<Seq<char>>,
    env_project: Option<Seq<char>>,
) -> Option<Seq<char>> {
    match project_override {
        Some(p) => Some(p),
        None => match env_project {
            Some(e) if e.len() > 0 => Some(e),
            _ => None,
        },
    }
}

/// Replaces the manifest namespace of `state` as `--project` or
/// `SIDECAR_PROJECT` ask.
pub fn apply_namespace_override(
    state: &mut DevState,
    parsed: &ParsedArgs,
    env_project: Option<&str>,
)
    ensures
        final(state).config_path == old(state).config_path,
        final(state).config.app == old(state).config.app,
        final(state).config.sidecars == old(state).config.sidecars,
        final(state).config.inspect == old(state).config.inspect,
        final(state).config.project.name == old(state).config.project.name,
        final(state).config.project.root == old(state).config.project.root,
        final(state).config.project.data_dir == old(state).config.project.data_dir,
        final(state).config.project.namespace@ == match namespace_override(
            parsed@.project_override,
            match env_project {
                Some(e) => Some(e@),
                None => None,
            },
        ) {
            Some(ns) => ns,
            None => old(state).config.project.namespace@,
        },
{
    match &parsed.project_override {
        Some(p) => {
            state.config.project.namespace = copy_str(p.as_str());
        },
        None => {
            if let Some(e) = env_project {
                if !e.is_empty() {
                    state.config.project.namespace = copy_str(e);
                }
            }
        },
    }
}

/// The data paths of the project that a command line and manifest select.
pub fn data_paths_for(parsed: &ParsedArgs, state: &DevState, env: &DataHomeEnv) -> (paths:
    DataPaths)
    ensures
        paths@ == data_paths(
            state.config.project.namespace@,
            parsed@.data_home,
            opt_view(state.config.project.data_dir),
            *env,
        ),
{
    let home = match &parsed.data_home {
        Some(h) => Some(h.as_str()),
        None => None,
    };
    let dir = match &state.config.project.data_dir {
        Some(d) => Some(d.as_str()),
        None => None,
    };
    resolve_data_paths(state.config.project.namespace.as_str(), home, dir, env)
}

/// The manifest path that a command needs: the `--config` value, else the
/// refusal `--config <path> is required`.
pub fn config_path(parsed: &ParsedArgs) -> (res: Result<String, String>)
    ensures
        match res {
            Ok(p) => parsed@.config == Some(p@),
            Err(e) => parsed@.config is None && e@ == "--config <path> is required"@,
        },
{
    match &parsed.config {
        Some(c) => Ok(copy_str(c.as_str())),
        None => Err(copy_str("--config <path> is required")),
    }
}

} // verus!
