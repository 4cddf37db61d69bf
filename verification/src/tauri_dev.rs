//! The `tauri-dev` command line: a smaller scaffold over the same manifest,
//! with `doctor`, `plan` and `inspect config`.
use vstd::prelude::*;

use crate::cli::{
    format_of, has_error, is_plain_word, is_word_flag, lemma_plain_word_is_no_flag, parse_format,
    OutputFormat,
};
use crate::state::{Diagnostic, Severity};
use crate::text::{
    cat, cat3, copy_str, join, join_strings, opt_view, str_eq, starts_with_str,
    trim_start_matches, trim_start_matches_str, views,
};

verus! {

/// A parsed `tauri-dev` command line.
#[derive(Clone, Debug, PartialEq, Eq)]
pub struct ParsedArgs {
    pub command: Vec<String>,
    pub config: Option<String>,
    pub format: OutputFormat,
}

/// A parsed `tauri-dev` command line, as plain values.
pub struct ParsedModel {
    pub command: Seq<Seq<char>>,
    pub config: Option<Seq<char>>,
    pub format: OutputFormat,
}

impl ParsedArgs {
    pub open spec fn view(self) -> ParsedModel {
        ParsedModel { command: views(self.command@), config: opt_view(self.config), format: self.format }
    }
}

pub const HELP_TEXT: &'static str = "tauri-dev\n\n\
Tauri development orchestration for app, sidecar, socket, inspect, and diagnostics loops.\n\
It is a product-agnostic CLI: consumers provide explicit config and own product semantics.\n\n\
Commands:\n  \
  doctor --config <path> [--format text|json]\n  \
  inspect config --config <path> [--format text|json]\n  \
  plan --config <path> [--format text|json]\n  \
  help\n  \
  version\n\n\
Config:\n  \
  Use explicit --config <path>. No default config filename is reserved in this scaffold.\n\n\
Feedback:\n  \
  Report parser gaps, diagnostics noise, install issues, and missing Tauri-dev capabilities at:\n  \
  https://github.com/PerishCode/tauri-dev/issues";

/// The version this build reports: the version that the build was stamped
/// with, else `v` and the package version.
pub fn version(build_version: Option<&str>, package_version: &str) -> (v: String)
    ensures
        v@ == match build_version {
            Some(b) => b@,
            None => "v"@ + package_version@,
        },
{
    match build_version {
        Some(b) => copy_str(b),
        None => cat("v", package_version),
    }
}

/// The usage text.
pub fn help_text() -> (h: &'static str)
    ensures
        h@ == HELP_TEXT@,
{
    HELP_TEXT
}

/// What parsing `args` from position `i` on gives, starting from `st`.
pub open spec fn parse_from(args: Seq<Seq<char>>, i: int, st: ParsedModel) -> Result<
    ParsedModel,
    Seq<char>,
>
    decreases args.len() - i,
{
    if i < 0 || i >= args.len() {
        Ok(st)
    } else {
        let arg = args[i];
        if arg == "--config"@ {
            if i + 1 < args.len() {
                parse_from(args, i + 2, ParsedModel { config: Some(args[i + 1]), ..st })
            } else {
                Err("--config requires a value"@)
            }
        } else if arg == "--format"@ {
            if i + 1 < args.len() {
                match format_of(args[i + 1]) {
                    Ok(f) => parse_from(args, i + 2, ParsedModel { format: f, ..st }),
                    Err(e) => Err(e),
                }
            } else {
                Err("--format requires a value"@)
            }
        } else if "--config="@.is_prefix_of(arg) {
            parse_from(
                args,
                i + 1,
                ParsedModel { config: Some(trim_start_matches(arg, "--config="@)), ..st },
            )
        } else if "--format="@.is_prefix_of(arg) {
            match format_of(trim_start_matches(arg, "--format="@)) {
                Ok(f) => parse_from(args, i + 1, ParsedModel { format: f, ..st }),
                Err(e) => Err(e),
            }
        } else if "-"@.is_prefix_of(arg) && !is_word_flag(arg) {
            Err("unknown option: "@ + arg)
        } else {
            parse_from(args, i + 1, ParsedModel { command: st.command.push(arg), ..st })
        }
    }
}

/// What parsing a full command line gives; its first argument names the binary.
pub open spec fn parse_args(args: Seq<Seq<char>>) -> Result<ParsedModel, Seq<char>> {
    parse_from(
        args,
        1,
        ParsedModel { command: Seq::empty(), config: None, format: OutputFormat::Text },
    )
}

/// Parses a command line; its first argument names the binary and is skipped.
pub fn parse(args: Vec<String>) -> (res: Result<ParsedArgs, String>)
    ensures
        match res {
            Ok(p) => parse_args(views(args@)) == Ok::<ParsedModel, Seq<char>>(p@),
            Err(e) => parse_args(views(args@)) == Err::<ParsedModel, Seq<char>>(e@),
        },
{
    let ghost all = views(args@);
    let mut command: Vec<String> = Vec::new();
    let mut config: Option<String> = None;
    let mut format = OutputFormat::Text;
    let mut i: usize = 1;
    assert(views(command@) =~= Seq::<Seq<char>>::empty());
    while i < args.len()
        invariant
            all == views(args@),
            1 <= i,
            parse_args(all) == parse_from(
                all,
                i as int,
                ParsedModel { command: views(command@), config: opt_view(config), format },
            ),
        decreases args.len() - i,
    {
        let arg = args[i].as_str();
        assert(all[i as int] == arg@);
        if str_eq(arg, "--config") {
            if i + 1 < args.len() {
                assert(all[i + 1] == args@[i + 1]@);
                config = Some(copy_str(args[i + 1].as_str()));
                i = i + 2;
            } else {
                return Err(copy_str("--config requires a value"));
            }
        } else if str_eq(arg, "--format") {
            if i + 1 < args.len() {
                assert(all[i + 1] == args@[i + 1]@);
                match parse_format(args[i + 1].as_str()) {
                    Ok(f) => {
                        format = f;
                    },
                    Err(e) => {
                        return Err(e);
                    },
                }
                i = i + 2;
            } else {
                return Err(copy_str("--format requires a value"));
            }
        } else if starts_with_str(arg, "--config=") {
            config = Some(trim_start_matches_str(arg, "--config="));
            i = i + 1;
        } else if starts_with_str(arg, "--format=") {
            let value = trim_start_matches_str(arg, "--format=");
            match parse_format(value.as_str()) {
                Ok(f) => {
                    format = f;
                },
                Err(e) => {
                    return Err(e);
                },
            }
            i = i + 1;
        } else if starts_with_str(arg, "-") && !(str_eq(arg, "-h") || str_eq(arg, "--help")
            || str_eq(arg, "-V") || str_eq(arg, "--version")) {
            return Err(cat("unknown option: ", arg));
        } else {
            let ghost before = command@;
            command.push(copy_str(arg));
            assert(views(command@) =~= views(before).push(arg@));
            i = i + 1;
        }
    }
    Ok(ParsedArgs { command, config, format })
}

/// Parsing a run of command words appends them to the command.
proof fn lemma_parse_words(args: Seq<Seq<char>>, i: int, n: int, st: ParsedModel)
    requires
        0 <= i,
        0 <= n,
        i + n <= args.len(),
        forall|k: int| i <= k < i + n ==> is_plain_word(#[trigger] args[k]),
    ensures
        parse_from(args, i, st) == parse_from(
            args,
            i + n,
            ParsedModel { command: st.command + args.subrange(i, i + n), ..st },
        ),
    decreases n,
{
    if n == 0 {
        assert(st.command + args.subrange(i, i) =~= st.command);
    } else {
        assert(is_plain_word(args[i]));
        lemma_plain_word_is_no_flag(args[i]);
        let next = ParsedModel { command: st.command.push(args[i]), ..st };
        lemma_parse_words(args, i + 1, n - 1, next);
        assert(next.command + args.subrange(i + 1, i + n) =~= st.command + args.subrange(i, i + n));
    }
}

/// Global flags may stand anywhere: `--config <path>` after the command words
/// parses as it does before them, for any command words and any path.
pub proof fn lemma_config_flag_position_independent(
    binary: Seq<char>,
    words: Seq<Seq<char>>,
    path: Seq<char>,
)
    requires
        forall|k: int| 0 <= k < words.len() ==> is_plain_word(#[trigger] words[k]),
    ensures
        parse_args(seq![binary] + words + seq!["--config"@, path]) == parse_args(
            seq![binary, "--config"@, path] + words,
        ),
        parse_args(seq![binary] + words + seq!["--config"@, path]) == Ok::<ParsedModel, Seq<char>>(
            ParsedModel { command: words, config: Some(path), format: OutputFormat::Text },
        ),
{
    let after = seq![binary] + words + seq!["--config"@, path];
    let before = seq![binary, "--config"@, path] + words;
    let n = words.len() as int;
    let start = ParsedModel { command: Seq::empty(), config: None, format: OutputFormat::Text };
    let done = ParsedModel { command: words, config: Some(path), format: OutputFormat::Text };
    assert forall|k: int| 1 <= k < 1 + n implies is_plain_word(#[trigger] after[k]) by {
        assert(after[k] == words[k - 1]);
    }
    lemma_parse_words(after, 1, n, start);
    assert(after.subrange(1, 1 + n) =~= words);
    assert(Seq::<Seq<char>>::empty() + words =~= words);
    assert(after[1 + n] == "--config"@);
    assert(after[2 + n] == path);
    assert(parse_from(after, 3 + n, done) == Ok::<ParsedModel, Seq<char>>(done));
    assert forall|k: int| 3 <= k < 3 + n implies is_plain_word(#[trigger] before[k]) by {
        assert(before[k] == words[k - 3]);
    }
    assert(before[1] == "--config"@);
    assert(before[2] == path);
    let configured = ParsedModel { config: Some(path), ..start };
    lemma_parse_words(before, 3, n, configured);
    assert(before.subrange(3, 3 + n) =~= words);
    assert(parse_from(before, 3 + n, done) == Ok::<ParsedModel, Seq<char>>(done));
}

/// What a `tauri-dev` command line asks for.
#[derive(Clone, Copy, Debug, PartialEq, Eq)]
pub enum Action {
    /// No command: print the usage text.
    Usage,
    Help,
    Version,
    Doctor,
    Plan,
    InspectConfig,
}

/// The single command word of `c`, if it has exactly one.
pub open spec fn is_single(c: Seq<Seq<char>>, word: Seq<char>) -> bool {
    c.len() == 1 && c[0] == word
}

/// What the command words `c` ask for.
pub open spec fn action_of(c: Seq<Seq<char>>) -> Result<Action, Seq<char>> {
    if c.len() == 0 {
        Ok(Action::Usage)
    } else if is_single(c, "help"@) || is_single(c, "--help"@) || is_single(c, "-h"@) {
        Ok(Action::Help)
    } else if is_single(c, "version"@) || is_single(c, "--version"@) || is_single(c, "-V"@) {
        Ok(Action::Version)
    } else if is_single(c, "doctor"@) {
        Ok(Action::Doctor)
    } else if is_single(c, "plan"@) {
        Ok(Action::Plan)
    } else if c.len() == 2 && c[0] == "inspect"@ && c[1] == "config"@ {
        Ok(Action::InspectConfig)
    } else if is_single(c, "start"@) || is_single(c, "stop"@) || is_single(c, "restart"@)
        || is_single(c, "status"@) {
        Err(c[0] + LIFECYCLE_RESERVED_MESSAGE@)
    } else {
        Err("unknown command: "@ + join(c, " "@) + "; run `tauri-dev help`"@)
    }
}

pub const LIFECYCLE_RESERVED_MESSAGE: &'static str =
    " is reserved for lifecycle execution; use `plan --config <path>` in this scaffold";

/// What a parsed command line asks for, or why it is refused.
pub fn decide(parsed: &ParsedArgs) -> (res: Result<Action, String>)
    ensures
        match res {
            Ok(a) => action_of(parsed@.command) == Ok::<Action, Seq<char>>(a),
            Err(e) => action_of(parsed@.command) == Err::<Action, Seq<char>>(e@),
        },
{
    let c = &parsed.command;
    if c.len() == 0 {
        return Ok(Action::Usage);
    }
    let first = c[0].as_str();
    let single = c.len() == 1;
    if single && (str_eq(first, "help") || str_eq(first, "--help") || str_eq(first, "-h")) {
        Ok(Action::Help)
    } else if single && (str_eq(first, "version") || str_eq(first, "--version") || str_eq(
        first,
        "-V",
    )) {
        Ok(Action::Version)
    } else if single && str_eq(first, "doctor") {
        Ok(Action::Doctor)
    } else if single && str_eq(first, "plan") {
        Ok(Action::Plan)
    } else if c.len() == 2 && str_eq(first, "inspect") && str_eq(c[1].as_str(), "config") {
        Ok(Action::InspectConfig)
    } else if single && (str_eq(first, "start") || str_eq(first, "stop") || str_eq(
        first,
        "restart",
    ) || str_eq(first, "status")) {
        Err(cat(first, LIFECYCLE_RESERVED_MESSAGE))
    } else {
        let words = join_strings(c.as_slice(), 0, " ");
        proof {
            assert(parsed@.command.skip(0) =~= parsed@.command);
        }
        Err(cat3("unknown command: ", words.as_str(), "; run `tauri-dev help`"))
    }
}

/// The outcome of `doctor`: a failure exactly when some diagnostic is an error.
pub fn doctor_outcome(diagnostics: &[Diagnostic]) -> (res: Result<(), String>)
    ensures
        res is Ok <==> !has_error(diagnostics@),
        res matches Err(e) ==> e@ == "tauri-dev doctor found configuration errors"@,
{
    let mut i: usize = 0;
    while i < diagnostics.len()
        invariant
            i <= diagnostics.len(),
            forall|j: int| 0 <= j < i ==> diagnostics@[j].severity != Severity::Error,
        decreases diagnostics.len() - i,
    {
        match diagnostics[i].severity {
            Severity::Error => {
                return Err(copy_str("tauri-dev doctor found configuration errors"));
            },
            Severity::Warning => {},
        }
        i = i + 1;
    }
    Ok(())
}

/// A command and its arguments as one line: the words joined by spaces.
pub fn command_line(command: &str, args: &[String]) -> (line: String)
    ensures
        line@ == join(seq![command@] + views(args@), " "@),
{
    let mut words: Vec<String> = Vec::new();
    words.push(copy_str(command));
    let mut i: usize = 0;
    while i < args.len()
        invariant
            i <= args.len(),
            views(words@) == seq![command@] + views(args@).take(i as int),
        decreases args.len() - i,
    {
        let ghost before = words@;
        words.push(copy_str(args[i].as_str()));
        assert(views(words@) =~= views(before).push(args@[i as int]@));
        assert(views(args@).take(i + 1) =~= views(args@).take(i as int).push(args@[i as int]@));
        i = i + 1;
    }
    assert(views(args@).take(args.len() as int) =~= views(args@));
    let line = join_strings(words.as_slice(), 0, " ");
    assert(views(words@).skip(0) =~= views(words@));
    line
}

/// The manifest path that a command needs: the `--config` value, else the
/// refusal `--config <path> is required`.
pub fn config_path(parsed: &ParsedArgs) -> (res: Result<String, String>)
    ensures
        match res {
            Ok(p) => parsed@.config == Some(p@),
            Err(e) => parsed@.config is None && e@ == "--config <path> is required"@,
        },
{
    match &parsed.config {
        Some(c) => Ok(copy_str(c.as_str())),
        None => Err(copy_str("--config <path> is required")),
    }
}

} // verus!
