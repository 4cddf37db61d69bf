//! The global data home and the project-scoped paths below it.
//!
//! Layout:
//! ```text
//! <data_home>/
//! ├── state/                 (global; e.g. update cache)
//! └── projects/<namespace>/  (per-project, isolated by stamp namespace)
//! ```
//!
//! Precedence of the data home (highest wins):
//! 1. the `cli_data_home` argument (`--data-home <path>`)
//! 2. `SIDECAR_DATA_HOME`, when set and not empty
//! 3. the platform default (`$XDG_DATA_HOME/sidecar`, then
//!    `$HOME/.local/share/sidecar`; `%LOCALAPPDATA%\sidecar` on Windows)
//!
//! An explicit manifest `[project].data_dir` replaces
//! `<data_home>/projects/<namespace>` entirely; it does not affect `state/`.
//!
//! Paths are text; joining follows `Path::join` on the platform that
//! `DataHomeEnv::windows` names (see `path_join`).
use vstd::prelude::*;

use crate::text::{cat, cat3, chars_of, copy_str, string_of};

verus! {

/// The environment that decides the default data home.
#[derive(Clone, Debug, PartialEq, Eq)]
pub struct DataHomeEnv {
    /// `SIDECAR_DATA_HOME`
    pub sidecar_data_home: Option<String>,
    /// `XDG_DATA_HOME`
    pub xdg_data_home: Option<String>,
    /// `HOME`
    pub home: Option<String>,
    /// `LOCALAPPDATA`
    pub local_app_data: Option<String>,
    /// `USERPROFILE`
    pub user_profile: Option<String>,
    /// Whether the platform is Windows.
    pub windows: bool,
}

#[derive(Clone, Debug, PartialEq, Eq)]
pub struct DataPaths {
    /// `<data_home>` root. May be a synthesized fallback if no HOME / LOCALAPPDATA exists.
    pub root: String,
    /// `<data_home>/state`: shared, namespace-independent.
    pub state: String,
    /// `<data_home>/projects/<namespace>` (or the manifest `data_dir` override).
    pub project: String,
}

/// Whether `c` separates path components: `/`, and on Windows `\\` too.
pub open spec fn is_sep(windows: bool, c: char) -> bool {
    c == '/' || (windows && c == '\\')
}

/// The separator that joining inserts.
pub open spec fn main_sep(windows: bool) -> char {
    if windows {
        '\\'
    } else {
        '/'
    }
}

/// The number of characters of the component that starts at `start`: those
/// up to the next separator or the end.
pub open spec fn comp_len(windows: bool, p: Seq<char>, start: int) -> nat
    decreases p.len() - start,
{
    if start < 0 || start >= p.len() || is_sep(windows, p[start]) {
        0
    } else {
        1 + comp_len(windows, p, start + 1)
    }
}

/// Whether `p` starts with a Windows drive, `X:` with `X` an ASCII letter.
pub open spec fn has_drive(p: Seq<char>) -> bool {
    p.len() >= 2 && p[1] == ':' && (('a' <= p[0] && p[0] <= 'z') || ('A' <= p[0] && p[0]
        <= 'Z'))
}

/// The length of a Windows prefix made of two separators and two non-empty
/// components (`\\server\share`, and likewise `\\?\C:` or `\\.\COM42`),
/// or 0 where `p` does not start with one. Both separators end a component
/// here, and a verbatim UNC prefix `\\?\UNC\server\share` is taken as its
/// first two components `\\?\UNC`.
pub open spec fn share_prefix_len(p: Seq<char>) -> nat {
    if p.len() >= 2 && is_sep(true, p[0]) && is_sep(true, p[1]) {
        let s = comp_len(true, p, 2);
        if s > 0 && 2 + s < p.len() {
            let t = comp_len(true, p, 3 + s as int);
            if t > 0 {
                3 + s + t
            } else {
                0
            }
        } else {
            0
        }
    } else {
        0
    }
}

/// The length of the prefix of `p`: none on Unix; on Windows a share prefix
/// or a drive.
pub open spec fn prefix_len(windows: bool, p: Seq<char>) -> nat {
    if !windows {
        0
    } else if share_prefix_len(p) > 0 {
        share_prefix_len(p)
    } else if has_drive(p) {
        2
    } else {
        0
    }
}

/// Whether `p` has a root: a separator after its prefix, or a share prefix,
/// which implies one.
pub open spec fn has_root(windows: bool, p: Seq<char>) -> bool {
    (windows && share_prefix_len(p) > 0) || (prefix_len(windows, p) < p.len() && is_sep(
        windows,
        p[prefix_len(windows, p) as int],
    ))
}

/// Whether `p` is absolute: it has a root, and on Windows a prefix too.
pub open spec fn is_absolute(windows: bool, p: Seq<char>) -> bool {
    has_root(windows, p) && (!windows || prefix_len(windows, p) > 0)
}

/// `base` joined with `part`, as `Path::join` does on the platform: a part
/// that is absolute or has a prefix replaces `base`; on Windows a part with a
/// root but no prefix keeps only the prefix of `base`; otherwise a separator
/// goes between the two unless `base` is empty, ends in a separator, or is a
/// bare drive.
pub open spec fn path_join(windows: bool, base: Seq<char>, part: Seq<char>) -> Seq<char> {
    if is_absolute(windows, part) || prefix_len(windows, part) > 0 {
        part
    } else if has_root(windows, part) {
        base.take(prefix_len(windows, base) as int) + part
    } else if base.len() == 0 || is_sep(windows, base.last()) || (windows && share_prefix_len(
        base,
    ) == 0 && has_drive(base) && base.len() == 2) {
        base + part
    } else {
        base + seq![main_sep(windows)] + part
    }
}

/// The platform default data home.
pub open spec fn default_data_home(env: DataHomeEnv) -> Seq<char> {
    if env.windows {
        match (env.local_app_data, env.user_profile) {
            (Some(local), _) => path_join(true, local@, "sidecar"@),
            (None, Some(profile)) => path_join(true, profile@, "AppData/Local/sidecar"@),
            (None, None) => "sidecar"@,
        }
    } else {
        match (env.xdg_data_home, env.home) {
            (Some(xdg), _) if xdg@.len() > 0 => path_join(false, xdg@, "sidecar"@),
            (_, Some(home)) => path_join(false, home@, ".local/share/sidecar"@),
            _ => "sidecar"@,
        }
    }
}

/// The data home: the command-line override, else a non-empty
/// `SIDECAR_DATA_HOME`, else the platform default.
pub open spec fn data_home(cli_override: Option<Seq<char>>, env: DataHomeEnv) -> Seq<char> {
    match cli_override {
        Some(path) => path,
        None => match env.sidecar_data_home {
            Some(value) if value@.len() > 0 => value@,
            _ => default_data_home(env),
        },
    }
}

/// The three paths, as text: root, state, project.
pub open spec fn data_paths(
    namespace: Seq<char>,
    cli_override: Option<Seq<char>>,
    manifest_data_dir: Option<Seq<char>>,
    env: DataHomeEnv,
) -> (Seq<char>, Seq<char>, Seq<char>) {
    let root = data_home(cli_override, env);
    let project = match manifest_data_dir {
        Some(dir) => dir,
        None => path_join(env.windows, path_join(env.windows, root, "projects"@), namespace),
    };
    (root, path_join(env.windows, root, "state"@), project)
}

impl DataPaths {
    pub open spec fn view(self) -> (Seq<char>, Seq<char>, Seq<char>) {
        (self.root@, self.state@, self.project@)
    }
}

fn is_sep_char(windows: bool, c: char) -> (b: bool)
    ensures
        b == is_sep(windows, c),
{
    c == '/' || (windows && c == '\\')
}

/// The end of the component of `p` that starts at `start`.
fn comp_end(windows: bool, p: &Vec<char>, start: usize) -> (end: usize)
    requires
        start <= p.len(),
    ensures
        end == start + comp_len(windows, p@, start as int),
        end <= p.len(),
{
    let mut i = start;
    while i < p.len() && !is_sep_char(windows, p[i])
        invariant
            start <= i <= p.len(),
            comp_len(windows, p@, start as int) == (i - start) + comp_len(windows, p@, i as int),
        decreases p.len() - i,
    {
        i = i + 1;
    }
    i
}

fn share_prefix_end(p: &Vec<char>) -> (n: usize)
    ensures
        n == share_prefix_len(p@),
        n <= p.len(),
{
    if p.len() >= 2 && is_sep_char(true, p[0]) && is_sep_char(true, p[1]) {
        let s_end = comp_end(true, p, 2);
        if s_end > 2 && s_end < p.len() {
            let t_end = comp_end(true, p, s_end + 1);
            if t_end > s_end + 1 {
                t_end
            } else {
                0
            }
        } else {
            0
        }
    } else {
        0
    }
}

fn has_drive_of(p: &Vec<char>) -> (b: bool)
    ensures
        b == has_drive(p@),
{
    p.len() >= 2 && p[1] == ':' && (('a' <= p[0] && p[0] <= 'z') || ('A' <= p[0] && p[0]
        <= 'Z'))
}

fn prefix_end(windows: bool, p: &Vec<char>) -> (n: usize)
    ensures
        n == prefix_len(windows, p@),
        n <= p.len(),
{
    if !windows {
        return 0;
    }
    let share = share_prefix_end(p);
    if share > 0 {
        share
    } else if has_drive_of(p) {
        2
    } else {
        0
    }
}

fn has_root_of(windows: bool, p: &Vec<char>) -> (b: bool)
    ensures
        b == has_root(windows, p@),
{
    let n = prefix_end(windows, p);
    (windows && share_prefix_end(p) > 0) || (n < p.len() && is_sep_char(windows, p[n]))
}

/// Whether `path` is absolute on the platform, as `Path::is_absolute` decides.
pub fn is_absolute_path(windows: bool, path: &str) -> (b: bool)
    ensures
        b == is_absolute(windows, path@),
{
    let p = chars_of(path);
    has_root_of(windows, &p) && (!windows || prefix_end(windows, &p) > 0)
}

/// `base` joined with `part`, as `Path::join` does on the platform.
pub fn join_path(windows: bool, base: &str, part: &str) -> (out: String)
    ensures
        out@ == path_join(windows, base@, part@),
{
    let p = chars_of(part);
    if is_absolute_path(windows, part) || prefix_end(windows, &p) > 0 {
        return copy_str(part);
    }
    let b = chars_of(base);
    if has_root_of(windows, &p) {
        let pre = string_of(&b, 0, prefix_end(windows, &b));
        return cat(pre.as_str(), part);
    }
    if b.len() == 0 || is_sep_char(windows, b[b.len() - 1]) || (windows && share_prefix_end(&b)
        == 0 && has_drive_of(&b) && b.len() == 2) {
        cat(base, part)
    } else if windows {
        let out = cat3(base, "\\", part);
        proof {
            reveal_strlit("\\");
            assert("\\"@ =~= seq!['\\']);
        }
        out
    } else {
        let out = cat3(base, "/", part);
        proof {
            reveal_strlit("/");
            assert("/"@ =~= seq!['/']);
        }
        out
    }
}

fn optional_str(o: &Option<String>) -> (r: Option<&str>)
    ensures
        match r {
            Some(s) => o is Some && s@ == o->Some_0@,
            None => o is None,
        },
{
    match o {
        Some(s) => Some(s.as_str()),
        None => None,
    }
}

/// The platform default data home.
pub fn resolve_default_data_home(env: &DataHomeEnv) -> (out: String)
    ensures
        out@ == default_data_home(*env),
{
    if env.windows {
        if let Some(local) = optional_str(&env.local_app_data) {
            return join_path(true, local, "sidecar");
        }
        if let Some(profile) = optional_str(&env.user_profile) {
            return join_path(true, profile, "AppData/Local/sidecar");
        }
        return copy_str("sidecar");
    }
    if let Some(xdg) = optional_str(&env.xdg_data_home) {
        if !xdg.is_empty() {
            return join_path(false, xdg, "sidecar");
        }
    }
    if let Some(home) = optional_str(&env.home) {
        return join_path(false, home, ".local/share/sidecar");
    }
    copy_str("sidecar")
}

/// The data home: the command-line override, else a non-empty
/// `SIDECAR_DATA_HOME`, else the platform default.
pub fn resolve_data_home(cli_override: Option<&str>, env: &DataHomeEnv) -> (out: String)
    ensures
        out@ == data_home(
            match cli_override {
                Some(s) => Some(s@),
                None => None,
            },
            *env,
        ),
{
    if let Some(path) = cli_override {
        return copy_str(path);
    }
    if let Some(value) = optional_str(&env.sidecar_data_home) {
        if !value.is_empty() {
            return copy_str(value);
        }
    }
    resolve_default_data_home(env)
}

/// The global root, the shared state directory and the project directory.
pub fn resolve_data_paths(
    namespace: &str,
    cli_data_home: Option<&str>,
    manifest_data_dir: Option<&str>,
    env: &DataHomeEnv,
) -> (paths: DataPaths)
    ensures
        paths@ == data_paths(
            namespace@,
            match cli_data_home {
                Some(s) => Some(s@),
                None => None,
            },
            match manifest_data_dir {
                Some(s) => Some(s@),
                None => None,
            },
            *env,
        ),
{
    let root = resolve_data_home(cli_data_home, env);
    let state = join_path(env.windows, root.as_str(), "state");
    let project = match manifest_data_dir {
        Some(dir) => copy_str(dir),
        None => {
            let projects = join_path(env.windows, root.as_str(), "projects");
            join_path(env.windows, projects.as_str(), namespace)
        },
    };
    DataPaths { root, state, project }
}

/// A command-line data home wins over the environment and the platform
/// default, whatever they hold.
pub proof fn lemma_cli_override_wins(path: Seq<char>, env: DataHomeEnv)
    ensures
        data_home(Some(path), env) == path,
{
}

/// A non-empty `SIDECAR_DATA_HOME` wins over the platform default.
pub proof fn lemma_env_beats_default(env: DataHomeEnv)
    requires
        env.sidecar_data_home is Some,
        env.sidecar_data_home->Some_0@.len() > 0,
    ensures
        data_home(None, env) == env.sidecar_data_home->Some_0@,
{
}

/// A manifest `data_dir` replaces the project directory only: the root and
/// the state directory are the same with or without it.
pub proof fn lemma_data_dir_replaces_project_only(
    namespace: Seq<char>,
    cli_override: Option<Seq<char>>,
    dir: Seq<char>,
    env: DataHomeEnv,
)
    ensures
        data_paths(namespace, cli_override, Some(dir), env).0 == data_paths(
            namespace,
            cli_override,
            None,
            env,
        ).0,
        data_paths(namespace, cli_override, Some(dir), env).1 == data_paths(
            namespace,
            cli_override,
            None,
            env,
        ).1,
        data_paths(namespace, cli_override, Some(dir), env).2 == dir,
{
}

/// The state directory does not depend on the namespace.
pub proof fn lemma_state_is_namespace_independent(
    a: Seq<char>,
    b: Seq<char>,
    cli_override: Option<Seq<char>>,
    dir: Option<Seq<char>>,
    env: DataHomeEnv,
)
    ensures
        data_paths(a, cli_override, dir, env).1 == data_paths(b, cli_override, dir, env).1,
{
}

} // verus!
