//! Stamp args protocol: labels appended to a sidecar's command line so that
//! the tool can identify and operate on the process later.
//!
//! The canonical flags are `--sidecar-stamp-{app,namespace,mode,source}`.
//! Discovery relies on these flags alone, so any consumer that emits them is
//! interoperable with the tool.
use vstd::prelude::*;

use crate::text::{cat3, opt_view, str_eq, strip_prefix_str, views};

verus! {

pub const STAMP_APP_FLAG: &'static str = "--sidecar-stamp-app";

pub const STAMP_NAMESPACE_FLAG: &'static str = "--sidecar-stamp-namespace";

pub const STAMP_MODE_FLAG: &'static str = "--sidecar-stamp-mode";

pub const STAMP_SOURCE_FLAG: &'static str = "--sidecar-stamp-source";

pub const DEFAULT_NAMESPACE: &'static str = "default";

pub const DEFAULT_MODE: &'static str = "dev";

pub const DEFAULT_SOURCE: &'static str = "tool:sidecar";

/// The four labels a stamped process carries.
#[derive(Clone, Debug, PartialEq, Eq)]
pub struct Stamp {
    pub app: String,
    pub namespace: String,
    pub mode: String,
    pub source: String,
}

/// The inline form of a flag with its value: `<flag>=<value>`.
pub open spec fn flag_arg(flag: Seq<char>, value: Seq<char>) -> Seq<char> {
    flag + seq!['='] + value
}

/// The value given to `flag` in `args`: for the first argument that is the flag
/// itself, the argument after it (if there is one); for the first argument
/// of the form `<flag>=<value>`, that value; whichever comes first.
pub open spec fn flag_value(args: Seq<Seq<char>>, flag: Seq<char>) -> Option<Seq<char>>
    decreases args.len(),
{
    if args.len() == 0 {
        None
    } else if args[0] == flag {
        if args.len() > 1 {
            Some(args[1])
        } else {
            None
        }
    } else if (flag + seq!['=']).is_prefix_of(args[0]) {
        Some(args[0].skip(flag.len() + 1int))
    } else {
        flag_value(args.drop_first(), flag)
    }
}

/// The argument list that a stamp with these labels appends.
pub open spec fn stamp_args(app: Seq<char>, namespace: Seq<char>, mode: Seq<char>, source: Seq<
    char,
>) -> Seq<Seq<char>> {
    seq![
        flag_arg(STAMP_APP_FLAG@, app),
        flag_arg(STAMP_NAMESPACE_FLAG@, namespace),
        flag_arg(STAMP_MODE_FLAG@, mode),
        flag_arg(STAMP_SOURCE_FLAG@, source),
    ]
}

/// The labels read back from `args`, when all four are there.
pub open spec fn stamp_of(args: Seq<Seq<char>>) -> Option<(Seq<char>, Seq<char>, Seq<char>, Seq<char>)> {
    match (
        flag_value(args, STAMP_APP_FLAG@),
        flag_value(args, STAMP_NAMESPACE_FLAG@),
        flag_value(args, STAMP_MODE_FLAG@),
        flag_value(args, STAMP_SOURCE_FLAG@),
    ) {
        (Some(a), Some(n), Some(m), Some(s)) => Some((a, n, m, s)),
        _ => None,
    }
}

impl Stamp {
    /// The labels of this stamp, as plain sequences.
    pub open spec fn labels(&self) -> (Seq<char>, Seq<char>, Seq<char>, Seq<char>) {
        (self.app@, self.namespace@, self.mode@, self.source@)
    }

    /// The canonical flags of this stamp, in the order app, namespace, mode, source.
    pub fn args(&self) -> (out: Vec<String>)
        ensures
            views(out@) == stamp_args(self.app@, self.namespace@, self.mode@, self.source@),
    {
        let mut out: Vec<String> = Vec::new();
        out.push(cat3(STAMP_APP_FLAG, "=", self.app.as_str()));
        out.push(cat3(STAMP_NAMESPACE_FLAG, "=", self.namespace.as_str()));
        out.push(cat3(STAMP_MODE_FLAG, "=", self.mode.as_str()));
        out.push(cat3(STAMP_SOURCE_FLAG, "=", self.source.as_str()));
        proof {
            reveal_strlit("=");
            assert("="@ =~= seq!['=']);
        }
        assert(views(out@) =~= stamp_args(self.app@, self.namespace@, self.mode@, self.source@));
        out
    }
}

/// The value of `flag` in `args`, either inline (`<flag>=<value>`) or as the
/// argument that follows it.
pub fn read_flag(args: &[String], flag: &str) -> (out: Option<String>)
    ensures
        opt_view(out) == flag_value(views(args@), flag@),
{
    let prefix = cat3(flag, "=", "");
    proof {
        reveal_strlit("=");
        reveal_strlit("");
        assert(prefix@ =~= flag@ + seq!['=']);
    }
    let ghost all = views(args@);
    let mut index: usize = 0;
    assert(all.skip(0) =~= all);
    while index < args.len()
        invariant
            index <= args.len(),
            all == views(args@),
            prefix@ == flag@ + seq!['='],
            flag_value(all, flag@) == flag_value(all.skip(index as int), flag@),
        decreases args.len() - index,
    {
        let ghost rest = all.skip(index as int);
        assert(rest[0] == args@[index as int]@);
        if str_eq(args[index].as_str(), flag) {
            if index + 1 < args.len() {
                assert(rest[1] == args@[index + 1]@);
                return Some(args[index + 1].clone());
            }
            return None;
        }
        let stripped = strip_prefix_str(args[index].as_str(), prefix.as_str());
        if let Some(value) = stripped {
            return Some(value);
        }
        assert(rest.drop_first() == all.skip(index + 1));
        index = index + 1;
    }
    None
}

/// The stamp that `args` carries, when all four flags are present.
pub fn read_stamp(args: &[String]) -> (out: Option<Stamp>)
    ensures
        match out {
            Some(s) => stamp_of(views(args@)) == Some(s.labels()),
            None => stamp_of(views(args@)) is None,
        },
{
    let app = read_flag(args, STAMP_APP_FLAG);
    let namespace = read_flag(args, STAMP_NAMESPACE_FLAG);
    let mode = read_flag(args, STAMP_MODE_FLAG);
    let source = read_flag(args, STAMP_SOURCE_FLAG);
    match (app, namespace, mode, source) {
        (Some(app), Some(namespace), Some(mode), Some(source)) => Some(
            Stamp { app, namespace, mode, source },
        ),
        _ => None,
    }
}

/// Where no argument before it is `flag` itself, an argument of the form
/// `<flag>=<value>` gives `value`.
proof fn lemma_inline_flag_found(args: Seq<Seq<char>>, flag: Seq<char>, i: int, value: Seq<char>)
    requires
        0 <= i < args.len(),
        args[i] == flag_arg(flag, value),
        forall|j: int| 0 <= j < i ==> #[trigger] args[j] != flag && !(flag + seq!['=']).is_prefix_of(args[j]),
    ensures
        flag_value(args, flag) == Some(value),
    decreases i,
{
    if i == 0 {
        assert((flag + seq!['=']).is_prefix_of(args[0]));
        assert(args[0].skip(flag.len() + 1int) =~= value);
    } else {
        assert(args[0] != flag && !(flag + seq!['=']).is_prefix_of(args[0]));
        assert forall|j: int| 0 <= j < i - 1 implies #[trigger] args.drop_first()[j] != flag
            && !(flag + seq!['=']).is_prefix_of(args.drop_first()[j]) by {
            assert(args.drop_first()[j] == args[j + 1]);
        }
        lemma_inline_flag_found(args.drop_first(), flag, i - 1, value);
    }
}

/// An argument whose character at `k` differs from that of `flag` is neither
/// the flag nor an inline form of it.
proof fn lemma_differs_at(arg: Seq<char>, flag: Seq<char>, k: int)
    requires
        0 <= k < flag.len(),
        k < arg.len(),
        arg[k] != flag[k],
    ensures
        arg != flag,
        !(flag + seq!['=']).is_prefix_of(arg),
{
    if (flag + seq!['=']).is_prefix_of(arg) {
        assert(arg.subrange(0, flag.len() + 1int)[k] == (flag + seq!['='])[k]);
    }
}

/// `arg` neither is `flag` nor gives it a value inline.
pub open spec fn avoids_flag(arg: Seq<char>, flag: Seq<char>) -> bool {
    arg != flag && !(flag + seq!['=']).is_prefix_of(arg)
}

/// `arg` is none of the four stamp flags, nor an inline form of one.
pub open spec fn avoids_stamp_flags(arg: Seq<char>) -> bool {
    &&& avoids_flag(arg, STAMP_APP_FLAG@)
    &&& avoids_flag(arg, STAMP_NAMESPACE_FLAG@)
    &&& avoids_flag(arg, STAMP_MODE_FLAG@)
    &&& avoids_flag(arg, STAMP_SOURCE_FLAG@)
}

/// Arguments that avoid `flag` do not change what `flag` reads as in what
/// follows them.
pub proof fn lemma_flag_value_skips(front: Seq<Seq<char>>, rest: Seq<Seq<char>>, flag: Seq<char>)
    requires
        forall|i: int| 0 <= i < front.len() ==> avoids_flag(#[trigger] front[i], flag),
    ensures
        flag_value(front + rest, flag) == flag_value(rest, flag),
    decreases front.len(),
{
    if front.len() > 0 {
        let all = front + rest;
        assert(all[0] == front[0]);
        assert(avoids_flag(front[0], flag));
        assert(all.drop_first() =~= front.drop_first() + rest);
        assert forall|i: int| 0 <= i < front.drop_first().len() implies avoids_flag(
            #[trigger] front.drop_first()[i],
            flag,
        ) by {
            assert(front.drop_first()[i] == front[i + 1]);
        }
        lemma_flag_value_skips(front.drop_first(), rest, flag);
    } else {
        assert(front + rest =~= rest);
    }
}

/// Stamp round trip: the arguments that a stamp appends read back as that
/// same stamp, whatever its four labels hold.
pub proof fn lemma_stamp_round_trip(app: Seq<char>, namespace: Seq<char>, mode: Seq<char>, source: Seq<char>)
    ensures
        stamp_of(stamp_args(app, namespace, mode, source)) == Some((app, namespace, mode, source)),
{
    reveal_strlit("--sidecar-stamp-app");
    reveal_strlit("--sidecar-stamp-namespace");
    reveal_strlit("--sidecar-stamp-mode");
    reveal_strlit("--sidecar-stamp-source");
    let args = stamp_args(app, namespace, mode, source);
    let a = STAMP_APP_FLAG@;
    let n = STAMP_NAMESPACE_FLAG@;
    let m = STAMP_MODE_FLAG@;
    let s = STAMP_SOURCE_FLAG@;
    assert(args[0] == flag_arg(a, app));
    assert(args[1] == flag_arg(n, namespace));
    assert(args[2] == flag_arg(m, mode));
    assert(args[3] == flag_arg(s, source));
    // The four flags share the prefix `--sidecar-stamp-` and differ at index 16.
    assert(args[0][16] == 'a');
    assert(args[1][16] == 'n');
    assert(args[2][16] == 'm');
    assert(args[3][16] == 's');
    lemma_inline_flag_found(args, a, 0, app);
    lemma_differs_at(args[0], n, 16);
    lemma_inline_flag_found(args, n, 1, namespace);
    lemma_differs_at(args[0], m, 16);
    lemma_differs_at(args[1], m, 16);
    lemma_inline_flag_found(args, m, 2, mode);
    lemma_differs_at(args[0], s, 16);
    lemma_differs_at(args[1], s, 16);
    lemma_differs_at(args[2], s, 16);
    lemma_inline_flag_found(args, s, 3, source);
}

} // verus!
