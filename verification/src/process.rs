//! Stamped processes: reading a process table line (`<pid> <command line>`)
//! and selecting the processes of a namespace or of one app in it.
use vstd::prelude::*;

use crate::plan::{lemma_spawned_sidecar_carries_its_stamp, SidecarPlan};
use crate::stamp::{
    avoids_stamp_flags, lemma_flag_value_skips, read_stamp, stamp_of, Stamp, STAMP_APP_FLAG,
    STAMP_MODE_FLAG, STAMP_NAMESPACE_FLAG, STAMP_SOURCE_FLAG,
};
use crate::text::{
    chars_of, copy_str, decimal, digit_char, is_white, is_white_char, join, str_eq, string_of,
    trim, trim_end, trim_start, trim_str, views,
};

verus! {

/// A running process whose command line carries a stamp.
#[derive(Clone, Debug, PartialEq, Eq)]
pub struct StampedProcess {
    pub pid: u32,
    pub command: String,
    pub stamp: Stamp,
}

/// The end of the run of non-white characters of `s` that starts at `i`.
pub open spec fn word_end(s: Seq<char>, i: int) -> int
    decreases s.len() - i,
{
    if i < 0 || i >= s.len() || is_white(s[i]) {
        i
    } else {
        word_end(s, i + 1)
    }
}

/// The run that starts at `i` ends within `s`, holds no white space, and
/// stops at white space or at the end.
pub proof fn lemma_word_end_bounds(s: Seq<char>, i: int)
    requires
        0 <= i <= s.len(),
    ensures
        i <= word_end(s, i) <= s.len(),
        forall|k: int| i <= k < word_end(s, i) ==> !is_white(#[trigger] s[k]),
        word_end(s, i) < s.len() ==> is_white(s[word_end(s, i)]),
    decreases s.len() - i,
{
    if i < s.len() && !is_white(s[i]) {
        lemma_word_end_bounds(s, i + 1);
    }
}

/// The words of `s` from `i` on: its maximal runs of non-white characters,
/// in order, as `str::split_whitespace` gives them.
pub open spec fn words_from(s: Seq<char>, i: int) -> Seq<Seq<char>>
    decreases s.len() - i,
{
    if i < 0 || i >= s.len() {
        Seq::empty()
    } else if is_white(s[i]) {
        words_from(s, i + 1)
    } else {
        let j = word_end(s, i + 1);
        proof {
            lemma_word_end_bounds(s, i + 1);
        }
        seq![s.subrange(i, j)] + words_from(s, j)
    }
}

/// The words of `s`, as `str::split_whitespace` gives them.
pub open spec fn words(s: Seq<char>) -> Seq<Seq<char>> {
    words_from(s, 0)
}

/// The value of a run of decimal digits.
pub open spec fn digits_value(s: Seq<char>) -> nat
    decreases s.len(),
{
    if s.len() == 0 {
        0
    } else {
        digits_value(s.drop_last()) * 10 + ((s.last() as u32) - ('0' as u32)) as nat
    }
}

/// `s` is a non-empty run of the digits `0` to `9`.
pub open spec fn is_digits(s: Seq<char>) -> bool {
    s.len() > 0 && forall|i: int| 0 <= i < s.len() ==> '0' <= #[trigger] s[i] <= '9'
}

/// The `u32` that `s` writes in decimal, if it writes one.
pub open spec fn pid_of(s: Seq<char>) -> Option<u32> {
    if is_digits(s) && digits_value(s) <= u32::MAX {
        Some(digits_value(s) as u32)
    } else {
        None
    }
}

/// What a process table line `<pid> <command line>` holds: the pid, the
/// command line, and the stamp its words carry; `None` for a line without a
/// pid or without all four stamp flags.
pub open spec fn process_of(line: Seq<char>) -> Option<(u32, Seq<char>, (Seq<char>, Seq<char>, Seq<char>, Seq<char>))> {
    let t = trim(line);
    let k = word_end(t, 0);
    let command = trim(t.skip(k));
    match (pid_of(t.take(k)), stamp_of(words(command))) {
        (Some(pid), Some(stamp)) => Some((pid, command, stamp)),
        _ => None,
    }
}

impl StampedProcess {
    pub open spec fn view(self) -> (u32, Seq<char>, (Seq<char>, Seq<char>, Seq<char>, Seq<char>)) {
        (self.pid, self.command@, self.stamp.labels())
    }
}

/// The words of `s`, as `str::split_whitespace` gives them.
pub fn split_words(s: &str) -> (out: Vec<String>)
    ensures
        views(out@) == words(s@),
{
    let v = chars_of(s);
    let ghost q = s@;
    let mut out: Vec<String> = Vec::new();
    let mut i: usize = 0;
    assert(views(out@) =~= Seq::<Seq<char>>::empty());
    while i < v.len()
        invariant
            v@ == q,
            q == s@,
            i <= v.len(),
            words(q) == views(out@) + words_from(q, i as int),
        decreases v.len() - i,
    {
        if is_white_char(v[i]) {
            i = i + 1;
        } else {
            let mut j: usize = i + 1;
            while j < v.len() && !is_white_char(v[j])
                invariant
                    v@ == q,
                    i < j <= v.len(),
                    word_end(q, i + 1) == word_end(q, j as int),
                decreases v.len() - j,
            {
                j = j + 1;
            }
            proof {
                lemma_word_end_bounds(q, i + 1);
            }
            let ghost before = views(out@);
            out.push(string_of(&v, i, j));
            assert(views(out@) =~= before.push(q.subrange(i as int, j as int)));
            assert(views(out@) + words_from(q, j as int) =~= before + words_from(q, i as int));
            i = j;
        }
    }
    assert(views(out@) + words_from(q, v.len() as int) =~= views(out@));
    out
}

/// A prefix of a run of digits has no greater value than the run.
proof fn lemma_digits_prefix(s: Seq<char>, m: int)
    requires
        0 <= m <= s.len(),
        forall|k: int| 0 <= k < s.len() ==> '0' <= #[trigger] s[k] <= '9',
    ensures
        digits_value(s.take(m)) <= digits_value(s),
    decreases s.len(),
{
    if m == s.len() {
        assert(s.take(m) =~= s);
    } else {
        assert forall|k: int| 0 <= k < s.drop_last().len() implies '0' <= #[trigger] s.drop_last()[k]
            <= '9' by {
            assert(s.drop_last()[k] == s[k]);
        }
        lemma_digits_prefix(s.drop_last(), m);
        assert(s.drop_last().take(m) =~= s.take(m));
    }
}

/// The `u32` that `v[lo..hi]` writes in decimal, if it writes one.
fn parse_pid(v: &Vec<char>, lo: usize, hi: usize) -> (r: Option<u32>)
    requires
        lo <= hi <= v.len(),
    ensures
        r == pid_of(v@.subrange(lo as int, hi as int)),
{
    let ghost s = v@.subrange(lo as int, hi as int);
    if lo == hi {
        return None;
    }
    let mut value: u64 = 0;
    let mut i: usize = lo;
    while i < hi
        invariant
            lo <= i <= hi <= v.len(),
            s == v@.subrange(lo as int, hi as int),
            forall|k: int| lo <= k < i ==> '0' <= #[trigger] v@[k] <= '9',
            value == digits_value(v@.subrange(lo as int, i as int)),
            value <= u32::MAX,
        decreases hi - i,
    {
        let c = v[i];
        if c < '0' || c > '9' {
            proof {
                assert(s[i - lo] == c);
            }
            return None;
        }
        assert(v@.subrange(lo as int, i + 1).drop_last() =~= v@.subrange(lo as int, i as int));
        let digit = (c as u32 - '0' as u32) as u64;
        let next = value * 10 + digit;
        if next > 0xFFFF_FFFF {
            proof {
                if is_digits(s) {
                    lemma_digits_prefix(s, i + 1 - lo);
                    assert(s.take(i + 1 - lo) =~= v@.subrange(lo as int, i + 1));
                }
            }
            return None;
        }
        value = next;
        i = i + 1;
    }
    assert(s =~= v@.subrange(lo as int, i as int));
    Some(value as u32)
}

/// A word: non-empty, without white space.
pub open spec fn is_word(w: Seq<char>) -> bool {
    w.len() > 0 && forall|k: int| 0 <= k < w.len() ==> !is_white(#[trigger] w[k])
}

proof fn lemma_word_end_shift(p: Seq<char>, y: Seq<char>, j: int)
    requires
        0 <= j <= y.len(),
    ensures
        word_end(p + y, p.len() + j) == p.len() + word_end(y, j),
    decreases y.len() - j,
{
    if j < y.len() {
        assert((p + y)[p.len() + j] == y[j]);
        if !is_white(y[j]) {
            lemma_word_end_shift(p, y, j + 1);
        }
    }
}

proof fn lemma_words_shift(p: Seq<char>, y: Seq<char>, j: int)
    requires
        0 <= j <= y.len(),
    ensures
        words_from(p + y, p.len() + j) == words_from(y, j),
    decreases y.len() - j,
{
    if j < y.len() {
        assert((p + y)[p.len() + j] == y[j]);
        if is_white(y[j]) {
            lemma_words_shift(p, y, j + 1);
        } else {
            lemma_word_end_shift(p, y, j + 1);
            lemma_word_end_bounds(y, j + 1);
            let e = word_end(y, j + 1);
            assert((p + y).subrange(p.len() + j, p.len() + e) =~= y.subrange(j, e));
            lemma_words_shift(p, y, e);
        }
    }
}

proof fn lemma_word_end_before_space(x: Seq<char>, y: Seq<char>, k: int)
    requires
        0 <= k <= x.len(),
    ensures
        word_end(x + seq![' '] + y, k) == word_end(x, k),
    decreases x.len() - k,
{
    let s = x + seq![' '] + y;
    if k == x.len() {
        assert(s[k] == ' ');
    } else {
        assert(s[k] == x[k]);
        if !is_white(x[k]) {
            lemma_word_end_before_space(x, y, k + 1);
        }
    }
}

/// A space separates words: the words of `x`, a space and `y` are those of
/// `x` followed by those of `y`.
proof fn lemma_words_split(x: Seq<char>, y: Seq<char>, i: int)
    requires
        0 <= i <= x.len(),
    ensures
        words_from(x + seq![' '] + y, i) == words_from(x, i) + words(y),
    decreases x.len() - i,
{
    let s = x + seq![' '] + y;
    if i == x.len() {
        assert(s[i] == ' ');
        assert(s == (x + seq![' ']) + y);
        lemma_words_shift(x + seq![' '], y, 0);
        assert(words_from(x, i) + words(y) =~= words(y));
    } else {
        assert(s[i] == x[i]);
        if is_white(x[i]) {
            lemma_words_split(x, y, i + 1);
        } else {
            lemma_word_end_before_space(x, y, i + 1);
            lemma_word_end_bounds(x, i + 1);
            let e = word_end(x, i + 1);
            assert(s.subrange(i, e) =~= x.subrange(i, e));
            lemma_words_split(x, y, e);
            assert(seq![x.subrange(i, e)] + words_from(x, e) + words(y) =~= seq![x.subrange(i, e)] + (
            words_from(x, e) + words(y)));
        }
    }
}

proof fn lemma_word_end_all_nonwhite(x: Seq<char>, k: int)
    requires
        0 <= k <= x.len(),
        forall|i: int| 0 <= i < x.len() ==> !is_white(#[trigger] x[i]),
    ensures
        word_end(x, k) == x.len(),
    decreases x.len() - k,
{
    if k < x.len() {
        assert(!is_white(x[k]));
        lemma_word_end_all_nonwhite(x, k + 1);
    }
}

/// The words of a word are that word alone.
proof fn lemma_words_of_word(w: Seq<char>)
    requires
        is_word(w),
    ensures
        words(w) == seq![w],
{
    assert(!is_white(w[0]));
    lemma_word_end_all_nonwhite(w, 1);
    assert(w.subrange(0, w.len() as int) =~= w);
    assert(seq![w] + words_from(w, w.len() as int) =~= seq![w]);
}

/// Words joined by single spaces split back into those words.
pub proof fn lemma_words_of_join(ws: Seq<Seq<char>>)
    requires
        forall|i: int| 0 <= i < ws.len() ==> is_word(#[trigger] ws[i]),
    ensures
        words(join(ws, " "@)) == ws,
    decreases ws.len(),
{
    reveal_strlit(" ");
    assert(" "@ =~= seq![' ']);
    if ws.len() == 0 {
        assert(words(Seq::<char>::empty()) =~= ws);
    } else if ws.len() == 1 {
        assert(is_word(ws[0]));
        lemma_words_of_word(ws[0]);
        assert(seq![ws[0]] =~= ws);
    } else {
        let front = ws.drop_last();
        assert forall|i: int| 0 <= i < front.len() implies is_word(#[trigger] front[i]) by {
            assert(front[i] == ws[i]);
        }
        lemma_words_of_join(front);
        assert(is_word(ws.last()));
        lemma_words_of_word(ws.last());
        lemma_words_split(join(front, " "@), ws.last(), 0);
        assert(front + seq![ws.last()] =~= ws);
    }
}

/// A join of words starts with the first word's first character and ends with
/// the last word's last character.
proof fn lemma_join_ends(ws: Seq<Seq<char>>)
    requires
        ws.len() > 0,
        forall|i: int| 0 <= i < ws.len() ==> is_word(#[trigger] ws[i]),
    ensures
        join(ws, " "@).len() > 0,
        join(ws, " "@)[0] == ws[0][0],
        join(ws, " "@).last() == ws.last().last(),
    decreases ws.len(),
{
    assert(is_word(ws[0]));
    assert(is_word(ws.last()));
    if ws.len() > 1 {
        let front = ws.drop_last();
        assert forall|i: int| 0 <= i < front.len() implies is_word(#[trigger] front[i]) by {
            assert(front[i] == ws[i]);
        }
        lemma_join_ends(front);
        assert(front[0] == ws[0]);
    }
}

proof fn lemma_digit_char(d: nat)
    requires
        d < 10,
    ensures
        '0' <= digit_char(d) <= '9',
        (digit_char(d) as u32) - ('0' as u32) == d,
        !is_white(digit_char(d)),
{
}

/// Decimal text is digits that read back as the number.
proof fn lemma_decimal_digits(n: nat)
    ensures
        is_digits(decimal(n)),
        digits_value(decimal(n)) == n,
    decreases n,
{
    lemma_digit_char(n % 10);
    if n < 10 {
        let d = decimal(n);
        assert(d.drop_last() =~= Seq::<char>::empty());
        assert(d.last() == digit_char(n));
        assert(digits_value(d.drop_last()) == 0);
        assert(digits_value(d) == ((digit_char(n) as u32) - ('0' as u32)) as nat);
    } else {
        lemma_decimal_digits(n / 10);
        assert(decimal(n).drop_last() =~= decimal(n / 10));
        let d = decimal(n);
        assert(d.last() == digit_char(n % 10));
        assert(digits_value(d) == digits_value(decimal(n / 10)) * 10 + ((digit_char(n % 10) as u32) - ('0' as u32)) as nat);
        assert(n == (n / 10) * 10 + n % 10);
        assert forall|i: int| 0 <= i < d.len() implies '0' <= #[trigger] d[i] <= '9' by {
            if i < d.len() - 1 {
                assert(d[i] == decimal(n / 10)[i]);
            }
        }
    }
}

/// A line made of a pid, a space and a command line that starts and ends
/// with a word reads as that pid and that command line.
proof fn lemma_line_parts(digits: Seq<char>, rest: Seq<char>)
    requires
        digits.len() > 0,
        forall|i: int| 0 <= i < digits.len() ==> !is_white(#[trigger] digits[i]),
        rest.len() > 0,
        !is_white(rest[0]),
        !is_white(rest.last()),
    ensures
        trim(digits + seq![' '] + rest) == digits + seq![' '] + rest,
        word_end(digits + seq![' '] + rest, 0) == digits.len(),
        (digits + seq![' '] + rest).take(digits.len() as int) == digits,
        trim((digits + seq![' '] + rest).skip(digits.len() as int)) == rest,
{
    let line = digits + seq![' '] + rest;
    assert(line[0] == digits[0]);
    assert(line.last() == rest.last());
    assert(trim_start(line) == line);
    assert(trim_end(line) == line);
    lemma_word_end_before_space(digits, rest, 0);
    lemma_word_end_all_nonwhite(digits, 0);
    let k = digits.len() as int;
    assert(line.take(k) =~= digits);
    let tail = line.skip(k);
    assert(tail =~= seq![' '] + rest);
    assert(tail.drop_first() =~= rest);
    assert(trim_start(rest) == rest);
    assert(trim_start(tail) == rest);
    assert(trim_end(rest) == rest);
}

/// A spawned sidecar is found again: the process table line of a sidecar
/// spawned as `<command> <spawn args>` reads back with its pid, its command
/// line and the stamp of its plan, provided that the command and every
/// argument are words and that the command and the sidecar's own args carry
/// no stamp flag.
#[verifier::rlimit(40)]
pub proof fn lemma_spawned_sidecar_is_discovered(pid: u32, command: Seq<char>, plan: SidecarPlan)
    requires
        is_word(command),
        avoids_stamp_flags(command),
        forall|i: int|
            0 <= i < plan.spawn_args_view().len() ==> is_word(#[trigger] plan.spawn_args_view()[i]),
        forall|i: int| 0 <= i < plan.args.len() ==> avoids_stamp_flags(#[trigger] views(plan.args@)[i]),
    ensures
        process_of(
            decimal(pid as nat) + " "@ + join(seq![command] + plan.spawn_args_view(), " "@),
        ) == Some(
            (pid, join(seq![command] + plan.spawn_args_view(), " "@), plan.stamp.labels()),
        ),
{
    reveal_strlit(" ");
    assert(" "@ =~= seq![' ']);
    let ws = seq![command] + plan.spawn_args_view();
    assert forall|i: int| 0 <= i < ws.len() implies is_word(#[trigger] ws[i]) by {
        if i > 0 {
            assert(ws[i] == plan.spawn_args_view()[i - 1]);
        }
    }
    let rest = join(ws, " "@);
    let digits = decimal(pid as nat);
    lemma_decimal_digits(pid as nat);
    lemma_join_ends(ws);
    assert(is_word(ws[0]));
    assert(is_word(ws.last()));
    assert forall|i: int| 0 <= i < digits.len() implies !is_white(#[trigger] digits[i]) by {
        assert('0' <= digits[i] <= '9');
    }
    lemma_line_parts(digits, rest);
    assert(pid_of(digits) == Some(pid));
    lemma_words_of_join(ws);
    lemma_flag_value_skips(seq![command], plan.spawn_args_view(), STAMP_APP_FLAG@);
    lemma_flag_value_skips(seq![command], plan.spawn_args_view(), STAMP_NAMESPACE_FLAG@);
    lemma_flag_value_skips(seq![command], plan.spawn_args_view(), STAMP_MODE_FLAG@);
    lemma_flag_value_skips(seq![command], plan.spawn_args_view(), STAMP_SOURCE_FLAG@);
    lemma_spawned_sidecar_carries_its_stamp(plan);
    assert(digits + " "@ + rest == digits + seq![' '] + rest);
}

/// What a process table line `<pid> <command line>` holds: the pid, the
/// trimmed command line, and the stamp its words carry.
pub fn parse_process_line(line: &str) -> (r: Option<StampedProcess>)
    ensures
        match r {
            Some(p) => process_of(line@) == Some(p@),
            None => process_of(line@) is None,
        },
{
    let t = trim_str(line);
    let v = chars_of(t.as_str());
    let mut k: usize = 0;
    while k < v.len() && !is_white_char(v[k])
        invariant
            v@ == t@,
            k <= v.len(),
            word_end(v@, 0) == word_end(v@, k as int),
        decreases v.len() - k,
    {
        k = k + 1;
    }
    let pid = parse_pid(&v, 0, k);
    assert(v@.subrange(0, k as int) =~= t@.take(k as int));
    let rest = string_of(&v, k, v.len());
    assert(rest@ =~= t@.skip(k as int));
    let command = trim_str(rest.as_str());
    let args = split_words(command.as_str());
    let stamp = read_stamp(args.as_slice());
    match (pid, stamp) {
        (Some(pid), Some(stamp)) => Some(StampedProcess { pid, command, stamp }),
        _ => None,
    }
}

/// The view of a stamped process: pid, command line, stamp labels.
pub type ProcessView = (u32, Seq<char>, (Seq<char>, Seq<char>, Seq<char>, Seq<char>));

/// The views of a list of processes.
pub open spec fn process_views(ps: Seq<StampedProcess>) -> Seq<ProcessView> {
    ps.map_values(|p: StampedProcess| p@)
}

/// The processes among the first `n` of `ps` that `keep` accepts, in order.
pub open spec fn kept(ps: Seq<ProcessView>, keep: spec_fn(ProcessView) -> bool, n: int) -> Seq<
    ProcessView,
>
    decreases n,
{
    if n <= 0 {
        Seq::empty()
    } else if keep(ps[n - 1]) {
        kept(ps, keep, n - 1).push(ps[n - 1])
    } else {
        kept(ps, keep, n - 1)
    }
}

/// The process is stamped with namespace `ns`.
pub open spec fn in_namespace(ns: Seq<char>) -> spec_fn(ProcessView) -> bool {
    |p: ProcessView| p.2.1 == ns
}

/// The process is stamped with app `app` and namespace `ns`.
pub open spec fn of_app_in_namespace(app: Seq<char>, ns: Seq<char>) -> spec_fn(ProcessView) -> bool {
    |p: ProcessView| p.2.0 == app && p.2.1 == ns
}

/// `kept` is `filter` on the first `n` processes.
proof fn lemma_kept_is_filter(ps: Seq<ProcessView>, keep: spec_fn(ProcessView) -> bool, n: int)
    requires
        0 <= n <= ps.len(),
    ensures
        kept(ps, keep, n) == ps.take(n).filter(keep),
    decreases n,
{
    if n == 0 {
        assert(ps.take(0) =~= Seq::<ProcessView>::empty());
    } else {
        lemma_kept_is_filter(ps, keep, n - 1);
        let t = ps.take(n);
        assert(t.drop_last() =~= ps.take(n - 1));
        assert(t.last() == ps[n - 1]);
        reveal(Seq::filter);
    }
}

/// Selecting by namespace keeps exactly the processes whose stamp carries
/// that namespace, all of them, in their order.
pub proof fn lemma_namespace_selection_is_exact(ps: Seq<ProcessView>, ns: Seq<char>)
    ensures
        kept(ps, in_namespace(ns), ps.len() as int) == ps.filter(|p: ProcessView| p.2.1 == ns),
        forall|i: int|
            0 <= i < kept(ps, in_namespace(ns), ps.len() as int).len() ==> (#[trigger] kept(
                ps,
                in_namespace(ns),
                ps.len() as int,
            )[i]).2.1 == ns,
        forall|j: int|
            0 <= j < ps.len() && (#[trigger] ps[j]).2.1 == ns ==> kept(
                ps,
                in_namespace(ns),
                ps.len() as int,
            ).contains(ps[j]),
{
    let pred = |p: ProcessView| p.2.1 == ns;
    lemma_kept_is_filter(ps, in_namespace(ns), ps.len() as int);
    assert(ps.take(ps.len() as int) =~= ps);
    assert(in_namespace(ns) =~= pred);
    let r = ps.filter(pred);
    assert forall|i: int| 0 <= i < r.len() implies pred(#[trigger] r[i]) by {
        ps.lemma_filter_pred(pred, i);
    }
    assert forall|j: int| 0 <= j < ps.len() && pred(#[trigger] ps[j]) implies r.contains(ps[j]) by {
        ps.lemma_filter_contains(pred, j);
    }
}

/// Selecting by app and namespace keeps exactly the processes whose stamp
/// carries that app label, equal and not merely a prefix, and that
/// namespace: all of them, in their order.
pub proof fn lemma_app_selection_is_exact(ps: Seq<ProcessView>, app: Seq<char>, ns: Seq<char>)
    ensures
        kept(ps, of_app_in_namespace(app, ns), ps.len() as int) == ps.filter(
            |p: ProcessView| p.2.0 == app && p.2.1 == ns,
        ),
        forall|i: int|
            0 <= i < kept(ps, of_app_in_namespace(app, ns), ps.len() as int).len() ==> (
            #[trigger] kept(ps, of_app_in_namespace(app, ns), ps.len() as int)[i]).2.0 == app
                && kept(ps, of_app_in_namespace(app, ns), ps.len() as int)[i].2.1 == ns,
        forall|j: int|
            0 <= j < ps.len() && (#[trigger] ps[j]).2.0 == app && ps[j].2.1 == ns ==> kept(
                ps,
                of_app_in_namespace(app, ns),
                ps.len() as int,
            ).contains(ps[j]),
{
    let pred = |p: ProcessView| p.2.0 == app && p.2.1 == ns;
    lemma_kept_is_filter(ps, of_app_in_namespace(app, ns), ps.len() as int);
    assert(ps.take(ps.len() as int) =~= ps);
    assert(of_app_in_namespace(app, ns) =~= pred);
    let r = ps.filter(pred);
    assert forall|i: int| 0 <= i < r.len() implies pred(#[trigger] r[i]) by {
        ps.lemma_filter_pred(pred, i);
    }
    assert forall|j: int| 0 <= j < ps.len() && pred(#[trigger] ps[j]) implies r.contains(ps[j]) by {
        ps.lemma_filter_contains(pred, j);
    }
}

fn copy_process(p: &StampedProcess) -> (r: StampedProcess)
    ensures
        r@ == p@,
{
    StampedProcess {
        pid: p.pid,
        command: copy_str(p.command.as_str()),
        stamp: Stamp {
            app: copy_str(p.stamp.app.as_str()),
            namespace: copy_str(p.stamp.namespace.as_str()),
            mode: copy_str(p.stamp.mode.as_str()),
            source: copy_str(p.stamp.source.as_str()),
        },
    }
}

/// The processes stamped with namespace `namespace`, in order.
pub fn select_namespace(processes: &[StampedProcess], namespace: &str) -> (out: Vec<
    StampedProcess,
>)
    ensures
        process_views(out@) == kept(
            process_views(processes@),
            in_namespace(namespace@),
            processes.len() as int,
        ),
        process_views(out@) == process_views(processes@).filter(
            |p: ProcessView| p.2.1 == namespace@,
        ),
{
    let ghost ps = process_views(processes@);
    let mut out: Vec<StampedProcess> = Vec::new();
    let mut i: usize = 0;
    assert(process_views(out@) =~= Seq::<ProcessView>::empty());
    while i < processes.len()
        invariant
            i <= processes.len(),
            ps == process_views(processes@),
            process_views(out@) == kept(ps, in_namespace(namespace@), i as int),
        decreases processes.len() - i,
    {
        assert(ps[i as int] == processes@[i as int]@);
        if str_eq(processes[i].stamp.namespace.as_str(), namespace) {
            let ghost before = out@;
            out.push(copy_process(&processes[i]));
            assert(process_views(out@) =~= process_views(before).push(ps[i as int]));
        }
        i = i + 1;
    }
    proof {
        lemma_kept_is_filter(ps, in_namespace(namespace@), ps.len() as int);
        assert(ps.take(ps.len() as int) =~= ps);
        assert(in_namespace(namespace@) =~= (|p: ProcessView| p.2.1 == namespace@));
    }
    out
}

/// The processes stamped with app `app` and namespace `namespace`, in order.
pub fn select_app_namespace(processes: &[StampedProcess], app: &str, namespace: &str) -> (out:
    Vec<StampedProcess>)
    ensures
        process_views(out@) == kept(
            process_views(processes@),
            of_app_in_namespace(app@, namespace@),
            processes.len() as int,
        ),
        process_views(out@) == process_views(processes@).filter(
            |p: ProcessView| p.2.0 == app@ && p.2.1 == namespace@,
        ),
{
    let ghost ps = process_views(processes@);
    let mut out: Vec<StampedProcess> = Vec::new();
    let mut i: usize = 0;
    assert(process_views(out@) =~= Seq::<ProcessView>::empty());
    while i < processes.len()
        invariant
            i <= processes.len(),
            ps == process_views(processes@),
            process_views(out@) == kept(ps, of_app_in_namespace(app@, namespace@), i as int),
        decreases processes.len() - i,
    {
        assert(ps[i as int] == processes@[i as int]@);
        if str_eq(processes[i].stamp.app.as_str(), app) && str_eq(
            processes[i].stamp.namespace.as_str(),
            namespace,
        ) {
            let ghost before = out@;
            out.push(copy_process(&processes[i]));
            assert(process_views(out@) =~= process_views(before).push(ps[i as int]));
        }
        i = i + 1;
    }
    proof {
        lemma_kept_is_filter(ps, of_app_in_namespace(app@, namespace@), ps.len() as int);
        assert(ps.take(ps.len() as int) =~= ps);
        assert(of_app_in_namespace(app@, namespace@) =~= (|p: ProcessView|
            p.2.0 == app@ && p.2.1 == namespace@));
    }
    out
}

/// The stamped processes of a process table, in order, leaving out the
/// process `own_pid`.
pub open spec fn table_processes(lines: Seq<Seq<char>>, own_pid: u32, n: int) -> Seq<ProcessView>
    decreases n,
{
    if n <= 0 {
        Seq::empty()
    } else {
        let prev = table_processes(lines, own_pid, n - 1);
        match process_of(lines[n - 1]) {
            Some(p) if p.0 != own_pid => prev.push(p),
            _ => prev,
        }
    }
}

/// The stamped processes of the lines of a process table, in order, without
/// the process `own_pid` (the tool's own).
pub fn parse_process_table(lines: &[String], own_pid: u32) -> (out: Vec<StampedProcess>)
    ensures
        process_views(out@) == table_processes(views(lines@), own_pid, lines.len() as int),
{
    let ghost ls = views(lines@);
    let mut out: Vec<StampedProcess> = Vec::new();
    let mut i: usize = 0;
    assert(process_views(out@) =~= Seq::<ProcessView>::empty());
    while i < lines.len()
        invariant
            i <= lines.len(),
            ls == views(lines@),
            process_views(out@) == table_processes(ls, own_pid, i as int),
        decreases lines.len() - i,
    {
        assert(ls[i as int] == lines@[i as int]@);
        match parse_process_line(lines[i].as_str()) {
            Some(p) => {
                if p.pid != own_pid {
                    let ghost before = out@;
                    out.push(p);
                    assert(process_views(out@) =~= process_views(before).push(p@));
                }
            },
            None => {},
        }
        i = i + 1;
    }
    out
}

} // verus!
