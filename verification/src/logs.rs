//! Persisting job results and replaying them.
//!
//! A job result is written as a line-oriented text file: every string
//! field is length-prefixed (`<length> <text>`), numbers are decimal, and
//! a verdict is a single `P` or `F` line.  [`render_job_string`] produces
//! the file's content, [`parse_job_string`] reads it back, and
//! [`lemma_log_round_trip`] proves that a written job always reads back
//! equal in every field.

use vstd::prelude::*;
use crate::models::{JobResults, JobView, PassFail, TaskResult, TaskView};
use crate::ordering::{sort_by_key, sorted_le};
use crate::strutil::{
    chars_of, is_digit, lemma_parse_nat_render, lemma_render_nat_digits, parse_nat,
    parse_nat_chars, push_all, push_int, push_nat, render_int, render_nat, string_of,
};

verus! {

// ------------------------------------------------------------------
// Rendering
// ------------------------------------------------------------------
/// A length-prefixed string field: `<length> <text>\n`.
pub open spec fn render_str_field(s: Seq<char>) -> Seq<char> {
    render_nat(s.len()) + seq![' '] + s + seq!['\n']
}

/// A signed number field: `<value>\n`.
pub open spec fn render_int_field(n: int) -> Seq<char> {
    render_int(n) + seq!['\n']
}

/// A count field: `<value>\n`.
pub open spec fn render_count_field(n: nat) -> Seq<char> {
    render_nat(n) + seq!['\n']
}

/// The verdict's single-letter code.
pub open spec fn verdict_char(p: PassFail) -> char {
    if p is Pass {
        'P'
    } else {
        'F'
    }
}

/// A verdict field: `P\n` or `F\n`.
pub open spec fn render_verdict_field(p: PassFail) -> Seq<char> {
    seq![verdict_char(p), '\n']
}

/// One task result: name, command, stage, verdict, seconds, file path.
pub open spec fn render_result(t: TaskView) -> Seq<char> {
    render_str_field(t.0) + render_str_field(t.1) + render_int_field(t.2) + render_verdict_field(
        t.3,
    ) + render_int_field(t.4) + render_str_field(t.5)
}

/// The results, one after the other.
pub open spec fn render_results(rs: Seq<TaskView>) -> Seq<char>
    decreases rs.len(),
{
    if rs.len() == 0 {
        Seq::<char>::empty()
    } else {
        render_result(rs[0]) + render_results(rs.drop_first())
    }
}

/// A whole job: name, timestamp, result count, results.
pub open spec fn render_job(j: JobView) -> Seq<char> {
    render_str_field(j.0) + render_str_field(j.1) + render_count_field(j.2.len())
        + render_results(j.2)
}

// ------------------------------------------------------------------
// Parsing
// ------------------------------------------------------------------
/// Reads a length-prefixed string field.
pub open spec fn parse_str_field(s: Seq<char>, i: int) -> Option<(Seq<char>, int)> {
    match parse_nat(s, i, usize::MAX as nat) {
        None => None,
        Some((len, j)) => if j < s.len() && s[j] == ' ' && j + 1 + len < s.len() && s[j + 1
            + len] == '\n' {
            Some((s.subrange(j + 1, j + 1 + len), j + len + 2))
        } else {
            None
        },
    }
}

/// Reads a count field.
pub open spec fn parse_count_field(s: Seq<char>, i: int) -> Option<(nat, int)> {
    match parse_nat(s, i, usize::MAX as nat) {
        None => None,
        Some((v, j)) => if j < s.len() && s[j] == '\n' {
            Some((v, j + 1))
        } else {
            None
        },
    }
}

/// Reads a signed number field whose value must lie in `[lo, hi]`.
pub open spec fn parse_int_field(s: Seq<char>, i: int, lo: int, hi: int) -> Option<(int, int)> {
    if 0 <= i < s.len() && s[i] == '-' {
        match parse_nat(s, i + 1, (-lo) as nat) {
            None => None,
            Some((v, j)) => if j < s.len() && s[j] == '\n' {
                Some((-(v as int), j + 1))
            } else {
                None
            },
        }
    } else {
        match parse_nat(s, i, hi as nat) {
            None => None,
            Some((v, j)) => if j < s.len() && s[j] == '\n' {
                Some((v as int, j + 1))
            } else {
                None
            },
        }
    }
}

/// Reads a verdict field.
pub open spec fn parse_verdict_field(s: Seq<char>, i: int) -> Option<(PassFail, int)> {
    if 0 <= i && i + 1 < s.len() && (s[i] == 'P' || s[i] == 'F') && s[i + 1] == '\n' {
        Some(
            (
                if s[i] == 'P' {
                    PassFail::Pass
                } else {
                    PassFail::Fail
                },
                i + 2,
            ),
        )
    } else {
        None
    }
}

/// Reads one task result.
pub open spec fn parse_result(s: Seq<char>, i: int) -> Option<(TaskView, int)> {
    match parse_str_field(s, i) {
        None => None,
        Some((name, i1)) => match parse_str_field(s, i1) {
            None => None,
            Some((command, i2)) => match parse_int_field(s, i2, -128, 127) {
                None => None,
                Some((stage, i3)) => match parse_verdict_field(s, i3) {
                    None => None,
                    Some((verdict, i4)) => match parse_int_field(
                        s,
                        i4,
                        i64::MIN as int,
                        i64::MAX as int,
                    ) {
                        None => None,
                        Some((secs, i5)) => match parse_str_field(s, i5) {
                            None => None,
                            Some((file, i6)) => Some(
                                ((name, command, stage, verdict, secs, file), i6),
                            ),
                        },
                    },
                },
            },
        },
    }
}

/// Reads exactly `count` task results.
pub open spec fn parse_results(s: Seq<char>, i: int, count: nat) -> Option<(Seq<TaskView>, int)>
    decreases count,
{
    if count == 0 {
        Some((Seq::<TaskView>::empty(), i))
    } else {
        match parse_result(s, i) {
            None => None,
            Some((t, j)) => match parse_results(s, j, (count - 1) as nat) {
                None => None,
                Some((ts, k)) => Some((seq![t] + ts, k)),
            },
        }
    }
}

/// Reads a whole job file; the input must be consumed exactly.
pub open spec fn parse_job(s: Seq<char>) -> Option<JobView> {
    match parse_str_field(s, 0) {
        None => None,
        Some((name, i1)) => match parse_str_field(s, i1) {
            None => None,
            Some((time, i2)) => match parse_count_field(s, i2) {
                None => None,
                Some((count, i3)) => match parse_results(s, i3, count) {
                    None => None,
                    Some((ts, j)) => if j == s.len() {
                        Some((name, time, ts))
                    } else {
                        None
                    },
                },
            },
        },
    }
}

// ------------------------------------------------------------------
// The round trip
// ------------------------------------------------------------------
/// The numeric fields fit their storage types and the strings fit in
/// memory; every view of a real [`TaskResult`] satisfies this.
pub open spec fn task_view_wf(t: TaskView) -> bool {
    &&& t.0.len() <= usize::MAX
    &&& t.1.len() <= usize::MAX
    &&& t.5.len() <= usize::MAX
    &&& -128 <= t.2 <= 127
    &&& i64::MIN <= t.4 <= i64::MAX
}

/// Well-formedness of a whole job view.
pub open spec fn job_view_wf(j: JobView) -> bool {
    &&& j.0.len() <= usize::MAX
    &&& j.1.len() <= usize::MAX
    &&& j.2.len() <= usize::MAX
    &&& forall|k: int| 0 <= k < j.2.len() ==> task_view_wf(#[trigger] j.2[k])
}

/// A rendered region splits into its two parts.
proof fn lemma_split(s: Seq<char>, i: int, a: Seq<char>, b: Seq<char>)
    requires
        0 <= i,
        i + a.len() + b.len() <= s.len(),
        s.subrange(i, i + a.len() + b.len()) == a + b,
    ensures
        s.subrange(i, i + a.len()) == a,
        s.subrange(i + a.len(), i + a.len() + b.len()) == b,
{
    assert forall|k: int| 0 <= k < a.len() implies #[trigger] s.subrange(i, i + a.len())[k]
        == a[k] by {
        assert(s.subrange(i, i + a.len() + b.len())[k] == (a + b)[k]);
    }
    assert(s.subrange(i, i + a.len()) =~= a);
    assert forall|k: int| 0 <= k < b.len() implies #[trigger] s.subrange(
        i + a.len(),
        i + a.len() + b.len(),
    )[k] == b[k] by {
        assert(s.subrange(i + a.len(), i + a.len() + b.len())[k] == s[i + a.len() + k]);
        assert(s.subrange(i, i + a.len() + b.len())[a.len() + k] == s[i + (a.len() + k)]);
        assert((a + b)[a.len() + k] == b[k]);
    }
    assert(s.subrange(i + a.len(), i + a.len() + b.len()) =~= b);
}

/// Reading back a rendered string field.
proof fn lemma_parse_str_field(s: Seq<char>, i: int, v: Seq<char>)
    requires
        0 <= i,
        i + render_str_field(v).len() <= s.len(),
        s.subrange(i, i + render_str_field(v).len()) == render_str_field(v),
        v.len() <= usize::MAX,
    ensures
        parse_str_field(s, i) == Some((v, i + render_str_field(v).len())),
{
    let num = render_nat(v.len());
    let rest = seq![' '] + v + seq!['\n'];
    assert(render_str_field(v) =~= num + rest);
    lemma_split(s, i, num, rest);
    let j = i + num.len();
    assert(s[j] == rest[0]);
    lemma_render_nat_digits(v.len());
    lemma_parse_nat_render(s, i, v.len(), usize::MAX as nat);
    assert(parse_nat(s, i, usize::MAX as nat) == Some((v.len(), j)));
    assert forall|k: int| 0 <= k < v.len() implies #[trigger] s.subrange(j + 1, j + 1
        + v.len())[k] == v[k] by {
        assert(s.subrange(j, j + rest.len())[k + 1] == rest[k + 1]);
        assert(rest[k + 1] == v[k]);
    }
    assert(s.subrange(j + 1, j + 1 + v.len()) =~= v);
    assert(s[j + 1 + v.len()] == rest[1 + v.len() as int]);
    assert(rest[1 + v.len() as int] == '\n');
}

/// Reading back a rendered count field.
proof fn lemma_parse_count_field(s: Seq<char>, i: int, n: nat)
    requires
        0 <= i,
        i + render_count_field(n).len() <= s.len(),
        s.subrange(i, i + render_count_field(n).len()) == render_count_field(n),
        n <= usize::MAX,
    ensures
        parse_count_field(s, i) == Some((n, i + render_count_field(n).len())),
{
    let num = render_nat(n);
    assert(render_count_field(n) =~= num + seq!['\n']);
    lemma_split(s, i, num, seq!['\n']);
    let j = i + num.len();
    assert(s[j] == (seq!['\n'])[0]);
    lemma_parse_nat_render(s, i, n, usize::MAX as nat);
}

/// Reading back a rendered number field.
proof fn lemma_parse_int_field(s: Seq<char>, i: int, n: int, lo: int, hi: int)
    requires
        0 <= i,
        lo <= 0 <= hi,
        lo <= n <= hi,
        i + render_int_field(n).len() <= s.len(),
        s.subrange(i, i + render_int_field(n).len()) == render_int_field(n),
    ensures
        parse_int_field(s, i, lo, hi) == Some((n, i + render_int_field(n).len())),
{
    if n < 0 {
        let num = render_nat((-n) as nat);
        let rest = num + seq!['\n'];
        assert(render_int_field(n) =~= seq!['-'] + rest);
        lemma_split(s, i, seq!['-'], rest);
        lemma_split(s, i + 1, num, seq!['\n']);
        assert(s[i] == (seq!['-'])[0]);
        let j = i + 1 + num.len();
        assert(s[j] == (seq!['\n'])[0]);
        lemma_parse_nat_render(s, i + 1, (-n) as nat, (-lo) as nat);
    } else {
        let num = render_nat(n as nat);
        assert(render_int_field(n) =~= num + seq!['\n']);
        lemma_split(s, i, num, seq!['\n']);
        let j = i + num.len();
        assert(s[j] == (seq!['\n'])[0]);
        lemma_render_nat_digits(n as nat);
        assert(s[i] == s.subrange(i, i + num.len())[0]);
        assert(is_digit(s[i]));
        assert(s[i] != '-');
        lemma_parse_nat_render(s, i, n as nat, hi as nat);
    }
}

/// Reading back a rendered verdict field.
proof fn lemma_parse_verdict_field(s: Seq<char>, i: int, p: PassFail)
    requires
        0 <= i,
        i + 2 <= s.len(),
        s.subrange(i, i + 2) == render_verdict_field(p),
    ensures
        parse_verdict_field(s, i) == Some((p, i + 2)),
{
    assert(s[i] == s.subrange(i, i + 2)[0]);
    assert(s[i + 1] == s.subrange(i, i + 2)[1]);
}

/// Reading back one rendered task result.
proof fn lemma_parse_result(s: Seq<char>, i: int, t: TaskView)
    requires
        0 <= i,
        task_view_wf(t),
        i + render_result(t).len() <= s.len(),
        s.subrange(i, i + render_result(t).len()) == render_result(t),
    ensures
        parse_result(s, i) == Some((t, i + render_result(t).len())),
{
    let a1 = render_str_field(t.0);
    let a2 = render_str_field(t.1);
    let a3 = render_int_field(t.2);
    let a4 = render_verdict_field(t.3);
    let a5 = render_int_field(t.4);
    let a6 = render_str_field(t.5);
    assert(render_result(t) =~= a1 + (a2 + (a3 + (a4 + (a5 + a6)))));
    lemma_split(s, i, a1, a2 + (a3 + (a4 + (a5 + a6))));
    let i1 = i + a1.len();
    lemma_split(s, i1, a2, a3 + (a4 + (a5 + a6)));
    let i2 = i1 + a2.len();
    lemma_split(s, i2, a3, a4 + (a5 + a6));
    let i3 = i2 + a3.len();
    lemma_split(s, i3, a4, a5 + a6);
    let i4 = i3 + a4.len();
    lemma_split(s, i4, a5, a6);
    let i5 = i4 + a5.len();
    lemma_parse_str_field(s, i, t.0);
    lemma_parse_str_field(s, i1, t.1);
    lemma_parse_int_field(s, i2, t.2, -128, 127);
    lemma_parse_verdict_field(s, i3, t.3);
    lemma_parse_int_field(s, i4, t.4, i64::MIN as int, i64::MAX as int);
    lemma_parse_str_field(s, i5, t.5);
}

/// Reading back a rendered result list.
proof fn lemma_parse_results(s: Seq<char>, i: int, rs: Seq<TaskView>)
    requires
        0 <= i,
        forall|k: int| 0 <= k < rs.len() ==> task_view_wf(#[trigger] rs[k]),
        i + render_results(rs).len() <= s.len(),
        s.subrange(i, i + render_results(rs).len()) == render_results(rs),
    ensures
        parse_results(s, i, rs.len()) == Some((rs, i + render_results(rs).len())),
    decreases rs.len(),
{
    if rs.len() == 0 {
        assert(rs =~= Seq::<TaskView>::empty());
    } else {
        let head = render_result(rs[0]);
        let tail = render_results(rs.drop_first());
        lemma_split(s, i, head, tail);
        lemma_parse_result(s, i, rs[0]);
        lemma_parse_results(s, i + head.len(), rs.drop_first());
        assert(rs =~= seq![rs[0]] + rs.drop_first());
    }
}

/// The round trip: a written job file always reads back equal in every
/// field — job name, timestamp, and the full ordered result list.
#[verifier::rlimit(100)]
pub proof fn lemma_log_round_trip(j: JobView)
    requires
        job_view_wf(j),
    ensures
        parse_job(render_job(j)) == Some(j),
{
    let s = render_job(j);
    let a1 = render_str_field(j.0);
    let a2 = render_str_field(j.1);
    let a3 = render_count_field(j.2.len());
    let a4 = render_results(j.2);
    assert(s =~= a1 + (a2 + (a3 + a4)));
    assert(s.subrange(0, s.len() as int) =~= s);
    lemma_split(s, 0, a1, a2 + (a3 + a4));
    let i1 = a1.len() as int;
    lemma_split(s, i1, a2, a3 + a4);
    let i2 = i1 + a2.len();
    lemma_split(s, i2, a3, a4);
    let i3 = i2 + a3.len();
    lemma_parse_str_field(s, 0, j.0);
    lemma_parse_str_field(s, i1, j.1);
    lemma_parse_count_field(s, i2, j.2.len());
    lemma_parse_results(s, i3, j.2);
}

// ------------------------------------------------------------------
// Executable rendering
// ------------------------------------------------------------------
/// Appends a string field.
fn push_str_field(out: &mut Vec<char>, s: &String)
    ensures
        final(out)@ == old(out)@ + render_str_field(s@),
{
    let cs = chars_of(s.as_str());
    push_nat(out, cs.len() as u64);
    out.push(' ');
    push_all(out, &cs);
    out.push('\n');
    proof {
        assert(out@ =~= old(out)@ + render_str_field(s@));
    }
}

/// Appends a number field.
fn push_int_field(out: &mut Vec<char>, n: i64)
    ensures
        final(out)@ == old(out)@ + render_int_field(n as int),
{
    push_int(out, n);
    out.push('\n');
    proof {
        assert(out@ =~= old(out)@ + render_int_field(n as int));
    }
}

/// Write the execution results out as the log file's content.
pub fn render_job_string(job: &JobResults) -> (r: String)
    ensures
        r@ == render_job(job@),
{
    let ghost jv = job@;
    let mut out: Vec<char> = Vec::new();
    push_str_field(&mut out, &job.job_name);
    push_str_field(&mut out, &job.execution_time);
    push_nat(&mut out, job.results.len() as u64);
    out.push('\n');
    proof {
        assert(out@ =~= render_str_field(jv.0) + render_str_field(jv.1) + render_count_field(
            jv.2.len(),
        ));
    }
    let mut k: usize = 0;
    while k < job.results.len()
        invariant
            k <= job.results@.len(),
            jv == job@,
            jv.2 == job.results@.map_values(|t: TaskResult| t@),
            out@ == render_str_field(jv.0) + render_str_field(jv.1) + render_count_field(
                jv.2.len(),
            ) + render_results(jv.2.take(k as int)),
        decreases job.results@.len() - k,
    {
        let t = &job.results[k];
        let ghost prefix = out@;
        push_str_field(&mut out, &t.name);
        push_str_field(&mut out, &t.command);
        push_int_field(&mut out, t.stage as i64);
        match t.result {
            PassFail::Pass => out.push('P'),
            PassFail::Fail => out.push('F'),
        }
        out.push('\n');
        push_int_field(&mut out, t.elapsed_time);
        push_str_field(&mut out, &t.file_path);
        proof {
            assert(out@ =~= prefix + render_result(jv.2[k as int]));
            lemma_render_results_take(jv.2, k as int);
        }
        k += 1;
    }
    proof {
        assert(jv.2.take(jv.2.len() as int) =~= jv.2);
    }
    string_of(&out)
}

/// Rendering one more result extends the rendered list.
proof fn lemma_render_results_take(rs: Seq<TaskView>, k: int)
    requires
        0 <= k < rs.len(),
    ensures
        render_results(rs.take(k + 1)) == render_results(rs.take(k)) + render_result(rs[k]),
    decreases k,
{
    if k == 0 {
        assert(rs.take(0) =~= Seq::<TaskView>::empty());
        assert(rs.take(1) =~= seq![rs[0]]);
        assert(rs.take(1).drop_first() =~= Seq::<TaskView>::empty());
        assert(rs.take(1)[0] == rs[0]);
        assert(render_results(rs.take(1)) == render_result(rs[0]) + render_results(
            Seq::<TaskView>::empty(),
        ));
        assert(render_result(rs[0]) + Seq::<char>::empty() =~= render_result(rs[0]));
        assert(render_results(rs.take(0)) + render_result(rs[0]) =~= render_result(rs[0]));
    } else {
        lemma_render_results_take(rs.drop_first(), k - 1);
        assert(rs.take(k + 1).drop_first() =~= rs.drop_first().take(k));
        assert(rs.take(k).drop_first() =~= rs.drop_first().take(k - 1));
        assert(rs.take(k + 1)[0] == rs[0]);
        assert(rs.take(k)[0] == rs[0]);
        assert(rs.drop_first()[k - 1] == rs[k]);
        assert(render_results(rs.take(k + 1)) == render_result(rs[0]) + render_results(
            rs.drop_first().take(k),
        ));
        assert(render_results(rs.take(k)) == render_result(rs[0]) + render_results(
            rs.drop_first().take(k - 1),
        ));
    }
}

// ------------------------------------------------------------------
// Executable parsing
// ------------------------------------------------------------------
/// Reads a string field, as the specification does.
fn parse_str_field_chars(s: &Vec<char>, i: usize) -> (r: Option<(Vec<char>, usize)>)
    requires
        i <= s@.len(),
    ensures
        match r {
            Some(v) => parse_str_field(s@, i as int) == Some((v.0@, v.1 as int)) && v.1
                <= s@.len(),
            None => parse_str_field(s@, i as int) is None,
        },
{
    match parse_nat_chars(s, i, usize::MAX as u64) {
        None => None,
        Some((len64, j)) => {
            let len = len64 as usize;
            if j < s.len() && s[j] == ' ' && len < s.len() - j - 1 && s[j + 1 + len] == '\n' {
                let end: usize = j + 1 + len;
                let mut content: Vec<char> = Vec::new();
                let mut pos: usize = j + 1;
                while pos < end
                    invariant
                        j + 1 <= pos <= end,
                        end == j + 1 + len,
                        end < s@.len(),
                        content@ == s@.subrange(j + 1, pos as int),
                    decreases end - pos,
                {
                    content.push(s[pos]);
                    proof {
                        assert(content@ =~= s@.subrange(j + 1, pos + 1));
                    }
                    pos += 1;
                }
                Some((content, j + len + 2))
            } else {
                None
            }
        },
    }
}

/// Reads a count field, as the specification does.
fn parse_count_field_chars(s: &Vec<char>, i: usize) -> (r: Option<(usize, usize)>)
    requires
        i <= s@.len(),
    ensures
        match r {
            Some(v) => parse_count_field(s@, i as int) == Some((v.0 as nat, v.1 as int)) && v.1
                <= s@.len(),
            None => parse_count_field(s@, i as int) is None,
        },
{
    match parse_nat_chars(s, i, usize::MAX as u64) {
        None => None,
        Some((v, j)) => {
            if j < s.len() && s[j] == '\n' {
                Some((v as usize, j + 1))
            } else {
                None
            }
        },
    }
}

/// Reads a number field, as the specification does.
fn parse_int_field_chars(s: &Vec<char>, i: usize, lo: i64, hi: i64) -> (r: Option<(i64, usize)>)
    requires
        i <= s@.len(),
        lo <= 0 <= hi,
    ensures
        match r {
            Some(v) => parse_int_field(s@, i as int, lo as int, hi as int) == Some(
                (v.0 as int, v.1 as int),
            ) && v.1 <= s@.len() && lo <= v.0 <= hi,
            None => parse_int_field(s@, i as int, lo as int, hi as int) is None,
        },
{
    if i < s.len() && s[i] == '-' {
        let neg_bound: u64 = if lo == 0 {
            0
        } else {
            ((-(lo + 1)) as u64) + 1
        };
        proof {
            assert(neg_bound == -(lo as int));
        }
        match parse_nat_chars(s, i + 1, neg_bound) {
            None => None,
            Some((v, j)) => {
                if j < s.len() && s[j] == '\n' {
                    let value: i64 = if v == 0 {
                        0
                    } else {
                        (-((v - 1) as i64)) - 1
                    };
                    proof {
                        assert(value as int == -(v as int));
                    }
                    Some((value, j + 1))
                } else {
                    None
                }
            },
        }
    } else {
        match parse_nat_chars(s, i, hi as u64) {
            None => None,
            Some((v, j)) => {
                if j < s.len() && s[j] == '\n' {
                    Some((v as i64, j + 1))
                } else {
                    None
                }
            },
        }
    }
}

/// Reads a verdict field, as the specification does.
fn parse_verdict_field_chars(s: &Vec<char>, i: usize) -> (r: Option<(PassFail, usize)>)
    requires
        i <= s@.len(),
    ensures
        match r {
            Some(v) => parse_verdict_field(s@, i as int) == Some((v.0, v.1 as int)) && v.1
                <= s@.len(),
            None => parse_verdict_field(s@, i as int) is None,
        },
{
    if i < s.len() && i + 1 < s.len() && (s[i] == 'P' || s[i] == 'F') && s[i + 1] == '\n' {
        let verdict = if s[i] == 'P' {
            PassFail::Pass
        } else {
            PassFail::Fail
        };
        Some((verdict, i + 2))
    } else {
        None
    }
}

/// Reads one task result, as the specification does.
fn parse_result_chars(s: &Vec<char>, i: usize) -> (r: Option<(TaskResult, usize)>)
    requires
        i <= s@.len(),
    ensures
        match r {
            Some(v) => parse_result(s@, i as int) == Some((v.0@, v.1 as int)) && v.1 <= s@.len(),
            None => parse_result(s@, i as int) is None,
        },
{
    let (name, i1) = match parse_str_field_chars(s, i) {
        None => {
            return None;
        },
        Some(v) => v,
    };
    let (command, i2) = match parse_str_field_chars(s, i1) {
        None => {
            return None;
        },
        Some(v) => v,
    };
    let (stage, i3) = match parse_int_field_chars(s, i2, -128, 127) {
        None => {
            return None;
        },
        Some(v) => v,
    };
    let (verdict, i4) = match parse_verdict_field_chars(s, i3) {
        None => {
            return None;
        },
        Some(v) => v,
    };
    let (secs, i5) = match parse_int_field_chars(s, i4, i64::MIN, i64::MAX) {
        None => {
            return None;
        },
        Some(v) => v,
    };
    let (file, i6) = match parse_str_field_chars(s, i5) {
        None => {
            return None;
        },
        Some(v) => v,
    };
    let result = TaskResult {
        name: string_of(&name),
        command: string_of(&command),
        stage: stage as i8,
        result: verdict,
        elapsed_time: secs,
        file_path: string_of(&file),
    };
    Some((result, i6))
}

/// Load execution results back from a log file's content.
///
/// Succeeds exactly on strings produced by [`render_job_string`]-shaped
/// content, reconstructing every field.
pub fn parse_job_string(s: &str) -> (r: Option<JobResults>)
    ensures
        match r {
            Some(job) => parse_job(s@) == Some(job@),
            None => parse_job(s@) is None,
        },
{
    let cs = chars_of(s);
    let (name, i1) = match parse_str_field_chars(&cs, 0) {
        None => {
            return None;
        },
        Some(v) => v,
    };
    let (time, i2) = match parse_str_field_chars(&cs, i1) {
        None => {
            return None;
        },
        Some(v) => v,
    };
    let (count, i3) = match parse_count_field_chars(&cs, i2) {
        None => {
            return None;
        },
        Some(v) => v,
    };
    let ghost total = count as nat;
    let mut results: Vec<TaskResult> = Vec::new();
    let mut cur: usize = i3;
    let mut remaining: usize = count;
    while remaining > 0
        invariant
            cur <= cs@.len(),
            results@.len() + remaining == total,
            cs@ == s@,
            parse_str_field(cs@, 0) == Some((name@, i1 as int)),
            parse_str_field(cs@, i1 as int) == Some((time@, i2 as int)),
            parse_count_field(cs@, i2 as int) == Some((total, i3 as int)),
            ({
                let outcome = parse_results(cs@, cur as int, remaining as nat);
                let full = parse_results(cs@, i3 as int, total);
                match outcome {
                    None => full is None,
                    Some((ts, k)) => full == Some(
                        (results@.map_values(|t: TaskResult| t@) + ts, k),
                    ),
                }
            }),
        decreases remaining,
    {
        let ghost done = results@.map_values(|t: TaskResult| t@);
        let (t, nxt) = match parse_result_chars(&cs, cur) {
            None => {
                return None;
            },
            Some(v) => v,
        };
        results.push(t);
        proof {
            let ghost stepped = parse_results(cs@, nxt as int, (remaining - 1) as nat);
            assert(results@.map_values(|t2: TaskResult| t2@) =~= done + seq![t@]);
            match stepped {
                None => {},
                Some((ts, k)) => {
                    assert(done + (seq![t@] + ts) =~= (done + seq![t@]) + ts);
                },
            }
        }
        cur = nxt;
        remaining -= 1;
    }
    proof {
        assert(parse_results(cs@, cur as int, 0nat) == Some((Seq::<TaskView>::empty(), cur as int)));
        assert(results@.map_values(|t: TaskResult| t@) + Seq::<TaskView>::empty()
            =~= results@.map_values(|t: TaskResult| t@));
    }
    if cur != cs.len() {
        return None;
    }
    let job = JobResults { job_name: string_of(&name), execution_time: string_of(&time), results };
    Some(job)
}

// ------------------------------------------------------------------
// Log files
// ------------------------------------------------------------------
/// The name of the log file for an invocation written at `timestamp`:
/// the timestamp keeps lexicographic name order equal to write order.
pub fn log_filename(timestamp: &str) -> (r: String)
    ensures
        r@ == "rox-"@ + timestamp@ + ".log"@,
{
    let mut s = String::new();
    s.append("rox-");
    s.append(timestamp);
    s.append(".log");
    s
}

/// Select the log files to replay: the lexicographically largest
/// `number` names (the most recent ones), returned oldest first.
pub fn select_latest(filenames: Vec<String>, number: usize) -> (r: Vec<String>)
    ensures
        sorted_le(r@),
        r@.len() == if number <= filenames@.len() {
            number as int
        } else {
            filenames@.len() as int
        },
        exists|srt: Seq<String>|
            {
                &&& sorted_le(srt)
                &&& (#[trigger] srt.to_multiset()) == filenames@.to_multiset()
                &&& r@ == srt.skip(srt.len() - r@.len())
            },
{
    broadcast use vstd::seq_lib::group_to_multiset_ensures;

    let mut v = filenames;
    sort_by_key(&mut v);
    let ghost srt = v@;
    proof {
        assert(srt.skip(0) =~= srt);
    }
    while v.len() > number
        invariant
            sorted_le(srt),
            srt.to_multiset() == filenames@.to_multiset(),
            v@.len() <= srt.len(),
            number <= v@.len() || v@.len() == srt.len(),
            v@ == srt.skip(srt.len() - v@.len()),
        decreases v@.len(),
    {
        let ghost before = v@;
        let ghost off = srt.len() - before.len();
        v.remove(0);
        proof {
            assert(before == srt.skip(off));
            assert(v@ =~= before.remove(0));
            assert forall|k: int| 0 <= k < v@.len() implies #[trigger] v@[k] == srt.skip(
                off + 1,
            )[k] by {
                assert(v@[k] == before[k + 1]);
                assert(before[k + 1] == srt[off + k + 1]);
            }
            assert(v@ =~= srt.skip(off + 1));
        }
    }
    proof {
        assert(srt.len() == srt.to_multiset().len());
        assert(filenames@.len() == filenames@.to_multiset().len());
        let off = srt.len() - v@.len();
        assert forall|i: int, j: int|
            0 <= i < j < v@.len() implies #[trigger] crate::ordering::SortKey::le(
            &v@[i],
            &v@[j],
        ) by {
            assert(v@[i] == srt[off + i]);
            assert(v@[j] == srt[off + j]);
            assert(crate::ordering::SortKey::le(&srt[off + i], &srt[off + j]));
        }
        assert(sorted_le(v@));
    }
    v
}

} // verus!
