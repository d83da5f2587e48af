//! The results of running the check steps: recording each step's outcome, the summary line,
//! and the data of the JSON report.

use vstd::prelude::*;
use crate::config::accessors::strs;
use crate::text::{chars_of, dec_seq, extend_chars, fmt_u64, join_seq, string_of};

verus! {

/// The outcome of one step.
#[derive(Debug, Clone, Default)]
pub struct StepResult {
    pub name: String,
    pub category: String,
    pub errors: Vec<String>,
    pub failed: bool,
}

/// The outcome of a run: every violation in step order, and each step's result.
#[derive(Debug, Clone, Default)]
pub struct RunResult {
    pub all_errors: Vec<String>,
    pub steps: Vec<StepResult>,
}

/// How a run is shown.
#[derive(Debug, Clone, Copy, Default)]
pub struct Options {
    pub quiet: bool,
    pub no_color: bool,
}

/// The name a step is counted under: its category, or its name when it has none.
pub open spec fn step_label(s: StepResult) -> Seq<char> {
    if s.category@.len() == 0 {
        s.name@
    } else {
        s.category@
    }
}

/// The number of violations of the steps `ss[..]`.
pub open spec fn total_errors(ss: Seq<StepResult>) -> nat
    decreases ss.len(),
{
    if ss.len() == 0 {
        0
    } else {
        total_errors(ss.drop_last()) + ss.last().errors@.len()
    }
}

/// One `label(count)` part for each step with violations, in step order.
pub open spec fn summary_parts(ss: Seq<StepResult>) -> Seq<Seq<char>>
    decreases ss.len(),
{
    if ss.len() == 0 {
        Seq::empty()
    } else {
        let s = ss.last();
        let prev = summary_parts(ss.drop_last());
        if s.errors@.len() > 0 {
            prev.push(step_label(s) + "("@ + dec_seq(s.errors@.len()) + ")"@)
        } else {
            prev
        }
    }
}

proof fn lemma_total_prefix(ss: Seq<StepResult>, i: int)
    requires
        0 <= i <= ss.len(),
    ensures
        total_errors(ss.take(i)) <= total_errors(ss),
    decreases ss.len() - i,
{
    if i < ss.len() {
        lemma_total_prefix(ss, i + 1);
        assert(ss.take(i + 1).drop_last() =~= ss.take(i));
    } else {
        assert(ss.take(i) =~= ss);
    }
}

/// The number of violations and the summary `label(count), ...` of the steps with
/// violations (see `summary_parts`).
pub fn summary(steps: &[StepResult]) -> (r: (usize, String))
    requires
        total_errors(steps@) <= usize::MAX,
    ensures
        r.0 == total_errors(steps@),
        r.1@ == join_seq(summary_parts(steps@), ", "@),
{
    let mut total: usize = 0;
    let mut parts: Vec<Vec<char>> = Vec::new();
    let mut i: usize = 0;
    while i < steps.len()
        invariant
            i <= steps@.len(),
            total_errors(steps@) <= usize::MAX,
            total == total_errors(steps@.take(i as int)),
            parts@.map_values(|v: Vec<char>| v@) == summary_parts(steps@.take(i as int)),
        decreases steps.len() - i,
    {
        let s = &steps[i];
        proof {
            assert(steps@.take(i + 1).drop_last() =~= steps@.take(i as int));
            assert(steps@.take(i + 1).last() == *s);
            lemma_total_prefix(steps@, i + 1);
        }
        let n = s.errors.len();
        if n > 0 {
            total = total + n;
            let mut p = if crate::text::is_empty_str(s.category.as_str()) {
                chars_of(s.name.as_str())
            } else {
                chars_of(s.category.as_str())
            };
            p.push('(');
            extend_chars(&mut p, &fmt_u64(n as u64));
            p.push(')');
            proof {
                reveal_strlit("(");
                reveal_strlit(")");
            }
            assert(p@ =~= step_label(*s) + "("@ + dec_seq(n as nat) + ")"@);
            let ghost p0 = parts@.map_values(|v: Vec<char>| v@);
            parts.push(p);
            assert(parts@.map_values(|v: Vec<char>| v@) =~= p0.push(step_label(*s) + "("@ + dec_seq(n as nat) + ")"@));
        }
        i += 1;
    }
    assert(steps@.take(steps@.len() as int) =~= steps@);
    let sep = chars_of(", ");
    (total, string_of(&crate::text::join(&parts, &sep)))
}

/// A run with a result slot for each step, named and categorised, no violation yet.
pub open spec fn prefilled(meta: Seq<(Seq<char>, Seq<char>)>, r: RunResult) -> bool {
    &&& r.all_errors@.len() == 0
    &&& r.steps@.len() == meta.len()
    &&& forall|i: int|
        0 <= i < meta.len() ==> (#[trigger] r.steps@[i]).name@ == meta[i].0 && r.steps@[i].category@ == meta[i].1
            && r.steps@[i].errors@.len() == 0 && !r.steps@[i].failed
}

pub open spec fn meta_view(v: Seq<(String, String)>) -> Seq<(Seq<char>, Seq<char>)> {
    v.map_values(|m: (String, String)| (m.0@, m.1@))
}

/// The run before any step: one empty result per step (name, category).
pub fn new_run(meta: &[(String, String)]) -> (r: RunResult)
    ensures
        prefilled(meta_view(meta@), r),
{
    let mut steps: Vec<StepResult> = Vec::new();
    let mut i: usize = 0;
    while i < meta.len()
        invariant
            i <= meta@.len(),
            steps@.len() == i,
            forall|k: int|
                0 <= k < i ==> (#[trigger] steps@[k]).name@ == meta@[k].0@ && steps@[k].category@ == meta@[k].1@
                    && steps@[k].errors@.len() == 0 && !steps@[k].failed,
        decreases meta.len() - i,
    {
        steps.push(
            StepResult {
                name: meta[i].0.clone(),
                category: meta[i].1.clone(),
                errors: Vec::new(),
                failed: false,
            },
        );
        i += 1;
    }
    RunResult { all_errors: Vec::new(), steps }
}

/// Records the outcome of step `i`: its violations are appended to the run's and kept as
/// the step's own; a fatal error marks the step failed and is handed back, ending the run.
pub fn record_step(run: &mut RunResult, i: usize, outcome: Result<Vec<String>, String>) -> (r: Result<(), String>)
    requires
        i < old(run).steps@.len(),
    ensures
        final(run).steps@.len() == old(run).steps@.len(),
        forall|k: int| 0 <= k < old(run).steps@.len() && k != i ==> (#[trigger] final(run).steps@[k]) == old(run).steps@[k],
        final(run).steps@[i as int].name == old(run).steps@[i as int].name,
        final(run).steps@[i as int].category == old(run).steps@[i as int].category,
        match outcome {
            Ok(errs) => {
                &&& r is Ok
                &&& final(run).all_errors@ == old(run).all_errors@ + errs@
                &&& final(run).steps@[i as int].errors@ == errs@
                &&& final(run).steps@[i as int].failed == old(run).steps@[i as int].failed
            },
            Err(e) => {
                &&& r == Err::<(), String>(e)
                &&& final(run).all_errors@ == old(run).all_errors@
                &&& final(run).steps@[i as int].errors@ == old(run).steps@[i as int].errors@
                &&& final(run).steps@[i as int].failed
            },
        },
{
    match outcome {
        Ok(errs) => {
            let mut k: usize = 0;
            let ghost a0 = run.all_errors@;
            while k < errs.len()
                invariant
                    k <= errs@.len(),
                    run.all_errors@ == a0 + errs@.take(k as int),
                    run.steps@ == old(run).steps@,
                    a0 == old(run).all_errors@,
                decreases errs.len() - k,
            {
                run.all_errors.push(errs[k].clone());
                assert(errs@.take(k + 1) =~= errs@.take(k as int).push(errs@[k as int]));
                k += 1;
            }
            assert(errs@.take(errs@.len() as int) =~= errs@);
            let s = StepResult {
                name: run.steps[i].name.clone(),
                category: run.steps[i].category.clone(),
                errors: errs,
                failed: run.steps[i].failed,
            };
            run.steps.set(i, s);
            Ok(())
        },
        Err(e) => {
            let mut errs: Vec<String> = Vec::new();
            let mut k: usize = 0;
            while k < run.steps[i].errors.len()
                invariant
                    i < run.steps@.len(),
                    k <= run.steps@[i as int].errors@.len(),
                    errs@ == run.steps@[i as int].errors@.take(k as int),
                decreases run.steps@[i as int].errors@.len() - k,
            {
                errs.push(run.steps[i].errors[k].clone());
                assert(errs@ =~= run.steps@[i as int].errors@.take(k + 1));
                k += 1;
            }
            assert(errs@ =~= run.steps@[i as int].errors@);
            let s = StepResult {
                name: run.steps[i].name.clone(),
                category: run.steps[i].category.clone(),
                errors: errs,
                failed: true,
            };
            run.steps.set(i, s);
            Err(e)
        },
    }
}

/// The data of the JSON report: the status, each violation with its step's category, the
/// count, and the count per category (each category once).
pub struct JsonReport {
    pub status: String,
    /// (message, category), in step order.
    pub violations: Vec<(String, String)>,
    pub total: usize,
    pub by_check: Vec<(String, usize)>,
}

/// Each violation of the steps `ss[..]` with its step's category.
pub open spec fn violations_of(ss: Seq<StepResult>) -> Seq<(Seq<char>, Seq<char>)>
    decreases ss.len(),
{
    if ss.len() == 0 {
        Seq::empty()
    } else {
        violations_of(ss.drop_last()) + ss.last().errors@.map_values(|m: String| (m@, ss.last().category@))
    }
}

/// How many of the violations `vs` belong to category `c`.
pub open spec fn count_of(vs: Seq<(Seq<char>, Seq<char>)>, c: Seq<char>) -> nat
    decreases vs.len(),
{
    if vs.len() == 0 {
        0
    } else {
        count_of(vs.drop_last(), c) + if vs.last().1 == c {
            1nat
        } else {
            0nat
        }
    }
}

/// The counts per category: each category of `vs` once, with its count.
pub open spec fn counts_match(vs: Seq<(Seq<char>, Seq<char>)>, by: Seq<(Seq<char>, usize)>) -> bool {
    &&& forall|a: int, b: int| 0 <= a < b < by.len() ==> by[a].0 != by[b].0
    &&& forall|a: int| 0 <= a < by.len() ==> (#[trigger] by[a]).1 == count_of(vs, by[a].0) && count_of(vs, by[a].0) > 0
    &&& forall|j: int| 0 <= j < vs.len() ==> exists|a: int| 0 <= a < by.len() && (#[trigger] by[a]).0 == (#[trigger] vs[j]).1
}

proof fn lemma_count_zero(vs: Seq<(Seq<char>, Seq<char>)>, c: Seq<char>)
    requires
        forall|j: int| 0 <= j < vs.len() ==> (#[trigger] vs[j]).1 != c,
    ensures
        count_of(vs, c) == 0,
    decreases vs.len(),
{
    if vs.len() > 0 {
        lemma_count_zero(vs.drop_last(), c);
    }
}

proof fn lemma_total_violations(ss: Seq<StepResult>)
    ensures
        violations_of(ss).len() == total_errors(ss),
    decreases ss.len(),
{
    if ss.len() > 0 {
        lemma_total_violations(ss.drop_last());
    }
}

proof fn lemma_count_push(vs: Seq<(Seq<char>, Seq<char>)>, x: (Seq<char>, Seq<char>), c: Seq<char>)
    ensures
        count_of(vs.push(x), c) == count_of(vs, c) + if x.1 == c {
            1nat
        } else {
            0nat
        },
{
    assert(vs.push(x).drop_last() =~= vs);
}

proof fn lemma_count_le(vs: Seq<(Seq<char>, Seq<char>)>, c: Seq<char>)
    ensures
        count_of(vs, c) <= vs.len(),
    decreases vs.len(),
{
    if vs.len() > 0 {
        lemma_count_le(vs.drop_last(), c);
    }
}

fn find_cat(by: &Vec<(String, usize)>, c: &str) -> (r: Option<usize>)
    ensures
        r matches Some(a) ==> a < by@.len() && by@[a as int].0@ == c@,
        r is None ==> forall|t: int| 0 <= t < by@.len() ==> by@[t].0@ != c@,
{
    let mut a: usize = 0;
    while a < by.len()
        invariant
            a <= by@.len(),
            forall|t: int| 0 <= t < a ==> by@[t].0@ != c@,
        decreases by.len() - a,
    {
        if crate::text::str_eq(by[a].0.as_str(), c) {
            return Some(a);
        }
        a += 1;
    }
    None
}

pub open spec fn vs_view(v: Seq<(String, String)>) -> Seq<(Seq<char>, Seq<char>)> {
    v.map_values(|x: (String, String)| (x.0@, x.1@))
}

pub open spec fn by_view(v: Seq<(String, usize)>) -> Seq<(Seq<char>, usize)> {
    v.map_values(|b: (String, usize)| (b.0@, b.1))
}

fn count_by_check(vs: &Vec<(String, String)>) -> (by: Vec<(String, usize)>)
    ensures
        counts_match(vs_view(vs@), by_view(by@)),
{
    let ghost vv = vs_view(vs@);
    let mut by: Vec<(String, usize)> = Vec::new();
    let mut j: usize = 0;
    assert(vv.take(0) =~= Seq::<(Seq<char>, Seq<char>)>::empty());
    while j < vs.len()
        invariant
            j <= vs@.len(),
            vv == vs_view(vs@),
            counts_match(vv.take(j as int), by_view(by@)),
        decreases vs.len() - j,
    {
        let cat = &vs[j].1;
        let ghost x = vv[j as int];
        assert(vv.take(j + 1) =~= vv.take(j as int).push(x));
        assert(x.1 == cat@);
        let ghost pre = vv.take(j as int);
        let ghost post = vv.take(j + 1);
        let ghost b0 = by_view(by@);
        proof {
            lemma_count_le(post, cat@);
            assert forall|c: Seq<char>| #[trigger] count_of(post, c) == count_of(pre, c) + if c == cat@ {
                1nat
            } else {
                0nat
            } by {
                lemma_count_push(pre, x, c);
            }
        }
        match find_cat(&by, cat.as_str()) {
            Some(a) => {
                let n = by[a].1;
                assert(n == count_of(pre, cat@)) by {
                    assert(b0[a as int] == (by@[a as int].0@, by@[a as int].1));
                }
                assert(n + 1 <= post.len());
                let c = by[a].0.clone();
                by.set(a, (c, n + 1));
                let ghost b1 = by_view(by@);
                assert(b1 =~= b0.update(a as int, (cat@, (n + 1) as usize)));
                assert forall|t: int| 0 <= t < post.len() implies exists|q: int|
                    0 <= q < b1.len() && (#[trigger] b1[q]).0 == (#[trigger] post[t]).1 by {
                    if t < j {
                        assert(post[t] == pre[t]);
                        let q = choose|q: int| 0 <= q < b0.len() && (#[trigger] b0[q]).0 == (#[trigger] pre[t]).1;
                        assert(b1[q].0 == post[t].1);
                    } else {
                        assert(b1[a as int].0 == post[t].1);
                    }
                }
            },
            None => {
                proof {
                    assert forall|t: int| 0 <= t < pre.len() implies (#[trigger] pre[t]).1 != cat@ by {
                        let q = choose|q: int| 0 <= q < b0.len() && (#[trigger] b0[q]).0 == (#[trigger] pre[t]).1;
                        assert(b0[q].0 == by@[q].0@);
                    }
                    lemma_count_zero(pre, cat@);
                }
                by.push((cat.clone(), 1));
                let ghost b1 = by_view(by@);
                assert(b1 =~= b0.push((cat@, 1usize)));
                assert forall|t: int| 0 <= t < post.len() implies exists|q: int|
                    0 <= q < b1.len() && (#[trigger] b1[q]).0 == (#[trigger] post[t]).1 by {
                    if t < j {
                        assert(post[t] == pre[t]);
                        let q = choose|q: int| 0 <= q < b0.len() && (#[trigger] b0[q]).0 == (#[trigger] pre[t]).1;
                        assert(b1[q].0 == post[t].1);
                    } else {
                        assert(b1[b0.len() as int].0 == post[t].1);
                    }
                }
            },
        }
        j += 1;
    }
    assert(vv.take(vs@.len() as int) =~= vv);
    by
}

/// The data of the JSON report of a run: `fail` when there is a violation, else `pass`.
pub fn json_report(result: &RunResult) -> (r: JsonReport)
    ensures
        vs_view(r.violations@) == violations_of(result.steps@),
        r.total == r.violations@.len(),
        counts_match(violations_of(result.steps@), by_view(r.by_check@)),
        r.status@ == (if r.total > 0 {
            "fail"@
        } else {
            "pass"@
        }),
{
    let mut vs: Vec<(String, String)> = Vec::new();
    let ghost ss = result.steps@;
    let mut i: usize = 0;
    assert(vs_view(vs@) =~= violations_of(ss.take(0)));
    while i < result.steps.len()
        invariant
            i <= ss.len(),
            ss == result.steps@,
            vs_view(vs@) == violations_of(ss.take(i as int)),
        decreases ss.len() - i,
    {
        let s = &result.steps[i];
        proof {
            assert(ss.take(i + 1).drop_last() =~= ss.take(i as int));
            assert(ss.take(i + 1).last() == *s);
        }
        let ghost v_before = violations_of(ss.take(i as int));
        let mut k: usize = 0;
        assert(s.errors@.take(0).map_values(|m: String| (m@, s.category@)) =~= Seq::<(Seq<char>, Seq<char>)>::empty());
        assert(v_before + Seq::<(Seq<char>, Seq<char>)>::empty() =~= v_before);
        while k < s.errors.len()
            invariant
                k <= s.errors@.len(),
                vs_view(vs@) == v_before + s.errors@.take(k as int).map_values(|m: String| (m@, s.category@)),
            decreases s.errors.len() - k,
        {
            let ghost v0 = vs_view(vs@);
            vs.push((s.errors[k].clone(), s.category.clone()));
            assert(s.errors@.take(k + 1).map_values(|m: String| (m@, s.category@)) =~= s.errors@.take(
                k as int,
            ).map_values(|m: String| (m@, s.category@)).push((s.errors@[k as int]@, s.category@)));
            assert(vs_view(vs@) =~= v0.push((s.errors@[k as int]@, s.category@)));
            k += 1;
        }
        assert(s.errors@.take(s.errors@.len() as int) =~= s.errors@);
        i += 1;
    }
    assert(ss.take(ss.len() as int) =~= ss);
    let by = count_by_check(&vs);
    let total = vs.len();
    let status = if total > 0 {
        "fail".to_string()
    } else {
        "pass".to_string()
    };
    proof {
        reveal_strlit("fail");
        reveal_strlit("pass");
    }
    JsonReport { status, violations: vs, total, by_check: by }
}

/// The summary and the JSON report count the same violations: the summary's total is the
/// number of violations the report lists.
pub proof fn law_summary_matches_report(ss: Seq<StepResult>)
    ensures
        violations_of(ss).len() == total_errors(ss),
{
    lemma_total_violations(ss);
}
} // verus!
