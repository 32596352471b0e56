//! Task execution: spawning the shell, mapping exit statuses to verdicts,
//! and running the ordered stages of a pipeline.
//!
//! Stages run strictly in declared order; within one stage the tasks run
//! either sequentially or on a worker pool, but the reported results always
//! keep the declared order.  A failing task never stops the run: failure is
//! data, inspected once at the very end by the caller.

use vstd::prelude::*;
use std::io::Write;
use crate::models::{JobResults, PassFail, Pipeline, Task, TaskResult};

verus! {

/// Outcome of handing one command line to the shell.
#[derive(Debug, Clone, Copy, PartialEq, Eq, Structural)]
pub enum ShellStatus {
    /// The child process ran and exited with this code.
    Exited(i32),
    /// The child process ended without an exit code (for example, it was
    /// killed by a signal).
    NoCode,
    /// The child process could not be spawned at all.
    SpawnFailed,
}

/// `std::time::Instant`, an opaque reading of the monotonic clock.
#[verifier::external_type_specification]
#[verifier::external_body]
pub struct ExInstant(std::time::Instant);

/// Relies on `std::time::Instant::now`: a clock reading; nothing can be
/// promised about its value.
#[verifier::external_body]
fn instant_now() -> std::time::Instant {
    std::time::Instant::now()
}

/// Relies on `Instant::elapsed` and `Duration::as_secs`: the whole seconds
/// since `start`, which are never negative.
#[verifier::external_body]
fn elapsed_seconds(start: &std::time::Instant) -> (r: i64)
    ensures
        r >= 0,
{
    i64::try_from(start.elapsed().as_secs()).unwrap_or(i64::MAX)
}

/// Relies on `chrono::Utc::now` and `to_rfc3339`: the current wall-clock
/// time, about which nothing can be promised.
#[verifier::external_body]
pub fn now_rfc3339() -> String {
    chrono::Utc::now().to_rfc3339()
}

/// Relies on `writeln` to standard output: announces the command about to
/// run; the child's own output follows it on the inherited streams.
#[verifier::external_body]
fn print_running_command(command: &str) {
    let _ = writeln!(std::io::stdout(), "> Running command: '{}'", command);
}

/// Relies on tokio's process support: runs `sh -c <command>` inside
/// `workdir` with inherited standard streams and blocks until the child
/// exits.  The outcome depends on the machine, so every variant is
/// possible.
#[verifier::external_body]
fn shell_status(command: &str, workdir: &str) -> ShellStatus {
    let runtime = match tokio::runtime::Builder::new_current_thread().enable_all().build() {
        Ok(rt) => rt,
        Err(_) => return ShellStatus::SpawnFailed,
    };
    let _guard = runtime.enter();
    let pending =
        tokio::process::Command::new("sh").arg("-c").arg(command).current_dir(workdir).status();
    match runtime.block_on(pending) {
        Ok(s) => match s.code() {
            Some(code) => ShellStatus::Exited(code),
            None => ShellStatus::NoCode,
        },
        Err(_) => ShellStatus::SpawnFailed,
    }
}

/// Verdict mapping: only a clean exit with code 0 passes.  A spawn
/// failure, a missing exit code, and any other code all fail.
pub fn get_result_passfail(result: ShellStatus) -> (r: PassFail)
    ensures
        r is Pass <==> result == ShellStatus::Exited(0),
{
    match result {
        ShellStatus::Exited(0) => PassFail::Pass,
        _ => PassFail::Fail,
    }
}

/// The deterministic fields of `res` record an execution of `task` at the
/// given 0-based stage position: the verdict and the elapsed time depend
/// on the machine and stay unconstrained, apart from the timer's sign.
pub open spec fn result_matches(res: TaskResult, task: Task, stage_number: i8) -> bool {
    &&& res.name == task.name
    &&& task.command matches Some(c) && res.command == c
    &&& res.stage == stage_number + 1
    &&& task.file_path matches Some(p) && res.file_path == p
    &&& res.elapsed_time >= 0
}

/// Run a Task.
///
/// Spawns the task's command in its working directory (default `.`),
/// blocks until it finishes, and records the verdict, the rounded wall
/// clock seconds and the task's provenance, tagged with the 1-based stage
/// number.
pub fn run_task(task: &Task, stage_number: i8) -> (r: TaskResult)
    requires
        task.command is Some,
        task.file_path is Some,
        stage_number < 127,
    ensures
        result_matches(r, *task, stage_number),
{
    let start = instant_now();
    let workdir = match &task.workdir {
        Some(w) => w.clone(),
        None => ".".to_owned(),
    };
    let command = task.command.as_ref().unwrap();
    print_running_command(command.as_str());
    let command_results = shell_status(command.as_str(), workdir.as_str());
    TaskResult {
        name: task.name.clone(),
        command: command.clone(),
        stage: stage_number + 1,
        result: get_result_passfail(command_results),
        elapsed_time: elapsed_seconds(&start),
        file_path: task.file_path.as_ref().unwrap().clone(),
    }
}

/// The registry entry a name resolves to: the last task carrying that
/// name, as a name-keyed map built by later insertions would hold it.
pub open spec fn task_lookup(registry: Seq<Task>, name: Seq<char>) -> Option<Task>
    decreases registry.len(),
{
    if registry.len() == 0 {
        None
    } else if registry.last().name@ == name {
        Some(registry.last())
    } else {
        task_lookup(registry.drop_last(), name)
    }
}

/// The name resolves to a task that is ready to run: its command is
/// populated (literal or expanded) and its provenance is injected.
pub open spec fn runnable_lookup(registry: Seq<Task>, name: Seq<char>) -> bool {
    task_lookup(registry, name) matches Some(t) && t.command is Some && t.file_path is Some
}

/// Looks a task up by name.
pub fn find_task<'a>(registry: &'a Vec<Task>, name: &String) -> (r: Option<&'a Task>)
    ensures
        match r {
            Some(t) => task_lookup(registry@, name@) == Some(*t),
            None => task_lookup(registry@, name@) is None,
        },
{
    let mut i: usize = registry.len();
    proof {
        assert(registry@.take(i as int) =~= registry@);
    }
    while i > 0
        invariant
            i <= registry@.len(),
            task_lookup(registry@, name@) == task_lookup(registry@.take(i as int), name@),
        decreases i,
    {
        i -= 1;
        proof {
            assert(registry@.take(i + 1).last() == registry@[i as int]);
            assert(registry@.take(i + 1).drop_last() =~= registry@.take(i as int));
        }
        if name.eq(&registry[i].name) {
            return Some(&registry[i]);
        }
    }
    proof {
        assert(registry@.take(0) =~= Seq::<Task>::empty());
    }
    None
}

/// Every name in every stage resolves to a runnable task.  The runner
/// checks this before any command is spawned; a miss is a fatal
/// configuration error.
pub open spec fn stages_runnable(stages: Seq<Vec<String>>, registry: Seq<Task>) -> bool {
    forall|s: int, k: int|
        0 <= s < stages.len() && 0 <= k < stages[s]@.len() ==> runnable_lookup(
            registry,
            #[trigger] stages[s]@[k]@,
        )
}

/// Decides [`stages_runnable`] for a concrete stage list.
pub fn check_stages_runnable(stages: &Vec<Vec<String>>, registry: &Vec<Task>) -> (r: bool)
    ensures
        r == stages_runnable(stages@, registry@),
{
    let mut s: usize = 0;
    while s < stages.len()
        invariant
            s <= stages@.len(),
            forall|s2: int, k: int|
                0 <= s2 < s && 0 <= k < stages@[s2]@.len() ==> runnable_lookup(
                    registry@,
                    #[trigger] stages@[s2]@[k]@,
                ),
        decreases stages@.len() - s,
    {
        let stage = &stages[s];
        let mut k: usize = 0;
        while k < stage.len()
            invariant
                s < stages@.len(),
                stage == stages@[s as int],
                k <= stage@.len(),
                forall|k2: int|
                    0 <= k2 < k ==> runnable_lookup(registry@, #[trigger] stage@[k2]@),
            decreases stage@.len() - k,
        {
            match find_task(registry, &stage[k]) {
                None => {
                    return false;
                },
                Some(t) => {
                    if t.command.is_none() || t.file_path.is_none() {
                        return false;
                    }
                },
            }
            k += 1;
        }
        s += 1;
    }
    true
}

/// Copies the fields of a registry entry into an owned task for a worker.
/// The `values` list is copied element by element, so only its view is
/// related to the original's.
fn clone_task(t: &Task) -> (r: Task)
    ensures
        r.name == t.name,
        r.command == t.command,
        r.description == t.description,
        r.file_path == t.file_path,
        r.uses == t.uses,
        r.hide == t.hide,
        r.workdir == t.workdir,
        r.values is Some <==> t.values is Some,
{
    Task {
        name: t.name.clone(),
        command: clone_opt_string(&t.command),
        description: clone_opt_string(&t.description),
        file_path: clone_opt_string(&t.file_path),
        uses: clone_opt_string(&t.uses),
        values: match &t.values {
            Some(v) => Some(v.clone()),
            None => None,
        },
        hide: t.hide,
        workdir: clone_opt_string(&t.workdir),
    }
}

/// Copies an optional string.
fn clone_opt_string(o: &Option<String>) -> (r: Option<String>)
    ensures
        r == *o,
{
    match o {
        Some(s) => Some(s.clone()),
        None => None,
    }
}

/// Relies on rayon's parallel iterator over a vector: each task is handed
/// to a worker from a pool bounded by the available parallelism, and the
/// results are collected in the input order, whatever the completion
/// order.  Each worker runs the verified [`run_task`], so each result
/// satisfies its contract.
#[verifier::external_body]
fn run_tasks_parallel(task_stack: &Vec<Task>, stage_number: i8) -> (r: Vec<TaskResult>)
    requires
        stage_number < 127,
        forall|k: int|
            0 <= k < task_stack@.len() ==> (#[trigger] task_stack@[k].command) is Some
                && task_stack@[k].file_path is Some,
    ensures
        r@.len() == task_stack@.len(),
        forall|k: int|
            0 <= k < r@.len() ==> result_matches(#[trigger] r@[k], task_stack@[k], stage_number),
{
    rayon::iter::ParallelIterator::collect(rayon::iter::ParallelIterator::map(
        rayon::iter::IntoParallelRefIterator::par_iter(task_stack),
        |task| run_task(task, stage_number),
    ))
}

/// Every result records, in declared order, an execution of the task the
/// matching name resolves to.
pub open spec fn stage_results_ok(
    results: Seq<TaskResult>,
    names: Seq<String>,
    registry: Seq<Task>,
    stage_number: i8,
) -> bool {
    &&& results.len() == names.len()
    &&& forall|k: int|
        0 <= k < names.len() ==> (task_lookup(registry, #[trigger] names[k]@) matches Some(t)
            && result_matches(results[k], t, stage_number))
}

/// Execute a vector of Tasks, potentially in parallel.
///
/// Every name is executed, in list order; a repeated name is executed once
/// per occurrence.  With `parallel` set the tasks are handed to a bounded
/// worker pool, and the results still come back in list order.
pub fn execute_tasks(
    tasks: Vec<String>,
    stage_number: i8,
    task_map: &Vec<Task>,
    parallel: bool,
) -> (r: Vec<TaskResult>)
    requires
        stage_number < 127,
        forall|k: int|
            0 <= k < tasks@.len() ==> runnable_lookup(task_map@, #[trigger] tasks@[k]@),
    ensures
        stage_results_ok(r@, tasks@, task_map@, stage_number),
{
    let mut task_stack: Vec<Task> = Vec::new();
    let mut i: usize = 0;
    while i < tasks.len()
        invariant
            i <= tasks@.len(),
            task_stack@.len() == i,
            forall|k: int|
                0 <= k < tasks@.len() ==> runnable_lookup(task_map@, #[trigger] tasks@[k]@),
            forall|k: int|
                0 <= k < i ==> (task_lookup(task_map@, #[trigger] tasks@[k]@) matches Some(t)
                    && task_stack@[k].name == t.name && task_stack@[k].command == t.command
                    && task_stack@[k].file_path == t.file_path),
        decreases tasks@.len() - i,
    {
        let t = match find_task(task_map, &tasks[i]) {
            Some(t) => t,
            None => {
                proof {
                    assert(runnable_lookup(task_map@, tasks@[i as int]@));
                }
                unreached()
            },
        };
        task_stack.push(clone_task(t));
        i += 1;
    }
    if parallel {
        proof {
            assert forall|k: int|
                0 <= k < task_stack@.len() implies (#[trigger] task_stack@[k].command) is Some
                && task_stack@[k].file_path is Some by {
                assert(runnable_lookup(task_map@, tasks@[k]@));
                assert(task_lookup(task_map@, tasks@[k]@) matches Some(t) && task_stack@[k].command
                    == t.command && task_stack@[k].file_path == t.file_path);
            }
        }
        let r = run_tasks_parallel(&task_stack, stage_number);
        proof {
            assert forall|k: int|
                0 <= k < tasks@.len() implies task_lookup(
                task_map@,
                #[trigger] tasks@[k]@,
            ) matches Some(t) && result_matches(r@[k], t, stage_number) by {
                assert(result_matches(r@[k], task_stack@[k], stage_number));
            }
        }
        r
    } else {
        let mut results: Vec<TaskResult> = Vec::new();
        let mut j: usize = 0;
        while j < task_stack.len()
            invariant
                j <= task_stack@.len(),
                results@.len() == j,
                stage_number < 127,
                task_stack@.len() == tasks@.len(),
                forall|k: int|
                    0 <= k < tasks@.len() ==> runnable_lookup(task_map@, #[trigger] tasks@[k]@),
                forall|k: int|
                    0 <= k < tasks@.len() ==> (task_lookup(task_map@, #[trigger] tasks@[k]@)
                        matches Some(t) && task_stack@[k].name == t.name && task_stack@[k].command
                        == t.command && task_stack@[k].file_path == t.file_path),
                forall|k: int|
                    0 <= k < j ==> result_matches(
                        #[trigger] results@[k],
                        task_stack@[k],
                        stage_number,
                    ),
            decreases task_stack@.len() - j,
        {
            proof {
                assert(task_lookup(task_map@, tasks@[j as int]@) matches Some(t) && t.command
                    is Some && t.file_path is Some);
            }
            let res = run_task(&task_stack[j], stage_number);
            results.push(res);
            j += 1;
        }
        proof {
            assert forall|k: int|
                0 <= k < tasks@.len() implies task_lookup(
                task_map@,
                #[trigger] tasks@[k]@,
            ) matches Some(t) && result_matches(results@[k], t, stage_number) by {
                assert(result_matches(results@[k], task_stack@[k], stage_number));
            }
        }
        results
    }
}

/// Execute a vector of Stages.
///
/// Stage `s` (0-based) is fully executed, and its results collected,
/// before stage `s + 1` is dispatched; its results carry the 1-based
/// stage number `s + 1`.
pub fn execute_stages(
    stages: &Vec<Vec<String>>,
    task_map: &Vec<Task>,
    parallel: bool,
) -> (r: Vec<Vec<TaskResult>>)
    requires
        stages@.len() <= 127,
        stages_runnable(stages@, task_map@),
    ensures
        r@.len() == stages@.len(),
        forall|s: int|
            0 <= s < stages@.len() ==> stage_results_ok(
                (#[trigger] r@[s])@,
                stages@[s]@,
                task_map@,
                s as i8,
            ),
{
    let mut stage_results: Vec<Vec<TaskResult>> = Vec::new();
    let mut s: usize = 0;
    while s < stages.len()
        invariant
            s <= stages@.len(),
            stages@.len() <= 127,
            stages_runnable(stages@, task_map@),
            stage_results@.len() == s,
            forall|s2: int|
                0 <= s2 < s ==> stage_results_ok(
                    (#[trigger] stage_results@[s2])@,
                    stages@[s2]@,
                    task_map@,
                    s2 as i8,
                ),
        decreases stages@.len() - s,
    {
        let stage = &stages[s];
        let mut names: Vec<String> = Vec::new();
        let mut k: usize = 0;
        while k < stage.len()
            invariant
                s < stages@.len(),
                stage == stages@[s as int],
                k <= stage@.len(),
                names@.len() == k,
                forall|k2: int| 0 <= k2 < k ==> names@[k2] == stage@[k2],
            decreases stage@.len() - k,
        {
            names.push(stage[k].clone());
            k += 1;
        }
        proof {
            assert(names@ =~= stages@[s as int]@);
            assert forall|k2: int| 0 <= k2 < names@.len() implies runnable_lookup(
                task_map@,
                #[trigger] names@[k2]@,
            ) by {
                assert(runnable_lookup(task_map@, stages@[s as int]@[k2]@));
            }
        }
        let results = execute_tasks(names, s as i8, task_map, parallel);
        stage_results.push(results);
        s += 1;
    }
    stage_results
}

/// The views of the per-stage result vectors.
pub open spec fn stage_views(stages: Seq<Vec<TaskResult>>) -> Seq<Seq<TaskResult>> {
    stages.map_values(|v: Vec<TaskResult>| v@)
}

/// Concatenates the per-stage results into the stage-major flat list.
pub fn flatten_results(stages: Vec<Vec<TaskResult>>) -> (r: Vec<TaskResult>)
    ensures
        r@ == stage_views(stages@).flatten(),
{
    broadcast use Seq::lemma_flatten_push;

    let ghost all = stage_views(stages@);
    let mut rest = stages;
    let mut out: Vec<TaskResult> = Vec::new();
    let ghost done: int = 0;
    proof {
        assert(all.skip(0) =~= all);
        assert(all.take(0) =~= Seq::<Seq<TaskResult>>::empty());
    }
    while rest.len() > 0
        invariant
            0 <= done <= all.len(),
            rest@.len() + done == all.len(),
            stage_views(rest@) =~= all.skip(done),
            out@ == all.take(done).flatten(),
        decreases rest@.len(),
    {
        let ghost prev = rest@;
        let mut v = rest.remove(0);
        proof {
            assert(stage_views(prev)[0] == all.skip(done)[0]);
            assert(all[done] == v@);
            assert(rest@ =~= prev.remove(0));
            assert forall|idx: int|
                0 <= idx < rest@.len() implies stage_views(rest@)[idx] == all.skip(done + 1)[idx] by {
                assert(rest@[idx] == prev[idx + 1]);
                assert(stage_views(prev)[idx + 1] == all.skip(done)[idx + 1]);
            }
            assert(stage_views(rest@) =~= all.skip(done + 1));
            assert(all.take(done + 1) =~= all.take(done).push(all[done]));
        }
        out.append(&mut v);
        proof {
            all.take(done).lemma_flatten_push(all[done]);
            done = done + 1;
        }
    }
    proof {
        assert(all.take(done) =~= all);
    }
    out
}

/// Execute a whole Pipeline into one aggregate job result.
///
/// The timestamp is captured before any task runs; the results are the
/// stage-major flattening of the per-stage results, each tagged with its
/// 1-based stage number.  The caller persists, displays and inspects the
/// returned value.
pub fn execute_pipeline(pipeline: &Pipeline, task_map: &Vec<Task>, parallel: bool) -> (r:
    JobResults)
    requires
        pipeline.stages@.len() <= 127,
        stages_runnable(pipeline.stages@, task_map@),
    ensures
        r.job_name == pipeline.name,
        exists|sr: Seq<Seq<TaskResult>>|
            {
                &&& (#[trigger] sr.len()) == pipeline.stages@.len()
                &&& forall|s: int|
                    0 <= s < sr.len() ==> stage_results_ok(
                        #[trigger] sr[s],
                        pipeline.stages@[s]@,
                        task_map@,
                        s as i8,
                    )
                &&& r.results@ == sr.flatten()
            },
{
    let execution_start = now_rfc3339();
    let execution_results = execute_stages(&pipeline.stages, task_map, parallel);
    let ghost sr = stage_views(execution_results@);
    let results = JobResults {
        job_name: pipeline.name.clone(),
        execution_time: execution_start,
        results: flatten_results(execution_results),
    };
    proof {
        assert(sr.len() == pipeline.stages@.len());
    }
    results
}

/// Flattening lists whose stage tags ascend list by list keeps the tags
/// monotone, and every tag exceeds `base`.
proof fn lemma_flatten_stage_monotone(sr: Seq<Seq<TaskResult>>, base: int)
    requires
        forall|s: int, k: int|
            0 <= s < sr.len() && 0 <= k < sr[s].len() ==> (#[trigger] sr[s][k]).stage == base + s
                + 1,
    ensures
        forall|i: int|
            0 <= i < sr.flatten().len() ==> base + 1 <= (#[trigger] sr.flatten()[i]).stage,
        forall|i: int, j: int|
            0 <= i < j < sr.flatten().len() ==> (#[trigger] sr.flatten()[i]).stage <= (
            #[trigger] sr.flatten()[j]).stage,
    decreases sr.len(),
{
    if sr.len() > 0 {
        let head = sr[0];
        let rest = sr.drop_first();
        assert(forall|s: int, k: int|
            0 <= s < rest.len() && 0 <= k < rest[s].len() ==> (#[trigger] rest[s][k]).stage == (
            base + 1) + s + 1);
        lemma_flatten_stage_monotone(rest, base + 1);
        assert(sr.flatten() == head + rest.flatten());
        assert forall|i: int|
            0 <= i < sr.flatten().len() implies base + 1 <= (#[trigger] sr.flatten()[i]).stage by {
            if i < head.len() {
                assert(sr.flatten()[i] == sr[0][i]);
            } else {
                assert(sr.flatten()[i] == rest.flatten()[i - head.len()]);
            }
        }
        assert forall|i: int, j: int|
            0 <= i < j < sr.flatten().len() implies (#[trigger] sr.flatten()[i]).stage <= (
        #[trigger] sr.flatten()[j]).stage by {
            if i < head.len() {
                assert(sr.flatten()[i] == sr[0][i]);
                if j < head.len() {
                    assert(sr.flatten()[j] == sr[0][j]);
                } else {
                    assert(sr.flatten()[j] == rest.flatten()[j - head.len()]);
                }
            } else {
                assert(sr.flatten()[i] == rest.flatten()[i - head.len()]);
                assert(sr.flatten()[j] == rest.flatten()[j - head.len()]);
            }
        }
    }
}

/// Stage ordering law: the flat result list of a run whose stages each
/// satisfy [`stage_results_ok`] is stage-major — stage tags never
/// decrease along the list, so every result of a stage precedes every
/// result of any later stage.
pub proof fn lemma_results_stage_major(
    sr: Seq<Seq<TaskResult>>,
    stages: Seq<Vec<String>>,
    registry: Seq<Task>,
)
    requires
        sr.len() == stages.len(),
        sr.len() <= 127,
        forall|s: int|
            0 <= s < sr.len() ==> stage_results_ok(#[trigger] sr[s], stages[s]@, registry, s as i8),
    ensures
        forall|i: int, j: int|
            0 <= i < j < sr.flatten().len() ==> (#[trigger] sr.flatten()[i]).stage <= (
            #[trigger] sr.flatten()[j]).stage,
{
    assert forall|s: int, k: int|
        0 <= s < sr.len() && 0 <= k < sr[s].len() implies (#[trigger] sr[s][k]).stage == 0 + s
        + 1 by {
        assert(stage_results_ok(sr[s], stages[s]@, registry, s as i8));
        assert(task_lookup(registry, stages[s]@[k]@) matches Some(t) && result_matches(
            sr[s][k],
            t,
            s as i8,
        ));
    }
    lemma_flatten_stage_monotone(sr, 0);
}

/// Execute a single user-defined Task, as a one-stage, one-task job.
pub fn execute_task(task: Task) -> (r: JobResults)
    requires
        task.command is Some,
        task.file_path is Some,
    ensures
        r.job_name == task.name,
        r.results@.len() == 1,
        result_matches(r.results@[0], task, 0),
{
    let execution_start = now_rfc3339();
    let execution_result = run_task(&task, 0);
    let mut results_vec: Vec<TaskResult> = Vec::new();
    results_vec.push(execution_result);
    JobResults {
        job_name: task.name,
        execution_time: execution_start,
        results: results_vec,
    }
}

} // verus!
