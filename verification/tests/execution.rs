use rox::execution::{
    check_stages_runnable, execute_pipeline, execute_stages, execute_task, execute_tasks,
    find_task, get_result_passfail, run_task, ShellStatus,
};
use rox::models::{PassFail, Pipeline, Task};

fn shell_task(name: &str, command: &str) -> Task {
    Task {
        name: name.to_owned(),
        command: Some(command.to_owned()),
        description: None,
        file_path: Some("test".to_owned()),
        uses: None,
        values: None,
        hide: None,
        workdir: None,
    }
}

#[test]
fn verdict_mapping() {
    assert_eq!(get_result_passfail(ShellStatus::Exited(0)), PassFail::Pass);
    assert_eq!(get_result_passfail(ShellStatus::Exited(1)), PassFail::Fail);
    assert_eq!(get_result_passfail(ShellStatus::Exited(127)), PassFail::Fail);
    assert_eq!(get_result_passfail(ShellStatus::NoCode), PassFail::Fail);
    assert_eq!(get_result_passfail(ShellStatus::SpawnFailed), PassFail::Fail);
}

#[test]
fn passing_task_passes_and_failing_task_fails() {
    let passing = shell_task("passing", "true");
    let result = run_task(&passing, 0);
    assert_eq!(result.result, PassFail::Pass);
    assert_eq!(result.name, "passing");
    assert_eq!(result.command, "true");
    assert_eq!(result.stage, 1);
    assert_eq!(result.file_path, "test");

    let failing = shell_task("failing", "false");
    let result = run_task(&failing, 0);
    assert_eq!(result.result, PassFail::Fail);
}

#[test]
fn missing_executable_fails() {
    let task = shell_task("missing", "definitely_not_an_executable_kqzx");
    let result = run_task(&task, 0);
    assert_eq!(result.result, PassFail::Fail);
}

#[test]
fn missing_workdir_fails() {
    let mut task = shell_task("nodir", "true");
    task.workdir = Some("definitely/not/a/directory/kqzx".to_owned());
    let result = run_task(&task, 0);
    assert_eq!(result.result, PassFail::Fail);
}

#[test]
fn lookup_finds_last_entry_with_name() {
    let registry = vec![
        shell_task("a", "true"),
        shell_task("dup", "false"),
        shell_task("dup", "true"),
    ];
    let found = find_task(&registry, &"dup".to_owned()).unwrap();
    assert_eq!(found.command.as_deref(), Some("true"));
    assert!(find_task(&registry, &"nope".to_owned()).is_none());
}

#[test]
fn stage_checker_spots_missing_tasks() {
    let registry = vec![shell_task("a", "true")];
    let good = vec![vec!["a".to_owned()]];
    let bad = vec![vec!["a".to_owned()], vec!["ghost".to_owned()]];
    assert!(check_stages_runnable(&good, &registry));
    assert!(!check_stages_runnable(&bad, &registry));
}

#[test]
fn repeated_names_run_once_per_occurrence() {
    let registry = vec![shell_task("a", "true")];
    let results = execute_tasks(
        vec!["a".to_owned(), "a".to_owned(), "a".to_owned()],
        0,
        &registry,
        false,
    );
    assert_eq!(results.len(), 3);
    for r in &results {
        assert_eq!(r.result, PassFail::Pass);
        assert_eq!(r.stage, 1);
    }
}

#[test]
fn parallel_stage_keeps_declared_result_order() {
    let registry = vec![
        shell_task("slow", "sleep 0.3"),
        shell_task("quick", "true"),
        shell_task("failing", "false"),
    ];
    let names = vec!["slow".to_owned(), "quick".to_owned(), "failing".to_owned()];
    let results = execute_tasks(names, 0, &registry, true);
    assert_eq!(results.len(), 3);
    assert_eq!(results[0].name, "slow");
    assert_eq!(results[1].name, "quick");
    assert_eq!(results[2].name, "failing");
    assert_eq!(results[0].result, PassFail::Pass);
    assert_eq!(results[1].result, PassFail::Pass);
    assert_eq!(results[2].result, PassFail::Fail);
}

#[test]
fn stages_run_in_declared_order() {
    // The second stage's command only passes if the first stage's marker
    // is already on disk, so both verdicts passing shows the order.
    let marker = "/tmp/rox_stage_order_marker_kqzx";
    let registry = vec![
        shell_task("t1", &format!("rm -f {m} && touch {m}", m = marker)),
        shell_task("t2", &format!("test -f {m} && rm -f {m}", m = marker)),
    ];
    let stages = vec![vec!["t1".to_owned()], vec!["t2".to_owned()]];
    let results = execute_stages(&stages, &registry, false);
    assert_eq!(results.len(), 2);
    assert_eq!(results[0][0].result, PassFail::Pass);
    assert_eq!(results[1][0].result, PassFail::Pass);
    assert_eq!(results[0][0].stage, 1);
    assert_eq!(results[1][0].stage, 2);
}

#[test]
fn failure_does_not_stop_later_stages() {
    // The only failing task sits in stage 2 of 3; stage 3 still runs,
    // and the job as a whole reports failure.
    let marker = "/tmp/rox_stage_three_marker_kqzx";
    let registry = vec![
        shell_task("first", &format!("rm -f {m}", m = marker)),
        shell_task("breaks", "false"),
        shell_task("third", &format!("touch {m}", m = marker)),
    ];
    let pipeline = Pipeline {
        name: "demo".to_owned(),
        description: None,
        stages: vec![
            vec!["first".to_owned()],
            vec!["breaks".to_owned()],
            vec!["third".to_owned()],
        ],
        file_path: Some("test".to_owned()),
    };
    let job = execute_pipeline(&pipeline, &registry, false);
    assert_eq!(job.job_name, "demo");
    assert_eq!(job.results.len(), 3);
    assert_eq!(job.results[0].result, PassFail::Pass);
    assert_eq!(job.results[1].result, PassFail::Fail);
    assert_eq!(job.results[2].result, PassFail::Pass);
    assert_eq!(job.results[2].stage, 3);
    assert!(rox::file_requirements::check_file_exists(marker));
    assert!(job.check_results());
}

#[test]
fn pipeline_tags_stages_and_signals_failure() {
    let registry = vec![shell_task("passing", "true"), shell_task("failing", "false")];
    let pipeline = Pipeline {
        name: "mixed".to_owned(),
        description: None,
        stages: vec![vec!["passing".to_owned()], vec!["failing".to_owned()]],
        file_path: Some("test".to_owned()),
    };
    let job = execute_pipeline(&pipeline, &registry, false);
    assert_eq!(job.results.len(), 2);
    assert_eq!(job.results[0].name, "passing");
    assert_eq!(job.results[0].stage, 1);
    assert_eq!(job.results[0].result, PassFail::Pass);
    assert_eq!(job.results[1].name, "failing");
    assert_eq!(job.results[1].stage, 2);
    assert_eq!(job.results[1].result, PassFail::Fail);
    assert!(job.check_results());
}

#[test]
fn hidden_tasks_still_execute() {
    // The hide flag excludes a task from command-line listings only; a
    // stage that names it still runs it.
    let mut hidden = shell_task("quiet", "true");
    hidden.hide = Some(true);
    let registry = vec![hidden];
    let stages = vec![vec!["quiet".to_owned()]];
    let results = execute_stages(&stages, &registry, false);
    assert_eq!(results[0][0].result, PassFail::Pass);
}

#[test]
fn tasks_run_in_their_workdir() {
    let mut task = shell_task("placed", "rm -f rox_workdir_marker_kqzx && touch rox_workdir_marker_kqzx");
    task.workdir = Some("/tmp".to_owned());
    let result = run_task(&task, 0);
    assert_eq!(result.result, PassFail::Pass);
    assert!(rox::file_requirements::check_file_exists("/tmp/rox_workdir_marker_kqzx"));
}

#[test]
fn executed_job_survives_the_log_round_trip() {
    let registry = vec![shell_task("passing", "true"), shell_task("failing", "false")];
    let pipeline = Pipeline {
        name: "logged".to_owned(),
        description: None,
        stages: vec![vec!["passing".to_owned(), "failing".to_owned()]],
        file_path: Some("test".to_owned()),
    };
    let job = execute_pipeline(&pipeline, &registry, false);
    let content = rox::logs::render_job_string(&job);
    let replayed = rox::logs::parse_job_string(&content).expect("round trip failed");
    assert_eq!(replayed, job);
}

#[test]
fn single_task_job_has_one_stage() {
    let job = execute_task(shell_task("solo", "true"));
    assert_eq!(job.job_name, "solo");
    assert_eq!(job.results.len(), 1);
    assert_eq!(job.results[0].stage, 1);
    assert_eq!(job.results[0].result, PassFail::Pass);
    assert!(!job.check_results());
}
