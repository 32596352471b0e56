use rox::logs::{log_filename, parse_job_string, render_job_string, select_latest};
use rox::models::{JobResults, PassFail, TaskResult};

fn sample_job() -> JobResults {
    JobResults {
        job_name: "nightly build".to_owned(),
        execution_time: "2024-01-02T03:04:05+00:00".to_owned(),
        results: vec![
            TaskResult {
                name: "compile".to_owned(),
                command: "cargo build --release".to_owned(),
                stage: 1,
                result: PassFail::Pass,
                elapsed_time: 42,
                file_path: "rox.yml".to_owned(),
            },
            TaskResult {
                name: "tests".to_owned(),
                command: "cargo test".to_owned(),
                stage: 2,
                result: PassFail::Fail,
                elapsed_time: 0,
                file_path: "rox.yml".to_owned(),
            },
        ],
    }
}

#[test]
fn written_job_reads_back_equal() {
    let job = sample_job();
    let content = render_job_string(&job);
    let replayed = parse_job_string(&content).expect("round trip failed");
    assert_eq!(replayed, job);
}

#[test]
fn round_trip_keeps_awkward_strings() {
    let job = JobResults {
        job_name: "name with\nnewline and 7 21 digits".to_owned(),
        execution_time: String::new(),
        results: vec![TaskResult {
            name: String::new(),
            command: "echo 'hi | there' > /dev/null".to_owned(),
            stage: -3,
            result: PassFail::Fail,
            elapsed_time: -9,
            file_path: "a b".to_owned(),
        }],
    };
    let content = render_job_string(&job);
    let replayed = parse_job_string(&content).expect("round trip failed");
    assert_eq!(replayed, job);
}

#[test]
fn round_trip_of_empty_job() {
    let job = JobResults {
        job_name: String::new(),
        execution_time: String::new(),
        results: vec![],
    };
    let replayed = parse_job_string(&render_job_string(&job)).unwrap();
    assert_eq!(replayed, job);
}

#[test]
fn garbage_is_rejected() {
    assert!(parse_job_string("").is_none());
    assert!(parse_job_string("not a log file").is_none());
    let job = sample_job();
    let mut content = render_job_string(&job);
    content.push('x');
    assert!(parse_job_string(&content).is_none());
}

#[test]
fn filename_embeds_timestamp() {
    assert_eq!(log_filename("2024-01-02T03:04:05+00:00"), "rox-2024-01-02T03:04:05+00:00.log");
}

#[test]
fn latest_logs_are_selected_in_order() {
    let names = vec![
        "rox-2024-03-01.log".to_owned(),
        "rox-2024-01-01.log".to_owned(),
        "rox-2024-02-01.log".to_owned(),
    ];
    let picked = select_latest(names.clone(), 2);
    assert_eq!(picked, vec!["rox-2024-02-01.log".to_owned(), "rox-2024-03-01.log".to_owned()]);

    let all = select_latest(names, 10);
    assert_eq!(
        all,
        vec![
            "rox-2024-01-01.log".to_owned(),
            "rox-2024-02-01.log".to_owned(),
            "rox-2024-03-01.log".to_owned(),
        ]
    );
}
