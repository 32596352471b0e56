use rox::ci::{RunResult, StepStatus};
use rox::docs::{pager_action, PagerAction, PagerKey};
use rox::strutil::{contains_substring, int_to_string};
use rox::utils::split_head_from_rest;

#[test]
fn substring_search() {
    assert!(contains_substring("docker build {path}", "{path}"));
    assert!(contains_substring("abc", ""));
    assert!(contains_substring("", ""));
    assert!(!contains_substring("", "a"));
    assert!(!contains_substring("abc", "abcd"));
    assert!(contains_substring("aaab", "aab"));
    assert!(!contains_substring("aab", "aba"));
}

#[test]
fn integers_render_in_decimal() {
    assert_eq!(int_to_string(0), "0");
    assert_eq!(int_to_string(7), "7");
    assert_eq!(int_to_string(12345), "12345");
    assert_eq!(int_to_string(-9), "-9");
    assert_eq!(int_to_string(i64::MAX), "9223372036854775807");
    assert_eq!(int_to_string(i64::MIN), "-9223372036854775808");
}

#[test]
fn command_lines_split_on_spaces() {
    let (head, rest) = split_head_from_rest("cargo build --release");
    assert_eq!(head, "cargo");
    assert_eq!(rest, vec!["build".to_owned(), "--release".to_owned()]);

    let (head, rest) = split_head_from_rest("solo");
    assert_eq!(head, "solo");
    assert!(rest.is_empty());

    let (head, rest) = split_head_from_rest("a  b ");
    assert_eq!(head, "a");
    assert_eq!(rest, vec!["".to_owned(), "b".to_owned(), "".to_owned()]);
}

#[test]
fn step_status_labels() {
    assert_eq!(StepStatus::Success.message(), "Success");
    assert_eq!(StepStatus::Failed.message(), "Failed");
    assert_eq!(StepStatus::Skipped.message(), "Skipped");
    assert_eq!(StepStatus::InProgress.message(), "In Progress");
    assert_eq!(StepStatus::Cancelled.message(), "Cancelled");
    assert_eq!(StepStatus::Other.message(), "Other");
}

#[test]
fn elapsed_time_labels() {
    let finished = RunResult {
        name: "step".to_owned(),
        job: "job".to_owned(),
        status: StepStatus::Success,
        started_at: Some(100),
        ended_at: Some(142),
    };
    assert_eq!(finished.get_elapsed_time(), "42");

    let running = RunResult { ended_at: None, ..finished };
    assert_eq!(running.get_elapsed_time(), "N/A");
}

#[test]
fn pager_keybindings() {
    assert_eq!(pager_action(PagerKey::Up), PagerAction::Scroll(-1));
    assert_eq!(pager_action(PagerKey::LowerK), PagerAction::Scroll(-1));
    assert_eq!(pager_action(PagerKey::Down), PagerAction::Scroll(1));
    assert_eq!(pager_action(PagerKey::LowerJ), PagerAction::Scroll(1));
    assert_eq!(pager_action(PagerKey::LowerU), PagerAction::Scroll(-30));
    assert_eq!(pager_action(PagerKey::LowerD), PagerAction::Scroll(30));
    assert_eq!(pager_action(PagerKey::LowerG), PagerAction::Scroll(-100000));
    assert_eq!(pager_action(PagerKey::UpperG), PagerAction::Scroll(100000));
    assert_eq!(pager_action(PagerKey::LowerQ), PagerAction::Quit);
    assert_eq!(pager_action(PagerKey::Esc), PagerAction::Quit);
    assert_eq!(pager_action(PagerKey::Other), PagerAction::Ignore);
}

#[test]
fn legacy_builders_inject_file_path() {
    let task = rox::roxfile::Task {
        name: "t".to_owned(),
        command: Some("true".to_owned()),
        description: None,
        pre_tasks: None,
        post_tasks: None,
        file_path: None,
        symbols: None,
        substitutions: None,
        hide: None,
    };
    let built = rox::roxfile::task_builder(task, "file.yml".to_owned());
    assert_eq!(built.file_path.as_deref(), Some("file.yml"));
    assert_eq!(built.name, "t");

    let target = rox::syntax::Target {
        name: "t".to_owned(),
        command: None,
        description: None,
        pre_targets: None,
        post_targets: None,
        file_path: None,
    };
    let built = rox::syntax::target_builder(target, "file.yml".to_owned());
    assert_eq!(built.file_path.as_deref(), Some("file.yml"));
}
