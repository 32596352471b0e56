use rox::execution::run_task;
use rox::file_requirements::{check_file_exists, file_requirement_action, FileAction};
use rox::models::{PassFail, Task};
use rox::version_requirements::{compare_versions, try_compare_versions, VersionCheck};

/// Makes sure the named file exists in the working directory, through the
/// engine's own executor.
fn ensure_present(path: &str) {
    let task = Task {
        name: "setup".to_owned(),
        command: Some(format!("touch {}", path)),
        description: None,
        file_path: Some("test".to_owned()),
        uses: None,
        values: None,
        hide: None,
        workdir: None,
    };
    assert_eq!(run_task(&task, 0).result, PassFail::Pass);
}

#[test]
fn file_requirements_test_file_exists() {
    ensure_present("/tmp/Cargo.toml");
    assert!(check_file_exists("/tmp/Cargo.toml"));
}

#[test]
fn file_requirements_test_no_file_panics() {
    assert!(!check_file_exists("not_a_file"));
}

#[test]
fn files_requirements_test_file_exists() {
    ensure_present("/tmp/Cargo.toml");
    assert!(check_file_exists("/tmp/Cargo.toml"));
}

#[test]
fn requirement_action_cases() {
    assert_eq!(file_requirement_action(true, None), FileAction::Nothing);
    assert_eq!(file_requirement_action(true, Some(true)), FileAction::Nothing);
    assert_eq!(file_requirement_action(false, Some(true)), FileAction::Create);
    assert_eq!(file_requirement_action(false, Some(false)), FileAction::Create);
    assert_eq!(file_requirement_action(false, None), FileAction::Abort);
}

#[test]
fn valid_version() {
    let result = compare_versions(
        "2.2.7".to_string(),
        Some("1.2.4".to_string()),
        Some("2.2.8".to_string()),
    );
    assert_eq!(result, VersionCheck::Valid)
}

#[test]
fn under_min_version() {
    let result = compare_versions("1.2.3".to_string(), Some("1.2.4".to_string()), None);
    assert_eq!(result, VersionCheck::BelowMin)
}

#[test]
fn over_max_version() {
    let result = compare_versions(
        "2.2.7".to_string(),
        Some("1.2.4".to_string()),
        Some("1.2.8".to_string()),
    );
    assert_eq!(result, VersionCheck::AboveMax)
}

#[test]
fn unparseable_version_is_rejected() {
    assert!(try_compare_versions("not a version".to_string(), None, None).is_none());
    assert_eq!(
        try_compare_versions("2.0.0".to_string(), Some("1.0.0".to_string()), None),
        Some(VersionCheck::Valid)
    );
}
