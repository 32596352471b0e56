use rox::model_injection::{inject_pipeline_metadata, inject_task_metadata, inject_template_values};
use rox::models::{Pipeline, Task, Template};

fn task_with_values(values: Vec<&str>) -> Task {
    Task {
        name: "Test".to_string(),
        command: None,
        file_path: None,
        uses: None,
        values: Some(values.into_iter().map(|v| v.to_owned()).collect()),
        description: None,
        hide: None,
        workdir: None,
    }
}

#[test]
fn model_injection_inject_template_values_valid() {
    let test_task = task_with_values(vec!["1", "2"]);
    let test_template = Template {
        name: "Test".to_string(),
        command: "This is {one} and {two}".to_owned(),
        symbols: vec!["{one}".to_owned(), "{two}".to_owned()],
    };
    let output_task = inject_template_values(test_task, &test_template);
    assert_eq!(output_task.command.unwrap(), "This is 1 and 2".to_owned())
}

#[test]
fn expansion_is_order_sensitive() {
    // The first pass replaces every "{a}"; the second pass then sees the
    // "{b}" text the first pass injected and replaces it too.  Exactly
    // two passes happen: the injected "2" is never rewritten further.
    let task = task_with_values(vec!["{b}", "2"]);
    let template = Template {
        name: "T".to_string(),
        command: "X {a} Y {b}".to_owned(),
        symbols: vec!["{a}".to_owned(), "{b}".to_owned()],
    };
    let out = inject_template_values(task, &template);
    assert_eq!(out.command.unwrap(), "X 2 Y 2".to_owned());
}

#[test]
fn expansion_replaces_every_occurrence() {
    let task = task_with_values(vec!["z"]);
    let template = Template {
        name: "T".to_string(),
        command: "{s} and {s} and {s}".to_owned(),
        symbols: vec!["{s}".to_owned()],
    };
    let out = inject_template_values(task, &template);
    assert_eq!(out.command.unwrap(), "z and z and z".to_owned());
}

#[test]
fn task_metadata_sorts_case_insensitively_and_defaults() {
    let mk = |name: &str, description: Option<&str>| Task {
        name: name.to_owned(),
        command: Some(format!("echo {}", name)),
        description: description.map(|d| d.to_owned()),
        file_path: None,
        uses: None,
        values: None,
        hide: None,
        workdir: None,
    };
    let tasks = vec![mk("beta", None), mk("Alpha", Some("kept")), mk("ALPHA2", None)];
    let injected = inject_task_metadata(tasks, "rox.yml");

    let names: Vec<String> = injected.iter().map(|t| t.name.clone()).collect();
    assert_eq!(names, vec!["Alpha".to_owned(), "ALPHA2".to_owned(), "beta".to_owned()]);
    for t in &injected {
        assert_eq!(t.file_path.as_deref(), Some("rox.yml"));
    }
    assert_eq!(injected[0].description.as_deref(), Some("kept"));
    assert_eq!(injected[1].description.as_deref(), Some("echo ALPHA2"));
    assert_eq!(injected[2].description.as_deref(), Some("echo beta"));
}

#[test]
fn pipeline_metadata_sorts_and_tags() {
    let mk = |name: &str| Pipeline {
        name: name.to_owned(),
        description: None,
        stages: vec![vec![name.to_owned()]],
        file_path: None,
    };
    let pipelines = vec![mk("deploy"), mk("Build"), mk("check")];
    let injected = inject_pipeline_metadata(pipelines, "rox.yml");
    let names: Vec<String> = injected.iter().map(|p| p.name.clone()).collect();
    assert_eq!(names, vec!["Build".to_owned(), "check".to_owned(), "deploy".to_owned()]);
    for p in &injected {
        assert_eq!(p.file_path.as_deref(), Some("rox.yml"));
    }
}
