use rox::models::{Pipeline, RoxFile, Task, Template};

fn literal_task(name: &str, command: &str) -> Task {
    Task {
        name: name.to_owned(),
        command: Some(command.to_owned()),
        description: None,
        file_path: None,
        uses: None,
        values: None,
        hide: None,
        workdir: None,
    }
}

fn template_task(name: &str, uses: &str, values: Vec<&str>) -> Task {
    Task {
        name: name.to_owned(),
        command: None,
        description: None,
        file_path: None,
        uses: Some(uses.to_owned()),
        values: Some(values.into_iter().map(|v| v.to_owned()).collect()),
        hide: None,
        workdir: None,
    }
}

fn docker_template() -> Template {
    Template {
        name: "docker".to_owned(),
        command: "docker build {path}".to_owned(),
        symbols: vec!["{path}".to_owned()],
    }
}

#[test]
fn resolve_expands_and_sorts() {
    let roxfile = RoxFile {
        ci: None,
        docs: None,
        tasks: vec![
            literal_task("zeta", "echo z"),
            template_task("Build", "docker", vec!["./src"]),
        ],
        pipelines: Some(vec![
            Pipeline {
                name: "second".to_owned(),
                description: None,
                stages: vec![vec!["zeta".to_owned()]],
                file_path: None,
            },
            Pipeline {
                name: "First".to_owned(),
                description: None,
                stages: vec![vec!["Build".to_owned()]],
                file_path: None,
            },
        ]),
        templates: Some(vec![docker_template()]),
    };
    let resolved = roxfile.resolve("rox.yml").expect("resolution failed");

    let names: Vec<String> = resolved.tasks.iter().map(|t| t.name.clone()).collect();
    assert_eq!(names, vec!["Build".to_owned(), "zeta".to_owned()]);
    assert_eq!(resolved.tasks[0].command.as_deref(), Some("docker build ./src"));
    assert_eq!(resolved.tasks[1].command.as_deref(), Some("echo z"));
    for t in &resolved.tasks {
        assert_eq!(t.file_path.as_deref(), Some("rox.yml"));
    }
    let pipelines = resolved.pipelines.unwrap();
    assert_eq!(pipelines[0].name, "First");
    assert_eq!(pipelines[1].name, "second");
}

#[test]
fn resolve_rejects_invalid_task() {
    let mut bad = literal_task("bad", "echo");
    bad.command = None;
    let roxfile = RoxFile {
        ci: None,
        docs: None,
        tasks: vec![bad],
        pipelines: None,
        templates: None,
    };
    let err = roxfile.resolve("rox.yml").unwrap_err();
    assert_eq!(err.message, "A Task must implement either 'command' or 'uses'!");
}

#[test]
fn resolve_rejects_invalid_template() {
    let broken = Template {
        name: "docker".to_owned(),
        command: "docker build".to_owned(),
        symbols: vec!["{path}".to_owned()],
    };
    let roxfile = RoxFile {
        ci: None,
        docs: None,
        tasks: vec![literal_task("a", "true")],
        pipelines: None,
        templates: Some(vec![broken]),
    };
    let err = roxfile.resolve("rox.yml").unwrap_err();
    assert_eq!(err.message, "A Template's 'symbols' must all exist within its 'command'!");
}

#[test]
fn resolve_rejects_missing_template() {
    let roxfile = RoxFile {
        ci: None,
        docs: None,
        tasks: vec![template_task("a", "ghost", vec!["x"])],
        pipelines: None,
        templates: Some(vec![docker_template()]),
    };
    let err = roxfile.resolve("rox.yml").unwrap_err();
    assert_eq!(err.message, "A Task's 'uses' must name an existing Template!");
}

#[test]
fn resolve_rejects_wrong_value_count() {
    let roxfile = RoxFile {
        ci: None,
        docs: None,
        tasks: vec![template_task("a", "docker", vec!["x", "y"])],
        pipelines: None,
        templates: Some(vec![docker_template()]),
    };
    let err = roxfile.resolve("rox.yml").unwrap_err();
    assert_eq!(err.message, "A Task's 'values' must match its Template's 'symbols'!");
}
