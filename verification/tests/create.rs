use nannou_manager_core::config::Config;
use nannou_manager_core::create::{
    CreationAction, CreationEvent, CreationStage, ProjectCreation, STARTER_TEMPLATE,
};

fn config() -> Config {
    Config { projects_dir: "/p".into(), editor_cmd: "code".into() }
}

fn command_parts(a: &CreationAction) -> (String, Vec<String>, Option<String>) {
    match a {
        CreationAction::Run(c) => (c.program.clone(), c.args.clone(), c.cwd.clone()),
        other => panic!("expected a command, got {other:?}"),
    }
}

fn error_of(a: CreationAction) -> String {
    match a {
        CreationAction::Finish(Err(e)) => e,
        other => panic!("expected an error, got {other:?}"),
    }
}

#[test]
fn successful_creation_runs_every_step() {
    let (mut c, a) = ProjectCreation::start(&config(), "sketch");
    assert!(matches!(a, CreationAction::MakeDir(ref d) if d == "/p"));
    let a = c.step(CreationEvent::DirMade(Ok(())));
    assert!(matches!(a, CreationAction::CheckTarget(ref d) if d == "/p/sketch"));
    let a = c.step(CreationEvent::TargetChecked(false));
    assert_eq!(
        command_parts(&a),
        ("cargo".to_string(), vec!["new".to_string(), "sketch".to_string()], Some("/p".to_string()))
    );
    let a = c.step(CreationEvent::CommandEnded(Ok(true)));
    assert_eq!(
        command_parts(&a),
        ("cargo".to_string(), vec!["add".to_string(), "nannou".to_string()], Some("/p/sketch".to_string()))
    );
    let a = c.step(CreationEvent::CommandEnded(Ok(true)));
    match a {
        CreationAction::WriteFile { path, contents } => {
            assert_eq!(path, "/p/sketch/src/main.rs");
            assert_eq!(contents, STARTER_TEMPLATE);
        }
        other => panic!("expected a write, got {other:?}"),
    }
    let a = c.step(CreationEvent::MainWritten(Ok(())));
    assert!(matches!(a, CreationAction::Finish(Ok(()))));
    assert_eq!(c.current_stage(), CreationStage::Done);
}

#[test]
fn existing_project_is_refused() {
    let (mut c, _) = ProjectCreation::start(&config(), "taken");
    c.step(CreationEvent::DirMade(Ok(())));
    let a = c.step(CreationEvent::TargetChecked(true));
    assert_eq!(error_of(a), "Project 'taken' already exists");
    assert_eq!(c.current_stage(), CreationStage::Done);
}

#[test]
fn directory_failure_is_reported() {
    let (mut c, _) = ProjectCreation::start(&config(), "x");
    let a = c.step(CreationEvent::DirMade(Err("permission denied".into())));
    assert_eq!(error_of(a), "Could not create projects directory: permission denied");
}

#[test]
fn cargo_failures_are_reported() {
    let (mut c, _) = ProjectCreation::start(&config(), "x");
    c.step(CreationEvent::DirMade(Ok(())));
    c.step(CreationEvent::TargetChecked(false));
    assert_eq!(error_of(c.step(CreationEvent::CommandEnded(Ok(false)))), "cargo new failed");

    let (mut c, _) = ProjectCreation::start(&config(), "x");
    c.step(CreationEvent::DirMade(Ok(())));
    c.step(CreationEvent::TargetChecked(false));
    assert_eq!(
        error_of(c.step(CreationEvent::CommandEnded(Err("not found".into())))),
        "Failed to run cargo new: not found"
    );

    let (mut c, _) = ProjectCreation::start(&config(), "x");
    c.step(CreationEvent::DirMade(Ok(())));
    c.step(CreationEvent::TargetChecked(false));
    c.step(CreationEvent::CommandEnded(Ok(true)));
    assert_eq!(
        error_of(c.step(CreationEvent::CommandEnded(Ok(false)))),
        "cargo add nannou failed"
    );

    let (mut c, _) = ProjectCreation::start(&config(), "x");
    c.step(CreationEvent::DirMade(Ok(())));
    c.step(CreationEvent::TargetChecked(false));
    c.step(CreationEvent::CommandEnded(Ok(true)));
    assert_eq!(
        error_of(c.step(CreationEvent::CommandEnded(Err("gone".into())))),
        "Failed to run cargo add: gone"
    );
}

#[test]
fn write_failure_is_reported() {
    let (mut c, _) = ProjectCreation::start(&config(), "x");
    c.step(CreationEvent::DirMade(Ok(())));
    c.step(CreationEvent::TargetChecked(false));
    c.step(CreationEvent::CommandEnded(Ok(true)));
    c.step(CreationEvent::CommandEnded(Ok(true)));
    assert_eq!(
        error_of(c.step(CreationEvent::MainWritten(Err("disk full".into())))),
        "Failed to write main.rs: disk full"
    );
}

#[test]
fn expects_only_the_matching_event() {
    let (c, _) = ProjectCreation::start(&config(), "x");
    assert!(c.expects(&CreationEvent::DirMade(Ok(()))));
    assert!(!c.expects(&CreationEvent::TargetChecked(false)));
    assert!(!c.expects(&CreationEvent::MainWritten(Ok(()))));
}

#[test]
fn starter_template_is_a_nannou_app() {
    assert!(STARTER_TEMPLATE.starts_with("use nannou::prelude::*;"));
    assert!(STARTER_TEMPLATE.contains("nannou::app(model).update(update).run();"));
}
