use nannou_manager_core::compile::{
    compile_result, BuildProgress, CargoMessage, CompileAction, CompileEvent, CompileProgress,
    CompileRun,
};

#[test]
fn compile_progress_serializes_to_expected_shape() {
    let p = CompileProgress { name: "demo".into(), artifacts: 7 };
    assert_eq!(p.name, "demo");
    assert_eq!(p.artifacts, 7);
}

#[test]
fn compile_result_success_has_null_error() {
    let r = compile_result("demo".into(), Ok(()));
    assert_eq!(r.name, "demo");
    assert!(r.success);
    assert!(!r.cancelled);
    assert!(r.error.is_none());
}

#[test]
fn compile_result_cancelled_carries_flag() {
    let r = compile_result("demo".into(), Err("Compilation cancelled".into()));
    assert!(r.cancelled);
    assert!(!r.success);
    assert!(r.error.is_none());
}

#[test]
fn compile_result_failure_carries_error_message() {
    let r = compile_result("demo".into(), Err("Compilation failed".into()));
    assert_eq!(r.error.as_deref(), Some("Compilation failed"));
    assert!(!r.cancelled);
    assert!(!r.success);
}

#[test]
fn artifact_lines_are_counted() {
    let mut p = BuildProgress::new();
    assert_eq!(
        p.observe_line(r#"{"reason":"compiler-artifact","executable":null}"#),
        Some(1)
    );
    assert_eq!(p.observe_line(r#"{"reason":"build-script-executed"}"#), None);
    assert_eq!(p.observe_line("not json at all"), None);
    assert_eq!(p.observe_line(r#"["compiler-artifact"]"#), None);
    assert_eq!(
        p.observe_line(r#"{"reason":"compiler-artifact","executable":"/t/release/app"}"#),
        Some(2)
    );
    assert_eq!(
        p.observe_line(r#"{"reason":"compiler-artifact","executable":""}"#),
        Some(3)
    );
    assert_eq!(p.artifacts, 3);
    assert_eq!(p.executable.as_deref(), Some("/t/release/app"));
    assert_eq!(p.observe_line(r#"{"reason":"build-finished","success":true}"#), None);
    assert_eq!(p.artifacts, 3);
}

#[test]
fn executable_of_non_artifact_is_ignored() {
    let mut p = BuildProgress::new();
    let report = p.observe_message(Some(CargoMessage {
        reason: Some("compiler-message".into()),
        executable: Some("/x".into()),
    }));
    assert_eq!(report, None);
    assert!(p.executable.is_none());
    assert_eq!(p.artifacts, 0);
}

fn start(path: &str) -> CompileRun {
    let (run, action) = CompileRun::start(path);
    match action {
        CompileAction::StartBuild(c) => {
            assert_eq!(c.program, "cargo");
            assert_eq!(c.args, vec!["build", "--release", "--message-format=json"]);
            assert_eq!(c.cwd.as_deref(), Some(path));
        }
        other => panic!("unexpected {other:?}"),
    }
    run
}

fn error_of(a: CompileAction) -> String {
    match a {
        CompileAction::Finish(Err(e)) => e,
        other => panic!("expected an error, got {other:?}"),
    }
}

#[test]
fn build_then_launch() {
    let mut run = start("/p/demo");
    assert!(matches!(run.step(CompileEvent::BuildStarted(Ok(()))), CompileAction::ReadOutput(None)));
    let a = run.step(CompileEvent::OutputLine(
        r#"{"reason":"compiler-artifact","executable":"/p/demo/target/release/demo"}"#.into(),
    ));
    assert!(matches!(a, CompileAction::ReadOutput(Some(1))));
    assert!(matches!(run.step(CompileEvent::OutputClosed(true)), CompileAction::WaitBuild));
    match run.step(CompileEvent::BuildExited(Ok(true))) {
        CompileAction::Launch(c) => {
            assert_eq!(c.program, "/p/demo/target/release/demo");
            assert!(c.args.is_empty());
            assert_eq!(c.cwd.as_deref(), Some("/p/demo"));
        }
        other => panic!("unexpected {other:?}"),
    }
    assert!(matches!(run.step(CompileEvent::Launched(Ok(()))), CompileAction::Finish(Ok(()))));
}

#[test]
fn stopped_build_is_cancelled() {
    let mut run = start("/p");
    run.step(CompileEvent::BuildStarted(Ok(())));
    assert_eq!(error_of(run.step(CompileEvent::OutputClosed(false))), "Compilation cancelled");
}

#[test]
fn build_failures_are_reported() {
    let mut run = start("/p");
    assert_eq!(
        error_of(run.step(CompileEvent::BuildStarted(Err("no cargo".into())))),
        "Failed to start cargo build: no cargo"
    );

    let mut run = start("/p");
    run.step(CompileEvent::BuildStarted(Ok(())));
    run.step(CompileEvent::OutputClosed(true));
    assert_eq!(error_of(run.step(CompileEvent::BuildExited(Ok(false)))), "Compilation failed");

    let mut run = start("/p");
    run.step(CompileEvent::BuildStarted(Ok(())));
    run.step(CompileEvent::OutputClosed(true));
    assert_eq!(
        error_of(run.step(CompileEvent::BuildExited(Err("interrupted".into())))),
        "cargo build error: interrupted"
    );

    let mut run = start("/p");
    run.step(CompileEvent::BuildStarted(Ok(())));
    run.step(CompileEvent::OutputClosed(true));
    assert_eq!(
        error_of(run.step(CompileEvent::BuildExited(Ok(true)))),
        "Could not locate compiled binary"
    );

    let mut run = start("/p");
    run.step(CompileEvent::BuildStarted(Ok(())));
    run.step(CompileEvent::OutputLine(r#"{"reason":"compiler-artifact","executable":"/bin/x"}"#.into()));
    run.step(CompileEvent::OutputClosed(true));
    run.step(CompileEvent::BuildExited(Ok(true)));
    assert_eq!(
        error_of(run.step(CompileEvent::Launched(Err("denied".into())))),
        "Failed to launch project: denied"
    );
}
