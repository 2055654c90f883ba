//! Building and launching a project from the desktop app: reading cargo's
//! JSON messages while the build runs, deciding the outcome once it ends,
//! and the result reported to the user interface.

use vstd::prelude::*;
use crate::command::{texts, CommandSpec};
use crate::text::{concat2, opt_view, text_eq};

verus! {

broadcast use vstd::string::group_string_axioms;

/// The `reason` and `executable` strings of one line of cargo's
/// `--message-format=json` output, as `serde_json` reads them: `None` when
/// the line is not JSON; inside, `None` for a field that is missing or not a
/// string.
pub uninterp spec fn cargo_message_fields(line: Seq<char>) -> Option<(Option<Seq<char>>, Option<Seq<char>>)>;

/// The fields of a cargo JSON message that the build monitor reads.
#[derive(Debug, Clone)]
pub struct CargoMessage {
    /// The `reason` field.
    pub reason: Option<String>,
    /// The `executable` field.
    pub executable: Option<String>,
}

/// The view of a parsed line.
pub open spec fn message_view(m: Option<CargoMessage>) -> Option<(Option<Seq<char>>, Option<Seq<char>>)> {
    match m {
        Some(msg) => Some((opt_view(msg.reason), opt_view(msg.executable))),
        None => None,
    }
}

/// Parses one line of cargo's JSON output with `serde_json::from_str` into a
/// `serde_json::Value` and reads its `reason` and `executable` strings
/// (`Value` indexing and `Value::as_str`). The contract claims only that the
/// result is `cargo_message_fields` of the line.
#[verifier::external_body]
fn parse_cargo_message(line: &str) -> (m: Option<CargoMessage>)
    ensures
        message_view(m) == cargo_message_fields(line@),
{
    match serde_json::from_str::<serde_json::Value>(line) {
        Ok(v) => Some(CargoMessage {
            reason: v["reason"].as_str().map(String::from),
            executable: v["executable"].as_str().map(String::from),
        }),
        Err(_) => None,
    }
}

/// The message reports a finished compiler artifact.
pub open spec fn reports_artifact(f: Option<(Option<Seq<char>>, Option<Seq<char>>)>) -> bool {
    f matches Some((Some(reason), _)) && reason == "compiler-artifact"@
}

/// The non-empty executable path that an artifact message names, if any.
pub open spec fn artifact_executable(f: Option<(Option<Seq<char>>, Option<Seq<char>>)>) -> Option<Seq<char>> {
    match f {
        Some((_, Some(exe))) => if exe.len() > 0 { Some(exe) } else { None },
        _ => None,
    }
}

/// What a build has produced so far.
#[derive(Debug, Clone)]
pub struct BuildProgress {
    /// The number of compiler artifacts reported.
    pub artifacts: usize,
    /// The executable of the last artifact that named one.
    pub executable: Option<String>,
}

impl BuildProgress {
    /// Nothing built yet.
    pub fn new() -> (p: BuildProgress)
        ensures
            p.artifacts == 0,
            p.executable is None,
    {
        BuildProgress { artifacts: 0, executable: None }
    }

    /// `self` after a message with fields `f`.
    pub open spec fn after(self, f: Option<(Option<Seq<char>>, Option<Seq<char>>)>, next: BuildProgress) -> bool {
        if reports_artifact(f) {
            &&& next.artifacts == self.artifacts + 1
            &&& opt_view(next.executable) == match artifact_executable(f) {
                Some(e) => Some(e),
                None => opt_view(self.executable),
            }
        } else {
            &&& next.artifacts == self.artifacts
            &&& next.executable == self.executable
        }
    }

    /// Takes in one parsed message: an artifact message counts one more
    /// artifact, whose count is to be reported (`Some`), and a non-empty
    /// `executable` in it becomes the build's executable.
    pub fn observe_message(&mut self, m: Option<CargoMessage>) -> (report: Option<usize>)
        requires
            old(self).artifacts < usize::MAX,
        ensures
            old(self).after(message_view(m), *final(self)),
            report == if reports_artifact(message_view(m)) {
                Some(final(self).artifacts)
            } else {
                None
            },
    {
        match m {
            Some(msg) => {
                let is_artifact = match &msg.reason {
                    Some(r) => text_eq(r.as_str(), "compiler-artifact"),
                    None => false,
                };
                if is_artifact {
                    self.artifacts = self.artifacts + 1;
                    match msg.executable {
                        Some(exe) => {
                            if !exe.as_str().is_empty() {
                                self.executable = Some(exe);
                            }
                        },
                        None => {},
                    }
                    Some(self.artifacts)
                } else {
                    None
                }
            },
            None => None,
        }
    }

    /// Takes in one line of cargo's JSON output.
    pub fn observe_line(&mut self, line: &str) -> (report: Option<usize>)
        requires
            old(self).artifacts < usize::MAX,
        ensures
            old(self).after(cargo_message_fields(line@), *final(self)),
            report == if reports_artifact(cargo_message_fields(line@)) {
                Some(final(self).artifacts)
            } else {
                None
            },
    {
        let m = parse_cargo_message(line);
        self.observe_message(m)
    }
}

/// The error with which a build stopped by the user ends.
pub open spec fn cancelled_text() -> Seq<char> {
    "Compilation cancelled"@
}

/// Where a build-and-run stands.
#[derive(Debug, Clone, Copy, PartialEq, Eq, Structural)]
pub enum CompileStage {
    /// Waiting for `cargo build` to start.
    Starting,
    /// Reading the build's output.
    Reading,
    /// Waiting for `cargo build` to exit.
    Waiting,
    /// Waiting for the built program to start.
    Launching,
    /// Finished.
    Done,
}

/// The outcome of the last action, as the caller observed it.
#[derive(Debug)]
pub enum CompileEvent {
    /// Starting `cargo build`; the error's text on failure.
    BuildStarted(Result<(), String>),
    /// One line of the build's standard output.
    OutputLine(String),
    /// The build's output ended; whether the build is still registered (it
    /// is not when the user stopped it).
    OutputClosed(bool),
    /// The build exited with the given success (`Ok`), or waiting for it
    /// failed (`Err`, with the error's text).
    BuildExited(Result<bool, String>),
    /// Starting the built program; the error's text on failure.
    Launched(Result<(), String>),
}

/// What the caller is to do next.
#[derive(Debug)]
pub enum CompileAction {
    /// Start the build and register it under the project's name.
    StartBuild(CommandSpec),
    /// Read the next line of output, first reporting this artifact count if
    /// there is one.
    ReadOutput(Option<usize>),
    /// Take the build back from the registry and wait for it to exit.
    WaitBuild,
    /// Start the built program and register it as running.
    Launch(CommandSpec),
    /// The build-and-run is over, with this result.
    Finish(Result<(), String>),
}

/// The build-and-run ends with the error `msg`.
pub open spec fn compile_fails_with(a: CompileAction, msg: Seq<char>) -> bool {
    a matches CompileAction::Finish(Err(m)) && m@ == msg
}

/// Building project `path` in release mode and running what it produces.
pub struct CompileRun {
    path: String,
    progress: BuildProgress,
    stage: CompileStage,
}

impl CompileRun {
    /// The project's directory.
    pub closed spec fn dir(self) -> Seq<char> {
        self.path@
    }

    /// What the build has produced so far.
    pub closed spec fn built(self) -> BuildProgress {
        self.progress
    }

    /// Where the build-and-run stands.
    pub closed spec fn stage(self) -> CompileStage {
        self.stage
    }

    /// The event that answers the action last handed out.
    pub open spec fn awaits(self, e: CompileEvent) -> bool {
        match self.stage() {
            CompileStage::Starting => e is BuildStarted,
            CompileStage::Reading => e is OutputLine || e is OutputClosed,
            CompileStage::Waiting => e is BuildExited,
            CompileStage::Launching => e is Launched,
            CompileStage::Done => false,
        }
    }

    /// Starts building the project in `path`: the first action runs
    /// `cargo build --release --message-format=json` there.
    pub fn start(path: &str) -> (r: (CompileRun, CompileAction))
        ensures
            r.0.dir() == path@,
            r.0.stage() == CompileStage::Starting,
            r.0.built().artifacts == 0,
            r.0.built().executable is None,
            r.1 matches CompileAction::StartBuild(c) && c.is(
                "cargo"@,
                seq!["build"@, "--release"@, "--message-format=json"@],
                Some(path@),
            ),
    {
        let args: Vec<String> = vec!["build".to_owned(), "--release".to_owned(), "--message-format=json".to_owned()];
        let c = CommandSpec { program: "cargo".to_owned(), args, cwd: Some(path.to_owned()) };
        assert(texts(c.args@) =~= seq!["build"@, "--release"@, "--message-format=json"@]);
        let run = CompileRun { path: path.to_owned(), progress: BuildProgress::new(), stage: CompileStage::Starting };
        (run, CompileAction::StartBuild(c))
    }

    /// Whether `e` answers the action last handed out.
    pub fn expects(&self, e: &CompileEvent) -> (r: bool)
        ensures
            r == self.awaits(*e),
    {
        match self.stage {
            CompileStage::Starting => matches!(e, CompileEvent::BuildStarted(_)),
            CompileStage::Reading => matches!(e, CompileEvent::OutputLine(_)) || matches!(e, CompileEvent::OutputClosed(_)),
            CompileStage::Waiting => matches!(e, CompileEvent::BuildExited(_)),
            CompileStage::Launching => matches!(e, CompileEvent::Launched(_)),
            CompileStage::Done => false,
        }
    }

    /// The number of artifacts reported so far.
    pub fn artifacts(&self) -> (n: usize)
        ensures
            n == self.built().artifacts,
    {
        self.progress.artifacts
    }

    /// Takes the outcome of the last action and gives the next one.
    ///
    /// Each line of output is read as a cargo message; when the output ends
    /// and the build is no longer registered, the user stopped it; a build
    /// that exits successfully is followed by running the executable of its
    /// last artifact.
    pub fn step(&mut self, e: CompileEvent) -> (a: CompileAction)
        requires
            old(self).awaits(e),
            old(self).built().artifacts < usize::MAX,
        ensures
            final(self).dir() == old(self).dir(),
            match (old(self).stage(), e) {
                (CompileStage::Starting, CompileEvent::BuildStarted(Err(err))) => {
                    &&& compile_fails_with(a, "Failed to start cargo build: "@ + err@)
                    &&& final(self).stage() == CompileStage::Done
                },
                (CompileStage::Starting, CompileEvent::BuildStarted(Ok(()))) => {
                    &&& a matches CompileAction::ReadOutput(None)
                    &&& final(self).stage() == CompileStage::Reading
                    &&& final(self).built() == old(self).built()
                },
                (CompileStage::Reading, CompileEvent::OutputLine(line)) => {
                    &&& old(self).built().after(cargo_message_fields(line@), final(self).built())
                    &&& a matches CompileAction::ReadOutput(report) && report == if reports_artifact(
                        cargo_message_fields(line@),
                    ) {
                        Some(final(self).built().artifacts)
                    } else {
                        None
                    }
                    &&& final(self).stage() == CompileStage::Reading
                },
                (CompileStage::Reading, CompileEvent::OutputClosed(registered)) => if registered {
                    &&& a matches CompileAction::WaitBuild
                    &&& final(self).stage() == CompileStage::Waiting
                    &&& final(self).built() == old(self).built()
                } else {
                    &&& compile_fails_with(a, cancelled_text())
                    &&& final(self).stage() == CompileStage::Done
                },
                (CompileStage::Waiting, CompileEvent::BuildExited(Err(err))) => {
                    &&& compile_fails_with(a, "cargo build error: "@ + err@)
                    &&& final(self).stage() == CompileStage::Done
                },
                (CompileStage::Waiting, CompileEvent::BuildExited(Ok(success))) => if !success {
                    &&& compile_fails_with(a, "Compilation failed"@)
                    &&& final(self).stage() == CompileStage::Done
                } else {
                    match old(self).built().executable {
                        None => {
                            &&& compile_fails_with(a, "Could not locate compiled binary"@)
                            &&& final(self).stage() == CompileStage::Done
                        },
                        Some(exe) => {
                            &&& a matches CompileAction::Launch(c) && c.is(exe@, seq![], Some(old(self).dir()))
                            &&& final(self).stage() == CompileStage::Launching
                        },
                    }
                },
                (CompileStage::Launching, CompileEvent::Launched(Err(err))) => {
                    &&& compile_fails_with(a, "Failed to launch project: "@ + err@)
                    &&& final(self).stage() == CompileStage::Done
                },
                (CompileStage::Launching, CompileEvent::Launched(Ok(()))) => {
                    &&& a matches CompileAction::Finish(Ok(()))
                    &&& final(self).stage() == CompileStage::Done
                },
                _ => false,
            },
    {
        match (self.stage, e) {
            (CompileStage::Starting, CompileEvent::BuildStarted(Err(err))) => {
                self.stage = CompileStage::Done;
                CompileAction::Finish(Err(concat2("Failed to start cargo build: ", err.as_str())))
            },
            (CompileStage::Starting, CompileEvent::BuildStarted(Ok(()))) => {
                self.stage = CompileStage::Reading;
                CompileAction::ReadOutput(None)
            },
            (CompileStage::Reading, CompileEvent::OutputLine(line)) => {
                let report = self.progress.observe_line(line.as_str());
                CompileAction::ReadOutput(report)
            },
            (CompileStage::Reading, CompileEvent::OutputClosed(registered)) => {
                if registered {
                    self.stage = CompileStage::Waiting;
                    CompileAction::WaitBuild
                } else {
                    self.stage = CompileStage::Done;
                    CompileAction::Finish(Err("Compilation cancelled".to_owned()))
                }
            },
            (CompileStage::Waiting, CompileEvent::BuildExited(Err(err))) => {
                self.stage = CompileStage::Done;
                CompileAction::Finish(Err(concat2("cargo build error: ", err.as_str())))
            },
            (CompileStage::Waiting, CompileEvent::BuildExited(Ok(success))) => {
                if !success {
                    self.stage = CompileStage::Done;
                    CompileAction::Finish(Err("Compilation failed".to_owned()))
                } else {
                    match &self.progress.executable {
                        None => {
                            self.stage = CompileStage::Done;
                            CompileAction::Finish(Err("Could not locate compiled binary".to_owned()))
                        },
                        Some(exe) => {
                            let args: Vec<String> = Vec::new();
                            let c = CommandSpec { program: exe.clone(), args, cwd: Some(self.path.clone()) };
                            assert(texts(c.args@) =~= Seq::<Seq<char>>::empty());
                            self.stage = CompileStage::Launching;
                            CompileAction::Launch(c)
                        },
                    }
                }
            },
            (CompileStage::Launching, CompileEvent::Launched(Err(err))) => {
                self.stage = CompileStage::Done;
                CompileAction::Finish(Err(concat2("Failed to launch project: ", err.as_str())))
            },
            (CompileStage::Launching, CompileEvent::Launched(Ok(()))) => {
                self.stage = CompileStage::Done;
                CompileAction::Finish(Ok(()))
            },
            _ => vstd::pervasive::unreached(),
        }
    }
}

/// Sent to the user interface each time the build reports an artifact.
#[derive(Debug, Clone)]
pub struct CompileProgress {
    pub name: String,
    pub artifacts: usize,
}

/// Sent to the user interface when a build-and-run is over.
#[derive(Debug, Clone)]
pub struct CompileResult {
    pub name: String,
    pub success: bool,
    pub cancelled: bool,
    pub error: Option<String>,
}

/// The report of a build-and-run of project `name` that ended with
/// `result`: a stopped build counts as cancelled and carries no error; any
/// other failure carries its error.
pub fn compile_result(name: String, result: Result<(), String>) -> (r: CompileResult)
    ensures
        r.name == name,
        r.success == (result is Ok),
        r.cancelled == (result matches Err(e) && e@ == cancelled_text()),
        r.error == match result {
            Ok(()) => None,
            Err(e) => if e@ == cancelled_text() { None } else { Some(e) },
        },
{
    match result {
        Ok(()) => CompileResult { name, success: true, cancelled: false, error: None },
        Err(e) => {
            let cancelled = text_eq(e.as_str(), "Compilation cancelled");
            CompileResult {
                name,
                success: false,
                cancelled,
                error: if cancelled { None } else { Some(e) },
            }
        },
    }
}

} // verus!
