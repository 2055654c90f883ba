//! Creating a new project: the sequence of filesystem checks and cargo
//! commands, and the decision taken after each one.
//!
//! The workflow is a state machine: `ProjectCreation::start` gives the first
//! action; the caller performs each action and reports its outcome to
//! `ProjectCreation::step`, which gives the next action, until a
//! `CreationAction::Finish`.

use vstd::prelude::*;
use crate::command::{cargo_command, CommandSpec};
use crate::config::{join, join_path, Config};
use crate::text::concat2;
use crate::text::concat3;

verus! {

/// The `src/main.rs` that every new project starts with: a nannou window
/// that draws an ellipse.
pub const STARTER_TEMPLATE: &'static str = r#"use nannou::prelude::*;

fn main() {
    nannou::app(model).update(update).run();
}

struct Model {}

fn model(app: &App) -> Model {
    app.new_window().view(view).build().unwrap();
    Model {}
}

fn update(_app: &App, _model: &mut Model, _update: Update) {}

fn view(app: &App, _model: &Model, frame: Frame) {
    let draw = app.draw();
    draw.background().color(PLUM);
    draw.ellipse().color(STEELBLUE);
    draw.to_frame(app, &frame).unwrap();
}
"#;

/// Where the creation workflow stands.
#[derive(Debug, Clone, Copy, PartialEq, Eq, Structural)]
pub enum CreationStage {
    /// Waiting for the projects directory to be created.
    MakingDir,
    /// Waiting to learn whether the project directory already exists.
    CheckingTarget,
    /// Waiting for `cargo new` to end.
    RunningCargoNew,
    /// Waiting for `cargo add nannou` to end.
    RunningCargoAdd,
    /// Waiting for the starter `src/main.rs` to be written.
    WritingMain,
    /// Finished.
    Done,
}

/// The outcome of the last action, as the caller observed it.
#[derive(Debug)]
pub enum CreationEvent {
    /// `create_dir_all` of the projects directory; the error's text on failure.
    DirMade(Result<(), String>),
    /// Whether the project directory exists already.
    TargetChecked(bool),
    /// A command ended with the given success (`Ok`), or could not be run
    /// (`Err`, with the error's text).
    CommandEnded(Result<bool, String>),
    /// Writing `src/main.rs`; the error's text on failure.
    MainWritten(Result<(), String>),
}

/// What the caller is to do next.
#[derive(Debug)]
pub enum CreationAction {
    /// Create `path` and all its missing parents.
    MakeDir(String),
    /// Find out whether `path` exists.
    CheckTarget(String),
    /// Run the command and wait for it to end.
    Run(CommandSpec),
    /// Write `contents` to the file at `path`.
    WriteFile { path: String, contents: String },
    /// The workflow is over, with this result.
    Finish(Result<(), String>),
}

/// The workflow ends with the error `msg`.
pub open spec fn fails_with(a: CreationAction, msg: Seq<char>) -> bool {
    a matches CreationAction::Finish(Err(m)) && m@ == msg
}

/// A creation of project `name` inside the projects directory.
pub struct ProjectCreation {
    projects_dir: String,
    name: String,
    project_path: String,
    stage: CreationStage,
}

impl ProjectCreation {
    #[verifier::type_invariant]
    spec fn inv(self) -> bool {
        self.project_path@ == join_path(self.projects_dir@, self.name@)
    }

    /// The projects directory.
    pub closed spec fn dir(self) -> Seq<char> {
        self.projects_dir@
    }

    /// The name of the project being created.
    pub closed spec fn project(self) -> Seq<char> {
        self.name@
    }

    /// The directory of the new project.
    pub open spec fn target(self) -> Seq<char> {
        join_path(self.dir(), self.project())
    }

    /// Where the workflow stands.
    pub closed spec fn stage(self) -> CreationStage {
        self.stage
    }

    /// The event that answers the action last handed out.
    pub open spec fn awaits(self, e: CreationEvent) -> bool {
        match self.stage() {
            CreationStage::MakingDir => e is DirMade,
            CreationStage::CheckingTarget => e is TargetChecked,
            CreationStage::RunningCargoNew => e is CommandEnded,
            CreationStage::RunningCargoAdd => e is CommandEnded,
            CreationStage::WritingMain => e is MainWritten,
            CreationStage::Done => false,
        }
    }

    /// Starts creating project `name` in `config.projects_dir`; the first
    /// action creates the projects directory.
    pub fn start(config: &Config, name: &str) -> (r: (ProjectCreation, CreationAction))
        ensures
            r.0.dir() == config.projects_dir@,
            r.0.project() == name@,
            r.0.stage() == CreationStage::MakingDir,
            r.1 matches CreationAction::MakeDir(p) && p@ == config.projects_dir@,
    {
        let dir = config.projects_dir.clone();
        let target = join(dir.as_str(), name);
        let c = ProjectCreation {
            projects_dir: dir,
            name: name.to_owned(),
            project_path: target,
            stage: CreationStage::MakingDir,
        };
        let a = CreationAction::MakeDir(config.projects_dir.clone());
        (c, a)
    }

    /// The stage the workflow is in.
    pub fn current_stage(&self) -> (s: CreationStage)
        ensures
            s == self.stage(),
    {
        self.stage
    }

    /// Whether `e` answers the action last handed out.
    pub fn expects(&self, e: &CreationEvent) -> (r: bool)
        ensures
            r == self.awaits(*e),
    {
        match self.stage {
            CreationStage::MakingDir => matches!(e, CreationEvent::DirMade(_)),
            CreationStage::CheckingTarget => matches!(e, CreationEvent::TargetChecked(_)),
            CreationStage::RunningCargoNew => matches!(e, CreationEvent::CommandEnded(_)),
            CreationStage::RunningCargoAdd => matches!(e, CreationEvent::CommandEnded(_)),
            CreationStage::WritingMain => matches!(e, CreationEvent::MainWritten(_)),
            CreationStage::Done => false,
        }
    }

    /// Takes the outcome of the last action and gives the next one.
    ///
    /// A failure of any step ends the workflow with its error; an existing
    /// project directory ends it before any command runs; after
    /// `cargo new <name>` (in the projects directory) and `cargo add nannou`
    /// (in the project) succeed, the starter `src/main.rs` is written.
    pub fn step(&mut self, e: CreationEvent) -> (a: CreationAction)
        requires
            old(self).awaits(e),
        ensures
            final(self).dir() == old(self).dir(),
            final(self).project() == old(self).project(),
            match (old(self).stage(), e) {
                (CreationStage::MakingDir, CreationEvent::DirMade(Err(err))) => {
                    &&& fails_with(a, "Could not create projects directory: "@ + err@)
                    &&& final(self).stage() == CreationStage::Done
                },
                (CreationStage::MakingDir, CreationEvent::DirMade(Ok(()))) => {
                    &&& a matches CreationAction::CheckTarget(p) && p@ == old(self).target()
                    &&& final(self).stage() == CreationStage::CheckingTarget
                },
                (CreationStage::CheckingTarget, CreationEvent::TargetChecked(exists)) => if exists {
                    &&& fails_with(a, "Project '"@ + old(self).project() + "' already exists"@)
                    &&& final(self).stage() == CreationStage::Done
                } else {
                    &&& a matches CreationAction::Run(c) && c.is(
                        "cargo"@,
                        seq!["new"@, old(self).project()],
                        Some(old(self).dir()),
                    )
                    &&& final(self).stage() == CreationStage::RunningCargoNew
                },
                (CreationStage::RunningCargoNew, CreationEvent::CommandEnded(Err(err))) => {
                    &&& fails_with(a, "Failed to run cargo new: "@ + err@)
                    &&& final(self).stage() == CreationStage::Done
                },
                (CreationStage::RunningCargoNew, CreationEvent::CommandEnded(Ok(success))) => if success {
                    &&& a matches CreationAction::Run(c) && c.is(
                        "cargo"@,
                        seq!["add"@, "nannou"@],
                        Some(old(self).target()),
                    )
                    &&& final(self).stage() == CreationStage::RunningCargoAdd
                } else {
                    &&& fails_with(a, "cargo new failed"@)
                    &&& final(self).stage() == CreationStage::Done
                },
                (CreationStage::RunningCargoAdd, CreationEvent::CommandEnded(Err(err))) => {
                    &&& fails_with(a, "Failed to run cargo add: "@ + err@)
                    &&& final(self).stage() == CreationStage::Done
                },
                (CreationStage::RunningCargoAdd, CreationEvent::CommandEnded(Ok(success))) => if success {
                    &&& a matches CreationAction::WriteFile { path, contents } && path@ == join_path(
                        old(self).target(),
                        "src/main.rs"@,
                    ) && contents@ == STARTER_TEMPLATE@
                    &&& final(self).stage() == CreationStage::WritingMain
                } else {
                    &&& fails_with(a, "cargo add nannou failed"@)
                    &&& final(self).stage() == CreationStage::Done
                },
                (CreationStage::WritingMain, CreationEvent::MainWritten(Err(err))) => {
                    &&& fails_with(a, "Failed to write main.rs: "@ + err@)
                    &&& final(self).stage() == CreationStage::Done
                },
                (CreationStage::WritingMain, CreationEvent::MainWritten(Ok(()))) => {
                    &&& a matches CreationAction::Finish(Ok(()))
                    &&& final(self).stage() == CreationStage::Done
                },
                _ => false,
            },
    {
        proof {
            use_type_invariant(&*self);
        }
        match (self.stage, e) {
            (CreationStage::MakingDir, CreationEvent::DirMade(Err(err))) => {
                self.stage = CreationStage::Done;
                CreationAction::Finish(Err(concat2("Could not create projects directory: ", err.as_str())))
            },
            (CreationStage::MakingDir, CreationEvent::DirMade(Ok(()))) => {
                self.stage = CreationStage::CheckingTarget;
                CreationAction::CheckTarget(self.project_path.clone())
            },
            (CreationStage::CheckingTarget, CreationEvent::TargetChecked(exists)) => {
                if exists {
                    self.stage = CreationStage::Done;
                    CreationAction::Finish(Err(concat3("Project '", self.name.as_str(), "' already exists")))
                } else {
                    self.stage = CreationStage::RunningCargoNew;
                    CreationAction::Run(cargo_command("new", self.name.as_str(), self.projects_dir.clone()))
                }
            },
            (CreationStage::RunningCargoNew, CreationEvent::CommandEnded(Err(err))) => {
                self.stage = CreationStage::Done;
                CreationAction::Finish(Err(concat2("Failed to run cargo new: ", err.as_str())))
            },
            (CreationStage::RunningCargoNew, CreationEvent::CommandEnded(Ok(success))) => {
                if success {
                    self.stage = CreationStage::RunningCargoAdd;
                    CreationAction::Run(cargo_command("add", "nannou", self.project_path.clone()))
                } else {
                    self.stage = CreationStage::Done;
                    CreationAction::Finish(Err("cargo new failed".to_owned()))
                }
            },
            (CreationStage::RunningCargoAdd, CreationEvent::CommandEnded(Err(err))) => {
                self.stage = CreationStage::Done;
                CreationAction::Finish(Err(concat2("Failed to run cargo add: ", err.as_str())))
            },
            (CreationStage::RunningCargoAdd, CreationEvent::CommandEnded(Ok(success))) => {
                if success {
                    self.stage = CreationStage::WritingMain;
                    CreationAction::WriteFile {
                        path: join(self.project_path.as_str(), "src/main.rs"),
                        contents: STARTER_TEMPLATE.to_owned(),
                    }
                } else {
                    self.stage = CreationStage::Done;
                    CreationAction::Finish(Err("cargo add nannou failed".to_owned()))
                }
            },
            (CreationStage::WritingMain, CreationEvent::MainWritten(Err(err))) => {
                self.stage = CreationStage::Done;
                CreationAction::Finish(Err(concat2("Failed to write main.rs: ", err.as_str())))
            },
            (CreationStage::WritingMain, CreationEvent::MainWritten(Ok(()))) => {
                self.stage = CreationStage::Done;
                CreationAction::Finish(Ok(()))
            },
            _ => vstd::pervasive::unreached(),
        }
    }
}

} // verus!
