//! Descriptions of the external commands the manager runs, and the error
//! messages reported when one cannot be started.

use vstd::prelude::*;
use crate::text::{concat2, concat4, opt_view};

verus! {

/// A process to start: the program, its arguments and the directory to run
/// it in (`None`: the current one).
#[derive(Debug, Clone)]
pub struct CommandSpec {
    pub program: String,
    pub args: Vec<String>,
    pub cwd: Option<String>,
}

/// The views of a list of strings.
pub open spec fn texts(v: Seq<String>) -> Seq<Seq<char>> {
    v.map_values(|s: String| s@)
}

impl CommandSpec {
    /// `program` run with `args` in `cwd`.
    pub open spec fn is(self, program: Seq<char>, args: Seq<Seq<char>>, cwd: Option<Seq<char>>) -> bool {
        &&& self.program@ == program
        &&& texts(self.args@) == args
        &&& opt_view(self.cwd) == cwd
    }
}

/// `cargo <a> <b>` in `cwd`.
pub fn cargo_command(a: &str, b: &str, cwd: String) -> (c: CommandSpec)
    ensures
        c.is("cargo"@, seq![a@, b@], Some(cwd@)),
{
    let args: Vec<String> = vec![a.to_owned(), b.to_owned()];
    let c = CommandSpec { program: "cargo".to_owned(), args, cwd: Some(cwd) };
    assert(texts(c.args@) =~= seq![a@, b@]);
    c
}

/// The command that runs a project: `cargo run --release` in its directory.
pub fn run_project_command(path: &str) -> (c: CommandSpec)
    ensures
        c.is("cargo"@, seq!["run"@, "--release"@], Some(path@)),
{
    cargo_command("run", "--release", path.to_owned())
}

/// The command that opens a project in the editor: `<editor> <path>`.
pub fn editor_command(editor: &str, path: &str) -> (c: CommandSpec)
    ensures
        c.is(editor@, seq![path@], None),
{
    let args: Vec<String> = vec![path.to_owned()];
    let c = CommandSpec { program: editor.to_owned(), args, cwd: None };
    assert(texts(c.args@) =~= seq![path@]);
    c
}

/// The error reported when a project cannot be started.
pub fn spawn_failed_message(err: &str) -> (m: String)
    ensures
        m@ == "Failed to spawn project: "@ + err@,
{
    concat2("Failed to spawn project: ", err)
}

/// The error reported when the editor cannot be started.
pub fn editor_failed_message(editor: &str, err: &str) -> (m: String)
    ensures
        m@ == "Failed to open editor '"@ + editor@ + "': "@ + err@,
{
    concat4("Failed to open editor '", editor, "': ", err)
}

/// The error reported for a name that matches no project.
pub fn project_not_found_message(name: &str) -> (m: String)
    ensures
        m@ == "Project '"@ + name@ + "' not found"@,
{
    crate::text::concat3("Project '", name, "' not found")
}

/// The error reported for a name that matches no project in `dir`.
pub fn project_not_found_in_message(name: &str, dir: &str) -> (m: String)
    ensures
        m@ == "Project '"@ + name@ + "' not found in "@ + dir@,
{
    concat4("Project '", name, "' not found in ", dir)
}

} // verus!
