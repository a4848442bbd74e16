//! The host-side work of the engine, written down as data: commands to run, files to
//! write, directories to create or remove. The library decides the actions; the
//! program carries them out in order.
use vstd::prelude::*;
use crate::text::owned;

verus! {

/// Where a command's output goes.
#[derive(Debug, Clone, Copy, PartialEq, Eq, Structural)]
pub enum OutputMode {
    /// Output and errors go to the engine's own terminal.
    Inherit,
    /// Output and errors are discarded.
    Silent,
    /// Errors are discarded; output goes to the terminal.
    NoErrors,
}

/// An external program to run on the host.
#[derive(Debug)]
pub struct HostCommand {
    pub program: String,
    pub args: Vec<String>,
    pub output: OutputMode,
    /// A failure (the program cannot start or exits unsuccessfully) stops the run.
    pub checked: bool,
}

/// One step of host-side work.
#[derive(Debug)]
pub enum HostAction {
    /// Run a program.
    Run(HostCommand),
    /// Write `contents` to the file `path`; a failure stops the run when `checked`.
    WriteFile { path: String, contents: String, checked: bool },
    /// Create a directory and its parents; a failure stops the run.
    CreateDirAll { path: String },
    /// Remove a directory tree; failures are ignored.
    RemoveDirAll { path: String },
    /// Remove an empty directory (as `rmdir` does, which is how a cgroup is removed);
    /// failures are ignored.
    RemoveDir { path: String },
    /// Remove the state record of a container; failures are ignored.
    RemoveState { name: String },
}

/// The texts of a list of strings.
pub open spec fn texts(v: Seq<String>) -> Seq<Seq<char>> {
    v.map_values(|s: String| s@)
}

/// A command, as text.
pub struct CommandView {
    pub program: Seq<char>,
    pub args: Seq<Seq<char>>,
    pub output: OutputMode,
    pub checked: bool,
}

/// A step, as text.
pub enum ActionView {
    Run(CommandView),
    WriteFile { path: Seq<char>, contents: Seq<char>, checked: bool },
    CreateDirAll { path: Seq<char> },
    RemoveDirAll { path: Seq<char> },
    RemoveDir { path: Seq<char> },
    RemoveState { name: Seq<char> },
}

impl View for HostCommand {
    type V = CommandView;

    open spec fn view(&self) -> CommandView {
        CommandView {
            program: self.program@,
            args: texts(self.args@),
            output: self.output,
            checked: self.checked,
        }
    }
}

impl View for HostAction {
    type V = ActionView;

    open spec fn view(&self) -> ActionView {
        match self {
            HostAction::Run(c) => ActionView::Run(c@),
            HostAction::WriteFile { path, contents, checked } => ActionView::WriteFile {
                path: path@,
                contents: contents@,
                checked: *checked,
            },
            HostAction::CreateDirAll { path } => ActionView::CreateDirAll { path: path@ },
            HostAction::RemoveDirAll { path } => ActionView::RemoveDirAll { path: path@ },
            HostAction::RemoveDir { path } => ActionView::RemoveDir { path: path@ },
            HostAction::RemoveState { name } => ActionView::RemoveState { name: name@ },
        }
    }
}

/// The steps of a list, as text.
pub open spec fn actions_view(v: Seq<HostAction>) -> Seq<ActionView> {
    v.map_values(|a: HostAction| a@)
}

/// Running `program` with `args`.
pub open spec fn run_spec(program: Seq<char>, args: Seq<Seq<char>>, output: OutputMode, checked: bool) -> ActionView {
    ActionView::Run(CommandView { program, args, output, checked })
}

/// A step that runs `program` with `args`.
pub fn run_action(program: &str, args: Vec<String>, output: OutputMode, checked: bool) -> (r: HostAction)
    ensures
        r@ == run_spec(program@, texts(args@), output, checked),
{
    HostAction::Run(HostCommand { program: owned(program), args, output, checked })
}

} // verus!
