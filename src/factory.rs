use vstd::prelude::*;
use crate::exec::CommandRunner;
use crate::merge::MergeRunner;
use crate::options::{ExecCmd, Options, Subcommands};
use crate::renderers::{NullRender, SimpleSectionRender};
use crate::status::StatusRunner;

verus! {

/// The operation run in each directory.
#[derive(Debug, Clone, PartialEq)]
pub enum Operation {
    Exec(CommandRunner),
    Status(StatusRunner),
    Merge(MergeRunner),
}

/// The presenter of the outcomes.
#[derive(Debug, Clone, Copy, PartialEq)]
pub enum Presenter {
    Null(NullRender),
    Section(SimpleSectionRender),
}

/// Why no operation could be made from the options.
#[derive(Debug, Clone, Copy, PartialEq, Eq)]
pub enum SetupError {
    /// The subcommand does not run in directories.
    UnsupportedCommand,
}

impl SetupError {
    /// The user-facing text of this error.
    pub fn message(&self) -> (r: String)
        ensures
            r@ == "Not a supported command type for directory running processing"@,
    {
        String::from_str("Not a supported command type for directory running processing")
    }
}

/// The operation and the presenter that the options select: a command
/// runs through the section presenter, the status through the raw one,
/// the fast-forward through the one-line section presenter.
pub fn create_processors(opts: Options) -> (r: Result<(Operation, Presenter), SetupError>)
    ensures
        match opts.cmd {
            Subcommands::RawCommand(c) => r matches Ok((Operation::Exec(e), Presenter::Section(p))) && e.cmd == c
                && !p.single_line,
            Subcommands::Exec(x) => r matches Ok((Operation::Exec(e), Presenter::Section(p))) && e.cmd == (
            match x.cmd {
                ExecCmd::RawCommand(c) => c,
            }) && !p.single_line,
            Subcommands::Status(o) => r matches Ok((Operation::Status(s), Presenter::Null(_))) && s.opts == o,
            Subcommands::Ffmerge(o) => r matches Ok((Operation::Merge(m), Presenter::Section(p))) && m.opts == o
                && p.single_line,
            Subcommands::Tag(_) => r == Err::<(Operation, Presenter), SetupError>(SetupError::UnsupportedCommand),
        },
{
    match opts.cmd {
        Subcommands::RawCommand(cmd) => Ok(
            (Operation::Exec(CommandRunner { cmd }), Presenter::Section(SimpleSectionRender { single_line: false })),
        ),
        Subcommands::Exec(x) => match x.cmd {
            ExecCmd::RawCommand(cmd) => Ok(
                (Operation::Exec(CommandRunner { cmd }), Presenter::Section(SimpleSectionRender { single_line: false })),
            ),
        },
        Subcommands::Status(o) => Ok((Operation::Status(StatusRunner { opts: o }), Presenter::Null(NullRender {}))),
        Subcommands::Ffmerge(o) => Ok((Operation::Merge(MergeRunner { opts: o }), Presenter::Section(SimpleSectionRender::single_line()))),
        Subcommands::Tag(_) => Err(SetupError::UnsupportedCommand),
    }
}

} // verus!
