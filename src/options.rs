use vstd::prelude::*;

verus! {

/// What a run is asked to do.
#[derive(Clone, Debug, PartialEq)]
pub struct Options {
    /// Which tag name to operate on.
    pub tag: Option<String>,
    /// How many directories are processed at the same time.
    pub jobs: usize,
    /// The selected subcommand.
    pub cmd: Subcommands,
}

/// The subcommands.
#[derive(Clone, Debug, PartialEq)]
pub enum Subcommands {
    /// A compact version-control status of each directory.
    Status(StatusOpts),
    /// Manipulate the tagged directories.
    Tag(TagOpts),
    /// Execute an arbitrary command.
    Exec(ExecOpts),
    /// Fast-forward each directory's branch to its upstream.
    Ffmerge(MergeOpts),
    /// Any other command line is run as a command.
    RawCommand(Vec<String>),
}

/// The tag subcommands.
#[derive(Clone, Debug, PartialEq)]
pub enum TagSubcommands {
    /// Add a tag to a directory.
    Add(TagAddOpts),
    /// Remove a tag from a directory.
    Remove(TagRemoveOpts),
    /// Drop directories that no longer exist.
    Gc,
}

/// Options of the status subcommand.
#[derive(Clone, Debug, PartialEq)]
pub struct StatusOpts {}

/// Options of the fast-forward subcommand.
#[derive(Clone, Debug, PartialEq)]
pub struct MergeOpts {
    /// Prepend the statistics of what changes.
    pub verbose: bool,
    /// Report without touching the repository.
    pub dry: bool,
}

/// Options of `tag add`.
#[derive(Clone, Debug, PartialEq)]
pub struct TagAddOpts {
    pub tag: String,
    /// The directory; the current one where absent.
    pub path: Option<String>,
}

/// Options of `tag remove`.
#[derive(Clone, Debug, PartialEq)]
pub struct TagRemoveOpts {
    pub tag: String,
    /// The directory; the current one where absent.
    pub path: Option<String>,
}

/// Options of the tag subcommand.
#[derive(Clone, Debug, PartialEq)]
pub struct TagOpts {
    pub action: TagSubcommands,
}

/// Options of the exec subcommand.
#[derive(Clone, Debug, PartialEq)]
pub struct ExecOpts {
    pub cmd: ExecCmd,
}

/// The command that exec runs.
#[derive(Clone, Debug, PartialEq)]
pub enum ExecCmd {
    RawCommand(Vec<String>),
}

} // verus!
