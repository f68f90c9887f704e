//! The errors of the lifecycle and archive operations, and the filesystem steps they decide on.
//!
//! An operation in this library does no I/O itself: it is told what exists and answers with
//! either an error or the list of mutations to carry out, in order.
use vstd::prelude::*;

verus! {

/// Why an operation failed.
#[derive(Debug, Clone, Copy, PartialEq, Eq, Structural)]
pub enum ProjError {
    /// The named project or archive is absent.
    NotFound,
    /// The destination already exists.
    Conflict,
    /// A filesystem or process step failed.
    IoFailure,
    /// An external tool exited unsuccessfully.
    ExternalToolFailure,
    /// A malformed argument.
    InvalidInput,
}

/// One filesystem mutation, carried out in order by the caller.
#[derive(Debug, PartialEq, Eq)]
pub enum FsAction {
    /// Create a directory and its missing parents.
    CreateDirAll(String),
    /// Move the first path to the second.
    Rename(String, String),
    /// Delete a directory tree.
    RemoveDirAll(String),
    /// Delete a file or symlink; failure aborts.
    RemoveFile(String),
    /// Delete a file or symlink if it is there; failure is ignored.
    RemoveFileQuietly(String),
    /// Delete a symlink, or the directory tree if it turns out to be one.
    RemoveEntry(String),
    /// Make a directory symlink: the first path is the target, the second the link.
    Symlink(String, String),
    /// Write every regular file under the first path into a new archive at the second,
    /// each under the name `entries::archive_entries` gives it.
    WriteArchive(String, String),
    /// Unpack the archive at the first path into the directory at the second, each entry at
    /// the path `entries::restore_targets` gives it, which lies inside that directory.
    ExtractArchive(String, String),
    /// Clone the repository at the first location into the second path.
    GitClone(String, String),
    /// Copy the contents of the first directory into the second.
    CopyDirInto(String, String),
}

/// An `FsAction` with its paths as character sequences.
pub enum FsStep {
    CreateDirAll(Seq<char>),
    Rename(Seq<char>, Seq<char>),
    RemoveDirAll(Seq<char>),
    RemoveFile(Seq<char>),
    RemoveFileQuietly(Seq<char>),
    RemoveEntry(Seq<char>),
    Symlink(Seq<char>, Seq<char>),
    WriteArchive(Seq<char>, Seq<char>),
    ExtractArchive(Seq<char>, Seq<char>),
    GitClone(Seq<char>, Seq<char>),
    CopyDirInto(Seq<char>, Seq<char>),
}

impl View for FsAction {
    type V = FsStep;

    open spec fn view(&self) -> FsStep {
        match self {
            FsAction::CreateDirAll(p) => FsStep::CreateDirAll(p@),
            FsAction::Rename(a, b) => FsStep::Rename(a@, b@),
            FsAction::RemoveDirAll(p) => FsStep::RemoveDirAll(p@),
            FsAction::RemoveFile(p) => FsStep::RemoveFile(p@),
            FsAction::RemoveFileQuietly(p) => FsStep::RemoveFileQuietly(p@),
            FsAction::RemoveEntry(p) => FsStep::RemoveEntry(p@),
            FsAction::Symlink(a, b) => FsStep::Symlink(a@, b@),
            FsAction::WriteArchive(a, b) => FsStep::WriteArchive(a@, b@),
            FsAction::ExtractArchive(a, b) => FsStep::ExtractArchive(a@, b@),
            FsAction::GitClone(a, b) => FsStep::GitClone(a@, b@),
            FsAction::CopyDirInto(a, b) => FsStep::CopyDirInto(a@, b@),
        }
    }
}

/// The steps of a list of actions.
pub open spec fn steps_of(v: Seq<FsAction>) -> Seq<FsStep> {
    v.map_values(|a: FsAction| a@)
}

/// What an operation decided, with its actions seen as steps.
pub open spec fn outcome_of(r: Result<Vec<FsAction>, ProjError>) -> Result<Seq<FsStep>, ProjError> {
    match r {
        Ok(v) => Ok(steps_of(v@)),
        Err(e) => Err(e),
    }
}

/// Whether an outcome changes nothing on disk.
pub open spec fn writes_nothing(o: Result<Seq<FsStep>, ProjError>) -> bool {
    match o {
        Ok(s) => s.len() == 0,
        Err(_) => true,
    }
}

} // verus!
