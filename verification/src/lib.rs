//! A small project/task manager: an in-memory hierarchy of projects and
//! tasks with JSON persistence and a command-execution layer.

pub mod cli;
pub mod config;
pub mod codec;
pub mod ids;
pub mod project;

use vstd::prelude::*;

verus! {

/// The error kinds the library reports.
///
/// `ProjectNotFound` and `TaskNotFound` are kept distinct so a caller can
/// tell which entity was missing. `CorruptStore` means a persisted file
/// exists but cannot be parsed; `PersistenceFailure` is reserved for I/O
/// errors raised outside the library.
#[derive(Debug, Clone, Copy, PartialEq, Eq, Structural)]
pub enum Error {
    InvalidIdentifier,
    ProjectNotFound,
    TaskNotFound,
    CorruptStore,
    PersistenceFailure,
}

/// One row of a project listing.
pub struct ProjectLine {
    pub id: String,
    pub name: String,
    pub description: String,
}

/// One row of a task listing.
pub struct TaskLine {
    pub id: String,
    pub name: String,
    pub description: String,
}

/// What a successfully executed command hands back for rendering.
pub enum Output {
    /// A mutation completed; there is nothing to show.
    Done,
    /// The project listing, in insertion order.
    Projects(Vec<ProjectLine>),
    /// The task listing of one project, in insertion order.
    Tasks(Vec<TaskLine>),
    /// The value of a recognized configuration key.
    ConfigValue(String),
    /// The configuration key asked for is not recognized.
    InvalidConfigKey,
    /// A configuration assignment was acknowledged (it is not persisted).
    ConfigSetAck { key: String, value: String },
}

impl Error {
    /// A human-readable message for each error kind.
    pub fn message(&self) -> (r: &'static str)
        ensures
            r@ == self.spec_message(),
    {
        match self {
            Error::InvalidIdentifier => "invalid identifier",
            Error::ProjectNotFound => "Project not found",
            Error::TaskNotFound => "Task not found",
            Error::CorruptStore => "stored data is corrupt",
            Error::PersistenceFailure => "could not persist data",
        }
    }

    pub open spec fn spec_message(self) -> Seq<char> {
        match self {
            Error::InvalidIdentifier => "invalid identifier"@,
            Error::ProjectNotFound => "Project not found"@,
            Error::TaskNotFound => "Task not found"@,
            Error::CorruptStore => "stored data is corrupt"@,
            Error::PersistenceFailure => "could not persist data"@,
        }
    }
}

} // verus!
