//! The life cycle of a run.

use vstd::prelude::*;
use vstd::std_specs::convert::TryFromSpecImpl;
use vstd::string::*;

use crate::db::DateTime;

verus! {

/// A run as its users see it. The progress goes from 0 to 100.
#[derive(Debug, Clone)]
pub struct CompositorRun {
    pub id: String,
    pub created: DateTime,
    pub status: CompositorRunStatus,
    pub progress: u8,
    pub author: String,
}

impl CompositorRun {
    /// A run that was accepted and waits for a worker.
    pub fn pending(id: &str, created: DateTime, author: &str) -> (run: CompositorRun)
        ensures
            run.id@ == id@,
            run.created == created,
            run.status == CompositorRunStatus::Pending,
            run.progress == 0,
            run.author@ == author@,
    {
        CompositorRun {
            id: String::from_str(id),
            created,
            status: CompositorRunStatus::Pending,
            progress: 0,
            author: String::from_str(author),
        }
    }
}

/// Where a run stands: it waits, renders, and ends in success or failure.
#[derive(Debug, Clone, Copy, PartialEq, Eq, Structural)]
pub enum CompositorRunStatus {
    Pending,
    Running,
    Succeeded,
    Failed,
}

/// What can happen to a run.
#[derive(Debug, Clone, Copy, PartialEq, Eq, Structural)]
pub enum RunEvent {
    /// A worker took the run and resolved its references.
    Started,
    /// The last instance was rendered and stored.
    Completed,
    /// Something failed that the run cannot recover from.
    Aborted,
}

impl CompositorRunStatus {
    /// The status that follows on the event, where the event can happen at
    /// all: a pending run starts, a running one completes, and either can
    /// be aborted. A run that succeeded or failed stays as it is.
    pub open spec fn spec_after(self, event: RunEvent) -> Option<CompositorRunStatus> {
        match (self, event) {
            (CompositorRunStatus::Pending, RunEvent::Started) => Some(CompositorRunStatus::Running),
            (CompositorRunStatus::Running, RunEvent::Completed) => Some(
                CompositorRunStatus::Succeeded,
            ),
            (CompositorRunStatus::Pending, RunEvent::Aborted) => Some(CompositorRunStatus::Failed),
            (CompositorRunStatus::Running, RunEvent::Aborted) => Some(CompositorRunStatus::Failed),
            _ => None,
        }
    }

    /// The status that follows on the event, or `None` where the event
    /// cannot happen to a run of this status.
    pub fn after(self, event: RunEvent) -> (next: Option<CompositorRunStatus>)
        ensures
            next == self.spec_after(event),
    {
        match (self, event) {
            (CompositorRunStatus::Pending, RunEvent::Started) => Some(CompositorRunStatus::Running),
            (CompositorRunStatus::Running, RunEvent::Completed) => Some(
                CompositorRunStatus::Succeeded,
            ),
            (CompositorRunStatus::Pending, RunEvent::Aborted) => Some(CompositorRunStatus::Failed),
            (CompositorRunStatus::Running, RunEvent::Aborted) => Some(CompositorRunStatus::Failed),
            _ => None,
        }
    }

    /// Whether the run has ended.
    pub fn is_terminal(self) -> (ended: bool)
        ensures
            ended == (self == CompositorRunStatus::Succeeded || self
                == CompositorRunStatus::Failed),
    {
        match self {
            CompositorRunStatus::Succeeded => true,
            CompositorRunStatus::Failed => true,
            _ => false,
        }
    }

    /// The number under which the status is stored.
    pub open spec fn code(self) -> nat {
        match self {
            CompositorRunStatus::Pending => 0,
            CompositorRunStatus::Running => 1,
            CompositorRunStatus::Succeeded => 2,
            CompositorRunStatus::Failed => 3,
        }
    }

    /// The status stored under `value`, if there is one.
    pub open spec fn of_code(value: nat) -> Option<CompositorRunStatus> {
        if value == 0 {
            Some(CompositorRunStatus::Pending)
        } else if value == 1 {
            Some(CompositorRunStatus::Running)
        } else if value == 2 {
            Some(CompositorRunStatus::Succeeded)
        } else if value == 3 {
            Some(CompositorRunStatus::Failed)
        } else {
            None
        }
    }

    /// The number under which the status is stored.
    pub fn as_u32(self) -> (value: u32)
        ensures
            value == self.code(),
    {
        match self {
            CompositorRunStatus::Pending => 0,
            CompositorRunStatus::Running => 1,
            CompositorRunStatus::Succeeded => 2,
            CompositorRunStatus::Failed => 3,
        }
    }

}

impl TryFrom<u32> for CompositorRunStatus {
    type Error = &'static str;

    /// Reads a stored number back. Numbers above 3 name no status.
    fn try_from(value: u32) -> (result: Result<CompositorRunStatus, &'static str>) {
        match value {
            0 => Ok(CompositorRunStatus::Pending),
            1 => Ok(CompositorRunStatus::Running),
            2 => Ok(CompositorRunStatus::Succeeded),
            3 => Ok(CompositorRunStatus::Failed),
            _ => Err("invalid status"),
        }
    }
}

impl TryFromSpecImpl<u32> for CompositorRunStatus {
    open spec fn obeys_try_from_spec() -> bool {
        true
    }

    open spec fn try_from_spec(value: u32) -> Result<CompositorRunStatus, &'static str> {
        match CompositorRunStatus::of_code(value as nat) {
            Some(status) => Ok(status),
            None => Err("invalid status"),
        }
    }
}

} // verus!
