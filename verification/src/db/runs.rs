//! Runs as they are stored.

use vstd::prelude::*;

use crate::db::DateTime;
use crate::models::runs::CompositorRunStatus;

verus! {

/// A run as it is stored: the status is a number.
#[derive(Debug, Clone)]
pub struct CompositorRun {
    pub id: String,
    pub created: DateTime,
    pub status: u32,
    pub progress: u32,
    pub author: String,
}

impl CompositorRun {
    /// The record of a run. The store gives the record its identifier, so
    /// the record has none yet.
    pub fn from_model(value: crate::models::runs::CompositorRun) -> (record: CompositorRun)
        ensures
            record.id@ == Seq::<char>::empty(),
            record.created == value.created,
            record.status == value.status.code(),
            record.progress == value.progress,
            record.author@ == value.author@,
    {
        CompositorRun {
            id: String::new(),
            created: value.created,
            status: value.status.as_u32(),
            progress: value.progress as u32,
            author: value.author,
        }
    }

    /// The run of a record, or `None` where the stored number names no
    /// status or the stored progress is beyond 100.
    pub fn into_model(self) -> (run: Option<crate::models::runs::CompositorRun>)
        ensures
            match run {
                Some(run) => {
                    &&& CompositorRunStatus::of_code(self.status as nat) == Some(run.status)
                    &&& self.progress <= 100
                    &&& run.progress == self.progress
                    &&& run.id@ == self.id@
                    &&& run.created == self.created
                    &&& run.author@ == self.author@
                },
                None => CompositorRunStatus::of_code(self.status as nat) is None || self.progress
                    > 100,
            },
    {
        if self.progress > 100 {
            return None;
        }
        match CompositorRunStatus::try_from(self.status) {
            Ok(status) => Some(
                crate::models::runs::CompositorRun {
                    id: self.id,
                    created: self.created,
                    status,
                    progress: self.progress as u8,
                    author: self.author,
                },
            ),
            Err(_) => None,
        }
    }
}

} // verus!
