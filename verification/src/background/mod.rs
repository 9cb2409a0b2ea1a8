pub mod scheduler;

use vstd::prelude::*;

use crate::background::scheduler::SchedulerQueueEvent;
use crate::database::secrets::Timestamp;

verus! {

#[derive(Debug, PartialEq, Eq, Structural, PartialOrd, Ord, Clone, Copy)]
pub enum BackgroundEvent {
    /// Task to purge scheduled secrets
    PurgeDeletedSecrets,

    /// Task to prune the secrets with versions in excess of 100 versions that are
    /// over 24h old
    PurgeExcessSecrets,
}

/// The background events: each purge runs every hour, on the hour.
pub fn background_events() -> (events: Vec<SchedulerQueueEvent<BackgroundEvent>>)
    ensures
        events@.len() == 2,
        events@[0].event == BackgroundEvent::PurgeDeletedSecrets,
        events@[0].interval == 60 * 60,
        events@[1].event == BackgroundEvent::PurgeExcessSecrets,
        events@[1].interval == 60 * 60,
{
    let mut events = Vec::new();
    events.push(SchedulerQueueEvent { event: BackgroundEvent::PurgeDeletedSecrets, interval: 60 * 60 });
    events.push(SchedulerQueueEvent { event: BackgroundEvent::PurgeExcessSecrets, interval: 60 * 60 });
    events
}

/// The database work a background event asks for.
#[derive(Debug, PartialEq, Eq, Structural, Clone, Copy)]
pub enum BackgroundTask {
    /// Delete the secrets whose scheduled deletion date is before `now`.
    DeleteScheduledSecrets { now: Timestamp },
    /// Delete the versions of each secret beyond its 100 newest that are over
    /// a day old.
    DeleteExcessSecretVersions,
}

/// The work for `event` when it fires at `now`.
pub fn background_task(event: BackgroundEvent, now: Timestamp) -> (task: BackgroundTask)
    ensures
        task == match event {
            BackgroundEvent::PurgeDeletedSecrets => BackgroundTask::DeleteScheduledSecrets { now },
            BackgroundEvent::PurgeExcessSecrets => BackgroundTask::DeleteExcessSecretVersions,
        },
{
    match event {
        BackgroundEvent::PurgeDeletedSecrets => BackgroundTask::DeleteScheduledSecrets { now },
        BackgroundEvent::PurgeExcessSecrets => BackgroundTask::DeleteExcessSecretVersions,
    }
}

} // verus!
