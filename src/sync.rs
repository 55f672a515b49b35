use crate::last_update::{utc_representable, Checkpoint};
use crate::models::inscription::Inscription;
use crate::transform::{accepted, transform_all, transformed};
use vstd::prelude::*;

verus! {

/// Pause after a failed fetch or a failed publish, in seconds.
pub const SHORT_BACKOFF_SECS: u64 = 5;

/// Pause after an empty fetch or a completed cycle, in seconds.
pub const LONG_BACKOFF_SECS: u64 = 60;

/// Where the synchronization cycle stands: what it waits to hear about.
#[derive(Debug, Clone, Copy, PartialEq, Eq, Structural)]
pub enum Phase {
    /// Waits for the persisted checkpoint.
    Reading,
    /// Waits for the records newer than the checkpoint.
    Fetching,
    /// Waits for the outcome of the primary publish.
    Publishing,
    /// Waits for the advanced checkpoint to be persisted.
    Writing,
    /// Waits for the pause to end.
    Sleeping,
}

/// What the caller reports back after performing an action.
pub enum Event {
    CheckpointRead(Checkpoint),
    Fetched(Vec<(String, String)>),
    FetchFailed,
    /// The publish was confirmed; the clock read then many seconds since the
    /// epoch.
    Published(i64),
    PublishFailed,
    CheckpointWritten,
    Slept,
}

/// What the caller is to perform next.
pub enum Action {
    /// Read the persisted checkpoint.
    ReadCheckpoint,
    /// Fetch the records updated strictly after the checkpoint.
    Fetch(Checkpoint),
    /// Publish the units; the domains that could not be classified are
    /// skipped and listed for the log.
    Publish(Vec<Inscription>, Vec<String>),
    /// No record of the batch could be classified: log these domains and
    /// pause for this many seconds, publishing nothing.
    SkipBatch(Vec<String>, u64),
    /// Persist the checkpoint.
    WriteCheckpoint(Checkpoint),
    /// Pause for this many seconds.
    Sleep(u64),
}

/// The decisions of the synchronization loop: which action follows each
/// outcome, so that the checkpoint only ever advances after a confirmed
/// publish.
pub struct SyncCycle {
    pub phase: Phase,
    /// The checkpoint read at the start of the current cycle.
    pub since: Checkpoint,
}

impl SyncCycle {
    /// A loop that starts by reading the checkpoint.
    pub fn new() -> (r: SyncCycle)
        ensures
            r.phase == Phase::Reading,
            r.since.secs == 0,
    {
        SyncCycle { phase: Phase::Reading, since: Checkpoint::epoch() }
    }

    /// The state after an event that does not belong to the current phase:
    /// the cycle starts over from reading the checkpoint.
    pub open spec fn restarted(self, next: SyncCycle, a: Action) -> bool {
        &&& next.phase == Phase::Reading
        &&& next.since == self.since
        &&& a is ReadCheckpoint
    }

    /// Takes the outcome of the last action and returns the next action.
    pub fn step(&mut self, event: Event) -> (a: Action)
        ensures
            a is WriteCheckpoint ==> old(self).phase == Phase::Publishing && event is Published,
            a is Publish ==> a->Publish_0@.len() >= 1,
            match event {
                Event::CheckpointRead(t) => if old(self).phase == Phase::Reading {
                    &&& final(self).phase == Phase::Fetching
                    &&& final(self).since == t
                    &&& a is Fetch && a->Fetch_0 == t
                } else {
                    old(self).restarted(*final(self), a)
                },
                Event::FetchFailed => if old(self).phase == Phase::Fetching {
                    &&& final(self).phase == Phase::Sleeping
                    &&& final(self).since == old(self).since
                    &&& a is Sleep && a->Sleep_0 == SHORT_BACKOFF_SECS
                } else {
                    old(self).restarted(*final(self), a)
                },
                Event::Fetched(records) => if old(self).phase == Phase::Fetching {
                    &&& final(self).since == old(self).since
                    &&& records@.len() == 0 ==> final(self).phase == Phase::Sleeping && a is Sleep
                        && a->Sleep_0 == LONG_BACKOFF_SECS
                    &&& records@.len() > 0 && accepted(records@).len() > 0 ==> final(self).phase
                        == Phase::Publishing && a is Publish && transformed(
                        a->Publish_0@,
                        a->Publish_1@,
                        records@,
                    )
                    &&& records@.len() > 0 && accepted(records@).len() == 0 ==> final(self).phase
                        == Phase::Sleeping && a is SkipBatch && a->SkipBatch_1 == LONG_BACKOFF_SECS
                        && transformed(Seq::empty(), a->SkipBatch_0@, records@)
                } else {
                    old(self).restarted(*final(self), a)
                },
                Event::Published(now) => if old(self).phase == Phase::Publishing
                    && utc_representable(now as int) {
                    &&& final(self).phase == Phase::Writing
                    &&& final(self).since == old(self).since
                    &&& a is WriteCheckpoint && a->WriteCheckpoint_0.secs == now
                } else {
                    old(self).restarted(*final(self), a)
                },
                Event::PublishFailed => if old(self).phase == Phase::Publishing {
                    &&& final(self).phase == Phase::Sleeping
                    &&& final(self).since == old(self).since
                    &&& a is Sleep && a->Sleep_0 == SHORT_BACKOFF_SECS
                } else {
                    old(self).restarted(*final(self), a)
                },
                Event::CheckpointWritten => if old(self).phase == Phase::Writing {
                    &&& final(self).phase == Phase::Sleeping
                    &&& final(self).since == old(self).since
                    &&& a is Sleep && a->Sleep_0 == LONG_BACKOFF_SECS
                } else {
                    old(self).restarted(*final(self), a)
                },
                Event::Slept => if old(self).phase == Phase::Sleeping {
                    &&& final(self).phase == Phase::Reading
                    &&& final(self).since == old(self).since
                    &&& a is ReadCheckpoint
                } else {
                    old(self).restarted(*final(self), a)
                },
            },
    {
        match event {
            Event::CheckpointRead(t) => {
                if self.phase == Phase::Reading {
                    self.phase = Phase::Fetching;
                    self.since = t;
                    return Action::Fetch(t);
                }
            },
            Event::FetchFailed => {
                if self.phase == Phase::Fetching {
                    self.phase = Phase::Sleeping;
                    return Action::Sleep(SHORT_BACKOFF_SECS);
                }
            },
            Event::Fetched(records) => {
                if self.phase == Phase::Fetching {
                    if records.len() == 0 {
                        self.phase = Phase::Sleeping;
                        return Action::Sleep(LONG_BACKOFF_SECS);
                    }
                    let (units, skipped) = transform_all(&records);
                    if units.len() == 0 {
                        self.phase = Phase::Sleeping;
                        return Action::SkipBatch(skipped, LONG_BACKOFF_SECS);
                    }
                    self.phase = Phase::Publishing;
                    return Action::Publish(units, skipped);
                }
            },
            Event::Published(now) => {
                if self.phase == Phase::Publishing {
                    if let Some(t) = Checkpoint::from_timestamp(now) {
                        self.phase = Phase::Writing;
                        return Action::WriteCheckpoint(t);
                    }
                }
            },
            Event::PublishFailed => {
                if self.phase == Phase::Publishing {
                    self.phase = Phase::Sleeping;
                    return Action::Sleep(SHORT_BACKOFF_SECS);
                }
            },
            Event::CheckpointWritten => {
                if self.phase == Phase::Writing {
                    self.phase = Phase::Sleeping;
                    return Action::Sleep(LONG_BACKOFF_SECS);
                }
            },
            Event::Slept => {
                if self.phase == Phase::Sleeping {
                    self.phase = Phase::Reading;
                    return Action::ReadCheckpoint;
                }
            },
        }
        self.phase = Phase::Reading;
        Action::ReadCheckpoint
    }
}

} // verus!
