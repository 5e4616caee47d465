//! The progress channel of a job: a status line and a monotonic
//! `(completed, total)` pair, published at most every 100 ms except for the
//! final update.
use vstd::prelude::*;
use crate::text::copy_str;

verus! {

/// Least time between two published updates, in milliseconds.
pub const MIN_PUBLISH_INTERVAL_MS: u64 = 100;

/// Progress of the current job.
pub struct ProgressReporter {
    pub status: String,
    pub completed: usize,
    pub total: usize,
    /// When the last update was published, if one was.
    pub last_published_ms: Option<u64>,
}

impl ProgressReporter {
    pub open spec fn wf(&self) -> bool {
        self.completed <= self.total
    }

    pub fn new() -> (r: Self)
        ensures
            r.wf(),
            r.status@ == Seq::<char>::empty(),
            r.completed == 0,
            r.total == 0,
            r.last_published_ms is None,
    {
        ProgressReporter { status: String::new(), completed: 0, total: 0, last_published_ms: None }
    }

    /// Starts a job of `total` items under `status`.
    pub fn setup(&mut self, status: &str, total: usize)
        ensures
            final(self).wf(),
            final(self).status@ == status@,
            final(self).completed == 0,
            final(self).total == total,
            final(self).last_published_ms == old(self).last_published_ms,
    {
        self.status = copy_str(status);
        self.completed = 0;
        self.total = total;
    }

    /// Replaces the status line; the counts stay.
    pub fn set_status(&mut self, status: &str)
        ensures
            final(self).status@ == status@,
            final(self).completed == old(self).completed,
            final(self).total == old(self).total,
            final(self).last_published_ms == old(self).last_published_ms,
    {
        self.status = copy_str(status);
    }

    /// Counts one finished item; the count never passes the total and never goes back.
    pub fn item_finished(&mut self)
        requires
            old(self).wf(),
        ensures
            final(self).wf(),
            final(self).completed == if old(self).completed < old(self).total {
                old(self).completed + 1
            } else {
                old(self).completed as int
            },
            final(self).total == old(self).total,
            final(self).status == old(self).status,
            final(self).last_published_ms == old(self).last_published_ms,
    {
        if self.completed < self.total {
            self.completed = self.completed + 1;
        }
    }

    /// Whether the job is done.
    pub fn is_done(&self) -> (r: bool)
        ensures
            r == (self.completed == self.total),
    {
        self.completed == self.total
    }

    /// Whether an update at `now_ms` is published: always the final one,
    /// else when none was published yet or at least 100 ms went by. A
    /// published update is recorded.
    pub fn publish(&mut self, now_ms: u64) -> (r: bool)
        ensures
            r == (old(self).completed == old(self).total || match old(self).last_published_ms {
                None => true,
                Some(t) => t <= now_ms && now_ms - t >= MIN_PUBLISH_INTERVAL_MS,
            }),
            final(self).last_published_ms == if r {
                Some(now_ms)
            } else {
                old(self).last_published_ms
            },
            final(self).completed == old(self).completed,
            final(self).total == old(self).total,
            final(self).status == old(self).status,
    {
        let due = match self.last_published_ms {
            None => true,
            Some(t) => t <= now_ms && now_ms - t >= MIN_PUBLISH_INTERVAL_MS,
        };
        let r = self.completed == self.total || due;
        if r {
            self.last_published_ms = Some(now_ms);
        }
        r
    }
}

} // verus!
