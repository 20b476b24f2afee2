//! The producer side: which group to enqueue next, and the one-off backfill.
use vstd::prelude::*;

use crate::errors::Error;
use crate::range_inputs::ArticleSequence;

verus! {

/// The pause between two rounds over the groups, in seconds.
pub const INTERVAL_BETWEEN_RESCANS: u64 = 3600;

/// What the producer does next.
#[derive(Debug, Clone, PartialEq, Eq)]
pub enum ProducerStep {
    /// Put this group on the queue; this blocks while the queue is full.
    Enqueue(String),
    /// The round is over: wait `sleep_secs` and start the next one.
    Rescan { sleep_secs: u64 },
    /// The round is over and there is no other: return at once, without
    /// waiting for the workers to drain the queue.
    Finish,
}

/// A backfill: the articles to fetch from one group, without checkpoints.
pub struct RangeJob {
    pub group: String,
    pub articles: ArticleSequence,
}

/// The groups to archive, the pool's size and the queue between them.
pub struct Scheduler {
    pub hostname: String,
    pub port: u16,
    pub base_output_path: String,
    pub nthreds: u8,
    pub loop_groups: bool,
    pub tasklist: Vec<String>,
}

impl Scheduler {
    pub fn new(
        hostname: String,
        port: u16,
        base_output_path: String,
        nthreds: u8,
        loop_groups: bool,
        groups: Vec<String>,
    ) -> (r: Scheduler)
        ensures
            r.hostname == hostname,
            r.port == port,
            r.base_output_path == base_output_path,
            r.nthreds == nthreds,
            r.loop_groups == loop_groups,
            r.tasklist@ == groups@,
    {
        Scheduler { hostname, port, base_output_path, nthreds, loop_groups, tasklist: groups }
    }

    /// How many groups the queue holds before the producer blocks: one per
    /// worker.
    pub fn queue_capacity(&self) -> (r: usize)
        ensures
            r == self.nthreds,
    {
        self.nthreds as usize
    }

    /// The producer's next step once `sent` groups of the current round are
    /// on the queue: the next group in order; once all are, a pause before
    /// the next round, or the end when the groups are not looped.
    pub fn producer_step(&self, sent: usize) -> (r: ProducerStep)
        ensures
            sent < self.tasklist@.len() ==> r == ProducerStep::Enqueue(self.tasklist@[sent as int]),
            sent >= self.tasklist@.len() && self.loop_groups ==> r == (ProducerStep::Rescan {
                sleep_secs: INTERVAL_BETWEEN_RESCANS,
            }),
            sent >= self.tasklist@.len() && !self.loop_groups ==> r == ProducerStep::Finish,
    {
        if sent < self.tasklist.len() {
            ProducerStep::Enqueue(self.tasklist[sent].clone())
        } else if self.loop_groups {
            ProducerStep::Rescan { sleep_secs: INTERVAL_BETWEEN_RESCANS }
        } else {
            ProducerStep::Finish
        }
    }

    /// The backfill of `range`: it goes to the first group alone, and fails
    /// when there is none.
    pub fn run_range(&self, range: ArticleSequence) -> (r: Result<RangeJob, Error>)
        ensures
            self.tasklist@.len() == 0 ==> r == Err::<RangeJob, Error>(Error::Unknown),
            self.tasklist@.len() > 0 ==> (r matches Ok(job) && job.group == self.tasklist@[0]
                && job.articles@ == range@),
    {
        if self.tasklist.len() == 0 {
            Err(Error::Unknown)
        } else {
            Ok(RangeJob { group: self.tasklist[0].clone(), articles: range })
        }
    }
}

} // verus!
