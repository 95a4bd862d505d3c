//! Mining statistics: lock-light counters, per-worker records with a running
//! mean of attempt durations, and the milestone rules.
//!
//! Instants are carried as nanosecond counts supplied by the caller, so every
//! update rule is a pure function of its inputs.

use vstd::prelude::*;
use vstd::arithmetic::div_mod::{lemma_div_is_ordered, lemma_div_multiples_vanish};

verus! {

/// The two counters of the light-weight statistics sink.
#[derive(Debug)]
pub struct SimpleMiningStats {
    /// The instant the driver started, in nanoseconds.
    pub start_time: u64,
    pub total_attempts: u64,
    pub successful_blocks: u64,
}

impl SimpleMiningStats {
    pub fn new(start_time: u64) -> (r: SimpleMiningStats)
        ensures
            r.start_time == start_time,
            r.total_attempts == 0,
            r.successful_blocks == 0,
    {
        SimpleMiningStats { start_time, total_attempts: 0, successful_blocks: 0 }
    }

    /// Counts one attempt; the counter wraps at the 64-bit bound as a
    /// fetch-and-add would.
    pub fn record_attempt(&mut self)
        ensures
            final(self).total_attempts == (old(self).total_attempts + 1) % 0x1_0000_0000_0000_0000,
            final(self).successful_blocks == old(self).successful_blocks,
            final(self).start_time == old(self).start_time,
    {
        self.total_attempts = self.total_attempts.wrapping_add(1);
    }

    /// Counts one found block; the counter wraps at the 64-bit bound as a
    /// fetch-and-add would.
    pub fn record_success(&mut self)
        ensures
            final(self).successful_blocks == (old(self).successful_blocks + 1)
                % 0x1_0000_0000_0000_0000,
            final(self).total_attempts == old(self).total_attempts,
            final(self).start_time == old(self).start_time,
    {
        self.successful_blocks = self.successful_blocks.wrapping_add(1);
    }
}

/// One worker's record.
#[derive(Debug, Clone)]
pub struct WorkerStats {
    pub worker_id: usize,
    pub attempts: u64,
    pub successes: u64,
    /// The instant of the last attempt, in nanoseconds.
    pub last_attempt_time: Option<u64>,
    /// The running mean attempt duration, in nanoseconds.
    pub average_time_per_attempt: u64,
}

/// The running mean after one more sample: `(avg * (n - 1) + sample) / n`
/// where `n` counts the samples taken so far, the new one included.
pub open spec fn running_mean(avg: int, n: int, sample: int) -> int {
    (avg * (n - 1) + sample) / n
}

/// The full statistics record of the driver.
#[derive(Debug)]
pub struct MiningStats {
    /// The instant the driver started, in nanoseconds.
    pub start_time: u64,
    pub total_attempts: u64,
    pub successful_blocks: u64,
    pub failed_attempts: u64,
    pub active_workers: u32,
    pub total_hash_rate: u64,
    /// The instant of the last found block, in nanoseconds.
    pub last_block_time: Option<u64>,
    /// The running mean attempt duration over all workers, in nanoseconds.
    pub average_attempt_time: u64,
    pub worker_stats: Vec<WorkerStats>,
}

/// The mean of samples below a bound stays below the bound; gives the exact
/// running-mean value room in 64 bits.
proof fn lemma_running_mean_bounded(avg: int, n: int, sample: int)
    requires
        0 < n,
        0 <= avg < 0x1_0000_0000_0000_0000,
        0 <= sample < 0x1_0000_0000_0000_0000,
    ensures
        0 <= running_mean(avg, n, sample) < 0x1_0000_0000_0000_0000,
{
    let bound = 0x1_0000_0000_0000_0000int;
    assert(avg * (n - 1) + sample <= (bound - 1) * n) by (nonlinear_arith)
        requires
            0 < n,
            0 <= avg < bound,
            0 <= sample < bound,
    ;
    lemma_div_is_ordered(avg * (n - 1) + sample, (bound - 1) * n, n);
    lemma_div_multiples_vanish(bound - 1, n);
    vstd::arithmetic::div_mod::lemma_div_pos_is_pos(avg * (n - 1) + sample, n);
}

impl MiningStats {
    /// A fresh record for `num_workers` workers, each worker entry zeroed
    /// and numbered.
    pub fn new(num_workers: usize, start_time: u64) -> (r: MiningStats)
        ensures
            r.start_time == start_time,
            r.total_attempts == 0,
            r.successful_blocks == 0,
            r.failed_attempts == 0,
            r.active_workers == num_workers as u32,
            r.total_hash_rate == 0,
            r.last_block_time is None,
            r.average_attempt_time == 0,
            r.worker_stats@.len() == num_workers,
            forall|i: int|
                0 <= i < num_workers ==> {
                    &&& (#[trigger] r.worker_stats@[i]).worker_id == i
                    &&& r.worker_stats@[i].attempts == 0
                    &&& r.worker_stats@[i].successes == 0
                    &&& r.worker_stats@[i].last_attempt_time is None
                    &&& r.worker_stats@[i].average_time_per_attempt == 0
                },
    {
        let mut worker_stats: Vec<WorkerStats> = Vec::new();
        let mut id: usize = 0;
        while id < num_workers
            invariant
                id <= num_workers,
                worker_stats@.len() == id,
                forall|i: int|
                    0 <= i < id ==> {
                        &&& (#[trigger] worker_stats@[i]).worker_id == i
                        &&& worker_stats@[i].attempts == 0
                        &&& worker_stats@[i].successes == 0
                        &&& worker_stats@[i].last_attempt_time is None
                        &&& worker_stats@[i].average_time_per_attempt == 0
                    },
            decreases num_workers - id,
        {
            worker_stats.push(
                WorkerStats {
                    worker_id: id,
                    attempts: 0,
                    successes: 0,
                    last_attempt_time: None,
                    average_time_per_attempt: 0,
                },
            );
            id = id + 1;
        }
        MiningStats {
            start_time,
            total_attempts: 0,
            successful_blocks: 0,
            failed_attempts: 0,
            active_workers: num_workers as u32,
            total_hash_rate: 0,
            last_block_time: None,
            average_attempt_time: 0,
            worker_stats,
        }
    }

    /// Records one completed attempt: bumps the global counter and the
    /// outcome counter, stamps the instants, and folds the duration into the
    /// worker's and the global running mean.
    ///
    /// Called once per completed attempt.  The counter bounds are machine
    /// limits: at one attempt per nanosecond they stand for centuries.
    pub fn record_attempt(&mut self, worker_id: usize, duration: u64, success: bool, now: u64)
        requires
            old(self).total_attempts < u64::MAX,
            worker_id < old(self).worker_stats@.len() ==> old(self).worker_stats@[
                worker_id as int].attempts < u64::MAX,
        ensures
            final(self).total_attempts == old(self).total_attempts + 1,
            final(self).start_time == old(self).start_time,
            final(self).active_workers == old(self).active_workers,
            final(self).total_hash_rate == old(self).total_hash_rate,
            success ==> {
                &&& final(self).successful_blocks == (old(self).successful_blocks + 1)
                    % 0x1_0000_0000_0000_0000
                &&& final(self).failed_attempts == old(self).failed_attempts
                &&& final(self).last_block_time == Some(now)
            },
            !success ==> {
                &&& final(self).successful_blocks == old(self).successful_blocks
                &&& final(self).failed_attempts == (old(self).failed_attempts + 1)
                    % 0x1_0000_0000_0000_0000
                &&& final(self).last_block_time == old(self).last_block_time
            },
            final(self).worker_stats@.len() == old(self).worker_stats@.len(),
            forall|i: int|
                0 <= i < old(self).worker_stats@.len() && i != worker_id
                    ==> final(self).worker_stats@[i] == old(self).worker_stats@[i],
            worker_id < old(self).worker_stats@.len() ==> {
                let before = old(self).worker_stats@[worker_id as int];
                let after = final(self).worker_stats@[worker_id as int];
                &&& after.worker_id == before.worker_id
                &&& after.attempts == before.attempts + 1
                &&& after.successes == (before.successes + if success {
                    1int
                } else {
                    0int
                }) % 0x1_0000_0000_0000_0000
                &&& after.last_attempt_time == Some(now)
                &&& after.average_time_per_attempt == running_mean(
                    before.average_time_per_attempt as int,
                    before.attempts + 1,
                    duration as int,
                )
            },
            final(self).average_attempt_time == running_mean(
                old(self).average_attempt_time as int,
                old(self).total_attempts + 1,
                duration as int,
            ),
    {
        self.total_attempts = self.total_attempts + 1;

        if success {
            self.successful_blocks = self.successful_blocks.wrapping_add(1);
            self.last_block_time = Some(now);
        } else {
            self.failed_attempts = self.failed_attempts.wrapping_add(1);
        }

        if worker_id < self.worker_stats.len() {
            let before = &self.worker_stats[worker_id];
            let attempts = before.attempts + 1;
            let successes = if success {
                before.successes.wrapping_add(1)
            } else {
                before.successes
            };
            proof {
                assert((before.average_time_per_attempt as int) * (attempts - 1)
                    <= 0xFFFF_FFFF_FFFF_FFFF * 0xFFFF_FFFF_FFFF_FFFF) by (nonlinear_arith)
                    requires
                        before.average_time_per_attempt <= 0xFFFF_FFFF_FFFF_FFFFu64,
                        0 <= attempts - 1 <= 0xFFFF_FFFF_FFFF_FFFFu64,
                ;
            }
            let total_time: u128 = (before.average_time_per_attempt as u128) * ((attempts
                - 1) as u128) + (duration as u128);
            proof {
                lemma_running_mean_bounded(
                    self.worker_stats@[worker_id as int].average_time_per_attempt as int,
                    attempts as int,
                    duration as int,
                );
            }
            let average = (total_time / (attempts as u128)) as u64;
            let updated = WorkerStats {
                worker_id: before.worker_id,
                attempts,
                successes,
                last_attempt_time: Some(now),
                average_time_per_attempt: average,
            };
            self.worker_stats.set(worker_id, updated);
        }

        let n = self.total_attempts;
        proof {
            assert((self.average_attempt_time as int) * (n - 1) <= 0xFFFF_FFFF_FFFF_FFFF
                * 0xFFFF_FFFF_FFFF_FFFF) by (nonlinear_arith)
                requires
                    self.average_attempt_time <= 0xFFFF_FFFF_FFFF_FFFFu64,
                    0 <= n - 1 <= 0xFFFF_FFFF_FFFF_FFFFu64,
            ;
        }
        let total_time: u128 = (self.average_attempt_time as u128) * ((n - 1) as u128) + (
        duration as u128);
        proof {
            lemma_running_mean_bounded(self.average_attempt_time as int, n as int, duration as int);
        }
        self.average_attempt_time = (total_time / (n as u128)) as u64;
    }
}

/// A milestone worth reporting.
#[derive(Debug, Clone, PartialEq, Eq, Structural)]
pub enum MiningMilestone {
    FirstBlock,
    BlockCount(u64),
    AttemptCount(u64),
    UptimeHours(u64),
}

/// The milestones due at a counter reading: the first block once, a block
/// milestone every ten blocks, an attempt milestone every thousand attempts,
/// and an uptime milestone every full hour.
pub open spec fn due_milestones_spec(
    total_attempts: u64,
    successful_blocks: u64,
    uptime_hours: u64,
) -> Seq<MiningMilestone> {
    (if successful_blocks == 1 {
        seq![MiningMilestone::FirstBlock]
    } else {
        Seq::empty()
    }) + (if successful_blocks > 0 && successful_blocks % 10 == 0 {
        seq![MiningMilestone::BlockCount(successful_blocks)]
    } else {
        Seq::empty()
    }) + (if total_attempts > 0 && total_attempts % 1000 == 0 {
        seq![MiningMilestone::AttemptCount(total_attempts)]
    } else {
        Seq::empty()
    }) + (if uptime_hours > 0 {
        seq![MiningMilestone::UptimeHours(uptime_hours)]
    } else {
        Seq::empty()
    })
}

/// Lists the milestones due at a counter reading, in reporting order.
pub fn due_milestones(total_attempts: u64, successful_blocks: u64, uptime_hours: u64) -> (r: Vec<
    MiningMilestone,
>)
    ensures
        r@ == due_milestones_spec(total_attempts, successful_blocks, uptime_hours),
{
    let mut r: Vec<MiningMilestone> = Vec::new();
    if successful_blocks == 1 {
        r.push(MiningMilestone::FirstBlock);
    }
    if successful_blocks > 0 && successful_blocks % 10 == 0 {
        r.push(MiningMilestone::BlockCount(successful_blocks));
    }
    if total_attempts > 0 && total_attempts % 1000 == 0 {
        r.push(MiningMilestone::AttemptCount(total_attempts));
    }
    if uptime_hours > 0 {
        r.push(MiningMilestone::UptimeHours(uptime_hours));
    }
    proof {
        assert(r@ =~= due_milestones_spec(total_attempts, successful_blocks, uptime_hours));
    }
    r
}

} // verus!
