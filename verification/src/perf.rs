//! Frame statistics: how long frames take, and how many updates were skipped.
//!
//! Durations are whole nanoseconds in unsigned 64-bit counters that wrap
//! around. The rolling totals are reported and cleared once per interval.
//! Times are readings of a clock that counts from when it was started; what a
//! reading shows is left open, and what is measured between readings is not.

use std::time::Instant;
use vstd::prelude::*;

verus! {

/// How many frames one report covers.
pub const LOG_INTERVAL: u64 = 60;

/// A point in time of the system's monotonic clock.
#[verifier::external_type_specification]
#[verifier::external_body]
pub struct ExInstant(std::time::Instant);

/// Reads the system's clock with `Instant::now`. Nothing is claimed of the
/// point in time.
#[verifier::external_body]
fn system_now() -> Instant {
    Instant::now()
}

/// Nanoseconds since a point in time, by `Instant::elapsed`. Nothing is claimed
/// of the number: it depends on when the call is made.
#[verifier::external_body]
fn nanos_since(origin: &Instant) -> u128 {
    origin.elapsed().as_nanos()
}

/// What a clock showed: nanoseconds since it was started.
#[derive(Debug, Clone, Copy, PartialEq, Eq, Structural)]
pub struct Reading {
    pub nanos: u128,
}

impl Reading {
    /// The nanoseconds from `start` to this reading, modulo two to the power of
    /// 64; zero if `start` is later.
    pub open spec fn since(self, start: Reading) -> u64 {
        if self.nanos < start.nanos {
            0
        } else {
            (self.nanos - start.nanos) as u64
        }
    }

    /// The nanoseconds from `start` to this reading, modulo two to the power of
    /// 64; zero if `start` is later.
    pub fn nanos_from(self, start: Reading) -> (r: u64)
        ensures
            r == self.since(start),
            self.nanos < start.nanos ==> r == 0,
            start.nanos <= self.nanos ==> r == (self.nanos - start.nanos) % (u64::MAX + 1),
    {
        if self.nanos < start.nanos {
            return 0;
        }
        proof {
            lemma_lowest_bits((self.nanos - start.nanos) as u128);
        }
        #[verifier::truncate]
        let elapsed: u64 = (self.nanos - start.nanos) as u64;
        elapsed
    }
}

/// The lowest 64 bits of a number are the rest that two to the power of 64 leaves.
proof fn lemma_lowest_bits(n: u128)
    ensures
        n as u64 == n % 0x1_0000_0000_0000_0000,
{
    assert(n as u64 == n % 0x1_0000_0000_0000_0000) by (bit_vector);
}

/// A clock, with what it showed last.
#[derive(Debug)]
pub struct Clock {
    pub origin: Instant,
    pub latest: Reading,
}

impl Clock {
    /// Starts a clock; it shows zero.
    pub fn start() -> (clock: Clock)
        ensures
            clock.latest.nanos == 0,
    {
        Clock { origin: system_now(), latest: Reading { nanos: 0 } }
    }

    /// Reads the clock. What it shows depends on when it is read; the reading
    /// is kept as the latest one.
    pub fn read(&mut self) -> (now: Reading)
        ensures
            *final(self) == (Clock { latest: now, ..*old(self) }),
    {
        let now = Reading { nanos: nanos_since(&self.origin) };
        self.latest = now;
        now
    }
}

/// The parts of a frame that are timed on their own.
#[derive(Debug, Clone, Copy, PartialEq, Eq, Structural)]
pub enum PipelineStage {
    ProducerUpdate,
    TexCopy,
    Remove,
    Total,
}

/// Time spent in each part since the last report.
#[derive(Debug, Clone, Copy, PartialEq, Eq, Structural)]
pub struct StageTotals {
    pub producer_update: u64,
    pub tex_copy: u64,
    pub remove: u64,
    pub total: u64,
}

impl StageTotals {
    /// No time spent.
    pub open spec fn none() -> StageTotals {
        StageTotals { producer_update: 0, tex_copy: 0, remove: 0, total: 0 }
    }

    /// With more time spent in one part.
    pub open spec fn with(self, stage: PipelineStage, elapsed_ns: u64) -> StageTotals {
        match stage {
            PipelineStage::ProducerUpdate => StageTotals {
                producer_update: wrapped(self.producer_update, elapsed_ns),
                ..self
            },
            PipelineStage::TexCopy => StageTotals {
                tex_copy: wrapped(self.tex_copy, elapsed_ns),
                ..self
            },
            PipelineStage::Remove => StageTotals {
                remove: wrapped(self.remove, elapsed_ns),
                ..self
            },
            PipelineStage::Total => StageTotals { total: wrapped(self.total, elapsed_ns), ..self },
        }
    }
}

/// The sum of two counters, modulo two to the power of 64.
pub open spec fn wrapped(a: u64, b: u64) -> u64 {
    if a + b > u64::MAX {
        (a + b - 0x1_0000_0000_0000_0000) as u64
    } else {
        (a + b) as u64
    }
}

/// What is reported at the end of an interval.
#[derive(Debug, Clone, Copy, PartialEq, Eq, Structural)]
pub struct PerfReport {
    pub frames: u64,
    pub total_frames: u64,
    pub avg_frame_ns: u64,
    pub avg_texture_ns: u64,
    pub avg_submit_ns: u64,
    pub consecutive_drops: u64,
    pub total_drops: u64,
}

/// Counters of the frame loop.
#[derive(Debug)]
pub struct PerfStats {
    pub clock: Clock,
    pub frame_count: u64,
    pub last_log: Reading,
    pub frame_start: Option<Reading>,
    pub total_frame_time_ns: u64,
    pub total_texture_time_ns: u64,
    pub total_bind_time_ns: u64,
    pub total_submit_time_ns: u64,
    pub stages: StageTotals,
    pub frame_count_since_log: u64,
    pub consecutive_drops: u64,
    pub total_drops: u64,
}

impl Clone for PerfStats {
    fn clone(&self) -> (stats: PerfStats)
        ensures
            stats == *self,
    {
        PerfStats {
            clock: Clock { origin: self.clock.origin, latest: self.clock.latest },
            frame_count: self.frame_count,
            last_log: self.last_log,
            frame_start: self.frame_start,
            total_frame_time_ns: self.total_frame_time_ns,
            total_texture_time_ns: self.total_texture_time_ns,
            total_bind_time_ns: self.total_bind_time_ns,
            total_submit_time_ns: self.total_submit_time_ns,
            stages: self.stages,
            frame_count_since_log: self.frame_count_since_log,
            consecutive_drops: self.consecutive_drops,
            total_drops: self.total_drops,
        }
    }
}

impl PerfStats {
    /// Fewer frames than an interval have passed since the last report.
    pub open spec fn well_formed(self) -> bool {
        self.frame_count_since_log < LOG_INTERVAL
    }

    /// The statistics when one more frame, of the given length, has been added
    /// to the totals.
    pub open spec fn counted(self, elapsed_ns: u64) -> PerfStats {
        PerfStats {
            consecutive_drops: 0,
            total_frame_time_ns: wrapped(self.total_frame_time_ns, elapsed_ns),
            frame_count_since_log: wrapped(self.frame_count_since_log, 1),
            ..self
        }
    }

    /// The statistics with the rolling totals cleared.
    pub open spec fn cleared(self) -> PerfStats {
        PerfStats {
            frame_count_since_log: 0,
            total_frame_time_ns: 0,
            total_texture_time_ns: 0,
            total_bind_time_ns: 0,
            total_submit_time_ns: 0,
            stages: StageTotals::none(),
            ..self
        }
    }

    /// The averages over the frames since the last report.
    pub open spec fn averages(self) -> PerfReport {
        let n = if self.frame_count_since_log == 0 {
            1
        } else {
            self.frame_count_since_log
        };
        PerfReport {
            frames: n,
            total_frames: self.frame_count,
            avg_frame_ns: self.total_frame_time_ns / n,
            avg_texture_ns: self.total_texture_time_ns / n,
            avg_submit_ns: self.total_submit_time_ns / n,
            consecutive_drops: self.consecutive_drops,
            total_drops: self.total_drops,
        }
    }

    /// The statistics after a frame of the given length.
    pub open spec fn after_frame(self, elapsed_ns: u64) -> PerfStats {
        if self.counted(elapsed_ns).frame_count_since_log >= LOG_INTERVAL {
            self.counted(elapsed_ns).cleared()
        } else {
            self.counted(elapsed_ns)
        }
    }

    /// What is reported after a frame of the given length.
    pub open spec fn report_after(self, elapsed_ns: u64) -> Option<PerfReport> {
        if self.counted(elapsed_ns).frame_count_since_log >= LOG_INTERVAL {
            Some(self.counted(elapsed_ns).averages())
        } else {
            None
        }
    }

    /// The statistics with every counter at zero and no frame begun, on a clock
    /// that has just been started.
    pub open spec fn fresh(origin: Instant) -> PerfStats {
        let zero = Reading { nanos: 0 };
        PerfStats {
            clock: Clock { origin, latest: zero },
            frame_count: 0,
            last_log: zero,
            frame_start: None,
            total_frame_time_ns: 0,
            total_texture_time_ns: 0,
            total_bind_time_ns: 0,
            total_submit_time_ns: 0,
            stages: StageTotals::none(),
            frame_count_since_log: 0,
            consecutive_drops: 0,
            total_drops: 0,
        }
    }

    /// The statistics when the clock was read and showed `now`.
    pub open spec fn at(self, now: Reading) -> PerfStats {
        PerfStats { clock: Clock { latest: now, ..self.clock }, ..self }
    }

    /// The statistics when a frame has begun at `now`.
    pub open spec fn begun(self, now: Reading) -> PerfStats {
        PerfStats {
            frame_count: wrapped(self.frame_count, 1),
            frame_start: Some(now),
            ..self
        }
    }

    /// The statistics when the frame that was begun, if one was, has ended at
    /// `now`. Its length counts from when it was begun. If a report was due, it
    /// was made at `now`.
    pub open spec fn recorded(self, now: Reading) -> PerfStats {
        match self.frame_start {
            None => PerfStats { consecutive_drops: 0, ..self },
            Some(start) => PerfStats {
                last_log: if self.report_after(now.since(start)) is Some {
                    now
                } else {
                    self.last_log
                },
                ..self.after_frame(now.since(start))
            },
        }
    }

    /// What is reported when the frame that was begun, if one was, has ended at
    /// `now`.
    pub open spec fn recorded_report(self, now: Reading) -> Option<PerfReport> {
        match self.frame_start {
            None => None,
            Some(start) => self.report_after(now.since(start)),
        }
    }

    /// All counters at zero, no frame begun, on a clock that is started now.
    pub fn new() -> (stats: PerfStats)
        ensures
            stats == PerfStats::fresh(stats.clock.origin),
            stats.clock.latest.nanos == 0,
            stats.last_log.nanos == 0,
            stats.frame_start is None,
            stats.frame_count == 0,
            stats.frame_count_since_log == 0,
            stats.total_frame_time_ns == 0,
            stats.total_texture_time_ns == 0,
            stats.total_bind_time_ns == 0,
            stats.total_submit_time_ns == 0,
            stats.consecutive_drops == 0,
            stats.total_drops == 0,
            stats.well_formed(),
    {
        let clock = Clock::start();
        let now = clock.latest;
        PerfStats {
            clock,
            frame_count: 0,
            last_log: now,
            frame_start: None,
            total_frame_time_ns: 0,
            total_texture_time_ns: 0,
            total_bind_time_ns: 0,
            total_submit_time_ns: 0,
            stages: StageTotals { producer_update: 0, tex_copy: 0, remove: 0, total: 0 },
            frame_count_since_log: 0,
            consecutive_drops: 0,
            total_drops: 0,
        }
    }

    /// Reads the clock, counts a frame, and notes the reading as its beginning.
    pub fn begin_frame(&mut self)
        ensures
            *final(self) == old(self).at(final(self).clock.latest).begun(
                final(self).clock.latest,
            ),
            final(self).frame_count == (old(self).frame_count + 1) % (u64::MAX + 1),
            final(self).frame_start == Some(final(self).clock.latest),
            old(self).well_formed() ==> final(self).well_formed(),
    {
        let now = self.clock.read();
        self.begin_frame_at(now);
    }

    /// Counts a frame that begins at `now`, whether or not one was begun
    /// before.
    pub fn begin_frame_at(&mut self, now: Reading)
        ensures
            *final(self) == old(self).begun(now),
            final(self).frame_count == (old(self).frame_count + 1) % (u64::MAX + 1),
            final(self).frame_start == Some(now),
    {
        self.frame_count = self.frame_count.wrapping_add(1);
        self.frame_start = Some(now);
    }

    /// Adds to the time spent on textures.
    pub fn record_texture(&mut self, elapsed_ns: u64)
        ensures
            *final(self) == (PerfStats {
                total_texture_time_ns: wrapped(old(self).total_texture_time_ns, elapsed_ns),
                ..*old(self)
            }),
            final(self).total_texture_time_ns == (old(self).total_texture_time_ns + elapsed_ns) % (u64::MAX
                + 1),
    {
        self.total_texture_time_ns = self.total_texture_time_ns.wrapping_add(elapsed_ns);
    }

    /// Adds to the time spent on binding the target.
    pub fn record_bind(&mut self, elapsed_ns: u64)
        ensures
            *final(self) == (PerfStats {
                total_bind_time_ns: wrapped(old(self).total_bind_time_ns, elapsed_ns),
                ..*old(self)
            }),
            final(self).total_bind_time_ns == (old(self).total_bind_time_ns + elapsed_ns) % (u64::MAX
                + 1),
    {
        self.total_bind_time_ns = self.total_bind_time_ns.wrapping_add(elapsed_ns);
    }

    /// Adds to the time spent on submitting.
    pub fn record_submit(&mut self, elapsed_ns: u64)
        ensures
            *final(self) == (PerfStats {
                total_submit_time_ns: wrapped(old(self).total_submit_time_ns, elapsed_ns),
                ..*old(self)
            }),
            final(self).total_submit_time_ns == (old(self).total_submit_time_ns + elapsed_ns) % (u64::MAX
                + 1),
    {
        self.total_submit_time_ns = self.total_submit_time_ns.wrapping_add(elapsed_ns);
    }

    /// Adds to the time spent in one part of the frame.
    pub fn record_stage(&mut self, stage: PipelineStage, elapsed_ns: u64)
        ensures
            *final(self) == (PerfStats {
                stages: old(self).stages.with(stage, elapsed_ns),
                ..*old(self)
            }),
            final(self).stages.producer_update == if stage is ProducerUpdate {
                (old(self).stages.producer_update + elapsed_ns) % (u64::MAX + 1)
            } else {
                old(self).stages.producer_update as int
            },
            final(self).stages.tex_copy == if stage is TexCopy {
                (old(self).stages.tex_copy + elapsed_ns) % (u64::MAX + 1)
            } else {
                old(self).stages.tex_copy as int
            },
            final(self).stages.remove == if stage is Remove {
                (old(self).stages.remove + elapsed_ns) % (u64::MAX + 1)
            } else {
                old(self).stages.remove as int
            },
            final(self).stages.total == if stage is Total {
                (old(self).stages.total + elapsed_ns) % (u64::MAX + 1)
            } else {
                old(self).stages.total as int
            },
    {
        match stage {
            PipelineStage::ProducerUpdate => {
                self.stages.producer_update = self.stages.producer_update.wrapping_add(elapsed_ns);
            },
            PipelineStage::TexCopy => {
                self.stages.tex_copy = self.stages.tex_copy.wrapping_add(elapsed_ns);
            },
            PipelineStage::Remove => {
                self.stages.remove = self.stages.remove.wrapping_add(elapsed_ns);
            },
            PipelineStage::Total => {
                self.stages.total = self.stages.total.wrapping_add(elapsed_ns);
            },
        }
    }

    /// Counts an update that brought nothing new.
    pub fn record_dropped(&mut self)
        ensures
            *final(self) == (PerfStats {
                consecutive_drops: wrapped(old(self).consecutive_drops, 1),
                total_drops: wrapped(old(self).total_drops, 1),
                ..*old(self)
            }),
            final(self).consecutive_drops == (old(self).consecutive_drops + 1) % (u64::MAX + 1),
            final(self).total_drops == (old(self).total_drops + 1) % (u64::MAX + 1),
    {
        self.consecutive_drops = self.consecutive_drops.wrapping_add(1);
        self.total_drops = self.total_drops.wrapping_add(1);
    }

    /// Ends the frame that was begun, if one was, at the time that the clock
    /// shows. Once per interval the averages come back and the rolling totals
    /// start again. Without a frame the clock is not read.
    pub fn record_frame(&mut self) -> (report: Option<PerfReport>)
        ensures
            *final(self) == old(self).at(final(self).clock.latest).recorded(
                final(self).clock.latest,
            ),
            report == old(self).recorded_report(final(self).clock.latest),
            final(self).consecutive_drops == 0,
            final(self).total_drops == old(self).total_drops,
            final(self).frame_count == old(self).frame_count,
            final(self).frame_start == old(self).frame_start,
            final(self).last_log == if report is Some {
                final(self).clock.latest
            } else {
                old(self).last_log
            },
            old(self).frame_start is None ==> final(self).clock == old(self).clock,
            old(self).well_formed() ==> final(self).well_formed(),
    {
        let mut now = self.clock.latest;
        if self.frame_start.is_some() {
            now = self.clock.read();
        }
        self.record_frame_at(now)
    }

    /// Ends the frame that was begun, if one was, at `now`. Once per interval
    /// the averages come back, `now` is kept as the time of the report, and the
    /// rolling totals start again.
    pub fn record_frame_at(&mut self, now: Reading) -> (report: Option<PerfReport>)
        ensures
            *final(self) == old(self).recorded(now),
            report == old(self).recorded_report(now),
            final(self).consecutive_drops == 0,
            final(self).total_drops == old(self).total_drops,
            final(self).frame_count == old(self).frame_count,
            final(self).frame_start == old(self).frame_start,
            final(self).last_log == if report is Some {
                now
            } else {
                old(self).last_log
            },
            old(self).well_formed() ==> final(self).well_formed(),
    {
        match self.frame_start {
            None => {
                self.consecutive_drops = 0;
                None
            },
            Some(start) => {
                let report = self.finish_frame(now.nanos_from(start));
                if report.is_some() {
                    self.last_log = now;
                }
                report
            },
        }
    }

    /// Ends a frame of the given length. Once per interval the averages come
    /// back and the rolling totals start again.
    pub fn finish_frame(&mut self, elapsed_ns: u64) -> (report: Option<PerfReport>)
        ensures
            *final(self) == old(self).after_frame(elapsed_ns),
            report == old(self).report_after(elapsed_ns),
            old(self).frame_count_since_log < 59 ==> {
                &&& report is None
                &&& final(self).frame_count_since_log == old(self).frame_count_since_log + 1
                &&& final(self).total_frame_time_ns == (old(self).total_frame_time_ns + elapsed_ns)
                    % (u64::MAX + 1)
            },
            old(self).frame_count_since_log == 59 ==> {
                &&& report is Some
                &&& final(self).frame_count_since_log == 0
                &&& final(self).total_frame_time_ns == 0
                &&& report->0.avg_frame_ns == ((old(self).total_frame_time_ns + elapsed_ns) % (
                u64::MAX + 1)) / 60
            },
            old(self).well_formed() ==> final(self).well_formed(),
            old(self).well_formed() && report is Some ==> report->0.frames == LOG_INTERVAL,
    {
        self.consecutive_drops = 0;
        self.total_frame_time_ns = self.total_frame_time_ns.wrapping_add(elapsed_ns);
        self.frame_count_since_log = self.frame_count_since_log.wrapping_add(1);
        if self.frame_count_since_log >= LOG_INTERVAL {
            let report = self.log();
            self.frame_count_since_log = 0;
            self.total_frame_time_ns = 0;
            self.total_texture_time_ns = 0;
            self.total_bind_time_ns = 0;
            self.total_submit_time_ns = 0;
            self.stages = StageTotals { producer_update: 0, tex_copy: 0, remove: 0, total: 0 };
            Some(report)
        } else {
            None
        }
    }

    /// The averages over the frames since the last report.
    pub fn log(&self) -> (report: PerfReport)
        ensures
            report == self.averages(),
            report.total_frames == self.frame_count,
            report.consecutive_drops == self.consecutive_drops,
            report.total_drops == self.total_drops,
            self.frame_count_since_log > 0 ==> {
                &&& report.frames == self.frame_count_since_log
                &&& report.avg_frame_ns == self.total_frame_time_ns / self.frame_count_since_log
                &&& report.avg_texture_ns == self.total_texture_time_ns
                    / self.frame_count_since_log
                &&& report.avg_submit_ns == self.total_submit_time_ns / self.frame_count_since_log
            },
    {
        let n: u64 = if self.frame_count_since_log == 0 {
            1
        } else {
            self.frame_count_since_log
        };
        PerfReport {
            frames: n,
            total_frames: self.frame_count,
            avg_frame_ns: self.total_frame_time_ns / n,
            avg_texture_ns: self.total_texture_time_ns / n,
            avg_submit_ns: self.total_submit_time_ns / n,
            consecutive_drops: self.consecutive_drops,
            total_drops: self.total_drops,
        }
    }
}

/// The statistics after frames of the given lengths, in order.
pub open spec fn after_frames(stats: PerfStats, lengths: Seq<u64>) -> PerfStats
    decreases lengths.len(),
{
    if lengths.len() == 0 {
        stats
    } else {
        after_frames(stats, lengths.drop_last()).after_frame(lengths.last())
    }
}

/// The sum of the lengths.
pub open spec fn total_length(lengths: Seq<u64>) -> int
    decreases lengths.len(),
{
    if lengths.len() == 0 {
        0
    } else {
        total_length(lengths.drop_last()) + lengths.last()
    }
}

/// Short of a whole interval of frames nothing is reported: the totals hold
/// all of them.
proof fn lemma_within_interval(stats: PerfStats, lengths: Seq<u64>)
    requires
        stats.frame_count_since_log == 0,
        stats.total_frame_time_ns == 0,
        lengths.len() < LOG_INTERVAL,
        total_length(lengths) <= u64::MAX,
    ensures
        after_frames(stats, lengths).frame_count_since_log == lengths.len(),
        after_frames(stats, lengths).total_frame_time_ns == total_length(lengths),
        after_frames(stats, lengths).frame_count == stats.frame_count,
        after_frames(stats, lengths).total_drops == stats.total_drops,
        after_frames(stats, lengths).total_texture_time_ns == stats.total_texture_time_ns,
        after_frames(stats, lengths).total_submit_time_ns == stats.total_submit_time_ns,
    decreases lengths.len(),
{
    if lengths.len() > 0 {
        lemma_within_interval(stats, lengths.drop_last());
    }
}

/// A report comes with every frame that completes an interval and with no
/// other, and it gives the average length of the frames of that interval.
pub proof fn law_report_once_per_interval(stats: PerfStats, lengths: Seq<u64>, last: u64)
    requires
        stats.frame_count_since_log == 0,
        stats.total_frame_time_ns == 0,
        lengths.len() < LOG_INTERVAL,
        total_length(lengths) + last <= u64::MAX,
    ensures
        ({
            let report = after_frames(stats, lengths).report_after(last);
            &&& report is Some <==> lengths.len() + 1 == LOG_INTERVAL
            &&& report matches Some(r) ==> {
                &&& r.frames == LOG_INTERVAL
                &&& r.avg_frame_ns == (total_length(lengths) + last) / LOG_INTERVAL as int
                &&& after_frames(stats, lengths).after_frame(last).frame_count_since_log == 0
                &&& after_frames(stats, lengths).after_frame(last).total_frame_time_ns == 0
            }
        }),
{
    lemma_within_interval(stats, lengths);
}

/// A completed frame ends the run of skipped updates and leaves their overall
/// number alone.
pub proof fn law_frame_ends_the_run_of_drops(stats: PerfStats, elapsed_ns: u64)
    ensures
        stats.after_frame(elapsed_ns).consecutive_drops == 0,
        stats.after_frame(elapsed_ns).total_drops == stats.total_drops,
        stats.after_frame(elapsed_ns).frame_count == stats.frame_count,
{
}

/// A frame lasts from when it was begun last to when it is recorded, whatever
/// was begun before; short of a whole interval that is what is added to the
/// time of all frames.
pub proof fn law_frame_time_counts_from_its_start(
    stats: PerfStats,
    before: Reading,
    start: Reading,
    end: Reading,
)
    requires
        stats.frame_count_since_log + 1 < LOG_INTERVAL,
        start.nanos <= end.nanos,
        end.nanos - start.nanos <= u64::MAX,
        stats.total_frame_time_ns + (end.nanos - start.nanos) <= u64::MAX,
    ensures
        stats.begun(before).begun(start).recorded(end).total_frame_time_ns
            == stats.total_frame_time_ns + (end.nanos - start.nanos),
{
}

/// Counters wrap around at two to the power of 64, and elapsed times are taken
/// modulo that; a time that runs backwards counts as none.
pub proof fn law_counters_wrap_around(a: u64, b: u64, start: Reading, end: Reading)
    ensures
        wrapped(a, b) == (a + b) % (u64::MAX + 1),
        a + b <= u64::MAX ==> wrapped(a, b) == a + b,
        start.nanos <= end.nanos ==> end.since(start) == (end.nanos - start.nanos) % (u64::MAX + 1),
        end.nanos < start.nanos ==> end.since(start) == 0,
{
    if start.nanos <= end.nanos {
        lemma_lowest_bits((end.nanos - start.nanos) as u128);
    }
}

/// Time that is recorded for one part of the frame is added to that part, and to
/// no other.
pub proof fn law_stage_time_goes_to_its_stage(
    totals: StageTotals,
    stage: PipelineStage,
    elapsed_ns: u64,
)
    ensures
        ({
            let after = totals.with(stage, elapsed_ns);
            &&& after.producer_update == if stage is ProducerUpdate {
                (totals.producer_update + elapsed_ns) % (u64::MAX + 1)
            } else {
                totals.producer_update as int
            }
            &&& after.tex_copy == if stage is TexCopy {
                (totals.tex_copy + elapsed_ns) % (u64::MAX + 1)
            } else {
                totals.tex_copy as int
            }
            &&& after.remove == if stage is Remove {
                (totals.remove + elapsed_ns) % (u64::MAX + 1)
            } else {
                totals.remove as int
            }
            &&& after.total == if stage is Total {
                (totals.total + elapsed_ns) % (u64::MAX + 1)
            } else {
                totals.total as int
            }
        }),
        StageTotals::none().producer_update == 0,
        StageTotals::none().tex_copy == 0,
        StageTotals::none().remove == 0,
        StageTotals::none().total == 0,
{
}

/// A frame within an interval adds its length to the time of all frames and one
/// to their number, and nothing else changes but that the run of skipped updates
/// ends. Nothing is reported.
pub proof fn law_frame_within_an_interval(stats: PerfStats, elapsed_ns: u64)
    requires
        stats.frame_count_since_log < 59,
    ensures
        ({
            let after = stats.after_frame(elapsed_ns);
            &&& stats.report_after(elapsed_ns) is None
            &&& after.frame_count_since_log == stats.frame_count_since_log + 1
            &&& after.total_frame_time_ns == (stats.total_frame_time_ns + elapsed_ns) % (u64::MAX + 1)
            &&& after.total_texture_time_ns == stats.total_texture_time_ns
            &&& after.total_bind_time_ns == stats.total_bind_time_ns
            &&& after.total_submit_time_ns == stats.total_submit_time_ns
            &&& after.stages == stats.stages
            &&& after.consecutive_drops == 0
            &&& after.total_drops == stats.total_drops
            &&& after.frame_count == stats.frame_count
            &&& after.frame_start == stats.frame_start
            &&& after.last_log == stats.last_log
            &&& after.clock == stats.clock
        }),
{
}

/// The frame that completes an interval brings the report: the averages over the
/// interval and the numbers since the beginning. All rolling totals are at zero
/// after it, and the numbers since the beginning stay.
pub proof fn law_frame_that_completes_an_interval(stats: PerfStats, elapsed_ns: u64)
    requires
        stats.frame_count_since_log == 59,
    ensures
        ({
            let after = stats.after_frame(elapsed_ns);
            &&& after.frame_count_since_log == 0
            &&& after.total_frame_time_ns == 0
            &&& after.total_texture_time_ns == 0
            &&& after.total_bind_time_ns == 0
            &&& after.total_submit_time_ns == 0
            &&& after.stages.producer_update == 0
            &&& after.stages.tex_copy == 0
            &&& after.stages.remove == 0
            &&& after.stages.total == 0
            &&& after.consecutive_drops == 0
            &&& after.total_drops == stats.total_drops
            &&& after.frame_count == stats.frame_count
            &&& after.frame_start == stats.frame_start
            &&& after.last_log == stats.last_log
            &&& after.clock == stats.clock
        }),
        stats.report_after(elapsed_ns) matches Some(report) && {
            &&& report.frames == 60
            &&& report.total_frames == stats.frame_count
            &&& report.avg_frame_ns == ((stats.total_frame_time_ns + elapsed_ns) % (u64::MAX + 1)) / 60
            &&& report.avg_texture_ns == stats.total_texture_time_ns / 60
            &&& report.avg_submit_ns == stats.total_submit_time_ns / 60
            &&& report.consecutive_drops == 0
            &&& report.total_drops == stats.total_drops
        },
{
}

/// An average times the number of frames is the total, but for less than one
/// frame's worth that the division leaves.
pub proof fn law_averages_times_frames(stats: PerfStats)
    requires
        stats.frame_count_since_log > 0,
    ensures
        ({
            let report = stats.averages();
            let n = stats.frame_count_since_log as int;
            &&& report.frames == n
            &&& 0 <= stats.total_frame_time_ns - report.avg_frame_ns * n < n
            &&& 0 <= stats.total_texture_time_ns - report.avg_texture_ns * n < n
            &&& 0 <= stats.total_submit_time_ns - report.avg_submit_ns * n < n
            &&& report.total_frames == stats.frame_count
            &&& report.consecutive_drops == stats.consecutive_drops
            &&& report.total_drops == stats.total_drops
        }),
{
    let n = stats.frame_count_since_log as int;
    lemma_quotient(stats.total_frame_time_ns as int, n);
    lemma_quotient(stats.total_texture_time_ns as int, n);
    lemma_quotient(stats.total_submit_time_ns as int, n);
}

proof fn lemma_quotient(a: int, n: int)
    requires
        n > 0,
    ensures
        0 <= a - (a / n) * n < n,
{
    vstd::arithmetic::div_mod::lemma_fundamental_div_mod(a, n);
    assert((a / n) * n == n * (a / n)) by (nonlinear_arith);
}

/// Beginning a frame counts it and notes when, whatever was noted before; reading
/// the clock notes the reading. Neither touches the totals.
pub proof fn law_beginning_notes_the_time(stats: PerfStats, now: Reading)
    ensures
        stats.begun(now).frame_count == (stats.frame_count + 1) % (u64::MAX + 1),
        stats.begun(now).frame_start == Some(now),
        stats.begun(now).clock == stats.clock,
        stats.begun(now).last_log == stats.last_log,
        stats.begun(now).total_frame_time_ns == stats.total_frame_time_ns,
        stats.begun(now).total_texture_time_ns == stats.total_texture_time_ns,
        stats.begun(now).total_bind_time_ns == stats.total_bind_time_ns,
        stats.begun(now).total_submit_time_ns == stats.total_submit_time_ns,
        stats.begun(now).stages == stats.stages,
        stats.begun(now).frame_count_since_log == stats.frame_count_since_log,
        stats.begun(now).consecutive_drops == stats.consecutive_drops,
        stats.begun(now).total_drops == stats.total_drops,
        stats.at(now).clock.latest == now,
        stats.at(now).clock.origin == stats.clock.origin,
        stats.at(now) == (PerfStats { clock: stats.at(now).clock, ..stats }),
{
}

/// Ending a frame that was never begun only ends the run of skipped updates.
pub proof fn law_no_frame_to_record(stats: PerfStats, now: Reading)
    requires
        stats.frame_start is None,
    ensures
        stats.recorded_report(now) is None,
        stats.recorded(now).consecutive_drops == 0,
        stats.recorded(now) == (PerfStats { consecutive_drops: 0, ..stats }),
{
}

/// Ending a frame counts the time since it was begun, and notes the time of the
/// report if there is one.
pub proof fn law_recorded_frame(stats: PerfStats, start: Reading, now: Reading)
    requires
        stats.frame_start == Some(start),
        stats.frame_count_since_log < 60,
        start.nanos <= now.nanos,
    ensures
        ({
            let after = stats.recorded(now);
            let sum = (stats.total_frame_time_ns + (now.nanos - start.nanos)) % (u64::MAX + 1);
            &&& stats.recorded_report(now) is Some <==> stats.frame_count_since_log == 59
            &&& stats.frame_count_since_log == 59 ==> after.last_log == now
                && after.total_frame_time_ns == 0 && stats.recorded_report(now)->0.avg_frame_ns
                == sum / 60
            &&& stats.frame_count_since_log < 59 ==> after.last_log == stats.last_log
                && after.total_frame_time_ns == sum
            &&& after.consecutive_drops == 0
            &&& after.total_drops == stats.total_drops
            &&& after.frame_count == stats.frame_count
            &&& after.frame_start == Some(start)
        }),
{
    let length = now.nanos - start.nanos;
    lemma_lowest_bits(length as u128);
    vstd::arithmetic::div_mod::lemma_add_mod_noop(
        stats.total_frame_time_ns as int,
        length as int,
        u64::MAX + 1,
    );
}

/// Of a sequence of frames the lengths add up one by one.
pub proof fn law_lengths_add_up(stats: PerfStats, lengths: Seq<u64>, last: u64)
    ensures
        total_length(Seq::<u64>::empty()) == 0,
        total_length(lengths.push(last)) == total_length(lengths) + last,
        after_frames(stats, Seq::<u64>::empty()) == stats,
        after_frames(stats, lengths.push(last)) == after_frames(stats, lengths).after_frame(last),
{
    assert(lengths.push(last).drop_last() =~= lengths);
}

} // verus!
