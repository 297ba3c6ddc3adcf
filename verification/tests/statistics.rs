//! Frame statistics.

use looking_glass_ng::perf::{Clock, PerfStats, PipelineStage, Reading, LOG_INTERVAL};
use std::time::{Duration, Instant};

#[test]
fn statistics_start_at_zero() {
    let stats = PerfStats::new();
    assert_eq!(stats.frame_count, 0);
    assert_eq!(stats.total_frame_time_ns, 0);
    assert_eq!(stats.frame_count_since_log, 0);
    assert_eq!(stats.total_drops, 0);
    assert!(stats.frame_start.is_none());
}

fn at(nanos: u128) -> Reading {
    Reading { nanos }
}

/// Lets some time pass.
fn wait(millis: u64) {
    let start = Instant::now();
    while start.elapsed() < Duration::from_millis(millis) {}
}

#[test]
fn clock_counts_from_its_start() {
    let before = Instant::now();
    let mut clock = Clock::start();
    assert_eq!(clock.latest, at(0));
    wait(3);
    let first = clock.read();
    assert_eq!(clock.latest, first);
    assert!(first.nanos >= 3_000_000);
    assert!(first.nanos <= before.elapsed().as_nanos());
    wait(2);
    let second = clock.read();
    assert!(second.nanos_from(first) >= 2_000_000);
    assert_eq!(first.nanos_from(second), 0);
}

#[test]
fn time_between_readings() {
    assert_eq!(at(10).nanos_from(at(3)), 7);
    assert_eq!(at(3).nanos_from(at(3)), 0);
    assert_eq!(at(3).nanos_from(at(10)), 0);
    assert_eq!(at(1 << 64).nanos_from(at(0)), 0);
    assert_eq!(at((1 << 64) + 5).nanos_from(at(1)), 4);
}

#[test]
fn each_frame_has_its_own_start() {
    let mut stats = PerfStats::new();
    stats.begin_frame();
    let first = stats.frame_start.unwrap();
    assert_eq!(stats.clock.latest, first);
    wait(2);
    stats.begin_frame();
    let second = stats.frame_start.unwrap();
    assert!(second.nanos_from(first) >= 2_000_000);
    assert_eq!(stats.frame_count, 2);
    assert_eq!(stats.record_frame(), None);
    assert_eq!(stats.total_frame_time_ns, stats.clock.latest.nanos_from(second));
}

#[test]
fn frame_length_is_measured() {
    let mut stats = PerfStats::new();
    wait(3);
    stats.begin_frame();
    wait(3);
    assert_eq!(stats.record_frame(), None);
    assert!(stats.total_frame_time_ns >= 3_000_000);
    assert_eq!(
        stats.total_frame_time_ns,
        stats.clock.latest.nanos_from(stats.frame_start.unwrap())
    );
    assert_eq!(stats.frame_count_since_log, 1);
}

#[test]
fn statistics_from_given_readings() {
    let mut stats = PerfStats::new();
    assert_eq!(stats.last_log, at(0));
    assert_eq!(stats.record_frame_at(at(50)), None);
    assert_eq!(stats.total_frame_time_ns, 0);
    stats.begin_frame_at(at(5));
    stats.begin_frame_at(at(93));
    assert_eq!(stats.frame_start, Some(at(93)));
    assert_eq!(stats.frame_count, 2);
    assert_eq!(stats.record_frame_at(at(100)), None);
    assert_eq!(stats.total_frame_time_ns, 7);
    assert_eq!(stats.last_log, at(0));
    stats.frame_count_since_log = LOG_INTERVAL - 1;
    let report = stats.record_frame_at(at(146)).unwrap();
    assert_eq!(report.avg_frame_ns, 1);
    assert_eq!(stats.last_log, at(146));
    assert_eq!(stats.total_frame_time_ns, 0);
    stats.begin_frame_at(at(200));
    assert_eq!(stats.record_frame_at(at(150)), None);
    assert_eq!(stats.total_frame_time_ns, 0);
}

#[test]
fn frame_that_was_not_begun_only_ends_the_run_of_drops() {
    let mut stats = PerfStats::new();
    stats.record_dropped();
    stats.record_dropped();
    assert_eq!((stats.consecutive_drops, stats.total_drops), (2, 2));
    assert_eq!(stats.record_frame(), None);
    assert_eq!((stats.consecutive_drops, stats.total_drops), (0, 2));
    assert_eq!(stats.frame_count_since_log, 0);
}

#[test]
fn report_once_per_interval() {
    let mut stats = PerfStats::new();
    stats.record_texture(6000);
    stats.record_bind(1);
    stats.record_submit(1200);
    stats.record_stage(PipelineStage::TexCopy, 4);
    for i in 1..LOG_INTERVAL {
        stats.begin_frame();
        assert_eq!(stats.finish_frame(i), None);
    }
    stats.record_dropped();
    stats.begin_frame();
    let report = stats.finish_frame(60).unwrap();
    assert_eq!(report.frames, 60);
    assert_eq!(report.total_frames, 60);
    assert_eq!(report.avg_frame_ns, 30);
    assert_eq!(report.avg_texture_ns, 100);
    assert_eq!(report.avg_submit_ns, 20);
    assert_eq!(report.consecutive_drops, 0);
    assert_eq!(report.total_drops, 1);
    assert_eq!(stats.total_frame_time_ns, 0);
    assert_eq!(stats.total_texture_time_ns, 0);
    assert_eq!(stats.total_bind_time_ns, 0);
    assert_eq!(stats.total_submit_time_ns, 0);
    assert_eq!(stats.stages.tex_copy, 0);
    assert_eq!(stats.frame_count_since_log, 0);
    assert_eq!(stats.finish_frame(1), None);
}

#[test]
fn report_moves_the_time_of_the_last_one() {
    let mut stats = PerfStats::new();
    wait(1);
    stats.begin_frame();
    stats.frame_count_since_log = LOG_INTERVAL - 1;
    assert!(stats.record_frame().is_some());
    assert!(stats.last_log.nanos >= 1_000_000);
    assert_eq!(stats.last_log, stats.clock.latest);
}

#[test]
fn averages_of_nothing() {
    let stats = PerfStats::new();
    let report = stats.log();
    assert_eq!(report.frames, 1);
    assert_eq!(report.avg_frame_ns, 0);
}

#[test]
fn stages_are_summed_apart() {
    let mut stats = PerfStats::new();
    stats.record_stage(PipelineStage::ProducerUpdate, 1);
    stats.record_stage(PipelineStage::TexCopy, 2);
    stats.record_stage(PipelineStage::Remove, 3);
    stats.record_stage(PipelineStage::Total, 4);
    stats.record_stage(PipelineStage::Total, 5);
    assert_eq!(stats.stages.producer_update, 1);
    assert_eq!(stats.stages.tex_copy, 2);
    assert_eq!(stats.stages.remove, 3);
    assert_eq!(stats.stages.total, 9);
}

#[test]
fn counters_wrap_around() {
    let mut stats = PerfStats::new();
    stats.record_texture(u64::MAX);
    stats.record_texture(3);
    assert_eq!(stats.total_texture_time_ns, 2);
    let copy = stats.clone();
    assert_eq!(copy.total_texture_time_ns, 2);
    assert_eq!(copy.last_log, stats.last_log);
}
