use drawing_engine::config::DrawingConfig;
use drawing_engine::engine::DrawingEngine;
use drawing_engine::generate::{process_image, Tables};
use drawing_engine::mask::ActivationMask;
use drawing_engine::raster::Picture;
use drawing_engine::status::DrawingStatus;
use drawing_engine::worker::{PlaybackWorker, WorkerStep, GRACE_POLLS, POLL_MS};
use std::sync::atomic::AtomicBool;
use std::sync::Arc;

fn job_config(speed: u64, x: i32, y: i32) -> DrawingConfig {
    DrawingConfig { speed, method: "matrix".to_string(), width: 2, height: 2, x, y }
}

fn mask(width: u32, height: u32, cells: &[bool]) -> ActivationMask {
    ActivationMask::new(width, height, cells.to_vec()).unwrap()
}

fn past_grace(mask: ActivationMask, config: &DrawingConfig) -> PlaybackWorker {
    let mut worker = PlaybackWorker::new(mask, config);
    for _ in 0..GRACE_POLLS {
        let (status, step) = worker.step(DrawingStatus::Running, false);
        assert_eq!(status, DrawingStatus::Running);
        assert_eq!(step, WorkerStep::Wait { millis: POLL_MS });
    }
    worker
}

#[test]
fn fresh_worker_starts_before_the_grace_period() {
    let worker = PlaybackWorker::new(mask(2, 1, &[true, false]), &job_config(0, 4, 5));
    assert_eq!(worker.grace_left, 30);
    assert_eq!(worker.cursor, 0);
    assert!(!worker.finished);
    assert_eq!(worker.delay_ms, 1);
    assert_eq!((worker.origin_x, worker.origin_y), (4, 5));
    assert_eq!(POLL_MS, 100);
}

#[test]
fn grace_period_waits_thirty_polls_then_work_begins() {
    let mut worker = PlaybackWorker::new(mask(2, 1, &[true, false]), &job_config(5, 0, 0));
    for left in (0..30).rev() {
        let (status, step) = worker.step(DrawingStatus::Running, false);
        assert_eq!(status, DrawingStatus::Running);
        assert_eq!(step, WorkerStep::Wait { millis: 100 });
        assert_eq!(worker.grace_left, left);
        assert_eq!(worker.cursor, 0);
    }
    let (_, step) = worker.step(DrawingStatus::Running, false);
    assert_eq!(step, WorkerStep::Click { x: 0, y: 0, delay_ms: 5 });
}

#[test]
fn grace_period_runs_on_while_paused() {
    let mut worker = PlaybackWorker::new(mask(1, 1, &[true]), &job_config(5, 0, 0));
    let (status, step) = worker.step(DrawingStatus::Paused, false);
    assert_eq!(status, DrawingStatus::Paused);
    assert_eq!(step, WorkerStep::Wait { millis: 100 });
    assert_eq!(worker.grace_left, 29);
}

#[test]
fn grace_period_honours_stop_and_emergency() {
    let mut stopped = PlaybackWorker::new(mask(1, 1, &[true]), &job_config(5, 0, 0));
    assert_eq!(
        stopped.step(DrawingStatus::Stopped, false),
        (DrawingStatus::Idle, WorkerStep::Finished)
    );
    assert!(stopped.finished);
    let mut aborted = PlaybackWorker::new(mask(1, 1, &[true]), &job_config(5, 0, 0));
    assert_eq!(
        aborted.step(DrawingStatus::Running, true),
        (DrawingStatus::Stopped, WorkerStep::Finished)
    );
    assert!(aborted.finished);
}

#[test]
fn two_by_two_black_image_is_drawn_in_row_major_order() {
    let mut rgba = Vec::new();
    for _ in 0..4 {
        rgba.extend_from_slice(&[0, 0, 0, 255]);
    }
    let picture = Picture::new(2, 2, rgba).unwrap();
    let tables = Tables { spiral_samples: Vec::new(), stipple_levels: Vec::new() };
    let plan = process_image(&picture, "matrix", &tables);
    assert_eq!(plan.mask.cells, vec![true, true, true, true]);
    assert!(plan.order.is_empty());

    let mut engine = DrawingEngine::new(Arc::new(AtomicBool::new(false)));
    let job = engine.start("black.png".to_string(), job_config(1, 10, 10)).unwrap();
    let mut worker = PlaybackWorker::new(plan.mask, &job.config);
    let mut clicks = Vec::new();
    let mut waits = 0;
    loop {
        match engine.advance(&mut worker) {
            WorkerStep::Click { x, y, delay_ms } => {
                assert_eq!(delay_ms, 1);
                assert_eq!(engine.status(), DrawingStatus::Running);
                clicks.push((x, y));
            }
            WorkerStep::Wait { millis } => {
                assert_eq!(millis, 100);
                waits += 1;
            }
            WorkerStep::Skip => panic!("every cell of a black image is active"),
            WorkerStep::Finished => break,
        }
    }
    assert_eq!(waits, 30);
    assert_eq!(clicks, vec![(10, 10), (11, 10), (10, 11), (11, 11)]);
    assert_eq!(engine.status(), DrawingStatus::Idle);
    assert!(worker.finished);
}

#[test]
fn inactive_cells_are_skipped_without_a_click() {
    let mut worker = past_grace(mask(3, 2, &[false, true, false, false, false, true]), &job_config(0, -5, 100));
    let mut steps = Vec::new();
    loop {
        let (status, step) = worker.step(DrawingStatus::Running, false);
        if step == WorkerStep::Finished {
            assert_eq!(status, DrawingStatus::Idle);
            break;
        }
        assert_eq!(status, DrawingStatus::Running);
        steps.push(step);
    }
    assert_eq!(
        steps,
        vec![
            WorkerStep::Skip,
            WorkerStep::Click { x: -4, y: 100, delay_ms: 1 },
            WorkerStep::Skip,
            WorkerStep::Skip,
            WorkerStep::Skip,
            WorkerStep::Click { x: -3, y: 101, delay_ms: 1 },
        ]
    );
}

#[test]
fn stop_is_acknowledged_with_idle_and_no_further_click() {
    let mut worker = past_grace(mask(2, 1, &[true, true]), &job_config(3, 0, 0));
    let (_, first) = worker.step(DrawingStatus::Running, false);
    assert_eq!(first, WorkerStep::Click { x: 0, y: 0, delay_ms: 3 });
    let (status, step) = worker.step(DrawingStatus::Stopped, false);
    assert_eq!(status, DrawingStatus::Idle);
    assert_eq!(step, WorkerStep::Finished);
    assert!(worker.finished);
    assert_eq!(worker.cursor, 1);
    assert_eq!(worker.step(DrawingStatus::Running, false), (DrawingStatus::Running, WorkerStep::Finished));
}

#[test]
fn stop_through_the_engine_settles_to_idle() {
    let mut engine = DrawingEngine::new(Arc::new(AtomicBool::new(false)));
    let job = engine.start("a.png".to_string(), job_config(3, 0, 0)).unwrap();
    let mut worker = past_grace(mask(2, 1, &[true, true]), &job.config);
    assert_eq!(engine.advance(&mut worker), WorkerStep::Click { x: 0, y: 0, delay_ms: 3 });
    engine.pause();
    engine.stop();
    assert_eq!(engine.status(), DrawingStatus::Stopped);
    assert_eq!(engine.advance(&mut worker), WorkerStep::Finished);
    assert_eq!(engine.status(), DrawingStatus::Idle);
}

#[test]
fn paused_worker_waits_without_moving_on() {
    let mut worker = past_grace(mask(2, 1, &[true, true]), &job_config(3, 0, 0));
    for _ in 0..5 {
        let (status, step) = worker.step(DrawingStatus::Paused, false);
        assert_eq!(status, DrawingStatus::Paused);
        assert_eq!(step, WorkerStep::Wait { millis: 100 });
        assert_eq!(worker.cursor, 0);
    }
    let (status, step) = worker.step(DrawingStatus::Running, false);
    assert_eq!(status, DrawingStatus::Running);
    assert_eq!(step, WorkerStep::Click { x: 0, y: 0, delay_ms: 3 });
}

#[test]
fn emergency_ends_a_paused_job_without_unpausing() {
    let flag = Arc::new(AtomicBool::new(false));
    let mut engine = DrawingEngine::new(flag.clone());
    let job = engine.start("a.png".to_string(), job_config(3, 0, 0)).unwrap();
    let mut worker = past_grace(mask(2, 1, &[true, true]), &job.config);
    engine.pause();
    assert_eq!(engine.advance(&mut worker), WorkerStep::Wait { millis: 100 });
    assert_eq!(engine.status(), DrawingStatus::Paused);
    flag.store(true, std::sync::atomic::Ordering::Relaxed);
    assert_eq!(engine.advance(&mut worker), WorkerStep::Finished);
    assert_eq!(engine.status(), DrawingStatus::Stopped);
    assert!(worker.finished);
    assert_eq!(worker.cursor, 0);
}

#[test]
fn emergency_comes_before_a_stop_request() {
    let mut worker = past_grace(mask(1, 1, &[true]), &job_config(3, 0, 0));
    assert_eq!(worker.step(DrawingStatus::Stopped, true), (DrawingStatus::Stopped, WorkerStep::Finished));
}

#[test]
fn exhausted_worker_completes_with_idle_whatever_is_signalled() {
    let mut worker = past_grace(mask(1, 1, &[true]), &job_config(3, 0, 0));
    let (_, step) = worker.step(DrawingStatus::Running, false);
    assert_eq!(step, WorkerStep::Click { x: 0, y: 0, delay_ms: 3 });
    assert_eq!(worker.step(DrawingStatus::Paused, true), (DrawingStatus::Idle, WorkerStep::Finished));
    assert!(worker.finished);
}

#[test]
fn empty_mask_completes_right_after_the_grace_period() {
    let mut worker = past_grace(mask(0, 0, &[]), &job_config(3, 0, 0));
    assert_eq!(worker.step(DrawingStatus::Running, false), (DrawingStatus::Idle, WorkerStep::Finished));
}

#[test]
fn idle_status_is_treated_as_running_by_a_live_worker() {
    let mut worker = past_grace(mask(1, 1, &[true]), &job_config(3, 7, 8));
    assert_eq!(
        worker.step(DrawingStatus::Idle, false),
        (DrawingStatus::Idle, WorkerStep::Click { x: 7, y: 8, delay_ms: 3 })
    );
}

#[test]
fn step_worker_takes_the_flag_as_given() {
    let mut engine = DrawingEngine::new(Arc::new(AtomicBool::new(false)));
    let job = engine.start("a.png".to_string(), job_config(3, 0, 0)).unwrap();
    let mut worker = past_grace(mask(1, 1, &[true]), &job.config);
    assert_eq!(engine.step_worker(&mut worker, true), WorkerStep::Finished);
    assert_eq!(engine.status(), DrawingStatus::Stopped);
}

#[test]
fn screen_positions_reach_beyond_the_range_of_the_origin() {
    let mut worker = past_grace(mask(2, 1, &[false, true]), &job_config(3, i32::MAX, i32::MIN));
    worker.step(DrawingStatus::Running, false);
    let (_, step) = worker.step(DrawingStatus::Running, false);
    assert_eq!(step, WorkerStep::Click { x: 2147483648, y: -2147483648, delay_ms: 3 });
}
