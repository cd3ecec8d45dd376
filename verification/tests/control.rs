use drawing_engine::config::{DrawingConfig, MIN_DELAY_MS};
use drawing_engine::engine::{DrawingEngine, StartError};
use drawing_engine::status::DrawingStatus;
use std::sync::atomic::{AtomicBool, Ordering};
use std::sync::Arc;

fn config(speed: u64, method: &str) -> DrawingConfig {
    DrawingConfig { speed, method: method.to_string(), width: 2, height: 2, x: 10, y: 10 }
}

fn engine() -> (DrawingEngine, Arc<AtomicBool>) {
    let flag = Arc::new(AtomicBool::new(false));
    (DrawingEngine::new(flag.clone()), flag)
}

#[test]
fn new_engine_is_idle_with_default_config() {
    let (engine, flag) = engine();
    assert_eq!(engine.status(), DrawingStatus::Idle);
    let c = engine.config();
    assert_eq!(c.speed, 1000);
    assert_eq!(c.method, "matrix");
    assert_eq!((c.width, c.height), (100, 100));
    assert_eq!((c.x, c.y), (0, 0));
    assert!(!flag.load(Ordering::Relaxed));
}

#[test]
fn pause_twice_from_running_restores_running() {
    let (mut engine, _flag) = engine();
    engine.start("picture.png".to_string(), config(5, "matrix")).unwrap();
    assert_eq!(engine.status(), DrawingStatus::Running);
    engine.pause();
    assert_eq!(engine.status(), DrawingStatus::Paused);
    engine.pause();
    assert_eq!(engine.status(), DrawingStatus::Running);
}

#[test]
fn pause_leaves_idle_and_stopped_alone() {
    let (mut engine, _flag) = engine();
    engine.pause();
    assert_eq!(engine.status(), DrawingStatus::Idle);
    engine.stop();
    engine.pause();
    assert_eq!(engine.status(), DrawingStatus::Stopped);
}

#[test]
fn toggle_pause_on_each_status() {
    assert_eq!(DrawingStatus::Running.toggle_pause(), DrawingStatus::Paused);
    assert_eq!(DrawingStatus::Paused.toggle_pause(), DrawingStatus::Running);
    assert_eq!(DrawingStatus::Idle.toggle_pause(), DrawingStatus::Idle);
    assert_eq!(DrawingStatus::Stopped.toggle_pause(), DrawingStatus::Stopped);
    assert!(DrawingStatus::Running.active());
    assert!(DrawingStatus::Paused.active());
    assert!(!DrawingStatus::Idle.active());
    assert!(!DrawingStatus::Stopped.active());
}

#[test]
fn stop_forces_stopped_from_every_status() {
    for status in [
        DrawingStatus::Idle,
        DrawingStatus::Running,
        DrawingStatus::Paused,
        DrawingStatus::Stopped,
    ] {
        let (mut engine, _flag) = engine();
        engine.set_status(status);
        assert_eq!(engine.status(), status);
        engine.stop();
        assert_eq!(engine.status(), DrawingStatus::Stopped);
    }
}

#[test]
fn start_stores_config_clears_flag_and_runs() {
    let (mut engine, flag) = engine();
    flag.store(true, Ordering::Relaxed);
    assert!(engine.emergency_raised());
    let job = engine.start("drawing.png".to_string(), config(7, "dithering")).unwrap();
    assert_eq!(job.image_path, "drawing.png");
    assert_eq!(job.config.speed, 7);
    assert_eq!(job.config.method, "dithering");
    assert_eq!((job.config.width, job.config.height), (2, 2));
    assert_eq!((job.config.x, job.config.y), (10, 10));
    assert_eq!(engine.status(), DrawingStatus::Running);
    assert_eq!(engine.config().speed, 7);
    assert_eq!(engine.config().method, "dithering");
    assert!(!flag.load(Ordering::Relaxed));
    assert!(!engine.emergency_raised());
}

#[test]
fn start_is_rejected_while_a_job_is_active() {
    let (mut engine, flag) = engine();
    engine.start("first.png".to_string(), config(7, "dithering")).unwrap();
    flag.store(true, Ordering::Relaxed);
    let second = engine.start("second.png".to_string(), config(9, "spiral"));
    assert!(matches!(second, Err(StartError::AlreadyRunning)));
    assert_eq!(engine.status(), DrawingStatus::Running);
    assert_eq!(engine.config().speed, 7);
    assert_eq!(engine.config().method, "dithering");
    assert!(flag.load(Ordering::Relaxed));
    engine.pause();
    let third = engine.start("third.png".to_string(), config(9, "spiral"));
    assert!(matches!(third, Err(StartError::AlreadyRunning)));
    assert_eq!(engine.status(), DrawingStatus::Paused);
}

#[test]
fn start_is_accepted_after_stop() {
    let (mut engine, _flag) = engine();
    engine.start("first.png".to_string(), config(7, "dithering")).unwrap();
    engine.stop();
    let again = engine.start("second.png".to_string(), config(9, "spiral"));
    assert!(again.is_ok());
    assert_eq!(engine.status(), DrawingStatus::Running);
    assert_eq!(engine.config().method, "spiral");
}

#[test]
fn job_failure_leaves_the_engine_idle() {
    let (mut engine, _flag) = engine();
    engine.start("missing.png".to_string(), config(7, "matrix")).unwrap();
    engine.job_failed();
    assert_eq!(engine.status(), DrawingStatus::Idle);
}

#[test]
fn emergency_flag_is_shared_with_its_other_holders() {
    let (engine, flag) = engine();
    assert!(!engine.emergency_raised());
    engine.raise_emergency();
    assert!(flag.load(Ordering::Relaxed));
    assert!(engine.emergency_raised());
    engine.reset();
    assert!(!flag.load(Ordering::Relaxed));
    flag.store(true, Ordering::Relaxed);
    assert!(engine.emergency_raised());
}

#[test]
fn delay_of_zero_is_raised_to_the_floor() {
    assert_eq!(MIN_DELAY_MS, 1);
    assert_eq!(config(0, "matrix").delay_ms(), 1);
    assert_eq!(config(1, "matrix").delay_ms(), 1);
    assert_eq!(config(50, "matrix").delay_ms(), 50);
    assert_eq!(config(u64::MAX, "matrix").delay_ms(), u64::MAX);
}

#[test]
fn duplicate_copies_every_field() {
    let c = DrawingConfig {
        speed: 3,
        method: "human".to_string(),
        width: 640,
        height: 480,
        x: -20,
        y: 35,
    };
    let d = c.duplicate();
    assert_eq!(d.speed, 3);
    assert_eq!(d.method, "human");
    assert_eq!((d.width, d.height), (640, 480));
    assert_eq!((d.x, d.y), (-20, 35));
}
