//! The job supervisor: status, current configuration and emergency flag.

use crate::config::DrawingConfig;
use crate::status::DrawingStatus;
use crate::worker::{PlaybackWorker, WorkerStep};
use std::sync::atomic::AtomicBool;
use std::sync::atomic::Ordering;
use std::sync::Arc;
use vstd::prelude::*;

verus! {

/// Why a job was not started.
#[derive(Clone, Copy, PartialEq, Eq, Structural, Debug)]
pub enum StartError {
    /// A job is running or paused; it has to end before the next one starts.
    AlreadyRunning,
}

/// What a freshly started job consists of: the caller hands it to a worker.
#[derive(Debug)]
pub struct Job {
    pub image_path: String,
    pub config: DrawingConfig,
}

/// The supervisor of drawing jobs: it owns the status and the current
/// configuration, and holds the emergency flag that it shares with whoever
/// raises it.
///
/// The status changes only through the engine, so a caller that shares the
/// engine between threads puts it behind one lock. The emergency flag is an
/// atomic of its own: it is raised and read without that lock.
pub struct DrawingEngine {
    status: DrawingStatus,
    config: DrawingConfig,
    stop_flag: Arc<AtomicBool>,
}

impl DrawingEngine {
    /// The status of the engine.
    pub closed spec fn current_status(&self) -> DrawingStatus {
        self.status
    }

    /// The configuration of the job that was started last.
    pub closed spec fn current_config(&self) -> DrawingConfig {
        self.config
    }

    /// The emergency flag that the engine was made with.
    pub closed spec fn shared_flag(&self) -> Arc<AtomicBool> {
        self.stop_flag
    }

    /// An idle engine around the given emergency flag. Until the first job
    /// starts it holds a configuration of its own: the threshold method on a
    /// grid of 100 by 100 cells at the screen's origin, one click a second.
    pub fn new(stop_flag: Arc<AtomicBool>) -> (engine: Self)
        ensures
            engine.current_status() == DrawingStatus::Idle,
            engine.shared_flag() == stop_flag,
            engine.current_config().speed == 1000,
            engine.current_config().method@ == "matrix"@,
            engine.current_config().width == 100,
            engine.current_config().height == 100,
            engine.current_config().x == 0,
            engine.current_config().y == 0,
    {
        DrawingEngine {
            status: DrawingStatus::Idle,
            config: DrawingConfig {
                speed: 1000,
                method: "matrix".to_string(),
                width: 100,
                height: 100,
                x: 0,
                y: 0,
            },
            stop_flag,
        }
    }

    pub fn status(&self) -> (s: DrawingStatus)
        ensures
            s == self.current_status(),
    {
        self.status
    }

    pub fn config(&self) -> (c: &DrawingConfig)
        ensures
            *c == self.current_config(),
    {
        &self.config
    }

    /// Starts a job unless one is active. A job is refused while the engine
    /// is `Running` or `Paused`, and the engine stays as it is. Otherwise
    /// the emergency flag is lowered, the configuration is stored, the engine
    /// is `Running`, and the job comes back for the caller to hand to a
    /// worker.
    pub fn start(&mut self, image_path: String, config: DrawingConfig) -> (started: Result<
        Job,
        StartError,
    >)
        ensures
            old(self).current_status().is_active() ==> started == Err::<Job, StartError>(
                StartError::AlreadyRunning,
            ) && *final(self) == *old(self),
            !old(self).current_status().is_active() ==> started is Ok
                && started->Ok_0.image_path == image_path
                && started->Ok_0.config == config
                && final(self).current_status() == DrawingStatus::Running
                && final(self).current_config() == config
                && final(self).shared_flag() == old(self).shared_flag(),
    {
        if self.status.active() {
            return Err(StartError::AlreadyRunning);
        }
        self.reset();
        let job = Job { image_path, config: config.duplicate() };
        self.config = config;
        self.status = DrawingStatus::Running;
        Ok(job)
    }

    /// Asks the job to stop: the status is `Stopped`, whatever it was. The
    /// worker acknowledges the request at its next step.
    pub fn stop(&mut self)
        ensures
            final(self).current_status() == DrawingStatus::Stopped,
            final(self).current_config() == old(self).current_config(),
            final(self).shared_flag() == old(self).shared_flag(),
    {
        self.status = DrawingStatus::Stopped;
    }

    /// Pauses a running job and resumes a paused one. In any other status
    /// nothing changes.
    pub fn pause(&mut self)
        ensures
            final(self).current_status() == old(self).current_status().toggled(),
            final(self).current_config() == old(self).current_config(),
            final(self).shared_flag() == old(self).shared_flag(),
    {
        self.status = self.status.toggle_pause();
    }

    /// Sets the status, whatever it was.
    pub fn set_status(&mut self, status: DrawingStatus)
        ensures
            final(self).current_status() == status,
            final(self).current_config() == old(self).current_config(),
            final(self).shared_flag() == old(self).shared_flag(),
    {
        self.status = status;
    }

    /// Records that a job could not begin its work (no pointer backend, or
    /// no readable image): the engine is idle again.
    pub fn job_failed(&mut self)
        ensures
            final(self).current_status() == DrawingStatus::Idle,
            final(self).current_config() == old(self).current_config(),
            final(self).shared_flag() == old(self).shared_flag(),
    {
        self.status = DrawingStatus::Idle;
    }

    /// Lowers the emergency flag, as the start of a job does.
    pub fn reset(&self) {
        self.stop_flag.store(false, Ordering::Relaxed);
    }

    /// Raises the emergency flag. The flag is shared: whoever holds it may
    /// raise it as well, without going through the engine.
    pub fn raise_emergency(&self) {
        self.stop_flag.store(true, Ordering::Relaxed);
    }

    /// Reads the emergency flag. Nothing is known of the value: the flag can
    /// be raised from elsewhere at any moment.
    pub fn emergency_raised(&self) -> bool {
        self.stop_flag.load(Ordering::Relaxed)
    }

    /// Lets the job's worker take one step under the engine's status, with
    /// the emergency flag as the caller has read it, and takes over the
    /// status that the step leads to.
    pub fn step_worker(&mut self, worker: &mut PlaybackWorker, emergency: bool) -> (step:
        WorkerStep)
        requires
            old(worker).wf(),
        ensures
            final(worker).wf(),
            *final(worker) == old(worker).outcome(old(self).current_status(), emergency).worker,
            final(self).current_status() == old(worker).outcome(
                old(self).current_status(),
                emergency,
            ).status,
            step == old(worker).outcome(old(self).current_status(), emergency).step,
            final(self).current_config() == old(self).current_config(),
            final(self).shared_flag() == old(self).shared_flag(),
    {
        let next = worker.step(self.status, emergency);
        self.status = next.0;
        next.1
    }

    /// Reads the emergency flag and lets the job's worker take one step.
    /// Whatever the flag held, the step is the worker's step for that value.
    pub fn advance(&mut self, worker: &mut PlaybackWorker) -> (step: WorkerStep)
        requires
            old(worker).wf(),
        ensures
            final(worker).wf(),
            exists|emergency: bool|
                {
                    let outcome = #[trigger] old(worker).outcome(
                        old(self).current_status(),
                        emergency,
                    );
                    &&& *final(worker) == outcome.worker
                    &&& final(self).current_status() == outcome.status
                    &&& step == outcome.step
                },
            final(self).current_config() == old(self).current_config(),
            final(self).shared_flag() == old(self).shared_flag(),
    {
        let emergency = self.stop_flag.load(Ordering::Relaxed);
        self.step_worker(worker, emergency)
    }
}

} // verus!
