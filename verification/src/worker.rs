//! The playback worker: a state machine that decides, step by step, what a
//! job does next under the status and the emergency flag.

use crate::config::{DrawingConfig, MIN_DELAY_MS};
use crate::mask::{active_cells, cell_of, lemma_index_of_cell, ActivationMask};
use crate::status::DrawingStatus;
use vstd::prelude::*;

verus! {

/// How long a worker sleeps before it asks again, while it is paused or in
/// its grace period, in milliseconds.
pub const POLL_MS: u64 = 100;

/// How many poll intervals the grace period lasts that a worker grants
/// before its first click, so that the target window can be brought to the
/// front.
pub const GRACE_POLLS: u32 = 30;

/// What a worker is to do next.
#[derive(Clone, Copy, PartialEq, Eq, Structural, Debug)]
pub enum WorkerStep {
    /// Sleep for `millis` milliseconds, then ask again.
    Wait { millis: u64 },
    /// Move the pointer to `(x, y)` on the screen, click the primary button,
    /// sleep for `delay_ms` milliseconds, then ask again.
    Click { x: i64, y: i64, delay_ms: u64 },
    /// Ask again at once: the cell needs no click.
    Skip,
    /// End: the job is over.
    Finished,
}

/// The progress of one job's playback: the mask that it walks, where the
/// grid lies on the screen, and how far it has come. Whatever method made
/// the mask, the worker walks its cells in row-major order; the outline
/// method's own order plays no part in playback.
#[derive(Debug)]
pub struct PlaybackWorker {
    pub mask: ActivationMask,
    /// Screen column of the grid's left edge.
    pub origin_x: i32,
    /// Screen row of the grid's top edge.
    pub origin_y: i32,
    /// Pause after each click, in milliseconds.
    pub delay_ms: u64,
    /// Poll intervals of the grace period that are still to come.
    pub grace_left: u32,
    /// Number of cells that have been dealt with.
    pub cursor: u64,
    /// Whether the worker has ended.
    pub finished: bool,
}

/// What one step of a worker leads to.
pub struct Outcome {
    pub worker: PlaybackWorker,
    pub status: DrawingStatus,
    pub step: WorkerStep,
}

impl PlaybackWorker {
    /// The mask is well formed, the cursor is within it, and the pause after
    /// a click is no shorter than the floor.
    pub open spec fn wf(&self) -> bool {
        &&& self.mask.wf()
        &&& self.cursor <= self.mask.cells@.len()
        &&& self.delay_ms >= MIN_DELAY_MS
    }

    /// Whether every cell has been dealt with.
    pub open spec fn exhausted(&self) -> bool {
        self.grace_left == 0 && self.cursor >= self.mask.cells@.len()
    }

    /// The screen position of the cell at buffer position `i`.
    pub open spec fn screen_point(&self, i: int) -> (int, int) {
        let cell = cell_of(self.mask.width as int, i);
        (self.origin_x + cell.0, self.origin_y + cell.1)
    }

    /// This worker, ended.
    pub open spec fn ended(self) -> PlaybackWorker {
        PlaybackWorker { finished: true, ..self }
    }

    /// The outcome of one step, given the status and the emergency flag as
    /// they are read at the start of the step. The first of these that
    /// applies decides:
    ///
    /// - a worker that has ended stays ended and leaves the status alone;
    /// - when the grace period is over and no cell is left, the worker ends
    ///   and the job is `Idle`;
    /// - a raised emergency flag ends the worker and leaves the job
    ///   `Stopped`;
    /// - a stop request is acknowledged: the worker ends and the job is
    ///   `Idle`;
    /// - during the grace period the worker waits one poll interval, paused
    ///   or not;
    /// - a paused worker waits one poll interval and stays at its cell;
    /// - otherwise the cell is dealt with and the worker moves on: an active
    ///   cell gets a click at its screen position, an inactive one is
    ///   skipped.
    pub open spec fn outcome(self, status: DrawingStatus, emergency: bool) -> Outcome {
        if self.finished {
            Outcome { worker: self, status, step: WorkerStep::Finished }
        } else if self.exhausted() {
            Outcome { worker: self.ended(), status: DrawingStatus::Idle, step: WorkerStep::Finished }
        } else if emergency {
            Outcome {
                worker: self.ended(),
                status: DrawingStatus::Stopped,
                step: WorkerStep::Finished,
            }
        } else if status == DrawingStatus::Stopped {
            Outcome { worker: self.ended(), status: DrawingStatus::Idle, step: WorkerStep::Finished }
        } else if self.grace_left > 0 {
            Outcome {
                worker: PlaybackWorker { grace_left: (self.grace_left - 1) as u32, ..self },
                status,
                step: WorkerStep::Wait { millis: POLL_MS },
            }
        } else if status == DrawingStatus::Paused {
            Outcome { worker: self, status, step: WorkerStep::Wait { millis: POLL_MS } }
        } else {
            let point = self.screen_point(self.cursor as int);
            Outcome {
                worker: PlaybackWorker { cursor: (self.cursor + 1) as u64, ..self },
                status,
                step: if self.mask.cells@[self.cursor as int] {
                    WorkerStep::Click { x: point.0 as i64, y: point.1 as i64, delay_ms: self.delay_ms }
                } else {
                    WorkerStep::Skip
                },
            }
        }
    }

    /// How many steps an undisturbed worker still takes.
    pub open spec fn steps_left(self) -> nat {
        if self.finished || !self.wf() {
            0
        } else {
            (self.grace_left + (self.mask.cells@.len() - self.cursor) + 1) as nat
        }
    }

    /// The clicks that the worker performs from here on when the job stays
    /// `Running` and no emergency is raised, in the order in which it
    /// performs them.
    pub open spec fn undisturbed_clicks(self) -> Seq<(int, int)>
        decreases self.steps_left(),
    {
        if self.finished || !self.wf() {
            Seq::empty()
        } else {
            let next = self.outcome(DrawingStatus::Running, false);
            match next.step {
                WorkerStep::Click { x, y, delay_ms } => seq![(x as int, y as int)]
                    + next.worker.undisturbed_clicks(),
                _ => next.worker.undisturbed_clicks(),
            }
        }
    }

    /// The status in which the job ends when it stays `Running` until the
    /// worker ends and no emergency is raised.
    pub open spec fn undisturbed_end(self) -> DrawingStatus
        decreases self.steps_left(),
    {
        if self.finished || !self.wf() {
            DrawingStatus::Running
        } else {
            let next = self.outcome(DrawingStatus::Running, false);
            if next.worker.finished {
                next.status
            } else {
                next.worker.undisturbed_end()
            }
        }
    }

    /// The screen positions of the active cells from buffer position `from`
    /// on, in row-major order.
    pub open spec fn clicks_from(self, from: nat) -> Seq<(int, int)>
        decreases self.mask.cells@.len() - from,
    {
        if from >= self.mask.cells@.len() {
            Seq::empty()
        } else if self.mask.cells@[from as int] {
            seq![self.screen_point(from as int)] + self.clicks_from(from + 1)
        } else {
            self.clicks_from(from + 1)
        }
    }

    /// The screen positions of all active cells in row-major order.
    pub open spec fn planned_clicks(self) -> Seq<(int, int)> {
        Seq::new(
            self.mask.sequence().len(),
            |k: int|
                (
                    self.origin_x + self.mask.sequence()[k].0,
                    self.origin_y + self.mask.sequence()[k].1,
                ),
        )
    }

    /// A worker at the start of a job: the grace period is still to come and
    /// no cell has been dealt with.
    pub fn new(mask: ActivationMask, config: &DrawingConfig) -> (worker: PlaybackWorker)
        requires
            mask.wf(),
        ensures
            worker.wf(),
            worker.mask == mask,
            worker.origin_x == config.x,
            worker.origin_y == config.y,
            worker.delay_ms == config.delay(),
            worker.grace_left == GRACE_POLLS,
            worker.cursor == 0,
            !worker.finished,
    {
        PlaybackWorker {
            mask,
            origin_x: config.x,
            origin_y: config.y,
            delay_ms: config.delay_ms(),
            grace_left: GRACE_POLLS,
            cursor: 0,
            finished: false,
        }
    }

    /// Takes one step: decides what the worker does next and which status the
    /// job has after the decision.
    pub fn step(&mut self, status: DrawingStatus, emergency: bool) -> (next: (
        DrawingStatus,
        WorkerStep,
    ))
        requires
            old(self).wf(),
        ensures
            final(self).wf(),
            *final(self) == old(self).outcome(status, emergency).worker,
            next.0 == old(self).outcome(status, emergency).status,
            next.1 == old(self).outcome(status, emergency).step,
    {
        if self.finished {
            return (status, WorkerStep::Finished);
        }
        let cells = self.mask.cells.len() as u64;
        if self.grace_left == 0 && self.cursor >= cells {
            self.finished = true;
            return (DrawingStatus::Idle, WorkerStep::Finished);
        }
        if emergency {
            self.finished = true;
            return (DrawingStatus::Stopped, WorkerStep::Finished);
        }
        if status == DrawingStatus::Stopped {
            self.finished = true;
            return (DrawingStatus::Idle, WorkerStep::Finished);
        }
        if self.grace_left > 0 {
            self.grace_left = self.grace_left - 1;
            return (status, WorkerStep::Wait { millis: POLL_MS });
        }
        if status == DrawingStatus::Paused {
            return (status, WorkerStep::Wait { millis: POLL_MS });
        }
        proof {
            lemma_index_of_cell(
                self.mask.width as int,
                self.mask.height as int,
                self.cursor as int,
            );
        }
        let width = self.mask.width as u64;
        let column = self.cursor % width;
        let row = self.cursor / width;
        let active = self.mask.cells[self.cursor as usize];
        let x: i64 = self.origin_x as i64 + column as i64;
        let y: i64 = self.origin_y as i64 + row as i64;
        self.cursor = self.cursor + 1;
        if active {
            (status, WorkerStep::Click { x, y, delay_ms: self.delay_ms })
        } else {
            (status, WorkerStep::Skip)
        }
    }
}

/// After a stop request the very next step of a live worker performs no
/// click: it ends the worker and leaves the job `Idle`, provided no
/// emergency is raised.
pub proof fn lemma_stop_is_acknowledged(worker: PlaybackWorker)
    requires
        worker.wf(),
        !worker.finished,
    ensures
        worker.outcome(DrawingStatus::Stopped, false).step == WorkerStep::Finished,
        worker.outcome(DrawingStatus::Stopped, false).status == DrawingStatus::Idle,
        worker.outcome(DrawingStatus::Stopped, false).worker.finished,
{
}

/// A raised emergency flag ends a live worker at its next step whatever the
/// status is, also while the job is paused: no click is performed, and while
/// there is work left the job is left `Stopped`.
pub proof fn lemma_emergency_preempts(worker: PlaybackWorker, status: DrawingStatus)
    requires
        worker.wf(),
        !worker.finished,
    ensures
        worker.outcome(status, true).step == WorkerStep::Finished,
        worker.outcome(status, true).worker.finished,
        !worker.exhausted() ==> worker.outcome(status, true).status == DrawingStatus::Stopped,
        worker.exhausted() ==> worker.outcome(status, true).status == DrawingStatus::Idle,
{
}

/// A paused worker waits where it is: as long as the job is paused and no
/// emergency is raised, a worker past its grace period neither clicks nor
/// moves on.
pub proof fn lemma_pause_holds(worker: PlaybackWorker)
    requires
        worker.wf(),
        !worker.finished,
        !worker.exhausted(),
        worker.grace_left == 0,
    ensures
        worker.outcome(DrawingStatus::Paused, false).step == (WorkerStep::Wait { millis: POLL_MS }),
        worker.outcome(DrawingStatus::Paused, false).worker == worker,
        worker.outcome(DrawingStatus::Paused, false).status == DrawingStatus::Paused,
{
}

/// A click never comes faster than the floor allows, and it comes only for
/// an active cell, at that cell's place on the screen.
pub proof fn lemma_click(worker: PlaybackWorker, status: DrawingStatus, emergency: bool)
    requires
        worker.wf(),
    ensures
        worker.outcome(status, emergency).step matches WorkerStep::Click { x, y, delay_ms } ==> {
            &&& delay_ms >= MIN_DELAY_MS
            &&& worker.cursor < worker.mask.cells@.len()
            &&& worker.mask.cells@[worker.cursor as int]
            &&& (x as int, y as int) == worker.screen_point(worker.cursor as int)
            &&& worker.outcome(status, emergency).worker.cursor == worker.cursor + 1
        },
{
    if worker.outcome(status, emergency).step is Click {
        lemma_index_of_cell(
            worker.mask.width as int,
            worker.mask.height as int,
            worker.cursor as int,
        );
    }
}

/// The clicks from a position on are the planned clicks without those of
/// the cells before it.
proof fn lemma_clicks_from(worker: PlaybackWorker, from: nat)
    requires
        worker.wf(),
        from <= worker.mask.cells@.len(),
    ensures
        worker.planned_clicks() == Seq::new(
            active_cells(worker.mask.cells@, worker.mask.width as int, from).len(),
            |k: int|
                (
                    worker.origin_x + active_cells(
                        worker.mask.cells@,
                        worker.mask.width as int,
                        from,
                    )[k].0,
                    worker.origin_y + active_cells(
                        worker.mask.cells@,
                        worker.mask.width as int,
                        from,
                    )[k].1,
                ),
        ) + worker.clicks_from(from),
    decreases worker.mask.cells@.len() - from,
{
    let cells = worker.mask.cells@;
    let width = worker.mask.width as int;
    let before = active_cells(cells, width, from);
    let mapped = Seq::new(
        before.len(),
        |k: int| (worker.origin_x + before[k].0, worker.origin_y + before[k].1),
    );
    if from >= cells.len() {
        assert(worker.planned_clicks() =~= mapped + worker.clicks_from(from));
    } else {
        lemma_clicks_from(worker, from + 1);
        let after = active_cells(cells, width, from + 1);
        let mapped_after = Seq::new(
            after.len(),
            |k: int| (worker.origin_x + after[k].0, worker.origin_y + after[k].1),
        );
        if cells[from as int] {
            assert(after == before.push(cell_of(width, from as int)));
            assert(mapped_after =~= mapped + seq![worker.screen_point(from as int)]);
            assert(mapped_after + worker.clicks_from(from + 1) =~= mapped + worker.clicks_from(
                from,
            ));
        } else {
            assert(after == before);
            assert(mapped_after =~= mapped);
        }
    }
}

/// An undisturbed worker clicks the cells that are left in row-major order
/// and ends with the job `Idle`.
proof fn lemma_undisturbed_from(worker: PlaybackWorker)
    requires
        worker.wf(),
        !worker.finished,
    ensures
        worker.undisturbed_clicks() == worker.clicks_from(worker.cursor as nat),
        worker.undisturbed_end() == DrawingStatus::Idle,
    decreases worker.steps_left(),
{
    let next = worker.outcome(DrawingStatus::Running, false);
    if worker.exhausted() {
        assert(next.worker.finished);
        assert(next.worker.undisturbed_clicks() == Seq::<(int, int)>::empty());
    } else {
        assert(next.worker.wf());
        assert(!next.worker.finished);
        lemma_undisturbed_from(next.worker);
        if worker.grace_left == 0 {
            lemma_click(worker, DrawingStatus::Running, false);
            assert(next.worker.clicks_from(next.worker.cursor as nat) == worker.clicks_from(
                (worker.cursor + 1) as nat,
            )) by {
                lemma_same_clicks(next.worker, worker, (worker.cursor + 1) as nat);
            }
        } else {
            lemma_same_clicks(next.worker, worker, worker.cursor as nat);
        }
    }
}

/// Two workers on the same mask at the same origin have the same clicks
/// ahead of them from any position.
proof fn lemma_same_clicks(a: PlaybackWorker, b: PlaybackWorker, from: nat)
    requires
        a.mask == b.mask,
        a.origin_x == b.origin_x,
        a.origin_y == b.origin_y,
    ensures
        a.clicks_from(from) == b.clicks_from(from),
    decreases a.mask.cells@.len() - from,
{
    if from < a.mask.cells@.len() {
        lemma_same_clicks(a, b, from + 1);
    }
}

/// A job that is left alone draws the whole mask: a fresh worker under
/// status `Running`, with no emergency raised, clicks every active cell once
/// at its place on the screen, in row-major order, and then leaves the job
/// `Idle`.
pub proof fn lemma_undisturbed_run(worker: PlaybackWorker)
    requires
        worker.wf(),
        !worker.finished,
        worker.cursor == 0,
    ensures
        worker.undisturbed_clicks() == worker.planned_clicks(),
        worker.undisturbed_end() == DrawingStatus::Idle,
{
    lemma_undisturbed_from(worker);
    lemma_clicks_from(worker, 0);
    let before = active_cells(worker.mask.cells@, worker.mask.width as int, 0);
    let mapped = Seq::new(
        before.len(),
        |k: int| (worker.origin_x + before[k].0, worker.origin_y + before[k].1),
    );
    assert(mapped + worker.clicks_from(0) =~= worker.clicks_from(0));
}

} // verus!
