//! The status of a drawing job and the effect of a pause request on it.

use vstd::prelude::*;

verus! {

/// Lifecycle of a drawing job as seen by the controlling side.
#[derive(Clone, Copy, PartialEq, Eq, Structural, Debug)]
pub enum DrawingStatus {
    Idle,
    Running,
    Paused,
    Stopped,
}

impl DrawingStatus {
    /// The status that a pause request leads to: `Running` and `Paused` swap,
    /// every other status stays as it is.
    pub open spec fn toggled(self) -> DrawingStatus {
        match self {
            DrawingStatus::Running => DrawingStatus::Paused,
            DrawingStatus::Paused => DrawingStatus::Running,
            DrawingStatus::Idle => DrawingStatus::Idle,
            DrawingStatus::Stopped => DrawingStatus::Stopped,
        }
    }

    /// Whether a job holds the pointer in this status: a new job may only
    /// start when none does.
    pub open spec fn is_active(self) -> bool {
        self == DrawingStatus::Running || self == DrawingStatus::Paused
    }

    pub fn toggle_pause(self) -> (next: DrawingStatus)
        ensures
            next == self.toggled(),
    {
        match self {
            DrawingStatus::Running => DrawingStatus::Paused,
            DrawingStatus::Paused => DrawingStatus::Running,
            DrawingStatus::Idle => DrawingStatus::Idle,
            DrawingStatus::Stopped => DrawingStatus::Stopped,
        }
    }

    pub fn active(self) -> (b: bool)
        ensures
            b == self.is_active(),
    {
        match self {
            DrawingStatus::Running => true,
            DrawingStatus::Paused => true,
            DrawingStatus::Idle => false,
            DrawingStatus::Stopped => false,
        }
    }
}

/// Two pause requests in a row cancel out: from any status the second one
/// restores the status that the first one found. From `Running` the first
/// leads to `Paused` and the second back to `Running`.
pub proof fn lemma_toggle_twice(status: DrawingStatus)
    ensures
        status.toggled().toggled() == status,
        status == DrawingStatus::Running ==> status.toggled() == DrawingStatus::Paused,
{
}

} // verus!
