//! The configuration of a drawing job.

use vstd::prelude::*;

verus! {

/// Shortest pause between two clicks, in milliseconds. A job never runs
/// faster than this, whatever speed was asked for.
pub const MIN_DELAY_MS: u64 = 1;

/// What one drawing job is asked to do.
#[derive(Clone, Debug)]
pub struct DrawingConfig {
    /// Requested pause between two clicks, in milliseconds.
    pub speed: u64,
    /// Name of the method that turns the image into a mask.
    pub method: String,
    /// Width of the grid that the image is resized to fit.
    pub width: u32,
    /// Height of the grid that the image is resized to fit.
    pub height: u32,
    /// Screen column of the grid's left edge.
    pub x: i32,
    /// Screen row of the grid's top edge.
    pub y: i32,
}

impl DrawingConfig {
    /// The pause that is really slept after a click: the requested one,
    /// raised to the floor.
    pub open spec fn delay(&self) -> u64 {
        if self.speed < MIN_DELAY_MS {
            MIN_DELAY_MS
        } else {
            self.speed
        }
    }

    pub fn delay_ms(&self) -> (d: u64)
        ensures
            d == self.delay(),
            d >= MIN_DELAY_MS,
            self.speed >= MIN_DELAY_MS ==> d == self.speed,
    {
        if self.speed < MIN_DELAY_MS {
            MIN_DELAY_MS
        } else {
            self.speed
        }
    }

    /// A copy of this configuration, field for field.
    pub fn duplicate(&self) -> (c: DrawingConfig)
        ensures
            c == *self,
    {
        DrawingConfig {
            speed: self.speed,
            method: self.method.clone(),
            width: self.width,
            height: self.height,
            x: self.x,
            y: self.y,
        }
    }
}

} // verus!
