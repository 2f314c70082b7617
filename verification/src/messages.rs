//! The values that cross the worker's boundary: commands in, status
//! records out, capture outcomes handed to the worker, and the actions it
//! asks its driver to perform.

use vstd::prelude::*;
use crate::frame::Frame;

verus! {

/// A reconfiguration or one-shot request submitted to the worker.
///
/// Sensitivity is carried in thousandths, so the full range 0.0 - 1.0 maps
/// to 0 - 1000.
#[derive(Clone, Copy, Debug, PartialEq, Eq, Structural)]
pub enum Command {
    StartDetection,
    StopDetection,
    UpdateSensitivity(u32),
    UpdateMinArea(u32),
    UpdateDevice(u32),
    SaveSnapshot,
}

/// Why a device could not be adopted.
#[derive(Clone, Copy, Debug, PartialEq, Eq, Structural)]
pub enum OpenError {
    /// The device did not open or produced no first frame.
    DeviceFailed,
    /// The first frame read from the device had no pixels.
    EmptyFirstFrame,
}

/// The failure a status record can report.
#[derive(Clone, Copy, Debug, PartialEq, Eq, Structural)]
pub enum WorkerError {
    /// The device is unusable and a successful device switch is needed.
    DeviceUnavailable,
    /// One capture attempt failed hard; the worker retries after a pause.
    CaptureFailed,
}

/// What one capture attempt produced.
pub enum ReadOutcome {
    /// A frame, already converted to smoothed single-channel form.
    Captured(Frame),
    /// The device returned an empty frame: a transient condition, treated
    /// as no motion for this cycle.
    EmptyFrame,
    /// The capture failed hard.
    Failed,
}

/// One status record, published once per worker cycle.
#[derive(Clone, Copy, Debug, PartialEq, Eq)]
pub struct StatusRecord {
    pub motion_detected: bool,
    pub motion_count: u32,
    pub last_motion_at_ms: Option<u64>,
    pub fps: u32,
    pub resolution: (usize, usize),
    pub error: Option<WorkerError>,
}

/// Work the worker asks its driver to carry out, because it involves the
/// outside world.
#[derive(Clone, Copy, Debug, PartialEq, Eq, Structural)]
pub enum Action {
    /// Give the current device a moment to release, then attempt to open
    /// this device index and report the outcome back.
    OpenDevice(u32),
    /// Hand the current reference frame to the snapshot sink. Manual
    /// snapshots are never subject to the motion cooldown.
    SaveSnapshot { manual: bool },
    /// The cycle failed; pause briefly before the next one.
    Backoff,
}

} // verus!
