//! The detection worker: the single owner of the capture source, the
//! reference frame, and the configuration. It is a pure state machine:
//! commands and capture outcomes come in, status records and requests for
//! outside work (opens, snapshots, pauses) go out. The driver loop that
//! talks to the device and the channels performs those requests and feeds
//! the results back.

use vstd::prelude::*;
use crate::frame::Frame;
use crate::messages::Action;
use crate::messages::Command;
use crate::messages::OpenError;
use crate::messages::ReadOutcome;
use crate::messages::StatusRecord;
use crate::messages::WorkerError;
use crate::pipeline;
use crate::pipeline::spec_motion;

verus! {

/// Whether the worker has a usable capture source.
#[derive(Clone, Copy, Debug, PartialEq, Eq, Structural)]
pub enum Health {
    /// A source is open and its reference frame is held.
    Ready,
    /// A device switch is in flight: the old source is closed and the
    /// driver has been asked to open `target`.
    Switching { target: u32, fallback_tried: bool },
    /// The switch and its fallback both failed; only a later successful
    /// device switch recovers the worker.
    Down,
}

/// The externally visible state of the worker.
#[derive(Clone, Copy, Debug, PartialEq, Eq, Structural)]
pub enum Mode {
    Idle,
    Active,
    Switching,
    Error,
}

/// A freshly opened capture source: the device index that was opened and
/// its first frame, already smoothed, which becomes the reference frame.
#[derive(Debug)]
pub struct OpenedSource {
    pub device: u32,
    pub first_frame: Frame,
}

/// Validates what one open attempt produced, failing fast when the device
/// did not open or its first frame was empty.
pub fn evaluate_open(device: u32, first: Option<Frame>) -> (r: Result<OpenedSource, OpenError>)
    requires
        first matches Some(f) ==> f.wf(),
    ensures
        first is None ==> r == Result::<OpenedSource, OpenError>::Err(OpenError::DeviceFailed),
        first matches Some(f) ==> {
            &&& f@.is_empty() ==> r == Result::<OpenedSource, OpenError>::Err(
                OpenError::EmptyFirstFrame,
            )
            &&& !f@.is_empty() ==> (r matches Ok(src) && src.device == device && src.first_frame
                == f)
        },
{
    match first {
        None => Err(OpenError::DeviceFailed),
        Some(f) => {
            if f.width() == 0 || f.height() == 0 {
                Err(OpenError::EmptyFirstFrame)
            } else {
                Ok(OpenedSource { device, first_frame: f })
            }
        },
    }
}

/// The sensitivity actually stored for a requested value: clamped to the
/// unit range (thousandths).
pub open spec fn clamped_sensitivity(s: u32) -> u32 {
    if s <= 1000 {
        s
    } else {
        1000
    }
}

/// The minimum area actually stored for a requested value: at least 1.
pub open spec fn clamped_min_area(a: u32) -> u32 {
    if a >= 1 {
        a
    } else {
        1
    }
}

/// The motion counter after one cycle: up by one on a detection, capped at
/// its type's maximum, unchanged otherwise.
pub open spec fn next_motion_count(count: u32, detected: bool) -> u32 {
    if detected && count < u32::MAX {
        (count + 1) as u32
    } else {
        count
    }
}

/// The motion counter after a whole sequence of cycles.
pub open spec fn motion_count_after(count: u32, detections: Seq<bool>) -> u32
    decreases detections.len(),
{
    if detections.len() == 0 {
        count
    } else {
        motion_count_after(next_motion_count(count, detections[0]), detections.drop_first())
    }
}

/// The motion counter never decreases, over any sequence of cycles, and
/// each cycle moves it by exactly one when motion was detected (until the
/// counter's type is exhausted) and by zero otherwise.
pub proof fn lemma_motion_count_monotone(count: u32, detections: Seq<bool>)
    ensures
        motion_count_after(count, detections) >= count,
        detections.len() > 0 ==> motion_count_after(count, detections) == motion_count_after(
            next_motion_count(count, detections[0]),
            detections.drop_first(),
        ),
    decreases detections.len(),
{
    if detections.len() > 0 {
        lemma_motion_count_monotone(next_motion_count(count, detections[0]), detections.drop_first());
    }
}

/// A motion-triggered snapshot is due only when strictly more than the
/// cooldown (two seconds) has passed since the last one.
pub open spec fn auto_snapshot_due(last_ms: u64, now_ms: u64) -> bool {
    now_ms > last_ms + 2000
}

/// Once a motion snapshot is granted at `t1` (which restamps the cooldown
/// clock to `t1`), no further motion snapshot can be granted within the
/// following two seconds: at most one snapshot per two-second window.
/// Manual snapshot commands never consult this clock.
pub proof fn lemma_snapshot_cooldown(t1: u64, t2: u64)
    requires
        t2 <= t1 + 2000,
    ensures
        !auto_snapshot_due(t1, t2),
{
}

/// The health that results from applying one command.
pub open spec fn health_after_command(h: Health, cmd: Command) -> Health {
    match cmd {
        Command::UpdateDevice(i) => Health::Switching { target: i, fallback_tried: false },
        _ => h,
    }
}

/// The health that results from one reported open outcome.
pub open spec fn health_after_open(h: Health, success: bool) -> Health {
    match h {
        Health::Switching { target, fallback_tried } => {
            if success {
                Health::Ready
            } else if !fallback_tried {
                Health::Switching { target: 0, fallback_tried: true }
            } else {
                Health::Down
            }
        },
        _ => h,
    }
}

/// One event seen by the switch sub-state machine: a command, or the
/// outcome of an open attempt.
#[derive(Clone, Copy, Debug, PartialEq, Eq, Structural)]
pub enum SwitchEvent {
    Cmd(Command),
    Opened(bool),
}

/// The health after a whole sequence of events.
pub open spec fn health_after_events(h: Health, events: Seq<SwitchEvent>) -> Health
    decreases events.len(),
{
    if events.len() == 0 {
        h
    } else {
        let h2 = match events[0] {
            SwitchEvent::Cmd(cmd) => health_after_command(h, cmd),
            SwitchEvent::Opened(success) => health_after_open(h, success),
        };
        health_after_events(h2, events.drop_first())
    }
}

/// Once the worker is not `Ready` - in particular after a device switch
/// and its fallback both failed - no sequence of commands and failed open
/// attempts makes it `Ready` again: only a successful open does. Since
/// detection runs only in `Ready` health, no detection cycle runs until a
/// device switch succeeds.
pub proof fn lemma_error_latched(h: Health, events: Seq<SwitchEvent>)
    requires
        !(h is Ready),
        forall|i: int|
            0 <= i < events.len() ==> !(#[trigger] events[i] matches SwitchEvent::Opened(true)),
    ensures
        !(health_after_events(h, events) is Ready),
    decreases events.len(),
{
    if events.len() > 0 {
        let h2 = match events[0] {
            SwitchEvent::Cmd(cmd) => health_after_command(h, cmd),
            SwitchEvent::Opened(success) => health_after_open(h, success),
        };
        assert(!(events[0] matches SwitchEvent::Opened(true)));
        assert forall|i: int|
            0 <= i < events.drop_first().len() implies !(#[trigger] events.drop_first()[i]
            matches SwitchEvent::Opened(true)) by {
            assert(!(events[i + 1] matches SwitchEvent::Opened(true)));
        }
        lemma_error_latched(h2, events.drop_first());
    }
}

/// The long-lived detection worker. It alone owns the reference frame and
/// the configuration; everything it does is a function of its state, the
/// commands drained at the start of a cycle, and the capture outcome.
pub struct Worker {
    /// The Active/Idle toggle; kept across a device switch so the prior
    /// state resumes once the switch resolves.
    pub running: bool,
    pub health: Health,
    /// Reserved parameter in thousandths of the unit range; stored and
    /// reported but not consulted by the fixed-threshold pipeline.
    pub sensitivity_milli: u32,
    pub min_area: u32,
    pub device_index: u32,
    /// The sliding baseline; present exactly while a source is open.
    pub reference: Option<Frame>,
    pub resolution: (usize, usize),
    pub motion_count: u32,
    pub last_motion_at_ms: Option<u64>,
    pub fps_window_start_ms: u64,
    pub fps_frames: u32,
    pub current_fps: u32,
    pub last_auto_snapshot_ms: u64,
}

impl Worker {
    /// The worker's internal invariant: configuration in range, and a
    /// well-formed, non-empty reference frame held exactly while a source
    /// is open, matching the reported resolution.
    pub open spec fn wf(self) -> bool {
        &&& self.sensitivity_milli <= 1000
        &&& self.min_area >= 1
        &&& (self.reference is Some <==> self.health is Ready)
        &&& (self.reference matches Some(f) ==> f.wf() && !f@.is_empty() && f@.width
            == self.resolution.0 && f@.height == self.resolution.1)
    }

    /// The worker's externally visible mode.
    pub open spec fn mode(self) -> Mode {
        match self.health {
            Health::Down => Mode::Error,
            Health::Switching { .. } => Mode::Switching,
            Health::Ready => if self.running {
                Mode::Active
            } else {
                Mode::Idle
            },
        }
    }

    /// Detection can only run in `Ready` health.
    pub proof fn lemma_active_needs_ready(self)
        ensures
            self.mode() is Active ==> self.health is Ready,
    {
    }

    pub fn current_mode(&self) -> (mode: Mode)
        ensures
            mode == self.mode(),
    {
        match self.health {
            Health::Down => Mode::Error,
            Health::Switching { .. } => Mode::Switching,
            Health::Ready => if self.running {
                Mode::Active
            } else {
                Mode::Idle
            },
        }
    }

    /// Builds a worker from the outcome of the initial open attempt. The
    /// worker starts idle; a failed initial open starts it in the error
    /// state, recoverable by a device switch like any later failure.
    pub fn new(
        sensitivity_milli: u32,
        min_area: u32,
        open_result: Result<OpenedSource, OpenError>,
        now_ms: u64,
    ) -> (w: Worker)
        requires
            open_result matches Ok(src) ==> src.first_frame.wf() && !src.first_frame@.is_empty(),
        ensures
            w.wf(),
            !w.running,
            w.sensitivity_milli == clamped_sensitivity(sensitivity_milli),
            w.min_area == clamped_min_area(min_area),
            w.motion_count == 0,
            w.last_motion_at_ms is None,
            w.fps_window_start_ms == now_ms,
            w.fps_frames == 0,
            w.current_fps == 0,
            w.last_auto_snapshot_ms == now_ms,
            match open_result {
                Ok(src) => w.health is Ready && w.reference == Some(src.first_frame)
                    && w.device_index == src.device && w.resolution == (
                    src.first_frame@.width as usize,
                    src.first_frame@.height as usize,
                ),
                Err(_) => w.health is Down && w.reference is None,
            },
    {
        let sens = if sensitivity_milli <= 1000 {
            sensitivity_milli
        } else {
            1000
        };
        let area = if min_area >= 1 {
            min_area
        } else {
            1
        };
        match open_result {
            Ok(src) => {
                let width = src.first_frame.width();
                let height = src.first_frame.height();
                Worker {
                    running: false,
                    health: Health::Ready,
                    sensitivity_milli: sens,
                    min_area: area,
                    device_index: src.device,
                    reference: Some(src.first_frame),
                    resolution: (width, height),
                    motion_count: 0,
                    last_motion_at_ms: None,
                    fps_window_start_ms: now_ms,
                    fps_frames: 0,
                    current_fps: 0,
                    last_auto_snapshot_ms: now_ms,
                }
            },
            Err(_) => Worker {
                running: false,
                health: Health::Down,
                sensitivity_milli: sens,
                min_area: area,
                device_index: 0,
                reference: None,
                resolution: (0, 0),
                motion_count: 0,
                last_motion_at_ms: None,
                fps_window_start_ms: now_ms,
                fps_frames: 0,
                current_fps: 0,
                last_auto_snapshot_ms: now_ms,
            },
        }
    }

    /// Applies one command, in arrival order, before the next detection
    /// cycle. Configuration updates take effect from the next pipeline
    /// step; a device switch closes the current source, asks the driver to
    /// open the new device, and keeps the Active/Idle intent for when the
    /// switch resolves; a manual snapshot request is forwarded whenever a
    /// reference frame exists, with no cooldown.
    pub fn apply_command(&mut self, cmd: Command) -> (act: Option<Action>)
        requires
            old(self).wf(),
        ensures
            final(self).wf(),
            final(self).health == health_after_command(old(self).health, cmd),
            final(self).motion_count == old(self).motion_count,
            final(self).last_motion_at_ms == old(self).last_motion_at_ms,
            final(self).fps_window_start_ms == old(self).fps_window_start_ms,
            final(self).fps_frames == old(self).fps_frames,
            final(self).current_fps == old(self).current_fps,
            final(self).last_auto_snapshot_ms == old(self).last_auto_snapshot_ms,
            match cmd {
                Command::StartDetection => *final(self) == (Worker {
                    running: true,
                    ..*old(self)
                }) && act is None,
                Command::StopDetection => *final(self) == (Worker {
                    running: false,
                    ..*old(self)
                }) && act is None,
                Command::UpdateSensitivity(s) => *final(self) == (Worker {
                    sensitivity_milli: clamped_sensitivity(s),
                    ..*old(self)
                }) && act is None,
                Command::UpdateMinArea(a) => *final(self) == (Worker {
                    min_area: clamped_min_area(a),
                    ..*old(self)
                }) && act is None,
                Command::UpdateDevice(i) => *final(self) == (Worker {
                    health: Health::Switching { target: i, fallback_tried: false },
                    reference: None,
                    ..*old(self)
                }) && act == Some(Action::OpenDevice(i)),
                Command::SaveSnapshot => *final(self) == *old(self) && act == (
                if old(self).reference is Some {
                    Some(Action::SaveSnapshot { manual: true })
                } else {
                    None
                }),
            },
    {
        match cmd {
            Command::StartDetection => {
                self.running = true;
                None
            },
            Command::StopDetection => {
                self.running = false;
                None
            },
            Command::UpdateSensitivity(s) => {
                self.sensitivity_milli = if s <= 1000 {
                    s
                } else {
                    1000
                };
                None
            },
            Command::UpdateMinArea(a) => {
                self.min_area = if a >= 1 {
                    a
                } else {
                    1
                };
                None
            },
            Command::UpdateDevice(i) => {
                self.health = Health::Switching { target: i, fallback_tried: false };
                self.reference = None;
                Some(Action::OpenDevice(i))
            },
            Command::SaveSnapshot => {
                if self.reference.is_some() {
                    Some(Action::SaveSnapshot { manual: true })
                } else {
                    None
                }
            },
        }
    }

    /// Takes the outcome the driver reports for a requested open. On
    /// success the new source is adopted and its first frame becomes the
    /// reference frame - the prior source contributes nothing to it. On
    /// failure the worker falls back to device 0 once; if that also fails
    /// it goes down and stays down until a later device switch succeeds.
    /// Reported outside a switch, an outcome changes nothing.
    pub fn on_open_result(&mut self, outcome: Result<OpenedSource, OpenError>) -> (act: Option<
        Action,
    >)
        requires
            old(self).wf(),
            outcome matches Ok(src) ==> src.first_frame.wf() && !src.first_frame@.is_empty(),
        ensures
            final(self).wf(),
            final(self).health == (if old(self).health is Switching {
                health_after_open(old(self).health, outcome is Ok)
            } else {
                old(self).health
            }),
            final(self).running == old(self).running,
            final(self).sensitivity_milli == old(self).sensitivity_milli,
            final(self).min_area == old(self).min_area,
            final(self).motion_count == old(self).motion_count,
            final(self).last_motion_at_ms == old(self).last_motion_at_ms,
            final(self).fps_window_start_ms == old(self).fps_window_start_ms,
            final(self).fps_frames == old(self).fps_frames,
            final(self).current_fps == old(self).current_fps,
            final(self).last_auto_snapshot_ms == old(self).last_auto_snapshot_ms,
            !(old(self).health is Switching) ==> *final(self) == *old(self) && act is None,
            old(self).health matches Health::Switching { target, fallback_tried } ==> (match outcome {
                Ok(src) => {
                    &&& final(self).reference == Some(src.first_frame)
                    &&& final(self).device_index == src.device
                    &&& final(self).resolution == (
                        src.first_frame@.width as usize,
                        src.first_frame@.height as usize,
                    )
                    &&& act is None
                },
                Err(_) => {
                    &&& final(self).reference is None
                    &&& final(self).device_index == old(self).device_index
                    &&& act == (if !fallback_tried {
                        Some(Action::OpenDevice(0))
                    } else {
                        None
                    })
                },
            }),
    {
        match self.health {
            Health::Switching { target: _, fallback_tried } => {
                match outcome {
                    Ok(src) => {
                        let width = src.first_frame.width();
                        let height = src.first_frame.height();
                        self.health = Health::Ready;
                        self.device_index = src.device;
                        self.resolution = (width, height);
                        self.reference = Some(src.first_frame);
                        None
                    },
                    Err(_) => {
                        if !fallback_tried {
                            self.health = Health::Switching {
                                target: 0,
                                fallback_tried: true,
                            };
                            Some(Action::OpenDevice(0))
                        } else {
                            self.health = Health::Down;
                            None
                        }
                    },
                }
            },
            _ => None,
        }
    }

    /// The record a cycle publishes when no detection step ran: idle,
    /// mid-switch, or down.
    pub open spec fn spec_status(self) -> StatusRecord {
        StatusRecord {
            motion_detected: false,
            motion_count: self.motion_count,
            last_motion_at_ms: self.last_motion_at_ms,
            fps: self.current_fps,
            resolution: self.resolution,
            error: if self.health is Down {
                Some(WorkerError::DeviceUnavailable)
            } else {
                None
            },
        }
    }

    /// The status record a cycle publishes when no detection step ran:
    /// idle, mid-switch, or down. Counters are untouched; an error record
    /// is the sole evidence of the error state.
    pub fn status_snapshot(&self) -> (rec: StatusRecord)
        requires
            self.wf(),
        ensures
            rec == self.spec_status(),
    {
        StatusRecord {
            motion_detected: false,
            motion_count: self.motion_count,
            last_motion_at_ms: self.last_motion_at_ms,
            fps: self.current_fps,
            resolution: self.resolution,
            error: match self.health {
                Health::Down => Some(WorkerError::DeviceUnavailable),
                _ => None,
            },
        }
    }

    /// Everything one active detection cycle does, as a relation between
    /// the worker before (`pre`) and after (`post`), the capture outcome,
    /// the published record and the requested action.
    pub open spec fn active_cycle_post(
        pre: Worker,
        post: Worker,
        outcome: ReadOutcome,
        now_ms: u64,
        rec: StatusRecord,
        act: Option<Action>,
    ) -> bool {
        &&& post.wf()
        &&& post.mode() is Active
        &&& post.health == pre.health
        &&& post.running
        &&& post.sensitivity_milli == pre.sensitivity_milli
        &&& post.min_area == pre.min_area
        &&& post.device_index == pre.device_index
        &&& post.resolution == pre.resolution
        &&& match outcome {
            ReadOutcome::Captured(f) => {
                if f@.width == pre.resolution.0 && f@.height == pre.resolution.1 {
                    let detected = spec_motion(pre.reference.unwrap()@, f@, pre.min_area as int);
                    let granted = detected && auto_snapshot_due(pre.last_auto_snapshot_ms, now_ms);
                    &&& post.reference == Some(f)
                    &&& post.motion_count == next_motion_count(pre.motion_count, detected)
                    &&& post.last_motion_at_ms == (if detected {
                        Some(now_ms)
                    } else {
                        pre.last_motion_at_ms
                    })
                    &&& post.last_auto_snapshot_ms == (if granted {
                        now_ms
                    } else {
                        pre.last_auto_snapshot_ms
                    })
                    &&& rec == (StatusRecord {
                        motion_detected: detected,
                        motion_count: post.motion_count,
                        last_motion_at_ms: post.last_motion_at_ms,
                        fps: post.current_fps,
                        resolution: pre.resolution,
                        error: None,
                    })
                    &&& act == (if granted {
                        Some(Action::SaveSnapshot { manual: false })
                    } else {
                        None
                    })
                    &&& post.fps_advanced_from(pre, now_ms)
                } else {
                    post.cycle_failed_from(pre) && rec == post.capture_error_record() && act
                        == Some(Action::Backoff)
                }
            },
            ReadOutcome::EmptyFrame => {
                &&& post.reference == pre.reference
                &&& post.motion_count == pre.motion_count
                &&& post.last_motion_at_ms == pre.last_motion_at_ms
                &&& post.last_auto_snapshot_ms == pre.last_auto_snapshot_ms
                &&& post.fps_advanced_from(pre, now_ms)
                &&& rec == (StatusRecord {
                    motion_detected: false,
                    motion_count: pre.motion_count,
                    last_motion_at_ms: pre.last_motion_at_ms,
                    fps: post.current_fps,
                    resolution: pre.resolution,
                    error: None,
                })
                &&& act is None
            },
            ReadOutcome::Failed => post.cycle_failed_from(pre) && rec
                == post.capture_error_record() && act == Some(Action::Backoff),
        }
    }

    /// Over one active cycle, whatever the capture outcome: the motion
    /// counter never decreases; it moves up by exactly one on a cycle
    /// whose record reports motion, as long as it sits below its type's
    /// maximum (at the maximum it saturates), and stands still on all
    /// others - empty frames and failed cycles included. The published
    /// record carries exactly the counter the cycle left behind.
    pub proof fn lemma_cycle_count_exact(
        pre: Worker,
        post: Worker,
        outcome: ReadOutcome,
        now_ms: u64,
        rec: StatusRecord,
        act: Option<Action>,
    )
        requires
            Worker::active_cycle_post(pre, post, outcome, now_ms, rec, act),
        ensures
            post.motion_count >= pre.motion_count,
            rec.motion_count == post.motion_count,
            rec.motion_count == next_motion_count(pre.motion_count, rec.motion_detected),
            rec.motion_detected && pre.motion_count < u32::MAX ==> post.motion_count
                == pre.motion_count + 1,
            !rec.motion_detected ==> post.motion_count == pre.motion_count,
    {
    }

    /// The records one worker publishes, in publication order, chain
    /// their motion counts exactly: each record's count is its
    /// predecessor's, up by one where the record reports motion (below
    /// the counter's cap), unchanged otherwise.
    ///
    /// This is what the per-cycle contracts leave a record stream no
    /// choice about: an active cycle's record carries
    /// `next_motion_count` of the prior count (`lemma_cycle_count_exact`),
    /// an idle, switching or down record repeats the prior count with no
    /// motion (`spec_status`), and neither `apply_command` nor
    /// `on_open_result` - a device switch included - touches the counter,
    /// by their `ensures`.
    pub open spec fn counts_chained(recs: Seq<StatusRecord>, start: u32) -> bool
        decreases recs.len(),
    {
        recs.len() == 0 || {
            &&& recs[0].motion_count == next_motion_count(start, recs[0].motion_detected)
            &&& Worker::counts_chained(recs.drop_first(), recs[0].motion_count)
        }
    }

    /// A record published without a detection step - idle, mid-switch or
    /// down - chains like a no-motion cycle: it repeats the worker's
    /// counter unchanged.
    pub proof fn lemma_status_record_chains(self)
        ensures
            self.spec_status().motion_count == next_motion_count(
                self.motion_count,
                self.spec_status().motion_detected,
            ),
    {
    }

    /// Across any chained record sequence the motion count never
    /// decreases: every record's count is at least the starting count,
    /// and counts are non-decreasing between any two records in
    /// publication order.
    pub proof fn lemma_chained_counts_monotone(recs: Seq<StatusRecord>, start: u32)
        requires
            Worker::counts_chained(recs, start),
        ensures
            forall|k: int| 0 <= k < recs.len() ==> #[trigger] recs[k].motion_count >= start,
            forall|j: int, k: int|
                0 <= j <= k < recs.len() ==> #[trigger] recs[j].motion_count <= #[trigger] recs[k].motion_count,
        decreases recs.len(),
    {
        if recs.len() > 0 {
            let rest = recs.drop_first();
            Worker::lemma_chained_counts_monotone(rest, recs[0].motion_count);
            assert forall|k: int| 0 <= k < recs.len() implies #[trigger] recs[k].motion_count
                >= start by {
                if k > 0 {
                    assert(rest[k - 1].motion_count >= recs[0].motion_count);
                }
            }
            assert forall|j: int, k: int| 0 <= j <= k < recs.len() implies #[trigger] recs[j].motion_count
                <= #[trigger] recs[k].motion_count by {
                if 0 < j {
                    assert(rest[j - 1].motion_count <= rest[k - 1].motion_count);
                } else if 0 < k {
                    assert(rest[k - 1].motion_count >= recs[0].motion_count);
                }
            }
        }
    }

    /// Across two consecutive active cycles, a motion snapshot granted at
    /// `t1` forbids another one at any `t2` within the two-second
    /// cooldown window, however much motion the second cycle sees.
    pub proof fn lemma_snapshot_window(
        w0: Worker,
        w1: Worker,
        w2: Worker,
        o1: ReadOutcome,
        o2: ReadOutcome,
        t1: u64,
        t2: u64,
        r1: StatusRecord,
        r2: StatusRecord,
        a1: Option<Action>,
        a2: Option<Action>,
    )
        requires
            Worker::active_cycle_post(w0, w1, o1, t1, r1, a1),
            Worker::active_cycle_post(w1, w2, o2, t2, r2, a2),
            a1 == Some(Action::SaveSnapshot { manual: false }),
            t2 <= t1 + 2000,
        ensures
            a2 != Some(Action::SaveSnapshot { manual: false }),
    {
        assert(w1.last_auto_snapshot_ms == t1);
        lemma_snapshot_cooldown(t1, t2);
    }

    /// Runs one detection cycle while active.
    ///
    /// A captured frame of the expected shape goes through the pipeline:
    /// the motion decision is published, the smoothed frame becomes the
    /// new reference, the counters and the rolling one-second frame-rate
    /// window advance, and a motion snapshot is requested if the cooldown
    /// allows. An empty frame counts as a cycle with no motion. A hard
    /// capture failure or a frame of the wrong shape publishes an error
    /// record and asks the driver to back off; the worker stays active and
    /// retries next cycle.
    pub fn run_active_cycle(&mut self, outcome: ReadOutcome, now_ms: u64) -> (r: (
        StatusRecord,
        Option<Action>,
    ))
        requires
            old(self).wf(),
            old(self).mode() is Active,
            outcome matches ReadOutcome::Captured(f) ==> f.wf(),
        ensures
            Worker::active_cycle_post(*old(self), *final(self), outcome, now_ms, r.0, r.1),
    {
        match outcome {
            ReadOutcome::Captured(f) => {
                let expected = f.width() == self.resolution.0 && f.height() == self.resolution.1;
                if !expected {
                    return (self.capture_error(), Some(Action::Backoff));
                }
                let previous = self.reference.take();
                match previous {
                    Some(prev) => {
                        let (detected, new_reference) = pipeline::step(&prev, f, self.min_area);
                        self.reference = Some(new_reference);
                        self.advance_fps(now_ms);
                        if detected {
                            if self.motion_count < u32::MAX {
                                self.motion_count = self.motion_count + 1;
                            }
                            self.last_motion_at_ms = Some(now_ms);
                        }
                        let granted = detected && now_ms >= 2001 && now_ms - 2001
                            >= self.last_auto_snapshot_ms;
                        if granted {
                            self.last_auto_snapshot_ms = now_ms;
                        }
                        let rec = StatusRecord {
                            motion_detected: detected,
                            motion_count: self.motion_count,
                            last_motion_at_ms: self.last_motion_at_ms,
                            fps: self.current_fps,
                            resolution: self.resolution,
                            error: None,
                        };
                        let act = if granted {
                            Some(Action::SaveSnapshot { manual: false })
                        } else {
                            None
                        };
                        (rec, act)
                    },
                    None => {
                        // unreachable: active mode holds a reference frame
                        proof {
                            assert(false);
                        }
                        (self.capture_error(), Some(Action::Backoff))
                    },
                }
            },
            ReadOutcome::EmptyFrame => {
                self.advance_fps(now_ms);
                let rec = StatusRecord {
                    motion_detected: false,
                    motion_count: self.motion_count,
                    last_motion_at_ms: self.last_motion_at_ms,
                    fps: self.current_fps,
                    resolution: self.resolution,
                    error: None,
                };
                (rec, None)
            },
            ReadOutcome::Failed => (self.capture_error(), Some(Action::Backoff)),
        }
    }

    /// The state after a failed cycle: everything kept, only the capture
    /// error reported.
    pub open spec fn cycle_failed_from(self, before: Worker) -> bool {
        self == before
    }

    /// The record a failed cycle publishes.
    pub open spec fn capture_error_record(self) -> StatusRecord {
        StatusRecord {
            motion_detected: false,
            motion_count: self.motion_count,
            last_motion_at_ms: self.last_motion_at_ms,
            fps: self.current_fps,
            resolution: self.resolution,
            error: Some(WorkerError::CaptureFailed),
        }
    }

    fn capture_error(&self) -> (rec: StatusRecord)
        ensures
            rec == self.capture_error_record(),
    {
        StatusRecord {
            motion_detected: false,
            motion_count: self.motion_count,
            last_motion_at_ms: self.last_motion_at_ms,
            fps: self.current_fps,
            resolution: self.resolution,
            error: Some(WorkerError::CaptureFailed),
        }
    }

    /// The rolling frame-rate window advanced by one completed cycle at
    /// `now_ms`: the cycle is counted, and once a full second has passed
    /// since the window opened, the count is published and a new window
    /// starts at `now_ms`.
    pub open spec fn fps_advanced_from(self, before: Worker, now_ms: u64) -> bool {
        let counted = if before.fps_frames < u32::MAX {
            (before.fps_frames + 1) as u32
        } else {
            u32::MAX
        };
        if now_ms - before.fps_window_start_ms >= 1000 {
            &&& self.fps_frames == 0
            &&& self.current_fps == counted
            &&& self.fps_window_start_ms == now_ms
        } else {
            &&& self.fps_frames == counted
            &&& self.current_fps == before.current_fps
            &&& self.fps_window_start_ms == before.fps_window_start_ms
        }
    }

    fn advance_fps(&mut self, now_ms: u64)
        ensures
            final(self).fps_advanced_from(*old(self), now_ms),
            *final(self) == (Worker {
                fps_frames: final(self).fps_frames,
                current_fps: final(self).current_fps,
                fps_window_start_ms: final(self).fps_window_start_ms,
                ..*old(self)
            }),
    {
        let counted = if self.fps_frames < u32::MAX {
            self.fps_frames + 1
        } else {
            u32::MAX
        };
        if now_ms >= 1000 && now_ms - 1000 >= self.fps_window_start_ms {
            self.current_fps = counted;
            self.fps_frames = 0;
            self.fps_window_start_ms = now_ms;
        } else {
            self.fps_frames = counted;
        }
    }
}

} // verus!
