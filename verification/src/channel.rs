//! The worker's side of the two bounded queues: draining commands without
//! blocking, and publishing one status record per cycle, dropping it when
//! the status queue is full rather than stalling the worker.
//!
//! The producer side (submitting commands, creating the channels) lives
//! with the driver; another thread owns it, so nothing about the queues'
//! contents can be pinned down here. What is verified is what the worker
//! does with whatever arrives.

use vstd::prelude::*;
use crate::messages::Action;
use crate::messages::Command;
use crate::messages::ReadOutcome;
use crate::messages::StatusRecord;
use crate::worker::Health;
use crate::worker::Worker;

verus! {

#[verifier::external_type_specification]
#[verifier::external_body]
#[verifier::reject_recursive_types(T)]
pub struct ExSender<T>(crossbeam_channel::Sender<T>);

#[verifier::external_type_specification]
#[verifier::external_body]
#[verifier::reject_recursive_types(T)]
pub struct ExReceiver<T>(crossbeam_channel::Receiver<T>);

/// Relies on crossbeam_channel::Receiver::try_recv: returns a queued
/// command without blocking, or nothing when the queue is empty or
/// disconnected. What arrives depends on the producer thread, so nothing
/// more can be promised of the result.
#[verifier::external_body]
fn try_next_command(rx: &crossbeam_channel::Receiver<Command>) -> Option<Command> {
    match rx.try_recv() {
        Ok(cmd) => Some(cmd),
        Err(_) => None,
    }
}

/// Relies on crossbeam_channel::Sender::try_send: queues the record
/// without blocking, and reports false when the queue is full or
/// disconnected - the record is then dropped, never the worker stalled.
#[verifier::external_body]
fn try_publish(tx: &crossbeam_channel::Sender<StatusRecord>, rec: StatusRecord) -> bool {
    tx.try_send(rec).is_ok()
}

/// Drains queued commands, in arrival order, and applies each to the
/// worker - the start of every cycle, so a burst submitted before a cycle
/// is fully reflected in that cycle.
///
/// The pump stops after `limit` commands, when the queue is empty, or as
/// soon as a command asks for outside work, which it hands back as the
/// single returned action: a snapshot request must be performed against
/// the reference frame that stood when its command was applied, and a
/// device switch must be resolved (the open attempted and reported back)
/// before later commands apply. The caller performs the action and
/// resumes pumping.
pub fn pump_commands(w: &mut Worker, rx: &crossbeam_channel::Receiver<Command>, limit: usize) -> (
    acts: Vec<Action>)
    requires
        old(w).wf(),
    ensures
        final(w).wf(),
        final(w).motion_count == old(w).motion_count,
        final(w).last_motion_at_ms == old(w).last_motion_at_ms,
        final(w).fps_window_start_ms == old(w).fps_window_start_ms,
        final(w).fps_frames == old(w).fps_frames,
        final(w).current_fps == old(w).current_fps,
        final(w).last_auto_snapshot_ms == old(w).last_auto_snapshot_ms,
        acts@.len() <= 1,
        acts@.len() == 0 ==> final(w).health == old(w).health,
        acts@.len() == 1 ==> {
            &&& (acts@[0] == (Action::SaveSnapshot { manual: true }) || acts@[0]
                matches Action::OpenDevice(_))
            &&& (acts@[0] == (Action::SaveSnapshot { manual: true }) ==> final(w).health == old(
                w,
            ).health && final(w).reference is Some)
            &&& (acts@[0] matches Action::OpenDevice(d) ==> final(w).health == (
            Health::Switching { target: d, fallback_tried: false }))
        },
{
    let mut acts: Vec<Action> = Vec::new();
    let mut k: usize = 0;
    while k < limit
        invariant
            w.wf(),
            w.motion_count == old(w).motion_count,
            w.last_motion_at_ms == old(w).last_motion_at_ms,
            w.fps_window_start_ms == old(w).fps_window_start_ms,
            w.fps_frames == old(w).fps_frames,
            w.current_fps == old(w).current_fps,
            w.last_auto_snapshot_ms == old(w).last_auto_snapshot_ms,
            w.health == old(w).health,
            acts@.len() == 0,
        decreases limit - k,
    {
        match try_next_command(rx) {
            None => {
                return acts;
            },
            Some(cmd) => {
                let act = w.apply_command(cmd);
                match act {
                    None => {},
                    Some(a) => {
                        acts.push(a);
                        return acts;
                    },
                }
            },
        }
        k += 1;
    }
    acts
}

/// Finishes one cycle: runs the detection step when the worker is active
/// (the driver hands in what its capture attempt produced), otherwise
/// takes the idle, switching or error record, and publishes that one
/// record on the status queue without blocking. Returns the record, the
/// action the cycle asks for, and whether the queue accepted the record -
/// a full queue drops it, and observers must tolerate the gap.
pub fn finish_cycle(
    w: &mut Worker,
    tx: &crossbeam_channel::Sender<StatusRecord>,
    capture: Option<ReadOutcome>,
    now_ms: u64,
) -> (r: (StatusRecord, Option<Action>, bool))
    requires
        old(w).wf(),
        capture is Some <==> old(w).mode() is Active,
        capture matches Some(o) ==> (o matches ReadOutcome::Captured(f) ==> f.wf()),
    ensures
        final(w).wf(),
        match capture {
            Some(o) => Worker::active_cycle_post(*old(w), *final(w), o, now_ms, r.0, r.1),
            None => *final(w) == *old(w) && r.0 == old(w).spec_status() && r.1 is None,
        },
{
    let (rec, act) = match capture {
        Some(outcome) => w.run_active_cycle(outcome, now_ms),
        None => (w.status_snapshot(), None),
    };
    let accepted = try_publish(tx, rec);
    (rec, act, accepted)
}

} // verus!
