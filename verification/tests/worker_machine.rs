use motion_detector::frame::Frame;
use motion_detector::messages::{Action, Command, OpenError, ReadOutcome, WorkerError};
use motion_detector::worker::{evaluate_open, Health, Mode, OpenedSource, Worker};

fn frame_of(width: usize, height: usize, pixels: Vec<u8>) -> Frame {
    Frame::from_pixels(width, height, pixels).expect("pixel buffer must match dimensions")
}

fn fresh_worker(min_area: u32) -> Worker {
    let first = frame_of(64, 64, vec![10; 64 * 64]);
    let opened = evaluate_open(0, Some(first)).expect("open must succeed");
    Worker::new(300, min_area, Ok(opened), 0)
}

#[test]
fn open_validation_fails_fast() {
    assert_eq!(evaluate_open(1, None).unwrap_err(), OpenError::DeviceFailed);
    let empty = frame_of(0, 0, vec![]);
    assert_eq!(
        evaluate_open(1, Some(empty)).unwrap_err(),
        OpenError::EmptyFirstFrame
    );
    let good = frame_of(2, 2, vec![1, 2, 3, 4]);
    let src = evaluate_open(3, Some(good)).unwrap();
    assert_eq!(src.device, 3);
    assert_eq!(src.first_frame.pixels, vec![1, 2, 3, 4]);
}

#[test]
fn static_scene_then_block_increments_count_once() {
    // Ten cycles of an unchanged frame: every record reports no motion and
    // the counter stays put. Then one frame with a high-contrast 40x40
    // block against min_area = 500 trips detection exactly once.
    let mut w = fresh_worker(500);
    w.apply_command(Command::StartDetection);
    assert_eq!(w.current_mode(), Mode::Active);

    for k in 0..10u64 {
        let same = frame_of(64, 64, vec![10; 64 * 64]);
        let (rec, act) = w.run_active_cycle(ReadOutcome::Captured(same), 33 * (k + 1));
        assert!(!rec.motion_detected);
        assert_eq!(rec.motion_count, 0);
        assert_eq!(rec.error, None);
        assert!(act.is_none());
    }
    assert_eq!(w.motion_count, 0);

    let mut pixels = vec![10u8; 64 * 64];
    for r in 10..50usize {
        for c in 10..50usize {
            pixels[r * 64 + c] = 250;
        }
    }
    let (rec, _act) = w.run_active_cycle(ReadOutcome::Captured(frame_of(64, 64, pixels)), 400);
    assert!(rec.motion_detected);
    assert_eq!(rec.motion_count, 1);
    assert_eq!(rec.last_motion_at_ms, Some(400));
    assert_eq!(w.motion_count, 1);
}

#[test]
fn command_burst_applies_before_the_next_cycle() {
    // StopDetection, UpdateSensitivity(0.8), StartDetection in one burst:
    // the resumed cycle sees sensitivity 0.8 (800 thousandths) and the
    // worker is active again.
    let mut w = fresh_worker(500);
    w.apply_command(Command::StartDetection);
    w.apply_command(Command::StopDetection);
    w.apply_command(Command::UpdateSensitivity(800));
    w.apply_command(Command::StartDetection);
    assert_eq!(w.current_mode(), Mode::Active);
    assert_eq!(w.sensitivity_milli, 800);
    let same = frame_of(64, 64, vec![10; 64 * 64]);
    let (rec, _) = w.run_active_cycle(ReadOutcome::Captured(same), 33);
    assert!(!rec.motion_detected);
}

#[test]
fn config_updates_are_clamped() {
    let mut w = fresh_worker(500);
    w.apply_command(Command::UpdateSensitivity(1500));
    assert_eq!(w.sensitivity_milli, 1000);
    w.apply_command(Command::UpdateMinArea(0));
    assert_eq!(w.min_area, 1);
}

#[test]
fn failed_switch_with_failed_fallback_goes_down() {
    let mut w = fresh_worker(500);
    w.apply_command(Command::StartDetection);

    let act = w.apply_command(Command::UpdateDevice(3));
    assert_eq!(act, Some(Action::OpenDevice(3)));
    assert_eq!(w.current_mode(), Mode::Switching);

    // The requested device fails: the worker falls back to device 0.
    let act = w.on_open_result(Err(OpenError::DeviceFailed));
    assert_eq!(act, Some(Action::OpenDevice(0)));

    // The fallback fails too: the worker is down, publishes error records,
    // and neither start commands nor further cycles revive it.
    let act = w.on_open_result(Err(OpenError::DeviceFailed));
    assert_eq!(act, None);
    assert_eq!(w.current_mode(), Mode::Error);
    let rec = w.status_snapshot();
    assert_eq!(rec.error, Some(WorkerError::DeviceUnavailable));
    assert!(!rec.motion_detected);

    w.apply_command(Command::StartDetection);
    assert_eq!(w.current_mode(), Mode::Error);

    // A manual snapshot has no frame to save while down.
    assert_eq!(w.apply_command(Command::SaveSnapshot), None);
}

#[test]
fn successful_switch_adopts_only_the_new_frame() {
    let mut w = fresh_worker(500);
    w.apply_command(Command::StartDetection);
    w.apply_command(Command::UpdateDevice(3));

    let replacement = frame_of(32, 16, vec![99; 32 * 16]);
    let opened = OpenedSource {
        device: 3,
        first_frame: replacement,
    };
    let act = w.on_open_result(Ok(opened));
    assert_eq!(act, None);

    // The prior Active state resumes and the reference frame is exactly
    // the new source's first frame - nothing of the old baseline leaks.
    assert_eq!(w.current_mode(), Mode::Active);
    assert_eq!(w.device_index, 3);
    assert_eq!(w.resolution, (32, 16));
    assert_eq!(w.reference.as_ref().unwrap().pixels, vec![99; 32 * 16]);
}

#[test]
fn recovery_after_error_needs_a_successful_switch() {
    let mut w = fresh_worker(500);
    w.apply_command(Command::UpdateDevice(9));
    w.on_open_result(Err(OpenError::DeviceFailed));
    w.on_open_result(Err(OpenError::DeviceFailed));
    assert_eq!(w.current_mode(), Mode::Error);

    w.apply_command(Command::UpdateDevice(1));
    let opened = OpenedSource {
        device: 1,
        first_frame: frame_of(8, 8, vec![5; 64]),
    };
    w.on_open_result(Ok(opened));
    assert_eq!(w.current_mode(), Mode::Idle);
    assert_eq!(w.health, Health::Ready);
}

#[test]
fn motion_snapshots_respect_the_cooldown() {
    // Motion on every cycle; snapshots may not come closer than two
    // seconds apart, while manual requests are never gated.
    let mut w = fresh_worker(100);
    w.apply_command(Command::StartDetection);

    let quiet = vec![10u8; 64 * 64];
    let mut loud = quiet.clone();
    for r in 10..40usize {
        for c in 10..40usize {
            loud[r * 64 + c] = 250;
        }
    }

    // Alternate so every "loud" cycle really differs from its reference.
    let (_, act) = w.run_active_cycle(
        ReadOutcome::Captured(frame_of(64, 64, loud.clone())),
        2500,
    );
    assert_eq!(act, Some(Action::SaveSnapshot { manual: false }));

    let (_, act) = w.run_active_cycle(
        ReadOutcome::Captured(frame_of(64, 64, quiet.clone())),
        4000,
    );
    assert_eq!(act, None); // motion again, but only 1.5 s after the last snapshot

    let (rec, act) = w.run_active_cycle(
        ReadOutcome::Captured(frame_of(64, 64, loud.clone())),
        4400,
    );
    assert!(rec.motion_detected);
    assert_eq!(act, None); // 1.9 s: still inside the window

    let (rec, act) = w.run_active_cycle(
        ReadOutcome::Captured(frame_of(64, 64, quiet.clone())),
        4600,
    );
    assert!(rec.motion_detected);
    assert_eq!(act, Some(Action::SaveSnapshot { manual: false })); // 2.1 s

    // A manual snapshot right after is served regardless of the cooldown.
    assert_eq!(
        w.apply_command(Command::SaveSnapshot),
        Some(Action::SaveSnapshot { manual: true })
    );
}

#[test]
fn empty_frames_count_for_fps_but_not_motion() {
    let mut w = fresh_worker(500);
    w.apply_command(Command::StartDetection);
    for k in 0..9u64 {
        let (rec, act) = w.run_active_cycle(ReadOutcome::EmptyFrame, 100 * (k + 1));
        assert!(!rec.motion_detected);
        assert_eq!(rec.error, None);
        assert!(act.is_none());
    }
    // The tenth cycle closes the one-second window: ten cycles ran in it.
    let (rec, _) = w.run_active_cycle(ReadOutcome::EmptyFrame, 1000);
    assert_eq!(rec.fps, 10);
    assert_eq!(w.motion_count, 0);
}

#[test]
fn hard_capture_failure_is_an_error_cycle() {
    let mut w = fresh_worker(500);
    w.apply_command(Command::StartDetection);
    let (rec, act) = w.run_active_cycle(ReadOutcome::Failed, 33);
    assert_eq!(rec.error, Some(WorkerError::CaptureFailed));
    assert!(!rec.motion_detected);
    assert_eq!(act, Some(Action::Backoff));
    // The worker stays active and simply retries next cycle.
    assert_eq!(w.current_mode(), Mode::Active);
}

#[test]
fn wrong_shape_frame_is_an_error_cycle() {
    let mut w = fresh_worker(500);
    w.apply_command(Command::StartDetection);
    let odd = frame_of(8, 8, vec![0; 64]);
    let (rec, act) = w.run_active_cycle(ReadOutcome::Captured(odd), 33);
    assert_eq!(rec.error, Some(WorkerError::CaptureFailed));
    assert_eq!(act, Some(Action::Backoff));
}

#[test]
fn initial_open_failure_starts_down() {
    let w = Worker::new(300, 500, Err(OpenError::DeviceFailed), 0);
    assert_eq!(w.current_mode(), Mode::Error);
    assert!(w.reference.is_none());
}
