use crossbeam_channel::bounded;
use motion_detector::channel::{finish_cycle, pump_commands};
use motion_detector::frame::Frame;
use motion_detector::messages::{Action, Command, ReadOutcome, StatusRecord};
use motion_detector::worker::{evaluate_open, Mode, OpenedSource, Worker};

fn fresh_worker() -> Worker {
    let first = Frame::from_pixels(8, 8, vec![10; 64]).unwrap();
    let opened = evaluate_open(0, Some(first)).unwrap();
    Worker::new(300, 500, Ok(opened), 0)
}

#[test]
fn pump_applies_queued_commands_in_order() {
    let (tx, rx) = bounded::<Command>(100);
    let mut w = fresh_worker();

    tx.send(Command::StopDetection).unwrap();
    tx.send(Command::UpdateSensitivity(800)).unwrap();
    tx.send(Command::StartDetection).unwrap();
    let acts = pump_commands(&mut w, &rx, 100);

    assert!(acts.is_empty());
    assert_eq!(w.current_mode(), Mode::Active);
    assert_eq!(w.sensitivity_milli, 800);
    assert!(rx.try_recv().is_err()); // everything was drained
}

#[test]
fn pump_stops_at_a_device_switch() {
    let (tx, rx) = bounded::<Command>(100);
    let mut w = fresh_worker();

    tx.send(Command::UpdateSensitivity(700)).unwrap();
    tx.send(Command::UpdateDevice(2)).unwrap();
    tx.send(Command::StartDetection).unwrap();

    // The pump applies commands up to the switch and hands the open
    // request back; the command after the switch stays queued.
    let acts = pump_commands(&mut w, &rx, 100);
    assert_eq!(acts, vec![Action::OpenDevice(2)]);
    assert_eq!(w.sensitivity_milli, 700);
    assert_eq!(w.current_mode(), Mode::Switching);
    assert!(!w.running);

    // Resolve the switch, then resume pumping: the queued command applies.
    let opened = OpenedSource {
        device: 2,
        first_frame: Frame::from_pixels(8, 8, vec![20; 64]).unwrap(),
    };
    w.on_open_result(Ok(opened));
    let acts = pump_commands(&mut w, &rx, 100);
    assert!(acts.is_empty());
    assert_eq!(w.current_mode(), Mode::Active);
}

#[test]
fn pump_forwards_manual_snapshots_one_at_a_time() {
    let (tx, rx) = bounded::<Command>(100);
    let mut w = fresh_worker();
    tx.send(Command::SaveSnapshot).unwrap();
    tx.send(Command::SaveSnapshot).unwrap();
    let acts = pump_commands(&mut w, &rx, 100);
    assert_eq!(acts, vec![Action::SaveSnapshot { manual: true }]);
    let acts = pump_commands(&mut w, &rx, 100);
    assert_eq!(acts, vec![Action::SaveSnapshot { manual: true }]);
    let acts = pump_commands(&mut w, &rx, 100);
    assert!(acts.is_empty());
}

#[test]
fn snapshot_before_a_switch_still_has_its_frame() {
    // A manual snapshot queued just before a device switch must be taken
    // against the reference frame that stood when the snapshot command
    // was applied - the switch, which closes the source, comes after.
    let (tx, rx) = bounded::<Command>(100);
    let mut w = fresh_worker();
    tx.send(Command::SaveSnapshot).unwrap();
    tx.send(Command::UpdateDevice(2)).unwrap();

    let acts = pump_commands(&mut w, &rx, 100);
    assert_eq!(acts, vec![Action::SaveSnapshot { manual: true }]);
    assert!(w.reference.is_some()); // the frame is still there to save

    let acts = pump_commands(&mut w, &rx, 100);
    assert_eq!(acts, vec![Action::OpenDevice(2)]);
    assert!(w.reference.is_none()); // now the source is closed
}

#[test]
fn finish_cycle_publishes_one_record() {
    let (tx, rx) = bounded::<StatusRecord>(4);
    let mut w = fresh_worker();

    let (rec, act, accepted) = finish_cycle(&mut w, &tx, None, 50);
    assert!(accepted);
    assert!(act.is_none());
    assert_eq!(rx.try_recv().unwrap(), rec);
    assert!(!rec.motion_detected);
    assert_eq!(rec.resolution, (8, 8));

    w.apply_command(Command::StartDetection);
    let same = Frame::from_pixels(8, 8, vec![10; 64]).unwrap();
    let (rec, act, accepted) =
        finish_cycle(&mut w, &tx, Some(ReadOutcome::Captured(same)), 100);
    assert!(accepted);
    assert!(act.is_none());
    assert!(!rec.motion_detected);
    assert_eq!(rx.try_recv().unwrap(), rec);
}

#[test]
fn full_status_queue_drops_the_record_without_stalling() {
    let (tx, rx) = bounded::<StatusRecord>(1);
    let mut w = fresh_worker();

    let (first, _, accepted) = finish_cycle(&mut w, &tx, None, 10);
    assert!(accepted);
    let (_, _, accepted) = finish_cycle(&mut w, &tx, None, 20);
    assert!(!accepted); // the queue is full: the newest record is dropped

    assert_eq!(rx.try_recv().unwrap(), first);
    assert!(rx.try_recv().is_err()); // the dropped record never arrived
}
