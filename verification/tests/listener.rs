use touch_event::aggregate;
use touch_event::notify::WaitError;
use touch_event::read::{Decoder, RawEvent};
use touch_event::{ListenError, TouchListener, TouchStatus};

use std::time::Duration;

/// One full report: select slot 0, announce the tracking id, one (x, y)
/// sample, then the synchronization marker.
fn first_contact(d: &mut Decoder, id: i32, x: i32, y: i32) {
    d.handle_event(RawEvent::SlotSelect(0));
    d.handle_event(RawEvent::TrackingId(id));
    d.handle_event(RawEvent::PositionX(x));
    d.handle_event(RawEvent::PositionY(y));
    d.handle_event(RawEvent::Sync);
}

/// A follow-up report: the decoder forgets its slot target at every flush,
/// so each report names the slot again before its axis sample.
fn move_to(d: &mut Decoder, x: i32) {
    d.handle_event(RawEvent::SlotSelect(0));
    d.handle_event(RawEvent::PositionX(x));
    d.handle_event(RawEvent::Sync);
}

#[test]
fn no_devices_is_an_error() {
    assert_eq!(TouchListener::new(5, vec![]).err(), Some(ListenError::NoDevice));
}

#[test]
fn decoder_reports_click_then_slide_then_idle() {
    let (listener, mut decoders) = TouchListener::new(5, vec![0]).unwrap();
    let d = &mut decoders[0];
    let cell = &listener.status_map[0].1;

    first_contact(d, 1, 0, 0);
    assert_eq!(cell.load(), TouchStatus::Click);

    // the decoder classifies before applying each buffered write, so the
    // movement becomes visible on the pass after the one that recorded it
    move_to(d, 10);
    assert_eq!(cell.load(), TouchStatus::Click);
    move_to(d, 20);
    assert_eq!(cell.load(), TouchStatus::Slide);

    // release of the only contact empties the group
    d.handle_event(RawEvent::TrackingId(-1));
    d.handle_event(RawEvent::Sync);
    assert_eq!(cell.load(), TouchStatus::Idle);
    assert!(d.group.id_slot.is_empty());
    assert!(d.group.slot_pos.is_empty());
}

#[test]
fn release_event_takes_the_highest_bound_id() {
    let (listener, mut decoders) = TouchListener::new(5, vec![0]).unwrap();
    let d = &mut decoders[0];

    first_contact(d, 2, 0, 0);
    d.handle_event(RawEvent::SlotSelect(1));
    d.handle_event(RawEvent::TrackingId(5));
    d.handle_event(RawEvent::PositionX(50));
    d.handle_event(RawEvent::PositionY(50));
    d.handle_event(RawEvent::Sync);
    assert_eq!(d.group.id_slot, vec![(2, Some(0)), (5, Some(1))]);

    d.handle_event(RawEvent::TrackingId(-1));
    d.handle_event(RawEvent::Sync);
    assert_eq!(d.group.id_slot, vec![(2, Some(0))]);
    assert_eq!(d.group.slot_pos.len(), 1);
    assert_eq!(d.group.slot_pos[0].0, Some(0));
    assert_eq!(listener.status_map[0].1.load(), TouchStatus::Click);
}

#[test]
fn axis_burst_for_an_unknown_slot_is_abandoned() {
    let (_listener, mut decoders) = TouchListener::new(5, vec![0]).unwrap();
    let d = &mut decoders[0];

    // an axis event arrives before any slot or id was ever announced
    d.handle_event(RawEvent::PositionX(40));
    d.handle_event(RawEvent::Sync);
    assert!(d.group.slot_pos.is_empty());
    assert!(d.cache.is_empty());
    assert_eq!(d.target_id, None);
    assert_eq!(d.target_slot, None);

    // the stream resynchronizes on the next report
    first_contact(d, 1, 3, 4);
    assert_eq!(d.group.slot_pos.len(), 1);
}

#[test]
fn ignored_events_change_nothing() {
    let (listener, mut decoders) = TouchListener::new(5, vec![0]).unwrap();
    let d = &mut decoders[0];
    first_contact(d, 1, 0, 0);
    d.handle_event(RawEvent::Other);
    assert_eq!(d.group.id_slot, vec![(1, Some(0))]);
    assert_eq!(listener.status_map[0].1.load(), TouchStatus::Click);
}

#[test]
fn aggregate_ors_over_devices() {
    assert_eq!(aggregate(&vec![]), (false, false, false));
    assert_eq!(aggregate(&vec![TouchStatus::Idle, TouchStatus::Idle]), (false, false, true));
    assert_eq!(
        aggregate(&vec![TouchStatus::Slide, TouchStatus::Idle]),
        (true, false, true)
    );
    assert_eq!(
        aggregate(&vec![TouchStatus::Slide, TouchStatus::Click, TouchStatus::Idle]),
        (true, true, true)
    );
}

#[test]
fn status_over_two_devices_one_sliding_one_idle() {
    let (listener, mut decoders) = TouchListener::new(5, vec![3, 7]).unwrap();
    assert_eq!(listener.status_map[0].0, 3);
    assert_eq!(listener.status_map[1].0, 7);

    let d = &mut decoders[0];
    first_contact(d, 1, 0, 0);
    move_to(d, 10);
    move_to(d, 20);

    assert_eq!(listener.status_map[0].1.load(), TouchStatus::Slide);
    assert_eq!(listener.status_map[1].1.load(), TouchStatus::Idle);
    assert_eq!(listener.status(), (true, false, true));
}

#[test]
fn threshold_is_shared_and_adjustable() {
    let (listener, mut decoders) = TouchListener::new(100, vec![0]).unwrap();
    let d = &mut decoders[0];
    first_contact(d, 1, 0, 0);
    move_to(d, 10);
    move_to(d, 20);
    // ten-pixel moves stay below the hundred-pixel threshold
    assert_eq!(listener.status_map[0].1.load(), TouchStatus::Click);

    listener.min_pixel(5);
    move_to(d, 30);
    assert_eq!(listener.status_map[0].1.load(), TouchStatus::Slide);
}

#[test]
fn wait_wakes_on_a_change() {
    let (listener, mut decoders) = TouchListener::new(5, vec![0]).unwrap();
    first_contact(&mut decoders[0], 1, 0, 0);
    assert_eq!(listener.wait(), Ok(()));
}

#[test]
fn wait_timeout_tells_timeout_from_disconnection() {
    let (listener, decoders) = TouchListener::new(5, vec![0]).unwrap();
    assert_eq!(
        listener.wait_timeout(Duration::from_millis(20)),
        Err(WaitError::Timeout)
    );

    drop(decoders);
    assert_eq!(
        listener.wait_timeout(Duration::from_millis(20)),
        Err(WaitError::Disconnected)
    );
    assert_eq!(listener.wait(), Err(WaitError::Disconnected));
}
