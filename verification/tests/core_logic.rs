use touch_event::analyze::{analyze, classify, decide, on_slide};
use touch_event::notify::{notify_channel, StatusCell, WaitError};
use touch_event::touch_group::{TouchGroup, TouchPos};
use touch_event::TouchStatus;

use std::sync::Arc;
use std::time::Duration;

fn pos(cur: (Option<i32>, Option<i32>), prev: (Option<i32>, Option<i32>)) -> TouchPos {
    TouchPos { cur_pos: cur, prev_pos: prev }
}

fn one_slot_group(p: TouchPos) -> TouchGroup {
    TouchGroup { id_slot: vec![(1, Some(0))], slot_pos: vec![(Some(0), p)] }
}

#[test]
fn prev_follows_cur_on_every_axis_write() {
    let mut p = TouchPos { cur_pos: (None, None), prev_pos: (None, None) };

    let before = p.cur_pos;
    p.x(3);
    assert_eq!(p.prev_pos, before);
    assert_eq!(p.cur_pos, (Some(3), None));

    let before = p.cur_pos;
    p.y(4);
    assert_eq!(p.prev_pos, before);
    assert_eq!(p.cur_pos, (Some(3), Some(4)));

    let before = p.cur_pos;
    p.x(7);
    assert_eq!(p.prev_pos, before);
    assert_eq!(p.cur_pos, (Some(7), Some(4)));

    let before = p.cur_pos;
    p.y(9);
    assert_eq!(p.prev_pos, before);
    assert_eq!(p.cur_pos, (Some(7), Some(9)));
}

#[test]
fn release_on_empty_group_is_noop() {
    let mut g = TouchGroup::new();
    g.remove_id();
    assert!(g.id_slot.is_empty());
    assert!(g.slot_pos.is_empty());
    assert!(g.is_empty());
}

#[test]
fn release_removes_exactly_the_largest_id() {
    let mut g = TouchGroup::new();
    g.bind(2, Some(0));
    g.bind(5, Some(1));
    assert_eq!(g.id_slot.len(), 2);

    g.remove_id();
    assert_eq!(g.id_slot, vec![(2, Some(0))]);
    assert_eq!(g.slot_pos.len(), 1);
    assert_eq!(g.slot_pos[0].0, Some(0));

    g.remove_id();
    assert!(g.is_empty());
    assert!(g.id_slot.is_empty());
}

#[test]
fn bind_is_idempotent_per_id() {
    let mut g = TouchGroup::new();
    g.bind(3, Some(0));
    g.bind(3, Some(9));
    assert_eq!(g.id_slot, vec![(3, Some(0))]);
    assert_eq!(g.slot_pos.len(), 1);
}

#[test]
fn classifier_is_pure() {
    let g1 = one_slot_group(pos((Some(6), Some(8)), (Some(0), Some(0))));
    let g2 = one_slot_group(pos((Some(6), Some(8)), (Some(0), Some(0))));
    assert_eq!(classify(&g1, 10), classify(&g1, 10));
    assert_eq!(classify(&g1, 10), classify(&g2, 10));
    assert_eq!(decide(TouchStatus::Idle, &g1, 10), decide(TouchStatus::Idle, &g2, 10));
}

#[test]
fn scenario_close_pair_is_click() {
    let g = one_slot_group(pos((Some(3), Some(4)), (Some(0), Some(0))));
    assert_eq!(classify(&g, 10), TouchStatus::Click);
}

#[test]
fn scenario_distance_ten_is_slide() {
    let g = one_slot_group(pos((Some(6), Some(8)), (Some(0), Some(0))));
    assert_eq!(classify(&g, 10), TouchStatus::Slide);
}

#[test]
fn empty_group_is_idle() {
    let g = TouchGroup::new();
    assert_eq!(classify(&g, 10), TouchStatus::Idle);
}

#[test]
fn partial_positions_never_slide() {
    assert!(!on_slide(&pos((Some(6), None), (Some(0), Some(0))), 1));
    assert!(!on_slide(&pos((Some(6), Some(8)), (Some(0), None)), 1));
    assert!(!on_slide(&pos((None, None), (None, None)), 0));
}

#[test]
fn distance_rounds_to_nearest() {
    // |(2,2)| = sqrt(8) = 2.83 rounds to 3
    assert!(on_slide(&pos((Some(2), Some(2)), (Some(0), Some(0))), 3));
    // |(2,1)| = sqrt(5) = 2.24 rounds to 2
    assert!(!on_slide(&pos((Some(2), Some(1)), (Some(0), Some(0))), 3));
    // distance exactly on the threshold counts
    assert!(on_slide(&pos((Some(3), Some(4)), (Some(0), Some(0))), 5));
    assert!(!on_slide(&pos((Some(3), Some(4)), (Some(0), Some(0))), 6));
    // a zero threshold is always reached
    assert!(on_slide(&pos((Some(0), Some(0)), (Some(0), Some(0))), 0));
}

#[test]
fn publish_only_on_actual_change() {
    let cell = Arc::new(StatusCell::new(TouchStatus::Idle));
    let (tx, rx) = notify_channel(1);
    let g = one_slot_group(pos((None, None), (None, None)));

    let first = analyze(&g, &cell, &tx, 10);
    assert_eq!(first, Some(TouchStatus::Click));
    assert_eq!(cell.load(), TouchStatus::Click);

    let second = analyze(&g, &cell, &tx, 10);
    assert_eq!(second, None);
    assert_eq!(cell.load(), TouchStatus::Click);

    // exactly one notification for the two identical classifications
    assert_eq!(rx.recv_timeout(Duration::from_millis(10)), Ok(()));
    assert_eq!(rx.recv_timeout(Duration::from_millis(10)), Err(WaitError::Timeout));
}

#[test]
fn rapid_changes_coalesce_without_blocking() {
    let cell = Arc::new(StatusCell::new(TouchStatus::Idle));
    let (tx, rx) = notify_channel(1);
    let clicking = one_slot_group(pos((None, None), (None, None)));
    let sliding = one_slot_group(pos((Some(6), Some(8)), (Some(0), Some(0))));

    // three rapid status changes with no intervening consumption
    assert_eq!(analyze(&clicking, &cell, &tx, 10), Some(TouchStatus::Click));
    assert_eq!(analyze(&sliding, &cell, &tx, 10), Some(TouchStatus::Slide));
    assert_eq!(analyze(&clicking, &cell, &tx, 10), Some(TouchStatus::Click));

    // at least one and at most three wakeups were queued; here the
    // capacity-one mailbox coalesces them into exactly one
    let mut queued = 0;
    while rx.recv_timeout(Duration::from_millis(10)) == Ok(()) {
        queued += 1;
    }
    assert!(1 <= queued && queued <= 3);
    assert_eq!(queued, 1);
}
