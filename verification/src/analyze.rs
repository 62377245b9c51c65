use vstd::prelude::*;

use crate::notify::{Notifier, StatusCell};
use crate::touch_group::{GroupView, TouchGroup, TouchPos};
use crate::TouchStatus;

verus! {

/// Whether two fully known samples are far enough apart: their Euclidean
/// distance, rounded to the nearest integer, reaches `min_pixel`.  Stated
/// over the squared distance d and threshold m: for integers, the nearest
/// integer to sqrt(d) is at least m >= 1 exactly when d >= m*m - m + 1,
/// and a threshold of zero is reached by every distance.
pub open spec fn slide_reached(dx: int, dy: int, min_pixel: int) -> bool {
    min_pixel <= 0 || dx * dx + dy * dy >= min_pixel * min_pixel - min_pixel + 1
}

/// A slot slides when both its current and its previous sample are fully
/// known and they are `slide_reached`-far apart.
pub open spec fn on_slide_spec(p: TouchPos, min_pixel: int) -> bool {
    match (p.cur_pos, p.prev_pos) {
        ((Some(cx), Some(cy)), (Some(px), Some(py))) => slide_reached(
            cx - px,
            cy - py,
            min_pixel,
        ),
        _ => false,
    }
}

/// The three-way classification of one group snapshot under one threshold:
/// some slot slides, or nothing is tracked, or something stationary is.
pub open spec fn classify_spec(g: GroupView, min_pixel: int) -> TouchStatus {
    if exists|i: int|
        0 <= i < g.slot_pos.len() && on_slide_spec(#[trigger] g.slot_pos[i].1, min_pixel) {
        TouchStatus::Slide
    } else if g.slot_pos.len() == 0 {
        TouchStatus::Idle
    } else {
        TouchStatus::Click
    }
}

/// What one classification pass publishes, given the previously published
/// status: the fresh classification when it differs, nothing otherwise.
pub open spec fn publish_decision(cur: TouchStatus, g: GroupView, min_pixel: int) -> Option<
    TouchStatus,
> {
    if classify_spec(g, min_pixel) != cur {
        Some(classify_spec(g, min_pixel))
    } else {
        None
    }
}

/// Publication is driven by change alone: what one pass publishes, an
/// immediately repeated pass over the same snapshot and threshold does not
/// publish again; and a pass that publishes nothing saw its own status.
pub proof fn lemma_publish_only_on_change(cur: TouchStatus, g: GroupView, min_pixel: int)
    ensures
        publish_decision(cur, g, min_pixel) matches Some(s) ==> publish_decision(
            s,
            g,
            min_pixel,
        ) is None,
        publish_decision(cur, g, min_pixel) is None ==> classify_spec(g, min_pixel) == cur,
{
}

/// Whether one slot's tracker is currently sliding.
pub fn on_slide(pos: &TouchPos, min_pixel: usize) -> (r: bool)
    ensures
        r == on_slide_spec(*pos, min_pixel as int),
{
    let (cx, cy) = match pos.cur_pos {
        (Some(a), Some(b)) => (a, b),
        _ => {
            return false;
        },
    };
    let (px, py) = match pos.prev_pos {
        (Some(a), Some(b)) => (a, b),
        _ => {
            return false;
        },
    };
    if min_pixel == 0 {
        return true;
    }
    let dx: i64 = cx as i64 - px as i64;
    let dy: i64 = cy as i64 - py as i64;
    let dxa: u128 = if dx < 0 {
        (-dx) as u128
    } else {
        dx as u128
    };
    let dya: u128 = if dy < 0 {
        (-dy) as u128
    } else {
        dy as u128
    };
    proof {
        assert(dxa * dxa < 0x20000000000000000) by (nonlinear_arith)
            requires dxa < 0x100000000,
        ;
        assert(dya * dya < 0x20000000000000000) by (nonlinear_arith)
            requires dya < 0x100000000,
        ;
    }
    let d: u128 = dxa * dxa + dya * dya;
    let m: u128 = min_pixel as u128;
    proof {
        assert(m * m < 0xffffffffffffffffffffffffffffffff && m <= m * m) by (nonlinear_arith)
            requires 1 <= m < 0x10000000000000000,
        ;
    }
    let thr: u128 = m * m - m + 1;
    let r = d >= thr;
    proof {
        let dxi = cx - px;
        let dyi = cy - py;
        assert(dxa as int == if dxi < 0 { -dxi } else { dxi });
        assert(dya as int == if dyi < 0 { -dyi } else { dyi });
        assert((dxa as int) * (dxa as int) == dxi * dxi) by (nonlinear_arith)
            requires dxa as int == if dxi < 0 { -dxi } else { dxi },
        ;
        assert((dya as int) * (dya as int) == dyi * dyi) by (nonlinear_arith)
            requires dya as int == if dyi < 0 { -dyi } else { dyi },
        ;
        assert(d as int == dxi * dxi + dyi * dyi);
        assert(r == slide_reached(dxi, dyi, min_pixel as int));
    }
    r
}

/// The classification of the group right now: pure in the snapshot and the
/// threshold, as its contract states.
pub fn classify(group: &TouchGroup, min_pixel: usize) -> (r: TouchStatus)
    ensures
        r == classify_spec(group@, min_pixel as int),
{
    let mut i: usize = 0;
    while i < group.slot_pos.len()
        invariant
            i <= group.slot_pos@.len(),
            forall|j: int|
                0 <= j < i ==> !on_slide_spec(#[trigger] group.slot_pos@[j].1, min_pixel as int),
        decreases group.slot_pos@.len() - i,
    {
        if on_slide(&group.slot_pos[i].1, min_pixel) {
            return TouchStatus::Slide;
        }
        i = i + 1;
    }
    if group.slot_pos.len() == 0 {
        TouchStatus::Idle
    } else {
        TouchStatus::Click
    }
}

/// One classification pass against a previously published status, without
/// the publishing itself: the returned action is exactly `publish_decision`.
pub fn decide(cur: TouchStatus, group: &TouchGroup, min_pixel: usize) -> (r: Option<TouchStatus>)
    ensures
        r == publish_decision(cur, group@, min_pixel as int),
{
    let n = classify(group, min_pixel);
    if n != cur {
        Some(n)
    } else {
        None
    }
}

/// One full classifier pass: classify the group, compare against the cell's
/// current value, and on change store the new status and fire one
/// non-blocking notification; returns what was published, if anything.
///
/// Whatever the cell's load returned, anything published is the
/// classification of this snapshot under this threshold.
pub fn analyze(
    group: &TouchGroup,
    status: &StatusCell,
    notice: &Notifier,
    min_pixel: usize,
) -> (published: Option<TouchStatus>)
    ensures
        published matches Some(s) ==> s == classify_spec(group@, min_pixel as int),
{
    let cur = status.load();
    let act = decide(cur, group, min_pixel);
    if let Some(s) = act {
        status.store(s);
        let _queued = notice.notify();
    }
    act
}

} // verus!
