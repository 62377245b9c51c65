use vstd::prelude::*;

pub mod analyze;
pub mod notify;
pub mod read;
pub mod touch_group;

use core::sync::atomic::{AtomicUsize, Ordering};
use std::sync::Arc;

use crate::notify::{arc_dup, notify_channel, StatusCell, WaitError, WaitReceiver};
use crate::read::Decoder;

verus! {

/// The three-way classification of what is happening on one touch surface.
///
/// `Slide`: at least one touch point is moving; `Click`: touch points are
/// present but none is moving; `Idle`: no touch points at all.
#[derive(Debug, Clone, Copy, Eq, PartialEq, Structural)]
pub enum TouchStatus {
    Slide,
    Click,
    Idle,
}

/// Why a listener could not be built.
#[derive(Debug, Clone, Copy, PartialEq, Eq, Structural)]
pub enum ListenError {
    NoDevice,
}

/// `t` occurs among the statuses.
pub open spec fn any_status(s: Seq<TouchStatus>, t: TouchStatus) -> bool {
    exists|i: int| 0 <= i < s.len() && s[i] == t
}

/// The OR-reduction over a momentary collection of per-device statuses:
/// whether any is `Slide`, whether any is `Click`, whether any is `Idle`.
pub fn aggregate(statuses: &Vec<TouchStatus>) -> (r: (bool, bool, bool))
    ensures
        r.0 == any_status(statuses@, TouchStatus::Slide),
        r.1 == any_status(statuses@, TouchStatus::Click),
        r.2 == any_status(statuses@, TouchStatus::Idle),
{
    let mut slide = false;
    let mut click = false;
    let mut idle = false;
    let mut i: usize = 0;
    while i < statuses.len()
        invariant
            i <= statuses@.len(),
            slide == any_status(statuses@.take(i as int), TouchStatus::Slide),
            click == any_status(statuses@.take(i as int), TouchStatus::Click),
            idle == any_status(statuses@.take(i as int), TouchStatus::Idle),
        decreases statuses@.len() - i,
    {
        match statuses[i] {
            TouchStatus::Slide => slide = true,
            TouchStatus::Click => click = true,
            TouchStatus::Idle => idle = true,
        }
        proof {
            assert(statuses@.take(i + 1).drop_last() =~= statuses@.take(i as int));
            assert(statuses@.take(i + 1).last() == statuses@[i as int]);
            assert forall|t: TouchStatus| #[trigger]
                any_status(statuses@.take(i + 1), t) == (any_status(statuses@.take(i as int), t)
                    || statuses@[i as int] == t) by {
                let s0 = statuses@.take(i as int);
                let s1 = statuses@.take(i + 1);
                if any_status(s0, t) {
                    let j = choose|j: int| 0 <= j < s0.len() && s0[j] == t;
                    assert(s1[j] == t);
                }
                if statuses@[i as int] == t {
                    assert(s1[i as int] == t);
                }
                if any_status(s1, t) && statuses@[i as int] != t {
                    let j = choose|j: int| 0 <= j < s1.len() && s1[j] == t;
                    assert(j < s0.len() && s0[j] == t);
                }
            }
        }
        i = i + 1;
    }
    proof {
        assert(statuses@.take(statuses@.len() as int) =~= statuses@);
    }
    (slide, click, idle)
}

/// Listens for touch events: one status cell and one decoder per supplied
/// device, a shared motion threshold, and the receiving half of the
/// coalescing wakeup channel.
///
/// The listener never opens devices itself: the caller supplies one
/// identifier per already-opened touch-capable device and receives one
/// decoder per device back, to be driven by that device's event stream on a
/// thread of the caller's choosing.
#[derive(Debug)]
pub struct TouchListener {
    pub status_map: Vec<(usize, Arc<StatusCell>)>,
    pub wait: WaitReceiver,
    pub min_pixel: Arc<AtomicUsize>,
}

impl TouchListener {
    /// Build one status cell and one decoder per device identifier, all
    /// sharing the motion threshold and the wakeup channel.  Fails exactly
    /// when no device was supplied.
    pub fn new(min_pixel: usize, device_ids: Vec<usize>) -> (r: Result<
        (TouchListener, Vec<Decoder>),
        ListenError,
    >)
        ensures
            r is Err <==> device_ids@.len() == 0,
            r matches Err(e) ==> e == ListenError::NoDevice,
            r matches Ok(p) ==> {
                let l = p.0;
                let ds = p.1;
                &&& l.status_map@.len() == device_ids@.len()
                &&& ds@.len() == device_ids@.len()
                &&& forall|i: int|
                    0 <= i < device_ids@.len() ==> (#[trigger] l.status_map@[i]).0
                        == device_ids@[i]
                &&& forall|i: int|
                    0 <= i < device_ids@.len() ==> (#[trigger] ds@[i]).status == l.status_map@[i].1
                &&& forall|i: int|
                    0 <= i < device_ids@.len() ==> (#[trigger] ds@[i]).min_pixel == l.min_pixel
                &&& forall|i: int|
                    0 <= i < device_ids@.len() ==> (#[trigger] ds@[i]).wf()
                        && ds@[i]@.group.id_slot.len() == 0 && ds@[i]@.group.slot_pos.len() == 0
                        && ds@[i]@.target_id is None && ds@[i]@.target_slot is None
                        && ds@[i]@.cache.len() == 0
            },
    {
        if device_ids.len() == 0 {
            return Err(ListenError::NoDevice);
        }
        let (tx, rx) = notify_channel(1);
        let shared_min = Arc::new(AtomicUsize::new(min_pixel));
        let mut status_map: Vec<(usize, Arc<StatusCell>)> = Vec::new();
        let mut decoders: Vec<Decoder> = Vec::new();
        let mut i: usize = 0;
        while i < device_ids.len()
            invariant
                i <= device_ids@.len(),
                status_map@.len() == i,
                decoders@.len() == i,
                forall|j: int|
                    0 <= j < i ==> (#[trigger] status_map@[j]).0 == device_ids@[j],
                forall|j: int|
                    0 <= j < i ==> (#[trigger] decoders@[j]).status == status_map@[j].1,
                forall|j: int|
                    0 <= j < i ==> (#[trigger] decoders@[j]).min_pixel == shared_min,
                forall|j: int|
                    0 <= j < i ==> (#[trigger] decoders@[j]).wf() && decoders@[j]@.group.id_slot.len()
                        == 0 && decoders@[j]@.group.slot_pos.len() == 0
                        && decoders@[j]@.target_id is None && decoders@[j]@.target_slot is None
                        && decoders@[j]@.cache.len() == 0,
            decreases device_ids@.len() - i,
        {
            let cell = Arc::new(StatusCell::new(TouchStatus::Idle));
            let cell_for_decoder = arc_dup(&cell);
            let d = Decoder::new(cell_for_decoder, tx.dup(), arc_dup(&shared_min));
            status_map.push((device_ids[i], cell));
            decoders.push(d);
            i = i + 1;
        }
        Ok((TouchListener { status_map, wait: rx, min_pixel: shared_min }, decoders))
    }

    /// Set the minimum pixel distance judged as sliding; every decoder sees
    /// the new value on its next classification pass.
    pub fn min_pixel(&self, p: usize) {
        self.min_pixel.store(p, Ordering::Release);
    }

    /// Block until any device's classifier publishes a status change; fails
    /// exactly when every decoder is gone, so an error from `wait` is always
    /// the disconnection kind, never the timeout kind.
    pub fn wait(&self) -> (r: Result<(), WaitError>)
        ensures
            r matches Err(e) ==> e == WaitError::Disconnected,
    {
        self.wait.recv()
    }

    /// As `wait`, but bounded: a timeout is reported apart from the loss of
    /// every decoder.
    pub fn wait_timeout(&self, t: std::time::Duration) -> Result<(), WaitError> {
        self.wait.recv_timeout(t)
    }

    /// Scan every device's published status right now and OR-reduce:
    /// whether any device is `Slide`, any `Click`, any `Idle`.
    ///
    /// Which statuses the cells held is up to the moment of the scan, so the
    /// contract fixes the result to be the reduction of one such momentary
    /// snapshot, one status per registered device.
    pub fn status(&self) -> (r: (bool, bool, bool))
        ensures
            exists|s: Seq<TouchStatus>|
                {
                    &&& s.len() == self.status_map@.len()
                    &&& r.0 == #[trigger] any_status(s, TouchStatus::Slide)
                    &&& r.1 == any_status(s, TouchStatus::Click)
                    &&& r.2 == any_status(s, TouchStatus::Idle)
                },
            self.status_map@.len() == 0 ==> !r.0 && !r.1 && !r.2,
    {
        let mut loaded: Vec<TouchStatus> = Vec::new();
        let mut i: usize = 0;
        while i < self.status_map.len()
            invariant
                i <= self.status_map@.len(),
                loaded@.len() == i,
            decreases self.status_map@.len() - i,
        {
            let cell: &StatusCell = &self.status_map[i].1;
            loaded.push(cell.load());
            i = i + 1;
        }
        let r = aggregate(&loaded);
        proof {
            assert(loaded@.len() == self.status_map@.len());
        }
        r
    }
}

} // verus!
