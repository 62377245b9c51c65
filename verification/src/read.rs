use vstd::prelude::*;

use core::sync::atomic::{AtomicUsize, Ordering};
use std::sync::Arc;

use crate::analyze::analyze;
use crate::notify::{Notifier, StatusCell};
use crate::touch_group::{apply_axis_writes, axis_write, Axis, GroupView, TouchGroup};

verus! {

/// One already-decoded primitive event from a touch surface.  A tracking-id
/// value of -1 means the release of a contact.
#[derive(Debug, Clone, Copy, PartialEq, Eq, Structural)]
pub enum RawEvent {
    TrackingId(i32),
    SlotSelect(i32),
    PositionX(i32),
    PositionY(i32),
    Sync,
    Other,
}

/// The decoder's batching state: the group reconstructed so far, the
/// pending id and slot targets, and the axis writes buffered for the
/// current report.
pub struct DecoderView {
    pub group: GroupView,
    pub target_id: Option<i32>,
    pub target_slot: Option<i32>,
    pub cache: Seq<(Axis, i32)>,
}

/// A whole buffered burst applied to the target slot's position: nothing
/// happens unless the burst is non-empty and the slot is tracked.
pub open spec fn apply_cached(g: GroupView, slot: Option<i32>, ws: Seq<(Axis, i32)>) -> GroupView {
    if ws.len() == 0 || !g.contains_slot(slot) {
        g
    } else {
        GroupView {
            id_slot: g.id_slot,
            slot_pos: g.slot_pos.update(
                g.slot_index(slot),
                (slot, apply_axis_writes(g.pos_at(slot), ws)),
            ),
        }
    }
}

/// The flush transition on the decoder state.  With nothing pending it does
/// nothing.  A pending release removes the highest bound id and discards the
/// buffered burst.  Otherwise a pending unbound id is bound to the pending
/// slot, the burst is applied to that slot, and the targets reset.
pub open spec fn flush_spec(d: DecoderView) -> DecoderView {
    if d.cache.len() == 0 && d.target_id is None {
        d
    } else if d.target_id == Some(-1i32) {
        DecoderView {
            group: d.group.removes_highest(),
            target_id: None,
            target_slot: d.target_slot,
            cache: Seq::empty(),
        }
    } else {
        let g1 = match d.target_id {
            Some(id) => d.group.binds(id, d.target_slot),
            None => d.group,
        };
        DecoderView {
            group: apply_cached(g1, d.target_slot, d.cache),
            target_id: None,
            target_slot: None,
            cache: Seq::empty(),
        }
    }
}

/// The group states handed to the classifier during one flush, in order:
/// none for an empty flush; the shrunken group once for a release; and for
/// a normal flush the post-bind state once, then for each buffered write
/// the state just before that write is applied.  The classifier thus runs
/// on stale data ahead of every buffered sample, never once after all of
/// them.
pub open spec fn classified_snapshots(d: DecoderView) -> Seq<GroupView> {
    if d.cache.len() == 0 && d.target_id is None {
        Seq::empty()
    } else if d.target_id == Some(-1i32) {
        seq![d.group.removes_highest()]
    } else {
        let g1 = match d.target_id {
            Some(id) => d.group.binds(id, d.target_slot),
            None => d.group,
        };
        Seq::new(
            d.cache.len() + 1,
            |k: int|
                if k == 0 {
                    g1
                } else {
                    apply_cached(g1, d.target_slot, d.cache.take(k - 1))
                },
        )
    }
}

/// Applying one more buffered write is one `writes_axis` step.
proof fn lemma_apply_cached_step(g: GroupView, slot: Option<i32>, ws: Seq<(Axis, i32)>, k: int)
    requires
        g.wf(),
        0 <= k < ws.len(),
    ensures
        apply_cached(g, slot, ws.take(k + 1)) == apply_cached(g, slot, ws.take(k)).writes_axis(
            slot,
            ws[k].0,
            ws[k].1,
        ),
{
    let w0 = ws.take(k);
    let w1 = ws.take(k + 1);
    assert(w1.drop_last() =~= w0);
    assert(w1.last() == ws[k]);
    if g.contains_slot(slot) {
        let idx = g.slot_index(slot);
        assert(0 <= idx < g.slot_pos.len() && g.slot_pos[idx].0 == slot);
        let p0 = g.pos_at(slot);
        let gk = apply_cached(g, slot, w0);
        assert(apply_axis_writes(p0, w1) == axis_write(apply_axis_writes(p0, w0), ws[k].0, ws[k].1));
        if k == 0 {
            assert(gk == g);
            assert(apply_cached(g, slot, w1) == gk.writes_axis(slot, ws[k].0, ws[k].1));
        } else {
            assert(gk.slot_pos == g.slot_pos.update(idx, (slot, apply_axis_writes(p0, w0))));
            assert(gk.slot_pos[idx].0 == slot);
            assert(gk.contains_slot(slot));
            assert(gk.slot_index(slot) == idx) by {
                let i = gk.slot_index(slot);
                assert(0 <= i < gk.slot_pos.len() && gk.slot_pos[i].0 == slot);
                if i != idx {
                    assert(gk.slot_pos[i].0 == g.slot_pos[i].0);
                    assert(g.slot_pos[i].0 != g.slot_pos[idx].0);
                }
            }
            assert(gk.pos_at(slot) == apply_axis_writes(p0, w0));
            assert(gk.writes_axis(slot, ws[k].0, ws[k].1).slot_pos =~= g.slot_pos.update(
                idx,
                (slot, apply_axis_writes(p0, w1)),
            ));
            assert(apply_cached(g, slot, w1) == gk.writes_axis(slot, ws[k].0, ws[k].1));
        }
    }
}

/// The per-device decoder: reconstructs one logical update per slot per
/// report out of the raw burst of primitives, mutates its touch group, and
/// runs the classifier after each meaningful mutation.  Owned by exactly one
/// thread; only its status cell is shared.
pub struct Decoder {
    pub group: TouchGroup,
    pub target_id: Option<i32>,
    pub target_slot: Option<i32>,
    pub cache: Vec<(Axis, i32)>,
    pub status: Arc<StatusCell>,
    pub notice: Notifier,
    pub min_pixel: Arc<AtomicUsize>,
}

impl View for Decoder {
    type V = DecoderView;

    open spec fn view(&self) -> DecoderView {
        DecoderView {
            group: self.group@,
            target_id: self.target_id,
            target_slot: self.target_slot,
            cache: self.cache@,
        }
    }
}

impl Decoder {
    pub open spec fn wf(&self) -> bool {
        self@.group.wf()
    }

    /// A decoder that has seen nothing yet, publishing into `status` and
    /// waking waiters through `notice`, with the shared motion threshold.
    pub fn new(status: Arc<StatusCell>, notice: Notifier, min_pixel: Arc<AtomicUsize>) -> (r:
        Decoder)
        ensures
            r.status == status,
            r.notice == notice,
            r.min_pixel == min_pixel,
            r@.group.id_slot.len() == 0,
            r@.group.slot_pos.len() == 0,
            r@.target_id is None,
            r@.target_slot is None,
            r@.cache.len() == 0,
            r.wf(),
    {
        Decoder {
            group: TouchGroup::new(),
            target_id: None,
            target_slot: None,
            cache: Vec::new(),
            status,
            notice,
            min_pixel,
        }
    }

    /// Flush the pending state, as `flush_spec` says: release on the -1
    /// sentinel, else bind a pending unbound id, re-classify, and apply the
    /// buffered burst, classifying before each buffered write.
    ///
    /// The returned ghost sequence fixes the classify-then-apply ordering:
    /// it lists, per `classified_snapshots`, the group state given to each
    /// classifier pass, one ahead of every buffered write.  Each pass
    /// publishes per `publish_decision` on its listed snapshot.
    pub fn update_group(&mut self) -> (classified: Ghost<Seq<GroupView>>)
        requires
            old(self).wf(),
        ensures
            final(self)@ == flush_spec(old(self)@),
            final(self).wf(),
            classified@ == classified_snapshots(old(self)@),
    {
        if self.cache.len() == 0 && self.target_id.is_none() {
            let ghost none_classified: Seq<GroupView> = Seq::empty();
            return Ghost(none_classified);
        }
        if let Some(id) = self.target_id {
            if id == -1 {
                self.group.remove_id();
                self.target_id = None;
                let min_px = self.min_pixel.load(Ordering::Acquire);
                let _published = analyze(&self.group, &self.status, &self.notice, min_px);
                self.cache.clear();
                let ghost released_classified: Seq<GroupView> = seq![self.group@];
                return Ghost(released_classified);
            }
            self.group.bind(id, self.target_slot);
        }
        let min_px = self.min_pixel.load(Ordering::Acquire);
        let _published = analyze(&self.group, &self.status, &self.notice, min_px);
        let ghost g1 = self.group@;
        let ghost c0 = self.cache@;
        let ghost slot0 = self.target_slot;
        let ghost mut snaps: Seq<GroupView> = seq![g1];
        let mut k: usize = 0;
        while k < self.cache.len()
            invariant
                k <= c0.len(),
                self.cache@ == c0,
                self.target_slot == slot0,
                self.group@ == apply_cached(g1, slot0, c0.take(k as int)),
                self.group@.wf(),
                g1.wf(),
                snaps.len() == k + 1,
                forall|i: int|
                    0 <= i <= k ==> snaps[i] == (if i == 0 {
                        g1
                    } else {
                        apply_cached(g1, slot0, c0.take(i - 1))
                    }),
            decreases c0.len() - k,
        {
            let min_px_now = self.min_pixel.load(Ordering::Acquire);
            let _published = analyze(&self.group, &self.status, &self.notice, min_px_now);
            proof {
                snaps = snaps.push(self.group@);
            }
            let (a, v) = self.cache[k];
            proof {
                lemma_apply_cached_step(g1, slot0, c0, k as int);
            }
            self.group.write_axis(self.target_slot, a, v);
            k = k + 1;
        }
        proof {
            assert(c0.take(c0.len() as int) =~= c0);
            assert(snaps =~= classified_snapshots(old(self)@));
        }
        self.cache.clear();
        self.target_id = None;
        self.target_slot = None;
        Ghost(snaps)
    }

    /// Feed one primitive event: id and slot targets and synchronization
    /// markers flush first, axis samples are buffered, anything else is
    /// ignored.
    pub fn handle_event(&mut self, ev: RawEvent)
        requires
            old(self).wf(),
        ensures
            final(self).wf(),
            (match ev {
                RawEvent::TrackingId(v) => final(self)@ == (DecoderView {
                    target_id: Some(v),
                    ..flush_spec(old(self)@)
                }),
                RawEvent::SlotSelect(v) => final(self)@ == (DecoderView {
                    target_slot: Some(v),
                    ..flush_spec(old(self)@)
                }),
                RawEvent::PositionX(v) => final(self)@ == (DecoderView {
                    cache: old(self)@.cache.push((Axis::X, v)),
                    ..old(self)@
                }),
                RawEvent::PositionY(v) => final(self)@ == (DecoderView {
                    cache: old(self)@.cache.push((Axis::Y, v)),
                    ..old(self)@
                }),
                RawEvent::Sync => final(self)@ == flush_spec(old(self)@),
                RawEvent::Other => final(self)@ == old(self)@,
            }),
    {
        match ev {
            RawEvent::TrackingId(v) => {
                self.update_group();
                self.target_id = Some(v);
            },
            RawEvent::SlotSelect(v) => {
                self.update_group();
                self.target_slot = Some(v);
            },
            RawEvent::PositionX(v) => {
                self.cache.push((Axis::X, v));
            },
            RawEvent::PositionY(v) => {
                self.cache.push((Axis::Y, v));
            },
            RawEvent::Sync => {
                self.update_group();
            },
            RawEvent::Other => {},
        }
    }
}

} // verus!
