use vstd::pervasive::VecAdditionalExecFns;
use vstd::prelude::*;

verus! {

/// Current and previous (x, y) sample of one touch slot.
///
/// Either axis of either pair may be independently unset: a slot that has
/// only ever reported an x coordinate has `cur_pos == (Some(x), None)`.
#[derive(Debug, Clone, Copy, PartialEq, Eq)]
pub struct TouchPos {
    pub cur_pos: (Option<i32>, Option<i32>),
    pub prev_pos: (Option<i32>, Option<i32>),
}

/// One of the two position axes a touch surface reports.
#[derive(Debug, Clone, Copy, PartialEq, Eq, Structural)]
pub enum Axis {
    X,
    Y,
}

/// The position of a slot that was just created: nothing known yet.
pub open spec fn empty_pos() -> TouchPos {
    TouchPos { cur_pos: (None, None), prev_pos: (None, None) }
}

/// One axis write: the whole current pair shifts into `prev_pos`, then the
/// named axis of `cur_pos` is overwritten, the other axis kept.
pub open spec fn axis_write(p: TouchPos, a: Axis, v: i32) -> TouchPos {
    match a {
        Axis::X => TouchPos { prev_pos: p.cur_pos, cur_pos: (Some(v), p.cur_pos.1) },
        Axis::Y => TouchPos { prev_pos: p.cur_pos, cur_pos: (p.cur_pos.0, Some(v)) },
    }
}

/// A whole burst of axis writes applied in order to one slot's position.
pub open spec fn apply_axis_writes(p: TouchPos, ws: Seq<(Axis, i32)>) -> TouchPos
    decreases ws.len(),
{
    if ws.len() == 0 {
        p
    } else {
        axis_write(apply_axis_writes(p, ws.drop_last()), ws.last().0, ws.last().1)
    }
}

/// However a position came about, its previous pair after any axis write is
/// exactly its current pair immediately before that write.
pub proof fn lemma_prev_is_cur_before_write(p: TouchPos, ws: Seq<(Axis, i32)>)
    requires
        ws.len() > 0,
    ensures
        apply_axis_writes(p, ws).prev_pos == apply_axis_writes(p, ws.drop_last()).cur_pos,
{
}

impl TouchPos {
    /// A freshly created slot has no known position at all.
    pub fn new() -> (r: Self)
        ensures
            r == empty_pos(),
    {
        Self { cur_pos: (None, None), prev_pos: (None, None) }
    }

    /// Record a new x sample, as one `axis_write` on the x axis.
    pub fn x(&mut self, pos_x: i32)
        ensures
            *final(self) == axis_write(*old(self), Axis::X, pos_x),
            final(self).prev_pos == old(self).cur_pos,
    {
        self.prev_pos = self.cur_pos;
        self.cur_pos.0 = Some(pos_x);
    }

    /// Record a new y sample, as one `axis_write` on the y axis.
    pub fn y(&mut self, pos_y: i32)
        ensures
            *final(self) == axis_write(*old(self), Axis::Y, pos_y),
            final(self).prev_pos == old(self).cur_pos,
    {
        self.prev_pos = self.cur_pos;
        self.cur_pos.1 = Some(pos_y);
    }
}

/// The mathematical content of a touch group: the id-to-slot binding and the
/// slot-to-position table, each a sequence of entries with pairwise distinct
/// keys.  A slot key is itself an `Option`: events that arrive before any
/// slot-select event target the anonymous slot `None`.
pub struct GroupView {
    pub id_slot: Seq<(i32, Option<i32>)>,
    pub slot_pos: Seq<(Option<i32>, TouchPos)>,
}

impl GroupView {
    /// Keys are pairwise distinct in both tables.
    pub open spec fn wf(self) -> bool {
        &&& forall|i: int, j: int|
            0 <= i < j < self.id_slot.len() ==> self.id_slot[i].0 != self.id_slot[j].0
        &&& forall|i: int, j: int|
            0 <= i < j < self.slot_pos.len() ==> self.slot_pos[i].0 != self.slot_pos[j].0
    }

    pub open spec fn contains_id(self, id: i32) -> bool {
        exists|i: int| 0 <= i < self.id_slot.len() && self.id_slot[i].0 == id
    }

    pub open spec fn id_index(self, id: i32) -> int {
        choose|i: int| 0 <= i < self.id_slot.len() && self.id_slot[i].0 == id
    }

    /// The slot a bound tracking id points at.
    pub open spec fn slot_of(self, id: i32) -> Option<i32> {
        self.id_slot[self.id_index(id)].1
    }

    pub open spec fn contains_slot(self, s: Option<i32>) -> bool {
        exists|i: int| 0 <= i < self.slot_pos.len() && self.slot_pos[i].0 == s
    }

    pub open spec fn slot_index(self, s: Option<i32>) -> int {
        choose|i: int| 0 <= i < self.slot_pos.len() && self.slot_pos[i].0 == s
    }

    /// The tracked position of a slot.
    pub open spec fn pos_at(self, s: Option<i32>) -> TouchPos {
        self.slot_pos[self.slot_index(s)].1
    }

    /// `m` is bound and no bound id exceeds it.
    pub open spec fn is_max_id(self, m: i32) -> bool {
        self.contains_id(m) && forall|j: int| 0 <= j < self.id_slot.len() ==> self.id_slot[j].0 <= m
    }

    /// The numerically largest bound tracking id.
    pub open spec fn max_id(self) -> i32 {
        choose|m: i32| self.is_max_id(m)
    }

    /// The slot table with the entry for `s` set to `p`, added if absent.
    pub open spec fn slot_set(self, s: Option<i32>, p: TouchPos) -> Seq<(Option<i32>, TouchPos)> {
        if self.contains_slot(s) {
            self.slot_pos.update(self.slot_index(s), (s, p))
        } else {
            self.slot_pos.push((s, p))
        }
    }

    /// Effect of binding `id` to `slot`: a no-op if `id` is already bound,
    /// otherwise the binding is added and the slot starts at the empty
    /// position, replacing whatever position the slot held before.
    pub open spec fn binds(self, id: i32, slot: Option<i32>) -> GroupView {
        if self.contains_id(id) {
            self
        } else {
            GroupView { id_slot: self.id_slot.push((id, slot)), slot_pos: self.slot_set(slot, empty_pos()) }
        }
    }

    /// Effect of a release: the largest bound id and its slot's position
    /// leave the group; an empty group is left unchanged.
    pub open spec fn removes_highest(self) -> GroupView {
        if self.id_slot.len() == 0 {
            self
        } else {
            let m = self.max_id();
            let s = self.slot_of(m);
            GroupView {
                id_slot: self.id_slot.remove(self.id_index(m)),
                slot_pos: if self.contains_slot(s) {
                    self.slot_pos.remove(self.slot_index(s))
                } else {
                    self.slot_pos
                },
            }
        }
    }

    /// Effect of one axis write aimed at `slot`; a write to an untracked
    /// slot changes nothing.
    pub open spec fn writes_axis(self, slot: Option<i32>, a: Axis, v: i32) -> GroupView {
        if self.contains_slot(slot) {
            GroupView {
                id_slot: self.id_slot,
                slot_pos: self.slot_pos.update(
                    self.slot_index(slot),
                    (slot, axis_write(self.pos_at(slot), a, v)),
                ),
            }
        } else {
            self
        }
    }
}

/// `m` occurs as an id in `s` and no id in `s` exceeds it.
pub open spec fn seq_has_max(s: Seq<(i32, Option<i32>)>, m: i32) -> bool {
    (exists|i: int| 0 <= i < s.len() && #[trigger] s[i].0 == m) && (forall|j: int|
        0 <= j < s.len() ==> s[j].0 <= m)
}

/// A non-empty id table has a largest id.
proof fn lemma_seq_max_exists(s: Seq<(i32, Option<i32>)>)
    requires
        s.len() > 0,
    ensures
        exists|m: i32| seq_has_max(s, m),
    decreases s.len(),
{
    if s.len() == 1 {
        assert(seq_has_max(s, s[0].0));
    } else {
        lemma_seq_max_exists(s.drop_last());
        let m0: i32 = choose|m0: i32| seq_has_max(s.drop_last(), m0);
        let i0: int = choose|i: int| 0 <= i < s.drop_last().len() && s.drop_last()[i].0 == m0;
        assert(s[i0].0 == m0);
        let m: i32 = if s.last().0 > m0 {
            s.last().0
        } else {
            m0
        };
        assert(s[s.len() - 1].0 == s.last().0);
        if s.last().0 > m0 {
            assert(s[s.len() - 1].0 == m);
        } else {
            assert(s[i0].0 == m);
        }
        assert(exists|i: int| 0 <= i < s.len() && #[trigger] s[i].0 == m);
        assert forall|j: int| 0 <= j < s.len() implies s[j].0 <= m by {
            if j < s.len() - 1 {
                assert(s.drop_last()[j].0 <= m0);
                assert(s[j].0 == s.drop_last()[j].0);
            } else {
                assert(s[j].0 == s.last().0);
            }
        }
        assert(seq_has_max(s, m));
    }
}

/// The largest bound id of a non-empty group is well defined: it is bound,
/// and every bound id is at most it.
pub proof fn lemma_max_id_exists(g: GroupView)
    requires
        g.id_slot.len() > 0,
    ensures
        g.is_max_id(g.max_id()),
{
    lemma_seq_max_exists(g.id_slot);
    let m: i32 = choose|m: i32| seq_has_max(g.id_slot, m);
    assert(g.is_max_id(m));
    assert(g.is_max_id(g.max_id()));
}

/// The tables of a touch group: which tracking id owns which slot, and what
/// position each slot is at.  Mutated by one decoder alone.
#[derive(Debug, Clone)]
pub struct TouchGroup {
    pub id_slot: Vec<(i32, Option<i32>)>,
    pub slot_pos: Vec<(Option<i32>, TouchPos)>,
}

impl View for TouchGroup {
    type V = GroupView;

    open spec fn view(&self) -> GroupView {
        GroupView { id_slot: self.id_slot@, slot_pos: self.slot_pos@ }
    }
}

impl TouchGroup {
    /// A group that tracks nothing.
    pub fn new() -> (r: Self)
        ensures
            r@.id_slot.len() == 0,
            r@.slot_pos.len() == 0,
            r@.wf(),
    {
        Self { id_slot: Vec::new(), slot_pos: Vec::new() }
    }

    /// True iff no slot is tracked.
    pub fn is_empty(&self) -> (r: bool)
        ensures
            r == (self@.slot_pos.len() == 0),
    {
        self.slot_pos.len() == 0
    }

    /// The entry index of a bound tracking id, if it is bound.
    fn find_id(&self, id: i32) -> (r: Option<usize>)
        ensures
            match r {
                Some(i) => i < self.id_slot@.len() && self.id_slot@[i as int].0 == id,
                None => !self@.contains_id(id),
            },
    {
        let mut i: usize = 0;
        while i < self.id_slot.len()
            invariant
                i <= self.id_slot@.len(),
                forall|j: int| 0 <= j < i ==> self.id_slot@[j].0 != id,
            decreases self.id_slot@.len() - i,
        {
            if self.id_slot[i].0 == id {
                return Some(i);
            }
            i = i + 1;
        }
        None
    }

    /// The entry index of a tracked slot, if it is tracked.
    fn find_slot(&self, s: Option<i32>) -> (r: Option<usize>)
        ensures
            match r {
                Some(i) => i < self.slot_pos@.len() && self.slot_pos@[i as int].0 == s,
                None => !self@.contains_slot(s),
            },
    {
        let mut i: usize = 0;
        while i < self.slot_pos.len()
            invariant
                i <= self.slot_pos@.len(),
                forall|j: int| 0 <= j < i ==> self.slot_pos@[j].0 != s,
            decreases self.slot_pos@.len() - i,
        {
            if self.slot_pos[i].0 == s {
                return Some(i);
            }
            i = i + 1;
        }
        None
    }

    /// Bind a tracking id to a slot: a no-op if already bound, else the
    /// binding is recorded and the slot starts over at the empty position.
    pub fn bind(&mut self, id: i32, slot: Option<i32>)
        requires
            old(self)@.wf(),
        ensures
            final(self)@ == old(self)@.binds(id, slot),
            final(self)@.wf(),
    {
        if self.find_id(id).is_none() {
            self.id_slot.push((id, slot));
            let fresh = TouchPos::new();
            proof {
                assert(self@.id_slot =~= old(self)@.id_slot.push((id, slot)));
            }
            match self.find_slot(slot) {
                Some(i) => {
                    proof {
                        assert(self@.slot_pos == old(self)@.slot_pos);
                        assert(old(self)@.slot_pos[i as int].0 == slot);
                        assert(old(self)@.contains_slot(slot));
                        assert(i as int == old(self)@.slot_index(slot));
                        assert(fresh == empty_pos());
                    }
                    self.slot_pos.set(i, (slot, fresh));
                    proof {
                        let target = old(self)@.slot_pos.update(i as int, (slot, empty_pos()));
                        assert(self@.slot_pos == target);
                        assert(old(self)@.slot_set(slot, empty_pos()) == target);
                        assert(self@.slot_pos == old(self)@.slot_set(slot, empty_pos()));
                    }
                },
                None => {
                    proof {
                        assert(self@.slot_pos == old(self)@.slot_pos);
                        assert(!old(self)@.contains_slot(slot));
                        assert(fresh == empty_pos());
                    }
                    self.slot_pos.push((slot, fresh));
                    proof {
                        assert(self@.slot_pos == old(self)@.slot_set(slot, empty_pos()));
                    }
                },
            }
        }
    }

    /// Apply one axis write to the tracked position of `slot`; a write aimed
    /// at an untracked slot changes nothing.
    pub fn write_axis(&mut self, slot: Option<i32>, a: Axis, v: i32)
        requires
            old(self)@.wf(),
        ensures
            final(self)@ == old(self)@.writes_axis(slot, a, v),
            final(self)@.wf(),
    {
        match self.find_slot(slot) {
            Some(i) => {
                proof {
                    assert(self@.slot_pos[i as int].0 == slot);
                    assert(self@.contains_slot(slot));
                    assert(i as int == self@.slot_index(slot));
                }
                let mut p = self.slot_pos[i].1;
                match a {
                    Axis::X => p.x(v),
                    Axis::Y => p.y(v),
                }
                self.slot_pos.set(i, (slot, p));
                proof {
                    assert(self@.slot_pos == old(self)@.slot_pos.update(
                        i as int,
                        (slot, axis_write(old(self)@.pos_at(slot), a, v)),
                    ));
                }
            },
            None => {
                proof {
                    assert(!self@.contains_slot(slot));
                }
            },
        }
    }

    /// Release the largest bound tracking id, removing it together with its
    /// slot's position; a no-op when nothing is bound.
    pub fn remove_id(&mut self)
        requires
            old(self)@.wf(),
        ensures
            final(self)@ == old(self)@.removes_highest(),
            final(self)@.wf(),
    {
        if self.id_slot.len() == 0 {
            return;
        }
        let ghost g = self@;
        proof {
            lemma_max_id_exists(g);
        }
        let mut best: usize = 0;
        let mut i: usize = 1;
        while i < self.id_slot.len()
            invariant
                self == old(self),
                best < i <= self.id_slot@.len(),
                forall|j: int| 0 <= j < i ==> self.id_slot@[j].0 <= self.id_slot@[best as int].0,
            decreases self.id_slot@.len() - i,
        {
            if self.id_slot[i].0 > self.id_slot[best].0 {
                best = i;
            }
            i = i + 1;
        }
        proof {
            let m = g.max_id();
            assert(g.is_max_id(m));
            let mi = g.id_index(m);
            assert(g.id_slot[mi].0 == m);
            assert(g.id_slot[best as int].0 == m);
            assert(best as int == mi);
        }
        let slot = self.id_slot[best].1;
        proof {
            assert(slot == g.slot_of(g.max_id()));
        }
        self.id_slot.remove(best);
        match self.find_slot(slot) {
            Some(si) => {
                proof {
                    assert(self@.slot_pos == g.slot_pos);
                    assert(si as int == g.slot_index(slot));
                }
                self.slot_pos.remove(si);
            },
            None => {
                proof {
                    assert(self@.slot_pos == g.slot_pos);
                    assert(!g.contains_slot(slot));
                }
            },
        }
    }
}

/// Releasing from an empty group changes nothing; releasing from a non-empty
/// group removes exactly one binding, namely the numerically largest id,
/// and keeps every other id bound.
pub proof fn lemma_release_highest(g: GroupView)
    requires
        g.wf(),
    ensures
        g.id_slot.len() == 0 ==> g.removes_highest() == g,
        g.id_slot.len() > 0 ==> g.removes_highest().id_slot.len() == g.id_slot.len() - 1,
        g.id_slot.len() > 0 ==> g.contains_id(g.max_id()),
        g.id_slot.len() > 0 ==> !g.removes_highest().contains_id(g.max_id()),
        forall|id: i32| g.contains_id(id) ==> id <= g.max_id() || g.id_slot.len() == 0,
        forall|id: i32|
            g.contains_id(id) && id != g.max_id() ==> #[trigger] g.removes_highest().contains_id(
                id,
            ),
{
    if g.id_slot.len() > 0 {
        lemma_max_id_exists(g);
        let m = g.max_id();
        assert(g.is_max_id(m));
        let mi = g.id_index(m);
        assert(0 <= mi < g.id_slot.len() && g.id_slot[mi].0 == m);
        let r = g.removes_highest();
        assert(r.id_slot == g.id_slot.remove(mi));
        assert forall|id: i32| g.contains_id(id) && id != m implies #[trigger] r.contains_id(
            id,
        ) by {
            let i = choose|i: int| 0 <= i < g.id_slot.len() && g.id_slot[i].0 == id;
            if i < mi {
                assert(r.id_slot[i].0 == id);
            } else {
                assert(i != mi);
                assert(r.id_slot[i - 1].0 == id);
            }
        }
        assert(!r.contains_id(m)) by {
            if r.contains_id(m) {
                let i = choose|i: int| 0 <= i < r.id_slot.len() && r.id_slot[i].0 == m;
                if i < mi {
                    assert(g.id_slot[i].0 == m);
                } else {
                    assert(g.id_slot[i + 1].0 == m);
                }
            }
        }
    }
}

} // verus!
