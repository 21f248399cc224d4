//! The storage core and its public wrapper.
//!
//! `InnerVec<T>` keeps each element in its own slot of an arena; a slot, once
//! allocated, is never renumbered, so the `Handle` that `push` returns keeps
//! naming the same element however much the container grows afterwards. A
//! separate order table records which slots are live and in what order they
//! were inserted; only that bookkeeping moves. `TraitVec<T>` wraps the core
//! and adds positional indexing.

use vstd::prelude::*;

verus! {

/// The ways an operation on the container can fail.
#[derive(Clone, Copy, Debug, PartialEq, Eq, Structural)]
pub enum Error {
    /// A positional index at or past the current length.
    IndexOutOfRange,
    /// A stored value was read at a concrete type it does not have.
    TypeMismatch,
    /// A handle whose slot has been drained was dereferenced.
    UseAfterDrain,
}

/// An opaque, non-owning reference to one element slot. It is issued by
/// `push` and stays valid until its slot is drained or the container is
/// destroyed; appending further elements never revokes it.
#[derive(Clone, Copy, Debug, PartialEq, Eq, Structural)]
pub struct Handle {
    slot: usize,
}

impl Handle {
    /// The arena slot this handle names.
    pub closed spec fn id(self) -> int {
        self.slot as int
    }
}

/// Whether slot `j` of arena `a` holds a live element.
pub open spec fn slot_live<T>(a: Seq<Option<T>>, j: int) -> bool {
    0 <= j < a.len() && a[j] is Some
}

/// The element held by slot `j` of arena `a`.
pub open spec fn slot_value<T>(a: Seq<Option<T>>, j: int) -> T {
    a[j]->0
}

/// Whether the order table `o` mentions slot `j`.
pub open spec fn slot_in(o: Seq<usize>, j: int) -> bool {
    exists|k: int| 0 <= k < o.len() && o[k] == j
}

/// The container model is the pair of an arena `a` (one entry per slot ever
/// allocated, `None` once drained) and an order table `o` (the live slots, in
/// insertion order). It is well formed when every table entry names a live
/// slot and no slot is listed twice.
pub open spec fn wf_model<T>(a: Seq<Option<T>>, o: Seq<usize>) -> bool {
    &&& forall|i: int| 0 <= i < o.len() ==> (#[trigger] o[i]) < a.len()
    &&& forall|i: int| 0 <= i < o.len() ==> a[#[trigger] o[i] as int] is Some
    &&& forall|i: int, k: int| 0 <= i < o.len() && 0 <= k < o.len() && i != k ==> o[i] != o[k]
}

/// The sequence of elements a well-formed container presents: the live slots'
/// values, in insertion order.
pub open spec fn elems_of<T>(a: Seq<Option<T>>, o: Seq<usize>) -> Seq<T> {
    Seq::new(o.len(), |i: int| a[o[i] as int]->0)
}

/// The arena after the values of `vs` are appended in turn, each into a fresh
/// slot at the end (exactly what one `push` per value does to the arena).
pub open spec fn arena_after<T>(a: Seq<Option<T>>, vs: Seq<T>) -> Seq<Option<T>>
    decreases vs.len(),
{
    if vs.len() == 0 {
        a
    } else {
        arena_after(a.push(Some(vs[0])), vs.drop_first())
    }
}

/// The order table after the values of `vs` are appended in turn, when the
/// next fresh slot id is `next` (exactly what one `push` per value does to
/// the order table).
pub open spec fn order_after<T>(next: int, o: Seq<usize>, vs: Seq<T>) -> Seq<usize>
    decreases vs.len(),
{
    if vs.len() == 0 {
        o
    } else {
        order_after(next + 1, o.push(next as usize), vs.drop_first())
    }
}

/// The storage core: an ordered sequence of individually allocated element
/// slots. A slot's id is fixed for its whole lifetime; `push` may grow (and
/// thereby reallocate) the two bookkeeping vectors, but the association of
/// slot id to element never changes, which is the invariant the handles rely
/// on.
pub struct InnerVec<T> {
    slots: Vec<Option<T>>,
    order: Vec<usize>,
}

impl<T> InnerVec<T> {
    /// The arena: one entry per slot ever allocated; `None` marks a drained slot.
    pub closed spec fn arena(self) -> Seq<Option<T>> {
        self.slots@
    }

    /// The order table: the live slots' ids, in insertion order.
    pub closed spec fn order(self) -> Seq<usize> {
        self.order@
    }

    /// Well-formedness of the container.
    pub open spec fn wf(self) -> bool {
        wf_model(self.arena(), self.order())
    }

    /// The elements currently present, in insertion order.
    pub open spec fn elems(self) -> Seq<T> {
        elems_of(self.arena(), self.order())
    }

    /// Whether `h` names a slot that still holds its element.
    pub open spec fn handle_live(self, h: Handle) -> bool {
        slot_live(self.arena(), h.id())
    }

    /// The element behind a live handle.
    pub open spec fn handle_value(self, h: Handle) -> T {
        slot_value(self.arena(), h.id())
    }

    /// An empty container.
    pub fn new() -> (v: Self)
        ensures
            v.wf(),
            v.arena() == Seq::<Option<T>>::empty(),
            v.order() == Seq::<usize>::empty(),
            v.elems().len() == 0,
    {
        InnerVec { slots: Vec::new(), order: Vec::new() }
    }

    /// How many elements are currently present.
    pub fn len(&self) -> (n: usize)
        ensures
            n == self.order().len(),
            n == self.elems().len(),
    {
        self.order.len()
    }

    /// Appends `value` in a slot of its own and returns a handle to it.
    ///
    /// The new element comes last in the observed sequence; every slot that
    /// existed before is left exactly as it was, so all earlier handles keep
    /// their liveness and their value.
    pub fn push(&mut self, value: T) -> (h: Handle)
        requires
            old(self).wf(),
        ensures
            final(self).wf(),
            h.id() == old(self).arena().len(),
            final(self).arena() == old(self).arena().push(Some(value)),
            final(self).order() == old(self).order().push(old(self).arena().len() as usize),
            final(self).elems() == old(self).elems().push(value),
            final(self).handle_live(h),
            final(self).handle_value(h) == value,
    {
        let id = self.slots.len();
        self.slots.push(Some(value));
        self.order.push(id);
        proof {
            assert(self.elems() =~= old(self).elems().push(value));
        }
        Handle { slot: id }
    }

    /// Dereferences a handle: a read-only view of its element while the slot
    /// is live, `UseAfterDrain` once the slot has been removed.
    pub fn get(&self, h: Handle) -> (r: Result<&T, Error>)
        ensures
            self.handle_live(h) ==> (r matches Ok(v) && *v == self.handle_value(h)),
            !self.handle_live(h) ==> r == Err::<&T, Error>(Error::UseAfterDrain),
    {
        if h.slot < self.slots.len() {
            match &self.slots[h.slot] {
                Some(v) => Ok(v),
                None => Err(Error::UseAfterDrain),
            }
        } else {
            Err(Error::UseAfterDrain)
        }
    }

    /// Dereferences a live handle exclusively: the caller may write the
    /// element in place. No other slot and no position in the order table is
    /// touched.
    pub fn get_mut(&mut self, h: Handle) -> (r: &mut T)
        requires
            old(self).handle_live(h),
        ensures
            *r == old(self).handle_value(h),
            final(self).arena() == old(self).arena().update(h.id(), Some(*final(r))),
            final(self).order() == old(self).order(),
            old(self).wf() ==> final(self).wf(),
    {
        match &mut self.slots[h.slot] {
            Some(v) => v,
            None => vstd::pervasive::unreached(),
        }
    }

    /// One pass of read-only views over every element currently present, in
    /// insertion order.
    pub fn iter(&self) -> (r: Vec<&T>)
        requires
            self.wf(),
        ensures
            r@.len() == self.elems().len(),
            forall|i: int| 0 <= i < r@.len() ==> *(#[trigger] r@[i]) == self.elems()[i],
    {
        let mut out: Vec<&T> = Vec::new();
        let mut i: usize = 0;
        while i < self.order.len()
            invariant
                self.wf(),
                i <= self.order().len(),
                out@.len() == i,
                forall|k: int| 0 <= k < i ==> *(#[trigger] out@[k]) == self.elems()[k],
            decreases self.order().len() - i,
        {
            let id = self.order[i];
            match &self.slots[id] {
                Some(v) => out.push(v),
                None => vstd::pervasive::unreached(),
            }
            i += 1;
        }
        out
    }

    /// One exclusive pass over every element, in insertion order: the `i`-th
    /// element is replaced by `values[i]` and the values found are returned,
    /// in the same order. The pass needs the whole container exclusively, so
    /// no append can interleave with it; no slot gains or loses liveness.
    pub fn iter_mut(&mut self, values: Vec<T>) -> (prev: Vec<T>)
        requires
            old(self).wf(),
            values@.len() == old(self).elems().len(),
        ensures
            final(self).wf(),
            prev@ == old(self).elems(),
            final(self).elems() == values@,
            final(self).order() == old(self).order(),
            final(self).arena().len() == old(self).arena().len(),
            forall|j: int|
                0 <= j < old(self).arena().len() && !slot_in(old(self).order(), j)
                    ==> final(self).arena()[j] == old(self).arena()[j],
    {
        let mut vals = values;
        let mut prev: Vec<T> = Vec::new();
        let mut i: usize = 0;
        while i < self.order.len()
            invariant
                old(self).wf(),
                self.order() == old(self).order(),
                self.arena().len() == old(self).arena().len(),
                values@.len() == old(self).order().len(),
                i <= self.order().len(),
                prev@.len() == i,
                vals@ == values@.subrange(i as int, values@.len() as int),
                forall|k: int| 0 <= k < i ==> #[trigger] prev@[k] == old(self).elems()[k],
                forall|k: int|
                    0 <= k < i ==> self.arena()[#[trigger] old(self).order()[k] as int]
                        == Some(values@[k]),
                forall|j: int|
                    0 <= j < old(self).arena().len()
                        && !slot_in(old(self).order().subrange(0, i as int), j)
                        ==> self.arena()[j] == old(self).arena()[j],
            decreases self.order().len() - i,
        {
            let id = self.order[i];
            proof {
                assert(!slot_in(old(self).order().subrange(0, i as int), id as int));
                assert(self.arena()[id as int] == old(self).arena()[id as int]);
            }
            let v = vals.remove(0);
            let slot = &mut self.slots[id];
            let p = slot.take();
            *slot = Some(v);
            match p {
                Some(pv) => prev.push(pv),
                None => vstd::pervasive::unreached(),
            }
            proof {
                let o0 = old(self).order();
                let pre = o0.subrange(0, i as int);
                let cur = o0.subrange(0, i + 1);
                assert(cur[i as int] == id);
                assert forall|j: int|
                    0 <= j < old(self).arena().len() && !slot_in(cur, j)
                        implies self.arena()[j] == old(self).arena()[j] by {
                    assert(j != id as int);
                    assert forall|k: int| 0 <= k < pre.len() implies pre[k] != j by {
                        assert(cur[k] == pre[k]);
                    }
                }
                assert forall|k: int| 0 <= k < i + 1
                    implies self.arena()[#[trigger] o0[k] as int] == Some(values@[k]) by {
                    if k < i {
                        assert(o0[k] != o0[i as int]);
                    }
                }
                assert(vals@ =~= values@.subrange(i + 1, values@.len() as int));
            }
            i += 1;
        }
        proof {
            assert(prev@ =~= old(self).elems());
            assert(self.elems() =~= values@);
        }
        prev
    }

    /// Removes the elements at positions `start` up to (not including) `end`
    /// and returns them, in order, transferring their ownership to the
    /// caller. Exactly the handles of the removed slots become invalid; every
    /// other slot is left as it was, so handles outside the range keep their
    /// value. Positions of the elements after the removed range shift down;
    /// positional indices taken before a drain are stale afterwards.
    pub fn drain(&mut self, start: usize, end: usize) -> (removed: Vec<T>)
        requires
            old(self).wf(),
            start <= end,
            end <= old(self).elems().len(),
        ensures
            final(self).wf(),
            removed@ == old(self).elems().subrange(start as int, end as int),
            final(self).order() == old(self).order().subrange(0, start as int)
                + old(self).order().subrange(end as int, old(self).order().len() as int),
            final(self).elems() == old(self).elems().subrange(0, start as int)
                + old(self).elems().subrange(end as int, old(self).elems().len() as int),
            final(self).arena().len() == old(self).arena().len(),
            forall|j: int|
                0 <= j < old(self).arena().len()
                    && slot_in(old(self).order().subrange(start as int, end as int), j)
                    ==> final(self).arena()[j] is None,
            forall|j: int|
                0 <= j < old(self).arena().len()
                    && !slot_in(old(self).order().subrange(start as int, end as int), j)
                    ==> final(self).arena()[j] == old(self).arena()[j],
    {
        let mut removed: Vec<T> = Vec::new();
        let mut i: usize = start;
        while i < end
            invariant
                old(self).wf(),
                start <= i <= end,
                end <= old(self).order().len(),
                self.order() == old(self).order(),
                self.arena().len() == old(self).arena().len(),
                removed@ == old(self).elems().subrange(start as int, i as int),
                forall|j: int|
                    0 <= j < old(self).arena().len()
                        && slot_in(old(self).order().subrange(start as int, i as int), j)
                        ==> self.arena()[j] is None,
                forall|j: int|
                    0 <= j < old(self).arena().len()
                        && !slot_in(old(self).order().subrange(start as int, i as int), j)
                        ==> self.arena()[j] == old(self).arena()[j],
            decreases end - i,
        {
            let id = self.order[i];
            proof {
                assert(!slot_in(old(self).order().subrange(start as int, i as int), id as int));
                assert(self.arena()[id as int] == old(self).arena()[id as int]);
            }
            let p = self.slots[id].take();
            match p {
                Some(v) => removed.push(v),
                None => vstd::pervasive::unreached(),
            }
            proof {
                let o0 = old(self).order();
                let pre = o0.subrange(start as int, i as int);
                let cur = o0.subrange(start as int, i + 1);
                assert(cur[i - start] == id);
                assert forall|j: int|
                    0 <= j < old(self).arena().len() && !slot_in(cur, j)
                        implies self.arena()[j] == old(self).arena()[j] by {
                    assert(j != id as int);
                    assert forall|k: int| 0 <= k < pre.len() implies pre[k] != j by {
                        assert(cur[k] == pre[k]);
                    }
                    assert(!slot_in(pre, j));
                }
                assert forall|j: int|
                    0 <= j < old(self).arena().len() && slot_in(cur, j)
                        implies self.arena()[j] is None by {
                    let k = choose|k: int| 0 <= k < cur.len() && cur[k] == j;
                    if k < i - start {
                        assert(pre[k] == j);
                        assert(slot_in(pre, j));
                        assert(o0[k + start] != o0[i as int]);
                    }
                }
                assert(removed@ =~= old(self).elems().subrange(start as int, i + 1));
            }
            i += 1;
        }
        let mut tail = self.order.split_off(end);
        self.order.truncate(start);
        self.order.append(&mut tail);
        proof {
            let o0 = old(self).order();
            let kept = o0.subrange(0, start as int) + o0.subrange(end as int, o0.len() as int);
            assert(self.order() =~= kept);
            let dr = o0.subrange(start as int, end as int);
            assert forall|i1: int| 0 <= i1 < kept.len() implies !slot_in(dr, kept[i1] as int)
                && (#[trigger] kept[i1]) < self.arena().len()
                && self.arena()[kept[i1] as int] == old(self).arena()[kept[i1] as int] by {
                let orig = if i1 < start { i1 } else { i1 - start + end };
                assert(kept[i1] == o0[orig]);
                assert forall|k: int| 0 <= k < dr.len() implies dr[k] != kept[i1] by {
                    assert(dr[k] == o0[k + start]);
                }
            }
            assert(self.wf());
            assert(self.elems() =~= old(self).elems().subrange(0, start as int)
                + old(self).elems().subrange(end as int, old(self).elems().len() as int));
        }
        removed
    }
}

/// The public wrapper around the storage core. It is the only way to obtain
/// a container, it forwards the core's operations, and it adds positional
/// indexing. Nothing the wrapper hands out lets a caller swap the core's
/// slots, so the association of handle to element can never be broken from
/// outside.
pub struct TraitVec<T> {
    inner: InnerVec<T>,
}

impl<T> TraitVec<T> {
    /// The arena of the wrapped core.
    pub closed spec fn arena(self) -> Seq<Option<T>> {
        self.inner.arena()
    }

    /// The order table of the wrapped core.
    pub closed spec fn order(self) -> Seq<usize> {
        self.inner.order()
    }

    /// Well-formedness of the wrapped core.
    pub open spec fn wf(self) -> bool {
        wf_model(self.arena(), self.order())
    }

    /// The elements currently present, in insertion order.
    pub open spec fn elems(self) -> Seq<T> {
        elems_of(self.arena(), self.order())
    }

    /// Whether `h` names a slot that still holds its element.
    pub open spec fn handle_live(self, h: Handle) -> bool {
        slot_live(self.arena(), h.id())
    }

    /// The element behind a live handle.
    pub open spec fn handle_value(self, h: Handle) -> T {
        slot_value(self.arena(), h.id())
    }

    /// Constructs a new, empty `TraitVec`.
    pub fn new() -> (v: Self)
        ensures
            v.wf(),
            v.arena() == Seq::<Option<T>>::empty(),
            v.order() == Seq::<usize>::empty(),
            v.elems().len() == 0,
    {
        TraitVec { inner: InnerVec::new() }
    }

    /// How many elements are currently present.
    pub fn len(&self) -> (n: usize)
        ensures
            n == self.order().len(),
            n == self.elems().len(),
    {
        self.inner.len()
    }

    /// Forwards `InnerVec::push`: appends `value` in a slot of its own and
    /// returns a handle to it; no existing slot is touched.
    pub fn push(&mut self, value: T) -> (h: Handle)
        requires
            old(self).wf(),
        ensures
            final(self).wf(),
            h.id() == old(self).arena().len(),
            final(self).arena() == old(self).arena().push(Some(value)),
            final(self).order() == old(self).order().push(old(self).arena().len() as usize),
            final(self).elems() == old(self).elems().push(value),
            final(self).handle_live(h),
            final(self).handle_value(h) == value,
    {
        self.inner.push(value)
    }

    /// Forwards `InnerVec::get`: a read-only view of the element behind a
    /// live handle, `UseAfterDrain` once its slot has been removed.
    pub fn get(&self, h: Handle) -> (r: Result<&T, Error>)
        ensures
            self.handle_live(h) ==> (r matches Ok(v) && *v == self.handle_value(h)),
            !self.handle_live(h) ==> r == Err::<&T, Error>(Error::UseAfterDrain),
    {
        self.inner.get(h)
    }

    /// Forwards `InnerVec::get_mut`: an exclusive view of the element behind
    /// a live handle.
    pub fn get_mut(&mut self, h: Handle) -> (r: &mut T)
        requires
            old(self).handle_live(h),
        ensures
            *r == old(self).handle_value(h),
            final(self).arena() == old(self).arena().update(h.id(), Some(*final(r))),
            final(self).order() == old(self).order(),
            old(self).wf() ==> final(self).wf(),
    {
        self.inner.get_mut(h)
    }

    /// Forwards `InnerVec::iter`: one pass of read-only views over every
    /// element, in insertion order.
    pub fn iter(&self) -> (r: Vec<&T>)
        requires
            self.wf(),
        ensures
            r@.len() == self.elems().len(),
            forall|i: int| 0 <= i < r@.len() ==> *(#[trigger] r@[i]) == self.elems()[i],
    {
        self.inner.iter()
    }

    /// Forwards `InnerVec::iter_mut`: one exclusive pass that replaces every
    /// element in insertion order and returns the values found.
    pub fn iter_mut(&mut self, values: Vec<T>) -> (prev: Vec<T>)
        requires
            old(self).wf(),
            values@.len() == old(self).elems().len(),
        ensures
            final(self).wf(),
            prev@ == old(self).elems(),
            final(self).elems() == values@,
            final(self).order() == old(self).order(),
            final(self).arena().len() == old(self).arena().len(),
    {
        self.inner.iter_mut(values)
    }

    /// Forwards `InnerVec::drain`: removes the elements at positions
    /// `[start, end)` and returns them in order; exactly their handles
    /// become invalid.
    pub fn drain(&mut self, start: usize, end: usize) -> (removed: Vec<T>)
        requires
            old(self).wf(),
            start <= end,
            end <= old(self).elems().len(),
        ensures
            final(self).wf(),
            removed@ == old(self).elems().subrange(start as int, end as int),
            final(self).order() == old(self).order().subrange(0, start as int)
                + old(self).order().subrange(end as int, old(self).order().len() as int),
            final(self).elems() == old(self).elems().subrange(0, start as int)
                + old(self).elems().subrange(end as int, old(self).elems().len() as int),
            final(self).arena().len() == old(self).arena().len(),
            forall|j: int|
                0 <= j < old(self).arena().len()
                    && slot_in(old(self).order().subrange(start as int, end as int), j)
                    ==> final(self).arena()[j] is None,
            forall|j: int|
                0 <= j < old(self).arena().len()
                    && !slot_in(old(self).order().subrange(start as int, end as int), j)
                    ==> final(self).arena()[j] == old(self).arena()[j],
    {
        self.inner.drain(start, end)
    }

    /// The element at position `i` of the observed sequence, or
    /// `IndexOutOfRange` when `i` is at or past the current length. For an
    /// index below the length the view equals the `i`-th element of `iter`.
    pub fn index(&self, i: usize) -> (r: Result<&T, Error>)
        requires
            self.wf(),
        ensures
            i < self.elems().len() ==> (r matches Ok(v) && *v == self.elems()[i as int]),
            i >= self.elems().len() ==> r == Err::<&T, Error>(Error::IndexOutOfRange),
    {
        if i < self.inner.order.len() {
            let id = self.inner.order[i];
            match &self.inner.slots[id] {
                Some(v) => Ok(v),
                None => vstd::pervasive::unreached(),
            }
        } else {
            Err(Error::IndexOutOfRange)
        }
    }

    /// Destroys the container: every remaining slot's element is released,
    /// each exactly once, in sequence order, as the arena is dropped.
    pub fn destroy(self) {
    }
}

} // verus!
