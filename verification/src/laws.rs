//! Laws of the container, proved over its model.
//!
//! Both `InnerVec` and `TraitVec` present their state as an arena `a` and an
//! order table `o` (see `wf_model`), and the contract of `push` pins what one
//! append does to that state: `arena_after` and `order_after` fold any
//! sequence of appends over it. The laws here say what such a sequence can
//! and cannot change.

use vstd::prelude::*;
use crate::traitvec::{Handle, arena_after, order_after, elems_of, wf_model, slot_in, slot_live, slot_value};

verus! {

/// Law: a drain of the positions `[start, end)` invalidates exactly the
/// handles of the elements standing at those positions. In a well-formed
/// container the slot at position `p` is mentioned by the drained part of the
/// order table if and only if `p` lies inside the drained range; together
/// with the contract of `drain` (every slot in that part becomes empty, every
/// other slot is untouched), a handle issued earlier stays dereferenceable
/// precisely when its element stood outside the range.
pub proof fn lemma_drain_hits_exactly_the_range<T>(
    a: Seq<Option<T>>,
    o: Seq<usize>,
    start: int,
    end: int,
    p: int,
)
    requires
        wf_model(a, o),
        0 <= start <= end <= o.len(),
        0 <= p < o.len(),
    ensures
        slot_in(o.subrange(start, end), o[p] as int) <==> start <= p < end,
{
    let dr = o.subrange(start, end);
    if start <= p < end {
        assert(dr[p - start] == o[p]);
    }
    if slot_in(dr, o[p] as int) && !(start <= p < end) {
        let k = choose|k: int| 0 <= k < dr.len() && dr[k] == o[p];
        assert(o[k + start] == o[p]);
        assert(false);
    }
}

/// Law: a handle issued by an append keeps dereferencing to a value equal to
/// the one appended, after any number of subsequent appends: appending `vs`
/// in turn leaves every slot that exists in `a` exactly as it was.
pub proof fn lemma_handle_survives_appends<T>(a: Seq<Option<T>>, vs: Seq<T>, h: Handle)
    requires
        slot_live(a, h.id()),
    ensures
        slot_live(arena_after(a, vs), h.id()),
        slot_value(arena_after(a, vs), h.id()) == slot_value(a, h.id()),
    decreases vs.len(),
{
    if vs.len() > 0 {
        lemma_handle_survives_appends(a.push(Some(vs[0])), vs.drop_first(), h);
    }
}

/// Law: appending `n` values to a container holding `l` elements, with no
/// drain in between, leaves it holding `l + n` elements; moreover the
/// observed sequence is the old one with the new values behind it, in the
/// order they were appended.
pub proof fn lemma_appends_extend_elems<T>(a: Seq<Option<T>>, o: Seq<usize>, vs: Seq<T>)
    requires
        wf_model(a, o),
        a.len() + vs.len() <= usize::MAX,
    ensures
        wf_model(arena_after(a, vs), order_after(a.len() as int, o, vs)),
        elems_of(arena_after(a, vs), order_after(a.len() as int, o, vs)) == elems_of(a, o) + vs,
        order_after(a.len() as int, o, vs).len() == o.len() + vs.len(),
    decreases vs.len(),
{
    if vs.len() == 0 {
        assert(elems_of(a, o) + vs =~= elems_of(a, o));
    } else {
        let a1 = a.push(Some(vs[0]));
        let o1 = o.push(a.len() as usize);
        assert(wf_model(a1, o1));
        assert(elems_of(a1, o1) =~= elems_of(a, o).push(vs[0]));
        lemma_appends_extend_elems(a1, o1, vs.drop_first());
        assert(elems_of(a, o).push(vs[0]) + vs.drop_first() =~= elems_of(a, o) + vs);
    }
}

} // verus!
