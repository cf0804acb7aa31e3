//! The reference-counting discipline of the root resource.
//!
//! Every owning value of the library — a context, and each device,
//! enumeration session or monitor session derived from one — holds exactly
//! one counted reference to the root resource: construction acquires it,
//! destruction releases it, paired one to one. This module states that
//! discipline as a trace model. A trace records, in order, each acquire and
//! release together with the owning value it belongs to; a trace is
//! well-formed when no value acquires twice without releasing and nothing
//! releases what is not held. The pairing law proves that under this
//! discipline the count equals the number of live owners at every point:
//! it reaches zero exactly when the last owner is gone, and never while a
//! derived value is still alive.

use vstd::prelude::*;
use vstd::set::group_set_axioms;

verus! {

/// One step of the root resource's reference history: the owner named by
/// the identifier takes or returns its reference.
pub enum RefOp {
    /// The owner acquires its counted reference at construction.
    Acquire(int),
    /// The owner releases its counted reference at destruction.
    Release(int),
}

/// The set of owners that hold a reference after the trace has run.
pub open spec fn live_owners(t: Seq<RefOp>) -> Set<int>
    decreases t.len(),
{
    if t.len() == 0 {
        Set::empty()
    } else {
        let prev = live_owners(t.drop_last());
        match t.last() {
            RefOp::Acquire(v) => prev.insert(v),
            RefOp::Release(v) => prev.remove(v),
        }
    }
}

/// The root resource's reference count after the trace has run: one
/// increment per acquire, one decrement per release.
pub open spec fn ref_count(t: Seq<RefOp>) -> int
    decreases t.len(),
{
    if t.len() == 0 {
        0
    } else {
        ref_count(t.drop_last()) + match t.last() {
            RefOp::Acquire(_) => 1,
            RefOp::Release(_) => -1,
        }
    }
}

/// A trace obeys the pairing discipline: an owner acquires only while it
/// holds nothing, and releases only what it holds.
pub open spec fn wf_trace(t: Seq<RefOp>) -> bool {
    forall|i: int|
        0 <= i < t.len() ==> match #[trigger] t[i] {
            RefOp::Acquire(v) => !live_owners(t.take(i)).contains(v),
            RefOp::Release(v) => live_owners(t.take(i)).contains(v),
        }
}

proof fn lemma_wf_prefix(t: Seq<RefOp>)
    requires
        t.len() > 0,
        wf_trace(t),
    ensures
        wf_trace(t.drop_last()),
{
    assert forall|i: int| 0 <= i < t.drop_last().len() implies match #[trigger] t.drop_last()[i] {
        RefOp::Acquire(v) => !live_owners(t.drop_last().take(i)).contains(v),
        RefOp::Release(v) => live_owners(t.drop_last().take(i)).contains(v),
    } by {
        assert(t.drop_last().take(i) =~= t.take(i));
        assert(t.drop_last()[i] == t[i]);
    }
}

proof fn lemma_count_is_cardinality(t: Seq<RefOp>)
    requires
        wf_trace(t),
    ensures
        live_owners(t).finite(),
        ref_count(t) == live_owners(t).len(),
    decreases t.len(),
{
    broadcast use group_set_axioms;

    if t.len() == 0 {
        assert(live_owners(t) =~= Set::empty());
    } else {
        lemma_wf_prefix(t);
        lemma_count_is_cardinality(t.drop_last());
        let prev = live_owners(t.drop_last());
        assert(t.take(t.len() - 1) =~= t.drop_last());
        match t[t.len() - 1] {
            RefOp::Acquire(v) => {
                assert(!prev.contains(v));
            },
            RefOp::Release(v) => {
                assert(prev.contains(v));
            },
        }
    }
}

/// The pairing law of the root resource: under the acquire/release
/// discipline the reference count always equals the number of live owning
/// values, so it is zero exactly when every value has been dropped, and it
/// stays positive while any context, device, enumeration session or
/// monitor session derived from the root is still alive.
pub proof fn lemma_refcount_pairing(t: Seq<RefOp>)
    requires
        wf_trace(t),
    ensures
        live_owners(t).finite(),
        ref_count(t) == live_owners(t).len(),
        ref_count(t) == 0 <==> live_owners(t) =~= Set::empty(),
        forall|v: int| live_owners(t).contains(v) ==> ref_count(t) > 0,
{
    broadcast use group_set_axioms;

    lemma_count_is_cardinality(t);
    if live_owners(t).len() == 0 {
        live_owners(t).lemma_len0_is_empty();
    }
    assert forall|v: int| live_owners(t).contains(v) implies ref_count(t) > 0 by {
        if live_owners(t).len() == 0 {
            live_owners(t).lemma_len0_is_empty();
        }
    }
}

} // verus!
