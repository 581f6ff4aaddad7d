use vstd::prelude::*;

verus! {

/// Abstract state of a reference-counted allocation.
///
/// Handles are named by the order in which they were handed out; `live`
/// holds the names of the handles that have not been dropped yet.
pub struct CountedView<T> {
    /// The shared payload, `None` once it has been destroyed.
    pub payload: Option<T>,
    /// The reference count.
    pub count: nat,
    /// Names of the live handles.
    pub live: Set<nat>,
    /// Number of handles handed out so far; the next handle gets this name.
    pub minted: nat,
}

/// One operation on a reference-counted allocation, performed through one
/// of its handles.
pub enum CountOp {
    /// Clone the handle `source`.
    Clone { source: nat },
    /// Drop the handle `handle`; `actor` is the thread of control that does.
    Drop { handle: nat, actor: u64 },
}

impl CountOp {
    /// The handle through which the operation is performed.
    pub open spec fn through(self) -> nat {
        match self {
            CountOp::Clone { source } => source,
            CountOp::Drop { handle, .. } => handle,
        }
    }
}

impl<T> CountedView<T> {
    /// The count equals the number of live handles, every live handle was
    /// handed out by this allocation, and the payload exists exactly while
    /// the count is positive.
    pub open spec fn wf(self) -> bool {
        &&& self.live.finite()
        &&& self.count == self.live.len()
        &&& forall|id: nat| self.live.contains(id) ==> id < self.minted
        &&& (self.payload is Some <==> self.count > 0)
    }

    /// The allocation right after construction: one handle, named 0.
    pub open spec fn fresh(value: T) -> Self {
        CountedView { payload: Some(value), count: 1, live: set![0nat], minted: 1 }
    }

    /// The allocation after a clone: the new handle is named `self.minted`.
    pub open spec fn cloned(self) -> Self {
        CountedView {
            payload: self.payload,
            count: self.count + 1,
            live: self.live.insert(self.minted),
            minted: self.minted + 1,
        }
    }

    /// Whether dropping one handle now takes the count to zero.
    pub open spec fn last_handle(self) -> bool {
        self.count == 1
    }

    /// The allocation after the handle `id` was dropped. The payload is
    /// destroyed by the drop that takes the count to zero.
    pub open spec fn dropped(self, id: nat) -> Self {
        CountedView {
            payload: if self.last_handle() { None } else { self.payload },
            count: (self.count - 1) as nat,
            live: self.live.remove(id),
            minted: self.minted,
        }
    }

    /// An operation is admitted when the handle it goes through is live.
    pub open spec fn admits(self, op: CountOp) -> bool {
        self.live.contains(op.through())
    }

    /// The allocation after one operation.
    pub open spec fn step(self, op: CountOp) -> Self {
        match op {
            CountOp::Clone { .. } => self.cloned(),
            CountOp::Drop { handle, .. } => self.dropped(handle),
        }
    }

    /// Whether `op`, applied now, destroys the payload.
    pub open spec fn destroys(self, op: CountOp) -> bool {
        op is Drop && self.last_handle()
    }

    /// Whether every operation of `ops`, applied in order, goes through a
    /// handle that is live when its turn comes.
    pub open spec fn admits_all(self, ops: Seq<CountOp>) -> bool
        decreases ops.len(),
    {
        ops.len() > 0 ==> self.admits(ops[0]) && self.step(ops[0]).admits_all(ops.drop_first())
    }

    /// The allocation after `ops` were applied in order.
    pub open spec fn run(self, ops: Seq<CountOp>) -> Self
        decreases ops.len(),
    {
        if ops.len() == 0 {
            self
        } else {
            self.step(ops[0]).run(ops.drop_first())
        }
    }

    /// The threads whose operations destroyed the payload while `ops` were
    /// applied in order, one entry per destruction.
    pub open spec fn destroyers(self, ops: Seq<CountOp>) -> Seq<u64>
        decreases ops.len(),
    {
        if ops.len() == 0 {
            Seq::empty()
        } else {
            let rest = self.step(ops[0]).destroyers(ops.drop_first());
            if self.destroys(ops[0]) {
                seq![ops[0]->actor] + rest
            } else {
                rest
            }
        }
    }
}

/// A freshly constructed allocation is well formed.
pub proof fn lemma_fresh_counts_one<T>(value: T)
    ensures
        CountedView::fresh(value).wf(),
{
}

/// Every admitted operation keeps the count equal to the number of live
/// handles and the payload alive exactly while handles remain.
pub proof fn lemma_step_keeps_count<T>(state: CountedView<T>, op: CountOp)
    requires
        state.wf(),
        state.admits(op),
    ensures
        state.step(op).wf(),
{
}

/// For every sequence of clones and drops, by any threads and in any
/// interleaving, each going through a handle that is live at its turn:
/// afterwards the count equals the number of live handles, and the payload
/// has been destroyed exactly once in the course of it if the sequence took
/// the count to zero and never otherwise.
pub proof fn lemma_count_equals_live_handles<T>(state: CountedView<T>, ops: Seq<CountOp>)
    requires
        state.wf(),
        state.admits_all(ops),
    ensures
        state.run(ops).wf(),
        state.run(ops).count == state.run(ops).live.len(),
        state.destroyers(ops).len() == if state.count > 0 && state.run(ops).count == 0 {
            1nat
        } else {
            0nat
        },
    decreases ops.len(),
{
    if state.count == 0 {
        lemma_exhausted_admits_nothing(state, ops);
    } else if ops.len() > 0 {
        let next = state.step(ops[0]);
        let rest = ops.drop_first();
        lemma_step_keeps_count(state, ops[0]);
        lemma_count_equals_live_handles(next, rest);
        if next.count == 0 {
            lemma_exhausted_admits_nothing(next, rest);
            assert(state.destroyers(ops) =~= seq![ops[0]->actor]);
        }
    }
}

/// Once the count is zero no handle is live, so no further operation is
/// admitted: the allocation stays as it is and nothing is destroyed again.
pub proof fn lemma_exhausted_admits_nothing<T>(state: CountedView<T>, ops: Seq<CountOp>)
    requires
        state.wf(),
        state.count == 0,
        state.admits_all(ops),
    ensures
        ops.len() == 0,
        state.run(ops) == state,
        state.destroyers(ops).len() == 0,
{
}

/// The thread that destroys the payload is the one whose drop found the
/// count at one: a single operation of the sequence, and the last one.
pub proof fn lemma_destroyer_is_last_dropper<T>(state: CountedView<T>, ops: Seq<CountOp>)
    requires
        state.wf(),
        state.count > 0,
        state.admits_all(ops),
        state.run(ops).count == 0,
    ensures
        ops.len() > 0,
        ops.last() is Drop,
        state.destroyers(ops) == seq![ops.last()->actor],
    decreases ops.len(),
{
    if ops.len() > 0 {
        let next = state.step(ops[0]);
        let rest = ops.drop_first();
        lemma_step_keeps_count(state, ops[0]);
        if next.count > 0 {
            lemma_destroyer_is_last_dropper(next, rest);
        } else {
            lemma_exhausted_admits_nothing(next, rest);
        }
    }
}

} // verus!
