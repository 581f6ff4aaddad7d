use vstd::prelude::*;
use crate::owner::Owner;
use crate::counted::{CountOp, CountedView, lemma_exhausted_admits_nothing, lemma_step_keeps_count};

verus! {

/// Abstract state of an atomically counted allocation: the count ledger and
/// the thread that destroyed the payload, if it has been destroyed.
pub struct AtomicView<T> {
    /// Payload, count and live handles.
    pub ledger: CountedView<T>,
    /// The thread whose drop took the count to zero.
    pub destroyed_by: Option<u64>,
}

impl<T> AtomicView<T> {
    /// The ledger is consistent, and a destroying thread is recorded exactly
    /// when no handle is left.
    pub open spec fn wf(self) -> bool {
        &&& self.ledger.wf()
        &&& (self.destroyed_by is Some <==> self.ledger.count == 0)
    }

    /// The allocation right after construction.
    pub open spec fn fresh(value: T) -> Self {
        AtomicView { ledger: CountedView::fresh(value), destroyed_by: None }
    }

    /// The allocation after one indivisible operation.
    pub open spec fn step(self, op: CountOp) -> Self {
        AtomicView {
            ledger: self.ledger.step(op),
            destroyed_by: if self.ledger.destroys(op) {
                Some(op->actor)
            } else {
                self.destroyed_by
            },
        }
    }

    /// The allocation after the operations of `ops` took effect one after
    /// the other, in the order in which the threads' updates were applied.
    pub open spec fn run(self, ops: Seq<CountOp>) -> Self
        decreases ops.len(),
    {
        if ops.len() == 0 {
            self
        } else {
            self.step(ops[0]).run(ops.drop_first())
        }
    }
}

/// A claim on the payload of one `AtomicSharedCounted` allocation, which
/// may be handed to another thread of control.
pub struct AtomicHandle {
    name: Ghost<nat>,
}

impl AtomicHandle {
    /// The name under which the allocation knows this handle.
    pub closed spec fn id(&self) -> nat {
        self.name@
    }
}

/// Shared ownership of an immutable payload across threads of control.
///
/// Every operation is one step on the whole allocation, so a clone or a
/// drop by one thread never interleaves with another thread's: the updates
/// take effect in some total order, and the contracts hold for every such
/// order.
pub struct AtomicSharedCounted<T> {
    payload: Owner<T>,
    count: usize,
    destroyer: Option<u64>,
    live: Ghost<Set<nat>>,
    minted: Ghost<nat>,
}

impl<T> View for AtomicSharedCounted<T> {
    type V = AtomicView<T>;

    closed spec fn view(&self) -> AtomicView<T> {
        AtomicView {
            ledger: CountedView {
                payload: self.payload@,
                count: self.count as nat,
                live: self.live@,
                minted: self.minted@,
            },
            destroyed_by: self.destroyer,
        }
    }
}

impl<T> AtomicSharedCounted<T> {
    /// The allocation's bookkeeping is consistent (see `AtomicView::wf`).
    pub open spec fn wf(&self) -> bool {
        self@.wf()
    }

    /// Whether `handle` is a live handle of this allocation.
    pub open spec fn is_live(&self, handle: &AtomicHandle) -> bool {
        self@.ledger.live.contains(handle.id())
    }

    /// Allocates `value` with a count of one and returns its first handle.
    pub fn construct(value: T) -> (made: (AtomicSharedCounted<T>, AtomicHandle))
        ensures
            made.0.wf(),
            made.0@ == AtomicView::fresh(value),
            made.1.id() == 0,
    {
        let ghost fresh = CountedView::fresh(value);
        let block = AtomicSharedCounted {
            payload: Owner::construct(value),
            count: 1,
            destroyer: None,
            live: Ghost(fresh.live),
            minted: Ghost(fresh.minted),
        };
        (block, AtomicHandle { name: Ghost(0nat) })
    }

    /// Increments the count by one and returns a new handle to the same
    /// payload.
    pub fn clone_handle(&mut self, source: &AtomicHandle) -> (handle: AtomicHandle)
        requires
            old(self).wf(),
            old(self).is_live(source),
            old(self)@.ledger.count < usize::MAX,
        ensures
            final(self).wf(),
            final(self)@ == old(self)@.step(CountOp::Clone { source: source.id() }),
            handle.id() == old(self)@.ledger.minted,
    {
        let ghost name = self.minted@;
        self.count = self.count + 1;
        self.live = Ghost(self.live@.insert(name));
        self.minted = Ghost(name + 1);
        AtomicHandle { name: Ghost(name) }
    }

    /// Drops `handle` on behalf of `thread`: decrements the count by one
    /// and, if that takes the count to zero, destroys the payload and
    /// records `thread` as the one that did. Returns whether it did.
    pub fn drop_handle(&mut self, handle: AtomicHandle, thread: u64) -> (destroyed: bool)
        requires
            old(self).wf(),
            old(self).is_live(&handle),
        ensures
            final(self).wf(),
            final(self)@ == old(self)@.step(CountOp::Drop { handle: handle.id(), actor: thread }),
            destroyed == old(self)@.ledger.last_handle(),
    {
        self.count = self.count - 1;
        self.live = Ghost(self.live@.remove(handle.id()));
        if self.count == 0 {
            let _ = self.payload.move_out();
            self.destroyer = Some(thread);
            true
        } else {
            false
        }
    }

    /// The count at the moment of the call. Under concurrent use it is a
    /// snapshot that another thread's clone or drop may outdate at once.
    pub fn strong_count(&self, handle: &AtomicHandle) -> (count: usize)
        requires
            self.wf(),
            self.is_live(handle),
        ensures
            count == self@.ledger.count,
            count == self@.ledger.live.len(),
            count >= 1,
    {
        self.count
    }

    /// Reads the payload through a live handle.
    pub fn get(&self, handle: &AtomicHandle) -> (value: &T)
        requires
            self.wf(),
            self.is_live(handle),
        ensures
            self@.ledger.payload == Some(*value),
    {
        self.payload.get().unwrap()
    }

    /// The thread that destroyed the payload, once no handle is left.
    pub fn destroyed_by(&self) -> (thread: Option<u64>)
        requires
            self.wf(),
        ensures
            thread == self@.destroyed_by,
            thread is Some <==> self@.ledger.count == 0,
    {
        self.destroyer
    }
}

/// For every sequence of clones and drops by any number of threads, each
/// through a handle that is live at its turn: afterwards the count equals
/// the number of live handles. If the sequence took the count to zero, the
/// payload was destroyed exactly once, by the one thread recorded, which
/// performed the last drop. While a handle is left, the payload has never
/// been destroyed and is what it was.
pub proof fn lemma_atomic_count_and_single_destruction<T>(
    state: AtomicView<T>,
    ops: Seq<CountOp>,
)
    requires
        state.wf(),
        state.ledger.admits_all(ops),
    ensures
        state.run(ops).wf(),
        state.run(ops).ledger == state.ledger.run(ops),
        state.run(ops).ledger.count == state.run(ops).ledger.live.len(),
        state.ledger.count > 0 && state.run(ops).ledger.count == 0 ==> {
            &&& ops.len() > 0
            &&& ops.last() is Drop
            &&& state.ledger.destroyers(ops) == seq![ops.last()->actor]
            &&& state.run(ops).destroyed_by == Some(ops.last()->actor)
            &&& state.run(ops).ledger.payload is None
        },
        state.run(ops).ledger.count > 0 ==> {
            &&& state.ledger.destroyers(ops).len() == 0
            &&& state.run(ops).destroyed_by is None
            &&& state.run(ops).ledger.payload == state.ledger.payload
        },
    decreases ops.len(),
{
    if state.ledger.count == 0 {
        lemma_exhausted_admits_nothing(state.ledger, ops);
    } else if ops.len() > 0 {
        let next = state.step(ops[0]);
        let rest = ops.drop_first();
        lemma_step_keeps_count(state.ledger, ops[0]);
        lemma_atomic_count_and_single_destruction(next, rest);
        if next.ledger.count == 0 {
            lemma_exhausted_admits_nothing(next.ledger, rest);
            assert(state.ledger.destroyers(ops) =~= seq![ops[0]->actor]);
        } else if rest.len() > 0 {
            assert(rest.last() == ops.last());
        }
    }
}

} // verus!
