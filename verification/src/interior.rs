use vstd::prelude::*;
use crate::error::AccessError;

verus! {

/// The borrow state of an `InteriorMutable`.
#[derive(Clone, Copy, Debug, PartialEq, Eq, Structural)]
pub enum BorrowState {
    /// No guard is outstanding.
    Unborrowed,
    /// This many shared guards are outstanding, and at least one.
    Shared(usize),
    /// One exclusive guard is outstanding.
    Exclusive,
}

/// Abstract state of an `InteriorMutable`: the payload and the guards that
/// are outstanding. Guards are named by the order in which they were
/// granted.
pub struct BorrowView<T> {
    /// The wrapped value.
    pub payload: T,
    /// Names of the outstanding shared guards.
    pub shared: Set<nat>,
    /// Names of the outstanding exclusive guards.
    pub exclusive: Set<nat>,
    /// Number of guards granted so far; the next guard gets this name.
    pub minted: nat,
}

/// One request made of an `InteriorMutable`.
pub enum BorrowOp {
    /// Ask for a shared guard.
    Borrow,
    /// Ask for an exclusive guard.
    BorrowMut,
    /// Give back the shared guard with this name.
    ReleaseShared(nat),
    /// Give back the exclusive guard with this name.
    ReleaseExclusive(nat),
}

impl<T> BorrowView<T> {
    /// The borrow rule: either no exclusive guard is outstanding, or exactly
    /// one is and no shared guard beside it.
    pub open spec fn exclusion(self) -> bool {
        ||| self.exclusive.len() == 0
        ||| self.exclusive.len() == 1 && self.shared.len() == 0
    }

    /// The borrow rule holds, the shared guards can be counted, and every
    /// outstanding guard was granted by this cell.
    pub open spec fn wf(self) -> bool {
        &&& self.exclusion()
        &&& self.shared.finite()
        &&& self.exclusive.finite()
        &&& forall|id: nat| self.shared.contains(id) ==> id < self.minted
        &&& forall|id: nat| self.exclusive.contains(id) ==> id < self.minted
    }

    /// A cell right after construction: nothing is borrowed.
    pub open spec fn fresh(value: T) -> Self {
        BorrowView { payload: value, shared: Set::empty(), exclusive: Set::empty(), minted: 0 }
    }

    /// Number of outstanding guards of either kind.
    pub open spec fn outstanding(self) -> nat {
        self.shared.len() + self.exclusive.len()
    }

    /// The state with one more shared guard, named `self.minted`, whether
    /// or not the borrow rule allows it.
    pub open spec fn with_shared(self) -> Self {
        BorrowView { shared: self.shared.insert(self.minted), minted: self.minted + 1, ..self }
    }

    /// The state with one more exclusive guard, named `self.minted`,
    /// whether or not the borrow rule allows it.
    pub open spec fn with_exclusive(self) -> Self {
        BorrowView {
            exclusive: self.exclusive.insert(self.minted),
            minted: self.minted + 1,
            ..self
        }
    }

    /// The state after the shared guard `id` was given back.
    pub open spec fn without_shared(self, id: nat) -> Self {
        BorrowView { shared: self.shared.remove(id), ..self }
    }

    /// The state after the exclusive guard `id` was given back.
    pub open spec fn without_exclusive(self, id: nat) -> Self {
        BorrowView { exclusive: self.exclusive.remove(id), ..self }
    }

    /// The state after the payload was replaced by `value`.
    pub open spec fn with_payload(self, value: T) -> Self {
        BorrowView { payload: value, ..self }
    }

    /// Whether a shared borrow is granted now.
    pub open spec fn grants_shared(self) -> bool {
        self.exclusive.len() == 0
    }

    /// Whether an exclusive borrow is granted now.
    pub open spec fn grants_exclusive(self) -> bool {
        self.exclusive.len() == 0 && self.shared.len() == 0
    }

    /// Whether a request is answered with success. A release names a guard
    /// that is outstanding.
    pub open spec fn grants(self, op: BorrowOp) -> bool {
        match op {
            BorrowOp::Borrow => self.grants_shared(),
            BorrowOp::BorrowMut => self.grants_exclusive(),
            BorrowOp::ReleaseShared(id) => self.shared.contains(id),
            BorrowOp::ReleaseExclusive(id) => self.exclusive.contains(id),
        }
    }

    /// What the state would be if the request were carried out without
    /// asking whether it is granted.
    pub open spec fn force(self, op: BorrowOp) -> Self {
        match op {
            BorrowOp::Borrow => self.with_shared(),
            BorrowOp::BorrowMut => self.with_exclusive(),
            BorrowOp::ReleaseShared(id) => self.without_shared(id),
            BorrowOp::ReleaseExclusive(id) => self.without_exclusive(id),
        }
    }

    /// The state after a request: carried out if granted, refused without
    /// any effect otherwise.
    pub open spec fn step(self, op: BorrowOp) -> Self {
        if self.grants(op) {
            self.force(op)
        } else {
            self
        }
    }

    /// The state after the requests of `ops` were made in order.
    pub open spec fn run(self, ops: Seq<BorrowOp>) -> Self
        decreases ops.len(),
    {
        if ops.len() == 0 {
            self
        } else {
            self.step(ops[0]).run(ops.drop_first())
        }
    }

    /// The borrow state that the executable cell reports for this state.
    pub open spec fn state(self) -> BorrowState {
        if self.exclusive.len() > 0 {
            BorrowState::Exclusive
        } else if self.shared.len() == 0 {
            BorrowState::Unborrowed
        } else {
            BorrowState::Shared(self.shared.len() as usize)
        }
    }
}

/// Token for one outstanding shared borrow of an `InteriorMutable`.
///
/// Guards cannot be copied or built by callers; giving one back consumes it.
pub struct SharedGuard {
    name: Ghost<nat>,
}

impl SharedGuard {
    /// The name under which the cell knows this guard.
    pub closed spec fn id(&self) -> nat {
        self.name@
    }
}

/// Token for the outstanding exclusive borrow of an `InteriorMutable`.
///
/// Guards cannot be copied or built by callers; giving one back consumes it.
pub struct ExclusiveGuard {
    name: Ghost<nat>,
}

impl ExclusiveGuard {
    /// The name under which the cell knows this guard.
    pub closed spec fn id(&self) -> nat {
        self.name@
    }
}

/// A value with runtime-checked borrows.
///
/// The cell keeps its borrow state in a single field and checks it at every
/// request; the payload is reached only by showing a guard. It is meant for
/// one thread of control.
pub struct InteriorMutable<T> {
    payload: T,
    state: BorrowState,
    shared: Ghost<Set<nat>>,
    exclusive: Ghost<Set<nat>>,
    minted: Ghost<nat>,
}

impl<T> View for InteriorMutable<T> {
    type V = BorrowView<T>;

    closed spec fn view(&self) -> BorrowView<T> {
        BorrowView {
            payload: self.payload,
            shared: self.shared@,
            exclusive: self.exclusive@,
            minted: self.minted@,
        }
    }
}

impl<T> InteriorMutable<T> {
    /// The borrow state that the cell has recorded.
    pub closed spec fn recorded(&self) -> BorrowState {
        self.state
    }

    /// The borrow rule holds and the recorded borrow state is the one that
    /// the outstanding guards amount to.
    pub open spec fn wf(&self) -> bool {
        &&& self@.wf()
        &&& self@.shared.len() <= usize::MAX
        &&& self.recorded() == self@.state()
    }

    /// Wraps `value`; nothing is borrowed.
    pub fn construct(value: T) -> (cell: InteriorMutable<T>)
        ensures
            cell.wf(),
            cell@ == BorrowView::fresh(value),
    {
        InteriorMutable {
            payload: value,
            state: BorrowState::Unborrowed,
            shared: Ghost(Set::empty()),
            exclusive: Ghost(Set::empty()),
            minted: Ghost(0nat),
        }
    }

    /// The current borrow state.
    pub fn borrow_state(&self) -> (state: BorrowState)
        requires
            self.wf(),
        ensures
            state == self@.state(),
    {
        self.state
    }

    /// Asks for a shared guard. The request fails with `BorrowConflict`
    /// exactly when an exclusive guard is outstanding, and then changes
    /// nothing.
    pub fn borrow(&mut self) -> (granted: Result<SharedGuard, AccessError>)
        requires
            old(self).wf(),
            old(self)@.shared.len() < usize::MAX,
        ensures
            final(self).wf(),
            final(self)@ == old(self)@.step(BorrowOp::Borrow),
            match granted {
                Ok(guard) => old(self)@.grants_shared() && guard.id() == old(self)@.minted,
                Err(error) => !old(self)@.grants_shared() && error == AccessError::BorrowConflict,
            },
    {
        let readers: usize = match self.state {
            BorrowState::Exclusive => {
                return Err(AccessError::BorrowConflict);
            },
            BorrowState::Unborrowed => 0,
            BorrowState::Shared(readers) => readers,
        };
        let ghost name = self.minted@;
        self.state = BorrowState::Shared(readers + 1);
        self.shared = Ghost(self.shared@.insert(name));
        self.minted = Ghost(name + 1);
        Ok(SharedGuard { name: Ghost(name) })
    }

    /// Asks for the exclusive guard. The request fails with
    /// `BorrowConflict` exactly when any guard is outstanding, and then
    /// changes nothing.
    pub fn borrow_mut(&mut self) -> (granted: Result<ExclusiveGuard, AccessError>)
        requires
            old(self).wf(),
        ensures
            final(self).wf(),
            final(self)@ == old(self)@.step(BorrowOp::BorrowMut),
            match granted {
                Ok(guard) => old(self)@.grants_exclusive() && guard.id() == old(self)@.minted,
                Err(error) => !old(self)@.grants_exclusive() && error
                    == AccessError::BorrowConflict,
            },
    {
        match self.state {
            BorrowState::Unborrowed => {
                let ghost name = self.minted@;
                self.state = BorrowState::Exclusive;
                self.exclusive = Ghost(self.exclusive@.insert(name));
                self.minted = Ghost(name + 1);
                Ok(ExclusiveGuard { name: Ghost(name) })
            },
            _ => Err(AccessError::BorrowConflict),
        }
    }

    /// Gives a shared guard back.
    pub fn release_shared(&mut self, guard: SharedGuard)
        requires
            old(self).wf(),
            old(self)@.shared.contains(guard.id()),
        ensures
            final(self).wf(),
            final(self)@ == old(self)@.without_shared(guard.id()),
            final(self)@ == old(self)@.step(BorrowOp::ReleaseShared(guard.id())),
    {
        if let BorrowState::Shared(readers) = self.state {
            self.state = if readers == 1 {
                BorrowState::Unborrowed
            } else {
                BorrowState::Shared(readers - 1)
            };
        }
        self.shared = Ghost(self.shared@.remove(guard.id()));
    }

    /// Gives the exclusive guard back; the cell is unborrowed afterwards.
    pub fn release_exclusive(&mut self, guard: ExclusiveGuard)
        requires
            old(self).wf(),
            old(self)@.exclusive.contains(guard.id()),
        ensures
            final(self).wf(),
            final(self)@ == old(self)@.without_exclusive(guard.id()),
            final(self)@ == old(self)@.step(BorrowOp::ReleaseExclusive(guard.id())),
            final(self)@.state() == BorrowState::Unborrowed,
    {
        self.state = BorrowState::Unborrowed;
        self.exclusive = Ghost(self.exclusive@.remove(guard.id()));
    }

    /// Runs `reader` on the payload under a shared borrow that ends when
    /// `reader` returns, whatever it returns.
    ///
    /// Fails with `BorrowConflict`, without running `reader`, exactly when
    /// an exclusive guard is outstanding.
    pub fn with_borrow<R, F: FnOnce(&T) -> R>(&mut self, reader: F) -> (read: Result<
        R,
        AccessError,
    >)
        requires
            old(self).wf(),
            old(self)@.shared.len() < usize::MAX,
            old(self)@.grants_shared() ==> reader.requires((&old(self)@.payload,)),
        ensures
            final(self).wf(),
            final(self)@.state() == old(self)@.state(),
            match read {
                Ok(result) => {
                    &&& old(self)@.grants_shared()
                    &&& reader.ensures((&old(self)@.payload,), result)
                    &&& final(self)@ == old(self)@.with_shared().without_shared(
                        old(self)@.minted,
                    )
                },
                Err(error) => {
                    &&& !old(self)@.grants_shared()
                    &&& error == AccessError::BorrowConflict
                    &&& final(self)@ == old(self)@
                },
            },
    {
        match self.borrow() {
            Ok(guard) => {
                let result = reader(self.read(&guard));
                self.release_shared(guard);
                Ok(result)
            },
            Err(error) => Err(error),
        }
    }

    /// Runs `writer` on the payload under an exclusive borrow that ends when
    /// `writer` returns, and stores what it returns as the new payload.
    ///
    /// Fails with `BorrowConflict`, without running `writer`, exactly when
    /// any guard is outstanding.
    pub fn with_borrow_mut<F: FnOnce(&T) -> T>(&mut self, writer: F) -> (written: Result<
        (),
        AccessError,
    >)
        requires
            old(self).wf(),
            old(self)@.grants_exclusive() ==> writer.requires((&old(self)@.payload,)),
        ensures
            final(self).wf(),
            final(self)@.state() == old(self)@.state(),
            match written {
                Ok(_) => {
                    &&& old(self)@.grants_exclusive()
                    &&& writer.ensures((&old(self)@.payload,), final(self)@.payload)
                    &&& final(self)@ == old(self)@.with_exclusive().with_payload(
                        final(self)@.payload,
                    ).without_exclusive(old(self)@.minted)
                },
                Err(error) => {
                    &&& !old(self)@.grants_exclusive()
                    &&& error == AccessError::BorrowConflict
                    &&& final(self)@ == old(self)@
                },
            },
    {
        match self.borrow_mut() {
            Ok(guard) => {
                let value = writer(self.read_exclusive(&guard));
                self.write(&guard, value);
                self.release_exclusive(guard);
                Ok(())
            },
            Err(error) => Err(error),
        }
    }

    /// Reads the payload under a shared guard.
    pub fn read(&self, guard: &SharedGuard) -> (value: &T)
        requires
            self.wf(),
            self@.shared.contains(guard.id()),
        ensures
            *value == self@.payload,
    {
        &self.payload
    }

    /// Reads the payload under the exclusive guard.
    pub fn read_exclusive(&self, guard: &ExclusiveGuard) -> (value: &T)
        requires
            self.wf(),
            self@.exclusive.contains(guard.id()),
        ensures
            *value == self@.payload,
    {
        &self.payload
    }

    /// Replaces the payload under the exclusive guard.
    pub fn write(&mut self, guard: &ExclusiveGuard, value: T)
        requires
            old(self).wf(),
            old(self)@.exclusive.contains(guard.id()),
        ensures
            final(self).wf(),
            final(self)@ == old(self)@.with_payload(value),
    {
        self.payload = value;
    }
}

/// A borrow is refused exactly when carrying it out would break the borrow
/// rule: at the call that would create the conflict, and at no other.
pub proof fn lemma_refused_iff_conflict<T>(state: BorrowView<T>, op: BorrowOp)
    requires
        state.wf(),
        op is Borrow || op is BorrowMut,
    ensures
        state.grants(op) <==> state.force(op).exclusion(),
        state.grants(op) ==> state.step(op).outstanding() == state.outstanding() + 1,
        !state.grants(op) ==> state.step(op) == state,
{
}

/// Every request, granted or refused, leaves the borrow rule intact.
pub proof fn lemma_step_keeps_borrow_rule<T>(state: BorrowView<T>, op: BorrowOp)
    requires
        state.wf(),
    ensures
        state.step(op).wf(),
        state.step(op).payload == state.payload,
{
}

/// For every sequence of borrows and releases, in any interleaving: at each
/// point at most one exclusive guard or any number of shared guards are
/// outstanding, never both.
pub proof fn lemma_borrow_rule_always_holds<T>(state: BorrowView<T>, ops: Seq<BorrowOp>)
    requires
        state.wf(),
    ensures
        state.run(ops).wf(),
        state.run(ops).exclusion(),
        state.run(ops).payload == state.payload,
    decreases ops.len(),
{
    if ops.len() > 0 {
        lemma_step_keeps_borrow_rule(state, ops[0]);
        lemma_borrow_rule_always_holds(state.step(ops[0]), ops.drop_first());
    }
}

} // verus!
