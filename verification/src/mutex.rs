use vstd::prelude::*;
use crate::error::AccessError;

verus! {

/// The lock state of a `Mutex`.
#[derive(Clone, Copy, Debug, PartialEq, Eq, Structural)]
pub enum LockState {
    /// Nobody holds the lock.
    Unlocked,
    /// One guard is outstanding.
    Locked,
}

/// Abstract state of a `Mutex`: the payload, the outstanding guards and the
/// poison mark. Guards are named by the order in which they were granted.
pub struct LockView<T> {
    /// The protected value.
    pub payload: T,
    /// Names of the outstanding guards.
    pub holders: Set<nat>,
    /// Whether a holder abandoned its critical section.
    pub poisoned: bool,
    /// Number of guards granted so far; the next guard gets this name.
    pub minted: nat,
}

/// One request made of a `Mutex` by some thread of control.
pub enum LockOp {
    /// Try to take the lock.
    Lock,
    /// Give the guard with this name back after a completed critical
    /// section.
    Unlock(nat),
    /// Give the guard with this name back from a critical section that
    /// ended abnormally.
    Abandon(nat),
}

impl<T> LockView<T> {
    /// Mutual exclusion: at most one guard is outstanding.
    pub open spec fn exclusion(self) -> bool {
        self.holders.len() <= 1
    }

    /// Mutual exclusion holds, every outstanding guard was granted by this
    /// lock, and a poisoned lock is held by nobody.
    pub open spec fn wf(self) -> bool {
        &&& self.holders.finite()
        &&& self.exclusion()
        &&& forall|id: nat| self.holders.contains(id) ==> id < self.minted
        &&& (self.poisoned ==> self.holders.len() == 0)
    }

    /// A lock right after construction: unlocked and not poisoned.
    pub open spec fn fresh(value: T) -> Self {
        LockView { payload: value, holders: Set::empty(), poisoned: false, minted: 0 }
    }

    /// The lock state that the executable lock reports for this state.
    pub open spec fn state(self) -> LockState {
        if self.holders.len() > 0 {
            LockState::Locked
        } else {
            LockState::Unlocked
        }
    }

    /// Whether an attempt to take the lock succeeds now.
    pub open spec fn grants_lock(self) -> bool {
        !self.poisoned && self.holders.len() == 0
    }

    /// The state with one more guard, named `self.minted`, whether or not
    /// mutual exclusion allows it.
    pub open spec fn with_holder(self) -> Self {
        LockView { holders: self.holders.insert(self.minted), minted: self.minted + 1, ..self }
    }

    /// The state after the guard `id` was given back in good order.
    pub open spec fn without_holder(self, id: nat) -> Self {
        LockView { holders: self.holders.remove(id), ..self }
    }

    /// The state after the guard `id` was given back from a critical
    /// section that ended abnormally: released, and poisoned.
    pub open spec fn abandoned(self, id: nat) -> Self {
        LockView { holders: self.holders.remove(id), poisoned: true, ..self }
    }

    /// The state after the payload was replaced by `value`.
    pub open spec fn with_payload(self, value: T) -> Self {
        LockView { payload: value, ..self }
    }

    /// Whether a request takes effect. A release names a guard that is
    /// outstanding.
    pub open spec fn grants(self, op: LockOp) -> bool {
        match op {
            LockOp::Lock => self.grants_lock(),
            LockOp::Unlock(id) => self.holders.contains(id),
            LockOp::Abandon(id) => self.holders.contains(id),
        }
    }

    /// What the state would be if the request were carried out without
    /// asking whether it is granted.
    pub open spec fn force(self, op: LockOp) -> Self {
        match op {
            LockOp::Lock => self.with_holder(),
            LockOp::Unlock(id) => self.without_holder(id),
            LockOp::Abandon(id) => self.abandoned(id),
        }
    }

    /// The state after a request: carried out if granted, without any
    /// effect otherwise (the caller of a refused `Lock` waits and asks
    /// again).
    pub open spec fn step(self, op: LockOp) -> Self {
        if self.grants(op) {
            self.force(op)
        } else {
            self
        }
    }

    /// The state after the requests of `ops` took effect in order.
    pub open spec fn run(self, ops: Seq<LockOp>) -> Self
        decreases ops.len(),
    {
        if ops.len() == 0 {
            self
        } else {
            self.step(ops[0]).run(ops.drop_first())
        }
    }

    /// How many of the `Lock` requests of `ops` are granted when the
    /// requests take effect in order.
    pub open spec fn acquisitions(self, ops: Seq<LockOp>) -> nat
        decreases ops.len(),
    {
        if ops.len() == 0 {
            0
        } else {
            let rest = self.step(ops[0]).acquisitions(ops.drop_first());
            if ops[0] is Lock && self.grants(ops[0]) {
                rest + 1
            } else {
                rest
            }
        }
    }

    /// How many guards are given back when the requests of `ops` take
    /// effect in order.
    pub open spec fn releases(self, ops: Seq<LockOp>) -> nat
        decreases ops.len(),
    {
        if ops.len() == 0 {
            0
        } else {
            let rest = self.step(ops[0]).releases(ops.drop_first());
            if !(ops[0] is Lock) && self.grants(ops[0]) {
                rest + 1
            } else {
                rest
            }
        }
    }
}

/// Token for holding the lock of a `Mutex`.
///
/// Guards cannot be copied or built by callers; giving one back consumes it.
pub struct MutexGuard {
    name: Ghost<nat>,
}

impl MutexGuard {
    /// The name under which the lock knows this guard.
    pub closed spec fn id(&self) -> nat {
        self.name@
    }
}

/// The answer to an attempt to take the lock.
pub enum LockAttempt {
    /// The lock was free and is now held by the bearer of this guard.
    Acquired(MutexGuard),
    /// The lock is held: the caller waits and asks again.
    MustWait,
}

/// How a scoped critical section ended.
#[derive(Clone, Copy, Debug, PartialEq, Eq, Structural)]
pub enum SectionEnd {
    /// The section ran to its end and its result became the payload.
    Completed,
    /// The section ran and ended abnormally: the payload is as it was, and
    /// the lock is poisoned.
    Abandoned,
    /// The lock was held, so the section did not run: the caller waits and
    /// asks again.
    MustWait,
}

/// A value that one thread of control at a time may access.
///
/// The lock decides; it does not wait. A caller that is told `MustWait`
/// suspends itself in whatever way its scheduler offers and asks again.
/// A critical section that ends abnormally gives its guard back through
/// `abandon`, which releases the lock and poisons it; a poisoned lock
/// answers every further attempt with `LockPoisoned` and grants no access.
pub struct Mutex<T> {
    payload: T,
    state: LockState,
    poisoned: bool,
    holders: Ghost<Set<nat>>,
    minted: Ghost<nat>,
}

impl<T> View for Mutex<T> {
    type V = LockView<T>;

    closed spec fn view(&self) -> LockView<T> {
        LockView {
            payload: self.payload,
            holders: self.holders@,
            poisoned: self.poisoned,
            minted: self.minted@,
        }
    }
}

impl<T> Mutex<T> {
    /// The lock state that the lock has recorded.
    pub closed spec fn recorded(&self) -> LockState {
        self.state
    }

    /// Mutual exclusion holds and the recorded lock state is the one that
    /// the outstanding guards amount to.
    pub open spec fn wf(&self) -> bool {
        &&& self@.wf()
        &&& self.recorded() == self@.state()
    }

    /// Wraps `value` in an unlocked lock.
    pub fn construct(value: T) -> (lock: Mutex<T>)
        ensures
            lock.wf(),
            lock@ == LockView::fresh(value),
    {
        Mutex {
            payload: value,
            state: LockState::Unlocked,
            poisoned: false,
            holders: Ghost(Set::empty()),
            minted: Ghost(0nat),
        }
    }

    /// The current lock state.
    pub fn lock_state(&self) -> (state: LockState)
        requires
            self.wf(),
        ensures
            state == self@.state(),
    {
        self.state
    }

    /// Whether a holder abandoned its critical section.
    pub fn is_poisoned(&self) -> (poisoned: bool)
        ensures
            poisoned == self@.poisoned,
    {
        self.poisoned
    }

    /// Tries to take the lock.
    ///
    /// A free lock is granted and becomes held. A held lock answers
    /// `MustWait`, a poisoned one fails with `LockPoisoned`; neither changes
    /// anything.
    pub fn lock(&mut self) -> (answer: Result<LockAttempt, AccessError>)
        requires
            old(self).wf(),
        ensures
            final(self).wf(),
            final(self)@ == old(self)@.step(LockOp::Lock),
            match answer {
                Ok(LockAttempt::Acquired(guard)) => old(self)@.grants_lock() && guard.id() == old(
                    self,
                )@.minted,
                Ok(LockAttempt::MustWait) => !old(self)@.poisoned && old(self)@.state()
                    == LockState::Locked,
                Err(error) => old(self)@.poisoned && error == AccessError::LockPoisoned,
            },
    {
        if self.poisoned {
            return Err(AccessError::LockPoisoned);
        }
        match self.state {
            LockState::Locked => Ok(LockAttempt::MustWait),
            LockState::Unlocked => {
                let ghost name = self.minted@;
                self.state = LockState::Locked;
                self.holders = Ghost(self.holders@.insert(name));
                self.minted = Ghost(name + 1);
                Ok(LockAttempt::Acquired(MutexGuard { name: Ghost(name) }))
            },
        }
    }

    /// Gives the guard back at the end of a critical section; the lock is
    /// unlocked afterwards.
    pub fn unlock(&mut self, guard: MutexGuard)
        requires
            old(self).wf(),
            old(self)@.holders.contains(guard.id()),
        ensures
            final(self).wf(),
            final(self)@ == old(self)@.without_holder(guard.id()),
            final(self)@ == old(self)@.step(LockOp::Unlock(guard.id())),
            final(self)@.state() == LockState::Unlocked,
    {
        self.state = LockState::Unlocked;
        self.holders = Ghost(self.holders@.remove(guard.id()));
    }

    /// Gives the guard back from a critical section that ended abnormally:
    /// the lock is unlocked afterwards, and poisoned.
    pub fn abandon(&mut self, guard: MutexGuard)
        requires
            old(self).wf(),
            old(self)@.holders.contains(guard.id()),
        ensures
            final(self).wf(),
            final(self)@ == old(self)@.abandoned(guard.id()),
            final(self)@ == old(self)@.step(LockOp::Abandon(guard.id())),
            final(self)@.state() == LockState::Unlocked,
    {
        self.state = LockState::Unlocked;
        self.poisoned = true;
        self.holders = Ghost(self.holders@.remove(guard.id()));
    }

    /// Runs `section` as a critical section on the payload, if the lock is
    /// free, and releases the lock on every way out of it.
    ///
    /// The section reads the payload and returns its replacement, or `None`
    /// to say that it ended abnormally; the lock is then released all the
    /// same, the payload stays as it was and the lock is poisoned.
    pub fn with_lock<F: FnOnce(&T) -> Option<T>>(&mut self, section: F) -> (end: Result<
        SectionEnd,
        AccessError,
    >)
        requires
            old(self).wf(),
            old(self)@.grants_lock() ==> section.requires((&old(self)@.payload,)),
        ensures
            final(self).wf(),
            final(self)@.state() == old(self)@.state(),
            match end {
                Ok(SectionEnd::Completed) => {
                    &&& old(self)@.grants_lock()
                    &&& section.ensures((&old(self)@.payload,), Some(final(self)@.payload))
                    &&& final(self)@ == old(self)@.with_holder().with_payload(
                        final(self)@.payload,
                    ).without_holder(old(self)@.minted)
                },
                Ok(SectionEnd::Abandoned) => {
                    &&& old(self)@.grants_lock()
                    &&& section.ensures((&old(self)@.payload,), None)
                    &&& final(self)@ == old(self)@.with_holder().abandoned(old(self)@.minted)
                },
                Ok(SectionEnd::MustWait) => {
                    &&& !old(self)@.poisoned
                    &&& old(self)@.state() == LockState::Locked
                    &&& final(self)@ == old(self)@
                },
                Err(error) => {
                    &&& old(self)@.poisoned
                    &&& error == AccessError::LockPoisoned
                    &&& final(self)@ == old(self)@
                },
            },
    {
        match self.lock() {
            Err(error) => Err(error),
            Ok(LockAttempt::MustWait) => Ok(SectionEnd::MustWait),
            Ok(LockAttempt::Acquired(guard)) => {
                match section(self.get(&guard)) {
                    Some(value) => {
                        self.set(&guard, value);
                        self.unlock(guard);
                        Ok(SectionEnd::Completed)
                    },
                    None => {
                        self.abandon(guard);
                        Ok(SectionEnd::Abandoned)
                    },
                }
            },
        }
    }

    /// Reads the payload while holding the lock.
    pub fn get(&self, guard: &MutexGuard) -> (value: &T)
        requires
            self.wf(),
            self@.holders.contains(guard.id()),
        ensures
            *value == self@.payload,
    {
        &self.payload
    }

    /// Replaces the payload while holding the lock.
    pub fn set(&mut self, guard: &MutexGuard, value: T)
        requires
            old(self).wf(),
            old(self)@.holders.contains(guard.id()),
        ensures
            final(self).wf(),
            final(self)@ == old(self)@.with_payload(value),
    {
        self.payload = value;
    }
}

/// Every request, granted or not, keeps mutual exclusion, and none touches
/// the payload.
pub proof fn lemma_step_keeps_exclusion<T>(state: LockView<T>, op: LockOp)
    requires
        state.wf(),
    ensures
        state.step(op).wf(),
        state.step(op).payload == state.payload,
{
}

/// On a lock that is not poisoned, an attempt to take the lock is refused
/// exactly when granting it would put a second holder beside the first.
pub proof fn lemma_lock_refused_iff_held<T>(state: LockView<T>)
    requires
        state.wf(),
        !state.poisoned,
    ensures
        state.grants(LockOp::Lock) <==> state.force(LockOp::Lock).exclusion(),
        !state.grants(LockOp::Lock) ==> state.step(LockOp::Lock) == state,
{
}

/// Giving the guard back, in good order or not, leaves the lock unlocked
/// after that single step.
pub proof fn lemma_release_unlocks<T>(state: LockView<T>, id: nat)
    requires
        state.wf(),
        state.holders.contains(id),
    ensures
        state.step(LockOp::Unlock(id)).state() == LockState::Unlocked,
        state.step(LockOp::Abandon(id)).state() == LockState::Unlocked,
        state.step(LockOp::Unlock(id)).poisoned == state.poisoned,
        state.step(LockOp::Abandon(id)).poisoned,
{
}

/// For every sequence of lock attempts and releases by any number of
/// threads, in the order in which they take effect: at most one guard is
/// outstanding afterwards, and the outstanding guards are those granted
/// and not yet given back.
pub proof fn lemma_exclusion_always_holds<T>(state: LockView<T>, ops: Seq<LockOp>)
    requires
        state.wf(),
    ensures
        state.run(ops).wf(),
        state.run(ops).exclusion(),
        state.run(ops).payload == state.payload,
        state.run(ops).holders.len() + state.releases(ops) == state.holders.len()
            + state.acquisitions(ops),
    decreases ops.len(),
{
    if ops.len() > 0 {
        lemma_step_keeps_exclusion(state, ops[0]);
        lemma_exclusion_always_holds(state.step(ops[0]), ops.drop_first());
    }
}

/// When any number of threads contend for a free lock, exactly one attempt
/// is granted, the first to take effect, and the others find it locked.
pub proof fn lemma_one_winner<T>(state: LockView<T>, ops: Seq<LockOp>)
    requires
        state.wf(),
        state.grants_lock(),
        ops.len() > 0,
        forall|i: int| 0 <= i < ops.len() ==> ops[i] is Lock,
    ensures
        state.acquisitions(ops) == 1,
        state.run(ops) == state.with_holder(),
        state.run(ops).state() == LockState::Locked,
{
    let held = state.step(ops[0]);
    lemma_held_lock_turns_all_away(held, ops.drop_first());
}

/// While the lock is held or poisoned, no attempt to take it is granted and
/// none has any effect.
pub proof fn lemma_held_lock_turns_all_away<T>(state: LockView<T>, ops: Seq<LockOp>)
    requires
        state.wf(),
        !state.grants_lock(),
        forall|i: int| 0 <= i < ops.len() ==> ops[i] is Lock,
    ensures
        state.acquisitions(ops) == 0,
        state.run(ops) == state,
    decreases ops.len(),
{
    if ops.len() > 0 {
        lemma_held_lock_turns_all_away(state, ops.drop_first());
    }
}

} // verus!
