use vstd::prelude::*;
use crate::owner::Owner;
use crate::counted::CountedView;

verus! {

/// A claim on the payload of one `SharedCounted` allocation.
///
/// Handles cannot be copied or built by callers: the only ways to get one
/// are `SharedCounted::construct` and `SharedCounted::clone_handle`, and
/// `SharedCounted::drop_handle` consumes it.
pub struct SharedHandle {
    name: Ghost<nat>,
}

impl SharedHandle {
    /// The name under which the allocation knows this handle.
    pub closed spec fn id(&self) -> nat {
        self.name@
    }
}

/// Shared ownership of an immutable payload within one thread of control.
///
/// The value stands for the allocation: it holds the payload and the count,
/// and every operation names the handle it is performed through. It must
/// not be shared between threads of control; `AtomicSharedCounted` is the
/// variant meant for that.
pub struct SharedCounted<T> {
    payload: Owner<T>,
    count: usize,
    live: Ghost<Set<nat>>,
    minted: Ghost<nat>,
}

impl<T> View for SharedCounted<T> {
    type V = CountedView<T>;

    closed spec fn view(&self) -> CountedView<T> {
        CountedView {
            payload: self.payload@,
            count: self.count as nat,
            live: self.live@,
            minted: self.minted@,
        }
    }
}

impl<T> SharedCounted<T> {
    /// The allocation's bookkeeping is consistent (see `CountedView::wf`).
    pub open spec fn wf(&self) -> bool {
        self@.wf()
    }

    /// Whether `handle` is a live handle of this allocation.
    pub open spec fn is_live(&self, handle: &SharedHandle) -> bool {
        self@.live.contains(handle.id())
    }

    /// Allocates `value` with a count of one and returns its first handle.
    pub fn construct(value: T) -> (made: (SharedCounted<T>, SharedHandle))
        ensures
            made.0.wf(),
            made.0@ == CountedView::fresh(value),
            made.1.id() == 0,
    {
        let ghost fresh = CountedView::fresh(value);
        let block = SharedCounted {
            payload: Owner::construct(value),
            count: 1,
            live: Ghost(fresh.live),
            minted: Ghost(fresh.minted),
        };
        (block, SharedHandle { name: Ghost(0nat) })
    }

    /// Increments the count by one and returns a new handle to the same
    /// payload.
    pub fn clone_handle(&mut self, source: &SharedHandle) -> (handle: SharedHandle)
        requires
            old(self).wf(),
            old(self).is_live(source),
            old(self)@.count < usize::MAX,
        ensures
            final(self).wf(),
            final(self)@ == old(self)@.cloned(),
            handle.id() == old(self)@.minted,
    {
        let ghost name = self.minted@;
        self.count = self.count + 1;
        self.live = Ghost(self.live@.insert(name));
        self.minted = Ghost(name + 1);
        SharedHandle { name: Ghost(name) }
    }

    /// Drops `handle`: decrements the count by one and destroys the payload
    /// if that takes the count to zero. Returns whether it did.
    pub fn drop_handle(&mut self, handle: SharedHandle) -> (destroyed: bool)
        requires
            old(self).wf(),
            old(self).is_live(&handle),
        ensures
            final(self).wf(),
            final(self)@ == old(self)@.dropped(handle.id()),
            destroyed == old(self)@.last_handle(),
    {
        self.count = self.count - 1;
        self.live = Ghost(self.live@.remove(handle.id()));
        if self.count == 0 {
            let _ = self.payload.move_out();
            true
        } else {
            false
        }
    }

    /// The current count, exact under single-threaded use.
    pub fn strong_count(&self, handle: &SharedHandle) -> (count: usize)
        requires
            self.wf(),
            self.is_live(handle),
        ensures
            count == self@.count,
            count == self@.live.len(),
            count >= 1,
    {
        self.count
    }

    /// Reads the payload through a live handle.
    pub fn get(&self, handle: &SharedHandle) -> (value: &T)
        requires
            self.wf(),
            self.is_live(handle),
        ensures
            self@.payload == Some(*value),
    {
        self.payload.get().unwrap()
    }
}

} // verus!
