//! Cancellation handles: open/closed state, owned child subscriptions, and
//! an idempotent `unsubscribe`.

use vstd::prelude::*;

verus! {

/// A cancellation handle. `unsubscribe` moves it to the closed state and is
/// idempotent: on an already-closed handle it changes nothing at all, so it
/// is safe to invoke any number of times.
pub trait SubscriptionLike: Sized {
    /// Whether this handle has been cancelled.
    spec fn closed_spec(self) -> bool;

    /// Whether everything this handle owned for later cancellation - its
    /// child subscriptions - has been released.
    spec fn released_spec(self) -> bool;

    /// Cancel the handle. After the call it is closed and everything it
    /// owned is released; cancelling an already-closed handle leaves it
    /// exactly as it was.
    fn unsubscribe(&mut self)
        ensures
            final(self).closed_spec(),
            !old(self).closed_spec() ==> final(self).released_spec(),
            old(self).closed_spec() ==> *final(self) == *old(self),
    ;

    /// Whether this handle has been cancelled; a pure query.
    fn is_closed(&self) -> (r: bool)
        ensures
            r == self.closed_spec(),
    ;
}

/// The cancellation handle of a single-threaded pipeline: an unguarded flag,
/// as no other thread can ever observe it, plus the child subscriptions this
/// handle owns. Cancelling the handle releases every child it encloses, so
/// none of them can drive any further delivery.
pub struct LocalSubscription {
    /// Whether the subscription has been cancelled.
    pub closed: bool,
    /// The child subscriptions this handle owns; cancelled along with it.
    pub children: Vec<LocalSubscription>,
}

impl LocalSubscription {
    /// A fresh, open handle enclosing no children.
    pub fn new() -> (r: Self)
        ensures
            !r.closed,
            r.children@ == Seq::<LocalSubscription>::empty(),
    {
        LocalSubscription { closed: false, children: Vec::new() }
    }

    /// Enclose `child`: cancelling `self` will cancel it too. Handing a
    /// child to an already-cancelled handle cancels it at once, by
    /// releasing it.
    pub fn add_child(&mut self, child: LocalSubscription)
        ensures
            final(self).closed == old(self).closed,
            !old(self).closed ==> final(self).children@ == old(self).children@.push(child),
            old(self).closed ==> *final(self) == *old(self),
    {
        if !self.closed {
            self.children.push(child);
        }
    }
}

impl SubscriptionLike for LocalSubscription {
    open spec fn closed_spec(self) -> bool {
        self.closed
    }

    open spec fn released_spec(self) -> bool {
        self.children@.len() == 0
    }

    fn unsubscribe(&mut self) {
        if !self.closed {
            self.closed = true;
            // Releasing the enclosed children cancels them: each is owned
            // here alone, so nothing can reach one to drive it again.
            self.children.clear();
        }
    }

    fn is_closed(&self) -> (r: bool) {
        self.closed
    }
}

/// The cancellation handle of a thread-safe pipeline. It upholds the same
/// contract as [`LocalSubscription`]; what the Shared variant adds is the
/// obligation, enforced where a pipeline is converted, that every object in
/// the chain may be transferred to and invoked from another thread.
pub struct SharedSubscription {
    /// Whether the subscription has been cancelled.
    pub closed: bool,
    /// The child subscriptions this handle owns; cancelled along with it.
    pub children: Vec<SharedSubscription>,
}

impl SharedSubscription {
    /// A fresh, open handle enclosing no children.
    pub fn new() -> (r: Self)
        ensures
            !r.closed,
            r.children@ == Seq::<SharedSubscription>::empty(),
    {
        SharedSubscription { closed: false, children: Vec::new() }
    }

    /// Enclose `child`: cancelling `self` will cancel it too. Handing a
    /// child to an already-cancelled handle cancels it at once, by
    /// releasing it.
    pub fn add_child(&mut self, child: SharedSubscription)
        ensures
            final(self).closed == old(self).closed,
            !old(self).closed ==> final(self).children@ == old(self).children@.push(child),
            old(self).closed ==> *final(self) == *old(self),
    {
        if !self.closed {
            self.children.push(child);
        }
    }
}

impl SubscriptionLike for SharedSubscription {
    open spec fn closed_spec(self) -> bool {
        self.closed
    }

    open spec fn released_spec(self) -> bool {
        self.children@.len() == 0
    }

    fn unsubscribe(&mut self) {
        if !self.closed {
            self.closed = true;
            self.children.clear();
        }
    }

    fn is_closed(&self) -> (r: bool) {
        self.closed
    }
}

} // verus!
