//! The attachment point of a subscribe call: an observer paired with a
//! cancellation handle.

use vstd::prelude::*;
use crate::subscription::{LocalSubscription, SharedSubscription, SubscriptionLike};

verus! {

/// An observer paired with the subscription that cancels its deliveries.
/// One is constructed per subscribe call and returned from it, so the caller
/// keeps both the cancellation handle and the observer's final state.
pub struct Subscriber<O, U> {
    /// The event sink driven by the pipeline.
    pub observer: O,
    /// The cancellation handle owned by this subscription.
    pub subscription: U,
}

impl<O> Subscriber<O, LocalSubscription> {
    /// A fresh single-threaded subscriber around `observer`, not yet
    /// cancelled.
    pub fn local(observer: O) -> (r: Self)
        ensures
            r.observer == observer,
            !r.subscription.closed,
            r.subscription.children@ == Seq::<LocalSubscription>::empty(),
    {
        Subscriber { observer, subscription: LocalSubscription::new() }
    }
}

impl<O> Subscriber<O, SharedSubscription> {
    /// A fresh thread-safe subscriber around `observer`, not yet cancelled.
    pub fn shared(observer: O) -> (r: Self)
        ensures
            r.observer == observer,
            !r.subscription.closed,
            r.subscription.children@ == Seq::<SharedSubscription>::empty(),
    {
        Subscriber { observer, subscription: SharedSubscription::new() }
    }
}

impl<O, U: SubscriptionLike> SubscriptionLike for Subscriber<O, U> {
    open spec fn closed_spec(self) -> bool {
        self.subscription.closed_spec()
    }

    open spec fn released_spec(self) -> bool {
        self.subscription.released_spec()
    }

    fn unsubscribe(&mut self) {
        self.subscription.unsubscribe();
    }

    fn is_closed(&self) -> (r: bool) {
        let r = self.subscription.is_closed();
        proof {
            assert(r == self.subscription.closed_spec());
            assert(self.closed_spec() == self.subscription.closed_spec());
        }
        r
    }
}

} // verus!
