//! The thread-safe realization of the protocol.
//!
//! Both realizations share one source of truth: a pipeline's `emits`
//! sequence and the delivery fold over it. The Shared variant adds no
//! forwarding logic of its own; it only demands, at the point a pipeline is
//! converted, that every stage already in the chain may be transferred to
//! and invoked from another thread, and hands out the thread-safe
//! cancellation handle.

use vstd::prelude::*;
use crate::event::Event;
use crate::observer::{deliver, Observer, ObserverModel};
use crate::observable::{IterObservable, Observable, ThrowObservable};
use crate::ops::skip::{lemma_skip_deliver, SkipObserver, SkipOp};
use crate::subscriber::Subscriber;
use crate::subscription::{SharedSubscription, SubscriptionLike};

verus! {

/// A pipeline definition converted to the thread-safe variant. The wrapped
/// definition is unchanged: what a subscriber receives is exactly what it
/// would receive from the local pipeline.
pub struct Shared<S> {
    /// The pipeline definition the conversion was applied to.
    pub source: S,
}

/// A pipeline whose every stage may be handed across threads and driven
/// from any of them. The obligations are checked where a pipeline is
/// converted or subscribed - at construction time, not at run time - and
/// delivery follows the very same `emits` sequence as the local variant.
pub trait SharedObservable: Observable + Send + Sync + 'static {
    /// Drive delivery into a thread-safe subscriber: every event of
    /// `emits`, in order, unless the subscription was already cancelled.
    fn shared_subscribe<O: Observer<Self::Item, Self::Error> + Send + Sync + 'static>(
        self,
        subscriber: Subscriber<O, SharedSubscription>,
    ) -> (out: Subscriber<O, SharedSubscription>)
        ensures
            out.subscription == subscriber.subscription,
            subscriber.subscription.closed_spec() ==> out.observer == subscriber.observer,
            !subscriber.subscription.closed_spec() ==> out.observer.model() == deliver(
                subscriber.observer.model(),
                self.emits(),
            ),
    ;

    /// Convert this pipeline to the thread-safe variant. The definition is
    /// kept as it is, so forwarding semantics are preserved.
    fn to_shared(self) -> (r: Shared<Self>)
        ensures
            r.source == self,
    {
        Shared { source: self }
    }
}

impl<S: SharedObservable> Shared<S> {
    /// Subscribe `observer` with a fresh, open thread-safe subscription: it
    /// receives exactly the events the wrapped definition emits.
    pub fn subscribe<O: Observer<S::Item, S::Error> + Send + Sync + 'static>(
        self,
        observer: O,
    ) -> (out: Subscriber<O, SharedSubscription>)
        ensures
            !out.subscription.closed,
            out.observer.model() == deliver(observer.model(), self.source.emits()),
    {
        self.source.shared_subscribe(Subscriber::shared(observer))
    }
}

/// Converting a pipeline to the Shared variant preserves forwarding
/// semantics: from the same initial observer state, subscribing the
/// converted pipeline reaches exactly the observer state the local
/// pipeline would reach, whatever the pipeline and whatever the observer.
pub proof fn lemma_shared_preserves_forwarding<S: SharedObservable, M: ObserverModel<
    S::Item,
    S::Error,
>>(definition: S, converted: Shared<S>, m: M)
    requires
        converted.source == definition,
    ensures
        deliver(m, converted.source.emits()) == deliver(m, definition.emits()),
{
}

impl<Item: Send + Sync + 'static> SharedObservable for IterObservable<Item> {
    fn shared_subscribe<O: Observer<Item, ()> + Send + Sync + 'static>(
        self,
        subscriber: Subscriber<O, SharedSubscription>,
    ) -> (out: Subscriber<O, SharedSubscription>) {
        crate::observable::deliver_items(self.items, subscriber)
    }
}

impl<Item: Send + Sync + 'static, E: Send + Sync + 'static> SharedObservable for ThrowObservable<
    Item,
    E,
> {
    fn shared_subscribe<O: Observer<Item, E> + Send + Sync + 'static>(
        self,
        subscriber: Subscriber<O, SharedSubscription>,
    ) -> (out: Subscriber<O, SharedSubscription>) {
        crate::observable::deliver_error(self.err, subscriber)
    }
}

impl<S: SharedObservable> SharedObservable for SkipOp<S> {
    fn shared_subscribe<O: Observer<S::Item, S::Error> + Send + Sync + 'static>(
        self,
        subscriber: Subscriber<O, SharedSubscription>,
    ) -> (out: Subscriber<O, SharedSubscription>) {
        let SkipOp { source, count } = self;
        let Subscriber { observer, subscription } = subscriber;
        let proxy_subscription = SharedSubscription {
            closed: subscription.closed,
            children: Vec::new(),
        };
        let inner = Subscriber {
            observer: SkipObserver {
                observer,
                subscription: proxy_subscription,
                count,
                hits: 0,
            },
            subscription,
        };
        let ghost m = inner.observer.model();
        let delivered = source.shared_subscribe(inner);
        proof {
            if !subscriber.subscription.closed_spec() {
                lemma_skip_deliver(m, source.emits());
            }
        }
        let Subscriber { observer: proxy, subscription } = delivered;
        Subscriber { observer: proxy.observer, subscription }
    }
}

} // verus!
