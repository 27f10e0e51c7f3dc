//! The `Observable` behavior: driving delivery of a stream of events to a
//! subscriber, together with two finite sources.

use vstd::prelude::*;
use crate::event::{nexts, well_formed, Event};
use crate::event::lemma_nexts_then_terminal_well_formed;
use crate::observer::{apply_event, deliver, lemma_deliver_push, Observer, ObserverModel};
use crate::subscriber::Subscriber;
use crate::subscription::{LocalSubscription, SubscriptionLike};

verus! {

/// A behavior that, given a subscriber, drives delivery of zero or more
/// `next` events followed by at most one terminal event, and returns the
/// subscriber as the cancellation handle.
///
/// `emits` is the pipeline's whole observable behavior: the event sequence
/// it delivers to any subscriber whose subscription is still open. It is
/// fixed by the pipeline definition alone, so subscribing the same
/// definition twice gives two independent deliveries of the same sequence.
pub trait Observable: Sized {
    /// The payload type flowing through this pipeline.
    type Item;

    /// The error type flowing through this pipeline.
    type Error;

    /// The event sequence this pipeline delivers to an open subscriber.
    spec fn emits(self) -> Seq<Event<Self::Item, Self::Error>>;

    /// Protocol obligation: what is delivered is zero or more `Next` events
    /// followed by at most one terminal event, so no observer ever receives
    /// a second terminal event or a payload after termination.
    proof fn emits_well_formed(self)
        ensures
            well_formed(self.emits()),
    ;

    /// Drive delivery into `subscriber`: every event of `emits`, in order,
    /// unless the subscription was already cancelled, in which case the
    /// observer is not invoked at all. Returns the subscriber, which is the
    /// cancellation handle of this subscription.
    fn actual_subscribe<O: Observer<Self::Item, Self::Error>>(
        self,
        subscriber: Subscriber<O, LocalSubscription>,
    ) -> (out: Subscriber<O, LocalSubscription>)
        ensures
            out.subscription == subscriber.subscription,
            subscriber.subscription.closed_spec() ==> out.observer == subscriber.observer,
            !subscriber.subscription.closed_spec() ==> out.observer.model() == deliver(
                subscriber.observer.model(),
                self.emits(),
            ),
    ;

    /// Subscribe `observer` with a fresh, open subscription: it receives
    /// exactly the events of `emits`.
    fn subscribe<O: Observer<Self::Item, Self::Error>>(self, observer: O) -> (out: Subscriber<
        O,
        LocalSubscription,
    >)
        ensures
            !out.subscription.closed,
            out.observer.model() == deliver(observer.model(), self.emits()),
    {
        self.actual_subscribe(Subscriber::local(observer))
    }
}

/// Forking: one pipeline definition may be subscribed more than once, and
/// each subscription's outcome is a function of the definition and of that
/// subscription's own observer alone. Two forks of one definition therefore
/// deliver the same full event sequence, each to its own observer, as if
/// the other subscription did not exist.
pub proof fn lemma_fork_independent<
    S: Observable,
    M1: ObserverModel<S::Item, S::Error>,
    M2: ObserverModel<S::Item, S::Error>,
>(definition: S, fork1: S, fork2: S, m1: M1, m2: M2)
    requires
        fork1 == definition,
        fork2 == definition,
    ensures
        deliver(m1, fork1.emits()) == deliver(m1, definition.emits()),
        deliver(m2, fork2.emits()) == deliver(m2, definition.emits()),
{
}

/// Hand every item of `items`, then completion, to `subscriber`'s observer,
/// unless its subscription is already cancelled. Both concurrency variants
/// of the finite-sequence source run this one delivery loop.
pub(crate) fn deliver_items<Item, E, O: Observer<Item, E>, U: SubscriptionLike>(
    items: Vec<Item>,
    subscriber: Subscriber<O, U>,
) -> (out: Subscriber<O, U>)
    ensures
        out.subscription == subscriber.subscription,
        subscriber.subscription.closed_spec() ==> out.observer == subscriber.observer,
        !subscriber.subscription.closed_spec() ==> out.observer.model() == deliver(
            subscriber.observer.model(),
            nexts::<Item, E>(items@).push(Event::Complete),
        ),
{
    if subscriber.is_closed() {
        return subscriber;
    }
    let Subscriber { mut observer, subscription } = subscriber;
    let ghost m0 = observer.model();
    let ghost all = items@;
    let mut rest = items;
    let ghost mut done: Seq<Item> = Seq::empty();
    proof {
        assert(all =~= done + rest@);
    }
    while rest.len() > 0
        invariant
            all == done + rest@,
            observer.model() == deliver(m0, nexts::<Item, E>(done)),
        decreases rest.len(),
    {
        let v = rest.remove(0);
        proof {
            lemma_deliver_push(m0, nexts::<Item, E>(done), Event::<Item, E>::Next(v));
            assert(nexts::<Item, E>(done.push(v)) =~= nexts::<Item, E>(done).push(
                Event::<Item, E>::Next(v),
            ));
            done = done.push(v);
            assert(all =~= done + rest@);
        }
        observer.next(v);
    }
    proof {
        assert(done =~= all);
        lemma_deliver_push(m0, nexts::<Item, E>(done), Event::<Item, E>::Complete);
    }
    observer.complete();
    Subscriber { observer, subscription }
}

/// Hand the one terminal error `err` to `subscriber`'s observer, unless its
/// subscription is already cancelled. Both concurrency variants of the
/// erring source run this one delivery.
pub(crate) fn deliver_error<Item, E, O: Observer<Item, E>, U: SubscriptionLike>(
    err: E,
    subscriber: Subscriber<O, U>,
) -> (out: Subscriber<O, U>)
    ensures
        out.subscription == subscriber.subscription,
        subscriber.subscription.closed_spec() ==> out.observer == subscriber.observer,
        !subscriber.subscription.closed_spec() ==> out.observer.model() == deliver(
            subscriber.observer.model(),
            seq![Event::<Item, E>::Error(err)],
        ),
{
    if subscriber.is_closed() {
        return subscriber;
    }
    let Subscriber { mut observer, subscription } = subscriber;
    let ghost m0 = observer.model();
    let ghost events = seq![Event::<Item, E>::Error(err)];
    proof {
        assert(events[0] == Event::<Item, E>::Error(err));
        assert(events.drop_first() =~= Seq::<Event<Item, E>>::empty());
        assert(deliver(m0, events) == deliver(apply_event(m0, events[0]), events.drop_first()));
        assert(deliver(apply_event(m0, events[0]), events.drop_first()) == apply_event(
            m0,
            events[0],
        ));
    }
    observer.error(err);
    Subscriber { observer, subscription }
}

/// A source that synchronously emits a finite sequence of payloads in order
/// and then completes. Its error type is `()`: it never errs.
#[derive(Clone)]
pub struct IterObservable<Item> {
    /// The payloads, in emission order.
    pub items: Vec<Item>,
}

/// The source that emits each element of `items` in order, then completes.
pub fn from_iter<Item>(items: Vec<Item>) -> (r: IterObservable<Item>)
    ensures
        r == (IterObservable { items }),
{
    IterObservable { items }
}

impl<Item> Observable for IterObservable<Item> {
    type Item = Item;

    type Error = ();

    open spec fn emits(self) -> Seq<Event<Item, ()>> {
        nexts::<Item, ()>(self.items@).push(Event::Complete)
    }

    proof fn emits_well_formed(self) {
        lemma_nexts_then_terminal_well_formed(self.items@, Event::<Item, ()>::Complete);
    }

    fn actual_subscribe<O: Observer<Item, ()>>(
        self,
        subscriber: Subscriber<O, LocalSubscription>,
    ) -> (out: Subscriber<O, LocalSubscription>) {
        deliver_items(self.items, subscriber)
    }
}

/// A source that emits no payload and terminates at once with the one error
/// it was built from.
pub struct ThrowObservable<Item, E> {
    /// The terminal error handed to every subscriber.
    pub err: E,
    /// The payload type never produced.
    pub phantom: core::marker::PhantomData<Item>,
}

/// The source that terminates at once with the error `err`.
pub fn throw<Item, E>(err: E) -> (r: ThrowObservable<Item, E>)
    ensures
        r.err == err,
{
    ThrowObservable { err, phantom: core::marker::PhantomData }
}

impl<Item, E> Observable for ThrowObservable<Item, E> {
    type Item = Item;

    type Error = E;

    open spec fn emits(self) -> Seq<Event<Item, E>> {
        seq![Event::Error(self.err)]
    }

    proof fn emits_well_formed(self) {
    }

    fn actual_subscribe<O: Observer<Item, E>>(
        self,
        subscriber: Subscriber<O, LocalSubscription>,
    ) -> (out: Subscriber<O, LocalSubscription>) {
        deliver_error(self.err, subscriber)
    }
}

} // verus!
