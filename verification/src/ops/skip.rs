//! The count-based skip operator: the canonical transformation stage every
//! other operator structurally matches.
//!
//! Configuration (`count`) is fixed at pipeline-build time and shared,
//! read-only, by every subscription of the pipeline; progress (`hits`) is
//! allocated fresh on each subscribe, which is what makes independent
//! re-subscription of one definition possible.

use vstd::prelude::*;
use crate::event::{nexts, well_formed, Event};
use crate::observer::{
    apply_event, deliver, lemma_deliver_cons, CollectModel, Observer, ObserverModel,
};
use crate::observer::lemma_collect_deliver;
use crate::subscriber::Subscriber;
use crate::subscription::{LocalSubscription, SubscriptionLike};
use crate::observable::Observable;

verus! {

/// The progress counter after one more payload has been observed: one more,
/// held at the machine limit of the stored counter, beyond which one more
/// arrival cannot be represented.
pub open spec fn next_hits(hits: nat) -> nat {
    if hits < u32::MAX as nat {
        hits + 1
    } else {
        hits
    }
}

/// The stream a skip stage with configuration `count` and progress `hits`
/// forwards downstream when `events` arrive from upstream: each payload is
/// counted on arrival and forwarded exactly when the count of payloads
/// observed so far then exceeds `count`; terminal events pass through
/// verbatim and unconditionally.
pub open spec fn skip_fwd<Item, E>(
    count: nat,
    hits: nat,
    events: Seq<Event<Item, E>>,
) -> Seq<Event<Item, E>>
    decreases events.len(),
{
    if events.len() == 0 {
        Seq::empty()
    } else {
        let rest = events.drop_first();
        match events[0] {
            Event::Next(v) => if next_hits(hits) > count {
                seq![Event::<Item, E>::Next(v)] + skip_fwd(count, next_hits(hits), rest)
            } else {
                skip_fwd(count, next_hits(hits), rest)
            },
            Event::Error(err) => seq![Event::<Item, E>::Error(err)] + skip_fwd(count, hits, rest),
            Event::Complete => seq![Event::<Item, E>::Complete] + skip_fwd(count, hits, rest),
        }
    }
}

/// The tail of `items` once the first `count` are discarded; all of them
/// when there are no more than `count`.
pub open spec fn tail_from<Item>(items: Seq<Item>, count: nat) -> Seq<Item> {
    if count <= items.len() {
        items.skip(count as int)
    } else {
        Seq::empty()
    }
}

/// A well-formed stream stays well formed when its first event is dropped.
proof fn lemma_well_formed_drop_first<Item, E>(events: Seq<Event<Item, E>>)
    requires
        well_formed(events),
        events.len() > 0,
    ensures
        well_formed(events.drop_first()),
{
    let rest = events.drop_first();
    assert forall|i: int| 0 <= i < rest.len() && (#[trigger] rest[i]).is_terminal() implies i
        == rest.len() - 1 by {
        assert(rest[i] == events[i + 1]);
    }
}

/// The skip stage respects the protocol: a well-formed upstream stream is
/// forwarded as a well-formed stream.
pub proof fn lemma_skip_fwd_well_formed<Item, E>(
    count: nat,
    hits: nat,
    events: Seq<Event<Item, E>>,
)
    requires
        well_formed(events),
    ensures
        well_formed(skip_fwd(count, hits, events)),
    decreases events.len(),
{
    reveal_with_fuel(skip_fwd, 3);
    if events.len() > 0 {
        let rest = events.drop_first();
        lemma_well_formed_drop_first(events);
        match events[0] {
            Event::Next(v) => {
                lemma_skip_fwd_well_formed(count, next_hits(hits), rest);
                if next_hits(hits) > count {
                    let out = seq![Event::<Item, E>::Next(v)] + skip_fwd(
                        count,
                        next_hits(hits),
                        rest,
                    );
                    assert forall|i: int|
                        0 <= i < out.len() && (#[trigger] out[i]).is_terminal() implies i
                        == out.len() - 1 by {
                        assert(i > 0);
                        assert(out[i] == skip_fwd(count, next_hits(hits), rest)[i - 1]);
                    }
                }
            },
            Event::Error(err) => {
                assert(events[0].is_terminal());
                assert(events.len() == 1);
                assert(rest.len() == 0);
                assert(skip_fwd(count, hits, events) =~= seq![Event::<Item, E>::Error(err)]);
            },
            Event::Complete => {
                assert(events[0].is_terminal());
                assert(events.len() == 1);
                assert(rest.len() == 0);
                assert(skip_fwd(count, hits, events) =~= seq![Event::<Item, E>::Complete]);
            },
        }
    }
}

/// The abstract state of a [`SkipObserver`]: the downstream observer's
/// state, the immutable configuration, the per-subscription progress, and
/// the carried cancellation handle, which no transition ever touches.
pub ghost struct SkipModel<M, U> {
    /// The downstream observer's state.
    pub inner: M,
    /// How many leading payloads this subscription discards.
    pub count: nat,
    /// How many payloads this subscription has observed so far, held at the
    /// machine limit of the stored counter.
    pub hits: nat,
    /// The cancellation handle the proxy carries; never invoked by the
    /// skip stage, so every transition leaves it exactly as it is.
    pub subscription: U,
}

impl<Item, E, M: ObserverModel<Item, E>, U> ObserverModel<Item, E> for SkipModel<M, U> {
    open spec fn on_next(self, value: Item) -> Self {
        if next_hits(self.hits) > self.count {
            SkipModel {
                inner: self.inner.on_next(value),
                hits: next_hits(self.hits),
                ..self
            }
        } else {
            SkipModel { hits: next_hits(self.hits), ..self }
        }
    }

    open spec fn on_error(self, err: E) -> Self {
        SkipModel { inner: self.inner.on_error(err), ..self }
    }

    open spec fn on_complete(self) -> Self {
        SkipModel { inner: self.inner.on_complete(), ..self }
    }
}

/// Pushing a stream through a skip stage and then reading the downstream
/// state is the same as delivering the forwarded stream [`skip_fwd`]
/// directly to the downstream observer; the configuration and the carried
/// cancellation handle never change.
pub proof fn lemma_skip_deliver<Item, E, M: ObserverModel<Item, E>, U>(
    m: SkipModel<M, U>,
    events: Seq<Event<Item, E>>,
)
    ensures
        deliver(m, events).inner == deliver(m.inner, skip_fwd(m.count, m.hits, events)),
        deliver(m, events).count == m.count,
        deliver(m, events).subscription == m.subscription,
    decreases events.len(),
{
    if events.len() == 0 {
        assert(deliver(m, events) == m);
        assert(skip_fwd(m.count, m.hits, events) =~= Seq::<Event<Item, E>>::empty());
        assert(deliver(m.inner, Seq::<Event<Item, E>>::empty()) == m.inner);
    } else {
        let rest = events.drop_first();
        let stepped = apply_event(m, events[0]);
        assert(deliver(m, events) == deliver(stepped, rest));
        lemma_skip_deliver(stepped, rest);
        match events[0] {
            Event::Next(v) => {
                if next_hits(m.hits) > m.count {
                    assert(stepped == (SkipModel {
                        inner: m.inner.on_next(v),
                        hits: next_hits(m.hits),
                        ..m
                    }));
                    lemma_deliver_cons(
                        m.inner,
                        Event::<Item, E>::Next(v),
                        skip_fwd(m.count, next_hits(m.hits), rest),
                    );
                } else {
                    assert(stepped == (SkipModel { hits: next_hits(m.hits), ..m }));
                }
            },
            Event::Error(err) => {
                assert(stepped == (SkipModel { inner: m.inner.on_error(err), ..m }));
                lemma_deliver_cons(
                    m.inner,
                    Event::<Item, E>::Error(err),
                    skip_fwd(m.count, m.hits, rest),
                );
            },
            Event::Complete => {
                assert(stepped == (SkipModel { inner: m.inner.on_complete(), ..m }));
                lemma_deliver_cons(
                    m.inner,
                    Event::<Item, E>::Complete,
                    skip_fwd(m.count, m.hits, rest),
                );
            },
        }
    }
}

/// Once the observed count exceeds - and, as long as it can still be
/// counted up, will keep exceeding - the configured `count`, the skip stage
/// forwards the rest of the stream unchanged.
proof fn lemma_skip_fwd_forwards_rest<Item, E>(
    count: nat,
    hits: nat,
    items: Seq<Item>,
    terminal: Event<Item, E>,
)
    requires
        terminal.is_terminal(),
        hits >= count,
        count < u32::MAX as nat,
    ensures
        skip_fwd(count, hits, nexts::<Item, E>(items).push(terminal)) == nexts::<Item, E>(
            items,
        ).push(terminal),
    decreases items.len(),
{
    reveal_with_fuel(skip_fwd, 3);
    let events = nexts::<Item, E>(items).push(terminal);
    if items.len() == 0 {
        assert(events =~= seq![terminal]);
        assert(events[0] == terminal);
        assert(events.drop_first() =~= Seq::<Event<Item, E>>::empty());
        assert(skip_fwd(count, hits, events) =~= seq![terminal]);
    } else {
        let first = items[0];
        let rest_items = items.drop_first();
        assert(events[0] == nexts::<Item, E>(items)[0]);
        assert(events[0] == Event::<Item, E>::Next(first));
        assert(events.drop_first() =~= nexts::<Item, E>(rest_items).push(terminal));
        assert(next_hits(hits) > count);
        lemma_skip_fwd_forwards_rest(count, next_hits(hits), rest_items, terminal);
        assert(seq![Event::<Item, E>::Next(first)] + nexts::<Item, E>(rest_items).push(terminal)
            =~= nexts::<Item, E>(items).push(terminal));
    }
}

/// What the skip stage forwards out of a finite source's stream: with
/// `count - hits` payloads still to discard, the tail of the payloads from
/// that point on, then the unchanged terminal event.
proof fn lemma_skip_fwd_tail_aux<Item, E>(
    count: nat,
    hits: nat,
    items: Seq<Item>,
    terminal: Event<Item, E>,
)
    requires
        terminal.is_terminal(),
        hits <= count,
        count <= u32::MAX as nat,
        count < u32::MAX as nat || items.len() <= count - hits,
    ensures
        skip_fwd(count, hits, nexts::<Item, E>(items).push(terminal)) == nexts::<Item, E>(
            tail_from(items, (count - hits) as nat),
        ).push(terminal),
    decreases items.len(),
{
    reveal_with_fuel(skip_fwd, 3);
    let events = nexts::<Item, E>(items).push(terminal);
    if items.len() == 0 {
        assert(events =~= seq![terminal]);
        assert(events[0] == terminal);
        assert(events.drop_first() =~= Seq::<Event<Item, E>>::empty());
        assert(tail_from(items, (count - hits) as nat) =~= Seq::<Item>::empty());
        assert(skip_fwd(count, hits, events) =~= seq![terminal]);
        assert(nexts::<Item, E>(Seq::<Item>::empty()).push(terminal) =~= seq![terminal]);
    } else {
        let first = items[0];
        let rest_items = items.drop_first();
        assert(events[0] == nexts::<Item, E>(items)[0]);
        assert(events[0] == Event::<Item, E>::Next(first));
        assert(events.drop_first() =~= nexts::<Item, E>(rest_items).push(terminal));
        if hits < count {
            assert(next_hits(hits) == hits + 1);
            assert(!(next_hits(hits) > count));
            lemma_skip_fwd_tail_aux(count, hits + 1, rest_items, terminal);
            let remaining = (count - hits) as nat;
            assert(tail_from(rest_items, (remaining - 1) as nat) =~= tail_from(
                items,
                remaining,
            ));
        } else {
            assert(hits == count);
            assert(count < u32::MAX as nat);
            assert(next_hits(hits) == hits + 1);
            assert(next_hits(hits) > count);
            lemma_skip_fwd_forwards_rest(count, next_hits(hits), rest_items, terminal);
            assert(tail_from(items, 0) =~= items);
            assert(seq![Event::<Item, E>::Next(first)] + nexts::<Item, E>(rest_items).push(
                terminal,
            ) =~= nexts::<Item, E>(items).push(terminal));
        }
    }
}

/// What a skip stage forwards out of a finite source's stream: exactly the
/// payloads after the first `count` - all of them discarded when the source
/// emits no more than `count` - in their original order, then the source's
/// own terminal event, unchanged. At the one unrepresentable configuration,
/// a counter already at its machine limit facing still more payloads, the
/// statement is not made.
pub proof fn lemma_skip_fwd_tail<Item, E>(count: nat, items: Seq<Item>, terminal: Event<Item, E>)
    requires
        terminal.is_terminal(),
        count <= u32::MAX as nat,
        count < u32::MAX as nat || items.len() <= count,
    ensures
        skip_fwd(count, 0, nexts::<Item, E>(items).push(terminal)) == nexts::<Item, E>(
            tail_from(items, count),
        ).push(terminal),
{
    lemma_skip_fwd_tail_aux(count, 0, items, terminal);
}

/// Two chained skip stages forward what one stage configured with the sum
/// of their counts would: each subscription of each stage counts for
/// itself, from zero.
pub proof fn lemma_skip_fwd_twice<Item, E>(
    first: nat,
    second: nat,
    items: Seq<Item>,
    terminal: Event<Item, E>,
)
    requires
        terminal.is_terminal(),
        first <= u32::MAX as nat,
        second <= u32::MAX as nat,
        first < u32::MAX as nat || items.len() <= first,
        second < u32::MAX as nat || tail_from(items, first).len() <= second,
    ensures
        skip_fwd(second, 0, skip_fwd(first, 0, nexts::<Item, E>(items).push(terminal)))
            == nexts::<Item, E>(tail_from(items, first + second)).push(terminal),
{
    lemma_skip_fwd_tail(first, items, terminal);
    lemma_skip_fwd_tail(second, tail_from(items, first), terminal);
    assert(tail_from(tail_from(items, first), second) =~= tail_from(items, first + second));
}

/// A fresh collecting consumer subscribed below a skip stage over a source
/// emitting `items` and then completing ends up holding exactly the tail of
/// `items` after `count` - that is, all but the first `count` payloads, and
/// none at all when the source emits no more than `count` - completed, with
/// no error.
pub proof fn lemma_skip_collect<Item>(count: nat, items: Seq<Item>)
    requires
        count <= u32::MAX as nat,
        count < u32::MAX as nat || items.len() <= count,
    ensures
        ({
            let out = deliver(
                CollectModel::<Item, ()> { items: Seq::empty(), completed: false, error: None },
                skip_fwd(count, 0, nexts::<Item, ()>(items).push(Event::Complete)),
            );
            out.items == tail_from(items, count) && out.completed && out.error is None
                && out.items.len() == (if count <= items.len() {
                items.len() - count
            } else {
                0
            })
        }),
{
    lemma_skip_fwd_tail(count, items, Event::<Item, ()>::Complete);
    let fresh = CollectModel::<Item, ()> { items: Seq::empty(), completed: false, error: None };
    lemma_collect_deliver(fresh, tail_from(items, count), Event::<Item, ()>::Complete);
    assert(Seq::<Item>::empty() + tail_from(items, count) =~= tail_from(items, count));
}

/// The whole behavior of a skip stage over a finite-sequence source,
/// spelled out on the concrete pipeline types: the pipeline emits the
/// source's payloads after the first `count`, in their original order, and
/// then the source's own completion.
pub proof fn lemma_skip_over_iter<Item>(pipeline: SkipOp<crate::observable::IterObservable<Item>>)
    requires
        pipeline.count < u32::MAX || pipeline.source.items@.len() <= pipeline.count as nat,
    ensures
        pipeline.emits() == nexts::<Item, ()>(
            tail_from(pipeline.source.items@, pipeline.count as nat),
        ).push(Event::Complete),
{
    lemma_skip_fwd_tail(
        pipeline.count as nat,
        pipeline.source.items@,
        Event::<Item, ()>::Complete,
    );
}

/// Build a skip stage over this source: ignore the first `count` payloads
/// it emits, forward the rest unchanged, and pass its terminal event
/// through verbatim.
pub trait Skip: Sized {
    /// The pipeline that discards the first `count` payloads of `self`.
    fn skip(self, count: u32) -> (r: SkipOp<Self>)
        ensures
            r == (SkipOp { source: self, count }),
    {
        SkipOp { source: self, count }
    }
}

impl<S> Skip for S {}

/// A skip stage over the source `source`: a pipeline definition holding
/// only immutable configuration, so it may be cloned and subscribed any
/// number of times, each subscription counting from zero on its own.
#[derive(Clone)]
pub struct SkipOp<S> {
    /// The upstream pipeline this stage subscribes to.
    pub source: S,
    /// How many leading payloads each subscription discards.
    pub count: u32,
}

impl<S: Observable> Observable for SkipOp<S> {
    type Item = S::Item;

    type Error = S::Error;

    open spec fn emits(self) -> Seq<Event<S::Item, S::Error>> {
        skip_fwd(self.count as nat, 0, self.source.emits())
    }

    proof fn emits_well_formed(self) {
        self.source.emits_well_formed();
        lemma_skip_fwd_well_formed(self.count as nat, 0, self.source.emits());
    }

    fn actual_subscribe<O: Observer<S::Item, S::Error>>(
        self,
        subscriber: Subscriber<O, LocalSubscription>,
    ) -> (out: Subscriber<O, LocalSubscription>) {
        let SkipOp { source, count } = self;
        let Subscriber { observer, subscription } = subscriber;
        let proxy_subscription = LocalSubscription {
            closed: subscription.closed,
            children: Vec::new(),
        };
        let inner = Subscriber {
            observer: SkipObserver {
                observer,
                subscription: proxy_subscription,
                count,
                hits: 0,
            },
            subscription,
        };
        let ghost m = inner.observer.model();
        let delivered = source.actual_subscribe(inner);
        proof {
            if !subscriber.subscription.closed_spec() {
                lemma_skip_deliver(m, source.emits());
            }
        }
        let Subscriber { observer: proxy, subscription } = delivered;
        Subscriber { observer: proxy.observer, subscription }
    }
}

/// The proxy observer a skip stage interposes between the source and the
/// downstream observer for the lifetime of one subscription. Every payload
/// is counted on arrival and forwarded unchanged exactly when the count
/// observed so far exceeds the configured `count`, so the first `count`
/// payloads are discarded. Terminal events are forwarded verbatim and
/// unconditionally, so the downstream terminal event is whatever the
/// upstream source produced, never a self-triggered one.
pub struct SkipObserver<O, U> {
    /// The downstream observer events are forwarded to.
    pub observer: O,
    /// This subscription's cancellation handle: the handle an operator
    /// that decides to stop delivery mid-stream would cancel. The skip
    /// stage never does - its terminal event comes from upstream alone -
    /// so it only carries the handle, untouched, as its contract states.
    pub subscription: U,
    /// How many leading payloads to discard: immutable configuration.
    pub count: u32,
    /// How many payloads this subscription has observed so far:
    /// per-subscription progress, incremented on every arrival and held at
    /// the machine limit, beyond which one more cannot be represented.
    pub hits: u32,
}

impl<Item, E, O: Observer<Item, E>, U: SubscriptionLike> Observer<Item, E> for SkipObserver<
    O,
    U,
> {
    type Model = SkipModel<O::Model, U>;

    open spec fn model(self) -> SkipModel<O::Model, U> {
        SkipModel {
            inner: self.observer.model(),
            count: self.count as nat,
            hits: self.hits as nat,
            subscription: self.subscription,
        }
    }

    fn next(&mut self, value: Item) {
        let ghost m0 = self.model();
        if self.hits < u32::MAX {
            self.hits = self.hits + 1;
        }
        if self.hits > self.count {
            self.observer.next(value);
            proof {
                assert(self.hits as nat == next_hits(m0.hits));
                assert(self.observer.model() == m0.inner.on_next(value));
                assert(self.model() == m0.on_next(value));
            }
        } else {
            proof {
                assert(self.hits as nat == next_hits(m0.hits));
                assert(self.model() == m0.on_next(value));
            }
        }
    }

    fn error(&mut self, err: E) {
        let ghost m0 = self.model();
        self.observer.error(err);
        proof {
            assert(self.observer.model() == m0.inner.on_error(err));
            assert(self.model() == m0.on_error(err));
        }
    }

    fn complete(&mut self) {
        let ghost m0 = self.model();
        self.observer.complete();
        proof {
            assert(self.observer.model() == m0.inner.on_complete());
            assert(self.model() == m0.on_complete());
        }
    }
}

} // verus!
