//! The `Observer` capability set, the abstract state transition it is bound
//! to, and a concrete consumer that collects what it is handed.

use vstd::prelude::*;
use crate::event::Event;

verus! {

/// The abstract state of an observer, together with the transition each of
/// the three capabilities performs on it. Every `Observer` implementation
/// names such a model and is bound, call by call, to its transitions; all
/// reasoning about event delivery happens on models.
pub trait ObserverModel<Item, E>: Sized {
    /// The state after this observer is handed the payload `value`.
    spec fn on_next(self, value: Item) -> Self;

    /// The state after this observer is handed the terminal error `err`.
    spec fn on_error(self, err: E) -> Self;

    /// The state after this observer is handed terminal completion.
    spec fn on_complete(self) -> Self;
}

/// The capability set `{next, error, complete}` a consumer implements to
/// receive events. Each call is pinned to the transition the implementation's
/// model declares, so a caller holding only the trait knows exactly what
/// state the observer reaches after any sequence of calls.
pub trait Observer<Item, E>: Sized {
    /// The abstract state this observer is reasoned about through.
    type Model: ObserverModel<Item, E>;

    /// The abstract state this observer is currently in.
    spec fn model(self) -> Self::Model;

    /// Hand the observer the next payload.
    fn next(&mut self, value: Item)
        ensures
            final(self).model() == old(self).model().on_next(value),
    ;

    /// Hand the observer a terminal error.
    fn error(&mut self, err: E)
        ensures
            final(self).model() == old(self).model().on_error(err),
    ;

    /// Hand the observer terminal completion.
    fn complete(&mut self)
        ensures
            final(self).model() == old(self).model().on_complete(),
    ;
}

/// The model transition for one event.
pub open spec fn apply_event<Item, E, M: ObserverModel<Item, E>>(
    m: M,
    event: Event<Item, E>,
) -> M {
    match event {
        Event::Next(v) => m.on_next(v),
        Event::Error(err) => m.on_error(err),
        Event::Complete => m.on_complete(),
    }
}

/// The observer state reached from `m` after the events of `events` are
/// delivered to it in order.
pub open spec fn deliver<Item, E, M: ObserverModel<Item, E>>(
    m: M,
    events: Seq<Event<Item, E>>,
) -> M
    decreases events.len(),
{
    if events.len() == 0 {
        m
    } else {
        deliver(apply_event(m, events[0]), events.drop_first())
    }
}

/// Delivering one further event is one further transition.
pub proof fn lemma_deliver_push<Item, E, M: ObserverModel<Item, E>>(
    m: M,
    events: Seq<Event<Item, E>>,
    event: Event<Item, E>,
)
    ensures
        deliver(m, events.push(event)) == apply_event(deliver(m, events), event),
    decreases events.len(),
{
    if events.len() == 0 {
        assert(events.push(event)[0] == event);
        assert(events.push(event).drop_first() =~= Seq::<Event<Item, E>>::empty());
        assert(deliver(m, events) == m);
        assert(deliver(apply_event(m, event), Seq::<Event<Item, E>>::empty()) == apply_event(
            m,
            event,
        ));
    } else {
        assert(events.push(event)[0] == events[0]);
        assert(events.push(event).drop_first() =~= events.drop_first().push(event));
        assert(deliver(m, events.push(event)) == deliver(
            apply_event(m, events[0]),
            events.drop_first().push(event),
        ));
        assert(deliver(m, events) == deliver(apply_event(m, events[0]), events.drop_first()));
        lemma_deliver_push(apply_event(m, events[0]), events.drop_first(), event);
    }
}

/// Delivering an event and then a tail is one transition, then the tail.
pub proof fn lemma_deliver_cons<Item, E, M: ObserverModel<Item, E>>(
    m: M,
    event: Event<Item, E>,
    events: Seq<Event<Item, E>>,
)
    ensures
        deliver(m, seq![event] + events) == deliver(apply_event(m, event), events),
{
    let whole = seq![event] + events;
    assert(whole.len() == events.len() + 1);
    assert(whole[0] == event);
    assert(whole.drop_first() =~= events);
}

/// The abstract state of a [`CollectObserver`]: what it has accepted so far.
pub ghost struct CollectModel<Item, E> {
    /// The payloads accepted, in order of arrival.
    pub items: Seq<Item>,
    /// Whether completion has been accepted.
    pub completed: bool,
    /// The error accepted, if any.
    pub error: Option<E>,
}

impl<Item, E> CollectModel<Item, E> {
    /// Whether a terminal event has been accepted; later calls are no-ops.
    pub open spec fn terminated(self) -> bool {
        self.completed || self.error is Some
    }
}

impl<Item, E> ObserverModel<Item, E> for CollectModel<Item, E> {
    open spec fn on_next(self, value: Item) -> Self {
        if self.terminated() {
            self
        } else {
            CollectModel { items: self.items.push(value), ..self }
        }
    }

    open spec fn on_error(self, err: E) -> Self {
        if self.terminated() {
            self
        } else {
            CollectModel { error: Some(err), ..self }
        }
    }

    open spec fn on_complete(self) -> Self {
        if self.terminated() {
            self
        } else {
            CollectModel { completed: true, ..self }
        }
    }
}

/// A collecting consumer that has not yet observed termination accepts a
/// whole well-shaped stream as is: every payload in order, then the one
/// terminal event, completion and error kept apart.
pub proof fn lemma_collect_deliver<Item, E>(
    m: CollectModel<Item, E>,
    items: Seq<Item>,
    terminal: Event<Item, E>,
)
    requires
        !m.terminated(),
        terminal.is_terminal(),
    ensures
        ({
            let out = deliver(m, crate::event::nexts::<Item, E>(items).push(terminal));
            out.items == m.items + items && out.completed == (terminal is Complete) && out.error
                == (if terminal is Error {
                Some(terminal->Error_0)
            } else {
                None
            })
        }),
    decreases items.len(),
{
    reveal_with_fuel(deliver, 3);
    let events = crate::event::nexts::<Item, E>(items).push(terminal);
    if items.len() == 0 {
        assert(events =~= seq![terminal]);
        assert(events[0] == terminal);
        assert(events.drop_first() =~= Seq::<Event<Item, E>>::empty());
        assert(deliver(m, events) == deliver(apply_event(m, terminal), events.drop_first()));
        assert(deliver(apply_event(m, terminal), events.drop_first()) == apply_event(
            m,
            terminal,
        ));
        assert(m.items + Seq::<Item>::empty() =~= m.items);
    } else {
        let first = items[0];
        let rest = items.drop_first();
        assert(events[0] == crate::event::nexts::<Item, E>(items)[0]);
        assert(events[0] == Event::<Item, E>::Next(first));
        assert(events.drop_first() =~= crate::event::nexts::<Item, E>(rest).push(terminal));
        let stepped = m.on_next(first);
        assert(stepped == (CollectModel { items: m.items.push(first), ..m }));
        lemma_collect_deliver(stepped, rest, terminal);
        assert(m.items.push(first) + rest =~= m.items + items);
    }
}

/// A terminal consumer that keeps every payload it is handed and records the
/// terminal event. Once a terminal event has arrived, every further call is
/// a no-op, as the protocol asks of a consumer that has observed termination.
pub struct CollectObserver<Item, E> {
    /// The payloads received before any terminal event, in order.
    pub items: Vec<Item>,
    /// Whether `complete` has been received.
    pub completed: bool,
    /// The error received through `error`, if any.
    pub error: Option<E>,
}

impl<Item, E> CollectObserver<Item, E> {
    /// A fresh consumer that has received nothing.
    pub fn new() -> (r: Self)
        ensures
            r.model() == (CollectModel::<Item, E> {
                items: Seq::empty(),
                completed: false,
                error: None,
            }),
    {
        CollectObserver { items: Vec::new(), completed: false, error: None }
    }

    /// Whether a terminal event has been received.
    pub fn is_terminated(&self) -> (r: bool)
        ensures
            r == self.model().terminated(),
    {
        self.completed || self.error.is_some()
    }
}

impl<Item, E> Observer<Item, E> for CollectObserver<Item, E> {
    type Model = CollectModel<Item, E>;

    open spec fn model(self) -> CollectModel<Item, E> {
        CollectModel { items: self.items@, completed: self.completed, error: self.error }
    }

    fn next(&mut self, value: Item) {
        if !self.completed && self.error.is_none() {
            self.items.push(value);
        }
    }

    fn error(&mut self, err: E) {
        if !self.completed && self.error.is_none() {
            self.error = Some(err);
        }
    }

    fn complete(&mut self) {
        if !self.completed && self.error.is_none() {
            self.completed = true;
        }
    }
}

} // verus!
