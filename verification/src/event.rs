//! The events that flow through a pipeline, and the shape a whole stream of
//! them must have.

use vstd::prelude::*;

verus! {

/// One occurrence delivered to an observer: a payload, a terminal error, or
/// terminal completion.
pub enum Event<Item, E> {
    Next(Item),
    Error(E),
    Complete,
}

impl<Item, E> Event<Item, E> {
    /// An event that ends the stream: `Error` or `Complete`.
    pub open spec fn is_terminal(self) -> bool {
        !(self is Next)
    }
}

/// The protocol shape of a full stream: zero or more `Next` events followed
/// by at most one terminal event. Equivalently, a terminal event may only
/// stand last.
pub open spec fn well_formed<Item, E>(events: Seq<Event<Item, E>>) -> bool {
    forall|i: int|
        0 <= i < events.len() && (#[trigger] events[i]).is_terminal() ==> i == events.len() - 1
}

/// The sequence `items`, each wrapped as a `Next` event.
pub open spec fn nexts<Item, E>(items: Seq<Item>) -> Seq<Event<Item, E>> {
    items.map_values(|v: Item| Event::<Item, E>::Next(v))
}

/// A finite source's stream - its payloads in order, then one terminal
/// event - is well formed.
pub proof fn lemma_nexts_then_terminal_well_formed<Item, E>(
    items: Seq<Item>,
    terminal: Event<Item, E>,
)
    requires
        terminal.is_terminal(),
    ensures
        well_formed(nexts::<Item, E>(items).push(terminal)),
{
    let events = nexts::<Item, E>(items).push(terminal);
    assert forall|i: int|
        0 <= i < events.len() && (#[trigger] events[i]).is_terminal() implies i == events.len()
        - 1 by {
        if i < items.len() {
            assert(events[i] == nexts::<Item, E>(items)[i]);
            assert(events[i] is Next);
        }
    }
}

} // verus!
