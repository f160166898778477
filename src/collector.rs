//! The collector: the single consumer that drains the message queue. It is a
//! two-state machine, draining until the queue reports that it is closed and
//! empty, and then terminated.
use vstd::prelude::*;

verus! {

/// What the collector's state is, in the model: the messages it has taken from
/// the queue, in receipt order, and whether it has terminated.
pub struct CollectorState {
    pub observed: Seq<Seq<char>>,
    pub terminated: bool,
}

/// One receive of the collector: a message is taken in and logged; the end of
/// the queue (`None`) terminates it.
pub open spec fn collector_step(s: CollectorState, item: Option<Seq<char>>) -> CollectorState {
    match item {
        Some(m) => CollectorState { observed: s.observed.push(m), terminated: false },
        None => CollectorState { observed: s.observed, terminated: true },
    }
}

/// The state after the receives `items`, one after another.
pub open spec fn collector_run(s: CollectorState, items: Seq<Option<Seq<char>>>) -> CollectorState
    decreases items.len(),
{
    if items.len() == 0 {
        s
    } else {
        collector_step(collector_run(s, items.drop_last()), items.last())
    }
}

/// The receives of a queue that delivers `messages` and then reports that it is
/// closed and empty.
pub open spec fn deliveries(messages: Seq<Seq<char>>) -> Seq<Option<Seq<char>>> {
    messages.map_values(|m: Seq<char>| Some(m)) + seq![None]
}

/// The collector's starting state.
pub open spec fn collector_start() -> CollectorState {
    CollectorState { observed: Seq::empty(), terminated: false }
}

/// The consumer side of the queue.
pub struct Collector {
    observed: Ghost<Seq<Seq<char>>>,
    terminated: bool,
}

impl View for Collector {
    type V = CollectorState;

    closed spec fn view(&self) -> CollectorState {
        CollectorState { observed: self.observed@, terminated: self.terminated }
    }
}

impl Collector {
    /// A collector that has received nothing and is draining.
    pub fn new() -> (r: Collector)
        ensures
            r@ == collector_start(),
    {
        Collector { observed: Ghost(Seq::empty()), terminated: false }
    }

    /// Whether the collector has seen the end of the queue.
    pub fn is_terminated(&self) -> (r: bool)
        ensures
            r == self@.terminated,
    {
        self.terminated
    }

    /// Handles what one receive from the queue gave: a message is handed back
    /// to be logged, and the end of the queue terminates the collector.
    pub fn receive(&mut self, item: Option<String>) -> (r: Option<String>)
        requires
            !old(self)@.terminated,
        ensures
            final(self)@ == collector_step(
                old(self)@,
                match item {
                    Some(m) => Some(m@),
                    None => None,
                },
            ),
            r == item,
    {
        match item {
            Some(m) => {
                self.observed = Ghost(self.observed@.push(m@));
                Some(m)
            },
            None => {
                self.terminated = true;
                None
            },
        }
    }
}

/// A collector fed a queue that delivers some messages and then closes stays
/// draining until the close, terminates on it, and has then observed exactly
/// the delivered messages, in order.
pub proof fn lemma_collector_drains(messages: Seq<Seq<char>>)
    ensures
        collector_run(collector_start(), deliveries(messages)) == (CollectorState {
            observed: messages,
            terminated: true,
        }),
        forall|k: int|
            0 <= k <= messages.len() ==> #[trigger] collector_run(
                collector_start(),
                deliveries(messages).take(k),
            ) == (CollectorState { observed: messages.take(k), terminated: false }),
{
    let d = deliveries(messages);
    assert forall|k: int| 0 <= k <= messages.len() implies #[trigger] collector_run(
        collector_start(),
        d.take(k),
    ) == (CollectorState { observed: messages.take(k), terminated: false }) by {
        lemma_collector_prefix(messages, k);
    }
    lemma_collector_prefix(messages, messages.len() as int);
    assert(d.drop_last() =~= d.take(messages.len() as int));
    assert(messages.take(messages.len() as int) =~= messages);
}

proof fn lemma_collector_prefix(messages: Seq<Seq<char>>, k: int)
    requires
        0 <= k <= messages.len(),
    ensures
        collector_run(collector_start(), deliveries(messages).take(k)) == (CollectorState {
            observed: messages.take(k),
            terminated: false,
        }),
    decreases k,
{
    let d = deliveries(messages);
    if k == 0 {
        assert(d.take(0) =~= Seq::empty());
        assert(messages.take(0) =~= Seq::empty());
    } else {
        lemma_collector_prefix(messages, k - 1);
        assert(d.take(k).drop_last() =~= d.take(k - 1));
        assert(d.take(k).last() == Some(messages[k - 1]));
        assert(messages.take(k - 1).push(messages[k - 1]) =~= messages.take(k));
    }
}

} // verus!
