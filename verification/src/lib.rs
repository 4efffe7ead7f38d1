//! A communication node library: a topic-routed event dispatch fabric.
//!
//! Local producers publish [`Event`]s through a [`Dispatcher`], which fans
//! each event out to every [`Subscription`] whose [`Interest`] matches the
//! event's topic, under bounded-queue backpressure with drop-on-overflow.
//! The `framing` module gives the length-prefixed wire encoding used to
//! exchange events with remote peers, the `config` module plans which
//! transport endpoints to launch from declarative configuration units, the
//! `bridge` module holds the request/response protocol local clients speak,
//! and the `table` module states and proves the dispatch laws over a model
//! of the subscription table.

use vstd::prelude::*;

pub mod bridge;
pub mod config;
mod ext;
pub mod framing;
pub mod protocols;
pub mod table;

verus! {

use std::sync::Arc;
use crate::ext::TrySendOutcome;
use crate::table::mask;

pub use crate::ext::{regex_match, regex_ok, regex_pattern};

/// The universal message of the system: a topic label, the instant of
/// creation (microseconds since the Unix epoch), and an opaque payload.
/// Events are immutable once they reach the dispatcher.
#[derive(Clone, Debug)]
pub struct Event {
    /// The topic of the event; interests match against it.
    pub topic: String,
    /// The instant at which the event was created.
    pub timestamp: i64,
    /// The raw data carried by the event.
    pub data: Vec<u8>,
}

impl Event {
    /// Creates an event stamped with the current instant.
    pub fn new(topic: &str, data: Vec<u8>) -> (r: Event)
        ensures
            r.topic@ == topic@,
            r.data@ == data@,
    {
        Event { topic: topic.to_owned(), timestamp: ext::now_micros(), data }
    }
}

/// The interest of a subscription in a class of events: a compiled regular
/// expression tested against event topics. Its view is the pattern string.
pub struct Interest {
    validator: regex::Regex,
}

impl View for Interest {
    type V = Seq<char>;

    closed spec fn view(&self) -> Seq<char> {
        regex_pattern(self.validator)
    }
}

impl Interest {
    /// Wraps an already compiled regular expression as an interest.
    pub fn new(validator: regex::Regex) -> (r: Interest)
        ensures
            r@ == regex_pattern(validator),
    {
        Interest { validator }
    }

    /// True exactly when the event's topic matches the interest's pattern.
    pub fn is_valid(&self, event: &Event) -> (r: bool)
        ensures
            r == regex_match(self@, event.topic@),
    {
        ext::regex_is_match(&self.validator, event.topic.as_str())
    }
}

impl Clone for Interest {
    /// The clone shares the compiled pattern.
    fn clone(&self) -> (r: Self)
        ensures
            r@ == self@,
    {
        Interest { validator: ext::regex_clone(&self.validator) }
    }
}

/// What [`Subscription::forward`] did with an event.
#[derive(Clone, Copy, PartialEq, Eq, Structural, Debug)]
pub enum ForwardOutcome {
    /// The event does not match the subscription's interest.
    NotMatched,
    /// The event was placed in the subscription's queue.
    Delivered,
    /// The queue was full; the event was dropped for this subscriber only.
    DroppedFull,
    /// The consumer end is gone; the event was dropped.
    DroppedClosed,
}

/// The subscription of a task to the dispatcher: an interest, and the
/// producer end of the bounded queue events are delivered through. Its view
/// is the interest's pattern.
pub struct Subscription {
    interest: Interest,
    tx: tokio::sync::mpsc::Sender<Arc<Event>>,
}

impl View for Subscription {
    type V = Seq<char>;

    closed spec fn view(&self) -> Seq<char> {
        self.interest@
    }
}

impl Subscription {
    /// Creates a subscription with a delivery queue of capacity `buffer`,
    /// returning the consumer end for the owning task.
    pub fn new(interest: Interest, buffer: usize) -> (r: (
        Subscription,
        tokio::sync::mpsc::Receiver<Arc<Event>>,
    ))
        requires
            0 < buffer <= usize::MAX / 8,
        ensures
            r.0@ == interest@,
    {
        let (tx, rx) = ext::chan_new(buffer);
        (Subscription { interest, tx }, rx)
    }

    /// True while the consumer end of the queue is still held; the reading
    /// reflects shared channel state and may go stale at once.
    pub fn is_active(&self) -> bool {
        !ext::chan_is_closed(&self.tx)
    }

    /// True exactly when the event is valid for this subscription's interest.
    pub fn is_valid(&self, event: &Event) -> (r: bool)
        ensures
            r == regex_match(self@, event.topic@),
    {
        self.interest.is_valid(event)
    }

    /// Delivers the event to the queue exactly when it matches the interest.
    /// The attempt never blocks: on a full queue or a dropped consumer the
    /// event is dropped for this subscriber and the handle is released.
    pub fn forward(&self, event: Arc<Event>) -> (r: ForwardOutcome)
        ensures
            r == ForwardOutcome::NotMatched <==> !regex_match(self@, (*event).topic@),
    {
        if !self.is_valid(&*event) {
            return ForwardOutcome::NotMatched;
        }
        match ext::chan_try_send(&self.tx, event) {
            TrySendOutcome::Sent => ForwardOutcome::Delivered,
            TrySendOutcome::Full(_) => ForwardOutcome::DroppedFull,
            TrySendOutcome::Closed(_) => ForwardOutcome::DroppedClosed,
        }
    }
}

/// A command for the dispatcher.
pub enum Command {
    /// Register a subscription.
    Subscribe(Subscription),
    /// Publish an event to every matching subscriber.
    Forward(Event),
}

/// The fan-out engine: the single owner of the subscription table. The
/// owning task feeds it commands one at a time through [`Dispatcher::handle`];
/// no other task touches the table.
pub struct Dispatcher {
    subs: Vec<Subscription>,
}

impl Dispatcher {
    /// The interest patterns of the table's subscriptions, in insertion
    /// order.
    pub closed spec fn table(&self) -> Seq<Seq<char>> {
        self.subs@.map_values(|s: Subscription| s@)
    }

    /// A dispatcher with an empty subscription table.
    pub fn new() -> (r: Dispatcher)
        ensures
            r.table() == Seq::<Seq<char>>::empty(),
    {
        let d = Dispatcher { subs: Vec::new() };
        proof {
            assert(d.table() =~= Seq::<Seq<char>>::empty());
        }
        d
    }

    /// How many subscriptions the table currently holds.
    pub fn subscription_count(&self) -> (r: usize)
        ensures
            r == self.table().len(),
    {
        self.subs.len()
    }

    /// One step of the dispatcher's main loop. `Subscribe` appends the
    /// subscription (no deduplication). `Forward` visits the table in
    /// insertion order: each subscription observed alive is kept and offered
    /// the event, each observed dead is removed; the returned vector holds
    /// one entry per old table slot, `None` for the reaped, the delivery
    /// outcome for the kept.
    pub fn handle(&mut self, cmd: Command) -> (r: Vec<Option<ForwardOutcome>>)
        ensures
            cmd matches Command::Subscribe(s) ==> final(self).table() == old(self).table().push(s@)
                && r@.len() == 0,
            cmd matches Command::Forward(e) ==> {
                &&& r@.len() == old(self).table().len()
                &&& final(self).table() == mask(
                    old(self).table(),
                    r@.map_values(|o: Option<ForwardOutcome>| o is Some),
                )
                &&& forall|i: int|
                    0 <= i < r@.len() ==> (#[trigger] r@[i] matches Some(o) ==> (o
                        == ForwardOutcome::NotMatched <==> !regex_match(
                        old(self).table()[i],
                        e.topic@,
                    )))
            },
    {
        match cmd {
            Command::Subscribe(sub) => {
                let ghost before = self.subs@;
                self.subs.push(sub);
                proof {
                    assert(self.subs@.map_values(|s: Subscription| s@) =~= before.map_values(
                        |s: Subscription| s@,
                    ).push(self.subs@.last()@));
                }
                Vec::new()
            },
            Command::Forward(event) => self.dispatch(event),
        }
    }

    /// The `Forward` pass: wraps the event in a shared handle, offers it to
    /// every live subscription and compacts the table in place.
    fn dispatch(&mut self, event: Event) -> (r: Vec<Option<ForwardOutcome>>)
        ensures
            r@.len() == old(self).table().len(),
            final(self).table() == mask(
                old(self).table(),
                r@.map_values(|o: Option<ForwardOutcome>| o is Some),
            ),
            forall|i: int|
                0 <= i < r@.len() ==> (#[trigger] r@[i] matches Some(o) ==> (o
                    == ForwardOutcome::NotMatched <==> !regex_match(
                    old(self).table()[i],
                    event.topic@,
                ))),
    {
        let arc = Arc::new(event);
        let ghost orig = self.subs@;
        let mut outcomes: Vec<Option<ForwardOutcome>> = Vec::new();
        let mut i: usize = 0;
        proof {
            let keep0 = outcomes@.map_values(|o: Option<ForwardOutcome>| o is Some);
            assert(mask(orig.subrange(0, 0), keep0) =~= Seq::<Subscription>::empty());
            assert(mask(orig.subrange(0, 0), keep0) + orig.subrange(0, orig.len() as int)
                =~= orig);
        }
        loop
            invariant
                (*arc).topic@ == event.topic@,
                outcomes@.len() <= orig.len(),
                self.subs@ == mask(
                    orig.subrange(0, outcomes@.len() as int),
                    outcomes@.map_values(|o: Option<ForwardOutcome>| o is Some),
                ) + orig.subrange(outcomes@.len() as int, orig.len() as int),
                i == mask(
                    orig.subrange(0, outcomes@.len() as int),
                    outcomes@.map_values(|o: Option<ForwardOutcome>| o is Some),
                ).len(),
                forall|k: int|
                    0 <= k < outcomes@.len() ==> (#[trigger] outcomes@[k] matches Some(o) ==> (o
                        == ForwardOutcome::NotMatched <==> !regex_match(orig[k]@, event.topic@))),
            ensures
                outcomes@.len() == orig.len(),
            decreases orig.len() - outcomes@.len(),
        {
            let ghost j = outcomes@.len() as int;
            let ghost outs_before = outcomes@;
            let ghost kept = mask(
                orig.subrange(0, j),
                outs_before.map_values(|o: Option<ForwardOutcome>| o is Some),
            );
            proof {
                assert(self.subs@.len() == kept.len() + orig.len() - j);
            }
            if i >= self.subs.len() {
                proof {
                    assert(j == orig.len());
                }
                break;
            }
            proof {
                assert(self.subs@[i as int] == orig[j]);
            }
            let active = self.subs[i].is_active();
            if active {
                let o = self.subs[i].forward(ext::arc_share(&arc));
                outcomes.push(Some(o));
                i = i + 1;
            } else {
                self.subs.remove(i);
                outcomes.push(None);
            }
            proof {
                let keep2 = outcomes@.map_values(|o: Option<ForwardOutcome>| o is Some);
                let pre = orig.subrange(0, j + 1);
                assert(pre.len() == j + 1);
                assert(pre.drop_last() =~= orig.subrange(0, j));
                assert(pre.last() == orig[j]);
                assert(outcomes@.drop_last() =~= outs_before);
                assert(keep2.drop_last() =~= outs_before.map_values(
                    |o: Option<ForwardOutcome>| o is Some,
                ));
                assert(keep2.last() == active);
                assert(mask(pre, keep2) == mask(orig.subrange(0, j), keep2.drop_last()) + (
                if keep2.last() {
                    seq![orig[j]]
                } else {
                    Seq::<Subscription>::empty()
                }));
                if active {
                    assert(mask(pre, keep2) =~= kept + seq![orig[j]]);
                    assert(self.subs@ =~= mask(pre, keep2) + orig.subrange(
                        j + 1,
                        orig.len() as int,
                    ));
                } else {
                    assert(mask(pre, keep2) =~= kept);
                    assert(self.subs@ =~= mask(pre, keep2) + orig.subrange(
                        j + 1,
                        orig.len() as int,
                    ));
                }
                assert(i == mask(pre, keep2).len());
                assert(forall|k: int|
                    0 <= k < outcomes@.len() ==> (#[trigger] outcomes@[k] matches Some(o) ==> (o
                        == ForwardOutcome::NotMatched <==> !regex_match(orig[k]@, event.topic@))));
            }
        }
        proof {
            let keep = outcomes@.map_values(|o: Option<ForwardOutcome>| o is Some);
            assert(outcomes@.len() == orig.len());
            assert(orig.subrange(0, orig.len() as int) =~= orig);
            assert(orig.subrange(orig.len() as int, orig.len() as int) =~= Seq::<
                Subscription,
            >::empty());
            assert(self.subs@ =~= mask(orig, keep));
            table::lemma_mask_map(orig, keep, |s: Subscription| s@);
            assert(keep.len() == orig.len());
        }
        outcomes
    }
}

} // verus!
