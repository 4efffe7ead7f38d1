//! A mathematical model of the dispatcher's subscription table.
//!
//! The dispatcher task owns the table and processes one command at a time,
//! so its behaviour is a sequence of steps on a plain table of subscription
//! states. [`SubModel`] is one subscription as the dispatcher sees it: the
//! interest pattern, the bounded queue with its fixed capacity, and whether
//! the consumer end of the queue is still held. [`table_forward`] is one
//! `Forward` step over the whole table; the executable dispatcher performs
//! the same pass, with a channel standing where the model holds the queue
//! (the consumer drains the channel from the front, which the model leaves
//! out: it only ever appends, so the queue reads as the full delivery
//! history up to the capacity bound).
//!
//! The proof functions at the end of the module are the dispatch laws: every
//! delivered event matches the subscriber's interest, delivery preserves
//! publish order per subscriber, dead subscriptions are reaped by the next
//! forward, and a forward never blocks on (or overfills) a full queue.

use vstd::prelude::*;

use crate::{Event, ForwardOutcome};
use crate::ext::regex_match;

verus! {

/// One subscription as the dispatcher's table holds it.
pub struct SubModel {
    /// The pattern of the subscription's interest.
    pub pattern: Seq<char>,
    /// The fixed capacity the queue was created with.
    pub capacity: nat,
    /// Whether the consumer end of the queue is still held.
    pub alive: bool,
    /// The queued events, oldest first.
    pub queue: Seq<Event>,
}

/// Whether the subscription accepts the event: it is alive, the event's
/// topic matches its pattern, and the queue has room.
pub open spec fn sub_accepts(s: SubModel, e: Event) -> bool {
    s.alive && regex_match(s.pattern, e.topic@) && s.queue.len() < s.capacity
}

/// One delivery attempt on one subscription: the event is appended exactly
/// when the subscription accepts it; otherwise nothing changes.
pub open spec fn sub_offer(s: SubModel, e: Event) -> SubModel {
    if sub_accepts(s, e) {
        SubModel { queue: s.queue.push(e), ..s }
    } else {
        s
    }
}

/// The outcome the attempt reports.
pub open spec fn sub_outcome(s: SubModel, e: Event) -> ForwardOutcome {
    if !regex_match(s.pattern, e.topic@) {
        ForwardOutcome::NotMatched
    } else if !s.alive {
        ForwardOutcome::DroppedClosed
    } else if s.queue.len() >= s.capacity {
        ForwardOutcome::DroppedFull
    } else {
        ForwardOutcome::Delivered
    }
}

/// One `Forward` command over the whole table: subscriptions are visited in
/// insertion order; dead ones are dropped, live ones are offered the event.
pub open spec fn table_forward(t: Seq<SubModel>, e: Event) -> Seq<SubModel>
    decreases t.len(),
{
    if t.len() == 0 {
        Seq::empty()
    } else {
        let rest = table_forward(t.drop_first(), e);
        if t[0].alive {
            seq![sub_offer(t[0], e)] + rest
        } else {
            rest
        }
    }
}

/// A `Subscribe` command appends the new subscription to the table.
pub open spec fn table_subscribe(t: Seq<SubModel>, s: SubModel) -> Seq<SubModel> {
    t.push(s)
}

/// The table after a whole run of `Forward` commands, in publish order.
pub open spec fn table_run(t: Seq<SubModel>, events: Seq<Event>) -> Seq<SubModel>
    decreases events.len(),
{
    if events.len() == 0 {
        t
    } else {
        table_run(table_forward(t, events[0]), events.drop_first())
    }
}

/// One subscription across a whole run of forwards from one producer.
pub open spec fn sub_run(s: SubModel, events: Seq<Event>) -> SubModel
    decreases events.len(),
{
    if events.len() == 0 {
        s
    } else {
        sub_run(sub_offer(s, events[0]), events.drop_first())
    }
}

/// The events out of `events` that the subscription accepts, in publish
/// order.
pub open spec fn accepted(s: SubModel, events: Seq<Event>) -> Seq<Event>
    decreases events.len(),
{
    if events.len() == 0 {
        Seq::empty()
    } else if sub_accepts(s, events[0]) {
        seq![events[0]] + accepted(sub_offer(s, events[0]), events.drop_first())
    } else {
        accepted(s, events.drop_first())
    }
}

/// `a` occurs inside `b` in order (not necessarily contiguously).
pub open spec fn is_subseq_of<A>(a: Seq<A>, b: Seq<A>) -> bool
    decreases b.len(),
{
    if a.len() == 0 {
        true
    } else if b.len() == 0 {
        false
    } else {
        (a[0] == b[0] && is_subseq_of(a.drop_first(), b.drop_first())) || is_subseq_of(
            a,
            b.drop_first(),
        )
    }
}

/// Every queued event matches the subscription's pattern.
pub open spec fn sub_wf(s: SubModel) -> bool {
    forall|i: int| 0 <= i < s.queue.len() ==> regex_match(s.pattern, #[trigger] s.queue[i].topic@)
}

/// The elements of `s` at the positions `keep` marks true, in order.
pub open spec fn mask<A>(s: Seq<A>, keep: Seq<bool>) -> Seq<A>
    recommends
        s.len() == keep.len(),
    decreases s.len(),
{
    if s.len() == 0 {
        Seq::empty()
    } else {
        mask(s.drop_last(), keep.drop_last()) + (if keep.last() {
            seq![s.last()]
        } else {
            Seq::empty()
        })
    }
}

/// Taking a mask commutes with mapping the elements.
pub proof fn lemma_mask_map<A, B>(s: Seq<A>, keep: Seq<bool>, f: spec_fn(A) -> B)
    requires
        s.len() == keep.len(),
    ensures
        mask(s.map_values(f), keep) == mask(s, keep).map_values(f),
    decreases s.len(),
{
    if s.len() == 0 {
        assert(mask(s.map_values(f), keep) =~= mask(s, keep).map_values(f));
    } else {
        lemma_mask_map(s.drop_last(), keep.drop_last(), f);
        assert(s.map_values(f).drop_last() =~= s.drop_last().map_values(f));
        assert(s.map_values(f).last() == f(s.last()));
        assert(mask(s.map_values(f), keep) =~= mask(s, keep).map_values(f));
    }
}

/// Front unfolding of `mask`: selecting from `[x] + rest` decides `x` first.
proof fn lemma_mask_cons<A>(x: A, s: Seq<A>, b: bool, k: Seq<bool>)
    requires
        s.len() == k.len(),
    ensures
        mask(seq![x] + s, seq![b] + k) == (if b {
            seq![x]
        } else {
            Seq::empty()
        }) + mask(s, k),
    decreases s.len(),
{
    let full = seq![x] + s;
    let fullk = seq![b] + k;
    if s.len() == 0 {
        assert(s =~= Seq::<A>::empty());
        assert(k =~= Seq::<bool>::empty());
        assert(mask(s, k) == Seq::<A>::empty());
        assert(full.drop_last() =~= s);
        assert(fullk.drop_last() =~= k);
        assert(full.last() == x);
        assert(fullk.last() == b);
        assert(mask(full, fullk) == mask(s, k) + (if b {
            seq![x]
        } else {
            Seq::<A>::empty()
        }));
        assert(mask(full, fullk) =~= (if b {
            seq![x]
        } else {
            Seq::<A>::empty()
        }) + mask(s, k));
    } else {
        lemma_mask_cons(x, s.drop_last(), b, k.drop_last());
        assert(full.drop_last() =~= seq![x] + s.drop_last());
        assert(fullk.drop_last() =~= seq![b] + k.drop_last());
        assert(full.last() == s.last());
        assert(fullk.last() == k.last());
        let head = if b {
            seq![x]
        } else {
            Seq::<A>::empty()
        };
        let sub = mask(s.drop_last(), k.drop_last());
        let tailpart = if k.last() {
            seq![s.last()]
        } else {
            Seq::<A>::empty()
        };
        assert(mask(s, k) == sub + tailpart);
        assert(mask(full, fullk) == mask(full.drop_last(), fullk.drop_last()) + tailpart);
        assert(mask(full.drop_last(), fullk.drop_last()) == head + sub);
        assert((head + sub) + tailpart =~= head + (sub + tailpart));
        assert(mask(full, fullk) == head + mask(s, k));
    }
}

/// Law: the model's forward step is the dispatcher's compaction. The
/// executable dispatcher guarantees that the surviving table is the old one
/// masked by the observed liveness of each subscription; this law says the
/// model's step keeps exactly the same patterns when the observations are
/// the subscriptions' liveness flags.
pub proof fn lemma_forward_is_liveness_mask(t: Seq<SubModel>, e: Event)
    ensures
        table_forward(t, e).map_values(|s: SubModel| s.pattern) == mask(
            t.map_values(|s: SubModel| s.pattern),
            t.map_values(|s: SubModel| s.alive),
        ),
    decreases t.len(),
{
    let pat = |s: SubModel| s.pattern;
    let alv = |s: SubModel| s.alive;
    if t.len() == 0 {
        assert(table_forward(t, e).map_values(pat) =~= mask(t.map_values(pat), t.map_values(alv)));
    } else {
        let rest = t.drop_first();
        lemma_forward_is_liveness_mask(rest, e);
        assert(t.map_values(pat) =~= seq![t[0].pattern] + rest.map_values(pat));
        assert(t.map_values(alv) =~= seq![t[0].alive] + rest.map_values(alv));
        lemma_mask_cons(t[0].pattern, rest.map_values(pat), t[0].alive, rest.map_values(alv));
        assert(sub_offer(t[0], e).pattern == t[0].pattern);
        assert(table_forward(t, e).map_values(pat) =~= (if t[0].alive {
            seq![t[0].pattern]
        } else {
            Seq::<Seq<char>>::empty()
        }) + table_forward(rest, e).map_values(pat));
        assert(table_forward(t, e).map_values(pat) =~= mask(t.map_values(pat), t.map_values(alv)));
    }
}

/// Law: only matching events are ever delivered. A forward step appends `e`
/// only to subscriptions whose pattern matches its topic, so a table whose
/// queues hold only matching events keeps that property.
pub proof fn lemma_delivered_events_match(t: Seq<SubModel>, e: Event)
    requires
        forall|i: int| 0 <= i < t.len() ==> sub_wf(#[trigger] t[i]),
    ensures
        forall|i: int|
            0 <= i < table_forward(t, e).len() ==> sub_wf(#[trigger] table_forward(t, e)[i]),
    decreases t.len(),
{
    if t.len() > 0 {
        lemma_delivered_events_match(t.drop_first(), e);
        let res = table_forward(t, e);
        let rest = table_forward(t.drop_first(), e);
        assert(sub_wf(t[0]));
        assert forall|i: int| 0 <= i < res.len() implies sub_wf(#[trigger] res[i]) by {
            if t[0].alive {
                if i == 0 {
                    assert(res[i] == sub_offer(t[0], e));
                    if sub_accepts(t[0], e) {
                        let q = sub_offer(t[0], e).queue;
                        assert(forall|k: int|
                            0 <= k < q.len() ==> regex_match(t[0].pattern, #[trigger] q[k].topic@));
                    }
                } else {
                    assert(res[i] == rest[i - 1]);
                }
            } else {
                assert(res[i] == rest[i]);
            }
        }
    }
}

/// Law: a fresh subscription arrives with an empty queue, so registering it
/// keeps the only-matching-events invariant of the table.
pub proof fn lemma_subscribe_preserves_wf(t: Seq<SubModel>, s: SubModel)
    requires
        forall|i: int| 0 <= i < t.len() ==> sub_wf(#[trigger] t[i]),
        s.queue.len() == 0,
    ensures
        forall|i: int|
            0 <= i < table_subscribe(t, s).len() ==> sub_wf(#[trigger] table_subscribe(t, s)[i]),
{
    assert(sub_wf(s));
}

/// Law: dead subscriptions are reaped by the very next forward — after one
/// `Forward` command every subscription left in the table is alive, so a
/// subscription whose consumer is gone is absent from it.
pub proof fn lemma_forward_reaps(t: Seq<SubModel>, e: Event)
    ensures
        forall|i: int| 0 <= i < table_forward(t, e).len() ==> #[trigger] table_forward(t, e)[i].alive,
        forall|s: SubModel| !s.alive ==> !table_forward(t, e).contains(s),
    decreases t.len(),
{
    if t.len() > 0 {
        lemma_forward_reaps(t.drop_first(), e);
        let res = table_forward(t, e);
        let rest = table_forward(t.drop_first(), e);
        assert forall|i: int| 0 <= i < res.len() implies #[trigger] res[i].alive by {
            if t[0].alive {
                if i == 0 {
                    assert(res[i] == sub_offer(t[0], e));
                } else {
                    assert(res[i] == rest[i - 1]);
                }
            } else {
                assert(res[i] == rest[i]);
            }
        }
    }
}

/// Law: a forward never blocks and never overfills. The offer to a full
/// subscription returns at once, dropping the event and leaving the queue
/// unchanged, and a queue within its capacity stays within it.
pub proof fn lemma_forward_never_blocks(s: SubModel, e: Event)
    ensures
        s.queue.len() >= s.capacity ==> sub_offer(s, e) == s && sub_outcome(s, e)
            != ForwardOutcome::Delivered,
        s.queue.len() <= s.capacity ==> sub_offer(s, e).queue.len() <= s.capacity,
        sub_offer(s, e).capacity == s.capacity,
        sub_offer(s, e).alive == s.alive,
{
}

/// Law: the delivery invariant holds across whole runs — after any sequence
/// of forwards on a table whose queues held only matching events, they still
/// do, and only live subscriptions remain once at least one event was
/// forwarded.
pub proof fn lemma_run_keeps_invariants(t: Seq<SubModel>, events: Seq<Event>)
    requires
        forall|i: int| 0 <= i < t.len() ==> sub_wf(#[trigger] t[i]),
    ensures
        forall|i: int|
            0 <= i < table_run(t, events).len() ==> sub_wf(#[trigger] table_run(t, events)[i]),
        events.len() > 0 ==> forall|i: int|
            0 <= i < table_run(t, events).len() ==> #[trigger] table_run(t, events)[i].alive,
    decreases events.len(),
{
    if events.len() > 0 {
        let stepped = table_forward(t, events[0]);
        lemma_delivered_events_match(t, events[0]);
        lemma_forward_reaps(t, events[0]);
        lemma_run_keeps_invariants(stepped, events.drop_first());
        assert(table_run(t, events) == table_run(stepped, events.drop_first()));
        if events.len() == 1 {
            assert(table_run(stepped, events.drop_first()) == stepped);
        }
    }
}

/// Law: delivery preserves publish order per subscriber. A run of forwards
/// from one producer appends to the queue exactly the accepted events, in
/// publish order, and those are a subsequence of the published sequence.
pub proof fn lemma_publish_order_preserved(s: SubModel, events: Seq<Event>)
    ensures
        sub_run(s, events).queue == s.queue + accepted(s, events),
        is_subseq_of(accepted(s, events), events),
    decreases events.len(),
{
    if events.len() == 0 {
        assert(sub_run(s, events).queue =~= s.queue + accepted(s, events));
    } else {
        let e0 = events[0];
        let rest = events.drop_first();
        if sub_accepts(s, e0) {
            let s1 = sub_offer(s, e0);
            lemma_publish_order_preserved(s1, rest);
            assert(s1.queue == s.queue.push(e0));
            assert(sub_run(s, events).queue =~= s.queue + accepted(s, events));
            assert((seq![e0] + accepted(s1, rest)).drop_first() =~= accepted(s1, rest));
            assert(accepted(s, events)[0] == e0);
        } else {
            lemma_publish_order_preserved(s, rest);
            assert(sub_offer(s, e0) == s);
            assert(sub_run(s, events).queue =~= s.queue + accepted(s, events));
            lemma_subseq_weaken(accepted(s, rest), rest, events);
        }
    }
}

/// Law: every event a subscription accepts over a run matches its pattern —
/// the per-run form of the delivery filter.
pub proof fn lemma_accepted_events_match(s: SubModel, events: Seq<Event>)
    ensures
        forall|i: int|
            0 <= i < accepted(s, events).len() ==> regex_match(
                s.pattern,
                #[trigger] accepted(s, events)[i].topic@,
            ),
    decreases events.len(),
{
    if events.len() > 0 {
        let rest = events.drop_first();
        if sub_accepts(s, events[0]) {
            let s1 = sub_offer(s, events[0]);
            lemma_accepted_events_match(s1, rest);
            assert(s1.pattern == s.pattern);
            assert forall|i: int| 0 <= i < accepted(s, events).len() implies regex_match(
                s.pattern,
                #[trigger] accepted(s, events)[i].topic@,
            ) by {
                if i > 0 {
                    assert(accepted(s, events)[i] == accepted(s1, rest)[i - 1]);
                }
            }
        } else {
            lemma_accepted_events_match(s, rest);
            assert(accepted(s, events) == accepted(s, rest));
        }
    }
}

/// A subsequence of the tail of `b` is a subsequence of `b`.
proof fn lemma_subseq_weaken<A>(a: Seq<A>, tail: Seq<A>, b: Seq<A>)
    requires
        b.len() > 0,
        tail == b.drop_first(),
        is_subseq_of(a, tail),
    ensures
        is_subseq_of(a, b),
{
}

} // verus!
