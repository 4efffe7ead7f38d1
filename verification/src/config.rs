//! Declarative configuration of the connection fabric, and the planning
//! logic that turns configuration units into the endpoints to launch.
//!
//! A configuration unit names local endpoints to bind (the receiver side,
//! with an optional advertisement block) and remote endpoints to connect out
//! to (the sender side). Planning compiles every channel's interest pattern,
//! skipping the channels whose pattern does not compile — a malformed
//! channel never fails the whole unit — and decides whether the unit runs an
//! advertisement redirector. The surrounding runtime binds sockets and
//! spawns tasks along the returned plan.

use vstd::prelude::*;

use crate::Interest;
use crate::Event;
use crate::ext::{regex_match, regex_new, regex_ok};
use crate::protocols::Protocol;

verus! {

/// One peer endpoint: an address, a transport protocol, and an interest
/// pattern over event topics.
pub struct Channel {
    /// The `host:port` address of the endpoint.
    pub address: String,
    /// The transport to use.
    pub protocol: Protocol,
    /// The interest pattern tied to this channel.
    pub interest: String,
}

/// A group of channels on one side of a configuration unit.
pub struct Node {
    /// The channels of this side, in configuration order.
    pub channels: Vec<Channel>,
}

/// The receiver side of a unit: the advertisement topic and interest used by
/// the handshake, and the local endpoints to bind.
pub struct ReceiverSide {
    /// The topic under which this node advertises itself to new peers.
    pub adv_topic: String,
    /// The pattern that recognises advertisements from peers.
    pub adv_interest: String,
    /// The local endpoints to bind.
    pub node: Node,
}

/// One configuration unit: an optional receiver side and an optional sender
/// side.
pub struct Config {
    /// Local endpoints to bind, if any.
    pub receiver: Option<ReceiverSide>,
    /// Remote endpoints to connect out to, if any.
    pub sender: Option<Node>,
}

/// One endpoint ready to launch: the channel's address and protocol with its
/// compiled interest.
pub struct Endpoint {
    /// The `host:port` address of the endpoint.
    pub address: String,
    /// The transport to use.
    pub protocol: Protocol,
    /// The compiled interest of the channel.
    pub interest: Interest,
}

/// The channels whose interest patterns compile, in configuration order.
pub open spec fn spec_valid_channels(chs: Seq<Channel>) -> Seq<Channel>
    decreases chs.len(),
{
    if chs.len() == 0 {
        Seq::empty()
    } else {
        spec_valid_channels(chs.drop_last()) + (if regex_ok(chs.last().interest@) {
            seq![chs.last()]
        } else {
            Seq::empty()
        })
    }
}

/// The endpoints realise exactly the given channels: same addresses, same
/// protocols, and each interest compiled from the channel's pattern.
pub open spec fn endpoints_match(eps: Seq<Endpoint>, chs: Seq<Channel>) -> bool {
    eps.map_values(|e: Endpoint| (e.address@, e.protocol, e.interest@)) == chs.map_values(
        |c: Channel| (c.address@, c.protocol, c.interest@),
    )
}

/// Every channel that survives the validity filter has a pattern that
/// compiles.
pub proof fn lemma_valid_channels_ok(chs: Seq<Channel>)
    ensures
        forall|i: int|
            0 <= i < spec_valid_channels(chs).len() ==> regex_ok(
                #[trigger] spec_valid_channels(chs)[i].interest@,
            ),
    decreases chs.len(),
{
    if chs.len() > 0 {
        lemma_valid_channels_ok(chs.drop_last());
    }
}

/// Compiles the interests of the given channels, skipping every channel
/// whose pattern does not compile.
pub fn plan_channels(chs: &Vec<Channel>) -> (r: Vec<Endpoint>)
    ensures
        endpoints_match(r@, spec_valid_channels(chs@)),
{
    let mut out: Vec<Endpoint> = Vec::new();
    let mut i: usize = 0;
    proof {
        assert(spec_valid_channels(chs@.subrange(0, 0)) =~= Seq::<Channel>::empty());
        assert(out@.map_values(|e: Endpoint| (e.address@, e.protocol, e.interest@))
            =~= spec_valid_channels(chs@.subrange(0, 0)).map_values(
            |c: Channel| (c.address@, c.protocol, c.interest@),
        ));
    }
    while i < chs.len()
        invariant
            i <= chs.len(),
            endpoints_match(out@, spec_valid_channels(chs@.subrange(0, i as int))),
        decreases chs.len() - i,
    {
        let ghost prefix = chs@.subrange(0, i as int);
        let ghost out_before = out@;
        let ch = &chs[i];
        match regex_new(ch.interest.as_str()) {
            Ok(re) => {
                let ep = Endpoint {
                    address: ch.address.clone(),
                    protocol: ch.protocol,
                    interest: Interest::new(re),
                };
                out.push(ep);
            },
            Err(_) => {},
        }
        proof {
            let f = |e: Endpoint| (e.address@, e.protocol, e.interest@);
            let g = |c: Channel| (c.address@, c.protocol, c.interest@);
            let prefix2 = chs@.subrange(0, i + 1);
            assert(prefix2.drop_last() =~= prefix);
            assert(prefix2.last() == chs@[i as int]);
            if regex_ok(chs@[i as int].interest@) {
                assert(spec_valid_channels(prefix2) =~= spec_valid_channels(prefix).push(
                    chs@[i as int],
                ));
                assert(out@ == out_before.push(out@.last()));
                assert(f(out@.last()) == g(chs@[i as int]));
                assert(out@.map_values(f) =~= out_before.map_values(f).push(f(out@.last())));
                assert(spec_valid_channels(prefix2).map_values(g) =~= spec_valid_channels(
                    prefix,
                ).map_values(g).push(g(chs@[i as int])));
            } else {
                assert(spec_valid_channels(prefix2) =~= spec_valid_channels(prefix));
            }
            assert(out@.map_values(f) =~= spec_valid_channels(prefix2).map_values(g));
        }
        i = i + 1;
    }
    proof {
        assert(chs@.subrange(0, chs@.len() as int) =~= chs@);
    }
    out
}

/// What one configuration unit launches.
pub struct UnitPlan {
    /// The local endpoints to bind, one per receiver channel whose pattern
    /// compiles.
    pub receivers: Vec<Endpoint>,
    /// The remote endpoints to connect, one per sender channel whose pattern
    /// compiles.
    pub senders: Vec<Endpoint>,
    /// The advertisement interest of the unit's redirector, present exactly
    /// when advertising is on and the unit's receiver side carries a
    /// compiling advertisement pattern.
    pub redirect: Option<Interest>,
}

/// Plans one configuration unit: compiles the channel interests of both
/// sides, skipping malformed channels, and decides whether the unit runs an
/// advertisement redirector.
pub fn plan_unit(config: &Config, advertise: bool) -> (r: UnitPlan)
    ensures
        config.receiver matches Some(rcv) ==> endpoints_match(
            r.receivers@,
            spec_valid_channels(rcv.node.channels@),
        ),
        config.receiver is None ==> r.receivers@.len() == 0,
        config.sender matches Some(n) ==> endpoints_match(
            r.senders@,
            spec_valid_channels(n.channels@),
        ),
        config.sender is None ==> r.senders@.len() == 0,
        r.redirect is Some <==> (advertise && config.receiver is Some && regex_ok(
            config.receiver->0.adv_interest@,
        )),
        r.redirect is Some ==> r.redirect->0@ == config.receiver->0.adv_interest@,
{
    let receivers = match &config.receiver {
        Some(rcv) => plan_channels(&rcv.node.channels),
        None => Vec::new(),
    };
    let senders = match &config.sender {
        Some(n) => plan_channels(&n.channels),
        None => Vec::new(),
    };
    let redirect = if advertise {
        match &config.receiver {
            Some(rcv) => match regex_new(rcv.adv_interest.as_str()) {
                Ok(re) => Some(Interest::new(re)),
                Err(_) => None,
            },
            None => None,
        }
    } else {
        None
    };
    UnitPlan { receivers, senders, redirect }
}

/// Where a receiver's drain task routes one received event.
#[derive(Clone, Copy, PartialEq, Eq, Structural, Debug)]
pub enum Route {
    /// The event is a peer's advertisement: hand it to the redirector.
    ToRedirect,
    /// The event matches the channel's interest: forward it through the
    /// dispatcher.
    ToDispatcher,
    /// The event matches neither: drop it.
    Drop,
}

/// The decision of a receiver's drain task for one received event: an
/// advertisement outranks the channel's interest, and an event that matches
/// neither is dropped.
pub fn route_received(redirect: Option<&Interest>, interest: &Interest, event: &Event) -> (r:
    Route)
    ensures
        r == Route::ToRedirect <==> (redirect matches Some(adv) && regex_match(
            adv@,
            event.topic@,
        )),
        r == Route::ToDispatcher <==> (!(redirect matches Some(adv) && regex_match(
            adv@,
            event.topic@,
        )) && regex_match(interest@, event.topic@)),
{
    match redirect {
        Some(adv) => {
            if adv.is_valid(event) {
                Route::ToRedirect
            } else if interest.is_valid(event) {
                Route::ToDispatcher
            } else {
                Route::Drop
            }
        },
        None => {
            if interest.is_valid(event) {
                Route::ToDispatcher
            } else {
                Route::Drop
            }
        },
    }
}

} // verus!
