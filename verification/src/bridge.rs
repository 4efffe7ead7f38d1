//! The bridge protocol: the request/response documents a local client
//! exchanges with the node, and the decisions of the per-connection session.
//!
//! A client sends framed text documents. Each request may carry `sends`
//! (events to publish, each optionally expecting replies) and `recvs`
//! (subscriptions whose matching events stream back). The session loop and
//! the socket I/O live in the surrounding runtime; this module holds the
//! protocol data and the verified decisions: which reply subscriptions a
//! request asks for, which events it publishes and with what packet payload,
//! what queue capacity a requested subscription gets, and how one turn of
//! the session state machine ends.

use vstd::prelude::*;
use vstd::slice::slice_to_vec;

verus! {

/// A requested subscription: a client-chosen identifier, an interest
/// pattern, and how many events to collect (`0`: stream indefinitely).
pub struct Recv {
    /// The identifier under which results are reported back.
    pub id: String,
    /// The interest pattern to subscribe with.
    pub interest: String,
    /// How many matching events to collect; `0` asks for an unbounded
    /// stream.
    pub num: u16,
}

/// The expectation attached to a send: the topic the replier should answer
/// on, and the subscription that collects the replies.
pub struct Expect {
    /// The reply topic, carried to the replier inside the packet.
    pub topic: String,
    /// The subscription that collects the replies.
    pub recv: Recv,
}

/// One event to publish: a topic, a payload, and an optional expectation.
pub struct SendReq {
    /// The topic to publish under.
    pub topic: String,
    /// The payload bytes.
    pub data: Vec<u8>,
    /// The replies to await, if any.
    pub expect: Option<Expect>,
}

/// One request document.
pub struct Request {
    /// Events to publish.
    pub sends: Option<Vec<SendReq>>,
    /// Subscriptions to stream back.
    pub recvs: Option<Vec<Recv>>,
}

/// The payload a bridge publish carries: the reply topic, if a reply is
/// expected, and the data.
pub struct Packet {
    /// Where the replier should answer, if anywhere.
    pub topic: Option<String>,
    /// The payload bytes.
    pub data: Vec<u8>,
}

/// The results of one requested subscription.
pub struct Res {
    /// The identifier of the subscription these packets answer.
    pub id: String,
    /// The collected packets.
    pub packets: Vec<Packet>,
}

/// One response document.
pub struct Response {
    /// One entry per answered subscription.
    pub ress: Vec<Res>,
}

/// A requested subscription as its plain values.
pub open spec fn recv_view(r: Recv) -> (Seq<char>, Seq<char>, u16) {
    (r.id@, r.interest@, r.num)
}

/// A packet as its plain values.
pub open spec fn packet_view(p: Packet) -> (Option<Seq<char>>, Seq<u8>) {
    (
        match p.topic {
            Some(t) => Some(t@),
            None => None,
        },
        p.data@,
    )
}

/// The queue capacity of a subscription requested with `num == 0`, which
/// streams indefinitely.
pub const STREAM_CAPACITY: usize = 32;

/// The queue capacity for a requested subscription: `num` itself, or the
/// streaming default when `num` is zero.
pub fn recv_capacity(num: u16) -> (r: usize)
    ensures
        num == 0 ==> r == STREAM_CAPACITY,
        num != 0 ==> r == num,
        0 < r <= usize::MAX / 8,
{
    if num == 0 {
        STREAM_CAPACITY
    } else {
        num as usize
    }
}

/// The packet a send publishes: the expected reply topic, if any, and the
/// send's data.
pub fn packet_for(send: &SendReq) -> (r: Packet)
    ensures
        packet_view(r) == (
            match send.expect {
                Some(x) => Some(x.topic@),
                None => None::<Seq<char>>,
            },
            send.data@,
        ),
{
    Packet {
        topic: match &send.expect {
            Some(x) => Some(x.topic.clone()),
            None => None,
        },
        data: slice_to_vec(send.data.as_slice()),
    }
}

/// The reply subscriptions a request's sends ask for: the `recv` of each
/// send that carries an expectation, in request order.
pub open spec fn spec_expected_recvs(sends: Seq<SendReq>) -> Seq<(Seq<char>, Seq<char>, u16)>
    decreases sends.len(),
{
    if sends.len() == 0 {
        Seq::empty()
    } else {
        spec_expected_recvs(sends.drop_last()) + (match sends.last().expect {
            Some(x) => seq![recv_view(x.recv)],
            None => Seq::empty(),
        })
    }
}

/// Collects the reply subscriptions of the sends that expect replies, in
/// request order.
pub fn expected_recvs(sends: &Vec<SendReq>) -> (r: Vec<Recv>)
    ensures
        r@.map_values(|x: Recv| recv_view(x)) == spec_expected_recvs(sends@),
{
    let mut out: Vec<Recv> = Vec::new();
    let mut i: usize = 0;
    proof {
        assert(spec_expected_recvs(sends@.subrange(0, 0)) =~= Seq::<
            (Seq<char>, Seq<char>, u16),
        >::empty());
        assert(out@.map_values(|x: Recv| recv_view(x)) =~= spec_expected_recvs(
            sends@.subrange(0, 0),
        ));
    }
    while i < sends.len()
        invariant
            i <= sends.len(),
            out@.map_values(|x: Recv| recv_view(x)) == spec_expected_recvs(
                sends@.subrange(0, i as int),
            ),
        decreases sends.len() - i,
    {
        let ghost prefix = sends@.subrange(0, i as int);
        let ghost out_before = out@;
        match &sends[i].expect {
            Some(x) => {
                let copy = Recv {
                    id: x.recv.id.clone(),
                    interest: x.recv.interest.clone(),
                    num: x.recv.num,
                };
                out.push(copy);
            },
            None => {},
        }
        proof {
            let v = |x: Recv| recv_view(x);
            let prefix2 = sends@.subrange(0, i + 1);
            assert(prefix2.drop_last() =~= prefix);
            assert(prefix2.last() == sends@[i as int]);
            if sends@[i as int].expect is Some {
                assert(out@ == out_before.push(out@.last()));
                assert(v(out@.last()) == recv_view(sends@[i as int].expect->0.recv));
                assert(out@.map_values(v) =~= out_before.map_values(v).push(v(out@.last())));
                assert(spec_expected_recvs(prefix2) =~= spec_expected_recvs(prefix).push(
                    recv_view(sends@[i as int].expect->0.recv),
                ));
            } else {
                assert(spec_expected_recvs(prefix2) =~= spec_expected_recvs(prefix));
            }
            assert(out@.map_values(v) =~= spec_expected_recvs(prefix2));
        }
        i = i + 1;
    }
    proof {
        assert(sends@.subrange(0, sends@.len() as int) =~= sends@);
    }
    out
}

/// The events a request's sends publish: one per send, in request order,
/// each carrying the topic of the send and the packet of [`packet_for`].
pub fn publish_plan(sends: &Vec<SendReq>) -> (r: Vec<(String, Packet)>)
    ensures
        r@.len() == sends@.len(),
        forall|i: int|
            0 <= i < r@.len() ==> (#[trigger] r@[i]).0@ == sends@[i].topic@ && packet_view(r@[i].1)
                == (
            match sends@[i].expect {
                Some(x) => Some(x.topic@),
                None => None::<Seq<char>>,
            },
            sends@[i].data@,
            ),
{
    let mut out: Vec<(String, Packet)> = Vec::new();
    let mut i: usize = 0;
    while i < sends.len()
        invariant
            i <= sends.len(),
            out@.len() == i,
            forall|k: int|
                0 <= k < out@.len() ==> (#[trigger] out@[k]).0@ == sends@[k].topic@ && packet_view(
                    out@[k].1,
                ) == (
                match sends@[k].expect {
                    Some(x) => Some(x.topic@),
                    None => None::<Seq<char>>,
                },
                sends@[k].data@,
                ),
        decreases sends.len() - i,
    {
        let send = &sends[i];
        let packet = packet_for(send);
        out.push((send.topic.clone(), packet));
        i = i + 1;
    }
    out
}

/// How one turn of a bridge session's request loop ended.
#[derive(Clone, Copy, PartialEq, Eq, Structural, Debug)]
pub enum SessionOutcome {
    /// A request was handled; any owed response went out.
    Processed,
    /// A frame arrived but could not be decoded, parsed or answered; the
    /// session must close.
    Crashed,
    /// The peer closed the connection.
    Disconnected,
}

/// One turn of the session state machine: no frame means the peer
/// disconnected; a frame that fails decoding or parsing, or whose owed
/// response could not be sent, crashes the session; anything else counts as
/// processed — an empty response is owed to nobody.
pub fn session_outcome(received: bool, parsed: bool, owes_response: bool, response_sent: bool) -> (r:
    SessionOutcome)
    ensures
        r == SessionOutcome::Disconnected <==> !received,
        r == SessionOutcome::Crashed <==> (received && !(parsed && (response_sent
            || !owes_response))),
        r == SessionOutcome::Processed <==> (received && parsed && (response_sent
            || !owes_response)),
{
    if !received {
        SessionOutcome::Disconnected
    } else if parsed && (response_sent || !owes_response) {
        SessionOutcome::Processed
    } else {
        SessionOutcome::Crashed
    }
}

} // verus!
