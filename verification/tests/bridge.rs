use commnode::bridge::{
    expected_recvs, packet_for, publish_plan, recv_capacity, session_outcome, Expect, Recv,
    SendReq, SessionOutcome, STREAM_CAPACITY,
};
use commnode::{Command, Dispatcher, Event, Interest, Subscription};
use regex::Regex;

fn recv(id: &str, interest: &str, num: u16) -> Recv {
    Recv { id: id.to_string(), interest: interest.to_string(), num }
}

fn send(topic: &str, data: &[u8], expect: Option<Expect>) -> SendReq {
    SendReq { topic: topic.to_string(), data: data.to_vec(), expect }
}

#[test]
fn capacity_defaults_to_streaming() {
    assert_eq!(recv_capacity(0), STREAM_CAPACITY);
    assert_eq!(recv_capacity(0), 32);
    assert_eq!(recv_capacity(1), 1);
    assert_eq!(recv_capacity(65535), 65535);
}

#[test]
fn packet_carries_expected_reply_topic() {
    let with = send("q", b"body", Some(Expect { topic: "reply".to_string(), recv: recv("r", r"^reply$", 1) }));
    let p = packet_for(&with);
    assert_eq!(p.topic.as_deref(), Some("reply"));
    assert_eq!(p.data, b"body".to_vec());

    let without = send("q", b"body", None);
    let p2 = packet_for(&without);
    assert!(p2.topic.is_none());
    assert_eq!(p2.data, b"body".to_vec());
}

#[test]
fn expected_recvs_keeps_request_order() {
    let sends = vec![
        send("a", b"1", Some(Expect { topic: "ra".to_string(), recv: recv("ia", r"^ra$", 1) })),
        send("b", b"2", None),
        send("c", b"3", Some(Expect { topic: "rc".to_string(), recv: recv("ic", r"^rc$", 2) })),
    ];
    let recvs = expected_recvs(&sends);
    assert_eq!(recvs.len(), 2);
    assert_eq!(recvs[0].id, "ia");
    assert_eq!(recvs[0].num, 1);
    assert_eq!(recvs[1].id, "ic");
    assert_eq!(recvs[1].interest, r"^rc$");
}

#[test]
fn publish_plan_one_event_per_send() {
    let sends = vec![
        send("a", b"1", Some(Expect { topic: "ra".to_string(), recv: recv("ia", r"^ra$", 1) })),
        send("b", b"2", None),
    ];
    let plan = publish_plan(&sends);
    assert_eq!(plan.len(), 2);
    assert_eq!(plan[0].0, "a");
    assert_eq!(plan[0].1.topic.as_deref(), Some("ra"));
    assert_eq!(plan[0].1.data, b"1".to_vec());
    assert_eq!(plan[1].0, "b");
    assert!(plan[1].1.topic.is_none());
    assert_eq!(plan[1].1.data, b"2".to_vec());
}

#[test]
fn send_expect_round_trip() {
    let mut dispatcher = Dispatcher::new();

    // a test peer answers on ^reply$ whatever arrives on ^q$
    let (peer_sub, mut peer_rx) =
        Subscription::new(Interest::new(Regex::new(r"^q$").unwrap()), 8);
    dispatcher.handle(Command::Subscribe(peer_sub));

    // the client's request: one send expecting exactly one reply
    let request_sends = vec![send(
        "q",
        b"question",
        Some(Expect { topic: "reply".to_string(), recv: recv("r", r"^reply$", 1) }),
    )];

    // the session subscribes each expectation before publishing
    let expects = expected_recvs(&request_sends);
    assert_eq!(expects.len(), 1);
    let (expect_sub, mut expect_rx) = Subscription::new(
        Interest::new(Regex::new(&expects[0].interest).unwrap()),
        recv_capacity(expects[0].num),
    );
    dispatcher.handle(Command::Subscribe(expect_sub));

    // ... then publishes the planned events
    for (topic, packet) in publish_plan(&request_sends) {
        assert_eq!(packet.topic.as_deref(), Some("reply"));
        dispatcher.handle(Command::Forward(Event::new(&topic, packet.data)));
    }

    // the peer sees the question and answers on the expected topic
    let question = peer_rx.try_recv().unwrap();
    assert_eq!(question.topic, "q");
    assert_eq!(question.data, b"question".to_vec());
    dispatcher.handle(Command::Forward(Event::new("reply", b"answer".to_vec())));

    // exactly one reply reaches the expectation's queue
    let reply = expect_rx.try_recv().unwrap();
    assert_eq!(reply.topic, "reply");
    assert_eq!(reply.data, b"answer".to_vec());
    assert!(expect_rx.try_recv().is_err());
}

#[test]
fn session_outcomes() {
    assert_eq!(session_outcome(false, false, false, false), SessionOutcome::Disconnected);
    assert_eq!(session_outcome(true, false, false, false), SessionOutcome::Crashed);
    assert_eq!(session_outcome(true, true, true, false), SessionOutcome::Crashed);
    assert_eq!(session_outcome(true, true, true, true), SessionOutcome::Processed);
    assert_eq!(session_outcome(true, true, false, false), SessionOutcome::Processed);
}
