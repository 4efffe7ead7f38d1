use commnode::{Command, Dispatcher, Event, ForwardOutcome, Interest, Subscription};
use regex::Regex;

fn interest(pattern: &str) -> Interest {
    Interest::new(Regex::new(pattern).unwrap())
}

#[test]
fn local() {
    let mut dispatcher = Dispatcher::new();
    let (sub, mut rx) = Subscription::new(interest(r"^test[0-9]$"), 32);
    dispatcher.handle(Command::Subscribe(sub));
    let event = Event::new("test0", "success".as_bytes().to_vec());
    dispatcher.handle(Command::Forward(event));
    let msg = rx.try_recv().unwrap();
    assert!(msg.as_ref().data.to_vec().ends_with("success".as_bytes()));
    assert!(rx.try_recv().is_err());
}

#[test]
fn interest_isolation() {
    let mut dispatcher = Dispatcher::new();
    let (sub_a, mut rx_a) = Subscription::new(interest(r"^a$"), 8);
    let (sub_b, mut rx_b) = Subscription::new(interest(r"^b$"), 8);
    dispatcher.handle(Command::Subscribe(sub_a));
    dispatcher.handle(Command::Subscribe(sub_b));
    dispatcher.handle(Command::Forward(Event::new("a", b"x".to_vec())));
    let got = rx_a.try_recv().unwrap();
    assert_eq!(got.topic, "a");
    assert_eq!(got.data, b"x".to_vec());
    assert!(rx_a.try_recv().is_err());
    assert!(rx_b.try_recv().is_err());
}

#[test]
fn delivered_only_when_matching() {
    let (sub, mut rx) = Subscription::new(interest(r"^test[0-9]$"), 8);
    let e = Event::new("nope", b"x".to_vec());
    assert_eq!(sub.forward(std::sync::Arc::new(e)), ForwardOutcome::NotMatched);
    let e2 = Event::new("test5", b"y".to_vec());
    assert_eq!(sub.forward(std::sync::Arc::new(e2)), ForwardOutcome::Delivered);
    let got = rx.try_recv().unwrap();
    assert_eq!(got.topic, "test5");
    assert_eq!(got.data, b"y".to_vec());
    assert!(rx.try_recv().is_err());
}

#[test]
fn full_queue_drops_without_blocking() {
    let mut dispatcher = Dispatcher::new();
    let (sub, mut rx) = Subscription::new(interest(r"^t$"), 1);
    dispatcher.handle(Command::Subscribe(sub));
    let first = dispatcher.handle(Command::Forward(Event::new("t", b"one".to_vec())));
    assert_eq!(first, vec![Some(ForwardOutcome::Delivered)]);
    let second = dispatcher.handle(Command::Forward(Event::new("t", b"two".to_vec())));
    assert_eq!(second, vec![Some(ForwardOutcome::DroppedFull)]);
    let got = rx.try_recv().unwrap();
    assert_eq!(got.data, b"one".to_vec());
    assert!(rx.try_recv().is_err());
}

#[test]
fn closed_consumer_observed() {
    let (sub, rx) = Subscription::new(interest(r"^t$"), 4);
    assert!(sub.is_active());
    drop(rx);
    assert!(!sub.is_active());
    let e = Event::new("t", b"x".to_vec());
    assert_eq!(sub.forward(std::sync::Arc::new(e)), ForwardOutcome::DroppedClosed);
}

#[test]
fn dead_subscriber_reaping() {
    let mut dispatcher = Dispatcher::new();
    let (sub, rx) = Subscription::new(interest(r"^match$"), 8);
    dispatcher.handle(Command::Subscribe(sub));
    assert_eq!(dispatcher.subscription_count(), 1);
    drop(rx);
    dispatcher.handle(Command::Forward(Event::new("match", b"x".to_vec())));
    dispatcher.handle(Command::Forward(Event::new("match", b"x".to_vec())));
    assert_eq!(dispatcher.subscription_count(), 0);
}

#[test]
fn publish_order_is_delivery_order() {
    let mut dispatcher = Dispatcher::new();
    let (sub, mut rx) = Subscription::new(interest(r"^seq$"), 8);
    dispatcher.handle(Command::Subscribe(sub));
    dispatcher.handle(Command::Forward(Event::new("seq", b"1".to_vec())));
    dispatcher.handle(Command::Forward(Event::new("other", b"skip".to_vec())));
    dispatcher.handle(Command::Forward(Event::new("seq", b"2".to_vec())));
    dispatcher.handle(Command::Forward(Event::new("seq", b"3".to_vec())));
    assert_eq!(rx.try_recv().unwrap().data, b"1".to_vec());
    assert_eq!(rx.try_recv().unwrap().data, b"2".to_vec());
    assert_eq!(rx.try_recv().unwrap().data, b"3".to_vec());
    assert!(rx.try_recv().is_err());
}

#[test]
fn subscription_validity_follows_interest() {
    let (sub, _rx) = Subscription::new(interest(r"^ab+c$"), 4);
    assert!(sub.is_valid(&Event::new("abbbc", Vec::new())));
    assert!(!sub.is_valid(&Event::new("ac", Vec::new())));
}

#[test]
fn identical_interests_subscribe_independently() {
    let mut dispatcher = Dispatcher::new();
    let (sub1, mut rx1) = Subscription::new(interest(r"^same$"), 4);
    let (sub2, mut rx2) = Subscription::new(interest(r"^same$"), 4);
    dispatcher.handle(Command::Subscribe(sub1));
    dispatcher.handle(Command::Subscribe(sub2));
    assert_eq!(dispatcher.subscription_count(), 2);
    dispatcher.handle(Command::Forward(Event::new("same", b"x".to_vec())));
    assert_eq!(rx1.try_recv().unwrap().data, b"x".to_vec());
    assert_eq!(rx2.try_recv().unwrap().data, b"x".to_vec());
}

#[test]
fn event_new_keeps_topic_and_data() {
    let e = Event::new("topic.x", vec![0u8, 255u8]);
    assert_eq!(e.topic, "topic.x");
    assert_eq!(e.data, vec![0u8, 255u8]);
}
