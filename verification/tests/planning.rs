use commnode::config::{plan_channels, plan_unit, route_received, Channel, Config, Node, ReceiverSide, Route};
use commnode::protocols::Protocol;
use commnode::{Event, Interest};
use regex::Regex;

fn channel(address: &str, protocol: Protocol, interest: &str) -> Channel {
    Channel { address: address.to_string(), protocol, interest: interest.to_string() }
}

#[test]
fn protocol_labels() {
    assert_eq!(Protocol::TCP.label(), "TCP");
    assert_eq!(Protocol::UDP.label(), "UDP");
}

#[test]
fn malformed_channel_is_skipped() {
    let chs = vec![
        channel("127.0.0.1:8000", Protocol::TCP, r"^TCP$"),
        channel("127.0.0.1:8001", Protocol::UDP, r"(unclosed"),
        channel("127.0.0.1:8002", Protocol::UDP, r"^UDP$"),
    ];
    let eps = plan_channels(&chs);
    assert_eq!(eps.len(), 2);
    assert_eq!(eps[0].address, "127.0.0.1:8000");
    assert_eq!(eps[1].address, "127.0.0.1:8002");
    assert!(eps[0].interest.is_valid(&Event::new("TCP", Vec::new())));
    assert!(!eps[0].interest.is_valid(&Event::new("UDP", Vec::new())));
    assert!(eps[1].interest.is_valid(&Event::new("UDP", Vec::new())));
}

#[test]
fn unit_plan_covers_both_sides() {
    let config = Config {
        receiver: Some(ReceiverSide {
            adv_topic: "adv".to_string(),
            adv_interest: r"^adv$".to_string(),
            node: Node {
                channels: vec![
                    channel("127.0.0.1:8000", Protocol::TCP, r"^TCP$"),
                    channel("127.0.0.1:8001", Protocol::UDP, r"^UDP$"),
                ],
            },
        }),
        sender: Some(Node {
            channels: vec![
                channel("127.0.0.1:8010", Protocol::TCP, r"^TCP 1$"),
                channel("127.0.0.1:8011", Protocol::UDP, r"^UDP 1$"),
                channel("127.0.0.1:8020", Protocol::TCP, r"^TCP 2$"),
                channel("127.0.0.1:8021", Protocol::UDP, r"^UDP 2$"),
            ],
        }),
    };
    let plan = plan_unit(&config, false);
    assert_eq!(plan.receivers.len(), 2);
    assert_eq!(plan.senders.len(), 4);
    assert!(plan.redirect.is_none());
    assert_eq!(plan.senders[2].address, "127.0.0.1:8020");

    let plan_adv = plan_unit(&config, true);
    let adv = plan_adv.redirect.expect("advertising unit must get a redirector");
    assert!(adv.is_valid(&Event::new("adv", Vec::new())));
    assert!(!adv.is_valid(&Event::new("other", Vec::new())));
}

#[test]
fn unit_without_receiver_side() {
    let config = Config { receiver: None, sender: None };
    let plan = plan_unit(&config, true);
    assert_eq!(plan.receivers.len(), 0);
    assert_eq!(plan.senders.len(), 0);
    assert!(plan.redirect.is_none());
}

#[test]
fn malformed_advertisement_pattern_disables_redirect() {
    let config = Config {
        receiver: Some(ReceiverSide {
            adv_topic: "adv".to_string(),
            adv_interest: r"(bad".to_string(),
            node: Node { channels: Vec::new() },
        }),
        sender: None,
    };
    let plan = plan_unit(&config, true);
    assert!(plan.redirect.is_none());
}

#[test]
fn cloned_interest_matches_like_the_original() {
    let original = Interest::new(Regex::new(r"^only[ab]$").unwrap());
    let copy = original.clone();
    assert!(copy.is_valid(&Event::new("onlya", Vec::new())));
    assert!(!copy.is_valid(&Event::new("onlyc", Vec::new())));
}

#[test]
fn routing_prefers_advertisements() {
    let adv = Interest::new(Regex::new(r"^adv$").unwrap());
    let chan = Interest::new(Regex::new(r"^data$").unwrap());
    let advertisement = Event::new("adv", Vec::new());
    let data = Event::new("data", Vec::new());
    let noise = Event::new("noise", Vec::new());
    assert_eq!(route_received(Some(&adv), &chan, &advertisement), Route::ToRedirect);
    assert_eq!(route_received(Some(&adv), &chan, &data), Route::ToDispatcher);
    assert_eq!(route_received(Some(&adv), &chan, &noise), Route::Drop);
    assert_eq!(route_received(None, &chan, &advertisement), Route::Drop);
    assert_eq!(route_received(None, &chan, &data), Route::ToDispatcher);
}
