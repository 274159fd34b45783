use escalon::types::{resolve_destination, BROADCAST_IP, DISCOVERY_PORT, HEARTBEAT, THRESHOLD};
use escalon::{Action, Client, Endpoint, IpAddress, Message, Node, Outbound, Registry};

fn ep(last: u8, port: u16) -> Endpoint {
    Endpoint { ip: IpAddress::V4(u32::from_be_bytes([10, 0, 0, last])), port }
}

fn join(id: &str) -> Message {
    Message { action: Action::Join(id.to_string()) }
}

fn check(id: &str) -> Message {
    Message { action: Action::Check(id.to_string()) }
}

fn is_join_of(o: &Outbound, id: &str) -> bool {
    matches!(&o.message.action, Action::Join(x) if x == id)
}

#[test]
fn join_twice_keeps_one_entry_with_first_address() {
    let mut node = Node::new("self".to_string());
    node.handle_action(join("x"), ep(1, 4000), 100);
    node.handle_action(join("x"), ep(2, 5000), 107);
    assert_eq!(node.clients.len(), 1);
    assert_eq!(
        node.clients.get(&"x".to_string()),
        Some(Client { address: ep(1, 4000), last_seen: 107 })
    );
}

#[test]
fn own_messages_change_nothing() {
    let mut node = Node::new("self".to_string());
    assert!(node.handle_action(join("self"), ep(1, 4000), 10).is_none());
    assert!(node.handle_action(check("self"), ep(1, 4000), 11).is_none());
    assert_eq!(node.clients.len(), 0);
    assert!(!node.clients.contains(&"self".to_string()));
}

#[test]
fn eviction_boundary() {
    let now: i64 = 1000;
    let mut node = Node::new("self".to_string());
    node.handle_action(check("old"), ep(1, 1), now - THRESHOLD - 1);
    node.handle_action(check("young"), ep(2, 2), now - THRESHOLD + 1);
    node.handle_action(check("edge"), ep(3, 3), now - THRESHOLD);
    let (_, removed) = node.heartbeat_tick(now);
    assert_eq!(removed, vec!["old".to_string()]);
    assert!(!node.clients.contains(&"old".to_string()));
    assert!(node.clients.contains(&"young".to_string()));
    assert!(node.clients.contains(&"edge".to_string()));
    assert_eq!(node.clients.len(), 2);
}

#[test]
fn out_of_order_messages_converge_to_latest_time() {
    let mut a = Node::new("self".to_string());
    let mut b = Node::new("self".to_string());
    let times: [i64; 4] = [50, 80, 20, 65];
    for (i, t) in times.iter().enumerate() {
        let m = if i % 2 == 0 { join("p") } else { check("p") };
        a.handle_action(m, ep(1, 9), *t);
    }
    for (i, t) in times.iter().rev().enumerate() {
        let m = if i % 2 == 0 { check("p") } else { join("p") };
        b.handle_action(m, ep(1, 9), *t);
    }
    assert_eq!(a.clients.len(), 1);
    assert_eq!(b.clients.len(), 1);
    assert_eq!(a.clients.get(&"p".to_string()).unwrap().last_seen, 80);
    assert_eq!(b.clients.get(&"p".to_string()).unwrap().last_seen, 80);
}

#[test]
fn new_peer_is_answered_once_directly() {
    let mut node = Node::new("self".to_string());
    let r = node.handle_action(join("y"), ep(7, 7000), 5).expect("a reply");
    assert!(is_join_of(&r, "self"));
    assert_eq!(r.destination, Some(ep(7, 7000)));
    assert!(node.handle_action(join("y"), ep(7, 7000), 6).is_none());
}

#[test]
fn check_from_new_peer_is_not_answered() {
    let mut node = Node::new("self".to_string());
    assert!(node.handle_action(check("z"), ep(3, 3000), 5).is_none());
    assert!(node.clients.contains(&"z".to_string()));
}

#[test]
fn end_to_end_join_then_silence() {
    let mut a = Node::new("A".to_string());
    let mut b = Node::new("B".to_string());
    let hello = a.send_join();
    assert!(is_join_of(&hello, "A"));
    assert_eq!(hello.destination, None);
    let t0: i64 = 10_000;
    let answer = b.handle_action(hello.message, ep(1, 6000), t0);
    assert!(answer.is_some());
    assert!(b.clients.contains(&"A".to_string()));
    assert!(HEARTBEAT as i64 <= THRESHOLD);
    b.heartbeat_tick(t0 + HEARTBEAT as i64);
    assert!(b.clients.contains(&"A".to_string()));
    let (_, removed) = b.heartbeat_tick(t0 + THRESHOLD + 1);
    assert_eq!(removed, vec!["A".to_string()]);
    assert!(!b.clients.contains(&"A".to_string()));
}

#[test]
fn heartbeat_broadcasts_own_check() {
    let mut node = Node::new("me".to_string());
    let (out, removed) = node.heartbeat_tick(0);
    assert!(matches!(&out.message.action, Action::Check(x) if x == "me"));
    assert_eq!(out.destination, None);
    assert!(removed.is_empty());
}

#[test]
fn destination_defaults_to_broadcast() {
    let b = resolve_destination(None);
    assert_eq!(b, Endpoint { ip: IpAddress::V4(BROADCAST_IP), port: DISCOVERY_PORT });
    assert_eq!(b.ip, IpAddress::V4(0xffff_ffff));
    assert_eq!(b.port, 65056);
    assert_eq!(resolve_destination(Some(ep(4, 12))), ep(4, 12));
}

#[test]
fn registry_refresh_never_goes_back_in_time() {
    let mut r = Registry::new();
    r.upsert("q".to_string(), ep(1, 1), 90);
    r.upsert("q".to_string(), ep(2, 2), 40);
    assert_eq!(r.get(&"q".to_string()), Some(Client { address: ep(1, 1), last_seen: 90 }));
    assert_eq!(r.get(&"none".to_string()), None);
}

#[test]
fn sweep_of_empty_registry() {
    let mut r = Registry::new();
    assert!(r.sweep(i64::MAX).is_empty());
    assert_eq!(r.len(), 0);
}

#[test]
fn extreme_timestamps_do_not_overflow() {
    let mut r = Registry::new();
    r.upsert("lo".to_string(), ep(1, 1), i64::MIN);
    r.upsert("hi".to_string(), ep(2, 2), i64::MAX);
    let removed = r.sweep(i64::MAX);
    assert_eq!(removed, vec!["lo".to_string()]);
    assert_eq!(r.len(), 1);
}

#[test]
fn handle_action_now_stamps_the_current_time() {
    let mut node = Node::new("self".to_string());
    node.handle_action_now(check("w"), ep(5, 5));
    let seen = node.clients.get(&"w".to_string()).unwrap().last_seen;
    assert!(seen > 1_600_000_000);
    let (out, removed) = node.heartbeat_now();
    assert!(matches!(&out.message.action, Action::Check(x) if x == "self"));
    assert!(removed.is_empty());
    assert!(node.clients.contains(&"w".to_string()));
}
