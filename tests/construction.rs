use escalon::{EscalonBuilder, IpAddress, Server};

#[test]
fn builder_sets_every_field() {
    let b = EscalonBuilder::new()
        .set_id("n1".to_string())
        .set_addr(IpAddress::V4(0x7f00_0001))
        .set_port(8080)
        .set_count(|| 7);
    let e = b.build();
    assert_eq!(e.node.id, "n1");
    assert_eq!(e.addr, IpAddress::V4(0x7f00_0001));
    assert_eq!(e.port, 8080);
    assert_eq!(e.own_state.tasks, 7);
    assert_eq!(e.own_state.memory, 0);
    assert_eq!((e.count)(), 7);
    assert_eq!(e.node.clients.len(), 0);
}

#[test]
fn builder_fields_in_any_order() {
    let e = EscalonBuilder::new()
        .set_count(|| 3)
        .set_port(1)
        .set_id("x".to_string())
        .set_addr(IpAddress::V6(1))
        .build();
    assert_eq!(e.node.id, "x");
    assert_eq!(e.addr, IpAddress::V6(1));
    assert_eq!(e.port, 1);
    assert_eq!(e.own_state.tasks, 3);
}

#[test]
fn server_new_keeps_its_configuration() {
    let s = Server::new("0.0.0.0".to_string(), "3000".to_string(), "srv".to_string());
    assert_eq!(s.addr, "0.0.0.0");
    assert_eq!(s.port, "3000");
    assert_eq!(s.node.id, "srv");
    assert_eq!(s.node.clients.len(), 0);
}
