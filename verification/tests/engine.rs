use vswitch::engine::{
    hub_handle_datagram, hub_handle_interface_packet, spoke_handle_datagram, spoke_wrap_packet,
    SpokeAction,
};
use vswitch::packet::{Endpoint, IpAddress};
use vswitch::protocol::Message;
use vswitch::table::SessionTable;

fn ipv4_packet(src: [u8; 4], dst: [u8; 4]) -> Vec<u8> {
    let mut p = vec![0u8; 20];
    p[0] = 0x45;
    p[12..16].copy_from_slice(&src);
    p[16..20].copy_from_slice(&dst);
    p
}

#[test]
fn hub_end_to_end_scenario() {
    let mut table = SessionTable::new();
    let a = Endpoint { ip: IpAddress::v4(203, 0, 113, 9), port: 40001 };

    // Connect from A: session exists with no virtual IP; Connect echoed.
    let out = hub_handle_datagram(&mut table, a, &Message::connect().encode(), 1000);
    assert_eq!(out.reply, Some(Message::connect().encode()));
    assert_eq!(out.tun_write, None);
    let s = table.get_session(a).unwrap();
    assert_eq!(s.virtual_ip, None);
    assert_eq!(s.last_heartbeat, 1000);

    // Data from A whose payload claims source 10.0.0.2: the session learns
    // the virtual IP, the route table maps it to A, the payload goes to
    // the interface.
    let pkt = ipv4_packet([10, 0, 0, 2], [10, 0, 0, 1]);
    let out = hub_handle_datagram(&mut table, a, &Message::data(pkt.clone()).encode(), 2000);
    assert_eq!(out.reply, None);
    assert_eq!(out.tun_write, Some(pkt));
    let s = table.get_session(a).unwrap();
    assert_eq!(s.virtual_ip, Some(IpAddress::v4(10, 0, 0, 2)));
    assert_eq!(s.last_heartbeat, 2000);
    assert_eq!(table.lookup_endpoint_for_ip(IpAddress::v4(10, 0, 0, 2)), Some(a));

    // A packet from the interface destined to 10.0.0.2 is forwarded to A
    // as a Data frame.
    let outbound = ipv4_packet([10, 0, 0, 1], [10, 0, 0, 2]);
    let r = hub_handle_interface_packet(&table, &outbound);
    assert_eq!(r, Some((a, Message::data(outbound.clone()).encode())));

    // A packet destined to an unmapped IP is dropped without error.
    let unmapped = ipv4_packet([10, 0, 0, 1], [10, 0, 0, 99]);
    assert_eq!(hub_handle_interface_packet(&table, &unmapped), None);
}

#[test]
fn hub_heartbeat_refreshes_and_echoes() {
    let mut table = SessionTable::new();
    let a = Endpoint { ip: IpAddress::v4(198, 51, 100, 4), port: 7000 };
    let out = hub_handle_datagram(&mut table, a, &Message::heartbeat().encode(), 500);
    assert_eq!(out.reply, Some(Message::heartbeat().encode()));
    assert_eq!(out.tun_write, None);
    // An unknown endpoint's heartbeat creates the session out of band.
    let s = table.get_session(a).unwrap();
    assert_eq!(s.last_heartbeat, 500);
    let out = hub_handle_datagram(&mut table, a, &Message::heartbeat().encode(), 900);
    assert_eq!(out.reply, Some(Message::heartbeat().encode()));
    assert_eq!(table.get_session(a).unwrap().last_heartbeat, 900);
}

#[test]
fn hub_disconnect_removes_session_and_route() {
    let mut table = SessionTable::new();
    let a = Endpoint { ip: IpAddress::v4(198, 51, 100, 4), port: 7000 };
    let pkt = ipv4_packet([10, 0, 0, 8], [10, 0, 0, 1]);
    hub_handle_datagram(&mut table, a, &Message::connect().encode(), 100);
    hub_handle_datagram(&mut table, a, &Message::data(pkt).encode(), 200);
    let out = hub_handle_datagram(&mut table, a, &Message::disconnect().encode(), 300);
    assert_eq!(out.reply, None);
    assert_eq!(out.tun_write, None);
    assert_eq!(table.get_session(a), None);
    assert_eq!(table.lookup_endpoint_for_ip(IpAddress::v4(10, 0, 0, 8)), None);
}

#[test]
fn hub_drops_malformed_datagram_unchanged() {
    let mut table = SessionTable::new();
    let a = Endpoint { ip: IpAddress::v4(198, 51, 100, 4), port: 7000 };
    let out = hub_handle_datagram(&mut table, a, &vec![0xFF, 0x00], 100);
    assert_eq!(out.reply, None);
    assert_eq!(out.tun_write, None);
    assert_eq!(table.get_session(a), None);
}

#[test]
fn hub_data_without_readable_source_still_delivers() {
    let mut table = SessionTable::new();
    let a = Endpoint { ip: IpAddress::v4(198, 51, 100, 4), port: 7000 };
    // Payload too short to carry an address: no route learned, payload
    // still written to the interface.
    let pkt = vec![0x45, 0x00, 0x00];
    let out = hub_handle_datagram(&mut table, a, &Message::data(pkt.clone()).encode(), 100);
    assert_eq!(out.tun_write, Some(pkt));
    let s = table.get_session(a).unwrap();
    assert_eq!(s.virtual_ip, None);
}

#[test]
fn hub_interface_packet_without_destination_dropped() {
    let table = SessionTable::new();
    let mut p = vec![0u8; 40];
    p[0] = 0x25;
    assert_eq!(hub_handle_interface_packet(&table, &p), None);
}

#[test]
fn spoke_actions_by_kind() {
    let pkt = ipv4_packet([10, 0, 0, 1], [10, 0, 0, 2]);
    assert_eq!(
        spoke_handle_datagram(&Message::connect().encode()),
        SpokeAction::AckReceived
    );
    assert_eq!(
        spoke_handle_datagram(&Message::data(pkt.clone()).encode()),
        SpokeAction::Deliver(pkt)
    );
    assert_eq!(
        spoke_handle_datagram(&Message::heartbeat().encode()),
        SpokeAction::HeartbeatReceived
    );
    assert_eq!(
        spoke_handle_datagram(&Message::disconnect().encode()),
        SpokeAction::Shutdown
    );
    assert_eq!(spoke_handle_datagram(&vec![0x01]), SpokeAction::Drop);
}

#[test]
fn spoke_wraps_interface_packet_as_data() {
    let pkt = ipv4_packet([10, 0, 0, 2], [10, 0, 0, 1]);
    let framed = spoke_wrap_packet(pkt.clone());
    assert_eq!(framed, Message::data(pkt).encode());
}
