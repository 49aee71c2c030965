use vswitch::packet::{Endpoint, IpAddress};
use vswitch::table::{PeerSession, SessionTable};

fn ep(d: u8, port: u16) -> Endpoint {
    Endpoint { ip: IpAddress::v4(192, 168, 0, d), port }
}

#[test]
fn touch_creates_then_refreshes() {
    let mut t = SessionTable::new();
    let a = ep(1, 4789);
    assert!(t.touch(a, 1000));
    assert_eq!(
        t.get_session(a),
        Some(PeerSession { last_heartbeat: 1000, virtual_ip: None })
    );
    assert!(!t.touch(a, 2500));
    assert_eq!(
        t.get_session(a),
        Some(PeerSession { last_heartbeat: 2500, virtual_ip: None })
    );
}

#[test]
fn touch_keeps_virtual_ip() {
    let mut t = SessionTable::new();
    let a = ep(1, 4789);
    let ip = IpAddress::v4(10, 0, 0, 2);
    t.touch(a, 1000);
    t.set_virtual_ip(a, ip);
    t.touch(a, 2000);
    assert_eq!(
        t.get_session(a),
        Some(PeerSession { last_heartbeat: 2000, virtual_ip: Some(ip) })
    );
}

#[test]
fn route_last_writer_wins_and_remove_spares_it() {
    let mut t = SessionTable::new();
    let e1 = ep(1, 1111);
    let e2 = ep(2, 2222);
    let ip = IpAddress::v4(10, 0, 0, 7);
    t.touch(e1, 100);
    t.touch(e2, 100);
    t.set_virtual_ip(e1, ip);
    assert_eq!(t.lookup_endpoint_for_ip(ip), Some(e1));
    t.set_virtual_ip(e2, ip);
    assert_eq!(t.lookup_endpoint_for_ip(ip), Some(e2));
    // e1 no longer owns the route, so removing e1 leaves it alone.
    t.remove(e1);
    assert_eq!(t.get_session(e1), None);
    assert_eq!(t.lookup_endpoint_for_ip(ip), Some(e2));
}

#[test]
fn remove_takes_owned_route() {
    let mut t = SessionTable::new();
    let a = ep(3, 3333);
    let ip = IpAddress::v4(10, 0, 0, 9);
    t.touch(a, 100);
    t.set_virtual_ip(a, ip);
    t.remove(a);
    assert_eq!(t.get_session(a), None);
    assert_eq!(t.lookup_endpoint_for_ip(ip), None);
}

#[test]
fn remove_unknown_endpoint_is_noop() {
    let mut t = SessionTable::new();
    let a = ep(1, 1000);
    let b = ep(2, 2000);
    t.touch(a, 100);
    t.remove(b);
    assert!(t.get_session(a).is_some());
}

#[test]
fn sweep_evicts_only_past_timeout() {
    let mut t = SessionTable::new();
    let a = ep(1, 1000);
    let ip = IpAddress::v4(10, 0, 0, 2);
    let timeout: u64 = 30000;
    let touched: u64 = 5000;
    t.touch(a, touched);
    t.set_virtual_ip(a, ip);

    // One millisecond before the deadline: kept, route kept.
    let removed = t.sweep_expired(touched + timeout - 1, timeout);
    assert!(removed.is_empty());
    assert!(t.get_session(a).is_some());
    assert_eq!(t.lookup_endpoint_for_ip(ip), Some(a));

    // Exactly at the deadline: still kept.
    let removed = t.sweep_expired(touched + timeout, timeout);
    assert!(removed.is_empty());
    assert!(t.get_session(a).is_some());

    // One millisecond past the deadline: evicted with its route.
    let removed = t.sweep_expired(touched + timeout + 1, timeout);
    assert_eq!(removed, vec![a]);
    assert_eq!(t.get_session(a), None);
    assert_eq!(t.lookup_endpoint_for_ip(ip), None);
}

#[test]
fn sweep_spares_never_stamped_session() {
    let mut t = SessionTable::new();
    let a = ep(4, 4000);
    // A zero timestamp marks a session that never saw real activity; the
    // sweep leaves it alone no matter how late it runs.
    t.touch(a, 0);
    let removed = t.sweep_expired(u64::MAX, 30000);
    assert!(removed.is_empty());
    assert!(t.get_session(a).is_some());
}

#[test]
fn sweep_mixed_sessions() {
    let mut t = SessionTable::new();
    let stale = ep(1, 1000);
    let fresh = ep(2, 2000);
    let stale_ip = IpAddress::v4(10, 0, 0, 1);
    let fresh_ip = IpAddress::v4(10, 0, 0, 2);
    t.touch(stale, 1000);
    t.set_virtual_ip(stale, stale_ip);
    t.touch(fresh, 40000);
    t.set_virtual_ip(fresh, fresh_ip);
    let removed = t.sweep_expired(40001, 30000);
    assert_eq!(removed, vec![stale]);
    assert_eq!(t.get_session(stale), None);
    assert_eq!(t.lookup_endpoint_for_ip(stale_ip), None);
    assert!(t.get_session(fresh).is_some());
    assert_eq!(t.lookup_endpoint_for_ip(fresh_ip), Some(fresh));
}

#[test]
fn sweep_spares_migrated_route() {
    let mut t = SessionTable::new();
    let old_owner = ep(1, 1000);
    let new_owner = ep(2, 2000);
    let ip = IpAddress::v4(10, 0, 0, 5);
    t.touch(old_owner, 1000);
    t.set_virtual_ip(old_owner, ip);
    t.touch(new_owner, 40000);
    t.set_virtual_ip(new_owner, ip);
    // The stale session still claims ip, but the route moved on.
    let removed = t.sweep_expired(40001, 30000);
    assert_eq!(removed, vec![old_owner]);
    assert_eq!(t.lookup_endpoint_for_ip(ip), Some(new_owner));
}

#[test]
fn set_virtual_ip_without_session_still_routes() {
    let mut t = SessionTable::new();
    let a = ep(9, 9000);
    let ip = IpAddress::v4(10, 0, 0, 3);
    t.set_virtual_ip(a, ip);
    assert_eq!(t.lookup_endpoint_for_ip(ip), Some(a));
    assert_eq!(t.get_session(a), None);
}

#[test]
fn session_count_tracks_table() {
    let mut t = SessionTable::new();
    assert_eq!(t.session_count(), 0);
    t.touch(ep(1, 1000), 100);
    t.touch(ep(2, 2000), 100);
    assert_eq!(t.session_count(), 2);
    t.touch(ep(1, 1000), 200);
    assert_eq!(t.session_count(), 2);
    t.remove(ep(1, 1000));
    assert_eq!(t.session_count(), 1);
}

#[test]
fn lookup_unknown_ip_is_none() {
    let t = SessionTable::new();
    assert_eq!(t.lookup_endpoint_for_ip(IpAddress::v4(1, 2, 3, 4)), None);
}
