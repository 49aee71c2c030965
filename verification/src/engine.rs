//! Relay engine: the decision logic of the hub and spoke roles.
//!
//! These functions take a received datagram or interface packet together
//! with the current time and decide what to change in the tables, what to
//! send, and what to write to the local interface. The surrounding I/O —
//! sockets, the interface device, timers — performs the actions and feeds
//! the next event back in.

use vstd::prelude::*;
use crate::packet::{Endpoint, extract_dst_ip, extract_src_ip, spec_extract_dst, spec_extract_src};
use crate::protocol::{Message, MessageType, spec_decode, spec_encode};
use crate::table::{SessionTable, spec_remove, spec_route_for, spec_set_virtual_ip, spec_touch};

verus! {

/// How often a spoke sends a heartbeat and the hub sweeps for stale
/// sessions, in seconds.
pub const HEARTBEAT_INTERVAL_SECS: u64 = 10;

/// How long a session may stay silent before it is evicted, in
/// milliseconds.
pub const LIVENESS_TIMEOUT_MILLIS: u64 = 30000;

/// The fixed receive buffer per datagram read, which bounds the payload a
/// single frame can carry.
pub const RECV_BUFFER_BYTES: usize = 4096;

/// How long to pause after a transport or interface failure before the
/// next attempt, in milliseconds.
pub const RETRY_DELAY_MILLIS: u64 = 1000;

/// What the hub does with one received datagram: an optional reply to the
/// sender and an optional payload for the local interface.
pub struct HubOutcome {
    /// An encoded frame to send back to the datagram's sender.
    pub reply: Option<Vec<u8>>,
    /// A raw IP packet to write to the local interface.
    pub tun_write: Option<Vec<u8>>,
}

/// Handles one datagram the hub received from `src` at time `now`:
/// `Connect` and `Heartbeat` refresh the session and are echoed back;
/// `Data` refreshes the session, learns the payload's source IP as the
/// sender's virtual IP, and hands the payload to the interface;
/// `Disconnect` removes the session; a malformed datagram changes nothing.
pub fn hub_handle_datagram(
    table: &mut SessionTable,
    src: Endpoint,
    datagram: &Vec<u8>,
    now: u64,
) -> (out: HubOutcome)
    requires
        old(table).well_formed(),
    ensures
        final(table).well_formed(),
        match spec_decode(datagram@) {
            Err(_) => final(table)@ == old(table)@ && out.reply is None && out.tun_write is None,
            Ok(kp) => match kp.0 {
                MessageType::Connect => {
                    &&& final(table)@ == spec_touch(old(table)@, src, now)
                    &&& out.reply matches Some(r) && r@ == spec_encode(
                        MessageType::Connect,
                        Seq::<u8>::empty(),
                    )
                    &&& out.tun_write is None
                },
                MessageType::Data => {
                    &&& final(table)@ == match spec_extract_src(kp.1) {
                        Some(ip) => spec_set_virtual_ip(spec_touch(old(table)@, src, now), src, ip),
                        None => spec_touch(old(table)@, src, now),
                    }
                    &&& out.reply is None
                    &&& out.tun_write matches Some(p) && p@ == kp.1
                },
                MessageType::Heartbeat => {
                    &&& final(table)@ == spec_touch(old(table)@, src, now)
                    &&& out.reply matches Some(r) && r@ == spec_encode(
                        MessageType::Heartbeat,
                        Seq::<u8>::empty(),
                    )
                    &&& out.tun_write is None
                },
                MessageType::Disconnect => {
                    &&& final(table)@ == spec_remove(old(table)@, src)
                    &&& out.reply is None
                    &&& out.tun_write is None
                },
            },
        },
{
    let msg = match Message::decode(datagram) {
        Ok(m) => m,
        Err(_) => {
            return HubOutcome { reply: None, tun_write: None };
        },
    };
    match msg.msg_type {
        MessageType::Connect => {
            table.touch(src, now);
            HubOutcome { reply: Some(Message::connect().encode()), tun_write: None }
        },
        MessageType::Data => {
            table.touch(src, now);
            match extract_src_ip(&msg.payload) {
                Some(ip) => {
                    table.set_virtual_ip(src, ip);
                },
                None => {},
            }
            HubOutcome { reply: None, tun_write: Some(msg.payload) }
        },
        MessageType::Heartbeat => {
            table.touch(src, now);
            HubOutcome { reply: Some(Message::heartbeat().encode()), tun_write: None }
        },
        MessageType::Disconnect => {
            table.remove(src);
            HubOutcome { reply: None, tun_write: None }
        },
    }
}

/// Decides where the hub forwards one packet read from the local
/// interface: if the packet carries a readable destination IP and a route
/// for it exists, the result is that endpoint and the packet framed as a
/// `Data` message; otherwise the packet is dropped, which is policy, not
/// an error.
pub fn hub_handle_interface_packet(table: &SessionTable, packet: &Vec<u8>) -> (r: Option<
    (Endpoint, Vec<u8>),
>)
    requires
        table.well_formed(),
        packet@.len() <= 0xFFFF_FFFFu32,
        packet@.len() + 5 <= usize::MAX,
    ensures
        match spec_extract_dst(packet@) {
            None => r is None,
            Some(ip) => match spec_route_for(table@, ip) {
                None => r is None,
                Some(ep) => r matches Some(p) && p.0 == ep && p.1@ == spec_encode(
                    MessageType::Data,
                    packet@,
                ),
            },
        },
{
    match extract_dst_ip(packet) {
        Some(ip) => match table.lookup_endpoint_for_ip(ip) {
            Some(ep) => {
                let mut payload: Vec<u8> = Vec::new();
                let mut i: usize = 0;
                let n: usize = packet.len();
                while i < n
                    invariant
                        n == packet@.len(),
                        0 <= i <= n,
                        payload@ == packet@.take(i as int),
                    decreases n - i,
                {
                    payload.push(packet[i]);
                    assert(packet@.take(i + 1) == packet@.take(i as int).push(packet@[i as int]));
                    i += 1;
                }
                assert(payload@ == packet@);
                Some((ep, Message::data(payload).encode()))
            },
            None => None,
        },
        None => None,
    }
}

/// What a spoke does with one received datagram.
#[derive(Debug, PartialEq, Eq)]
pub enum SpokeAction {
    /// The hub acknowledged the connection; nothing changes.
    AckReceived,
    /// A relayed packet to write to the local interface.
    Deliver(Vec<u8>),
    /// The hub answered a heartbeat; nothing changes.
    HeartbeatReceived,
    /// The hub asked for a disconnect: the run loop ends cleanly.
    Shutdown,
    /// The datagram did not parse; it is dropped.
    Drop,
}

/// Handles one datagram the spoke received from the hub: `Data` payloads
/// go to the local interface, `Disconnect` ends the run loop, `Connect`
/// and `Heartbeat` acknowledgements change nothing, and a malformed
/// datagram is dropped.
pub fn spoke_handle_datagram(datagram: &Vec<u8>) -> (r: SpokeAction)
    ensures
        match spec_decode(datagram@) {
            Err(_) => r == SpokeAction::Drop,
            Ok(kp) => match kp.0 {
                MessageType::Connect => r == SpokeAction::AckReceived,
                MessageType::Data => r matches SpokeAction::Deliver(p) && p@ == kp.1,
                MessageType::Heartbeat => r == SpokeAction::HeartbeatReceived,
                MessageType::Disconnect => r == SpokeAction::Shutdown,
            },
        },
{
    match Message::decode(datagram) {
        Ok(m) => match m.msg_type {
            MessageType::Connect => SpokeAction::AckReceived,
            MessageType::Data => SpokeAction::Deliver(m.payload),
            MessageType::Heartbeat => SpokeAction::HeartbeatReceived,
            MessageType::Disconnect => SpokeAction::Shutdown,
        },
        Err(_) => SpokeAction::Drop,
    }
}

/// Frames one packet read from the spoke's local interface as a `Data`
/// message for the hub; the spoke does not route, the hub does.
pub fn spoke_wrap_packet(packet: Vec<u8>) -> (r: Vec<u8>)
    requires
        packet@.len() <= 0xFFFF_FFFFu32,
        packet@.len() + 5 <= usize::MAX,
    ensures
        r@ == spec_encode(MessageType::Data, packet@),
{
    Message::data(packet).encode()
}

} // verus!
