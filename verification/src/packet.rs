//! Packet address extraction, and the plain address types the switch
//! works with.
//!
//! Only the version nibble of the first byte is inspected; an IPv4 packet
//! of at least 20 bytes yields its source (bytes 12..16) and destination
//! (bytes 16..20), an IPv6 packet of at least 40 bytes its source
//! (bytes 8..24) and destination (bytes 24..40). Anything else yields
//! nothing, by policy, not as an error.

use vstd::prelude::*;

verus! {

/// An IP address held as its numeric value: 32 bits for version 4,
/// 128 bits for version 6, both big-endian readings of the octets.
#[derive(Debug, Clone, Copy, PartialEq, Eq, Structural)]
pub enum IpAddress {
    /// An IPv4 address.
    V4(u32),
    /// An IPv6 address.
    V6(u128),
}

/// A transport endpoint: the peer's address and UDP port.
#[derive(Debug, Clone, Copy, PartialEq, Eq, Structural)]
pub struct Endpoint {
    /// The peer's network address.
    pub ip: IpAddress,
    /// The peer's port.
    pub port: u16,
}

/// 256 to the power `n`: the number of values of `n` bytes.
pub open spec fn pow256(n: nat) -> nat
    decreases n,
{
    if n == 0 {
        1
    } else {
        256 * pow256((n - 1) as nat)
    }
}

/// The big-endian value of a byte sequence.
pub open spec fn bytes_be_value(s: Seq<u8>) -> nat
    decreases s.len(),
{
    if s.len() == 0 {
        0
    } else {
        (bytes_be_value(s.drop_last()) * 256 + s.last()) as nat
    }
}

proof fn lemma_pow256_pos(n: nat)
    ensures
        pow256(n) >= 1,
    decreases n,
{
    if n > 0 {
        lemma_pow256_pos((n - 1) as nat);
    }
}

proof fn lemma_pow256_monotone(a: nat, b: nat)
    requires
        a <= b,
    ensures
        pow256(a) <= pow256(b),
    decreases b,
{
    if a < b {
        lemma_pow256_monotone(a, (b - 1) as nat);
        lemma_pow256_pos((b - 1) as nat);
    }
}

proof fn lemma_pow256_16_value()
    ensures
        pow256(15) == 0x1_00000000_00000000_00000000_000000,
        pow256(16) == 0x1_00000000_00000000_00000000_00000000,
{
    assert(pow256(0) == 1);
    assert(pow256(1) == 0x100);
    assert(pow256(2) == 0x10000);
    assert(pow256(3) == 0x1000000);
    assert(pow256(4) == 0x100000000);
    assert(pow256(5) == 0x10000000000);
    assert(pow256(6) == 0x1000000000000);
    assert(pow256(7) == 0x100000000000000);
    assert(pow256(8) == 0x10000000000000000);
    assert(pow256(9) == 0x1000000000000000000);
    assert(pow256(10) == 0x100000000000000000000);
    assert(pow256(11) == 0x10000000000000000000000);
    assert(pow256(12) == 0x1000000000000000000000000);
    assert(pow256(13) == 0x100000000000000000000000000);
    assert(pow256(14) == 0x10000000000000000000000000000);
    assert(pow256(15) == 0x1000000000000000000000000000000);
    assert(pow256(16) == 0x100000000000000000000000000000000);
}

proof fn lemma_bytes_be_value_bound(s: Seq<u8>)
    ensures
        bytes_be_value(s) < pow256(s.len()),
    decreases s.len(),
{
    if s.len() > 0 {
        lemma_bytes_be_value_bound(s.drop_last());
    }
}

/// The 32-bit value of four address octets, most significant first.
pub open spec fn ipv4_value(a: u8, b: u8, c: u8, d: u8) -> u32 {
    ((a as u32) << 24) | ((b as u32) << 16) | ((c as u32) << 8) | (d as u32)
}

/// The source address a raw IP packet carries, if its version nibble and
/// length allow one to be read.
pub open spec fn spec_extract_src(p: Seq<u8>) -> Option<IpAddress> {
    if p.len() >= 20 && p[0] >> 4 == 4 {
        Some(IpAddress::V4(ipv4_value(p[12], p[13], p[14], p[15])))
    } else if p.len() >= 40 && p[0] >> 4 == 6 {
        Some(IpAddress::V6(bytes_be_value(p.subrange(8, 24)) as u128))
    } else {
        None
    }
}

/// The destination address a raw IP packet carries, if its version nibble
/// and length allow one to be read.
pub open spec fn spec_extract_dst(p: Seq<u8>) -> Option<IpAddress> {
    if p.len() >= 20 && p[0] >> 4 == 4 {
        Some(IpAddress::V4(ipv4_value(p[16], p[17], p[18], p[19])))
    } else if p.len() >= 40 && p[0] >> 4 == 6 {
        Some(IpAddress::V6(bytes_be_value(p.subrange(24, 40)) as u128))
    } else {
        None
    }
}

impl IpAddress {
    /// Builds an IPv4 address from its four octets, most significant first.
    pub fn v4(a: u8, b: u8, c: u8, d: u8) -> (r: IpAddress)
        ensures
            r == IpAddress::V4(ipv4_value(a, b, c, d)),
    {
        IpAddress::V4(((a as u32) << 24) | ((b as u32) << 16) | ((c as u32) << 8) | (d as u32))
    }

    /// Builds an IPv6 address from its sixteen octets, most significant
    /// first.
    pub fn v6(octets: &Vec<u8>) -> (r: IpAddress)
        requires
            octets@.len() == 16,
        ensures
            r == IpAddress::V6(bytes_be_value(octets@) as u128),
    {
        assert(octets@.subrange(0, 16) == octets@);
        IpAddress::V6(read_be_value_16(octets, 0))
    }
}

/// Reads sixteen bytes at `off` as one big-endian 128-bit value.
fn read_be_value_16(p: &Vec<u8>, off: usize) -> (r: u128)
    requires
        off + 16 <= p@.len(),
    ensures
        r == bytes_be_value(p@.subrange(off as int, off + 16)),
        bytes_be_value(p@.subrange(off as int, off + 16)) < pow256(16),
{
    proof {
        lemma_bytes_be_value_bound(p@.subrange(off as int, off + 16));
        lemma_pow256_16_value();
    }
    let n: usize = p.len();
    let mut acc: u128 = 0;
    let mut i: usize = 0;
    while i < 16
        invariant
            n == p@.len(),
            off + 16 <= n,
            0 <= i <= 16,
            acc == bytes_be_value(p@.subrange(off as int, off + i)),
            acc < pow256(i as nat),
        decreases 16 - i,
    {
        proof {
            lemma_pow256_monotone(i as nat, 15);
            lemma_pow256_16_value();
            let sub = p@.subrange(off as int, off + (i + 1) as int);
            assert(sub.drop_last() == p@.subrange(off as int, off + i));
            assert(sub.last() == p@[off + i]);
        }
        acc = acc * 256 + (p[off + i] as u128);
        i += 1;
    }
    proof {
        lemma_pow256_16_value();
    }
    acc
}

/// Returns the source address of a raw IP packet, or nothing for a packet
/// too short for its declared version or of an unknown version.
pub fn extract_src_ip(packet: &Vec<u8>) -> (r: Option<IpAddress>)
    ensures
        r == spec_extract_src(packet@),
{
    if packet.len() >= 20 && packet[0] >> 4 == 4 {
        Some(IpAddress::V4(
            ((packet[12] as u32) << 24) | ((packet[13] as u32) << 16) | ((packet[14] as u32) << 8)
                | (packet[15] as u32),
        ))
    } else if packet.len() >= 40 && packet[0] >> 4 == 6 {
        proof {
            lemma_bytes_be_value_bound(packet@.subrange(8, 24));
            lemma_pow256_16_value();
        }
        Some(IpAddress::V6(read_be_value_16(packet, 8)))
    } else {
        None
    }
}

/// Returns the destination address of a raw IP packet, or nothing for a
/// packet too short for its declared version or of an unknown version.
pub fn extract_dst_ip(packet: &Vec<u8>) -> (r: Option<IpAddress>)
    ensures
        r == spec_extract_dst(packet@),
{
    if packet.len() >= 20 && packet[0] >> 4 == 4 {
        Some(IpAddress::V4(
            ((packet[16] as u32) << 24) | ((packet[17] as u32) << 16) | ((packet[18] as u32) << 8)
                | (packet[19] as u32),
        ))
    } else if packet.len() >= 40 && packet[0] >> 4 == 6 {
        proof {
            lemma_bytes_be_value_bound(packet@.subrange(24, 40));
            lemma_pow256_16_value();
        }
        Some(IpAddress::V6(read_be_value_16(packet, 24)))
    } else {
        None
    }
}

} // verus!
