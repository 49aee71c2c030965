//! Wire protocol codec.
//!
//! Every message travels as `1 kind byte + 4 length bytes (big endian) +
//! payload`. The spec functions here are the mathematical description of
//! that frame; `encode` and `decode` are proved against them.

use vstd::prelude::*;
use crate::error::{ProtocolFault, VswitchError};

verus! {

/// The four kinds of protocol message.
#[derive(Debug, Clone, Copy, PartialEq, Eq, Structural)]
pub enum MessageType {
    /// Connection request / acknowledgement.
    Connect,
    /// Carries one raw IP packet as payload.
    Data,
    /// Keeps a session alive.
    Heartbeat,
    /// Ends a session.
    Disconnect,
}

/// The wire byte of a message kind.
pub open spec fn kind_byte(k: MessageType) -> u8 {
    match k {
        MessageType::Connect => 0x01,
        MessageType::Data => 0x02,
        MessageType::Heartbeat => 0x03,
        MessageType::Disconnect => 0x04,
    }
}

/// Whether a byte names one of the four message kinds.
pub open spec fn valid_kind_byte(b: u8) -> bool {
    b == 0x01 || b == 0x02 || b == 0x03 || b == 0x04
}

/// The message kind a valid wire byte names.
pub open spec fn kind_of_byte(b: u8) -> MessageType
    recommends
        valid_kind_byte(b),
{
    if b == 0x01 {
        MessageType::Connect
    } else if b == 0x02 {
        MessageType::Data
    } else if b == 0x03 {
        MessageType::Heartbeat
    } else {
        MessageType::Disconnect
    }
}

/// The four big-endian bytes of a 32-bit length.
pub open spec fn len_bytes(n: u32) -> Seq<u8> {
    seq![(n >> 24) as u8, (n >> 16) as u8, (n >> 8) as u8, n as u8]
}

/// The 32-bit value the four header length bytes declare.
pub open spec fn declared_len(buf: Seq<u8>) -> u32
    recommends
        buf.len() >= 5,
{
    ((buf[1] as u32) << 24) | ((buf[2] as u32) << 16) | ((buf[3] as u32) << 8) | (buf[4] as u32)
}

/// The encoded frame of a message: kind byte, length, payload.
pub open spec fn spec_encode(kind: MessageType, payload: Seq<u8>) -> Seq<u8> {
    seq![kind_byte(kind)] + len_bytes(payload.len() as u32) + payload
}

/// What decoding a buffer yields: the message, or the first fault found
/// checking, in order, the header length, the kind byte, and the payload
/// completeness. Trailing bytes beyond the declared frame are ignored.
pub open spec fn spec_decode(buf: Seq<u8>) -> Result<(MessageType, Seq<u8>), ProtocolFault> {
    if buf.len() < 5 {
        Err(ProtocolFault::MessageTooShort)
    } else if !valid_kind_byte(buf[0]) {
        Err(ProtocolFault::UnknownMessageType(buf[0]))
    } else if buf.len() - 5 < declared_len(buf) {
        Err(ProtocolFault::IncompletePayload)
    } else {
        Ok((kind_of_byte(buf[0]), buf.subrange(5, 5 + declared_len(buf) as int)))
    }
}

impl MessageType {
    /// The wire byte of this kind.
    pub fn to_byte(&self) -> (r: u8)
        ensures
            r == kind_byte(*self),
    {
        match self {
            MessageType::Connect => 0x01,
            MessageType::Data => 0x02,
            MessageType::Heartbeat => 0x03,
            MessageType::Disconnect => 0x04,
        }
    }

    /// Parses a wire byte into a message kind; exactly the bytes 1 through 4
    /// are accepted.
    pub fn try_from(value: u8) -> (r: Result<MessageType, VswitchError>)
        ensures
            valid_kind_byte(value) ==> r == Ok::<MessageType, VswitchError>(kind_of_byte(value)),
            !valid_kind_byte(value) ==> r == Err::<MessageType, VswitchError>(
                VswitchError::InvalidProtocolMessage(ProtocolFault::UnknownMessageType(value)),
            ),
    {
        match value {
            0x01 => Ok(MessageType::Connect),
            0x02 => Ok(MessageType::Data),
            0x03 => Ok(MessageType::Heartbeat),
            0x04 => Ok(MessageType::Disconnect),
            _ => Err(VswitchError::InvalidProtocolMessage(ProtocolFault::UnknownMessageType(value))),
        }
    }
}

/// A protocol message: a kind and an opaque payload.
#[derive(Debug, Clone, PartialEq, Eq)]
pub struct Message {
    /// The message kind.
    pub msg_type: MessageType,
    /// The payload bytes; a raw IP packet for `Data`, empty otherwise.
    pub payload: Vec<u8>,
}

impl Message {
    /// Builds a message from its kind and payload.
    pub fn new(msg_type: MessageType, payload: Vec<u8>) -> (r: Self)
        ensures
            r.msg_type == msg_type,
            r.payload@ == payload@,
    {
        Self { msg_type, payload }
    }

    /// A `Connect` message with an empty payload.
    pub fn connect() -> (r: Self)
        ensures
            r.msg_type == MessageType::Connect,
            r.payload@ == Seq::<u8>::empty(),
    {
        Self::new(MessageType::Connect, Vec::new())
    }

    /// A `Data` message carrying one raw IP packet.
    pub fn data(payload: Vec<u8>) -> (r: Self)
        ensures
            r.msg_type == MessageType::Data,
            r.payload@ == payload@,
    {
        Self::new(MessageType::Data, payload)
    }

    /// A `Heartbeat` message with an empty payload.
    pub fn heartbeat() -> (r: Self)
        ensures
            r.msg_type == MessageType::Heartbeat,
            r.payload@ == Seq::<u8>::empty(),
    {
        Self::new(MessageType::Heartbeat, Vec::new())
    }

    /// A `Disconnect` message with an empty payload.
    pub fn disconnect() -> (r: Self)
        ensures
            r.msg_type == MessageType::Disconnect,
            r.payload@ == Seq::<u8>::empty(),
    {
        Self::new(MessageType::Disconnect, Vec::new())
    }

    /// Encodes this message into its wire frame of `5 + payload` bytes.
    pub fn encode(&self) -> (r: Vec<u8>)
        requires
            self.payload@.len() <= 0xFFFF_FFFFu32,
            self.payload@.len() + 5 <= usize::MAX,
        ensures
            r@ == spec_encode(self.msg_type, self.payload@),
            r@.len() == 5 + self.payload@.len(),
    {
        let mut r: Vec<u8> = Vec::new();
        r.push(self.msg_type.to_byte());
        let n: u32 = self.payload.len() as u32;
        r.push((n >> 24) as u8);
        r.push((n >> 16) as u8);
        r.push((n >> 8) as u8);
        r.push(n as u8);
        assert(r@ == seq![kind_byte(self.msg_type)] + len_bytes(self.payload@.len() as u32));
        let m = self.payload.len();
        let mut i: usize = 0;
        while i < m
            invariant
                m == self.payload@.len(),
                0 <= i <= m,
                r@ == seq![kind_byte(self.msg_type)] + len_bytes(m as u32)
                    + self.payload@.take(i as int),
            decreases m - i,
        {
            r.push(self.payload[i]);
            assert(self.payload@.take(i + 1) == self.payload@.take(i as int).push(
                self.payload@[i as int],
            ));
            i += 1;
        }
        assert(self.payload@.take(m as int) == self.payload@);
        r
    }

    /// Decodes one wire frame from the front of `buf`; trailing bytes past
    /// the declared frame are ignored. Fails exactly where the frame is
    /// shorter than a header, names an unknown kind, or declares more
    /// payload than `buf` holds.
    pub fn decode(buf: &Vec<u8>) -> (r: Result<Message, VswitchError>)
        ensures
            match spec_decode(buf@) {
                Ok(kp) => r matches Ok(m) && m.msg_type == kp.0 && m.payload@ == kp.1,
                Err(f) => r == Err::<Message, VswitchError>(
                    VswitchError::InvalidProtocolMessage(f),
                ),
            },
    {
        if buf.len() < 5 {
            return Err(VswitchError::InvalidProtocolMessage(ProtocolFault::MessageTooShort));
        }
        let msg_type = match MessageType::try_from(buf[0]) {
            Ok(k) => k,
            Err(e) => {
                return Err(e);
            },
        };
        let n: u32 = ((buf[1] as u32) << 24) | ((buf[2] as u32) << 16) | ((buf[3] as u32) << 8)
            | (buf[4] as u32);
        assert(n == declared_len(buf@));
        let payload_len = n as usize;
        if buf.len() - 5 < payload_len {
            return Err(VswitchError::InvalidProtocolMessage(ProtocolFault::IncompletePayload));
        }
        let mut payload: Vec<u8> = Vec::new();
        let total: usize = buf.len();
        let mut i: usize = 0;
        while i < payload_len
            invariant
                total == buf@.len(),
                5 + payload_len <= total,
                0 <= i <= payload_len,
                payload@ == buf@.subrange(5, 5 + i as int),
            decreases payload_len - i,
        {
            payload.push(buf[5 + i]);
            assert(buf@.subrange(5, 5 + (i + 1) as int) == buf@.subrange(5, 5 + i as int).push(
                buf@[5 + i as int],
            ));
            i += 1;
        }
        Ok(Message { msg_type, payload })
    }
}

/// Law: decoding an encoded frame gives back exactly the message that was
/// encoded, for every kind and every payload whose length fits in 32 bits.
pub proof fn lemma_encode_decode_roundtrip(kind: MessageType, payload: Seq<u8>)
    requires
        payload.len() <= 0xFFFF_FFFFu32,
    ensures
        spec_decode(spec_encode(kind, payload)) == Ok::<(MessageType, Seq<u8>), ProtocolFault>(
            (kind, payload),
        ),
{
    let e = spec_encode(kind, payload);
    let n: u32 = payload.len() as u32;
    assert(e.len() == 5 + payload.len());
    assert(e[0] == kind_byte(kind));
    assert(valid_kind_byte(kind_byte(kind)));
    assert(kind_of_byte(kind_byte(kind)) == kind);
    assert(e[1] == (n >> 24) as u8);
    assert(e[2] == (n >> 16) as u8);
    assert(e[3] == (n >> 8) as u8);
    assert(e[4] == n as u8);
    assert((((n >> 24) as u8 as u32) << 24) | (((n >> 16) as u8 as u32) << 16) | (((n >> 8) as u8
        as u32) << 8) | (n as u8 as u32) == n) by (bit_vector);
    assert(declared_len(e) == n);
    assert(e.subrange(5, 5 + n as int) =~= payload);
}

} // verus!
