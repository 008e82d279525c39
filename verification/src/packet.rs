//! Binary wire format of audio packets.
//!
//! Layout, all integers little-endian: sequence (4 bytes), timestamp (8),
//! voice flag (1), channel id length (2) and UTF-8 bytes, user id length (2)
//! and UTF-8 bytes, payload length (2) and payload bytes.

use vstd::bytes::{
    spec_u16_from_le_bytes, spec_u16_to_le_bytes, spec_u32_from_le_bytes, spec_u32_to_le_bytes,
    spec_u64_from_le_bytes, spec_u64_to_le_bytes,
};
use vstd::prelude::*;
use vstd::utf8::{decode_utf8, encode_utf8, valid_utf8};

use crate::ids::{ChannelId, UserId};
use crate::messages::ProtocolError;

verus! {

/// What `String::from_utf8_lossy` makes of bytes that are not valid UTF-8.
pub uninterp spec fn utf8_lossy_text(bytes: Seq<u8>) -> Seq<char>;

/// The text that bytes decode to, invalid sequences replaced as
/// `String::from_utf8_lossy` replaces them.
pub open spec fn decode_text(bytes: Seq<u8>) -> Seq<char> {
    if valid_utf8(bytes) {
        decode_utf8(bytes)
    } else {
        utf8_lossy_text(bytes)
    }
}

/// `String::from_utf8_lossy`, made owned. Its documentation promises the
/// decoded text for valid UTF-8; for other bytes the result is named only
/// (invalid sequences become U+FFFD).
#[verifier::external_body]
fn lossy_string(bytes: &[u8]) -> (s: String)
    ensures
        valid_utf8(bytes@) ==> s@ == decode_utf8(bytes@),
        !valid_utf8(bytes@) ==> s@ == utf8_lossy_text(bytes@),
{
    String::from_utf8_lossy(bytes).to_string()
}

/// The model of an audio packet.
pub struct PacketView {
    pub sequence: u32,
    pub timestamp: u64,
    pub channel_id: Seq<char>,
    pub user_id: Seq<char>,
    pub data: Seq<u8>,
    pub contains_voice: bool,
}

/// Audio packet for transmission over the wire.
#[derive(Debug)]
pub struct AudioPacket {
    /// Sequence number for ordering.
    pub sequence: u32,
    /// Timestamp in samples.
    pub timestamp: u64,
    /// Source channel.
    pub channel_id: ChannelId,
    /// Source user.
    pub user_id: UserId,
    /// Opus-encoded audio data.
    pub data: Vec<u8>,
    /// Whether this packet contains voice (VAD).
    pub contains_voice: bool,
}

impl View for AudioPacket {
    type V = PacketView;

    open spec fn view(&self) -> PacketView {
        PacketView {
            sequence: self.sequence,
            timestamp: self.timestamp,
            channel_id: self.channel_id@,
            user_id: self.user_id@,
            data: self.data@,
            contains_voice: self.contains_voice,
        }
    }
}

/// A length field followed by the bytes it counts (the length truncated to
/// 16 bits, as written on the wire).
pub open spec fn length_prefixed(b: Seq<u8>) -> Seq<u8> {
    spec_u16_to_le_bytes(b.len() as u16) + b
}

/// The bytes `to_bytes` writes for a packet.
pub open spec fn encode_packet(p: PacketView) -> Seq<u8> {
    spec_u32_to_le_bytes(p.sequence) + spec_u64_to_le_bytes(p.timestamp) + seq![
        if p.contains_voice {
            1u8
        } else {
            0u8
        },
    ] + length_prefixed(encode_utf8(p.channel_id)) + length_prefixed(encode_utf8(p.user_id))
        + length_prefixed(p.data)
}

/// The 16-bit little-endian length stored at offset `o`.
pub open spec fn len_at(d: Seq<u8>, o: int) -> int {
    spec_u16_from_le_bytes(d.subrange(o, o + 2)) as int
}

/// Offset just past the channel id.
pub open spec fn channel_end(d: Seq<u8>) -> int {
    15 + len_at(d, 13)
}

/// Offset just past the user id.
pub open spec fn user_end(d: Seq<u8>) -> int {
    channel_end(d) + 2 + len_at(d, channel_end(d))
}

/// Inputs on which parsing would read a length field past the end of the
/// buffer (the channel or user id ends less than two bytes before it).
pub open spec fn packet_parse_panics(d: Seq<u8>) -> bool {
    &&& d.len() >= 15
    &&& d.len() >= channel_end(d)
    &&& (d.len() < channel_end(d) + 2 || (d.len() >= user_end(d) && d.len() < user_end(d) + 2))
}

/// What `from_bytes` makes of a buffer on which it does not panic:
/// `None` when the buffer is too short for the lengths it declares.
pub open spec fn decode_packet(d: Seq<u8>) -> Option<PacketView> {
    if d.len() < 15 || d.len() < channel_end(d) || d.len() < user_end(d) || d.len() < user_end(d) + 2
        + len_at(d, user_end(d)) {
        None
    } else {
        let ce = channel_end(d);
        let ue = user_end(d);
        Some(
            PacketView {
                sequence: spec_u32_from_le_bytes(d.subrange(0, 4)),
                timestamp: spec_u64_from_le_bytes(d.subrange(4, 12)),
                contains_voice: d[12] != 0,
                channel_id: decode_text(d.subrange(15, ce)),
                user_id: decode_text(d.subrange(ce + 2, ue)),
                data: d.subrange(ue + 2, ue + 2 + len_at(d, ue)),
            },
        )
    }
}

/// Reads the 16-bit little-endian length at `o`.
fn read_len(d: &[u8], o: usize) -> (n: usize)
    requires
        o + 2 <= d@.len(),
    ensures
        n == len_at(d@, o as int),
        n <= 0xffff,
{
    let _n = d.len();
    let b = vstd::slice::slice_subrange(d, o, o + 2);
    vstd::bytes::u16_from_le_bytes(b) as usize
}

impl AudioPacket {
    /// A packet marked as containing voice.
    pub fn new(sequence: u32, timestamp: u64, channel_id: ChannelId, user_id: UserId, data: Vec<u8>) -> (r: Self)
        ensures
            r@ == (PacketView {
                sequence,
                timestamp,
                channel_id: channel_id@,
                user_id: user_id@,
                data: data@,
                contains_voice: true,
            }),
    {
        AudioPacket { sequence, timestamp, channel_id, user_id, data, contains_voice: true }
    }

    /// Serializes the packet for transmission.
    pub fn to_bytes(&self) -> (r: Vec<u8>)
        ensures
            r@ == encode_packet(self@),
    {
        let mut buf: Vec<u8> = Vec::new();
        let mut a = vstd::bytes::u32_to_le_bytes(self.sequence);
        buf.append(&mut a);
        let mut b = vstd::bytes::u64_to_le_bytes(self.timestamp);
        buf.append(&mut b);
        buf.push(if self.contains_voice { 1u8 } else { 0u8 });
        let channel_bytes = self.channel_id.0.as_str().as_bytes();
        let mut cl = vstd::bytes::u16_to_le_bytes(channel_bytes.len() as u16);
        buf.append(&mut cl);
        let mut cb = vstd::slice::slice_to_vec(channel_bytes);
        buf.append(&mut cb);
        let user_bytes = self.user_id.0.as_str().as_bytes();
        let mut ul = vstd::bytes::u16_to_le_bytes(user_bytes.len() as u16);
        buf.append(&mut ul);
        let mut ub = vstd::slice::slice_to_vec(user_bytes);
        buf.append(&mut ub);
        let mut dl = vstd::bytes::u16_to_le_bytes(self.data.len() as u16);
        buf.append(&mut dl);
        let mut db = vstd::slice::slice_to_vec(self.data.as_slice());
        buf.append(&mut db);
        proof {
            let p = self@;
            assert(buf@ =~= encode_packet(p));
        }
        buf
    }

    /// Deserializes a packet; fails with `InvalidPayloadSize` (carrying the
    /// buffer length) when the buffer is shorter than its fields declare.
    pub fn from_bytes(data: &[u8]) -> (r: Result<Self, ProtocolError>)
        requires
            !packet_parse_panics(data@),
        ensures
            match r {
                Ok(p) => decode_packet(data@) == Some(p@),
                Err(e) => decode_packet(data@).is_none() && e == ProtocolError::InvalidPayloadSize(
                    data@.len() as usize,
                ),
            },
    {
        let len = data.len();
        if len < 15 {
            return Err(ProtocolError::InvalidPayloadSize(len));
        }
        let sequence = vstd::bytes::u32_from_le_bytes(vstd::slice::slice_subrange(data, 0, 4));
        let timestamp = vstd::bytes::u64_from_le_bytes(vstd::slice::slice_subrange(data, 4, 12));
        let contains_voice = data[12] != 0;
        let channel_len = read_len(data, 13);
        let mut offset: usize = 15;
        if len - offset < channel_len {
            return Err(ProtocolError::InvalidPayloadSize(len));
        }
        let channel_id = ChannelId(lossy_string(vstd::slice::slice_subrange(data, offset, offset + channel_len)));
        offset = offset + channel_len;
        let user_len = read_len(data, offset);
        offset = offset + 2;
        if len - offset < user_len {
            return Err(ProtocolError::InvalidPayloadSize(len));
        }
        let user_id = UserId(lossy_string(vstd::slice::slice_subrange(data, offset, offset + user_len)));
        offset = offset + user_len;
        let data_len = read_len(data, offset);
        offset = offset + 2;
        if len - offset < data_len {
            return Err(ProtocolError::InvalidPayloadSize(len));
        }
        let audio_data = vstd::slice::slice_to_vec(vstd::slice::slice_subrange(data, offset, offset + data_len));
        Ok(AudioPacket { sequence, timestamp, channel_id, user_id, data: audio_data, contains_voice })
    }
}

/// Whether `from_bytes` accepts a buffer without reading past its end.
pub fn packet_parse_is_total(data: &[u8]) -> (b: bool)
    ensures
        b == !packet_parse_panics(data@),
{
    let len = data.len();
    if len < 15 {
        return true;
    }
    let channel_len = read_len(data, 13);
    if len - 15 < channel_len {
        return true;
    }
    let o = 15 + channel_len;
    if len - o < 2 {
        return false;
    }
    let user_len = read_len(data, o);
    if len - (o + 2) < user_len {
        return true;
    }
    let o2 = o + 2 + user_len;
    len - o2 >= 2
}

/// Decoding what was encoded gives the packet back, whenever each of the
/// channel id, user id and payload is shorter than 65536 bytes.
pub proof fn law_packet_roundtrip(p: PacketView)
    requires
        encode_utf8(p.channel_id).len() < 0x10000,
        encode_utf8(p.user_id).len() < 0x10000,
        p.data.len() < 0x10000,
    ensures
        !packet_parse_panics(encode_packet(p)),
        decode_packet(encode_packet(p)) == Some(p),
{
    vstd::bytes::lemma_auto_spec_u16_to_from_le_bytes();
    vstd::bytes::lemma_auto_spec_u32_to_from_le_bytes();
    vstd::bytes::lemma_auto_spec_u64_to_from_le_bytes();
    vstd::utf8::encode_utf8_valid_utf8(p.channel_id);
    vstd::utf8::encode_utf8_valid_utf8(p.user_id);
    vstd::utf8::encode_utf8_decode_utf8(p.channel_id);
    vstd::utf8::encode_utf8_decode_utf8(p.user_id);
    let e = encode_packet(p);
    let cb = encode_utf8(p.channel_id);
    let ub = encode_utf8(p.user_id);
    let cl = cb.len() as int;
    let ul = ub.len() as int;
    let dl = p.data.len() as int;
    let s4 = spec_u32_to_le_bytes(p.sequence);
    let s8 = spec_u64_to_le_bytes(p.timestamp);
    let c2 = spec_u16_to_le_bytes(cl as u16);
    let u2 = spec_u16_to_le_bytes(ul as u16);
    let d2 = spec_u16_to_le_bytes(dl as u16);
    assert(s4.len() == 4);
    assert(s8.len() == 8);
    assert(c2.len() == 2 && u2.len() == 2 && d2.len() == 2);
    assert(e.len() == 15 + cl + 2 + ul + 2 + dl);
    assert(e.subrange(0, 4) =~= s4);
    assert(e.subrange(4, 12) =~= s8);
    assert(e.subrange(13, 15) =~= c2);
    assert((cl as u16) as int == cl);
    assert(len_at(e, 13) == cl);
    assert(channel_end(e) == 15 + cl);
    assert(e.subrange(15, 15 + cl) =~= cb);
    assert(e.subrange(15 + cl, 15 + cl + 2) =~= u2);
    assert((ul as u16) as int == ul);
    assert(len_at(e, 15 + cl) == ul);
    assert(user_end(e) == 17 + cl + ul);
    assert(e.subrange(17 + cl, 17 + cl + ul) =~= ub);
    assert(e.subrange(17 + cl + ul, 19 + cl + ul) =~= d2);
    assert((dl as u16) as int == dl);
    assert(len_at(e, 17 + cl + ul) == dl);
    assert(e.subrange(19 + cl + ul, 19 + cl + ul + dl) =~= p.data);
    assert(e[12] == (if p.contains_voice { 1u8 } else { 0u8 }));
    let q = decode_packet(e).unwrap();
    assert(q.contains_voice == p.contains_voice);
}

} // verus!
