//! Murmur: a small fixed-size gossip message.
//!
//! Contains a room ID, vibe value, tick, and surprise.
//! Serializes to 32 bytes for constrained transports.

use vstd::prelude::*;
use crate::MURMUR_SIZE;

verus! {

/// A gossip message, small enough for UDP, BLE, UART, or I2C.
///
/// `vibe` and `surprise` hold the 64-bit patterns of binary64 values.
#[derive(Clone, Copy, Debug)]
pub struct Murmur {
    /// Room ID that originated this murmur.
    pub room_id: u8,
    /// Bit pattern of the vibe value at time of murmur.
    pub vibe: u64,
    /// Tick when this murmur was created.
    pub tick: u32,
    /// Bit pattern of the surprise value (prediction error).
    pub surprise: u64,
}

/// Little-endian bytes of a 64-bit word.
pub open spec fn le_bytes_u64(x: u64) -> Seq<u8> {
    seq![
        (x & 0xff) as u8,
        ((x >> 8u64) & 0xff) as u8,
        ((x >> 16u64) & 0xff) as u8,
        ((x >> 24u64) & 0xff) as u8,
        ((x >> 32u64) & 0xff) as u8,
        ((x >> 40u64) & 0xff) as u8,
        ((x >> 48u64) & 0xff) as u8,
        ((x >> 56u64) & 0xff) as u8,
    ]
}

/// Little-endian bytes of a 32-bit word.
pub open spec fn le_bytes_u32(x: u32) -> Seq<u8> {
    seq![
        (x & 0xff) as u8,
        ((x >> 8u32) & 0xff) as u8,
        ((x >> 16u32) & 0xff) as u8,
        ((x >> 24u32) & 0xff) as u8,
    ]
}

/// The 64-bit word whose little-endian bytes are `b[0..8]`.
pub open spec fn u64_from_le(b: Seq<u8>) -> u64 {
    (b[0] as u64) | ((b[1] as u64) << 8u64) | ((b[2] as u64) << 16u64) | ((b[3] as u64) << 24u64)
        | ((b[4] as u64) << 32u64) | ((b[5] as u64) << 40u64) | ((b[6] as u64) << 48u64) | ((
    b[7] as u64) << 56u64)
}

/// The 32-bit word whose little-endian bytes are `b[0..4]`.
pub open spec fn u32_from_le(b: Seq<u8>) -> u32 {
    (b[0] as u32) | ((b[1] as u32) << 8u32) | ((b[2] as u32) << 16u32) | ((b[3] as u32) << 24u32)
}

/// The wire layout of a murmur:
/// `[room_id:1][vibe:8][tick:4][surprise:8][padding:11]`, little endian,
/// padding zero.
pub open spec fn murmur_layout(m: Murmur) -> Seq<u8> {
    seq![m.room_id] + le_bytes_u64(m.vibe) + le_bytes_u32(m.tick) + le_bytes_u64(m.surprise)
        + Seq::new(11, |i: int| 0u8)
}

/// The murmur that a 32-byte frame encodes; the padding bytes are ignored.
pub open spec fn murmur_decode(b: Seq<u8>) -> Murmur {
    Murmur {
        room_id: b[0],
        vibe: u64_from_le(b.subrange(1, 9)),
        tick: u32_from_le(b.subrange(9, 13)),
        surprise: u64_from_le(b.subrange(13, 21)),
    }
}

/// Whether the padding bytes of a frame are all zero.
pub open spec fn padding_is_zero(b: Seq<u8>) -> bool {
    forall|i: int| 21 <= i < b.len() ==> b[i] == 0u8
}

proof fn lemma_u64_word_bytes(x: u64)
    ensures
        u64_from_le(le_bytes_u64(x)) == x,
{
    let b = le_bytes_u64(x);
    assert(b[0] == (x & 0xff) as u8);
    assert(b[7] == ((x >> 56u64) & 0xff) as u8);
    assert(((((x & 0xff) as u8) as u64) | (((((x >> 8u64) & 0xff) as u8) as u64) << 8u64) | ((
    (((x >> 16u64) & 0xff) as u8) as u64) << 16u64) | (((((x >> 24u64) & 0xff) as u8) as u64)
        << 24u64) | (((((x >> 32u64) & 0xff) as u8) as u64) << 32u64) | (((((x >> 40u64) & 0xff)
        as u8) as u64) << 40u64) | (((((x >> 48u64) & 0xff) as u8) as u64) << 48u64) | (((((x
        >> 56u64) & 0xff) as u8) as u64) << 56u64)) == x) by (bit_vector);
}

proof fn lemma_u32_word_bytes(x: u32)
    ensures
        u32_from_le(le_bytes_u32(x)) == x,
{
    assert(((((x & 0xff) as u8) as u32) | (((((x >> 8u32) & 0xff) as u8) as u32) << 8u32) | ((
    (((x >> 16u32) & 0xff) as u8) as u32) << 16u32) | (((((x >> 24u32) & 0xff) as u8) as u32)
        << 24u32)) == x) by (bit_vector);
}

proof fn lemma_u64_bytes_word(b: Seq<u8>)
    requires
        b.len() == 8,
    ensures
        le_bytes_u64(u64_from_le(b)) == b,
{
    let (b0, b1, b2, b3, b4, b5, b6, b7) = (b[0], b[1], b[2], b[3], b[4], b[5], b[6], b[7]);
    let x = u64_from_le(b);
    assert(x == (b0 as u64) | ((b1 as u64) << 8u64) | ((b2 as u64) << 16u64) | ((b3 as u64)
        << 24u64) | ((b4 as u64) << 32u64) | ((b5 as u64) << 40u64) | ((b6 as u64) << 48u64) | ((
    b7 as u64) << 56u64));
    assert(x == (b0 as u64) | ((b1 as u64) << 8u64) | ((b2 as u64) << 16u64) | ((b3 as u64)
        << 24u64) | ((b4 as u64) << 32u64) | ((b5 as u64) << 40u64) | ((b6 as u64) << 48u64) | ((
    b7 as u64) << 56u64) ==> b0 == (x & 0xff) as u8 && b1 == ((x >> 8u64) & 0xff) as u8 && b2 == ((x
        >> 16u64) & 0xff) as u8 && b3 == ((x >> 24u64) & 0xff) as u8 && b4 == ((x >> 32u64) & 0xff)
        as u8 && b5 == ((x >> 40u64) & 0xff) as u8 && b6 == ((x >> 48u64) & 0xff) as u8 && b7 == ((x
        >> 56u64) & 0xff) as u8) by (bit_vector);
    assert(le_bytes_u64(x) =~= b);
}

proof fn lemma_u32_bytes_word(b: Seq<u8>)
    requires
        b.len() == 4,
    ensures
        le_bytes_u32(u32_from_le(b)) == b,
{
    let (b0, b1, b2, b3) = (b[0], b[1], b[2], b[3]);
    let x = u32_from_le(b);
    assert(x == (b0 as u32) | ((b1 as u32) << 8u32) | ((b2 as u32) << 16u32) | ((b3 as u32)
        << 24u32) ==> b0 == (x & 0xff) as u8 && b1 == ((x >> 8u32) & 0xff) as u8 && b2 == ((x
        >> 16u32) & 0xff) as u8 && b3 == ((x >> 24u32) & 0xff) as u8) by (bit_vector);
    assert(le_bytes_u32(x) =~= b);
}

/// Decoding the layout of a murmur gives the murmur back.
pub proof fn lemma_murmur_decode_layout(m: Murmur)
    ensures
        murmur_layout(m).len() == MURMUR_SIZE,
        padding_is_zero(murmur_layout(m)),
        murmur_decode(murmur_layout(m)) == m,
{
    let b = murmur_layout(m);
    assert(b.subrange(1, 9) =~= le_bytes_u64(m.vibe));
    assert(b.subrange(9, 13) =~= le_bytes_u32(m.tick));
    assert(b.subrange(13, 21) =~= le_bytes_u64(m.surprise));
    lemma_u64_word_bytes(m.vibe);
    lemma_u32_word_bytes(m.tick);
    lemma_u64_word_bytes(m.surprise);
}

/// A 32-byte frame with zero padding is the layout of the murmur it decodes to.
pub proof fn lemma_murmur_layout_decode(b: Seq<u8>)
    requires
        b.len() == MURMUR_SIZE,
        padding_is_zero(b),
    ensures
        murmur_layout(murmur_decode(b)) == b,
{
    let m = murmur_decode(b);
    lemma_u64_bytes_word(b.subrange(1, 9));
    lemma_u32_bytes_word(b.subrange(9, 13));
    lemma_u64_bytes_word(b.subrange(13, 21));
    assert(murmur_layout(m) =~= b);
}

proof fn lemma_u64_byte_digits(x: u64)
    ensures
        (x & 0xff) as u8 == x % 0x100,
        ((x >> 8u64) & 0xff) as u8 == (x / 0x100) % 0x100,
        ((x >> 16u64) & 0xff) as u8 == (x / 0x1_0000) % 0x100,
        ((x >> 24u64) & 0xff) as u8 == (x / 0x100_0000) % 0x100,
        ((x >> 32u64) & 0xff) as u8 == (x / 0x1_0000_0000) % 0x100,
        ((x >> 40u64) & 0xff) as u8 == (x / 0x100_0000_0000) % 0x100,
        ((x >> 48u64) & 0xff) as u8 == (x / 0x1_0000_0000_0000) % 0x100,
        ((x >> 56u64) & 0xff) as u8 == x / 0x100_0000_0000_0000,
{
    assert((x & 0xff) as u8 == x % 0x100) by (bit_vector);
    assert(((x >> 8u64) & 0xff) as u8 == (x / 0x100) % 0x100) by (bit_vector);
    assert(((x >> 16u64) & 0xff) as u8 == (x / 0x1_0000) % 0x100) by (bit_vector);
    assert(((x >> 24u64) & 0xff) as u8 == (x / 0x100_0000) % 0x100) by (bit_vector);
    assert(((x >> 32u64) & 0xff) as u8 == (x / 0x1_0000_0000) % 0x100) by (bit_vector);
    assert(((x >> 40u64) & 0xff) as u8 == (x / 0x100_0000_0000) % 0x100) by (bit_vector);
    assert(((x >> 48u64) & 0xff) as u8 == (x / 0x1_0000_0000_0000) % 0x100) by (bit_vector);
    assert(((x >> 56u64) & 0xff) as u8 == x / 0x100_0000_0000_0000) by (bit_vector);
}

proof fn lemma_u32_byte_digits(x: u32)
    ensures
        (x & 0xff) as u8 == x % 0x100,
        ((x >> 8u32) & 0xff) as u8 == (x / 0x100) % 0x100,
        ((x >> 16u32) & 0xff) as u8 == (x / 0x1_0000) % 0x100,
        ((x >> 24u32) & 0xff) as u8 == x / 0x100_0000,
{
    assert((x & 0xff) as u8 == x % 0x100) by (bit_vector);
    assert(((x >> 8u32) & 0xff) as u8 == (x / 0x100) % 0x100) by (bit_vector);
    assert(((x >> 16u32) & 0xff) as u8 == (x / 0x1_0000) % 0x100) by (bit_vector);
    assert(((x >> 24u32) & 0xff) as u8 == x / 0x100_0000) by (bit_vector);
}

/// The wire layout, byte by byte: byte 0 is the room id; bytes 1..9, 9..13
/// and 13..21 are the base-256 digits of vibe, tick and surprise, least
/// significant first; bytes 21..32 are zero.
pub proof fn lemma_layout_bytes(m: Murmur)
    ensures
        murmur_layout(m).len() == MURMUR_SIZE,
        murmur_layout(m)[0] == m.room_id,
        murmur_layout(m)[1] == m.vibe % 0x100,
        murmur_layout(m)[2] == (m.vibe / 0x100) % 0x100,
        murmur_layout(m)[3] == (m.vibe / 0x1_0000) % 0x100,
        murmur_layout(m)[4] == (m.vibe / 0x100_0000) % 0x100,
        murmur_layout(m)[5] == (m.vibe / 0x1_0000_0000) % 0x100,
        murmur_layout(m)[6] == (m.vibe / 0x100_0000_0000) % 0x100,
        murmur_layout(m)[7] == (m.vibe / 0x1_0000_0000_0000) % 0x100,
        murmur_layout(m)[8] == m.vibe / 0x100_0000_0000_0000,
        murmur_layout(m)[9] == m.tick % 0x100,
        murmur_layout(m)[10] == (m.tick / 0x100) % 0x100,
        murmur_layout(m)[11] == (m.tick / 0x1_0000) % 0x100,
        murmur_layout(m)[12] == m.tick / 0x100_0000,
        murmur_layout(m)[13] == m.surprise % 0x100,
        murmur_layout(m)[14] == (m.surprise / 0x100) % 0x100,
        murmur_layout(m)[15] == (m.surprise / 0x1_0000) % 0x100,
        murmur_layout(m)[16] == (m.surprise / 0x100_0000) % 0x100,
        murmur_layout(m)[17] == (m.surprise / 0x1_0000_0000) % 0x100,
        murmur_layout(m)[18] == (m.surprise / 0x100_0000_0000) % 0x100,
        murmur_layout(m)[19] == (m.surprise / 0x1_0000_0000_0000) % 0x100,
        murmur_layout(m)[20] == m.surprise / 0x100_0000_0000_0000,
        forall|i: int| 21 <= i < MURMUR_SIZE ==> murmur_layout(m)[i] == 0,
{
    lemma_u64_byte_digits(m.vibe);
    lemma_u32_byte_digits(m.tick);
    lemma_u64_byte_digits(m.surprise);
}

/// Decoding reads each field as the little-endian base-256 number in its
/// bytes: room id from byte 0, vibe from bytes 1..9, tick from bytes 9..13,
/// surprise from bytes 13..21.
pub proof fn lemma_decode_fields(b: Seq<u8>)
    requires
        b.len() == MURMUR_SIZE,
    ensures
        murmur_decode(b).room_id == b[0],
        murmur_decode(b).vibe == b[1] + 0x100 * b[2] + 0x1_0000 * b[3] + 0x100_0000 * b[4]
            + 0x1_0000_0000 * b[5] + 0x100_0000_0000 * b[6] + 0x1_0000_0000_0000 * b[7]
            + 0x100_0000_0000_0000 * b[8],
        murmur_decode(b).tick == b[9] + 0x100 * b[10] + 0x1_0000 * b[11] + 0x100_0000 * b[12],
        murmur_decode(b).surprise == b[13] + 0x100 * b[14] + 0x1_0000 * b[15] + 0x100_0000
            * b[16] + 0x1_0000_0000 * b[17] + 0x100_0000_0000 * b[18] + 0x1_0000_0000_0000 * b[19]
            + 0x100_0000_0000_0000 * b[20],
{
    let v = b.subrange(1, 9);
    let t = b.subrange(9, 13);
    let s = b.subrange(13, 21);
    lemma_u64_le_value(v[0], v[1], v[2], v[3], v[4], v[5], v[6], v[7]);
    lemma_u32_le_value(t[0], t[1], t[2], t[3]);
    lemma_u64_le_value(s[0], s[1], s[2], s[3], s[4], s[5], s[6], s[7]);
}

proof fn lemma_u32_le_value(b0: u8, b1: u8, b2: u8, b3: u8)
    ensures
        (b0 as u32) | ((b1 as u32) << 8u32) | ((b2 as u32) << 16u32) | ((b3 as u32) << 24u32)
            == b0 + 0x100 * b1 + 0x1_0000 * b2 + 0x100_0000 * b3,
{
    assert((b0 as u32) | ((b1 as u32) << 8u32) | ((b2 as u32) << 16u32) | ((b3 as u32) << 24u32)
        == b0 + 0x100 * b1 + 0x1_0000 * b2 + 0x100_0000 * b3) by (bit_vector);
}

proof fn lemma_u64_le_value(b0: u8, b1: u8, b2: u8, b3: u8, b4: u8, b5: u8, b6: u8, b7: u8)
    ensures
        (b0 as u64) | ((b1 as u64) << 8u64) | ((b2 as u64) << 16u64) | ((b3 as u64) << 24u64) | ((
        b4 as u64) << 32u64) | ((b5 as u64) << 40u64) | ((b6 as u64) << 48u64) | ((b7 as u64)
            << 56u64) == b0 + 0x100 * b1 + 0x1_0000 * b2 + 0x100_0000 * b3 + 0x1_0000_0000 * b4
            + 0x100_0000_0000 * b5 + 0x1_0000_0000_0000 * b6 + 0x100_0000_0000_0000 * b7,
{
    assert((b0 as u64) | ((b1 as u64) << 8u64) | ((b2 as u64) << 16u64) | ((b3 as u64) << 24u64)
        | ((b4 as u64) << 32u64) | ((b5 as u64) << 40u64) | ((b6 as u64) << 48u64) | ((b7 as u64)
        << 56u64) == b0 + 0x100 * b1 + 0x1_0000 * b2 + 0x100_0000 * b3 + 0x1_0000_0000 * b4
        + 0x100_0000_0000 * b5 + 0x1_0000_0000_0000 * b6 + 0x100_0000_0000_0000 * b7)
        by (bit_vector);
}

impl Murmur {
    /// Create a new murmur.
    pub fn new(room_id: u8, vibe: u64, tick: u32, surprise: u64) -> (r: Self)
        ensures
            r == (Murmur { room_id, vibe, tick, surprise }),
    {
        Self { room_id, vibe, tick, surprise }
    }

    /// Serialize to a fixed-size byte array.
    ///
    /// Layout: [room_id:1][vibe:8][tick:4][surprise:8][padding:11]
    pub fn to_bytes(&self) -> (buf: [u8; MURMUR_SIZE])
        ensures
            buf@ == murmur_layout(*self),
    {
        let mut buf = [0u8; MURMUR_SIZE];
        buf[0] = self.room_id;
        let v = self.vibe;
        buf[1] = (v & 0xff) as u8;
        buf[2] = ((v >> 8u64) & 0xff) as u8;
        buf[3] = ((v >> 16u64) & 0xff) as u8;
        buf[4] = ((v >> 24u64) & 0xff) as u8;
        buf[5] = ((v >> 32u64) & 0xff) as u8;
        buf[6] = ((v >> 40u64) & 0xff) as u8;
        buf[7] = ((v >> 48u64) & 0xff) as u8;
        buf[8] = ((v >> 56u64) & 0xff) as u8;
        let t = self.tick;
        buf[9] = (t & 0xff) as u8;
        buf[10] = ((t >> 8u32) & 0xff) as u8;
        buf[11] = ((t >> 16u32) & 0xff) as u8;
        buf[12] = ((t >> 24u32) & 0xff) as u8;
        let s = self.surprise;
        buf[13] = (s & 0xff) as u8;
        buf[14] = ((s >> 8u64) & 0xff) as u8;
        buf[15] = ((s >> 16u64) & 0xff) as u8;
        buf[16] = ((s >> 24u64) & 0xff) as u8;
        buf[17] = ((s >> 32u64) & 0xff) as u8;
        buf[18] = ((s >> 40u64) & 0xff) as u8;
        buf[19] = ((s >> 48u64) & 0xff) as u8;
        buf[20] = ((s >> 56u64) & 0xff) as u8;
        // bytes 21..32 are padding (zeros)
        assert(buf@ =~= murmur_layout(*self));
        buf
    }

    /// Deserialize from a byte array.
    ///
    /// Every 32-byte frame decodes; the padding bytes are ignored.
    pub fn from_bytes(data: &[u8; MURMUR_SIZE]) -> (r: Option<Self>)
        ensures
            r == Some(murmur_decode(data@)),
    {
        if data.len() < MURMUR_SIZE {
            return None;
        }
        let room_id = data[0];
        let vibe = (data[1] as u64) | ((data[2] as u64) << 8u64) | ((data[3] as u64) << 16u64) | ((
        data[4] as u64) << 24u64) | ((data[5] as u64) << 32u64) | ((data[6] as u64) << 40u64) | ((
        data[7] as u64) << 48u64) | ((data[8] as u64) << 56u64);
        let tick = (data[9] as u32) | ((data[10] as u32) << 8u32) | ((data[11] as u32) << 16u32)
            | ((data[12] as u32) << 24u32);
        let surprise = (data[13] as u64) | ((data[14] as u64) << 8u64) | ((data[15] as u64)
            << 16u64) | ((data[16] as u64) << 24u64) | ((data[17] as u64) << 32u64) | ((
        data[18] as u64) << 40u64) | ((data[19] as u64) << 48u64) | ((data[20] as u64) << 56u64);
        Some(Self { room_id, vibe, tick, surprise })
    }
}

} // verus!
