//! The fixed 30-byte telemetry frame and its codec.
//!
//! Float readings travel as little-endian IEEE-754 binary32 values; the codec
//! never interprets them and carries their bit patterns as `u32`.
use vstd::prelude::*;

verus! {

/// Size in bytes of one telemetry frame on the wire.
pub const DATA_STREAM_SIZE: usize = 30;

/// One vehicle report. Each float reading holds the bit pattern of a binary32
/// value; `fix` and `quality` are 4-bit values.
#[derive(Clone, Copy, Debug, PartialEq, Eq, Structural)]
pub struct RocketData {
    /// Milliseconds since vehicle boot.
    pub time: u32,
    pub altitude: u32,
    pub orx: u32,
    pub ory: u32,
    pub orz: u32,
    pub lat: u32,
    pub long: u32,
    pub fix: u8,
    pub quality: u8,
    pub cont1: bool,
    pub cont2: bool,
}

impl RocketData {
    /// The nibble fields fit in four bits.
    pub open spec fn wf(&self) -> bool {
        self.fix < 16 && self.quality < 16
    }
}

/// The four little-endian bytes of `x`.
pub open spec fn le_bytes(x: u32) -> Seq<u8> {
    seq![x as u8, (x >> 8u32) as u8, (x >> 16u32) as u8, (x >> 24u32) as u8]
}

/// The `u32` stored little-endian in `b[at..at + 4]`.
pub open spec fn le_u32(b: Seq<u8>, at: int) -> u32 {
    le_join(b[at], b[at + 1], b[at + 2], b[at + 3])
}

pub open spec fn le_join(b0: u8, b1: u8, b2: u8, b3: u8) -> u32 {
    (b0 as u32) | ((b1 as u32) << 8u32) | ((b2 as u32) << 16u32) | ((b3 as u32) << 24u32)
}

/// Byte 28: quality in the high nibble, fix in the low nibble.
pub open spec fn fix_quality_byte(fix: u8, quality: u8) -> u8 {
    ((quality << 4u8) | (fix & 0x0fu8)) as u8
}

/// Byte 29: bit 0 is `cont1`, bit 1 is `cont2`.
pub open spec fn continuity_byte(cont1: bool, cont2: bool) -> u8 {
    ((if cont1 { 1u8 } else { 0u8 }) + (if cont2 { 2u8 } else { 0u8 })) as u8
}

/// The wire image of a report.
pub open spec fn encode_spec(d: RocketData) -> Seq<u8> {
    le_bytes(d.time) + le_bytes(d.altitude) + le_bytes(d.orx) + le_bytes(d.ory) + le_bytes(d.orz)
        + le_bytes(d.lat) + le_bytes(d.long) + seq![
        fix_quality_byte(d.fix, d.quality),
        continuity_byte(d.cont1, d.cont2),
    ]
}

/// The report read from a 30-byte wire image. The nibbles and flags are
/// masked out of bytes 28 and 29 (`fix = b & 0x0F`, `cont2 = b & 2 == 2`),
/// which inverts the encoder's packing exactly. Wire note: a peer that reads
/// `fix` as `b | 0x0F`, or tests bit 1 against 1, sees `fix` as 15 and `cont2`
/// as never set on the same bytes.
pub open spec fn decode_spec(b: Seq<u8>) -> RocketData {
    RocketData {
        time: le_u32(b, 0),
        altitude: le_u32(b, 4),
        orx: le_u32(b, 8),
        ory: le_u32(b, 12),
        orz: le_u32(b, 16),
        lat: le_u32(b, 20),
        long: le_u32(b, 24),
        fix: b[28] & 0x0fu8,
        quality: b[28] >> 4u8,
        cont1: b[29] & 1u8 == 1u8,
        cont2: b[29] & 2u8 == 2u8,
    }
}

/// Encodes a report into its wire image. Never fails.
pub fn encode_stream(data: RocketData) -> (r: Result<[u8; DATA_STREAM_SIZE], String>)
    ensures
        r matches Ok(b) && b@ == encode_spec(data),
{
    let t = data.time;
    let a = data.altitude;
    let x = data.orx;
    let y = data.ory;
    let z = data.orz;
    let la = data.lat;
    let lo = data.long;
    let fix_qual: u8 = (data.quality << 4u8) | (data.fix & 0x0fu8);
    let conts: u8 = (if data.cont1 { 1u8 } else { 0u8 }) + (if data.cont2 { 2u8 } else { 0u8 });
    let buf: [u8; DATA_STREAM_SIZE] = [
        t as u8, (t >> 8u32) as u8, (t >> 16u32) as u8, (t >> 24u32) as u8,
        a as u8, (a >> 8u32) as u8, (a >> 16u32) as u8, (a >> 24u32) as u8,
        x as u8, (x >> 8u32) as u8, (x >> 16u32) as u8, (x >> 24u32) as u8,
        y as u8, (y >> 8u32) as u8, (y >> 16u32) as u8, (y >> 24u32) as u8,
        z as u8, (z >> 8u32) as u8, (z >> 16u32) as u8, (z >> 24u32) as u8,
        la as u8, (la >> 8u32) as u8, (la >> 16u32) as u8, (la >> 24u32) as u8,
        lo as u8, (lo >> 8u32) as u8, (lo >> 16u32) as u8, (lo >> 24u32) as u8,
        fix_qual, conts,
    ];
    assert(buf@ =~= encode_spec(data));
    Ok(buf)
}

/// Reads the little-endian `u32` at `at`.
fn read_le(buf: &[u8; DATA_STREAM_SIZE], at: usize) -> (r: u32)
    requires
        at + 4 <= DATA_STREAM_SIZE,
    ensures
        r == le_u32(buf@, at as int),
{
    (buf[at] as u32) | ((buf[at + 1] as u32) << 8u32) | ((buf[at + 2] as u32) << 16u32) | ((
    buf[at + 3] as u32) << 24u32)
}

/// Decodes a wire image into a report. Every 30-byte image decodes.
pub fn decode_stream(buf: [u8; DATA_STREAM_SIZE]) -> (r: Result<RocketData, String>)
    ensures
        r == Ok::<RocketData, String>(decode_spec(buf@)),
{
    let fq = buf[28];
    let cs = buf[29];
    Ok(
        RocketData {
            time: read_le(&buf, 0),
            altitude: read_le(&buf, 4),
            orx: read_le(&buf, 8),
            ory: read_le(&buf, 12),
            orz: read_le(&buf, 16),
            lat: read_le(&buf, 20),
            long: read_le(&buf, 24),
            fix: fq & 0x0fu8,
            quality: fq >> 4u8,
            cont1: cs & 1u8 == 1u8,
            cont2: cs & 2u8 == 2u8,
        },
    )
}

/// Bytes of a `u32` read back little-endian give the value.
proof fn lemma_le_round_trip(x: u32)
    ensures
        le_join(x as u8, (x >> 8u32) as u8, (x >> 16u32) as u8, (x >> 24u32) as u8) == x,
{
    assert(((x as u8) as u32) | ((((x >> 8u32) as u8) as u32) << 8u32) | ((((x >> 16u32) as u8)
        as u32) << 16u32) | ((((x >> 24u32) as u8) as u32) << 24u32) == x) by (bit_vector);
}

/// Decoding the encoding of a well-formed report gives the report back.
pub proof fn lemma_decode_encode(d: RocketData)
    requires
        d.wf(),
    ensures
        decode_spec(encode_spec(d)) == d,
{
    let b = encode_spec(d);
    lemma_le_round_trip(d.time);
    lemma_le_round_trip(d.altitude);
    lemma_le_round_trip(d.orx);
    lemma_le_round_trip(d.ory);
    lemma_le_round_trip(d.orz);
    lemma_le_round_trip(d.lat);
    lemma_le_round_trip(d.long);
    let (f, q) = (d.fix, d.quality);
    assert(((q << 4u8) | (f & 0x0fu8)) & 0x0fu8 == f && ((q << 4u8) | (f & 0x0fu8)) >> 4u8 == q)
        by (bit_vector)
        requires
            f < 16,
            q < 16,
    ;
    assert(b =~= seq![
        d.time as u8, (d.time >> 8u32) as u8, (d.time >> 16u32) as u8, (d.time >> 24u32) as u8,
        d.altitude as u8, (d.altitude >> 8u32) as u8, (d.altitude >> 16u32) as u8, (d.altitude >> 24u32) as u8,
        d.orx as u8, (d.orx >> 8u32) as u8, (d.orx >> 16u32) as u8, (d.orx >> 24u32) as u8,
        d.ory as u8, (d.ory >> 8u32) as u8, (d.ory >> 16u32) as u8, (d.ory >> 24u32) as u8,
        d.orz as u8, (d.orz >> 8u32) as u8, (d.orz >> 16u32) as u8, (d.orz >> 24u32) as u8,
        d.lat as u8, (d.lat >> 8u32) as u8, (d.lat >> 16u32) as u8, (d.lat >> 24u32) as u8,
        d.long as u8, (d.long >> 8u32) as u8, (d.long >> 16u32) as u8, (d.long >> 24u32) as u8,
        fix_quality_byte(f, q), continuity_byte(d.cont1, d.cont2),
    ]);
    assert(b[28] == fix_quality_byte(f, q));
    assert(b[29] == continuity_byte(d.cont1, d.cont2));
    let c = b[29];
    assert(c == 0 || c == 1 || c == 2 || c == 3);
    assert(c <= 3 ==> ((c & 1u8 == 1u8) == (c == 1 || c == 3) && (c & 2u8 == 2u8) == (c >= 2)))
        by (bit_vector);
}

} // verus!
