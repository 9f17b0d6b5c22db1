//! Sensor records and the two fixed-width frame layouts that carry them.
use vstd::prelude::*;
use crate::bytes::{
    be_bytes, be_nat, lemma_be_nat_bound, lemma_be_round_trip, lemma_pow256_small, push_be, read_be,
    to_signed, to_unsigned,
};
use crate::checksum::{calculate_checksum, checksum_of};

verus! {

/// Length of a temperature/pressure frame: timestamp, temperature, pressure, checksum.
pub const TEMP_PRESSURE_FRAME_LEN: usize = 15;

/// Length of an accelerometer frame: timestamp, three axes, checksum.
pub const ACCELEROMETER_FRAME_LEN: usize = 21;

/// One decoded sensor reading. `timestamp` counts microseconds since the Unix
/// epoch (UTC); `temperature_bits` holds the IEEE-754 binary32 pattern of the
/// temperature in degrees Celsius.
#[derive(Debug, Clone, Copy, PartialEq, Eq, Structural)]
pub enum SensorData {
    TempPressure { timestamp: i64, temperature_bits: u32, pressure: i16 },
    Accelerometer { timestamp: i64, x: i32, y: i32, z: i32 },
}

/// Why a frame was not turned into a record.
#[derive(Debug, Clone, Copy, PartialEq, Eq, Structural)]
pub enum DecodeError {
    /// The trailer byte differs from the checksum of the body: the stream is out of step.
    ChecksumMismatch { calculated: u8, received: u8 },
    /// The leading eight bytes do not denote a representable instant.
    InvalidTimestamp,
}

/// Whether a count of microseconds since the Unix epoch names an instant that
/// the calendar library can represent.
pub uninterp spec fn micros_representable(micros: i64) -> bool;

/// Relies on chrono's `DateTime::<Utc>::from_timestamp_micros`: it returns
/// `Some` exactly for the microsecond counts it can represent.
#[verifier::external_body]
pub(crate) fn timestamp_is_representable(micros: i64) -> (r: bool)
    ensures
        r == micros_representable(micros),
{
    chrono::DateTime::<chrono::Utc>::from_timestamp_micros(micros).is_some()
}

impl SensorData {
    pub open spec fn timestamp_spec(self) -> i64 {
        match self {
            SensorData::TempPressure { timestamp, .. } => timestamp,
            SensorData::Accelerometer { timestamp, .. } => timestamp,
        }
    }

    /// A record whose timestamp is a count of microseconds since the epoch
    /// that denotes a representable instant.
    pub open spec fn well_formed(self) -> bool {
        self.timestamp_spec() >= 0 && micros_representable(self.timestamp_spec())
    }

    /// Microseconds since the Unix epoch.
    pub fn timestamp(&self) -> (r: i64)
        ensures
            r == self.timestamp_spec(),
    {
        match self {
            SensorData::TempPressure { timestamp, .. } => *timestamp,
            SensorData::Accelerometer { timestamp, .. } => *timestamp,
        }
    }
}

/// Unsigned field of `f` over bytes `[lo, hi)`.
pub open spec fn field(f: Seq<u8>, lo: int, hi: int) -> nat {
    be_nat(f.subrange(lo, hi))
}

/// Whether an unsigned count of microseconds since the epoch denotes a
/// representable instant.
pub open spec fn timestamp_ok(raw: nat) -> bool {
    raw <= i64::MAX && micros_representable(raw as i64)
}

/// Checks the trailer and the timestamp of a frame whose body is `f[0..n)`
/// and whose trailer is `f[n]`; on success yields the timestamp.
pub open spec fn frame_header(f: Seq<u8>, n: int) -> Result<i64, DecodeError> {
    let body = f.take(n);
    if f[n] != checksum_of(body) {
        Err(DecodeError::ChecksumMismatch { calculated: checksum_of(body), received: f[n] })
    } else if !timestamp_ok(field(f, 0, 8)) {
        Err(DecodeError::InvalidTimestamp)
    } else {
        Ok(field(f, 0, 8) as i64)
    }
}

/// The meaning of a 15-byte temperature/pressure frame.
pub open spec fn temp_pressure_of(f: Seq<u8>) -> Result<SensorData, DecodeError> {
    match frame_header(f, 14) {
        Err(e) => Err(e),
        Ok(ts) => Ok(
            SensorData::TempPressure {
                timestamp: ts,
                temperature_bits: field(f, 8, 12) as u32,
                pressure: to_signed(field(f, 12, 14) as int, 16) as i16,
            },
        ),
    }
}

/// The meaning of a 21-byte accelerometer frame.
pub open spec fn accelerometer_of(f: Seq<u8>) -> Result<SensorData, DecodeError> {
    match frame_header(f, 20) {
        Err(e) => Err(e),
        Ok(ts) => Ok(
            SensorData::Accelerometer {
                timestamp: ts,
                x: to_signed(field(f, 8, 12) as int, 32) as i32,
                y: to_signed(field(f, 12, 16) as int, 32) as i32,
                z: to_signed(field(f, 16, 20) as int, 32) as i32,
            },
        ),
    }
}

/// The body of the frame that carries `rec`, without its trailer.
pub open spec fn frame_body(rec: SensorData) -> Seq<u8> {
    match rec {
        SensorData::TempPressure { timestamp, temperature_bits, pressure } => be_bytes(
            to_unsigned(timestamp as int, 64),
            8,
        ) + be_bytes(temperature_bits as nat, 4) + be_bytes(to_unsigned(pressure as int, 16), 2),
        SensorData::Accelerometer { timestamp, x, y, z } => be_bytes(
            to_unsigned(timestamp as int, 64),
            8,
        ) + be_bytes(to_unsigned(x as int, 32), 4) + be_bytes(to_unsigned(y as int, 32), 4)
            + be_bytes(to_unsigned(z as int, 32), 4),
    }
}

/// The whole frame that carries `rec`: body followed by its checksum.
pub open spec fn frame_of(rec: SensorData) -> Seq<u8> {
    frame_body(rec).push(checksum_of(frame_body(rec)))
}

fn signed_u32(u: u64) -> (r: i32)
    requires
        u < 0x1_0000_0000,
    ensures
        r as int == to_signed(u as int, 32),
{
    if u >= 0x8000_0000 {
        (u as i64 - 0x1_0000_0000) as i32
    } else {
        u as i32
    }
}

fn signed_u16(u: u64) -> (r: i16)
    requires
        u < 0x1_0000,
    ensures
        r as int == to_signed(u as int, 16),
{
    if u >= 0x8000 {
        (u as i32 - 0x1_0000) as i16
    } else {
        u as i16
    }
}

/// Verifies the trailer, then the timestamp, of a frame with an `n`-byte body.
fn decode_header(frame: &[u8], n: usize) -> (r: Result<i64, DecodeError>)
    requires
        8 <= n < frame@.len(),
    ensures
        r == frame_header(frame@, n as int),
{
    let calculated = calculate_checksum(&frame[0..n]);
    proof {
        assert(frame@.subrange(0, n as int) =~= frame@.take(n as int));
    }
    let received = frame[n];
    if calculated != received {
        return Err(DecodeError::ChecksumMismatch { calculated, received });
    }
    proof {
        lemma_be_nat_bound(frame@.subrange(0, 8));
        lemma_pow256_small();
    }
    let raw = read_be(frame, 0, 8);
    if raw > i64::MAX as u64 {
        return Err(DecodeError::InvalidTimestamp);
    }
    let ts = raw as i64;
    if !timestamp_is_representable(ts) {
        return Err(DecodeError::InvalidTimestamp);
    }
    Ok(ts)
}

/// Decodes a temperature/pressure frame: checksum first, then timestamp.
pub fn decode_temp_pressure(frame: &[u8]) -> (r: Result<SensorData, DecodeError>)
    requires
        frame@.len() == TEMP_PRESSURE_FRAME_LEN,
    ensures
        r == temp_pressure_of(frame@),
        r is Ok <==> frame@[14] == checksum_of(frame@.take(14)) && timestamp_ok(field(frame@, 0, 8)),
        r matches Err(DecodeError::ChecksumMismatch { .. }) <==> frame@[14] != checksum_of(
            frame@.take(14),
        ),
        r matches Ok(rec) ==> rec.well_formed(),
{
    let ts = match decode_header(frame, 14) {
        Ok(ts) => ts,
        Err(e) => {
            return Err(e);
        },
    };
    proof {
        lemma_be_nat_bound(frame@.subrange(8, 12));
        lemma_be_nat_bound(frame@.subrange(12, 14));
        lemma_pow256_small();
    }
    let temperature_bits = read_be(frame, 8, 4) as u32;
    let pressure = signed_u16(read_be(frame, 12, 2));
    Ok(SensorData::TempPressure { timestamp: ts, temperature_bits, pressure })
}

/// Decodes an accelerometer frame: checksum first, then timestamp.
pub fn decode_accelerometer(frame: &[u8]) -> (r: Result<SensorData, DecodeError>)
    requires
        frame@.len() == ACCELEROMETER_FRAME_LEN,
    ensures
        r == accelerometer_of(frame@),
        r is Ok <==> frame@[20] == checksum_of(frame@.take(20)) && timestamp_ok(field(frame@, 0, 8)),
        r matches Err(DecodeError::ChecksumMismatch { .. }) <==> frame@[20] != checksum_of(
            frame@.take(20),
        ),
        r matches Ok(rec) ==> rec.well_formed(),
{
    let ts = match decode_header(frame, 20) {
        Ok(ts) => ts,
        Err(e) => {
            return Err(e);
        },
    };
    proof {
        lemma_be_nat_bound(frame@.subrange(8, 12));
        lemma_be_nat_bound(frame@.subrange(12, 16));
        lemma_be_nat_bound(frame@.subrange(16, 20));
        lemma_pow256_small();
    }
    let x = signed_u32(read_be(frame, 8, 4));
    let y = signed_u32(read_be(frame, 12, 4));
    let z = signed_u32(read_be(frame, 16, 4));
    Ok(SensorData::Accelerometer { timestamp: ts, x, y, z })
}

fn unsigned_i64(v: i64) -> (r: u64)
    ensures
        r as int == to_unsigned(v as int, 64),
{
    if v < 0 {
        (v - i64::MIN) as u64 + 0x8000_0000_0000_0000
    } else {
        v as u64
    }
}

fn unsigned_i32(v: i32) -> (r: u64)
    ensures
        r as int == to_unsigned(v as int, 32),
        r < 0x1_0000_0000,
{
    if v < 0 {
        (v as i64 + 0x1_0000_0000) as u64
    } else {
        v as u64
    }
}

fn unsigned_i16(v: i16) -> (r: u64)
    ensures
        r as int == to_unsigned(v as int, 16),
        r < 0x1_0000,
{
    if v < 0 {
        (v as i32 + 0x1_0000) as u64
    } else {
        v as u64
    }
}

/// Builds the frame that carries `rec`, trailer included.
pub fn encode_frame(rec: &SensorData) -> (r: Vec<u8>)
    ensures
        r@ == frame_of(*rec),
{
    let mut out: Vec<u8> = Vec::new();
    match rec {
        SensorData::TempPressure { timestamp, temperature_bits, pressure } => {
            push_be(&mut out, unsigned_i64(*timestamp), 8);
            push_be(&mut out, *temperature_bits as u64, 4);
            push_be(&mut out, unsigned_i16(*pressure), 2);
        },
        SensorData::Accelerometer { timestamp, x, y, z } => {
            push_be(&mut out, unsigned_i64(*timestamp), 8);
            push_be(&mut out, unsigned_i32(*x), 4);
            push_be(&mut out, unsigned_i32(*y), 4);
            push_be(&mut out, unsigned_i32(*z), 4);
        },
    }
    proof {
        assert(out@ =~= frame_body(*rec));
    }
    let c = calculate_checksum(out.as_slice());
    out.push(c);
    out
}

proof fn lemma_field_of_parts(a: Seq<u8>, b: Seq<u8>, v: nat, n: nat, lo: int)
    requires
        a.len() == lo,
        b.len() >= n,
        b.take(n as int) == be_bytes(v, n),
        v < crate::bytes::pow256(n),
    ensures
        field(a + b, lo, lo + n) == v,
{
    lemma_be_round_trip(v, n);
    assert((a + b).subrange(lo, lo + n) =~= be_bytes(v, n));
    vstd::arithmetic::div_mod::lemma_small_mod(v, crate::bytes::pow256(n));
}

/// Encoding a well-formed record and decoding the frame with the decoder of
/// its kind gives the record back.
pub proof fn lemma_decode_encode(rec: SensorData)
    requires
        rec.well_formed(),
    ensures
        rec is TempPressure ==> temp_pressure_of(frame_of(rec)) == Ok::<SensorData, DecodeError>(rec),
        rec is Accelerometer ==> accelerometer_of(frame_of(rec)) == Ok::<SensorData, DecodeError>(rec),
{
    lemma_pow256_small();
    let body = frame_body(rec);
    let f = frame_of(rec);
    match rec {
        SensorData::TempPressure { timestamp, temperature_bits, pressure } => {
            let t = be_bytes(to_unsigned(timestamp as int, 64), 8);
            let tb = be_bytes(temperature_bits as nat, 4);
            let pb = be_bytes(to_unsigned(pressure as int, 16), 2);
            lemma_be_round_trip(to_unsigned(timestamp as int, 64), 8);
            lemma_be_round_trip(temperature_bits as nat, 4);
            lemma_be_round_trip(to_unsigned(pressure as int, 16), 2);
            assert(f.take(14) =~= body);
            assert(f =~= Seq::<u8>::empty() + (t + (tb + pb).push(checksum_of(body))));
            assert((t + (tb + pb).push(checksum_of(body))).take(8) =~= t);
            lemma_field_of_parts(Seq::empty(), t + (tb + pb).push(checksum_of(body)), to_unsigned(timestamp as int, 64), 8, 0);
            assert(f =~= t + (tb + pb.push(checksum_of(body))));
            assert((tb + pb.push(checksum_of(body))).take(4) =~= tb);
            lemma_field_of_parts(t, tb + pb.push(checksum_of(body)), temperature_bits as nat, 4, 8);
            assert(f =~= (t + tb) + pb.push(checksum_of(body)));
            assert(pb.push(checksum_of(body)).take(2) =~= pb);
            lemma_field_of_parts(t + tb, pb.push(checksum_of(body)), to_unsigned(pressure as int, 16), 2, 12);
        },
        SensorData::Accelerometer { timestamp, x, y, z } => {
            let t = be_bytes(to_unsigned(timestamp as int, 64), 8);
            let xb = be_bytes(to_unsigned(x as int, 32), 4);
            let yb = be_bytes(to_unsigned(y as int, 32), 4);
            let zb = be_bytes(to_unsigned(z as int, 32), 4);
            lemma_be_round_trip(to_unsigned(timestamp as int, 64), 8);
            lemma_be_round_trip(to_unsigned(x as int, 32), 4);
            lemma_be_round_trip(to_unsigned(y as int, 32), 4);
            lemma_be_round_trip(to_unsigned(z as int, 32), 4);
            let c = checksum_of(body);
            assert(f.take(20) =~= body);
            assert(f =~= Seq::<u8>::empty() + (t + ((xb + yb) + zb).push(c)));
            assert((t + ((xb + yb) + zb).push(c)).take(8) =~= t);
            lemma_field_of_parts(Seq::empty(), t + ((xb + yb) + zb).push(c), to_unsigned(timestamp as int, 64), 8, 0);
            assert(f =~= t + (xb + (yb + zb.push(c))));
            assert((xb + (yb + zb.push(c))).take(4) =~= xb);
            lemma_field_of_parts(t, xb + (yb + zb.push(c)), to_unsigned(x as int, 32), 4, 8);
            assert(f =~= (t + xb) + (yb + zb.push(c)));
            assert((yb + zb.push(c)).take(4) =~= yb);
            lemma_field_of_parts(t + xb, yb + zb.push(c), to_unsigned(y as int, 32), 4, 12);
            assert(f =~= ((t + xb) + yb) + zb.push(c));
            assert(zb.push(c).take(4) =~= zb);
            lemma_field_of_parts((t + xb) + yb, zb.push(c), to_unsigned(z as int, 32), 4, 16);
        },
    }
}

} // verus!
