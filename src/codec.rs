use vstd::prelude::*;
use crate::error::Error;

verus! {

/// Product identification: `'H'`, `'4'`, `'3'`.
pub const EXPECTED_PROD_ID_A: u8 = 72;

pub const EXPECTED_PROD_ID_B: u8 = 52;

pub const EXPECTED_PROD_ID_C: u8 = 51;

/// Exclusive bound on the magnitude of an X or Y reading: 1600 µT of dynamic
/// range at 0.3 µT per count is 5333 counts, plus one.
pub const MAX_VAL_XY: i16 = 5334;

/// Exclusive bound on the magnitude of a Z reading: 2500 µT at 0.3 µT per
/// count is 8333 counts, plus one.
pub const MAX_VAL_Z: i16 = 8334;

/// The product identification bytes of the chip.
pub open spec fn expected_id() -> Seq<u8> {
    seq![EXPECTED_PROD_ID_A, EXPECTED_PROD_ID_B, EXPECTED_PROD_ID_C]
}

/// The 16-bit two's-complement value whose low byte is `lo` and high byte is
/// `hi`, that is `lo | (hi << 8)` read as signed.
pub open spec fn axis_value(lo: u8, hi: u8) -> int {
    lo + 256 * hi - (if hi >= 0x80 { 0x10000int } else { 0int })
}

/// `s` is the X, Y, Z sample that the six data bytes `b` encode, each axis low byte first.
pub open spec fn is_sample_of(s: [i16; 3], b: Seq<u8>) -> bool {
    &&& s[0] == axis_value(b[0], b[1])
    &&& s[1] == axis_value(b[2], b[3])
    &&& s[2] == axis_value(b[4], b[5])
}

/// Each axis lies strictly inside the chip's documented dynamic range.
pub open spec fn sample_in_range(x: int, y: int, z: int) -> bool {
    &&& -MAX_VAL_XY < x < MAX_VAL_XY
    &&& -MAX_VAL_XY < y < MAX_VAL_XY
    &&& -MAX_VAL_Z < z < MAX_VAL_Z
}

/// The six data bytes `b` encode a sample inside the dynamic range.
pub open spec fn data_in_range(b: Seq<u8>) -> bool {
    sample_in_range(axis_value(b[0], b[1]), axis_value(b[2], b[3]), axis_value(b[4], b[5]))
}

/// Integer division rounding toward zero, as Rust's `/` does.
pub open spec fn div_toward_zero(v: int, d: int) -> int {
    if v >= 0 {
        v / d
    } else {
        -((-v) / d)
    }
}

/// Degrees Celsius for the temperature register pair: the signed value
/// `msb * 256 + lsb` divided by 128, plus 25.
pub open spec fn temperature_value(msb: u8, lsb: u8) -> int {
    div_toward_zero(axis_value(lsb, msb), 128) + 25
}

/// Combine the low byte at `idx` and the high byte after it into one signed reading.
pub fn raw_reading_to_i16(buf: &[u8], idx: usize) -> (r: i16)
    requires
        idx + 1 < buf@.len(),
    ensures
        r == axis_value(buf@[idx as int], buf@[idx + 1]),
{
    let lo = buf[idx];
    let hi = buf[idx + 1];
    let v: i32 = (hi as i32) * 256 + (lo as i32);
    let s: i32 = if hi >= 0x80 {
        v - 0x10000
    } else {
        v
    };
    s as i16
}

/// Verify that a magnetometer reading is within the expected range.
pub fn reading_in_range(sample: &[i16; 3]) -> (r: bool)
    ensures
        r == sample_in_range(sample[0] as int, sample[1] as int, sample[2] as int),
{
    -MAX_VAL_XY < sample[0] && sample[0] < MAX_VAL_XY && -MAX_VAL_XY < sample[1] && sample[1]
        < MAX_VAL_XY && -MAX_VAL_Z < sample[2] && sample[2] < MAX_VAL_Z
}

/// Decode the six data bytes into an X, Y, Z sample; with `check` on, a
/// sample outside the dynamic range is rejected with `OutOfRange`.
pub fn decode_sample<C, P>(buf: &[u8], check: bool) -> (r: Result<[i16; 3], Error<C, P>>)
    requires
        buf@.len() == 6,
    ensures
        r is Ok <==> (check ==> data_in_range(buf@)),
        r matches Ok(s) ==> is_sample_of(s, buf@),
        r is Err ==> r == Err::<[i16; 3], Error<C, P>>(Error::OutOfRange),
{
    let sample = [raw_reading_to_i16(buf, 0), raw_reading_to_i16(buf, 2), raw_reading_to_i16(buf, 4)];
    if check && !reading_in_range(&sample) {
        return Err(Error::OutOfRange);
    }
    Ok(sample)
}

/// Degrees Celsius from the temperature register pair, most significant byte first.
pub fn decode_temperature(msb: u8, lsb: u8) -> (r: i16)
    ensures
        r == temperature_value(msb, lsb),
{
    let v: i32 = (msb as i32) * 256 + (lsb as i32);
    let s: i32 = if msb >= 0x80 {
        v - 0x10000
    } else {
        v
    };
    let q: i32 = if s >= 0 {
        s / 128
    } else {
        -((-s) / 128)
    };
    (q + 25) as i16
}

/// Whether the product-identification bytes name this chip.
pub fn is_expected_id(id: &[u8]) -> (r: bool)
    ensures
        r == (id@ == expected_id()),
{
    let r = id.len() == 3 && id[0] == EXPECTED_PROD_ID_A && id[1] == EXPECTED_PROD_ID_B && id[2]
        == EXPECTED_PROD_ID_C;
    proof {
        if r {
            assert(id@ =~= expected_id());
        }
    }
    r
}

/// Compare the read-back of the gain register with the value written: the
/// write is confirmed only by exactly that one byte.
pub fn confirm_gain<C, P>(gain_val: u8, readback: &[u8]) -> (r: Result<(), Error<C, P>>)
    ensures
        r is Ok <==> readback@ == seq![gain_val],
        r is Err ==> r == Err::<(), Error<C, P>>(Error::Configuration),
{
    if readback.len() == 1 && readback[0] == gain_val {
        proof {
            assert(readback@ =~= seq![gain_val]);
        }
        Ok(())
    } else {
        Err(Error::Configuration)
    }
}

} // verus!
