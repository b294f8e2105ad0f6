use vstd::prelude::*;

verus! {

/// Value of an unsigned little-endian 16-bit word.
pub open spec fn le_u16(lo: u8, hi: u8) -> int {
    lo + 256 * hi
}

/// Value of a two's complement little-endian 16-bit word.
pub open spec fn le_i16(lo: u8, hi: u8) -> int {
    if hi < 128 {
        le_u16(lo, hi)
    } else {
        le_u16(lo, hi) - 65536
    }
}

/// Decodes an unsigned little-endian 16-bit word.
pub fn u16_from_le(lo: u8, hi: u8) -> (v: u16)
    ensures
        v == le_u16(lo, hi),
{
    (lo as u16) + (hi as u16) * 256
}

/// Decodes a two's complement little-endian 16-bit word.
pub fn i16_from_le(lo: u8, hi: u8) -> (v: i16)
    ensures
        v == le_i16(lo, hi),
{
    let wide: i32 = (lo as i32) + (hi as i32) * 256;
    if hi < 128 {
        wide as i16
    } else {
        (wide - 65536) as i16
    }
}

/// Factory trimming parameters stored in the sensor's non-volatile memory
/// (registers 0x88..=0x9F), used by the compensation formulas.
#[derive(Clone, Copy, Debug, PartialEq, Eq, Structural)]
pub struct Calibration {
    pub dig_t1: u16,
    pub dig_t2: i16,
    pub dig_t3: i16,
    pub dig_p1: u16,
    pub dig_p2: i16,
    pub dig_p3: i16,
    pub dig_p4: i16,
    pub dig_p5: i16,
    pub dig_p6: i16,
    pub dig_p7: i16,
    pub dig_p8: i16,
    pub dig_p9: i16,
}

/// Number of calibration bytes in the register block.
pub const CALIBRATION_LEN: usize = 24;

/// The calibration that the 24-byte register block `b` encodes: twelve
/// little-endian words, `dig_t1` and `dig_p1` unsigned, the others signed.
pub open spec fn calibration_of(b: Seq<u8>) -> Calibration {
    Calibration {
        dig_t1: le_u16(b[0], b[1]) as u16,
        dig_t2: le_i16(b[2], b[3]) as i16,
        dig_t3: le_i16(b[4], b[5]) as i16,
        dig_p1: le_u16(b[6], b[7]) as u16,
        dig_p2: le_i16(b[8], b[9]) as i16,
        dig_p3: le_i16(b[10], b[11]) as i16,
        dig_p4: le_i16(b[12], b[13]) as i16,
        dig_p5: le_i16(b[14], b[15]) as i16,
        dig_p6: le_i16(b[16], b[17]) as i16,
        dig_p7: le_i16(b[18], b[19]) as i16,
        dig_p8: le_i16(b[20], b[21]) as i16,
        dig_p9: le_i16(b[22], b[23]) as i16,
    }
}

impl Calibration {
    /// Decodes the calibration register block read from 0x88.
    pub fn from_bytes(b: &[u8]) -> (cal: Calibration)
        requires
            b@.len() == CALIBRATION_LEN,
        ensures
            cal == calibration_of(b@),
            cal.dig_t1 == le_u16(b@[0], b@[1]),
            cal.dig_t2 == le_i16(b@[2], b@[3]),
            cal.dig_t3 == le_i16(b@[4], b@[5]),
            cal.dig_p1 == le_u16(b@[6], b@[7]),
            cal.dig_p2 == le_i16(b@[8], b@[9]),
            cal.dig_p3 == le_i16(b@[10], b@[11]),
            cal.dig_p4 == le_i16(b@[12], b@[13]),
            cal.dig_p5 == le_i16(b@[14], b@[15]),
            cal.dig_p6 == le_i16(b@[16], b@[17]),
            cal.dig_p7 == le_i16(b@[18], b@[19]),
            cal.dig_p8 == le_i16(b@[20], b@[21]),
            cal.dig_p9 == le_i16(b@[22], b@[23]),
    {
        Calibration {
            dig_t1: u16_from_le(b[0], b[1]),
            dig_t2: i16_from_le(b[2], b[3]),
            dig_t3: i16_from_le(b[4], b[5]),
            dig_p1: u16_from_le(b[6], b[7]),
            dig_p2: i16_from_le(b[8], b[9]),
            dig_p3: i16_from_le(b[10], b[11]),
            dig_p4: i16_from_le(b[12], b[13]),
            dig_p5: i16_from_le(b[14], b[15]),
            dig_p6: i16_from_le(b[16], b[17]),
            dig_p7: i16_from_le(b[18], b[19]),
            dig_p8: i16_from_le(b[20], b[21]),
            dig_p9: i16_from_le(b[22], b[23]),
        }
    }
}

} // verus!
