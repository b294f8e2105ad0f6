use vstd::prelude::*;

use crate::bmp280::calibration::Calibration;

verus! {

/// `x` is representable as an `i32`.
pub open spec fn fits_i32(x: int) -> bool {
    i32::MIN <= x <= i32::MAX
}

/// `x` is representable as an `i64`.
pub open spec fn fits_i64(x: int) -> bool {
    i64::MIN <= x <= i64::MAX
}

/// Quotient of Rust's `/` on signed integers, which rounds toward zero:
/// `|a| / |b|` with the sign of `a * b`.
pub open spec fn div_toward_zero(a: int, b: int) -> int {
    let q = (if a >= 0 { a } else { -a }) / (if b >= 0 { b } else { -b });
    if (a >= 0) == (b > 0) {
        q
    } else {
        -q
    }
}

// ---------------------------------------------------------------------------
// Temperature (datasheet integer formula, 0.01 degC resolution).
// An arithmetic shift right by k is the floor of a division by 2^k, which is
// what `/` by a positive constant denotes on `int`.
// ---------------------------------------------------------------------------

/// `(adc_T >> 3) - (dig_T1 << 1)`
pub open spec fn temp_offset(adc_t: int, cal: Calibration) -> int {
    adc_t / 8 - cal.dig_t1 * 2
}

/// `(adc_T >> 4) - dig_T1`
pub open spec fn temp_delta(adc_t: int, cal: Calibration) -> int {
    adc_t / 16 - cal.dig_t1
}

/// First temperature term: `(temp_offset * dig_T2) >> 11`.
pub open spec fn temp_var1(adc_t: int, cal: Calibration) -> int {
    (temp_offset(adc_t, cal) * cal.dig_t2) / 2048
}

/// Second temperature term: `(((temp_delta^2) >> 12) * dig_T3) >> 14`.
pub open spec fn temp_var2(adc_t: int, cal: Calibration) -> int {
    ((temp_delta(adc_t, cal) * temp_delta(adc_t, cal)) / 4096 * cal.dig_t3) / 16384
}

/// The fine temperature that the pressure formula takes as input.
pub open spec fn t_fine_of(adc_t: int, cal: Calibration) -> int {
    temp_var1(adc_t, cal) + temp_var2(adc_t, cal)
}

/// Temperature in hundredths of a degree Celsius: `(t_fine * 5 + 128) >> 8`.
pub open spec fn centi_celsius_of(t_fine: int) -> int {
    (t_fine * 5 + 128) / 256
}

/// Every intermediate value of the 32-bit temperature formula fits in an `i32`.
pub open spec fn temperature_in_range(adc_t: int, cal: Calibration) -> bool {
    &&& fits_i32(temp_offset(adc_t, cal) * cal.dig_t2)
    &&& fits_i32(temp_delta(adc_t, cal) * temp_delta(adc_t, cal))
    &&& fits_i32((temp_delta(adc_t, cal) * temp_delta(adc_t, cal)) / 4096 * cal.dig_t3)
    &&& fits_i32(t_fine_of(adc_t, cal))
    &&& fits_i32(t_fine_of(adc_t, cal) * 5)
    &&& fits_i32(t_fine_of(adc_t, cal) * 5 + 128)
}

/// The temperature in hundredths of a degree is `(5 * t_fine + 128) / 256`
/// rounded down, whatever the sign of `t_fine`:
/// `256 * c <= 5 * t_fine + 128 < 256 * c + 256`. So it never decreases as
/// `t_fine` grows, and it is negative exactly when `5 * t_fine + 128` is.
pub proof fn lemma_centi_celsius(t_fine: int, other: int)
    ensures
        256 * centi_celsius_of(t_fine) <= 5 * t_fine + 128,
        5 * t_fine + 128 < 256 * centi_celsius_of(t_fine) + 256,
        t_fine <= other ==> centi_celsius_of(t_fine) <= centi_celsius_of(other),
        centi_celsius_of(t_fine) < 0 <==> 5 * t_fine + 128 < 0,
{
    vstd::arithmetic::div_mod::lemma_fundamental_div_mod(t_fine * 5 + 128, 256);
    if t_fine <= other {
        vstd::arithmetic::div_mod::lemma_div_is_ordered(t_fine * 5 + 128, other * 5 + 128, 256);
    }
}

/// The fine temperature is the datasheet's sum of two terms in which every
/// arithmetic shift is the floor it denotes, for raw values and calibrations
/// of any sign: with `a8`, `a16` the raw value shifted right by 3 and 4,
/// `var1 = ((a8 - 2 dig_T1) dig_T2) >> 11`, `s = (a16 - dig_T1)^2 >> 12`,
/// `var2 = (s dig_T3) >> 14`, `t_fine = var1 + var2`. The result lists
/// `(a8, a16, var1, s, var2)`.
pub proof fn lemma_t_fine(adc_t: int, cal: Calibration) -> (w: (int, int, int, int, int))
    ensures
        8 * w.0 <= adc_t < 8 * w.0 + 8,
        16 * w.1 <= adc_t < 16 * w.1 + 16,
        2048 * w.2 <= (w.0 - 2 * cal.dig_t1) * cal.dig_t2 < 2048 * w.2 + 2048,
        4096 * w.3 <= (w.1 - cal.dig_t1) * (w.1 - cal.dig_t1) < 4096 * w.3 + 4096,
        16384 * w.4 <= w.3 * cal.dig_t3 < 16384 * w.4 + 16384,
        t_fine_of(adc_t, cal) == w.2 + w.4,
{
    let a8 = adc_t / 8;
    let a16 = adc_t / 16;
    let x = (a8 - 2 * cal.dig_t1) * cal.dig_t2;
    let d = a16 - cal.dig_t1;
    let sq = (d * d) / 4096;
    let y = sq * cal.dig_t3;
    vstd::arithmetic::div_mod::lemma_fundamental_div_mod(adc_t, 8);
    vstd::arithmetic::div_mod::lemma_fundamental_div_mod(adc_t, 16);
    vstd::arithmetic::div_mod::lemma_fundamental_div_mod(x, 2048);
    vstd::arithmetic::div_mod::lemma_fundamental_div_mod(d * d, 4096);
    vstd::arithmetic::div_mod::lemma_fundamental_div_mod(y, 16384);
    (a8, a16, x / 2048, sq, y / 16384)
}

/// A compensated temperature.
#[derive(Clone, Copy, Debug, PartialEq, Eq, Structural)]
pub struct Temperature {
    /// Temperature in hundredths of a degree Celsius.
    pub centi_celsius: i32,
    /// Fine temperature, the input of the pressure compensation.
    pub t_fine: i32,
}

proof fn lemma_i32_shifts(x: i32)
    ensures
        x >> 3u32 == x / 8,
        x >> 4u32 == x / 16,
        x >> 8u32 == x / 256,
        x >> 11u32 == x / 2048,
        x >> 12u32 == x / 4096,
        x >> 14u32 == x / 16384,
{
    assert(x >> 3u32 == x / 8 && x >> 4u32 == x / 16 && x >> 8u32 == x / 256 && x >> 11u32 == x
        / 2048 && x >> 12u32 == x / 4096 && x >> 14u32 == x / 16384) by (bit_vector);
}

/// Temperature compensation with the datasheet's 32-bit integer formula.
/// Returns the temperature in 0.01 degC together with `t_fine`.
pub fn compensate_temperature(adc_t: i32, cal: &Calibration) -> (t: Temperature)
    requires
        temperature_in_range(adc_t as int, *cal),
    ensures
        t.t_fine == t_fine_of(adc_t as int, *cal),
        t.centi_celsius == centi_celsius_of(t.t_fine as int),
{
    let t1 = cal.dig_t1 as i32;
    let t2 = cal.dig_t2 as i32;
    let t3 = cal.dig_t3 as i32;
    proof {
        lemma_i32_shifts(adc_t);
    }
    let offset = (adc_t >> 3) - t1 * 2;
    let scaled = offset * t2;
    proof {
        lemma_i32_shifts(scaled);
    }
    let var1 = scaled >> 11;
    let delta = (adc_t >> 4) - t1;
    let square = delta * delta;
    proof {
        lemma_i32_shifts(square);
    }
    let weighted = (square >> 12) * t3;
    proof {
        lemma_i32_shifts(weighted);
    }
    let var2 = weighted >> 14;
    let t_fine = var1 + var2;
    let rounded = t_fine * 5 + 128;
    proof {
        lemma_i32_shifts(rounded);
    }
    Temperature { centi_celsius: rounded >> 8, t_fine }
}

/// Decides `temperature_in_range` at run time.
pub fn temperature_fits(adc_t: i32, cal: &Calibration) -> (b: bool)
    ensures
        b == temperature_in_range(adc_t as int, *cal),
{
    let t1 = cal.dig_t1 as i32;
    let t2 = cal.dig_t2 as i32;
    let t3 = cal.dig_t3 as i32;
    proof {
        lemma_i32_shifts(adc_t);
    }
    let offset = (adc_t >> 3) - t1 * 2;
    let scaled = match offset.checked_mul(t2) {
        Some(v) => v,
        None => return false,
    };
    proof {
        lemma_i32_shifts(scaled);
    }
    let var1 = scaled >> 11;
    let delta = (adc_t >> 4) - t1;
    let square = match delta.checked_mul(delta) {
        Some(v) => v,
        None => return false,
    };
    proof {
        lemma_i32_shifts(square);
    }
    let weighted = match (square >> 12).checked_mul(t3) {
        Some(v) => v,
        None => return false,
    };
    proof {
        lemma_i32_shifts(weighted);
    }
    let var2 = weighted >> 14;
    let t_fine = match var1.checked_add(var2) {
        Some(v) => v,
        None => return false,
    };
    let times5 = match t_fine.checked_mul(5) {
        Some(v) => v,
        None => return false,
    };
    times5.checked_add(128).is_some()
}

// ---------------------------------------------------------------------------
// Pressure (datasheet 64-bit integer formula, Q24.8 pascal).
// ---------------------------------------------------------------------------

/// `t_fine - 128000`
pub open spec fn press_base(t_fine: int) -> int {
    t_fine - 128000
}

/// `x` reduced to the `i64` range modulo 2^64, as a left shift of an `i64`
/// does with the bits it pushes out.
pub open spec fn wrap_i64(x: int) -> int {
    (x + 0x8000_0000_0000_0000) % 0x1_0000_0000_0000_0000 - 0x8000_0000_0000_0000
}

/// `var1 * var1 * dig_P6 + ((var1 * dig_P5) << 17)`; the shift wraps.
pub open spec fn press_var2_partial(t_fine: int, cal: Calibration) -> int {
    press_base(t_fine) * press_base(t_fine) * cal.dig_p6 + wrap_i64(
        press_base(t_fine) * cal.dig_p5 * 131072,
    )
}

/// Second pressure term: the partial sum plus `dig_P4 << 35`.
pub open spec fn press_var2(t_fine: int, cal: Calibration) -> int {
    press_var2_partial(t_fine, cal) + cal.dig_p4 * 34359738368
}

/// `((var1 * var1 * dig_P3) >> 8) + ((var1 * dig_P2) << 12)`
pub open spec fn press_var1_partial(t_fine: int, cal: Calibration) -> int {
    (press_base(t_fine) * press_base(t_fine) * cal.dig_p3) / 256 + press_base(t_fine) * cal.dig_p2
        * 4096
}

/// The divisor: `(((1 << 47) + partial) * dig_P1) >> 33`.
pub open spec fn press_divisor(t_fine: int, cal: Calibration) -> int {
    ((140737488355328 + press_var1_partial(t_fine, cal)) * cal.dig_p1) / 8589934592
}

/// `(((1048576 - adc_P) << 31) - var2) * 3125`
pub open spec fn press_numerator(adc_p: int, t_fine: int, cal: Calibration) -> int {
    ((1048576 - adc_p) * 2147483648 - press_var2(t_fine, cal)) * 3125
}

/// The uncorrected pressure: numerator divided by the divisor, rounding toward zero.
pub open spec fn press_raw(adc_p: int, t_fine: int, cal: Calibration) -> int {
    div_toward_zero(press_numerator(adc_p, t_fine, cal), press_divisor(t_fine, cal))
}

/// `(dig_P9 * (p >> 13) * (p >> 13)) >> 25`
pub open spec fn press_adj1(p: int, cal: Calibration) -> int {
    (cal.dig_p9 * (p / 8192) * (p / 8192)) / 33554432
}

/// `(dig_P8 * p) >> 19`
pub open spec fn press_adj2(p: int, cal: Calibration) -> int {
    (cal.dig_p8 * p) / 524288
}

/// Pressure in pascal times 256 (Q24.8):
/// `((p + adj1 + adj2) >> 8) + (dig_P7 << 4)`.
pub open spec fn pressure_q24_8_of(adc_p: int, t_fine: int, cal: Calibration) -> int {
    let p = press_raw(adc_p, t_fine, cal);
    (p + press_adj1(p, cal) + press_adj2(p, cal)) / 256 + cal.dig_p7 * 16
}

/// Every intermediate value before the division fits in an `i64`.
pub open spec fn pressure_divisor_in_range(t_fine: int, cal: Calibration) -> bool {
    let b = press_base(t_fine);
    &&& fits_i64(b * b)
    &&& fits_i64(b * b * cal.dig_p6)
    &&& fits_i64(b * cal.dig_p5)
    &&& fits_i64(press_var2_partial(t_fine, cal))
    &&& fits_i64(press_var2(t_fine, cal))
    &&& fits_i64(b * b * cal.dig_p3)
    &&& fits_i64(b * cal.dig_p2)
    &&& fits_i64(b * cal.dig_p2 * 4096)
    &&& fits_i64(press_var1_partial(t_fine, cal))
    &&& fits_i64(140737488355328 + press_var1_partial(t_fine, cal))
    &&& fits_i64((140737488355328 + press_var1_partial(t_fine, cal)) * cal.dig_p1)
}

/// Every intermediate value from the division on fits in an `i64`.
pub open spec fn pressure_result_in_range(adc_p: int, t_fine: int, cal: Calibration) -> bool {
    let p = press_raw(adc_p, t_fine, cal);
    &&& fits_i64((1048576 - adc_p) * 2147483648)
    &&& fits_i64((1048576 - adc_p) * 2147483648 - press_var2(t_fine, cal))
    &&& fits_i64(press_numerator(adc_p, t_fine, cal))
    &&& fits_i64(p)
    &&& fits_i64(cal.dig_p9 * (p / 8192))
    &&& fits_i64(cal.dig_p9 * (p / 8192) * (p / 8192))
    &&& fits_i64(cal.dig_p8 * p)
    &&& fits_i64(p + press_adj1(p, cal))
    &&& fits_i64(p + press_adj1(p, cal) + press_adj2(p, cal))
    &&& fits_i64(pressure_q24_8_of(adc_p, t_fine, cal))
}

/// The 64-bit pressure formula runs without overflow: every value before the
/// division fits, and, where the divisor is not zero, every value after it.
pub open spec fn pressure_in_range(adc_p: int, t_fine: int, cal: Calibration) -> bool {
    &&& pressure_divisor_in_range(t_fine, cal)
    &&& (press_divisor(t_fine, cal) != 0 ==> pressure_result_in_range(adc_p, t_fine, cal))
}

/// Rust's `/` on `i64`.
fn div_i64(a: i64, b: i64) -> (q: i64)
    requires
        b != 0,
        b != i64::MIN,
        !(a == i64::MIN && b == -1),
    ensures
        q == div_toward_zero(a as int, b as int),
{
    if b > 0 {
        a / b
    } else if b == -1 {
        assert(a as int / 1 == a);
        assert((-a) as int / 1 == -a);
        -a
    } else {
        // Division rounds toward zero, so a negative divisor only flips the sign.
        let c = -b;
        let q = a / c;
        proof {
            let m: int = if a >= 0 { a as int } else { -(a as int) };
            vstd::arithmetic::div_mod::lemma_div_is_ordered_by_denominator(m, 2, c as int);
        }
        -q
    }
}

/// Why a pressure could not be compensated.
#[derive(Clone, Copy, Debug, PartialEq, Eq, Structural)]
pub enum PressureError {
    /// The calibration makes the formula's divisor zero.
    ZeroDivisor,
}

proof fn lemma_i64_shifts(x: i64)
    ensures
        x >> 8u32 == x / 256,
        x >> 13u32 == x / 8192,
        x >> 19u32 == x / 524288,
        x >> 25u32 == x / 33554432,
        x >> 33u32 == x / 8589934592,
{
    assert(x >> 8u32 == x / 256 && x >> 13u32 == x / 8192 && x >> 19u32 == x / 524288 && x
        >> 25u32 == x / 33554432 && x >> 33u32 == x / 8589934592) by (bit_vector);
}

proof fn lemma_i64_shl(x: i64)
    ensures
        fits_i64(x * 16) ==> x << 4u32 == x * 16,
        fits_i64(x * 4096) ==> x << 12u32 == x * 4096,
        x << 17u32 == wrap_i64(x * 131072),
        fits_i64(x * 2147483648) ==> x << 31u32 == x * 2147483648,
        fits_i64(x * 34359738368) ==> x << 35u32 == x * 34359738368,
{
    assert((i64::MIN <= x * 16 <= i64::MAX ==> x << 4u32 == x * 16) && (i64::MIN <= x * 4096
        <= i64::MAX ==> x << 12u32 == x * 4096) && (i64::MIN <= x * 2147483648 <= i64::MAX ==> x << 31u32 == x
        * 2147483648) && (i64::MIN <= x * 34359738368 <= i64::MAX ==> x << 35u32 == x
        * 34359738368)) by (bit_vector);
    assert(x << 17u32 == (x * 131072 + 0x8000_0000_0000_0000) % 0x1_0000_0000_0000_0000
        - 0x8000_0000_0000_0000) by (bit_vector);
}

/// Pressure compensation with the datasheet's 64-bit integer formula.
/// Returns the pressure in pascal times 256 (Q24.8), or `ZeroDivisor` when the
/// calibration makes the formula divide by zero.
pub fn compensate_pressure(adc_p: i32, t_fine: i32, cal: &Calibration) -> (r: Result<
    i64,
    PressureError,
>)
    requires
        pressure_in_range(adc_p as int, t_fine as int, *cal),
    ensures
        r is Err <==> press_divisor(t_fine as int, *cal) == 0,
        r matches Err(e) ==> e == PressureError::ZeroDivisor,
        r matches Ok(p) ==> p == pressure_q24_8_of(adc_p as int, t_fine as int, *cal),
{
    let p1 = cal.dig_p1 as i64;
    let p2 = cal.dig_p2 as i64;
    let p3 = cal.dig_p3 as i64;
    let p4 = cal.dig_p4 as i64;
    let p5 = cal.dig_p5 as i64;
    let p6 = cal.dig_p6 as i64;
    let p7 = cal.dig_p7 as i64;
    let p8 = cal.dig_p8 as i64;
    let p9 = cal.dig_p9 as i64;
    let b: i64 = t_fine as i64 - 128_000;
    let bb = b * b;
    let bp5 = b * p5;
    proof {
        lemma_i64_shl(bp5);
        lemma_i64_shl(p4);
    }
    let var2_partial = bb * p6 + (bp5 << 17);
    let var2 = var2_partial + (p4 << 35);
    let bbp3 = bb * p3;
    let bp2 = b * p2;
    proof {
        lemma_i64_shifts(bbp3);
        lemma_i64_shl(bp2);
    }
    let var1_partial = (bbp3 >> 8) + (bp2 << 12);
    assert((1i64 << 47u32) == 140737488355328i64) by (bit_vector);
    let scaled = ((1i64 << 47) + var1_partial) * p1;
    proof {
        lemma_i64_shifts(scaled);
    }
    let divisor = scaled >> 33;
    if divisor == 0 {
        return Err(PressureError::ZeroDivisor);
    }
    let base: i64 = 1_048_576 - adc_p as i64;
    proof {
        lemma_i64_shl(base);
    }
    let numerator = ((base << 31) - var2) * 3_125;
    let p = div_i64(numerator, divisor);
    proof {
        lemma_i64_shifts(p);
    }
    let q = p >> 13;
    let adj1_full = p9 * q * q;
    proof {
        lemma_i64_shifts(adj1_full);
    }
    let adj1 = adj1_full >> 25;
    let adj2_full = p8 * p;
    proof {
        lemma_i64_shifts(adj2_full);
    }
    let adj2 = adj2_full >> 19;
    let sum = p + adj1 + adj2;
    proof {
        lemma_i64_shifts(sum);
        lemma_i64_shl(p7);
    }
    Ok((sum >> 8) + (p7 << 4))
}

/// Decides `pressure_in_range` at run time.
pub fn pressure_fits(adc_p: i32, t_fine: i32, cal: &Calibration) -> (b: bool)
    ensures
        b == pressure_in_range(adc_p as int, t_fine as int, *cal),
{
    let p1 = cal.dig_p1 as i64;
    let p2 = cal.dig_p2 as i64;
    let p3 = cal.dig_p3 as i64;
    let p4 = cal.dig_p4 as i64;
    let p5 = cal.dig_p5 as i64;
    let p6 = cal.dig_p6 as i64;
    let p7 = cal.dig_p7 as i64;
    let p8 = cal.dig_p8 as i64;
    let p9 = cal.dig_p9 as i64;
    let b: i64 = t_fine as i64 - 128_000;
    let bb = match b.checked_mul(b) {
        Some(v) => v,
        None => return false,
    };
    let bbp6 = match bb.checked_mul(p6) {
        Some(v) => v,
        None => return false,
    };
    let bp5 = match b.checked_mul(p5) {
        Some(v) => v,
        None => return false,
    };
    proof {
        lemma_i64_shl(bp5);
    }
    let bp5_shifted = bp5 << 17;
    let var2_partial = match bbp6.checked_add(bp5_shifted) {
        Some(v) => v,
        None => return false,
    };
    let var2 = match var2_partial.checked_add(p4 * 34359738368) {
        Some(v) => v,
        None => return false,
    };
    let bbp3 = match bb.checked_mul(p3) {
        Some(v) => v,
        None => return false,
    };
    let bp2 = match b.checked_mul(p2) {
        Some(v) => v,
        None => return false,
    };
    let bp2_shifted = match bp2.checked_mul(4096) {
        Some(v) => v,
        None => return false,
    };
    proof {
        lemma_i64_shifts(bbp3);
    }
    let var1_partial = match (bbp3 >> 8).checked_add(bp2_shifted) {
        Some(v) => v,
        None => return false,
    };
    let offset = match var1_partial.checked_add(140737488355328) {
        Some(v) => v,
        None => return false,
    };
    let scaled = match offset.checked_mul(p1) {
        Some(v) => v,
        None => return false,
    };
    proof {
        lemma_i64_shifts(scaled);
    }
    let divisor = scaled >> 33;
    if divisor == 0 {
        return true;
    }
    let base: i64 = 1_048_576 - adc_p as i64;
    let base_shifted = match base.checked_mul(2147483648) {
        Some(v) => v,
        None => return false,
    };
    let difference = match base_shifted.checked_sub(var2) {
        Some(v) => v,
        None => return false,
    };
    let numerator = match difference.checked_mul(3125) {
        Some(v) => v,
        None => return false,
    };
    if numerator == i64::MIN && divisor == -1 {
        return false;
    }
    let p = div_i64(numerator, divisor);
    proof {
        lemma_i64_shifts(p);
    }
    let q = p >> 13;
    let p9q = match p9.checked_mul(q) {
        Some(v) => v,
        None => return false,
    };
    let adj1_full = match p9q.checked_mul(q) {
        Some(v) => v,
        None => return false,
    };
    proof {
        lemma_i64_shifts(adj1_full);
    }
    let adj2_full = match p8.checked_mul(p) {
        Some(v) => v,
        None => return false,
    };
    proof {
        lemma_i64_shifts(adj2_full);
    }
    let partial_sum = match p.checked_add(adj1_full >> 25) {
        Some(v) => v,
        None => return false,
    };
    let sum = match partial_sum.checked_add(adj2_full >> 19) {
        Some(v) => v,
        None => return false,
    };
    proof {
        lemma_i64_shifts(sum);
    }
    (sum >> 8).checked_add(p7 * 16).is_some()
}

/// `wrap_i64` is reduction modulo 2^64 into the `i64` range.
pub proof fn lemma_wrap_i64(x: int)
    ensures
        fits_i64(wrap_i64(x)),
        (x - wrap_i64(x)) % 0x1_0000_0000_0000_0000 == 0,
        fits_i64(x) ==> wrap_i64(x) == x,
{
    let m = 0x1_0000_0000_0000_0000int;
    let h = 0x8000_0000_0000_0000int;
    vstd::arithmetic::div_mod::lemma_fundamental_div_mod(x + h, m);
    let q = (x + h) / m;
    assert(x - wrap_i64(x) == m * q);
    vstd::arithmetic::div_mod::lemma_mod_multiples_basic(q, m);
    assert(m * q == q * m) by (nonlinear_arith);
    if fits_i64(x) {
        vstd::arithmetic::div_mod::lemma_small_mod((x + h) as nat, m as nat);
    }
}

/// The absolute value of `x`.
pub open spec fn magnitude(x: int) -> int {
    if x >= 0 {
        x
    } else {
        -x
    }
}

/// The pressure is the datasheet's 64-bit formula with `var1 = t_fine - 128000`
/// taken as a signed value (negative below about 25 degC), every arithmetic
/// shift the floor it denotes, the `<< 17` wrapping, and the division rounding
/// toward zero:
/// `var2 = var1^2 dig_P6 + ((var1 dig_P5) << 17) + (dig_P4 << 35)`,
/// `x = (var1^2 dig_P3) >> 8`,
/// `divisor = ((2^47 + x + ((var1 dig_P2) << 12)) dig_P1) >> 33`,
/// `p = (((1048576 - adc_P) << 31) - var2) * 3125 / divisor`,
/// `a1 = (dig_P9 (p >> 13)^2) >> 25`, `a2 = (dig_P8 p) >> 19`,
/// `pressure = ((p + a1 + a2) >> 8) + (dig_P7 << 4)`.
/// The result lists `(x, p, p >> 13, a1, a2)`.
pub proof fn lemma_pressure_formula(adc_p: int, t_fine: int, cal: Calibration) -> (w: (
    int,
    int,
    int,
    int,
    int,
))
    ensures
        ({
            let b = t_fine - 128000;
            let var2 = b * b * cal.dig_p6 + wrap_i64(b * cal.dig_p5 * 131072) + cal.dig_p4
                * 34359738368;
            let d = press_divisor(t_fine, cal);
            let n = ((1048576 - adc_p) * 2147483648 - var2) * 3125;
            let p = pressure_q24_8_of(adc_p, t_fine, cal) - cal.dig_p7 * 16;
            &&& press_var2(t_fine, cal) == var2
            &&& 256 * w.0 <= b * b * cal.dig_p3 < 256 * w.0 + 256
            &&& 8589934592 * d <= (140737488355328 + w.0 + b * cal.dig_p2 * 4096) * cal.dig_p1
            &&& (140737488355328 + w.0 + b * cal.dig_p2 * 4096) * cal.dig_p1 < 8589934592 * d
                + 8589934592
            &&& d != 0 ==> {
                &&& 0 <= magnitude(n) - magnitude(w.1) * magnitude(d) < magnitude(d)
                &&& (w.1 == 0 || ((w.1 > 0) <==> ((n > 0) == (d > 0))))
                &&& 8192 * w.2 <= w.1 < 8192 * w.2 + 8192
                &&& 33554432 * w.3 <= cal.dig_p9 * w.2 * w.2 < 33554432 * w.3 + 33554432
                &&& 524288 * w.4 <= cal.dig_p8 * w.1 < 524288 * w.4 + 524288
                &&& 256 * p <= w.1 + w.3 + w.4 < 256 * p + 256
            }
        }),
{
    let b = t_fine - 128000;
    let x = (b * b * cal.dig_p3) / 256;
    let y = (140737488355328 + x + b * cal.dig_p2 * 4096) * cal.dig_p1;
    vstd::arithmetic::div_mod::lemma_fundamental_div_mod(b * b * cal.dig_p3, 256);
    vstd::arithmetic::div_mod::lemma_fundamental_div_mod(y, 8589934592);
    let d = press_divisor(t_fine, cal);
    let n = press_numerator(adc_p, t_fine, cal);
    let q = press_raw(adc_p, t_fine, cal);
    let s = q / 8192;
    let a1 = press_adj1(q, cal);
    let a2 = press_adj2(q, cal);
    if d != 0 {
        let mn = magnitude(n);
        let md = magnitude(d);
        vstd::arithmetic::div_mod::lemma_fundamental_div_mod(mn, md);
        vstd::arithmetic::div_mod::lemma_div_pos_is_pos(mn, md);
        assert(magnitude(q) == mn / md);
        assert(md * (mn / md) == (mn / md) * md) by (nonlinear_arith);
        vstd::arithmetic::div_mod::lemma_fundamental_div_mod(q, 8192);
        vstd::arithmetic::div_mod::lemma_fundamental_div_mod(cal.dig_p9 * s * s, 33554432);
        vstd::arithmetic::div_mod::lemma_fundamental_div_mod(cal.dig_p8 * q, 524288);
        vstd::arithmetic::div_mod::lemma_fundamental_div_mod(q + a1 + a2, 256);
        if q != 0 {
            assert(mn / md > 0);
            assert(mn > 0);
        }
    }
    (x, q, s, a1, a2)
}

} // verus!
