use vstd::prelude::*;

use crate::bmp280::calibration::Calibration;
use crate::bmp280::compensation::{
    centi_celsius_of, compensate_pressure, compensate_temperature, press_divisor,
    pressure_fits, pressure_in_range, pressure_q24_8_of, t_fine_of, temperature_fits,
    temperature_in_range, PressureError,
};

verus! {

/// Length of the measurement burst read from 0xF7 (pressure then temperature,
/// each as msb, lsb, xlsb).
pub const MEASUREMENT_LEN: usize = 6;

/// A 20-bit ADC value from its msb, lsb and the top nibble of xlsb:
/// `(msb << 12) | (lsb << 4) | (xlsb >> 4)`.
pub open spec fn adc20(msb: u8, lsb: u8, xlsb: u8) -> int {
    msb * 4096 + lsb * 16 + xlsb / 16
}

/// Assembles a 20-bit ADC value.
pub fn adc_from_bytes(msb: u8, lsb: u8, xlsb: u8) -> (v: i32)
    ensures
        v == adc20(msb, lsb, xlsb),
        0 <= v < 1048576,
{
    let m = msb as i32;
    let l = lsb as i32;
    let x = xlsb as i32;
    assert(((m << 12u32) | (l << 4u32) | (x >> 4u32)) == m * 4096 + l * 16 + x / 16) by (bit_vector)
        requires
            0 <= m < 256,
            0 <= l < 256,
            0 <= x < 256,
    ;
    (m << 12) | (l << 4) | (x >> 4)
}

/// One compensated reading.
#[derive(Clone, Copy, Debug, PartialEq, Eq, Structural)]
pub struct Measurement {
    /// Temperature in hundredths of a degree Celsius.
    pub centi_celsius: i32,
    /// Fine temperature used by the pressure formula.
    pub t_fine: i32,
    /// Pressure in pascal times 256 (Q24.8).
    pub pressure_q24_8: i64,
}

/// Why a measurement burst could not be turned into a reading.
#[derive(Clone, Copy, Debug, PartialEq, Eq, Structural)]
pub enum MeasurementError {
    /// The calibration makes the pressure formula divide by zero.
    InvalidCalibration,
    /// An intermediate value of the integer formulas would overflow.
    OutOfRange,
}

/// Raw pressure ADC value of a measurement burst.
pub open spec fn adc_p_of(raw: Seq<u8>) -> int {
    adc20(raw[0], raw[1], raw[2])
}

/// Raw temperature ADC value of a measurement burst.
pub open spec fn adc_t_of(raw: Seq<u8>) -> int {
    adc20(raw[3], raw[4], raw[5])
}

/// What a measurement burst compensates to under `cal`.
pub open spec fn measurement_of(raw: Seq<u8>, cal: Calibration) -> Result<
    Measurement,
    MeasurementError,
> {
    let adc_t = adc_t_of(raw);
    let adc_p = adc_p_of(raw);
    let t_fine = t_fine_of(adc_t, cal);
    if !temperature_in_range(adc_t, cal) || !pressure_in_range(adc_p, t_fine, cal) {
        Err(MeasurementError::OutOfRange)
    } else if press_divisor(t_fine, cal) == 0 {
        Err(MeasurementError::InvalidCalibration)
    } else {
        Ok(
            Measurement {
                centi_celsius: centi_celsius_of(t_fine) as i32,
                t_fine: t_fine as i32,
                pressure_q24_8: pressure_q24_8_of(adc_p, t_fine, cal) as i64,
            },
        )
    }
}

impl Measurement {
    /// Decodes the six bytes read from 0xF7 and compensates them.
    pub fn from_raw(raw: &[u8], cal: &Calibration) -> (r: Result<Measurement, MeasurementError>)
        requires
            raw@.len() == MEASUREMENT_LEN,
        ensures
            r == measurement_of(raw@, *cal),
    {
        let adc_p = adc_from_bytes(raw[0], raw[1], raw[2]);
        let adc_t = adc_from_bytes(raw[3], raw[4], raw[5]);
        if !temperature_fits(adc_t, cal) {
            return Err(MeasurementError::OutOfRange);
        }
        let t = compensate_temperature(adc_t, cal);
        if !pressure_fits(adc_p, t.t_fine, cal) {
            return Err(MeasurementError::OutOfRange);
        }
        match compensate_pressure(adc_p, t.t_fine, cal) {
            Ok(p) => Ok(
                Measurement { centi_celsius: t.centi_celsius, t_fine: t.t_fine, pressure_q24_8: p },
            ),
            Err(PressureError::ZeroDivisor) => Err(MeasurementError::InvalidCalibration),
        }
    }
}

} // verus!
