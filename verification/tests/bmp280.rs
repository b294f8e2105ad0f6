use embedded_rack::bmp280::calibration::{i16_from_le, u16_from_le, Calibration};
use embedded_rack::bmp280::compensation::{
    compensate_pressure, compensate_temperature, pressure_fits, temperature_fits, PressureError,
};
use embedded_rack::bmp280::driver::{Bmp280, Bmp280Error, Reply, Request, Step, BMP280_CHIP_ID};
use embedded_rack::bmp280::measurement::{adc_from_bytes, Measurement, MeasurementError};
use embedded_rack::bmp280::reader::{after_reading, reading_due};

const CAL_BYTES: [u8; 24] = [
    112, 107, 67, 103, 24, 252, 125, 142, 67, 214, 208, 11, 39, 11, 140, 0, 249, 255, 140, 60,
    248, 198, 112, 23,
];
const RAW: [u8; 6] = [101, 90, 192, 126, 237, 0];

fn datasheet_calibration() -> Calibration {
    Calibration {
        dig_t1: 27504,
        dig_t2: 26435,
        dig_t3: -1000,
        dig_p1: 36477,
        dig_p2: -10685,
        dig_p3: 3024,
        dig_p4: 2855,
        dig_p5: 140,
        dig_p6: -7,
        dig_p7: 15500,
        dig_p8: -14600,
        dig_p9: 6000,
    }
}

#[test]
fn little_endian_words() {
    assert_eq!(u16_from_le(0x70, 0x6b), 0x6b70);
    assert_eq!(i16_from_le(0x18, 0xfc), -1000);
    assert_eq!(i16_from_le(0xff, 0x7f), i16::MAX);
    assert_eq!(i16_from_le(0x00, 0x80), i16::MIN);
}

#[test]
fn calibration_block_decodes() {
    assert_eq!(Calibration::from_bytes(&CAL_BYTES), datasheet_calibration());
}

#[test]
fn adc_values_assemble_twenty_bits() {
    assert_eq!(adc_from_bytes(101, 90, 192), 415148);
    assert_eq!(adc_from_bytes(126, 237, 0), 519888);
    assert_eq!(adc_from_bytes(0xff, 0xff, 0xff), 0xfffff);
    assert_eq!(adc_from_bytes(0, 0, 0x0f), 0);
}

#[test]
fn datasheet_temperature() {
    let cal = datasheet_calibration();
    assert!(temperature_fits(519888, &cal));
    let t = compensate_temperature(519888, &cal);
    assert_eq!(t.t_fine, 128422);
    assert_eq!(t.centi_celsius, 2508);
}

#[test]
fn datasheet_pressure() {
    let cal = datasheet_calibration();
    assert!(pressure_fits(415148, 128422, &cal));
    assert_eq!(compensate_pressure(415148, 128422, &cal), Ok(25767233));
}

#[test]
fn zero_dig_p1_is_rejected() {
    let mut cal = datasheet_calibration();
    cal.dig_p1 = 0;
    assert!(pressure_fits(415148, 128422, &cal));
    assert_eq!(compensate_pressure(415148, 128422, &cal), Err(PressureError::ZeroDivisor));
}

#[test]
fn overflowing_temperature_is_detected() {
    let mut cal = datasheet_calibration();
    cal.dig_t2 = i16::MAX;
    cal.dig_t1 = 0;
    assert!(!temperature_fits(0x7fff_ffff, &cal));
}

#[test]
fn measurement_from_burst() {
    let cal = datasheet_calibration();
    assert_eq!(
        Measurement::from_raw(&RAW, &cal),
        Ok(Measurement { centi_celsius: 2508, t_fine: 128422, pressure_q24_8: 25767233 })
    );
    let mut broken = cal;
    broken.dig_p1 = 0;
    assert_eq!(Measurement::from_raw(&RAW, &broken), Err(MeasurementError::InvalidCalibration));
}

fn bring_up() -> Bmp280 {
    let (mut s, first) = Bmp280::new();
    assert_eq!(first, Request::Read { register: 0xD0, len: 1 });
    assert_eq!(
        s.advance(Reply::Data(vec![BMP280_CHIP_ID])),
        Step::Request(Request::Write { register: 0xE0, value: 0xB6 })
    );
    assert_eq!(s.advance(Reply::Done), Step::Request(Request::Sleep { ms: 10 }));
    assert_eq!(s.advance(Reply::Done), Step::Request(Request::Read { register: 0x88, len: 24 }));
    assert_eq!(
        s.advance(Reply::Data(CAL_BYTES.to_vec())),
        Step::Request(Request::Write { register: 0xF5, value: 0x94 })
    );
    assert_eq!(s.advance(Reply::Done), Step::Request(Request::Write { register: 0xF4, value: 0xB7 }));
    assert_eq!(s.advance(Reply::Done), Step::Request(Request::Read { register: 0xF3, len: 1 }));
    assert_eq!(s.advance(Reply::Data(vec![0x00])), Step::Initialized);
    assert!(s.is_ready());
    assert_eq!(s.calibration(), Some(datasheet_calibration()));
    s
}

#[test]
fn bring_up_sequence() {
    bring_up();
}

#[test]
fn wrong_chip_id_fails() {
    let (mut s, _) = Bmp280::new();
    assert_eq!(
        s.advance(Reply::Data(vec![0x60])),
        Step::Failed(Bmp280Error::UnexpectedChipId { id: 0x60 })
    );
    assert!(!s.is_ready());
    assert_eq!(s.advance(Reply::Done), Step::Failed(Bmp280Error::UnexpectedReply));
}

#[test]
fn bus_errors_name_the_register() {
    let (mut s, _) = Bmp280::new();
    assert_eq!(s.advance(Reply::BusError), Step::Failed(Bmp280Error::ReadFailed { register: 0xD0 }));
    let (mut s, _) = Bmp280::new();
    s.advance(Reply::Data(vec![BMP280_CHIP_ID]));
    assert_eq!(s.advance(Reply::BusError), Step::Failed(Bmp280Error::WriteFailed { register: 0xE0 }));
}

#[test]
fn read_after_busy_status() {
    let mut s = bring_up();
    assert_eq!(s.read(), Request::Read { register: 0xF3, len: 1 });
    assert_eq!(s.advance(Reply::Data(vec![0x08])), Step::Request(Request::Sleep { ms: 5 }));
    assert_eq!(s.advance(Reply::Done), Step::Request(Request::Read { register: 0xF3, len: 1 }));
    assert_eq!(s.advance(Reply::Data(vec![0x04])), Step::Request(Request::Read { register: 0xF7, len: 6 }));
    assert_eq!(
        s.advance(Reply::Data(RAW.to_vec())),
        Step::Measured(Measurement { centi_celsius: 2508, t_fine: 128422, pressure_q24_8: 25767233 })
    );
    assert!(s.is_ready());
}

#[test]
fn status_stays_busy_twenty_times() {
    let mut s = bring_up();
    s.read();
    for i in 0..20 {
        assert_eq!(s.advance(Reply::Data(vec![0x01])), Step::Request(Request::Sleep { ms: 5 }));
        let step = s.advance(Reply::Done);
        if i < 19 {
            assert_eq!(step, Step::Request(Request::Read { register: 0xF3, len: 1 }));
        } else {
            assert_eq!(step, Step::Failed(Bmp280Error::StayedBusy));
        }
    }
    // A failed read leaves the sensor ready for the next one.
    assert!(s.is_ready());
}

#[test]
fn bring_up_busy_status_fails_for_good() {
    let (mut s, _) = Bmp280::new();
    s.advance(Reply::Data(vec![BMP280_CHIP_ID]));
    s.advance(Reply::Done);
    s.advance(Reply::Done);
    s.advance(Reply::Data(CAL_BYTES.to_vec()));
    s.advance(Reply::Done);
    s.advance(Reply::Done);
    for _ in 0..19 {
        s.advance(Reply::Data(vec![0x09]));
        s.advance(Reply::Done);
    }
    s.advance(Reply::Data(vec![0x09]));
    assert_eq!(s.advance(Reply::Done), Step::Failed(Bmp280Error::StayedBusy));
    assert!(!s.is_ready());
    assert_eq!(s.calibration(), None);
}

#[test]
fn wrong_reply_changes_nothing() {
    let (mut s, _) = Bmp280::new();
    assert_eq!(s.advance(Reply::Data(vec![1, 2])), Step::Failed(Bmp280Error::UnexpectedReply));
    assert_eq!(
        s.advance(Reply::Data(vec![BMP280_CHIP_ID])),
        Step::Request(Request::Write { register: 0xE0, value: 0xB6 })
    );
}

#[test]
fn calibration_kept_during_read() {
    let mut s = bring_up();
    s.read();
    assert!(!s.is_ready());
    assert_eq!(s.calibration(), Some(datasheet_calibration()));
    assert_eq!(
        s.advance(Reply::BusError),
        Step::Failed(Bmp280Error::ReadFailed { register: 0xF3 })
    );
    assert!(s.is_ready());
    assert_eq!(s.calibration(), Some(datasheet_calibration()));
}

#[test]
fn read_loop_stops_at_limit() {
    assert_eq!(after_reading(0, Some(1)), (1, true));
    assert_eq!(after_reading(0, Some(3)), (1, false));
    assert_eq!(after_reading(2, Some(3)), (3, true));
    assert_eq!(after_reading(0, Some(0)), (1, true));
    assert_eq!(after_reading(5, None), (6, false));
    assert_eq!(after_reading(u32::MAX, None), (u32::MAX, false));
    for limit in 0..6u32 {
        let mut count = 0;
        let mut reads = 0;
        if reading_due(count, Some(limit)) {
            loop {
                reads += 1;
                let (next, stop) = after_reading(count, Some(limit));
                count = next;
                if stop {
                    break;
                }
            }
        }
        assert_eq!(reads, limit);
    }
}

#[test]
fn zero_limit_takes_no_reading() {
    assert!(!reading_due(0, Some(0)));
    assert!(reading_due(0, Some(1)));
    assert!(reading_due(0, None));
    assert!(reading_due(u32::MAX, None));
    assert!(!reading_due(3, Some(3)));
}

#[test]
fn wrapped_shift_is_not_an_overflow() {
    let cal = Calibration {
        dig_t1: 0,
        dig_t2: 0,
        dig_t3: 0,
        dig_p1: 0,
        dig_p2: 0,
        dig_p3: 0,
        dig_p4: 0,
        dig_p5: -32768,
        dig_p6: 0,
        dig_p7: 0,
        dig_p8: 0,
        dig_p9: 0,
    };
    assert!(pressure_fits(0, i32::MIN, &cal));
    assert_eq!(compensate_pressure(0, i32::MIN, &cal), Err(PressureError::ZeroDivisor));
}

#[test]
fn overflowing_pressure_is_detected() {
    let mut cal = datasheet_calibration();
    cal.dig_p6 = i16::MAX;
    assert!(!pressure_fits(415148, i32::MIN, &cal));
    assert!(pressure_fits(415148, 128422, &cal));
}

#[test]
fn out_of_range_burst_is_reported() {
    let mut cal = datasheet_calibration();
    cal.dig_t2 = i16::MAX;
    cal.dig_t1 = 0;
    // adc_T = 0xFFFFF: (adc_T >> 3) * 32767 overflows i32.
    assert_eq!(
        Measurement::from_raw(&[101, 90, 192, 0xff, 0xff, 0xf0], &cal),
        Err(MeasurementError::OutOfRange)
    );
}
