use ioc::bmp180::{check_chip_id, raw_pressure, raw_temperature, Bmp180CalibrationData, Bmp180DeviceConfig, PressurePrecision};
use ioc::error::IocBuildError;

fn datasheet() -> Bmp180CalibrationData {
    Bmp180CalibrationData {
        ac1: 408,
        ac2: -72,
        ac3: -14383,
        ac4: 32741,
        ac5: 32757,
        ac6: 23153,
        b1: 6190,
        b2: 4,
        _mb: -32768,
        mc: -8711,
        md: 2868,
    }
}

#[test]
fn datasheet_temperature_and_pressure() {
    let c = datasheet();
    assert!(c.temperature_defined(27898));
    let t = c.calc_temperature_c(27898);
    assert_eq!(t.tenths_c, 150);
    assert_eq!(t.b5, 2400);
    assert_eq!(c.calc_pressure_pa(t.b5, 0, 23843), Some(69965));
}

#[test]
fn calibration_bytes_are_big_endian() {
    let mut bytes = Vec::new();
    for v in [408i16, -72, -14383] {
        bytes.extend_from_slice(&v.to_be_bytes());
    }
    for v in [32741u16, 32757, 23153] {
        bytes.extend_from_slice(&v.to_be_bytes());
    }
    for v in [6190i16, 4, -32768, -8711, 2868] {
        bytes.extend_from_slice(&v.to_be_bytes());
    }
    let c = match Bmp180CalibrationData::from_bytes(&bytes) {
        Ok(c) => c,
        Err(e) => panic!("{}", e.describe()),
    };
    assert_eq!((c.ac1, c.ac2, c.ac3, c.ac4, c.ac5, c.ac6), (408, -72, -14383, 32741, 32757, 23153));
    assert_eq!((c.b1, c.b2, c._mb, c.mc, c.md), (6190, 4, -32768, -8711, 2868));
    match Bmp180CalibrationData::from_bytes(&bytes[..21]) {
        Err(IocBuildError::Message(m)) => assert_eq!(m, "Bmp180 Calibration expected 22 bytes of calibration data."),
        _ => panic!("expected an error"),
    }
}

#[test]
fn chip_id_and_raw_readings() {
    assert!(check_chip_id(0x55).is_ok());
    assert!(check_chip_id(0x54).is_err());
    assert_eq!(raw_temperature(0x6C, 0xFA), 27898);
    assert_eq!(raw_pressure(&[0x5D, 0x23], 0), 23843);
    assert_eq!(raw_pressure(&[0x5D, 0x23, 0x80], 3), (0x5D2380 >> 5) as i32);
}

#[test]
fn precision_modes() {
    let cfg = Bmp180DeviceConfig::default();
    assert!(cfg.pressure_precision == PressurePrecision::Standard);
    assert_eq!(cfg.period_ms, 1000);
    assert_eq!(PressurePrecision::UltraLowPower.mode().oss, 0);
    assert_eq!(PressurePrecision::UltraHighResolution.mode().oss, 3);
    assert_eq!(PressurePrecision::UltraHighResolution.mode().wait_micros, 25500);
}
