//! Bosch BMP180 temperature and pressure sensor: register map, calibration data,
//! and the datasheet's integer compensation arithmetic.
use vstd::prelude::*;
use vstd::string::*;
use crate::error::{ErrorView, IocBuildError, error_view};

verus! {

pub const I2C_ADDRESS: u8 = 0x77;
pub const ID_REGISTER: u8 = 0xD0;
pub const AC1_MSB_REGISTER: u8 = 0xAA;
pub const CONTROL_REGISTER: u8 = 0xF4;
pub const OUT_MSB_REGISTER: u8 = 0xF6;
pub const MEASURE_TEMPERATURE: u8 = 0x2E;
pub const MEASURE_PRESS_OSS_0: u8 = 0x34;
pub const MEASURE_PRESS_OSS_1: u8 = 0x74;
pub const MEASURE_PRESS_OSS_2: u8 = 0xB4;
pub const MEASURE_PRESS_OSS_3: u8 = 0xF4;
pub const ID_EXPECTED_VALUE: u8 = 0x55;
/// Conversion time of a temperature measurement, in microseconds.
pub const TEMP_WAIT_MICROS: u64 = 4500;
pub const PRESS_0_WAIT_MICROS: u64 = 4500;
pub const PRESS_1_WAIT_MICROS: u64 = 7500;
pub const PRESS_2_WAIT_MICROS: u64 = 13500;
pub const PRESS_3_WAIT_MICROS: u64 = 25500;

#[derive(Clone, Copy, Debug, PartialEq, Eq, Structural)]
pub enum PressurePrecision {
    UltraLowPower,
    Standard,
    HighResolution,
    UltraHighResolution,
}

/// How a pressure measurement is taken at a given precision.
#[derive(Clone, Copy, Debug)]
pub struct PressureMode {
    /// Oversampling setting, 0 to 3.
    pub oss: u8,
    /// Byte written to the control register to start the measurement.
    pub command: u8,
    /// Conversion time in microseconds.
    pub wait_micros: u64,
}

impl PressurePrecision {
    pub open spec fn spec_oss(self) -> u8 {
        match self {
            PressurePrecision::UltraLowPower => 0,
            PressurePrecision::Standard => 1,
            PressurePrecision::HighResolution => 2,
            PressurePrecision::UltraHighResolution => 3,
        }
    }

    /// Oversampling setting, start command and conversion time for this precision.
    pub fn mode(&self) -> (r: PressureMode)
        ensures
            r.oss == self.spec_oss(),
            r.oss == 0 ==> r.command == MEASURE_PRESS_OSS_0 && r.wait_micros == PRESS_0_WAIT_MICROS,
            r.oss == 1 ==> r.command == MEASURE_PRESS_OSS_1 && r.wait_micros == PRESS_1_WAIT_MICROS,
            r.oss == 2 ==> r.command == MEASURE_PRESS_OSS_2 && r.wait_micros == PRESS_2_WAIT_MICROS,
            r.oss == 3 ==> r.command == MEASURE_PRESS_OSS_3 && r.wait_micros == PRESS_3_WAIT_MICROS,
    {
        match self {
            PressurePrecision::UltraLowPower =>
                PressureMode { oss: 0, command: MEASURE_PRESS_OSS_0, wait_micros: PRESS_0_WAIT_MICROS },
            PressurePrecision::Standard =>
                PressureMode { oss: 1, command: MEASURE_PRESS_OSS_1, wait_micros: PRESS_1_WAIT_MICROS },
            PressurePrecision::HighResolution =>
                PressureMode { oss: 2, command: MEASURE_PRESS_OSS_2, wait_micros: PRESS_2_WAIT_MICROS },
            PressurePrecision::UltraHighResolution =>
                PressureMode { oss: 3, command: MEASURE_PRESS_OSS_3, wait_micros: PRESS_3_WAIT_MICROS },
        }
    }
}

#[derive(Clone, Copy, Debug)]
pub struct Bmp180DeviceConfig {
    pub pressure_precision: PressurePrecision,
    pub period_ms: u64,
}

impl Bmp180DeviceConfig {
    /// Standard precision, one reading per second.
    pub fn default() -> (r: Self)
        ensures
            r.pressure_precision == PressurePrecision::Standard,
            r.period_ms == 1000,
    {
        Self { pressure_precision: PressurePrecision::Standard, period_ms: 1000 }
    }
}

/// The factory calibration coefficients stored in the sensor's EEPROM.
#[derive(Clone, Copy, Debug)]
pub struct Bmp180CalibrationData {
    pub ac1: i16,
    pub ac2: i16,
    pub ac3: i16,
    pub ac4: u16,
    pub ac5: u16,
    pub ac6: u16,
    pub b1: i16,
    pub b2: i16,
    pub _mb: i16,
    pub mc: i16,
    pub md: i16,
}

/// Big-endian unsigned 16-bit value of two bytes.
pub open spec fn be_u16(hi: u8, lo: u8) -> int {
    hi * 256 + lo
}

/// Big-endian two's complement 16-bit value of two bytes.
pub open spec fn be_i16(hi: u8, lo: u8) -> int {
    if hi >= 128 { be_u16(hi, lo) - 65536 } else { be_u16(hi, lo) }
}

fn read_u16(hi: u8, lo: u8) -> (r: u16)
    ensures
        r == be_u16(hi, lo),
{
    (hi as u16) * 256 + (lo as u16)
}

fn read_i16(hi: u8, lo: u8) -> (r: i16)
    ensures
        r == be_i16(hi, lo),
{
    let v: u16 = read_u16(hi, lo);
    proof {
        assert(v >= 0x8000 ==> (v as i16) == v - 0x10000) by (bit_vector);
        assert(v < 0x8000 ==> (v as i16) == v) by (bit_vector);
    }
    v as i16
}

/// Truncating integer division, as Rust's `/` on signed integers.
pub open spec fn tdiv(a: int, d: int) -> int {
    if a >= 0 {
        if d > 0 { a / d } else { -(a / (-d)) }
    } else {
        if d > 0 { -((-a) / d) } else { (-a) / (-d) }
    }
}

pub open spec fn in_i64(x: int) -> bool {
    i64::MIN <= x <= i64::MAX
}

pub open spec fn in_u64(x: int) -> bool {
    0 <= x <= u64::MAX
}

/// `x as u64` for an `i64` value `x`.
pub open spec fn wrap_u64(x: int) -> int {
    if x < 0 { x + 0x1_0000_0000_0000_0000 } else { x }
}

/// `x as i64` for a `u64` value `x`.
pub open spec fn wrap_i64(x: int) -> int {
    if x > i64::MAX { x - 0x1_0000_0000_0000_0000 } else { x }
}

/// `2^(8 - oss)`: the divisor that the right shift of the raw pressure performs.
pub open spec fn pressure_shift_divisor(oss: u8) -> int {
    if oss == 0 { 256 } else if oss == 1 { 128 } else if oss == 2 { 64 } else { 32 }
}

pub open spec fn pow2_small(n: int) -> int {
    if n == 0 { 1 } else if n == 1 { 2 } else if n == 2 { 4 } else { 8 }
}

/// `B5`, the intermediate value that temperature and pressure compensation share.
pub open spec fn temp_b5(c: Bmp180CalibrationData, ut: int) -> int {
    let x1 = tdiv((ut - c.ac6) * c.ac5, 32768);
    let x2 = tdiv(c.mc * 2048, x1 + c.md);
    x1 + x2
}

/// The divisor in the temperature formula: `X1 + MD`.
pub open spec fn temp_divisor(c: Bmp180CalibrationData, ut: int) -> int {
    tdiv((ut - c.ac6) * c.ac5, 32768) + c.md
}

/// Temperature in tenths of a degree Celsius.
pub open spec fn temp_tenths(c: Bmp180CalibrationData, ut: int) -> int {
    tdiv(temp_b5(c, ut) + 8, 16)
}

/// `B3` of the pressure formula from `B6`, or `None` where a step overflows.
pub open spec fn pressure_b3(c: Bmp180CalibrationData, b6: int, oss: int) -> Option<int> {
    let t1 = c.b2 * b6;
    let t2 = t1 * b6;
    let x1 = tdiv(tdiv(t2, 4096), 2048);
    let t3 = c.ac2 * b6;
    let x2 = tdiv(t3, 2048);
    let x3 = x1 + x2;
    let t4 = c.ac1 * 4 + x3;
    let t5 = t4 * pow2_small(oss);
    if in_i64(t1) && in_i64(t2) && in_i64(t3) && in_i64(x3) && in_i64(t4) && in_i64(t5)
        && in_i64(t5 + 2) {
        Some(tdiv(t5 + 2, 4))
    } else {
        None
    }
}

/// `B4` of the pressure formula from `B6`, or `None` where a step overflows.
pub open spec fn pressure_b4(c: Bmp180CalibrationData, b6: int) -> Option<int> {
    let t6 = c.ac3 * b6;
    let y1 = tdiv(t6, 8192);
    let t7 = c.b1 * b6;
    let t8 = t7 * b6;
    let y2 = tdiv(tdiv(t8, 4096), 65536);
    let y3 = tdiv(y1 + y2 + 2, 4);
    let b4n = c.ac4 * wrap_u64(y3 + 32768);
    if in_i64(t6) && in_i64(t7) && in_i64(t8) && in_i64(y1 + y2) && in_i64(y1 + y2 + 2)
        && in_i64(y3 + 32768) && in_u64(b4n) {
        Some(b4n / 32768)
    } else {
        None
    }
}

/// The uncorrected pressure `p` from `B3`, `B4` and the raw reading, or `None`
/// where a step overflows or `B4` is zero.
pub open spec fn pressure_uncorrected(b3: int, b4: int, oss: int, up: int) -> Option<int> {
    let t9 = up - b3;
    let b7 = wrap_u64(t9) * (50000int / pow2_small(oss));
    let pu = if b7 < 0x8000_0000 { (b7 * 2) / b4 } else { (b7 / b4) * 2 };
    if in_i64(t9) && in_u64(b7) && b4 != 0 && in_u64(pu) {
        Some(wrap_i64(pu))
    } else {
        None
    }
}

/// The final correction step of the pressure formula, or `None` where a step overflows.
pub open spec fn pressure_corrected(p: int) -> Option<int> {
    let z = tdiv(p, 256);
    let zz = z * z;
    let zzc = zz * 3038;
    let w1 = tdiv(zzc, 65536);
    let w2n = -7357 * p;
    let w2 = tdiv(w2n, 65536);
    let s = w1 + w2 + 3791;
    let pf = p + tdiv(s, 16);
    if in_i64(zz) && in_i64(zzc) && in_i64(w2n) && in_i64(w1 + w2) && in_i64(s) && in_i64(pf) {
        Some(pf)
    } else {
        None
    }
}

/// The compensated pressure in pascal, or `None` where a step of the datasheet
/// arithmetic leaves the 64-bit integers or divides by zero.
pub open spec fn pressure_pa(c: Bmp180CalibrationData, b5: int, oss: int, up: int) -> Option<int> {
    let b6 = b5 - 4000;
    if !in_i64(b6) {
        None
    } else {
        match (pressure_b3(c, b6, oss), pressure_b4(c, b6)) {
            (Some(b3), Some(b4)) => match pressure_uncorrected(b3, b4, oss, up) {
                Some(p) => pressure_corrected(p),
                None => None,
            },
            _ => None,
        }
    }
}

/// A temperature reading: tenths of a degree Celsius and the shared `B5` term.
#[derive(Clone, Copy, Debug)]
pub struct TempReading {
    pub tenths_c: i64,
    pub b5: i64,
}

fn div_trunc(a: i64, d: i64) -> (r: i64)
    requires
        d > 0 || (d < 0 && d > i64::MIN && a > i64::MIN),
    ensures
        r == tdiv(a as int, d as int),
{
    if d > 0 {
        a / d
    } else {
        let q = a / (-d);
        -q
    }
}

fn cast_u64(x: i64) -> (r: u64)
    ensures
        r == wrap_u64(x as int),
{
    proof {
        assert(x < 0 ==> (x as u64) == x + 0x1_0000_0000_0000_0000) by (bit_vector);
        assert(x >= 0 ==> (x as u64) == x) by (bit_vector);
    }
    x as u64
}

fn cast_i64(x: u64) -> (r: i64)
    ensures
        r == wrap_i64(x as int),
{
    proof {
        assert(x > 0x7FFF_FFFF_FFFF_FFFF ==> (x as i64) == x - 0x1_0000_0000_0000_0000) by (bit_vector);
        assert(x <= 0x7FFF_FFFF_FFFF_FFFF ==> (x as i64) == x) by (bit_vector);
    }
    x as i64
}

proof fn lemma_temp_product_bound(ut: int, ac6: int, ac5: int)
    requires
        i32::MIN <= ut <= i32::MAX,
        0 <= ac6 <= 65535,
        0 <= ac5 <= 65535,
    ensures
        -0x1_0000_0000_0000 < (ut - ac6) * ac5 < 0x1_0000_0000_0000,
{
    assert(-0x1_0000_0000_0000 < (ut - ac6) * ac5 < 0x1_0000_0000_0000) by (nonlinear_arith)
        requires
            i32::MIN <= ut <= i32::MAX,
            0 <= ac6 <= 65535,
            0 <= ac5 <= 65535;
}

/// A truncated quotient is no larger in size than its dividend.
proof fn lemma_tdiv_bound(a: int, d: int)
    requires
        d != 0,
    ensures
        -(if a < 0 { -a } else { a }) <= tdiv(a, d) <= (if a < 0 { -a } else { a }),
{
    if a >= 0 {
        if d > 0 {
            assert(a / d <= a) by (nonlinear_arith) requires a >= 0, d > 0;
            assert(a / d >= 0) by (nonlinear_arith) requires a >= 0, d > 0;
        } else {
            assert(a / (-d) <= a) by (nonlinear_arith) requires a >= 0, -d > 0;
            assert(a / (-d) >= 0) by (nonlinear_arith) requires a >= 0, -d > 0;
        }
    } else {
        if d > 0 {
            assert((-a) / d <= -a) by (nonlinear_arith) requires -a > 0, d > 0;
            assert((-a) / d >= 0) by (nonlinear_arith) requires -a > 0, d > 0;
        } else {
            assert((-a) / (-d) <= -a) by (nonlinear_arith) requires -a > 0, -d > 0;
            assert((-a) / (-d) >= 0) by (nonlinear_arith) requires -a > 0, -d > 0;
        }
    }
}

impl Bmp180CalibrationData {
    /// Reads the 22 calibration bytes (AC1 first, each value big-endian).
    pub fn from_bytes(bytes: &[u8]) -> (r: Result<Self, IocBuildError>)
        ensures
            bytes.len() != 22 <==> r is Err,
            r matches Err(e) ==> error_view(e) == ErrorView::Message(
                "Bmp180 Calibration expected 22 bytes of calibration data."@),
            r matches Ok(c) ==> {
                &&& c.ac1 == be_i16(bytes@[0], bytes@[1])
                &&& c.ac2 == be_i16(bytes@[2], bytes@[3])
                &&& c.ac3 == be_i16(bytes@[4], bytes@[5])
                &&& c.ac4 == be_u16(bytes@[6], bytes@[7])
                &&& c.ac5 == be_u16(bytes@[8], bytes@[9])
                &&& c.ac6 == be_u16(bytes@[10], bytes@[11])
                &&& c.b1 == be_i16(bytes@[12], bytes@[13])
                &&& c.b2 == be_i16(bytes@[14], bytes@[15])
                &&& c._mb == be_i16(bytes@[16], bytes@[17])
                &&& c.mc == be_i16(bytes@[18], bytes@[19])
                &&& c.md == be_i16(bytes@[20], bytes@[21])
            },
    {
        if bytes.len() != 22 {
            Err(IocBuildError::message("Bmp180 Calibration expected 22 bytes of calibration data."))
        } else {
            Ok(Bmp180CalibrationData {
                ac1: read_i16(bytes[0], bytes[1]),
                ac2: read_i16(bytes[2], bytes[3]),
                ac3: read_i16(bytes[4], bytes[5]),
                ac4: read_u16(bytes[6], bytes[7]),
                ac5: read_u16(bytes[8], bytes[9]),
                ac6: read_u16(bytes[10], bytes[11]),
                b1: read_i16(bytes[12], bytes[13]),
                b2: read_i16(bytes[14], bytes[15]),
                _mb: read_i16(bytes[16], bytes[17]),
                mc: read_i16(bytes[18], bytes[19]),
                md: read_i16(bytes[20], bytes[21]),
            })
        }
    }

    /// Whether the temperature formula can be evaluated for raw value `ut`
    /// (its divisor `X1 + MD` is not zero).
    pub fn temperature_defined(&self, ut: i32) -> (r: bool)
        ensures
            r == (temp_divisor(*self, ut as int) != 0),
    {
        let ut = ut as i64;
        proof {
            lemma_temp_product_bound(ut as int, self.ac6 as int, self.ac5 as int);
        }
        let x1 = div_trunc((ut - (self.ac6 as i64)) * (self.ac5 as i64), 32768);
        x1 + (self.md as i64) != 0
    }

    /// Compensated temperature for raw reading `ut`, in tenths of a degree.
    pub fn calc_temperature_c(&self, ut: i32) -> (r: TempReading)
        requires
            temp_divisor(*self, ut as int) != 0,
        ensures
            r.b5 == temp_b5(*self, ut as int),
            r.tenths_c == temp_tenths(*self, ut as int),
    {
        let ut = ut as i64;
        proof {
            lemma_temp_product_bound(ut as int, self.ac6 as int, self.ac5 as int);
        }
        let d = (ut - (self.ac6 as i64)) * (self.ac5 as i64);
        let x1 = div_trunc(d, 32768);
        let x2 = div_trunc((self.mc as i64) * 2048, x1 + (self.md as i64));
        proof {
            lemma_tdiv_bound(self.mc * 2048, x1 + self.md);
        }
        let b5 = x1 + x2;
        let t_tenths = div_trunc(b5 + 8, 16);
        TempReading { tenths_c: t_tenths, b5 }
    }

    fn b3(&self, b6: i64, oss: u8) -> (r: Option<i64>)
        requires
            oss <= 3,
        ensures
            r matches Some(v) ==> pressure_b3(*self, b6 as int, oss as int) == Some(v as int),
            r is None ==> pressure_b3(*self, b6 as int, oss as int) is None,
    {
        let t1 = (self.b2 as i64).checked_mul(b6)?;
        let t2 = t1.checked_mul(b6)?;
        let x1 = div_trunc(div_trunc(t2, 4096), 2048);
        let t3 = (self.ac2 as i64).checked_mul(b6)?;
        let x2 = div_trunc(t3, 2048);
        let x3 = x1.checked_add(x2)?;
        let t4 = ((self.ac1 as i64) * 4).checked_add(x3)?;
        let scale: i64 = if oss == 0 { 1 } else if oss == 1 { 2 } else if oss == 2 { 4 } else { 8 };
        let t5 = t4.checked_mul(scale)?;
        let t5p = t5.checked_add(2)?;
        Some(div_trunc(t5p, 4))
    }

    fn b4(&self, b6: i64) -> (r: Option<u64>)
        ensures
            r matches Some(v) ==> pressure_b4(*self, b6 as int) == Some(v as int),
            r is None ==> pressure_b4(*self, b6 as int) is None,
    {
        let t6 = (self.ac3 as i64).checked_mul(b6)?;
        let y1 = div_trunc(t6, 8192);
        let t7 = (self.b1 as i64).checked_mul(b6)?;
        let t8 = t7.checked_mul(b6)?;
        let y2 = div_trunc(div_trunc(t8, 4096), 65536);
        let y12 = y1.checked_add(y2)?;
        let y12p = y12.checked_add(2)?;
        let y3 = div_trunc(y12p, 4);
        let y3s = y3.checked_add(32768)?;
        let b4n = (self.ac4 as u64).checked_mul(cast_u64(y3s))?;
        Some(b4n / 32768)
    }

    /// Compensated pressure in pascal for raw reading `up` at oversampling
    /// setting `oss`; `None` where the arithmetic leaves the 64-bit integers
    /// or divides by zero.
    pub fn calc_pressure_pa(&self, b5: i64, oss: u8, up: i32) -> (r: Option<i64>)
        requires
            oss <= 3,
        ensures
            r matches Some(p) ==> pressure_pa(*self, b5 as int, oss as int, up as int) == Some(p as int),
            r is None ==> pressure_pa(*self, b5 as int, oss as int, up as int) is None,
    {
        let b6 = b5.checked_sub(4000)?;
        let b3 = self.b3(b6, oss)?;
        let b4 = self.b4(b6)?;
        let p = uncorrected(b3, b4, oss, up as i64)?;
        corrected(p)
    }
}

fn uncorrected(b3: i64, b4: u64, oss: u8, up: i64) -> (r: Option<i64>)
    requires
        oss <= 3,
    ensures
        r matches Some(v) ==> pressure_uncorrected(b3 as int, b4 as int, oss as int, up as int) == Some(v as int),
        r is None ==> pressure_uncorrected(b3 as int, b4 as int, oss as int, up as int) is None,
{
    let t9 = up.checked_sub(b3)?;
    let factor: u64 = if oss == 0 { 50000 } else if oss == 1 { 25000 } else if oss == 2 { 12500 } else { 6250 };
    let b7 = cast_u64(t9).checked_mul(factor)?;
    if b4 == 0 {
        return None;
    }
    let pu: u64 = if b7 < 0x8000_0000 {
        (b7 * 2) / b4
    } else {
        (b7 / b4).checked_mul(2)?
    };
    Some(cast_i64(pu))
}

fn corrected(p: i64) -> (r: Option<i64>)
    ensures
        r matches Some(v) ==> pressure_corrected(p as int) == Some(v as int),
        r is None ==> pressure_corrected(p as int) is None,
{
    let z = div_trunc(p, 256);
    let zz = z.checked_mul(z)?;
    let zzc = zz.checked_mul(3038)?;
    let w1 = div_trunc(zzc, 65536);
    let w2n = (-7357i64).checked_mul(p)?;
    let w2 = div_trunc(w2n, 65536);
    let w12 = w1.checked_add(w2)?;
    let s = w12.checked_add(3791)?;
    let pf = p.checked_add(div_trunc(s, 16))?;
    Some(pf)
}

/// Checks the value read from the ID register.
pub fn check_chip_id(id: u8) -> (r: Result<(), IocBuildError>)
    ensures
        r is Ok <==> id == ID_EXPECTED_VALUE,
        r matches Err(e) ==> error_view(e) == ErrorView::Message(
            "Expected to get 85 when reading id register from BMP180 pressure sensor, but got a different value. There may be a different device connected."@),
{
    if id != ID_EXPECTED_VALUE {
        Err(IocBuildError::message(
            "Expected to get 85 when reading id register from BMP180 pressure sensor, but got a different value. There may be a different device connected.",
        ))
    } else {
        Ok(())
    }
}

/// The raw temperature value of the two output bytes.
pub fn raw_temperature(msb: u8, lsb: u8) -> (r: i32)
    ensures
        r == be_u16(msb, lsb),
{
    (msb as i32) * 256 + (lsb as i32)
}

/// Number of output bytes read for a pressure measurement at oversampling `oss`.
pub open spec fn pressure_bytes(oss: u8) -> int {
    if oss == 3 { 3 } else { 2 }
}

/// The raw pressure value of the output bytes at oversampling `oss`: the
/// 24-bit big-endian value (least byte 0 unless `oss` is 3) shifted right by `8 - oss`.
pub fn raw_pressure(buffer: &[u8], oss: u8) -> (r: i32)
    requires
        oss <= 3,
        buffer.len() >= pressure_bytes(oss),
    ensures
        r == (buffer@[0] * 65536 + buffer@[1] * 256 + (if oss == 3 { buffer@[2] as int } else { 0 }))
            / pressure_shift_divisor(oss),
{
    let xlsb: i32 = if oss == 3 { buffer[2] as i32 } else { 0 };
    let v: i32 = (buffer[0] as i32) * 65536 + (buffer[1] as i32) * 256 + xlsb;
    let d: i32 = if oss == 0 { 256 } else if oss == 1 { 128 } else if oss == 2 { 64 } else { 32 };
    v / d
}

/// `B7` for a reading `d` steps of `2^oss` above `B3` is `d * 50000`.
proof fn lemma_b7_scaled(d: int, oss: int)
    requires
        0 <= oss <= 3,
        0 <= d <= 0x1_0000_0000,
    ensures
        0 <= d * pow2_small(oss) <= 8 * 0x1_0000_0000,
        wrap_u64(d * pow2_small(oss)) == d * pow2_small(oss),
        wrap_u64(d * pow2_small(oss)) * (50000int / pow2_small(oss)) == d * 50000,
{
    let p = pow2_small(oss);
    if oss == 0 {
        assert(p == 1);
        assert(d * p == d) by (nonlinear_arith) requires p == 1;
    } else if oss == 1 {
        assert(p == 2);
        assert(50000int / p == 25000);
        assert((d * p) * 25000 == d * 50000) by (nonlinear_arith) requires p == 2;
        assert(d * p <= 8 * 0x1_0000_0000) by (nonlinear_arith) requires p == 2, d <= 0x1_0000_0000;
    } else if oss == 2 {
        assert(p == 4);
        assert(50000int / p == 12500);
        assert((d * p) * 12500 == d * 50000) by (nonlinear_arith) requires p == 4;
        assert(d * p <= 8 * 0x1_0000_0000) by (nonlinear_arith) requires p == 4, d <= 0x1_0000_0000;
    } else {
        assert(p == 8);
        assert(50000int / p == 6250);
        assert((d * p) * 6250 == d * 50000) by (nonlinear_arith) requires p == 8;
        assert(d * p <= 8 * 0x1_0000_0000) by (nonlinear_arith) requires p == 8, d <= 0x1_0000_0000;
    }
    assert(d * p >= 0) by (nonlinear_arith) requires d >= 0, p >= 1;
}

/// The oversampling setting does not change what a reading means: at
/// oversampling `oss` the sensor counts `2^oss` times as many steps per
/// pascal, so a raw reading `d` steps of `2^oss` above the offset `B3` gives
/// the same pressure at every setting (B7 = (UP - B3) * (50000 >> oss)).
pub proof fn law_pressure_same_at_every_oversampling(
    c: Bmp180CalibrationData,
    b5: int,
    oss1: int,
    oss2: int,
    d: int,
)
    requires
        0 <= oss1 <= 3,
        0 <= oss2 <= 3,
        0 <= d <= 0x1_0000_0000,
        in_i64(b5 - 4000),
        pressure_b3(c, b5 - 4000, oss1) is Some,
        pressure_b3(c, b5 - 4000, oss2) is Some,
    ensures
        pressure_pa(c, b5, oss1, pressure_b3(c, b5 - 4000, oss1)->Some_0 + d * pow2_small(oss1))
            == pressure_pa(c, b5, oss2, pressure_b3(c, b5 - 4000, oss2)->Some_0 + d * pow2_small(oss2)),
{
    let b6 = b5 - 4000;
    let b31 = pressure_b3(c, b6, oss1)->Some_0;
    let b32 = pressure_b3(c, b6, oss2)->Some_0;
    let up1 = b31 + d * pow2_small(oss1);
    let up2 = b32 + d * pow2_small(oss2);
    assert(up1 - b31 == d * pow2_small(oss1));
    assert(up2 - b32 == d * pow2_small(oss2));
    lemma_b7_scaled(d, oss1);
    lemma_b7_scaled(d, oss2);
    if let Some(b4) = pressure_b4(c, b6) {
        assert(pressure_uncorrected(b31, b4, oss1, up1) == pressure_uncorrected(b32, b4, oss2, up2));
    }
}

} // verus!
