//! The MPU-6050: how it is woken up, and what its readings stand for.

use vstd::prelude::*;

use crate::imu_trait::{AccelData, GyroData};
use crate::numbers::divide_down;

verus! {

/// A reading of three axes, as the device gives it.
#[derive(Clone, Copy, Debug, PartialEq, Eq, Structural)]
pub struct RawAxes {
    /// First axis.
    pub x: i16,
    /// Second axis.
    pub y: i16,
    /// Third axis.
    pub z: i16,
}

/// The identity that the device reports.
pub const EXPECTED_WHO_AM_I: u8 = 0x68;

/// Whether a device is the one that is expected.
pub fn verify_device(who_am_i: u8) -> (expected: bool)
    ensures
        expected == (who_am_i == EXPECTED_WHO_AM_I),
{
    who_am_i == EXPECTED_WHO_AM_I
}

/// What is done to a device to wake it up.
#[derive(Clone, Copy, Debug, PartialEq, Eq, Structural)]
pub enum WakeStep {
    /// Write a value to a register.
    Write(u8, u8),
    /// Sleep for so many milliseconds.
    Sleep(u64),
}

/// The steps that wake a device up: a reset; its clock taken from the first gyroscope; fifty
/// samples a second; a smooth filter; and the finest scale of the gyroscopes.
pub open spec fn wake_sequence() -> Seq<WakeStep> {
    seq![
        WakeStep::Write(0x6b, 0x80),
        WakeStep::Sleep(100),
        WakeStep::Write(0x6b, 0x01),
        WakeStep::Sleep(10),
        WakeStep::Write(0x19, 19),
        WakeStep::Write(0x1a, 6),
        WakeStep::Write(0x1b, 0),
    ]
}

/// Lists the steps that wake a device up.
pub fn wake_steps() -> (steps: Vec<WakeStep>)
    ensures
        steps@ == wake_sequence(),
{
    let mut steps: Vec<WakeStep> = Vec::new();
    steps.push(WakeStep::Write(0x6b, 0x80));
    steps.push(WakeStep::Sleep(100));
    steps.push(WakeStep::Write(0x6b, 0x01));
    steps.push(WakeStep::Sleep(10));
    steps.push(WakeStep::Write(0x19, 19));
    steps.push(WakeStep::Write(0x1a, 6));
    steps.push(WakeStep::Write(0x1b, 0));
    assert(steps@ =~= wake_sequence());
    steps
}

/// The number that two bytes stand for, the high one first, in two's complement.
pub open spec fn signed_word(high: u8, low: u8) -> int {
    let word = high as int * 256 + low as int;
    if word < 0x8000 {
        word
    } else {
        word - 0x1_0000
    }
}

/// Puts two bytes together.
fn join_bytes(high: u8, low: u8) -> (word: i16)
    ensures
        word == signed_word(high, low),
{
    let word: i32 = high as i32 * 256 + low as i32;
    if word < 0x8000 {
        word as i16
    } else {
        (word - 0x1_0000) as i16
    }
}

/// Reads the three axes out of six bytes.
pub fn parse_xyz(buffer: &[u8; 6]) -> (axes: RawAxes)
    ensures
        axes.x == signed_word(buffer@[0], buffer@[1]),
        axes.y == signed_word(buffer@[2], buffer@[3]),
        axes.z == signed_word(buffer@[4], buffer@[5]),
{
    RawAxes {
        x: join_bytes(buffer[0], buffer[1]),
        y: join_bytes(buffer[2], buffer[3]),
        z: join_bytes(buffer[4], buffer[5]),
    }
}

/// An acceleration, from a reading in units of a 16384th of gravity.
pub open spec fn acceleration_of(raw: int) -> int {
    (raw * 9_810_000 * 2 + 16_384) / 32_768
}

/// A rate of turning, from a reading in units of a 131st of a degree per second.
pub open spec fn rate_of(raw: int) -> int {
    (raw * 3_600_000_000 * 2 + 131) / 262
}

/// Scales one axis of an acceleration.
fn scale_acceleration(raw: i16) -> (scaled: i64)
    ensures
        scaled == acceleration_of(raw as int),
{
    divide_down(raw as i128 * 9_810_000 * 2 + 16_384, 32_768) as i64
}

/// Scales one axis of a rate of turning.
fn scale_rate(raw: i16) -> (scaled: i64)
    ensures
        scaled == rate_of(raw as int),
{
    divide_down(raw as i128 * 3_600_000_000 * 2 + 131, 262) as i64
}

/// The acceleration that a reading stands for.
pub fn get_acceleration(raw: RawAxes) -> (accel: AccelData)
    ensures
        accel == (AccelData {
            x: acceleration_of(raw.x as int) as i64,
            y: acceleration_of(raw.y as int) as i64,
            z: acceleration_of(raw.z as int) as i64,
        }),
{
    AccelData {
        x: scale_acceleration(raw.x),
        y: scale_acceleration(raw.y),
        z: scale_acceleration(raw.z),
    }
}

/// The angular velocity that a reading stands for.
pub fn get_angular_velocity(raw: RawAxes) -> (gyro: GyroData)
    ensures
        gyro == (GyroData {
            x: rate_of(raw.x as int) as i64,
            y: rate_of(raw.y as int) as i64,
            z: rate_of(raw.z as int) as i64,
        }),
{
    GyroData { x: scale_rate(raw.x), y: scale_rate(raw.y), z: scale_rate(raw.z) }
}

/// Two bytes stand for every number that fits them, and for no two.
pub proof fn law_words_are_told_apart(high_a: u8, low_a: u8, high_b: u8, low_b: u8)
    ensures
        signed_word(high_a, low_a) == signed_word(high_b, low_b) <==> (high_a == high_b && low_a
            == low_b),
        -0x8000 <= signed_word(high_a, low_a) < 0x8000,
{
}

/// Only a device that reports the expected number is taken. It is reset and given time before its
/// clock is set, and then fifty samples a second, the smoothest filter but one and the finest
/// scale.
pub proof fn law_device_is_woken_up(who_am_i: u8, expected: bool, steps: Vec<WakeStep>)
    requires
        call_ensures(verify_device, (who_am_i,), expected),
        call_ensures(wake_steps, (), steps),
    ensures
        expected <==> who_am_i == 104,
        steps@.len() == 7,
        steps@[0] == WakeStep::Write(107, 128) && steps@[1] == WakeStep::Sleep(100),
        steps@[2] == WakeStep::Write(107, 1) && steps@[3] == WakeStep::Sleep(10),
        steps@[4] == WakeStep::Write(25, 19) && steps@[5] == WakeStep::Write(26, 6) && steps@[6]
            == WakeStep::Write(27, 0),
{
}

/// Six bytes are three numbers in two's complement, the high byte first: a byte more in the low
/// place is one more, and the highest bit is the sign.
pub proof fn law_bytes_make_axes(a: [u8; 6], b: [u8; 6], of_a: RawAxes, of_b: RawAxes)
    requires
        call_ensures(parse_xyz, (&a,), of_a),
        call_ensures(parse_xyz, (&b,), of_b),
    ensures
        a@[0] == b@[0] ==> of_b.x - of_a.x == b@[1] - a@[1],
        a@[2] == b@[2] ==> of_b.y - of_a.y == b@[3] - a@[3],
        a@[4] == b@[4] ==> of_b.z - of_a.z == b@[5] - a@[5],
        a@[0] == 0 ==> of_a.x == a@[1],
        a@[2] == 0 ==> of_a.y == a@[3],
        a@[4] == 0 ==> of_a.z == a@[5],
        of_a.x < 0 <==> a@[0] >= 128,
        of_a.y < 0 <==> a@[2] >= 128,
        of_a.z < 0 <==> a@[4] >= 128,
        a@[0] < 127 && b@[0] == a@[0] + 1 && b@[1] == a@[1] ==> of_b.x == of_a.x + 256,
        a@[0] == 255 ==> of_a.x == a@[1] - 256,
{
}

/// A full scale of 16384 is one gravity, and 131 a degree a second; every reading is scaled alike,
/// to the nearest.
pub proof fn law_readings_are_scaled(raw: RawAxes, accel: AccelData, gyro: GyroData)
    requires
        call_ensures(get_acceleration, (raw,), accel),
        call_ensures(get_angular_velocity, (raw,), gyro),
    ensures
        -8_192 <= accel.x * 16_384 - raw.x * 9_810_000 <= 8_192,
        -8_192 <= accel.y * 16_384 - raw.y * 9_810_000 <= 8_192,
        -8_192 <= accel.z * 16_384 - raw.z * 9_810_000 <= 8_192,
        -131 <= 2 * (gyro.x * 131 - raw.x * 3_600_000_000) <= 131,
        -131 <= 2 * (gyro.y * 131 - raw.y * 3_600_000_000) <= 131,
        -131 <= 2 * (gyro.z * 131 - raw.z * 3_600_000_000) <= 131,
{
}

} // verus!
