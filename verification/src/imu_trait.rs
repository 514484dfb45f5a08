//! What is known of the motion of a camera from an inertial measurement unit.
//!
//! Angles are in microarcseconds and accelerations in micrometers per second squared.

use vstd::prelude::*;

verus! {

/// Acceleration.
#[derive(Clone, Copy, Debug, PartialEq, Eq, Structural)]
pub struct AccelData {
    /// Along the first axis.
    pub x: i64,
    /// Along the second axis.
    pub y: i64,
    /// Along the third axis.
    pub z: i64,
}

/// Angular velocity, per second.
#[derive(Clone, Copy, Debug, PartialEq, Eq, Structural)]
pub struct GyroData {
    /// About the first axis.
    pub x: i64,
    /// About the second axis.
    pub y: i64,
    /// About the third axis.
    pub z: i64,
}

/// Where a camera points relative to the horizon.
#[derive(Clone, Copy, Debug, PartialEq, Eq, Structural)]
pub struct HorizonCoordinates {
    /// The angle of the zenith from image up, counter-clockwise.
    pub zenith_roll_angle: i64,
    /// Height of the boresight above the horizon.
    pub altitude: i64,
    /// Direction of the boresight, clockwise from north.
    pub azimuth: i64,
}

/// Where a camera points in the sky.
#[derive(Clone, Copy, Debug, PartialEq, Eq, Structural)]
pub struct EquatorialCoordinates {
    /// The angle of north from image up, counter-clockwise.
    pub north_roll_angle: i64,
    /// Right ascension of the boresight.
    pub ra: i64,
    /// Declination of the boresight.
    pub dec: i64,
}

/// What a gyroscope reports about each axis while it is at rest, per second.
#[derive(Clone, Copy, Debug, PartialEq, Eq, Structural)]
pub struct ZeroBias {
    /// About the first axis.
    pub x: i64,
    /// About the second axis.
    pub y: i64,
    /// About the third axis.
    pub z: i64,
}

/// An axis of a gyroscope, with the direction along it.
#[derive(Clone, Copy, Debug, PartialEq, Eq, Structural)]
pub enum GyroAxis {
    /// Up the first axis.
    PlusX,
    /// Down the first axis.
    MinusX,
    /// Up the second axis.
    PlusY,
    /// Down the second axis.
    MinusY,
    /// Up the third axis.
    PlusZ,
    /// Down the third axis.
    MinusZ,
}

/// How the axes of a gyroscope lie in the camera.
#[derive(Clone, Copy, Debug, PartialEq, Eq, Structural)]
pub struct TransformCalibration {
    /// The part of a slew's angle by which the estimate of it is off, in billionths.
    pub transform_error_fraction: i64,
    /// The axis that is parallel to the view of the camera.
    pub camera_view_gyro_axis: GyroAxis,
    /// How far it is off that.
    pub camera_view_misalignment: i64,
    /// The axis that is parallel to the camera's up direction.
    pub camera_up_gyro_axis: GyroAxis,
    /// How far it is off that.
    pub camera_up_misalignment: i64,
}

/// What a tracker makes of the readings.
#[derive(Clone, Copy, Debug, PartialEq, Eq, Structural)]
pub enum TrackerState {
    /// Nothing moves.
    Motionless,
    /// Something moves.
    Moving,
    /// It is not known where the camera points.
    Lost,
}

} // verus!
