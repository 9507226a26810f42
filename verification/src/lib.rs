//! Verified core of an asynchronous MPU-6050 driver and of a small driver
//! registry.
//!
//! - `mpu6050`: register map, settings, sample decoding and the setup
//!   sequence of the driver; the bus accesses themselves are performed by
//!   the caller.
//! - `mpu6050_driver`: a smaller driver that checks the device identity
//!   before configuring, as a step function over bus outcomes.
//! - `driver_core`: a fixed-capacity registry of bus and device drivers.
//! - `xtask`: the plans of the repository's maintenance tasks.
//! - `decode`, `text`: big-endian sample decoding and string comparison.
pub mod decode;
pub mod driver_core;
pub mod mpu6050;
pub mod mpu6050_driver;
pub mod text;
pub mod xtask;

pub use mpu6050::{
    AccelRange, AccelRaw, Address, Dlpf, GyroRange, GyroRaw, I2cBus, MotionRaw, SampleRateDivider,
};
