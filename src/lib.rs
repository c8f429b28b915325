//! Driver for the HMC5983 / HMC5883 three-axis magnetometer.
//!
//! The driver core speaks to the chip only through [`SensorInterface`], a
//! register-level transport with two operations, implemented over I2C, over
//! SPI, and in memory. Every transaction a transport performs is recorded in
//! a ghost history, and the driver's contracts state exactly which
//! transactions each operation issues and how its result depends on what the
//! chip answered. The I2C bus, SPI device and delay traits keep ghost logs of
//! their own calls, and the transports' contracts are stated over those logs.

pub mod bus;
pub mod codec;
pub mod driver;
pub mod error;
pub mod i2c;
pub mod interface;
pub mod register_file;
pub mod settings;
pub mod spi;

pub use bus::{Delay, I2cBus, SpiDevice};
pub use driver::HMC5983;
pub use error::Error;
pub use i2c::I2cInterface;
pub use interface::SensorInterface;
pub use register_file::RegisterFile;
pub use settings::{GainSetting, MeasurementModeSetting, OdrSetting, SampleAvgSetting};
pub use spi::SpiInterface;
