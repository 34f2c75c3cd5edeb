//! Non-volatile storage layer for a page-oriented serial memory device.
//!
//! The crate provides three verified pieces:
//! - a fixed-layout codec for the device descriptor ([`device_info`]),
//! - a tagged-record codec for the variable-length rule list — the data
//!   model in [`rules`], the wire format in [`wire`], the executable codec
//!   in [`event_processor`], its length-prefixed frame in [`store`], and
//!   the format's laws (round trip, truncation safety, unknown-tag
//!   rejection) proved in [`laws`],
//! - a page-aligned write planner that splits a buffer into chunks which
//!   respect the device's page boundaries ([`paged_write`]).
//!
//! The raw transport (an I2C EEPROM driver) and the settle-delay primitive
//! live outside this crate; callers feed bytes in and take bytes out.

pub mod device_info;
pub mod event_processor;
pub mod laws;
pub mod paged_write;
pub mod rules;
pub mod store;
pub mod wire;

pub use device_info::DeviceInfo;
pub use device_info::DeviceInfoError;
pub use device_info::DeviceInfoReader;
pub use device_info::DeviceInfoWriter;
