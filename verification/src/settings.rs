//! How the device is opened and configured.

use vstd::prelude::*;

verus! {

/// Device used when none is named.
pub const DEFAULT_DEVICE: &'static str = "/dev/ttyUSB0";

/// Baud rate used when none is given.
pub const DEFAULT_BAUD_RATE: u32 = 115200;

/// Upper bound on one read, in milliseconds. Short, so that a read loop on
/// an idle line hands control back soon.
pub const READ_TIMEOUT_MS: u64 = 100;

/// Upper bound on one write, in milliseconds. Long, to bear with a slow
/// consumer at the other end.
pub const WRITE_TIMEOUT_MS: u64 = 1000;

/// Most bytes asked of the device in one read.
pub const CHUNK_SIZE: usize = 256;

/// Everything needed to open the device and make it ready.
#[derive(Debug)]
pub struct DeviceSettings {
    /// Path of the device.
    pub device: String,
    /// Line speed, in baud.
    pub baud_rate: u32,
    /// Timeout to set for reads, in milliseconds.
    pub read_timeout_ms: u64,
    /// Timeout to set for writes, in milliseconds.
    pub write_timeout_ms: u64,
}

impl DeviceSettings {
    /// Settings for the device at `device` running at `baud_rate`, with the
    /// fixed read and write timeouts.
    pub fn new(device: &str, baud_rate: u32) -> (settings: Self)
        ensures
            settings.device@ == device@,
            settings.baud_rate == baud_rate,
            settings.read_timeout_ms == READ_TIMEOUT_MS,
            settings.write_timeout_ms == WRITE_TIMEOUT_MS,
    {
        DeviceSettings {
            device: device.to_owned(),
            baud_rate,
            read_timeout_ms: READ_TIMEOUT_MS,
            write_timeout_ms: WRITE_TIMEOUT_MS,
        }
    }
}

impl Default for DeviceSettings {
    /// Settings for the default device at the default baud rate.
    fn default() -> (settings: Self)
        ensures
            settings.device@ == DEFAULT_DEVICE@,
            settings.baud_rate == DEFAULT_BAUD_RATE,
            settings.read_timeout_ms == READ_TIMEOUT_MS,
            settings.write_timeout_ms == WRITE_TIMEOUT_MS,
    {
        DeviceSettings::new(DEFAULT_DEVICE, DEFAULT_BAUD_RATE)
    }
}

} // verus!
