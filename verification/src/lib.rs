//! Client engine for the SMP device-management protocol: command identities and
//! their payload codec, the connection executor, chunked transfers, MCUboot
//! image inspection and the firmware-update sequence.
pub mod bootloader;
pub mod cbor;
pub mod client;
pub mod commands;
pub mod connection;
pub mod device;
pub mod firmware_update;
pub mod frame;
pub mod mcuboot;
pub mod progress;
pub mod return_types;
pub mod transfer;
pub mod transport;

pub use crate::client::MCUmgrClient;
pub use crate::commands::MCUmgrGroup;
pub use crate::connection::Connection;
pub use crate::firmware_update::{firmware_update, FirmwareUpdateError, FirmwareUpdateParams};
