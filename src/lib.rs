//! Safe ownership and marshalling layer over the native WireGuard
//! device-configuration library.
//!
//! The library itself makes no native call. It decides what to call with,
//! and what the outcome means: it decodes the device-name list, marshals
//! names and keys into and out of the fixed-size record fields, maps native
//! statuses to errors, and keeps the device handle's single ownership of its
//! raw record through the interface's lifecycle.
pub mod device;
pub mod error;
pub mod name_list;
pub mod record;
pub mod text;

pub use device::{Lifecycle, RawDevice, WireguardDevice};
pub use error::{create_status_result, fetch_result, status_result, WgError, EEXIST};
pub use name_list::{determine_length, list_device_names, TerminatorScan, MAX_SCAN_LEN};
pub use record::{decode_key, decode_name, encode_name, DeviceFlags, DeviceRecord};
