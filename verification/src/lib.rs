//! Protocol layer for a VR headset that is driven over USB HID.
//!
//! The headset shows up as two HID devices: the link box ("Steam" device) and
//! the headset proper ("Vive" device). This crate holds everything about the
//! protocol that can be decided without touching the transport: how reports
//! are framed and parsed, how multi-report configuration blobs are
//! reassembled, how often a flaky read is retried, and how a display mode is
//! selected. The caller owns the transport and feeds replies in.

pub mod config;
pub mod device;
pub mod error;
pub mod inflate;
pub mod report;
pub mod resolution;
pub mod retry;
pub mod steam;
pub mod text;
pub mod vive;

pub use config::ConfigDevice;
pub use device::DeviceEntry;
pub use error::Error;
pub use resolution::Resolution;
pub use retry::Retry;
pub use steam::SteamTransfer;
pub use vive::ViveTransfer;
