//! Routes through a TUN device.
pub mod macos;
