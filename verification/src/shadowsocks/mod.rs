//! The Shadowsocks protocol.
pub mod util;
pub mod stream;
