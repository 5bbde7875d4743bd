//! Traffic that comes through a TUN device.
pub mod exchange_with_resolver;
pub mod datagram;
pub mod stream;
pub mod tun_stream;
pub mod inbound;
pub mod routes;
pub mod mactun;
pub mod tun_device;
pub mod tundevice;
