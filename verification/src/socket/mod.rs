//! Sockets: which to dial, and who is behind which address.
pub mod tcp;
pub mod udp_listener;
pub mod udp_nat;
