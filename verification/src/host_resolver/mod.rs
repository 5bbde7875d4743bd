//! Resolving names over HTTPS.
pub mod dns_packet_parser;
pub mod doh_adapter;
pub mod caching_resolver;
