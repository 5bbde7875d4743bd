//! The decisions, codecs and tables of a multi-protocol proxy.
//!
//! Everything here is a function of plain values: bytes that arrived, addresses, the time on a
//! clock. Sockets, tasks and timers are left to the program around the library.

pub mod be;
pub mod net;
pub mod net_text;
pub mod text;
pub mod flow;
pub mod shadowsocks;
pub mod deps;
pub mod socks5;
pub mod socks5_associate;
pub mod socks5_udp;
pub mod tables;
pub mod fakeip;
pub mod tun;
pub mod fakeip_mapback;
pub mod checksum;
pub mod ip_stack;
pub mod hysteria2;
pub mod conn_slot;
pub mod forward;
pub mod socket;
pub mod host_resolver;
pub mod config;
pub mod api;
pub mod domains;
pub mod redirect;
pub mod resolver;
pub mod resolve_dest;
pub mod dual_stack_factory;
pub mod drop_handler;
pub mod data;
pub mod service;
pub mod http_proxy;
pub mod h2;
pub mod dns_server;
pub mod rule_dispatcher;
pub mod udp_session_manager;
pub mod tcp_manager;
pub mod tuic;
pub mod dns_probe;
