//! The kinds of rules.
pub mod geoip;
