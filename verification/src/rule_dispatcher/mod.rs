//! Sending flows different ways by rules.
pub mod dispatcher;
pub mod meaning;
pub mod rules;
pub mod quanx;
