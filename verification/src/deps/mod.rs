//! The calls into other crates, each behind a contract that is believed, not proved.
pub mod compare;
pub mod digest;
pub mod lru_cache;
pub mod dns_message;
pub mod packet;
pub mod bytes_mut;
pub mod random;
pub mod dns_proto;
pub mod json;
pub mod base64_text;
pub mod http_head;
pub mod uri;
pub mod web_url;
pub mod small_list;
