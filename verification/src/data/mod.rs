//! What plugins keep in a database.
pub mod db;
pub mod plugin_cache;

use vstd::prelude::*;

verus! {

/// The number of a plugin.
#[derive(Debug, Clone, Copy, PartialEq, Eq, Structural, Hash)]
pub struct PluginId(pub u32);

/// What is wrong with a value in the database.
#[derive(Debug, Clone, Copy, PartialEq, Eq, Structural)]
pub enum DataError {
    /// It is not text.
    NotText,
}

impl DataError {
    pub fn message(self) -> (r: String)
        ensures
            r@ == "无效的UTF-8数据"@,
    {
        "无效的UTF-8数据".to_string()
    }
}

} // verus!
