//! What one plugin keeps in the database.
use vstd::prelude::*;
use vstd::slice::slice_to_vec;
use vstd::utf8::decode_utf8;
use vstd::utf8::encode_utf8;
use vstd::utf8::valid_utf8;

use crate::data::db::Database;
use crate::data::DataError;
use crate::data::PluginId;
use crate::text::str_from_utf8;

verus! {

/// The part of the database that one plugin uses. Without a database nothing is kept.
#[derive(Clone, Debug)]
pub struct PluginCache {
    pub plugin_id: PluginId,
    pub db: Option<Database>,
}

/// A value to be written, or a value to be read where `value` is `None`.
pub struct Statement {
    pub path: String,
    pub sql: String,
    pub plugin_id: u32,
    pub key: String,
    pub value: Option<Vec<u8>>,
}

impl PluginCache {
    pub fn new(plugin_id: PluginId, db: Option<Database>) -> (r: Self)
        ensures
            r.plugin_id == plugin_id,
            r.db == db,
    {
        PluginCache { plugin_id, db }
    }

    /// How a value is kept under a key. `json` is the value in JSON.
    pub fn set(&self, key: &str, json: &str) -> (r: Option<Statement>)
        ensures
            match (self.db, r) {
                (Some(db), Some(s)) => {
                    &&& s.path@ == db.path@
                    &&& s.sql@
                        == "INSERT OR REPLACE INTO `yt_plugin_cache` (`plugin_id`, `key`, `value`) VALUES (?1, ?2, ?3)"@
                    &&& s.plugin_id == self.plugin_id.0
                    &&& s.key@ == key@
                    &&& s.value matches Some(v) && v@ == encode_utf8(json@)
                },
                (None, None) => true,
                _ => false,
            },
    {
        match &self.db {
            Some(db) => Some(
                Statement {
                    path: db.path.clone(),
                    sql: "INSERT OR REPLACE INTO `yt_plugin_cache` (`plugin_id`, `key`, `value`) VALUES (?1, ?2, ?3)".to_string(),
                    plugin_id: self.plugin_id.0,
                    key: key.to_string(),
                    value: Some(slice_to_vec(json.as_bytes())),
                },
            ),
            None => None,
        }
    }

    /// How the value under a key is asked for.
    pub fn get(&self, key: &str) -> (r: Option<Statement>)
        ensures
            match (self.db, r) {
                (Some(db), Some(s)) => {
                    &&& s.path@ == db.path@
                    &&& s.sql@
                        == "SELECT `value` FROM `yt_plugin_cache` WHERE `plugin_id` = ?1 AND `key` = ?2"@
                    &&& s.plugin_id == self.plugin_id.0
                    &&& s.key@ == key@
                    &&& s.value is None
                },
                (None, None) => true,
                _ => false,
            },
    {
        match &self.db {
            Some(db) => Some(
                Statement {
                    path: db.path.clone(),
                    sql: "SELECT `value` FROM `yt_plugin_cache` WHERE `plugin_id` = ?1 AND `key` = ?2".to_string(),
                    plugin_id: self.plugin_id.0,
                    key: key.to_string(),
                    value: None,
                },
            ),
            None => None,
        }
    }
}

/// The JSON text of a stored value.
pub fn stored_json(value: &[u8]) -> (r: Result<String, DataError>)
    ensures
        match r {
            Ok(t) => valid_utf8(value@) && t@ == decode_utf8(value@),
            Err(e) => !valid_utf8(value@) && e == DataError::NotText,
        },
{
    match str_from_utf8(value) {
        Some(t) => Ok(t.to_string()),
        None => Err(DataError::NotText),
    }
}

/// A value is read back as it was written.
pub proof fn value_read_back(json: Seq<char>)
    ensures
        valid_utf8(encode_utf8(json)),
        decode_utf8(encode_utf8(json)) == json,
{
    vstd::utf8::encode_utf8_valid_utf8(json);
    vstd::utf8::encode_utf8_decode_utf8(json);
}

/// What a plugin asks for is what it kept: the same database, plugin and key. What is kept is read back
/// as it was given. Without a database nothing is kept or asked for.
pub proof fn kept_values_are_asked_for(
    c: &PluginCache,
    key: &str,
    json: &str,
    kept: Option<Statement>,
    asked: Option<Statement>,
    value: &[u8],
    read: Result<String, DataError>,
)
    requires
        call_ensures(PluginCache::set, (c, key, json), kept),
        call_ensures(PluginCache::get, (c, key), asked),
        kept matches Some(s) ==> (s.value matches Some(v) ==> v@ == value@),
        call_ensures(stored_json, (value,), read),
    ensures
        kept is Some <==> c.db is Some,
        asked is Some <==> c.db is Some,
        kept matches Some(s) ==> (asked matches Some(t) && s.path@ == t.path@ && s.plugin_id
            == t.plugin_id && s.plugin_id == c.plugin_id.0 && s.key@ == t.key@ && s.key@ == key@
            && s.value is Some && t.value is None),
        kept is Some ==> (read matches Ok(t) && t@ == json@),
{
    value_read_back(json@);
}

} // verus!
