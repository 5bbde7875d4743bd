//! The database file.
use vstd::prelude::*;

verus! {

/// A database, by the path of its file.
#[derive(Clone, Debug)]
pub struct Database {
    pub path: String,
}

/// A step before a database is used.
#[derive(Clone, Copy, PartialEq, Eq, Structural, Debug)]
pub enum Setup {
    /// Foreign keys are enforced.
    ForeignKeys,
    /// The table of the plugins is made, unless it is there.
    PluginTable,
}

/// The pragma that enforces foreign keys, and its value.
pub fn foreign_keys() -> (r: (String, String))
    ensures
        r.0@ == "foreign_keys"@,
        r.1@ == "ON"@,
{
    ("foreign_keys".to_string(), "ON".to_string())
}

/// The statement that makes the table of the plugins.
pub fn plugin_table() -> (r: String)
    ensures
        r@
            == "CREATE TABLE IF NOT EXISTS `yt_plugin_cache` (`plugin_id` INTEGER NOT NULL, `key` TEXT NOT NULL, `value` BLOB NOT NULL, PRIMARY KEY (`plugin_id`, `key`))"@,
{
    "CREATE TABLE IF NOT EXISTS `yt_plugin_cache` (`plugin_id` INTEGER NOT NULL, `key` TEXT NOT NULL, `value` BLOB NOT NULL, PRIMARY KEY (`plugin_id`, `key`))".to_string()
}

impl Database {
    /// The database at `path`, and what is said to it before it is used.
    pub fn open(path: String) -> (r: (Database, Vec<Setup>))
        ensures
            r.0.path == path,
            r.1@ == seq![Setup::ForeignKeys, Setup::PluginTable],
    {
        let db = Database { path };
        (db, vec![Setup::ForeignKeys, Setup::PluginTable])
    }

    /// The file to connect to, and what is said to it before it is used.
    pub fn connect(&self) -> (r: (String, Vec<Setup>))
        ensures
            r.0@ == self.path@,
            r.1@ == seq![Setup::ForeignKeys],
    {
        (self.path.clone(), vec![Setup::ForeignKeys])
    }

    /// What is said to a database in memory before it is used.
    pub fn connect_temp() -> (r: Vec<Setup>)
        ensures
            r@ == seq![Setup::ForeignKeys, Setup::PluginTable],
    {
        vec![Setup::ForeignKeys, Setup::PluginTable]
    }
}

/// A database that is used the first time has its table made, once foreign keys are enforced; whenever
/// it is connected to, they are, before anything else.
pub proof fn foreign_keys_come_first(
    path: String,
    opened: (Database, Vec<Setup>),
    connected: (String, Vec<Setup>),
    temporary: Vec<Setup>,
)
    requires
        call_ensures(Database::open, (path,), opened),
        call_ensures(Database::connect, (&opened.0,), connected),
        call_ensures(Database::connect_temp, (), temporary),
    ensures
        connected.0@ == path@,
        opened.1@.first() is ForeignKeys && connected.1@.first() is ForeignKeys
            && temporary@.first() is ForeignKeys,
        opened.1@.contains(Setup::PluginTable) && temporary@.contains(Setup::PluginTable),
        !connected.1@.contains(Setup::PluginTable),
{
    assert(opened.1@[1] is PluginTable);
    assert(temporary@[1] is PluginTable);
}

} // verus!
