//! Configuration of the sync server: one TOML file, every key optional.
//! There is no TLS here on purpose: the server listens on plain HTTP and a
//! reverse proxy does the encryption.

use vstd::prelude::*;
use crate::paths::join_spec;
use crate::paths::join_path;

verus! {

/// Contents of the configuration file. Every field has a default, so an
/// empty file is valid.
pub struct Config {
    /// Listening address `ip:port`; by default only localhost (a reverse
    /// proxy exposes the server, not the server itself).
    pub listen: String,
    /// Path of the SQLite database. A relative path is taken from the
    /// configuration file's directory, not from the working directory.
    pub db: String,
}

/// Address the server listens on by default.
pub fn default_listen() -> (r: String)
    ensures
        r@ == "127.0.0.1:8787"@,
{
    "127.0.0.1:8787".to_owned()
}

/// Database file by default.
pub fn default_db() -> (r: String)
    ensures
        r@ == "driftling-server.sqlite3"@,
{
    "driftling-server.sqlite3".to_owned()
}

/// Where the database lives: a relative `db` is resolved against the
/// directory of the configuration file (`config_dir`, the file path's
/// parent when it has one); an absolute one is kept.
pub open spec fn db_path_spec(config_dir: Option<Seq<char>>, db: Seq<char>) -> Seq<char> {
    let relative = !(db.len() > 0 && db[0] == '/');
    match config_dir {
        Some(dir) => if relative { join_spec(dir, db) } else { db },
        None => db,
    }
}

/// The database path of the configuration file in `config_dir`.
pub fn resolve_db_path(config_dir: Option<&str>, db: &str) -> (r: String)
    ensures
        r@ == db_path_spec(
            match config_dir {
                Some(d) => Some(d@),
                None => None,
            },
            db@,
        ),
{
    match config_dir {
        Some(dir) => join_path(dir, db),
        None => db.to_owned(),
    }
}

} // verus!
