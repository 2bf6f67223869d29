//! The table of retired tenant identifiers.

use vstd::prelude::*;
use vstd::string::*;

verus! {

/// The kinds of databases that a migration can be run on.
#[derive(Clone, Copy, Debug, PartialEq, Eq, Structural)]
pub enum DatabaseBackend {
    Postgres,
    Sqlite,
    MySql,
}

/// The statement that creates the table on PostgreSQL.
pub const POSTGRES_UP: &'static str =
    "\nCREATE TABLE IF NOT EXISTS rg_tenant_id_tombstone (\n    id UUID PRIMARY KEY,\n    retired_at TIMESTAMPTZ NOT NULL DEFAULT CURRENT_TIMESTAMP\n);\n                ";

/// The statement that creates the table on SQLite, which stores identifiers and
/// times as text.
pub const SQLITE_UP: &'static str =
    "\nCREATE TABLE IF NOT EXISTS rg_tenant_id_tombstone (\n    id TEXT PRIMARY KEY,\n    retired_at TEXT NOT NULL DEFAULT CURRENT_TIMESTAMP\n);\n                ";

/// The statement that drops the table.
pub const DOWN: &'static str = "DROP TABLE IF EXISTS rg_tenant_id_tombstone;";

/// The migration that creates the table of retired tenant identifiers.
#[derive(Clone, Copy, Debug)]
pub struct Migration;

impl Migration {
    /// The statement that creates the table; MySQL is refused, with what is to be
    /// said of it.
    pub fn up(backend: DatabaseBackend) -> (r: Result<&'static str, String>)
        ensures
            match backend {
                DatabaseBackend::Postgres => r matches Ok(sql) && sql@ == POSTGRES_UP@,
                DatabaseBackend::Sqlite => r matches Ok(sql) && sql@ == SQLITE_UP@,
                DatabaseBackend::MySql => r matches Err(message) && message@
                    == "resource-group migrations: MySQL is not supported"@,
            },
    {
        match backend {
            DatabaseBackend::Postgres => Ok(POSTGRES_UP),
            DatabaseBackend::Sqlite => Ok(SQLITE_UP),
            DatabaseBackend::MySql => Err(
                "resource-group migrations: MySQL is not supported".to_owned(),
            ),
        }
    }

    /// The statement that drops the table, on every kind of database.
    pub fn down() -> (r: &'static str)
        ensures
            r@ == DOWN@,
    {
        DOWN
    }
}

} // verus!
