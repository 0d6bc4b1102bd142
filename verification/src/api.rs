//! Data sources behind the HTTP API.
use crate::db::DbClient;
use std::sync::Arc;
use vstd::prelude::*;

verus! {

/// An API data source that reads from a persistent SQLite database.
pub struct PersistentStatsSource {
    /// Client for database operations.
    db: Arc<DbClient>,
}

impl PersistentStatsSource {
    pub closed spec fn db_spec(&self) -> Arc<DbClient> {
        self.db
    }

    /// Creates a new `PersistentStatsSource`.
    pub fn new(db: Arc<DbClient>) -> (s: Self)
        ensures
            s.db_spec() == db,
    {
        Self { db }
    }

    /// The database client.
    pub fn db(&self) -> (r: &DbClient)
        ensures
            *r == *self.db_spec(),
    {
        &self.db
    }
}

/// An API data source backed by the SQLite database.
pub struct SqliteDataSource {
    db: Arc<DbClient>,
}

impl SqliteDataSource {
    pub closed spec fn db_spec(&self) -> Arc<DbClient> {
        self.db
    }

    pub fn new(db: Arc<DbClient>) -> (s: Self)
        ensures
            s.db_spec() == db,
    {
        Self { db }
    }

    /// The database client.
    pub fn db(&self) -> (r: &DbClient)
        ensures
            *r == *self.db_spec(),
    {
        &self.db
    }
}

} // verus!
