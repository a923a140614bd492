//! The SQLite-backed store's configuration and the check of its database
//! file.
use vstd::prelude::*;

use crate::error::RuntimeError;

verus! {

/// Where the store keeps its database; the location is a path.
#[derive(Debug, Clone)]
pub struct SqliteStoreConfig {
    pub database_path: String,
}

#[derive(Debug)]
pub struct SqliteRuntimeStore {
    config: SqliteStoreConfig,
}

impl SqliteRuntimeStore {
    pub closed spec fn config(&self) -> SqliteStoreConfig {
        self.config
    }

    pub fn new(config: SqliteStoreConfig) -> (r: Self)
        ensures
            r.config() == config,
    {
        SqliteRuntimeStore { config }
    }

    pub fn database_path(&self) -> (p: &str)
        ensures
            p@ == self.config().database_path@,
    {
        self.config.database_path.as_str()
    }

    /// The health of the store, given whether its database path names a
    /// regular file.
    pub fn healthcheck_for(&self, path_is_file: bool) -> (r: Result<(), RuntimeError>)
        ensures
            path_is_file ==> r is Ok,
            !path_is_file ==> (r matches Err(RuntimeError::Bootstrap(m)) && m@
                == "database path is not a file: "@ + self.config().database_path@),
    {
        if path_is_file {
            return Ok(());
        }
        let mut message = "database path is not a file: ".to_string();
        message.append(self.config.database_path.as_str());
        Err(RuntimeError::Bootstrap(message))
    }
}

} // verus!
