use crate::application::database::utils::{build_mongo_uri, mongo_uri};
use crate::application::env::{AppEnv, DatasourceConf};
use vstd::prelude::*;
use vstd::string::*;

pub mod utils;

verus! {

/// The largest number of pooled connections, where none is configured.
pub const DEFAULT_MAX_POOL_SIZE: u32 = 50;

/// The smallest number of pooled connections, where none is configured.
pub const DEFAULT_MIN_POOL_SIZE: u32 = 10;

/// For how many seconds a pooled connection may stay idle, where no time is
/// configured.
pub const DEFAULT_MAX_IDLE_SECS: u64 = 300;

/// What the document store is connected with.
#[derive(Debug)]
pub struct ConnectionPlan {
    pub uri: String,
    pub max_pool_size: u32,
    pub min_pool_size: u32,
    pub max_idle_secs: u64,
}

/// The side of the document store's client that is settled before any
/// connection is made.
#[derive(Debug)]
pub struct DatabaseClient {
    pub conf: DatasourceConf,
}

/// The text in `text`, if there is one.
pub fn as_deref(text: &Option<String>) -> (slice: Option<&str>)
    ensures
        slice is Some <==> text is Some,
        slice matches Some(s) ==> s@ == text->0@,
{
    match text {
        Some(s) => Some(s.as_str()),
        None => None,
    }
}

impl DatabaseClient {
    /// The client for the data source that `env` configures.
    pub fn new(env: &AppEnv) -> (client: Self)
        ensures
            client.conf == env.datasource,
    {
        DatabaseClient { conf: env.datasource.clone() }
    }

    /// The name of the database that holds the vault's records.
    pub fn db(&self) -> (name: &str)
        ensures
            name@ == self.conf.database_name@,
    {
        self.conf.database_name.as_str()
    }

    /// What to connect with: the store's address, and the pool's bounds and
    /// idle time as configured or, where they are not, 50, 10 and 300 s.
    pub fn init(&self) -> (plan: ConnectionPlan)
        ensures
            plan.uri@ == mongo_uri(
                self.conf.hostname@,
                self.conf.port,
                self.conf.database_name@,
                match self.conf.username {
                    Some(name) => Some(name@),
                    None => None,
                },
                match self.conf.password {
                    Some(word) => Some(word@),
                    None => None,
                },
            ),
            plan.max_pool_size == match self.conf.max_pool_size {
                Some(size) => size,
                None => DEFAULT_MAX_POOL_SIZE,
            },
            plan.min_pool_size == match self.conf.min_pool_size {
                Some(size) => size,
                None => DEFAULT_MIN_POOL_SIZE,
            },
            plan.max_idle_secs == match self.conf.max_idle_time {
                Some(secs) => secs,
                None => DEFAULT_MAX_IDLE_SECS,
            },
    {
        let uri = build_mongo_uri(
            self.conf.hostname.as_str(),
            self.conf.port,
            self.conf.database_name.as_str(),
            as_deref(&self.conf.username),
            as_deref(&self.conf.password),
        );
        ConnectionPlan {
            uri,
            max_pool_size: match self.conf.max_pool_size {
                Some(size) => size,
                None => DEFAULT_MAX_POOL_SIZE,
            },
            min_pool_size: match self.conf.min_pool_size {
                Some(size) => size,
                None => DEFAULT_MIN_POOL_SIZE,
            },
            max_idle_secs: match self.conf.max_idle_time {
                Some(secs) => secs,
                None => DEFAULT_MAX_IDLE_SECS,
            },
        }
    }
}

} // verus!
