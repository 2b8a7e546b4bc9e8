use vstd::prelude::*;

verus! {

/// What separates the levels of a setting's name in the environment.
pub const SPLIT_AT_DOUBLE_UNDERSCORE: &'static str = "__";

/// How the loaders of one request gather keys.
#[derive(Debug, Clone, PartialEq)]
pub struct DataLoaderConfig {
    /// How long a loader waits for more keys before it loads, in
    /// milliseconds.
    pub default_delay_ms: u64,
    /// How many keys a loader loads at once at most.
    pub max_batch_size: usize,
}

impl Default for DataLoaderConfig {
    fn default() -> (r: Self)
        ensures
            r.default_delay_ms == 10,
            r.max_batch_size == 100,
    {
        Self { default_delay_ms: 10, max_batch_size: 100 }
    }
}

/// Where the server listens and how long a request may take.
#[derive(Debug, Clone, PartialEq)]
pub struct ServerConfig {
    pub port: u16,
    /// In milliseconds.
    pub request_timeout: u64,
}

impl Default for ServerConfig {
    fn default() -> (r: Self)
        ensures
            r.port == 8080,
            r.request_timeout == 10_000,
    {
        Self { port: 8080, request_timeout: 10_000 }
    }
}

/// How the database is reached and how its connections are pooled.
#[derive(Debug, Clone, PartialEq)]
pub struct DatabaseConfig {
    pub user: String,
    pub pass: String,
    pub db_name: String,
    pub host: String,
    pub port: u16,
    pub max_conn: usize,
    /// In milliseconds.
    pub create_timeout: u64,
    /// In milliseconds.
    pub acquire_timeout: u64,
}

impl Default for DatabaseConfig {
    fn default() -> (r: Self)
        ensures
            r.user@ == "postgres"@,
            r.pass@ == "password"@,
            r.db_name@ == "postgres"@,
            r.host@ == "127.0.0.1"@,
            r.port == 5432,
            r.max_conn == 16,
            r.create_timeout == 5_000,
            r.acquire_timeout == 5_000,
    {
        Self {
            user: "postgres".to_owned(),
            pass: "password".to_owned(),
            db_name: "postgres".to_owned(),
            host: "127.0.0.1".to_owned(),
            port: 5432,
            max_conn: 16,
            create_timeout: 5_000,
            acquire_timeout: 5_000,
        }
    }
}

/// The settings of the service.
#[derive(Debug, Clone, PartialEq)]
pub struct ServiceConfig {
    pub db: DatabaseConfig,
    pub server: ServerConfig,
    pub data_loader: DataLoaderConfig,
}

impl Default for ServiceConfig {
    fn default() -> (r: Self)
        ensures
            r.db.port == 5432,
            r.db.max_conn == 16,
            r.db.create_timeout == 5_000,
            r.db.acquire_timeout == 5_000,
            r.db.user@ == "postgres"@,
            r.db.pass@ == "password"@,
            r.db.db_name@ == "postgres"@,
            r.db.host@ == "127.0.0.1"@,
            r.server.port == 8080,
            r.server.request_timeout == 10_000,
            r.data_loader.default_delay_ms == 10,
            r.data_loader.max_batch_size == 100,
    {
        Self {
            db: DatabaseConfig::default(),
            server: ServerConfig::default(),
            data_loader: DataLoaderConfig::default(),
        }
    }
}

} // verus!
