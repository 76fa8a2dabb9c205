//! Configuration: the settings of every part of the database, their
//! defaults and allowed ranges, size texts such as `512MB`, and overrides
//! from the environment.

use vstd::prelude::*;
use crate::text::{ascii_upper, chars_of, copy_opt_string, owned, push_text, str_equal, string_of_chars, sub_chars, views};

verus! {

/// The fields that failed validation, named as in `failures`.
#[derive(Debug)]
pub struct ValidationErrors {
    pub fields: Vec<String>,
}

/// Why configuration could not be loaded.
#[derive(Debug)]
pub enum ConfigError {
    /// A size text too short to hold a number and a unit.
    InvalidSize(String),
    /// A size text whose last two characters are not `KB`, `MB` or `GB`.
    UnknownSizeUnit(String),
    /// A text that is not a number of the expected range.
    InvalidNumber(String),
    /// A text that is neither `true` nor `false`.
    InvalidBool(String),
    /// Fields out of their allowed range.
    Invalid(ValidationErrors),
}

/// What a configuration error says, as plain values.
pub enum ConfigErrorView {
    InvalidSize(Seq<char>),
    UnknownSizeUnit(Seq<char>),
    InvalidNumber(Seq<char>),
    InvalidBool(Seq<char>),
    Invalid(Seq<Seq<char>>),
}

impl View for ConfigError {
    type V = ConfigErrorView;

    open spec fn view(&self) -> ConfigErrorView {
        match self {
            ConfigError::InvalidSize(s) => ConfigErrorView::InvalidSize(s@),
            ConfigError::UnknownSizeUnit(s) => ConfigErrorView::UnknownSizeUnit(s@),
            ConfigError::InvalidNumber(s) => ConfigErrorView::InvalidNumber(s@),
            ConfigError::InvalidBool(s) => ConfigErrorView::InvalidBool(s@),
            ConfigError::Invalid(e) => ConfigErrorView::Invalid(views(e.fields@)),
        }
    }
}

impl ConfigError {
    /// A message for people.
    pub fn message(&self) -> (r: String)
        ensures
            match self@ {
                ConfigErrorView::InvalidSize(s) => r@ == "Invalid size format: "@ + s,
                ConfigErrorView::UnknownSizeUnit(s) => r@ == "Unknown size unit: "@ + s,
                ConfigErrorView::InvalidNumber(s) => r@ == "Invalid number: "@ + s,
                ConfigErrorView::InvalidBool(s) => r@ == "Invalid boolean: "@ + s,
                ConfigErrorView::Invalid(_) => r@ == "Invalid configuration"@,
            },
    {
        let mut m = String::new();
        match self {
            ConfigError::InvalidSize(s) => {
                push_text(&mut m, "Invalid size format: ");
                push_text(&mut m, s.as_str());
            },
            ConfigError::UnknownSizeUnit(s) => {
                push_text(&mut m, "Unknown size unit: ");
                push_text(&mut m, s.as_str());
            },
            ConfigError::InvalidNumber(s) => {
                push_text(&mut m, "Invalid number: ");
                push_text(&mut m, s.as_str());
            },
            ConfigError::InvalidBool(s) => {
                push_text(&mut m, "Invalid boolean: ");
                push_text(&mut m, s.as_str());
            },
            ConfigError::Invalid(_) => {
                push_text(&mut m, "Invalid configuration");
            },
        }
        m
    }
}

/// `name` alone when a check fails, nothing when it passes.
pub open spec fn flag(ok: bool, name: Seq<char>) -> Seq<Seq<char>> {
    if ok {
        Seq::empty()
    } else {
        seq![name]
    }
}

/// Each name with `prefix` before it.
pub open spec fn prefixed(prefix: Seq<char>, names: Seq<Seq<char>>) -> Seq<Seq<char>> {
    Seq::new(names.len(), |i: int| prefix + names[i])
}

/// Appends `name` when `ok` is false.
fn check(out: &mut Vec<String>, ok: bool, name: &str)
    ensures
        views(final(out)@) == views(old(out)@) + flag(ok, name@),
{
    let ghost before = views(out@);
    if !ok {
        out.push(owned(name));
        assert(views(out@) =~= before + flag(ok, name@));
    } else {
        assert(views(out@) =~= before + flag(ok, name@));
    }
}

/// Appends each of `names` with `prefix` before it.
fn push_prefixed(out: &mut Vec<String>, prefix: &str, names: &Vec<String>)
    ensures
        views(final(out)@) == views(old(out)@) + prefixed(prefix@, views(names@)),
{
    let ghost before = views(out@);
    let mut i: usize = 0;
    while i < names.len()
        invariant
            i <= names.len(),
            views(out@) == before + prefixed(prefix@, views(names@)).subrange(0, i as int),
        decreases names.len() - i,
    {
        let mut s = String::new();
        push_text(&mut s, prefix);
        push_text(&mut s, names[i].as_str());
        let ghost mid = views(out@);
        out.push(s);
        i = i + 1;
        assert(views(out@) =~= mid.push(s@));
        assert(views(out@) =~= before + prefixed(prefix@, views(names@)).subrange(0, i as int));
    }
    assert(prefixed(prefix@, views(names@)).subrange(0, names.len() as int) =~= prefixed(prefix@, views(names@)));
}

/// Master configuration.
#[derive(Debug)]
pub struct AuroraConfig {
    /// Database configuration.
    pub database: DatabaseConfig,
    /// Server configuration.
    pub server: ServerConfig,
    /// Storage configuration.
    pub storage: StorageConfig,
    /// Network configuration.
    pub network: NetworkConfig,
    /// Security configuration.
    pub security: SecurityConfig,
    /// Logging configuration.
    pub logging: LoggingConfig,
    /// Monitoring configuration.
    pub monitoring: MonitoringConfig,
    /// Transaction configuration.
    pub transaction: TransactionConfig,
    /// Vector search configuration.
    pub vector: VectorConfig,
    /// Audit configuration.
    pub audit: AuditConfig,
}

/// Database core configuration.
#[derive(Debug)]
pub struct DatabaseConfig {
    /// Maximum concurrent connections.
    pub max_connections: usize,
    /// Buffer pool size in bytes (at least 1 MB).
    pub buffer_pool_size: usize,
    /// Maximum tables per database.
    pub max_tables: usize,
    /// Maximum columns per table.
    pub max_columns_per_table: usize,
    /// Default transaction isolation level.
    pub default_isolation_level: String,
    /// Transaction timeout in milliseconds (1 s to 1 hour).
    pub transaction_timeout_ms: u64,
    /// Query cache size in MB.
    pub query_cache_size_mb: usize,
    /// Enable query logging.
    pub enable_query_logging: bool,
    /// Enable metrics collection.
    pub enable_metrics: bool,
    /// Database data directory.
    pub data_directory: String,
    /// Database temp directory.
    pub temp_directory: String,
}

/// Server configuration.
#[derive(Debug)]
pub struct ServerConfig {
    /// PostgreSQL wire protocol port.
    pub postgresql_port: u16,
    /// HTTP API port.
    pub http_port: u16,
    /// Binary protocol port.
    pub binary_port: u16,
    /// Bind address.
    pub bind_address: String,
    /// Server hostname.
    pub hostname: String,
    /// Maximum request size in MB.
    pub max_request_size_mb: usize,
    /// Request timeout in seconds.
    pub request_timeout_seconds: u64,
    /// Enable graceful shutdown.
    pub enable_graceful_shutdown: bool,
    /// Graceful shutdown timeout in seconds.
    pub shutdown_timeout_seconds: u64,
}

/// Storage configuration.
#[derive(Debug)]
pub struct StorageConfig {
    /// Storage engine selection strategy.
    pub selection_strategy: String,
    /// B+ Tree engine configuration.
    pub btree: BTreeConfig,
    /// LSM Tree engine configuration.
    pub lsm: LSMConfig,
    /// Hybrid engine configuration.
    pub hybrid: HybridConfig,
    /// WAL configuration.
    pub wal: WALConfig,
    /// Compression settings.
    pub compression: CompressionConfig,
}

/// B+ Tree storage engine configuration.
#[derive(Debug)]
pub struct BTreeConfig {
    /// Page size in KB.
    pub page_size_kb: usize,
    /// Maximum table size in MB.
    pub max_table_size_mb: usize,
    /// Cache size in MB.
    pub cache_size_mb: usize,
    /// Maximum concurrent transactions.
    pub max_concurrent_transactions: usize,
}

/// LSM Tree storage engine configuration.
#[derive(Debug)]
pub struct LSMConfig {
    /// Memory table size in MB.
    pub memtable_size_mb: usize,
    /// SSTable size in MB.
    pub sstable_size_mb: usize,
    /// Compaction threads.
    pub compaction_threads: usize,
    /// Bloom filter bits per key.
    pub bloom_filter_bits: usize,
}

/// Hybrid storage engine configuration.
#[derive(Debug)]
pub struct HybridConfig {
    /// Adaptive threshold (rows).
    pub adaptive_threshold: usize,
    /// Vector column threshold, a ratio in thousandths (0 to 1000).
    pub vector_threshold: u32,
}

/// WAL configuration.
#[derive(Debug)]
pub struct WALConfig {
    /// WAL directory.
    pub directory: String,
    /// WAL segment size in MB.
    pub segment_size_mb: usize,
    /// Maximum WAL segments.
    pub max_segments: usize,
    /// Sync strategy.
    pub sync_strategy: String,
    /// Flush interval in milliseconds.
    pub flush_interval_ms: u64,
}

/// Compression configuration.
#[derive(Debug)]
pub struct CompressionConfig {
    /// Default compression algorithm.
    pub algorithm: String,
    /// Compression level (1-9).
    pub level: u32,
    /// Minimum block size for compression.
    pub min_block_size: usize,
}

/// Network configuration.
#[derive(Debug)]
pub struct NetworkConfig {
    /// Connection pool configuration.
    pub connection_pool: ConnectionPoolConfig,
    /// TLS configuration.
    pub tls: TLSConfig,
    /// Load balancer configuration.
    pub load_balancer: LoadBalancerConfig,
}

/// Connection pool configuration.
#[derive(Debug)]
pub struct ConnectionPoolConfig {
    /// Maximum connections.
    pub max_connections: usize,
    /// Minimum idle connections.
    pub min_idle: usize,
    /// Maximum idle time in seconds.
    pub max_idle_time_seconds: u64,
    /// Connection timeout in seconds.
    pub connection_timeout_seconds: u64,
    /// Health check interval in seconds.
    pub health_check_interval_seconds: u64,
}

/// TLS configuration.
#[derive(Debug)]
pub struct TLSConfig {
    /// Enable TLS.
    pub enabled: bool,
    /// Certificate file path.
    pub cert_file: Option<String>,
    /// Private key file path.
    pub key_file: Option<String>,
    /// CA certificate file path.
    pub ca_file: Option<String>,
    /// Minimum TLS version.
    pub min_version: String,
    /// Mutual authentication.
    pub mutual_auth: bool,
}

/// Load balancer configuration.
#[derive(Debug)]
pub struct LoadBalancerConfig {
    /// Enable load balancing.
    pub enabled: bool,
    /// Load balancing algorithm.
    pub algorithm: String,
    /// Health check interval in seconds.
    pub health_check_interval_seconds: u64,
    /// Failover timeout in seconds.
    pub failover_timeout_seconds: u64,
}

/// Security configuration.
#[derive(Debug)]
pub struct SecurityConfig {
    /// Enable authentication.
    pub enable_authentication: bool,
    /// Enable authorization.
    pub enable_authorization: bool,
    /// Password minimum length.
    pub password_min_length: usize,
    /// Session timeout in minutes (1 minute to 24 hours).
    pub session_timeout_minutes: u64,
    /// Enable row-level security.
    pub enable_row_level_security: bool,
    /// Encryption at rest.
    pub encryption_at_rest: bool,
    /// Encryption key file.
    pub encryption_key_file: Option<String>,
}

/// Logging configuration.
#[derive(Debug)]
pub struct LoggingConfig {
    /// Log level.
    pub level: String,
    /// Log format (json, text, compact).
    pub format: String,
    /// Log file path.
    pub file: Option<String>,
    /// Maximum log file size in MB.
    pub max_size_mb: usize,
    /// Maximum number of log files.
    pub max_files: usize,
    /// Enable log compression.
    pub compress_rotated: bool,
    /// Log slow queries threshold in milliseconds.
    pub slow_query_threshold_ms: u64,
}

/// Monitoring configuration.
#[derive(Debug)]
pub struct MonitoringConfig {
    /// Enable Prometheus metrics.
    pub enable_prometheus: bool,
    /// Prometheus metrics port.
    pub prometheus_port: u16,
    /// Metrics collection interval in seconds.
    pub collection_interval_seconds: u64,
    /// Enable health checks.
    pub enable_health_checks: bool,
    /// Health check port.
    pub health_check_port: u16,
    /// Alert thresholds.
    pub alert_thresholds: AlertThresholds,
}

/// Alert thresholds.
#[derive(Debug)]
pub struct AlertThresholds {
    /// High CPU usage threshold (%).
    pub cpu_high_threshold: u8,
    /// High memory usage threshold (%).
    pub memory_high_threshold: u8,
    /// High disk usage threshold (%).
    pub disk_high_threshold: u8,
    /// Connection pool utilization threshold (%).
    pub connection_pool_high_threshold: u8,
    /// Slow query threshold in milliseconds.
    pub slow_query_threshold_ms: u64,
}

/// Transaction configuration.
#[derive(Debug)]
pub struct TransactionConfig {
    /// Maximum concurrent transactions.
    pub max_concurrent_transactions: usize,
    /// Deadlock detection interval in milliseconds.
    pub deadlock_detection_interval_ms: u64,
    /// Transaction timeout in milliseconds.
    pub transaction_timeout_ms: u64,
    /// Isolation level.
    pub isolation_level: String,
    /// Enable distributed transactions.
    pub enable_distributed_transactions: bool,
    /// Transaction log directory.
    pub log_directory: String,
}

/// Vector search configuration.
#[derive(Debug)]
pub struct VectorConfig {
    /// Default vector dimension.
    pub default_dimension: usize,
    /// Index type (hnsw, ivf, flat).
    pub index_type: String,
    /// Maximum connections per layer (HNSW).
    pub max_connections: usize,
    /// Construction search parameter (HNSW).
    pub ef_construction: usize,
    /// Query search parameter (HNSW).
    pub ef_search: usize,
    /// Enable GPU acceleration.
    pub enable_gpu: bool,
    /// Vector cache size in MB.
    pub cache_size_mb: usize,
}

/// Audit configuration.
#[derive(Debug)]
pub struct AuditConfig {
    /// Enable audit logging.
    pub enable_audit_logging: bool,
    /// Audit log file path.
    pub audit_log_file: String,
    /// Log sensitive operations.
    pub log_sensitive_operations: bool,
    /// Log connection events.
    pub log_connection_events: bool,
    /// Log DDL operations.
    pub log_ddl_operations: bool,
    /// Log DML operations.
    pub log_dml_operations: bool,
    /// Audit log retention days (1 day to 10 years).
    pub retention_days: usize,
    /// Maximum audit log size in MB.
    pub max_log_size_mb: usize,
}

impl AuroraConfig {
    /// Whether every field holds its default value.
    pub open spec fn is_default(&self) -> bool {
        &&& self.database.is_default()
        &&& self.server.is_default()
        &&& self.storage.is_default()
        &&& self.network.is_default()
        &&& self.security.is_default()
        &&& self.logging.is_default()
        &&& self.monitoring.is_default()
        &&& self.transaction.is_default()
        &&& self.vector.is_default()
        &&& self.audit.is_default()
    }

    /// The names of the fields out of their allowed range, in field order;
    /// a nested field is named by its section, a dot and its own name.
    pub open spec fn failures(&self) -> Seq<Seq<char>> {
        prefixed("database."@, self.database.failures())
            + prefixed("server."@, self.server.failures())
            + prefixed("storage."@, self.storage.failures())
            + prefixed("network."@, self.network.failures())
            + prefixed("security."@, self.security.failures())
            + prefixed("logging."@, self.logging.failures())
            + prefixed("monitoring."@, self.monitoring.failures())
            + prefixed("transaction."@, self.transaction.failures())
            + prefixed("vector."@, self.vector.failures())
            + prefixed("audit."@, self.audit.failures())
    }

    /// The names of the fields out of their allowed range (see `failures`).
    pub fn collect_failures(&self) -> (r: Vec<String>)
        ensures
            views(r@) == self.failures(),
    {
        let mut out: Vec<String> = Vec::new();
        let database_failures = self.database.collect_failures();
        push_prefixed(&mut out, "database.", &database_failures);
        assert(views(out@) =~= prefixed("database."@, self.database.failures()));
        let server_failures = self.server.collect_failures();
        push_prefixed(&mut out, "server.", &server_failures);
        let storage_failures = self.storage.collect_failures();
        push_prefixed(&mut out, "storage.", &storage_failures);
        let network_failures = self.network.collect_failures();
        push_prefixed(&mut out, "network.", &network_failures);
        let security_failures = self.security.collect_failures();
        push_prefixed(&mut out, "security.", &security_failures);
        let logging_failures = self.logging.collect_failures();
        push_prefixed(&mut out, "logging.", &logging_failures);
        let monitoring_failures = self.monitoring.collect_failures();
        push_prefixed(&mut out, "monitoring.", &monitoring_failures);
        let transaction_failures = self.transaction.collect_failures();
        push_prefixed(&mut out, "transaction.", &transaction_failures);
        let vector_failures = self.vector.collect_failures();
        push_prefixed(&mut out, "vector.", &vector_failures);
        let audit_failures = self.audit.collect_failures();
        push_prefixed(&mut out, "audit.", &audit_failures);
        out
    }

    /// Checks every field against its allowed range.
    pub fn validate(&self) -> (r: Result<(), ValidationErrors>)
        ensures
            r is Ok <==> self.failures().len() == 0,
            r matches Err(e) ==> views(e.fields@) == self.failures(),
    {
        let fields = self.collect_failures();
        if fields.len() == 0 {
            Ok(())
        } else {
            Err(ValidationErrors { fields })
        }
    }

    /// A copy of the configuration.
    pub fn duplicate(&self) -> (r: Self)
        ensures
            r == *self,
    {
        AuroraConfig {
            database: self.database.duplicate(),
            server: self.server.duplicate(),
            storage: self.storage.duplicate(),
            network: self.network.duplicate(),
            security: self.security.duplicate(),
            logging: self.logging.duplicate(),
            monitoring: self.monitoring.duplicate(),
            transaction: self.transaction.duplicate(),
            vector: self.vector.duplicate(),
            audit: self.audit.duplicate(),
        }
    }
}

impl Default for AuroraConfig {
    fn default() -> (r: Self)
        ensures
            r.is_default(),
    {
        AuroraConfig {
            database: DatabaseConfig::default(),
            server: ServerConfig::default(),
            storage: StorageConfig::default(),
            network: NetworkConfig::default(),
            security: SecurityConfig::default(),
            logging: LoggingConfig::default(),
            monitoring: MonitoringConfig::default(),
            transaction: TransactionConfig::default(),
            vector: VectorConfig::default(),
            audit: AuditConfig::default(),
        }
    }
}

impl DatabaseConfig {
    /// Whether every field holds its default value.
    pub open spec fn is_default(&self) -> bool {
        &&& self.max_connections == 1000
        &&& self.buffer_pool_size == 1073741824
        &&& self.max_tables == 65536
        &&& self.max_columns_per_table == 4096
        &&& self.default_isolation_level@ == "read_committed"@
        &&& self.transaction_timeout_ms == 300000
        &&& self.query_cache_size_mb == 512
        &&& self.enable_query_logging == true
        &&& self.enable_metrics == true
        &&& self.data_directory@ == "/var/lib/aurora/data"@
        &&& self.temp_directory@ == "/tmp/aurora"@
    }

    /// The names of the fields out of their allowed range, in field order;
    /// a nested field is named by its section, a dot and its own name.
    pub open spec fn failures(&self) -> Seq<Seq<char>> {
        flag(1 <= self.max_connections && self.max_connections <= 100000, "max_connections"@)
            + flag(1048576 <= self.buffer_pool_size, "buffer_pool_size"@)
            + flag(1 <= self.max_tables && self.max_tables <= 1000000, "max_tables"@)
            + flag(1 <= self.max_columns_per_table && self.max_columns_per_table <= 10000, "max_columns_per_table"@)
            + flag(1000 <= self.transaction_timeout_ms && self.transaction_timeout_ms <= 3600000, "transaction_timeout_ms"@)
            + flag(0 <= self.query_cache_size_mb && self.query_cache_size_mb <= 10000, "query_cache_size_mb"@)
    }

    /// The names of the fields out of their allowed range (see `failures`).
    pub fn collect_failures(&self) -> (r: Vec<String>)
        ensures
            views(r@) == self.failures(),
    {
        let mut out: Vec<String> = Vec::new();
        check(&mut out, 1 <= self.max_connections && self.max_connections <= 100000, "max_connections");
        assert(views(out@) =~= flag(1 <= self.max_connections && self.max_connections <= 100000, "max_connections"@));
        check(&mut out, 1048576 <= self.buffer_pool_size, "buffer_pool_size");
        check(&mut out, 1 <= self.max_tables && self.max_tables <= 1000000, "max_tables");
        check(&mut out, 1 <= self.max_columns_per_table && self.max_columns_per_table <= 10000, "max_columns_per_table");
        check(&mut out, 1000 <= self.transaction_timeout_ms && self.transaction_timeout_ms <= 3600000, "transaction_timeout_ms");
        check(&mut out, 0 <= self.query_cache_size_mb && self.query_cache_size_mb <= 10000, "query_cache_size_mb");
        out
    }

    /// Checks every field against its allowed range.
    pub fn validate(&self) -> (r: Result<(), ValidationErrors>)
        ensures
            r is Ok <==> self.failures().len() == 0,
            r matches Err(e) ==> views(e.fields@) == self.failures(),
    {
        let fields = self.collect_failures();
        if fields.len() == 0 {
            Ok(())
        } else {
            Err(ValidationErrors { fields })
        }
    }

    /// A copy of the configuration.
    pub fn duplicate(&self) -> (r: Self)
        ensures
            r == *self,
    {
        DatabaseConfig {
            max_connections: self.max_connections,
            buffer_pool_size: self.buffer_pool_size,
            max_tables: self.max_tables,
            max_columns_per_table: self.max_columns_per_table,
            default_isolation_level: self.default_isolation_level.clone(),
            transaction_timeout_ms: self.transaction_timeout_ms,
            query_cache_size_mb: self.query_cache_size_mb,
            enable_query_logging: self.enable_query_logging,
            enable_metrics: self.enable_metrics,
            data_directory: self.data_directory.clone(),
            temp_directory: self.temp_directory.clone(),
        }
    }
}

impl Default for DatabaseConfig {
    fn default() -> (r: Self)
        ensures
            r.is_default(),
    {
        DatabaseConfig {
            max_connections: 1000,
            buffer_pool_size: 1073741824,
            max_tables: 65536,
            max_columns_per_table: 4096,
            default_isolation_level: owned("read_committed"),
            transaction_timeout_ms: 300000,
            query_cache_size_mb: 512,
            enable_query_logging: true,
            enable_metrics: true,
            data_directory: owned("/var/lib/aurora/data"),
            temp_directory: owned("/tmp/aurora"),
        }
    }
}

impl ServerConfig {
    /// Whether every field holds its default value.
    pub open spec fn is_default(&self) -> bool {
        &&& self.postgresql_port == 5433
        &&& self.http_port == 8080
        &&& self.binary_port == 9090
        &&& self.bind_address@ == "0.0.0.0"@
        &&& self.hostname@ == "localhost"@
        &&& self.max_request_size_mb == 10
        &&& self.request_timeout_seconds == 30
        &&& self.enable_graceful_shutdown == true
        &&& self.shutdown_timeout_seconds == 30
    }

    /// The names of the fields out of their allowed range, in field order;
    /// a nested field is named by its section, a dot and its own name.
    pub open spec fn failures(&self) -> Seq<Seq<char>> {
        flag(1024 <= self.postgresql_port && self.postgresql_port <= 65535, "postgresql_port"@)
            + flag(1024 <= self.http_port && self.http_port <= 65535, "http_port"@)
            + flag(1024 <= self.binary_port && self.binary_port <= 65535, "binary_port"@)
            + flag(1 <= self.max_request_size_mb && self.max_request_size_mb <= 100, "max_request_size_mb"@)
            + flag(1 <= self.request_timeout_seconds && self.request_timeout_seconds <= 300, "request_timeout_seconds"@)
            + flag(1 <= self.shutdown_timeout_seconds && self.shutdown_timeout_seconds <= 300, "shutdown_timeout_seconds"@)
    }

    /// The names of the fields out of their allowed range (see `failures`).
    pub fn collect_failures(&self) -> (r: Vec<String>)
        ensures
            views(r@) == self.failures(),
    {
        let mut out: Vec<String> = Vec::new();
        check(&mut out, 1024 <= self.postgresql_port && self.postgresql_port <= 65535, "postgresql_port");
        assert(views(out@) =~= flag(1024 <= self.postgresql_port && self.postgresql_port <= 65535, "postgresql_port"@));
        check(&mut out, 1024 <= self.http_port && self.http_port <= 65535, "http_port");
        check(&mut out, 1024 <= self.binary_port && self.binary_port <= 65535, "binary_port");
        check(&mut out, 1 <= self.max_request_size_mb && self.max_request_size_mb <= 100, "max_request_size_mb");
        check(&mut out, 1 <= self.request_timeout_seconds && self.request_timeout_seconds <= 300, "request_timeout_seconds");
        check(&mut out, 1 <= self.shutdown_timeout_seconds && self.shutdown_timeout_seconds <= 300, "shutdown_timeout_seconds");
        out
    }

    /// Checks every field against its allowed range.
    pub fn validate(&self) -> (r: Result<(), ValidationErrors>)
        ensures
            r is Ok <==> self.failures().len() == 0,
            r matches Err(e) ==> views(e.fields@) == self.failures(),
    {
        let fields = self.collect_failures();
        if fields.len() == 0 {
            Ok(())
        } else {
            Err(ValidationErrors { fields })
        }
    }

    /// A copy of the configuration.
    pub fn duplicate(&self) -> (r: Self)
        ensures
            r == *self,
    {
        ServerConfig {
            postgresql_port: self.postgresql_port,
            http_port: self.http_port,
            binary_port: self.binary_port,
            bind_address: self.bind_address.clone(),
            hostname: self.hostname.clone(),
            max_request_size_mb: self.max_request_size_mb,
            request_timeout_seconds: self.request_timeout_seconds,
            enable_graceful_shutdown: self.enable_graceful_shutdown,
            shutdown_timeout_seconds: self.shutdown_timeout_seconds,
        }
    }
}

impl Default for ServerConfig {
    fn default() -> (r: Self)
        ensures
            r.is_default(),
    {
        ServerConfig {
            postgresql_port: 5433,
            http_port: 8080,
            binary_port: 9090,
            bind_address: owned("0.0.0.0"),
            hostname: owned("localhost"),
            max_request_size_mb: 10,
            request_timeout_seconds: 30,
            enable_graceful_shutdown: true,
            shutdown_timeout_seconds: 30,
        }
    }
}

impl StorageConfig {
    /// Whether every field holds its default value.
    pub open spec fn is_default(&self) -> bool {
        &&& self.selection_strategy@ == "workload_based"@
        &&& self.btree.is_default()
        &&& self.lsm.is_default()
        &&& self.hybrid.is_default()
        &&& self.wal.is_default()
        &&& self.compression.is_default()
    }

    /// The names of the fields out of their allowed range, in field order;
    /// a nested field is named by its section, a dot and its own name.
    pub open spec fn failures(&self) -> Seq<Seq<char>> {
        prefixed("btree."@, self.btree.failures())
            + prefixed("lsm."@, self.lsm.failures())
            + prefixed("hybrid."@, self.hybrid.failures())
            + prefixed("wal."@, self.wal.failures())
            + prefixed("compression."@, self.compression.failures())
    }

    /// The names of the fields out of their allowed range (see `failures`).
    pub fn collect_failures(&self) -> (r: Vec<String>)
        ensures
            views(r@) == self.failures(),
    {
        let mut out: Vec<String> = Vec::new();
        let btree_failures = self.btree.collect_failures();
        push_prefixed(&mut out, "btree.", &btree_failures);
        assert(views(out@) =~= prefixed("btree."@, self.btree.failures()));
        let lsm_failures = self.lsm.collect_failures();
        push_prefixed(&mut out, "lsm.", &lsm_failures);
        let hybrid_failures = self.hybrid.collect_failures();
        push_prefixed(&mut out, "hybrid.", &hybrid_failures);
        let wal_failures = self.wal.collect_failures();
        push_prefixed(&mut out, "wal.", &wal_failures);
        let compression_failures = self.compression.collect_failures();
        push_prefixed(&mut out, "compression.", &compression_failures);
        out
    }

    /// Checks every field against its allowed range.
    pub fn validate(&self) -> (r: Result<(), ValidationErrors>)
        ensures
            r is Ok <==> self.failures().len() == 0,
            r matches Err(e) ==> views(e.fields@) == self.failures(),
    {
        let fields = self.collect_failures();
        if fields.len() == 0 {
            Ok(())
        } else {
            Err(ValidationErrors { fields })
        }
    }

    /// A copy of the configuration.
    pub fn duplicate(&self) -> (r: Self)
        ensures
            r == *self,
    {
        StorageConfig {
            selection_strategy: self.selection_strategy.clone(),
            btree: self.btree.duplicate(),
            lsm: self.lsm.duplicate(),
            hybrid: self.hybrid.duplicate(),
            wal: self.wal.duplicate(),
            compression: self.compression.duplicate(),
        }
    }
}

impl Default for StorageConfig {
    fn default() -> (r: Self)
        ensures
            r.is_default(),
    {
        StorageConfig {
            selection_strategy: owned("workload_based"),
            btree: BTreeConfig::default(),
            lsm: LSMConfig::default(),
            hybrid: HybridConfig::default(),
            wal: WALConfig::default(),
            compression: CompressionConfig::default(),
        }
    }
}

impl BTreeConfig {
    /// Whether every field holds its default value.
    pub open spec fn is_default(&self) -> bool {
        &&& self.page_size_kb == 8
        &&& self.max_table_size_mb == 10240
        &&& self.cache_size_mb == 2048
        &&& self.max_concurrent_transactions == 100
    }

    /// The names of the fields out of their allowed range, in field order;
    /// a nested field is named by its section, a dot and its own name.
    pub open spec fn failures(&self) -> Seq<Seq<char>> {
        flag(1 <= self.page_size_kb && self.page_size_kb <= 64, "page_size_kb"@)
            + flag(1 <= self.max_table_size_mb && self.max_table_size_mb <= 1000000, "max_table_size_mb"@)
            + flag(1 <= self.cache_size_mb && self.cache_size_mb <= 100000, "cache_size_mb"@)
            + flag(1 <= self.max_concurrent_transactions && self.max_concurrent_transactions <= 10000, "max_concurrent_transactions"@)
    }

    /// The names of the fields out of their allowed range (see `failures`).
    pub fn collect_failures(&self) -> (r: Vec<String>)
        ensures
            views(r@) == self.failures(),
    {
        let mut out: Vec<String> = Vec::new();
        check(&mut out, 1 <= self.page_size_kb && self.page_size_kb <= 64, "page_size_kb");
        assert(views(out@) =~= flag(1 <= self.page_size_kb && self.page_size_kb <= 64, "page_size_kb"@));
        check(&mut out, 1 <= self.max_table_size_mb && self.max_table_size_mb <= 1000000, "max_table_size_mb");
        check(&mut out, 1 <= self.cache_size_mb && self.cache_size_mb <= 100000, "cache_size_mb");
        check(&mut out, 1 <= self.max_concurrent_transactions && self.max_concurrent_transactions <= 10000, "max_concurrent_transactions");
        out
    }

    /// Checks every field against its allowed range.
    pub fn validate(&self) -> (r: Result<(), ValidationErrors>)
        ensures
            r is Ok <==> self.failures().len() == 0,
            r matches Err(e) ==> views(e.fields@) == self.failures(),
    {
        let fields = self.collect_failures();
        if fields.len() == 0 {
            Ok(())
        } else {
            Err(ValidationErrors { fields })
        }
    }

    /// A copy of the configuration.
    pub fn duplicate(&self) -> (r: Self)
        ensures
            r == *self,
    {
        BTreeConfig {
            page_size_kb: self.page_size_kb,
            max_table_size_mb: self.max_table_size_mb,
            cache_size_mb: self.cache_size_mb,
            max_concurrent_transactions: self.max_concurrent_transactions,
        }
    }
}

impl Default for BTreeConfig {
    fn default() -> (r: Self)
        ensures
            r.is_default(),
    {
        BTreeConfig {
            page_size_kb: 8,
            max_table_size_mb: 10240,
            cache_size_mb: 2048,
            max_concurrent_transactions: 100,
        }
    }
}

impl LSMConfig {
    /// Whether every field holds its default value.
    pub open spec fn is_default(&self) -> bool {
        &&& self.memtable_size_mb == 64
        &&& self.sstable_size_mb == 256
        &&& self.compaction_threads == 4
        &&& self.bloom_filter_bits == 10
    }

    /// The names of the fields out of their allowed range, in field order;
    /// a nested field is named by its section, a dot and its own name.
    pub open spec fn failures(&self) -> Seq<Seq<char>> {
        flag(1 <= self.memtable_size_mb && self.memtable_size_mb <= 1000, "memtable_size_mb"@)
            + flag(1 <= self.sstable_size_mb && self.sstable_size_mb <= 10000, "sstable_size_mb"@)
            + flag(1 <= self.compaction_threads && self.compaction_threads <= 32, "compaction_threads"@)
            + flag(1 <= self.bloom_filter_bits && self.bloom_filter_bits <= 20, "bloom_filter_bits"@)
    }

    /// The names of the fields out of their allowed range (see `failures`).
    pub fn collect_failures(&self) -> (r: Vec<String>)
        ensures
            views(r@) == self.failures(),
    {
        let mut out: Vec<String> = Vec::new();
        check(&mut out, 1 <= self.memtable_size_mb && self.memtable_size_mb <= 1000, "memtable_size_mb");
        assert(views(out@) =~= flag(1 <= self.memtable_size_mb && self.memtable_size_mb <= 1000, "memtable_size_mb"@));
        check(&mut out, 1 <= self.sstable_size_mb && self.sstable_size_mb <= 10000, "sstable_size_mb");
        check(&mut out, 1 <= self.compaction_threads && self.compaction_threads <= 32, "compaction_threads");
        check(&mut out, 1 <= self.bloom_filter_bits && self.bloom_filter_bits <= 20, "bloom_filter_bits");
        out
    }

    /// Checks every field against its allowed range.
    pub fn validate(&self) -> (r: Result<(), ValidationErrors>)
        ensures
            r is Ok <==> self.failures().len() == 0,
            r matches Err(e) ==> views(e.fields@) == self.failures(),
    {
        let fields = self.collect_failures();
        if fields.len() == 0 {
            Ok(())
        } else {
            Err(ValidationErrors { fields })
        }
    }

    /// A copy of the configuration.
    pub fn duplicate(&self) -> (r: Self)
        ensures
            r == *self,
    {
        LSMConfig {
            memtable_size_mb: self.memtable_size_mb,
            sstable_size_mb: self.sstable_size_mb,
            compaction_threads: self.compaction_threads,
            bloom_filter_bits: self.bloom_filter_bits,
        }
    }
}

impl Default for LSMConfig {
    fn default() -> (r: Self)
        ensures
            r.is_default(),
    {
        LSMConfig {
            memtable_size_mb: 64,
            sstable_size_mb: 256,
            compaction_threads: 4,
            bloom_filter_bits: 10,
        }
    }
}

impl HybridConfig {
    /// Whether every field holds its default value.
    pub open spec fn is_default(&self) -> bool {
        &&& self.adaptive_threshold == 10000
        &&& self.vector_threshold == 100
    }

    /// The names of the fields out of their allowed range, in field order;
    /// a nested field is named by its section, a dot and its own name.
    pub open spec fn failures(&self) -> Seq<Seq<char>> {
        flag(1000 <= self.adaptive_threshold && self.adaptive_threshold <= 10000000, "adaptive_threshold"@)
            + flag(0 <= self.vector_threshold && self.vector_threshold <= 1000, "vector_threshold"@)
    }

    /// The names of the fields out of their allowed range (see `failures`).
    pub fn collect_failures(&self) -> (r: Vec<String>)
        ensures
            views(r@) == self.failures(),
    {
        let mut out: Vec<String> = Vec::new();
        check(&mut out, 1000 <= self.adaptive_threshold && self.adaptive_threshold <= 10000000, "adaptive_threshold");
        assert(views(out@) =~= flag(1000 <= self.adaptive_threshold && self.adaptive_threshold <= 10000000, "adaptive_threshold"@));
        check(&mut out, 0 <= self.vector_threshold && self.vector_threshold <= 1000, "vector_threshold");
        out
    }

    /// Checks every field against its allowed range.
    pub fn validate(&self) -> (r: Result<(), ValidationErrors>)
        ensures
            r is Ok <==> self.failures().len() == 0,
            r matches Err(e) ==> views(e.fields@) == self.failures(),
    {
        let fields = self.collect_failures();
        if fields.len() == 0 {
            Ok(())
        } else {
            Err(ValidationErrors { fields })
        }
    }

    /// A copy of the configuration.
    pub fn duplicate(&self) -> (r: Self)
        ensures
            r == *self,
    {
        HybridConfig {
            adaptive_threshold: self.adaptive_threshold,
            vector_threshold: self.vector_threshold,
        }
    }
}

impl Default for HybridConfig {
    fn default() -> (r: Self)
        ensures
            r.is_default(),
    {
        HybridConfig {
            adaptive_threshold: 10000,
            vector_threshold: 100,
        }
    }
}

impl WALConfig {
    /// Whether every field holds its default value.
    pub open spec fn is_default(&self) -> bool {
        &&& self.directory@ == "/var/lib/aurora/wal"@
        &&& self.segment_size_mb == 64
        &&& self.max_segments == 100
        &&& self.sync_strategy@ == "fsync"@
        &&& self.flush_interval_ms == 1000
    }

    /// The names of the fields out of their allowed range, in field order;
    /// a nested field is named by its section, a dot and its own name.
    pub open spec fn failures(&self) -> Seq<Seq<char>> {
        flag(1 <= self.segment_size_mb && self.segment_size_mb <= 1000, "segment_size_mb"@)
            + flag(1 <= self.max_segments && self.max_segments <= 1000, "max_segments"@)
            + flag(1 <= self.flush_interval_ms && self.flush_interval_ms <= 10000, "flush_interval_ms"@)
    }

    /// The names of the fields out of their allowed range (see `failures`).
    pub fn collect_failures(&self) -> (r: Vec<String>)
        ensures
            views(r@) == self.failures(),
    {
        let mut out: Vec<String> = Vec::new();
        check(&mut out, 1 <= self.segment_size_mb && self.segment_size_mb <= 1000, "segment_size_mb");
        assert(views(out@) =~= flag(1 <= self.segment_size_mb && self.segment_size_mb <= 1000, "segment_size_mb"@));
        check(&mut out, 1 <= self.max_segments && self.max_segments <= 1000, "max_segments");
        check(&mut out, 1 <= self.flush_interval_ms && self.flush_interval_ms <= 10000, "flush_interval_ms");
        out
    }

    /// Checks every field against its allowed range.
    pub fn validate(&self) -> (r: Result<(), ValidationErrors>)
        ensures
            r is Ok <==> self.failures().len() == 0,
            r matches Err(e) ==> views(e.fields@) == self.failures(),
    {
        let fields = self.collect_failures();
        if fields.len() == 0 {
            Ok(())
        } else {
            Err(ValidationErrors { fields })
        }
    }

    /// A copy of the configuration.
    pub fn duplicate(&self) -> (r: Self)
        ensures
            r == *self,
    {
        WALConfig {
            directory: self.directory.clone(),
            segment_size_mb: self.segment_size_mb,
            max_segments: self.max_segments,
            sync_strategy: self.sync_strategy.clone(),
            flush_interval_ms: self.flush_interval_ms,
        }
    }
}

impl Default for WALConfig {
    fn default() -> (r: Self)
        ensures
            r.is_default(),
    {
        WALConfig {
            directory: owned("/var/lib/aurora/wal"),
            segment_size_mb: 64,
            max_segments: 100,
            sync_strategy: owned("fsync"),
            flush_interval_ms: 1000,
        }
    }
}

impl CompressionConfig {
    /// Whether every field holds its default value.
    pub open spec fn is_default(&self) -> bool {
        &&& self.algorithm@ == "lz4"@
        &&& self.level == 1
        &&& self.min_block_size == 65536
    }

    /// The names of the fields out of their allowed range, in field order;
    /// a nested field is named by its section, a dot and its own name.
    pub open spec fn failures(&self) -> Seq<Seq<char>> {
        flag(1 <= self.level && self.level <= 9, "level"@)
            + flag(1024 <= self.min_block_size && self.min_block_size <= 1048576, "min_block_size"@)
    }

    /// The names of the fields out of their allowed range (see `failures`).
    pub fn collect_failures(&self) -> (r: Vec<String>)
        ensures
            views(r@) == self.failures(),
    {
        let mut out: Vec<String> = Vec::new();
        check(&mut out, 1 <= self.level && self.level <= 9, "level");
        assert(views(out@) =~= flag(1 <= self.level && self.level <= 9, "level"@));
        check(&mut out, 1024 <= self.min_block_size && self.min_block_size <= 1048576, "min_block_size");
        out
    }

    /// Checks every field against its allowed range.
    pub fn validate(&self) -> (r: Result<(), ValidationErrors>)
        ensures
            r is Ok <==> self.failures().len() == 0,
            r matches Err(e) ==> views(e.fields@) == self.failures(),
    {
        let fields = self.collect_failures();
        if fields.len() == 0 {
            Ok(())
        } else {
            Err(ValidationErrors { fields })
        }
    }

    /// A copy of the configuration.
    pub fn duplicate(&self) -> (r: Self)
        ensures
            r == *self,
    {
        CompressionConfig {
            algorithm: self.algorithm.clone(),
            level: self.level,
            min_block_size: self.min_block_size,
        }
    }
}

impl Default for CompressionConfig {
    fn default() -> (r: Self)
        ensures
            r.is_default(),
    {
        CompressionConfig {
            algorithm: owned("lz4"),
            level: 1,
            min_block_size: 65536,
        }
    }
}

impl NetworkConfig {
    /// Whether every field holds its default value.
    pub open spec fn is_default(&self) -> bool {
        &&& self.connection_pool.is_default()
        &&& self.tls.is_default()
        &&& self.load_balancer.is_default()
    }

    /// The names of the fields out of their allowed range, in field order;
    /// a nested field is named by its section, a dot and its own name.
    pub open spec fn failures(&self) -> Seq<Seq<char>> {
        prefixed("connection_pool."@, self.connection_pool.failures())
            + prefixed("tls."@, self.tls.failures())
            + prefixed("load_balancer."@, self.load_balancer.failures())
    }

    /// The names of the fields out of their allowed range (see `failures`).
    pub fn collect_failures(&self) -> (r: Vec<String>)
        ensures
            views(r@) == self.failures(),
    {
        let mut out: Vec<String> = Vec::new();
        let connection_pool_failures = self.connection_pool.collect_failures();
        push_prefixed(&mut out, "connection_pool.", &connection_pool_failures);
        assert(views(out@) =~= prefixed("connection_pool."@, self.connection_pool.failures()));
        let tls_failures = self.tls.collect_failures();
        push_prefixed(&mut out, "tls.", &tls_failures);
        let load_balancer_failures = self.load_balancer.collect_failures();
        push_prefixed(&mut out, "load_balancer.", &load_balancer_failures);
        out
    }

    /// Checks every field against its allowed range.
    pub fn validate(&self) -> (r: Result<(), ValidationErrors>)
        ensures
            r is Ok <==> self.failures().len() == 0,
            r matches Err(e) ==> views(e.fields@) == self.failures(),
    {
        let fields = self.collect_failures();
        if fields.len() == 0 {
            Ok(())
        } else {
            Err(ValidationErrors { fields })
        }
    }

    /// A copy of the configuration.
    pub fn duplicate(&self) -> (r: Self)
        ensures
            r == *self,
    {
        NetworkConfig {
            connection_pool: self.connection_pool.duplicate(),
            tls: self.tls.duplicate(),
            load_balancer: self.load_balancer.duplicate(),
        }
    }
}

impl Default for NetworkConfig {
    fn default() -> (r: Self)
        ensures
            r.is_default(),
    {
        NetworkConfig {
            connection_pool: ConnectionPoolConfig::default(),
            tls: TLSConfig::default(),
            load_balancer: LoadBalancerConfig::default(),
        }
    }
}

impl ConnectionPoolConfig {
    /// Whether every field holds its default value.
    pub open spec fn is_default(&self) -> bool {
        &&& self.max_connections == 1000
        &&& self.min_idle == 10
        &&& self.max_idle_time_seconds == 300
        &&& self.connection_timeout_seconds == 30
        &&& self.health_check_interval_seconds == 60
    }

    /// The names of the fields out of their allowed range, in field order;
    /// a nested field is named by its section, a dot and its own name.
    pub open spec fn failures(&self) -> Seq<Seq<char>> {
        flag(1 <= self.max_connections && self.max_connections <= 10000, "max_connections"@)
            + flag(0 <= self.min_idle && self.min_idle <= 1000, "min_idle"@)
            + flag(1 <= self.max_idle_time_seconds && self.max_idle_time_seconds <= 3600, "max_idle_time_seconds"@)
            + flag(1 <= self.connection_timeout_seconds && self.connection_timeout_seconds <= 300, "connection_timeout_seconds"@)
            + flag(1 <= self.health_check_interval_seconds && self.health_check_interval_seconds <= 300, "health_check_interval_seconds"@)
    }

    /// The names of the fields out of their allowed range (see `failures`).
    pub fn collect_failures(&self) -> (r: Vec<String>)
        ensures
            views(r@) == self.failures(),
    {
        let mut out: Vec<String> = Vec::new();
        check(&mut out, 1 <= self.max_connections && self.max_connections <= 10000, "max_connections");
        assert(views(out@) =~= flag(1 <= self.max_connections && self.max_connections <= 10000, "max_connections"@));
        check(&mut out, 0 <= self.min_idle && self.min_idle <= 1000, "min_idle");
        check(&mut out, 1 <= self.max_idle_time_seconds && self.max_idle_time_seconds <= 3600, "max_idle_time_seconds");
        check(&mut out, 1 <= self.connection_timeout_seconds && self.connection_timeout_seconds <= 300, "connection_timeout_seconds");
        check(&mut out, 1 <= self.health_check_interval_seconds && self.health_check_interval_seconds <= 300, "health_check_interval_seconds");
        out
    }

    /// Checks every field against its allowed range.
    pub fn validate(&self) -> (r: Result<(), ValidationErrors>)
        ensures
            r is Ok <==> self.failures().len() == 0,
            r matches Err(e) ==> views(e.fields@) == self.failures(),
    {
        let fields = self.collect_failures();
        if fields.len() == 0 {
            Ok(())
        } else {
            Err(ValidationErrors { fields })
        }
    }

    /// A copy of the configuration.
    pub fn duplicate(&self) -> (r: Self)
        ensures
            r == *self,
    {
        ConnectionPoolConfig {
            max_connections: self.max_connections,
            min_idle: self.min_idle,
            max_idle_time_seconds: self.max_idle_time_seconds,
            connection_timeout_seconds: self.connection_timeout_seconds,
            health_check_interval_seconds: self.health_check_interval_seconds,
        }
    }
}

impl Default for ConnectionPoolConfig {
    fn default() -> (r: Self)
        ensures
            r.is_default(),
    {
        ConnectionPoolConfig {
            max_connections: 1000,
            min_idle: 10,
            max_idle_time_seconds: 300,
            connection_timeout_seconds: 30,
            health_check_interval_seconds: 60,
        }
    }
}

impl TLSConfig {
    /// Whether every field holds its default value.
    pub open spec fn is_default(&self) -> bool {
        &&& self.enabled == false
        &&& self.cert_file is None
        &&& self.key_file is None
        &&& self.ca_file is None
        &&& self.min_version@ == "TLS1.2"@
        &&& self.mutual_auth == false
    }

    /// The names of the fields out of their allowed range, in field order;
    /// a nested field is named by its section, a dot and its own name.
    pub open spec fn failures(&self) -> Seq<Seq<char>> {
        Seq::empty()
    }

    /// The names of the fields out of their allowed range (see `failures`).
    pub fn collect_failures(&self) -> (r: Vec<String>)
        ensures
            views(r@) == self.failures(),
    {
        let mut out: Vec<String> = Vec::new();
        assert(views(out@) =~= Seq::<Seq<char>>::empty());
        out
    }

    /// Checks every field against its allowed range.
    pub fn validate(&self) -> (r: Result<(), ValidationErrors>)
        ensures
            r is Ok <==> self.failures().len() == 0,
            r matches Err(e) ==> views(e.fields@) == self.failures(),
    {
        let fields = self.collect_failures();
        if fields.len() == 0 {
            Ok(())
        } else {
            Err(ValidationErrors { fields })
        }
    }

    /// A copy of the configuration.
    pub fn duplicate(&self) -> (r: Self)
        ensures
            r == *self,
    {
        TLSConfig {
            enabled: self.enabled,
            cert_file: copy_opt_string(&self.cert_file),
            key_file: copy_opt_string(&self.key_file),
            ca_file: copy_opt_string(&self.ca_file),
            min_version: self.min_version.clone(),
            mutual_auth: self.mutual_auth,
        }
    }
}

impl Default for TLSConfig {
    fn default() -> (r: Self)
        ensures
            r.is_default(),
    {
        TLSConfig {
            enabled: false,
            cert_file: None,
            key_file: None,
            ca_file: None,
            min_version: owned("TLS1.2"),
            mutual_auth: false,
        }
    }
}

impl LoadBalancerConfig {
    /// Whether every field holds its default value.
    pub open spec fn is_default(&self) -> bool {
        &&& self.enabled == false
        &&& self.algorithm@ == "round_robin"@
        &&& self.health_check_interval_seconds == 30
        &&& self.failover_timeout_seconds == 30
    }

    /// The names of the fields out of their allowed range, in field order;
    /// a nested field is named by its section, a dot and its own name.
    pub open spec fn failures(&self) -> Seq<Seq<char>> {
        flag(1 <= self.health_check_interval_seconds && self.health_check_interval_seconds <= 300, "health_check_interval_seconds"@)
            + flag(1 <= self.failover_timeout_seconds && self.failover_timeout_seconds <= 300, "failover_timeout_seconds"@)
    }

    /// The names of the fields out of their allowed range (see `failures`).
    pub fn collect_failures(&self) -> (r: Vec<String>)
        ensures
            views(r@) == self.failures(),
    {
        let mut out: Vec<String> = Vec::new();
        check(&mut out, 1 <= self.health_check_interval_seconds && self.health_check_interval_seconds <= 300, "health_check_interval_seconds");
        assert(views(out@) =~= flag(1 <= self.health_check_interval_seconds && self.health_check_interval_seconds <= 300, "health_check_interval_seconds"@));
        check(&mut out, 1 <= self.failover_timeout_seconds && self.failover_timeout_seconds <= 300, "failover_timeout_seconds");
        out
    }

    /// Checks every field against its allowed range.
    pub fn validate(&self) -> (r: Result<(), ValidationErrors>)
        ensures
            r is Ok <==> self.failures().len() == 0,
            r matches Err(e) ==> views(e.fields@) == self.failures(),
    {
        let fields = self.collect_failures();
        if fields.len() == 0 {
            Ok(())
        } else {
            Err(ValidationErrors { fields })
        }
    }

    /// A copy of the configuration.
    pub fn duplicate(&self) -> (r: Self)
        ensures
            r == *self,
    {
        LoadBalancerConfig {
            enabled: self.enabled,
            algorithm: self.algorithm.clone(),
            health_check_interval_seconds: self.health_check_interval_seconds,
            failover_timeout_seconds: self.failover_timeout_seconds,
        }
    }
}

impl Default for LoadBalancerConfig {
    fn default() -> (r: Self)
        ensures
            r.is_default(),
    {
        LoadBalancerConfig {
            enabled: false,
            algorithm: owned("round_robin"),
            health_check_interval_seconds: 30,
            failover_timeout_seconds: 30,
        }
    }
}

impl SecurityConfig {
    /// Whether every field holds its default value.
    pub open spec fn is_default(&self) -> bool {
        &&& self.enable_authentication == true
        &&& self.enable_authorization == true
        &&& self.password_min_length == 8
        &&& self.session_timeout_minutes == 60
        &&& self.enable_row_level_security == false
        &&& self.encryption_at_rest == false
        &&& self.encryption_key_file is None
    }

    /// The names of the fields out of their allowed range, in field order;
    /// a nested field is named by its section, a dot and its own name.
    pub open spec fn failures(&self) -> Seq<Seq<char>> {
        flag(8 <= self.password_min_length && self.password_min_length <= 128, "password_min_length"@)
            + flag(1 <= self.session_timeout_minutes && self.session_timeout_minutes <= 1440, "session_timeout_minutes"@)
    }

    /// The names of the fields out of their allowed range (see `failures`).
    pub fn collect_failures(&self) -> (r: Vec<String>)
        ensures
            views(r@) == self.failures(),
    {
        let mut out: Vec<String> = Vec::new();
        check(&mut out, 8 <= self.password_min_length && self.password_min_length <= 128, "password_min_length");
        assert(views(out@) =~= flag(8 <= self.password_min_length && self.password_min_length <= 128, "password_min_length"@));
        check(&mut out, 1 <= self.session_timeout_minutes && self.session_timeout_minutes <= 1440, "session_timeout_minutes");
        out
    }

    /// Checks every field against its allowed range.
    pub fn validate(&self) -> (r: Result<(), ValidationErrors>)
        ensures
            r is Ok <==> self.failures().len() == 0,
            r matches Err(e) ==> views(e.fields@) == self.failures(),
    {
        let fields = self.collect_failures();
        if fields.len() == 0 {
            Ok(())
        } else {
            Err(ValidationErrors { fields })
        }
    }

    /// A copy of the configuration.
    pub fn duplicate(&self) -> (r: Self)
        ensures
            r == *self,
    {
        SecurityConfig {
            enable_authentication: self.enable_authentication,
            enable_authorization: self.enable_authorization,
            password_min_length: self.password_min_length,
            session_timeout_minutes: self.session_timeout_minutes,
            enable_row_level_security: self.enable_row_level_security,
            encryption_at_rest: self.encryption_at_rest,
            encryption_key_file: copy_opt_string(&self.encryption_key_file),
        }
    }
}

impl Default for SecurityConfig {
    fn default() -> (r: Self)
        ensures
            r.is_default(),
    {
        SecurityConfig {
            enable_authentication: true,
            enable_authorization: true,
            password_min_length: 8,
            session_timeout_minutes: 60,
            enable_row_level_security: false,
            encryption_at_rest: false,
            encryption_key_file: None,
        }
    }
}

impl LoggingConfig {
    /// Whether every field holds its default value.
    pub open spec fn is_default(&self) -> bool {
        &&& self.level@ == "info"@
        &&& self.format@ == "json"@
        &&& self.file matches Some(s) && s@ == "/var/log/aurora/aurora.log"@
        &&& self.max_size_mb == 100
        &&& self.max_files == 10
        &&& self.compress_rotated == true
        &&& self.slow_query_threshold_ms == 1000
    }

    /// The names of the fields out of their allowed range, in field order;
    /// a nested field is named by its section, a dot and its own name.
    pub open spec fn failures(&self) -> Seq<Seq<char>> {
        flag(1 <= self.max_size_mb && self.max_size_mb <= 1000, "max_size_mb"@)
            + flag(1 <= self.max_files && self.max_files <= 100, "max_files"@)
            + flag(0 <= self.slow_query_threshold_ms && self.slow_query_threshold_ms <= 60000, "slow_query_threshold_ms"@)
    }

    /// The names of the fields out of their allowed range (see `failures`).
    pub fn collect_failures(&self) -> (r: Vec<String>)
        ensures
            views(r@) == self.failures(),
    {
        let mut out: Vec<String> = Vec::new();
        check(&mut out, 1 <= self.max_size_mb && self.max_size_mb <= 1000, "max_size_mb");
        assert(views(out@) =~= flag(1 <= self.max_size_mb && self.max_size_mb <= 1000, "max_size_mb"@));
        check(&mut out, 1 <= self.max_files && self.max_files <= 100, "max_files");
        check(&mut out, 0 <= self.slow_query_threshold_ms && self.slow_query_threshold_ms <= 60000, "slow_query_threshold_ms");
        out
    }

    /// Checks every field against its allowed range.
    pub fn validate(&self) -> (r: Result<(), ValidationErrors>)
        ensures
            r is Ok <==> self.failures().len() == 0,
            r matches Err(e) ==> views(e.fields@) == self.failures(),
    {
        let fields = self.collect_failures();
        if fields.len() == 0 {
            Ok(())
        } else {
            Err(ValidationErrors { fields })
        }
    }

    /// A copy of the configuration.
    pub fn duplicate(&self) -> (r: Self)
        ensures
            r == *self,
    {
        LoggingConfig {
            level: self.level.clone(),
            format: self.format.clone(),
            file: copy_opt_string(&self.file),
            max_size_mb: self.max_size_mb,
            max_files: self.max_files,
            compress_rotated: self.compress_rotated,
            slow_query_threshold_ms: self.slow_query_threshold_ms,
        }
    }
}

impl Default for LoggingConfig {
    fn default() -> (r: Self)
        ensures
            r.is_default(),
    {
        LoggingConfig {
            level: owned("info"),
            format: owned("json"),
            file: Some(owned("/var/log/aurora/aurora.log")),
            max_size_mb: 100,
            max_files: 10,
            compress_rotated: true,
            slow_query_threshold_ms: 1000,
        }
    }
}

impl MonitoringConfig {
    /// Whether every field holds its default value.
    pub open spec fn is_default(&self) -> bool {
        &&& self.enable_prometheus == true
        &&& self.prometheus_port == 9091
        &&& self.collection_interval_seconds == 15
        &&& self.enable_health_checks == true
        &&& self.health_check_port == 8081
        &&& self.alert_thresholds.is_default()
    }

    /// The names of the fields out of their allowed range, in field order;
    /// a nested field is named by its section, a dot and its own name.
    pub open spec fn failures(&self) -> Seq<Seq<char>> {
        flag(1024 <= self.prometheus_port && self.prometheus_port <= 65535, "prometheus_port"@)
            + flag(1 <= self.collection_interval_seconds && self.collection_interval_seconds <= 300, "collection_interval_seconds"@)
            + flag(1024 <= self.health_check_port && self.health_check_port <= 65535, "health_check_port"@)
            + prefixed("alert_thresholds."@, self.alert_thresholds.failures())
    }

    /// The names of the fields out of their allowed range (see `failures`).
    pub fn collect_failures(&self) -> (r: Vec<String>)
        ensures
            views(r@) == self.failures(),
    {
        let mut out: Vec<String> = Vec::new();
        check(&mut out, 1024 <= self.prometheus_port && self.prometheus_port <= 65535, "prometheus_port");
        assert(views(out@) =~= flag(1024 <= self.prometheus_port && self.prometheus_port <= 65535, "prometheus_port"@));
        check(&mut out, 1 <= self.collection_interval_seconds && self.collection_interval_seconds <= 300, "collection_interval_seconds");
        check(&mut out, 1024 <= self.health_check_port && self.health_check_port <= 65535, "health_check_port");
        let alert_thresholds_failures = self.alert_thresholds.collect_failures();
        push_prefixed(&mut out, "alert_thresholds.", &alert_thresholds_failures);
        out
    }

    /// Checks every field against its allowed range.
    pub fn validate(&self) -> (r: Result<(), ValidationErrors>)
        ensures
            r is Ok <==> self.failures().len() == 0,
            r matches Err(e) ==> views(e.fields@) == self.failures(),
    {
        let fields = self.collect_failures();
        if fields.len() == 0 {
            Ok(())
        } else {
            Err(ValidationErrors { fields })
        }
    }

    /// A copy of the configuration.
    pub fn duplicate(&self) -> (r: Self)
        ensures
            r == *self,
    {
        MonitoringConfig {
            enable_prometheus: self.enable_prometheus,
            prometheus_port: self.prometheus_port,
            collection_interval_seconds: self.collection_interval_seconds,
            enable_health_checks: self.enable_health_checks,
            health_check_port: self.health_check_port,
            alert_thresholds: self.alert_thresholds.duplicate(),
        }
    }
}

impl Default for MonitoringConfig {
    fn default() -> (r: Self)
        ensures
            r.is_default(),
    {
        MonitoringConfig {
            enable_prometheus: true,
            prometheus_port: 9091,
            collection_interval_seconds: 15,
            enable_health_checks: true,
            health_check_port: 8081,
            alert_thresholds: AlertThresholds::default(),
        }
    }
}

impl AlertThresholds {
    /// Whether every field holds its default value.
    pub open spec fn is_default(&self) -> bool {
        &&& self.cpu_high_threshold == 80
        &&& self.memory_high_threshold == 85
        &&& self.disk_high_threshold == 90
        &&& self.connection_pool_high_threshold == 95
        &&& self.slow_query_threshold_ms == 5000
    }

    /// The names of the fields out of their allowed range, in field order;
    /// a nested field is named by its section, a dot and its own name.
    pub open spec fn failures(&self) -> Seq<Seq<char>> {
        flag(1 <= self.cpu_high_threshold && self.cpu_high_threshold <= 100, "cpu_high_threshold"@)
            + flag(1 <= self.memory_high_threshold && self.memory_high_threshold <= 100, "memory_high_threshold"@)
            + flag(1 <= self.disk_high_threshold && self.disk_high_threshold <= 100, "disk_high_threshold"@)
            + flag(1 <= self.connection_pool_high_threshold && self.connection_pool_high_threshold <= 100, "connection_pool_high_threshold"@)
            + flag(100 <= self.slow_query_threshold_ms && self.slow_query_threshold_ms <= 60000, "slow_query_threshold_ms"@)
    }

    /// The names of the fields out of their allowed range (see `failures`).
    pub fn collect_failures(&self) -> (r: Vec<String>)
        ensures
            views(r@) == self.failures(),
    {
        let mut out: Vec<String> = Vec::new();
        check(&mut out, 1 <= self.cpu_high_threshold && self.cpu_high_threshold <= 100, "cpu_high_threshold");
        assert(views(out@) =~= flag(1 <= self.cpu_high_threshold && self.cpu_high_threshold <= 100, "cpu_high_threshold"@));
        check(&mut out, 1 <= self.memory_high_threshold && self.memory_high_threshold <= 100, "memory_high_threshold");
        check(&mut out, 1 <= self.disk_high_threshold && self.disk_high_threshold <= 100, "disk_high_threshold");
        check(&mut out, 1 <= self.connection_pool_high_threshold && self.connection_pool_high_threshold <= 100, "connection_pool_high_threshold");
        check(&mut out, 100 <= self.slow_query_threshold_ms && self.slow_query_threshold_ms <= 60000, "slow_query_threshold_ms");
        out
    }

    /// Checks every field against its allowed range.
    pub fn validate(&self) -> (r: Result<(), ValidationErrors>)
        ensures
            r is Ok <==> self.failures().len() == 0,
            r matches Err(e) ==> views(e.fields@) == self.failures(),
    {
        let fields = self.collect_failures();
        if fields.len() == 0 {
            Ok(())
        } else {
            Err(ValidationErrors { fields })
        }
    }

    /// A copy of the configuration.
    pub fn duplicate(&self) -> (r: Self)
        ensures
            r == *self,
    {
        AlertThresholds {
            cpu_high_threshold: self.cpu_high_threshold,
            memory_high_threshold: self.memory_high_threshold,
            disk_high_threshold: self.disk_high_threshold,
            connection_pool_high_threshold: self.connection_pool_high_threshold,
            slow_query_threshold_ms: self.slow_query_threshold_ms,
        }
    }
}

impl Default for AlertThresholds {
    fn default() -> (r: Self)
        ensures
            r.is_default(),
    {
        AlertThresholds {
            cpu_high_threshold: 80,
            memory_high_threshold: 85,
            disk_high_threshold: 90,
            connection_pool_high_threshold: 95,
            slow_query_threshold_ms: 5000,
        }
    }
}

impl TransactionConfig {
    /// Whether every field holds its default value.
    pub open spec fn is_default(&self) -> bool {
        &&& self.max_concurrent_transactions == 100
        &&& self.deadlock_detection_interval_ms == 100
        &&& self.transaction_timeout_ms == 300000
        &&& self.isolation_level@ == "read_committed"@
        &&& self.enable_distributed_transactions == false
        &&& self.log_directory@ == "/var/lib/aurora/tx_logs"@
    }

    /// The names of the fields out of their allowed range, in field order;
    /// a nested field is named by its section, a dot and its own name.
    pub open spec fn failures(&self) -> Seq<Seq<char>> {
        flag(1 <= self.max_concurrent_transactions && self.max_concurrent_transactions <= 10000, "max_concurrent_transactions"@)
            + flag(10 <= self.deadlock_detection_interval_ms && self.deadlock_detection_interval_ms <= 10000, "deadlock_detection_interval_ms"@)
            + flag(1000 <= self.transaction_timeout_ms && self.transaction_timeout_ms <= 3600000, "transaction_timeout_ms"@)
    }

    /// The names of the fields out of their allowed range (see `failures`).
    pub fn collect_failures(&self) -> (r: Vec<String>)
        ensures
            views(r@) == self.failures(),
    {
        let mut out: Vec<String> = Vec::new();
        check(&mut out, 1 <= self.max_concurrent_transactions && self.max_concurrent_transactions <= 10000, "max_concurrent_transactions");
        assert(views(out@) =~= flag(1 <= self.max_concurrent_transactions && self.max_concurrent_transactions <= 10000, "max_concurrent_transactions"@));
        check(&mut out, 10 <= self.deadlock_detection_interval_ms && self.deadlock_detection_interval_ms <= 10000, "deadlock_detection_interval_ms");
        check(&mut out, 1000 <= self.transaction_timeout_ms && self.transaction_timeout_ms <= 3600000, "transaction_timeout_ms");
        out
    }

    /// Checks every field against its allowed range.
    pub fn validate(&self) -> (r: Result<(), ValidationErrors>)
        ensures
            r is Ok <==> self.failures().len() == 0,
            r matches Err(e) ==> views(e.fields@) == self.failures(),
    {
        let fields = self.collect_failures();
        if fields.len() == 0 {
            Ok(())
        } else {
            Err(ValidationErrors { fields })
        }
    }

    /// A copy of the configuration.
    pub fn duplicate(&self) -> (r: Self)
        ensures
            r == *self,
    {
        TransactionConfig {
            max_concurrent_transactions: self.max_concurrent_transactions,
            deadlock_detection_interval_ms: self.deadlock_detection_interval_ms,
            transaction_timeout_ms: self.transaction_timeout_ms,
            isolation_level: self.isolation_level.clone(),
            enable_distributed_transactions: self.enable_distributed_transactions,
            log_directory: self.log_directory.clone(),
        }
    }
}

impl Default for TransactionConfig {
    fn default() -> (r: Self)
        ensures
            r.is_default(),
    {
        TransactionConfig {
            max_concurrent_transactions: 100,
            deadlock_detection_interval_ms: 100,
            transaction_timeout_ms: 300000,
            isolation_level: owned("read_committed"),
            enable_distributed_transactions: false,
            log_directory: owned("/var/lib/aurora/tx_logs"),
        }
    }
}

impl VectorConfig {
    /// Whether every field holds its default value.
    pub open spec fn is_default(&self) -> bool {
        &&& self.default_dimension == 384
        &&& self.index_type@ == "hnsw"@
        &&& self.max_connections == 32
        &&& self.ef_construction == 200
        &&& self.ef_search == 64
        &&& self.enable_gpu == false
        &&& self.cache_size_mb == 1024
    }

    /// The names of the fields out of their allowed range, in field order;
    /// a nested field is named by its section, a dot and its own name.
    pub open spec fn failures(&self) -> Seq<Seq<char>> {
        flag(1 <= self.default_dimension && self.default_dimension <= 4096, "default_dimension"@)
            + flag(1 <= self.max_connections && self.max_connections <= 100, "max_connections"@)
            + flag(1 <= self.ef_construction && self.ef_construction <= 1000, "ef_construction"@)
            + flag(1 <= self.ef_search && self.ef_search <= 1000, "ef_search"@)
            + flag(1 <= self.cache_size_mb && self.cache_size_mb <= 10000, "cache_size_mb"@)
    }

    /// The names of the fields out of their allowed range (see `failures`).
    pub fn collect_failures(&self) -> (r: Vec<String>)
        ensures
            views(r@) == self.failures(),
    {
        let mut out: Vec<String> = Vec::new();
        check(&mut out, 1 <= self.default_dimension && self.default_dimension <= 4096, "default_dimension");
        assert(views(out@) =~= flag(1 <= self.default_dimension && self.default_dimension <= 4096, "default_dimension"@));
        check(&mut out, 1 <= self.max_connections && self.max_connections <= 100, "max_connections");
        check(&mut out, 1 <= self.ef_construction && self.ef_construction <= 1000, "ef_construction");
        check(&mut out, 1 <= self.ef_search && self.ef_search <= 1000, "ef_search");
        check(&mut out, 1 <= self.cache_size_mb && self.cache_size_mb <= 10000, "cache_size_mb");
        out
    }

    /// Checks every field against its allowed range.
    pub fn validate(&self) -> (r: Result<(), ValidationErrors>)
        ensures
            r is Ok <==> self.failures().len() == 0,
            r matches Err(e) ==> views(e.fields@) == self.failures(),
    {
        let fields = self.collect_failures();
        if fields.len() == 0 {
            Ok(())
        } else {
            Err(ValidationErrors { fields })
        }
    }

    /// A copy of the configuration.
    pub fn duplicate(&self) -> (r: Self)
        ensures
            r == *self,
    {
        VectorConfig {
            default_dimension: self.default_dimension,
            index_type: self.index_type.clone(),
            max_connections: self.max_connections,
            ef_construction: self.ef_construction,
            ef_search: self.ef_search,
            enable_gpu: self.enable_gpu,
            cache_size_mb: self.cache_size_mb,
        }
    }
}

impl Default for VectorConfig {
    fn default() -> (r: Self)
        ensures
            r.is_default(),
    {
        VectorConfig {
            default_dimension: 384,
            index_type: owned("hnsw"),
            max_connections: 32,
            ef_construction: 200,
            ef_search: 64,
            enable_gpu: false,
            cache_size_mb: 1024,
        }
    }
}

impl AuditConfig {
    /// Whether every field holds its default value.
    pub open spec fn is_default(&self) -> bool {
        &&& self.enable_audit_logging == true
        &&& self.audit_log_file@ == "/var/log/aurora/audit.log"@
        &&& self.log_sensitive_operations == true
        &&& self.log_connection_events == true
        &&& self.log_ddl_operations == true
        &&& self.log_dml_operations == false
        &&& self.retention_days == 365
        &&& self.max_log_size_mb == 1024
    }

    /// The names of the fields out of their allowed range, in field order;
    /// a nested field is named by its section, a dot and its own name.
    pub open spec fn failures(&self) -> Seq<Seq<char>> {
        flag(1 <= self.retention_days && self.retention_days <= 3650, "retention_days"@)
            + flag(1 <= self.max_log_size_mb && self.max_log_size_mb <= 10000, "max_log_size_mb"@)
    }

    /// The names of the fields out of their allowed range (see `failures`).
    pub fn collect_failures(&self) -> (r: Vec<String>)
        ensures
            views(r@) == self.failures(),
    {
        let mut out: Vec<String> = Vec::new();
        check(&mut out, 1 <= self.retention_days && self.retention_days <= 3650, "retention_days");
        assert(views(out@) =~= flag(1 <= self.retention_days && self.retention_days <= 3650, "retention_days"@));
        check(&mut out, 1 <= self.max_log_size_mb && self.max_log_size_mb <= 10000, "max_log_size_mb");
        out
    }

    /// Checks every field against its allowed range.
    pub fn validate(&self) -> (r: Result<(), ValidationErrors>)
        ensures
            r is Ok <==> self.failures().len() == 0,
            r matches Err(e) ==> views(e.fields@) == self.failures(),
    {
        let fields = self.collect_failures();
        if fields.len() == 0 {
            Ok(())
        } else {
            Err(ValidationErrors { fields })
        }
    }

    /// A copy of the configuration.
    pub fn duplicate(&self) -> (r: Self)
        ensures
            r == *self,
    {
        AuditConfig {
            enable_audit_logging: self.enable_audit_logging,
            audit_log_file: self.audit_log_file.clone(),
            log_sensitive_operations: self.log_sensitive_operations,
            log_connection_events: self.log_connection_events,
            log_ddl_operations: self.log_ddl_operations,
            log_dml_operations: self.log_dml_operations,
            retention_days: self.retention_days,
            max_log_size_mb: self.max_log_size_mb,
        }
    }
}

impl Default for AuditConfig {
    fn default() -> (r: Self)
        ensures
            r.is_default(),
    {
        AuditConfig {
            enable_audit_logging: true,
            audit_log_file: owned("/var/log/aurora/audit.log"),
            log_sensitive_operations: true,
            log_connection_events: true,
            log_ddl_operations: true,
            log_dml_operations: false,
            retention_days: 365,
            max_log_size_mb: 1024,
        }
    }
}
/// Unicode white space (`char::is_whitespace`).
pub open spec fn is_white_space(c: char) -> bool {
    ('\t' <= c && c <= '\r') || c == ' ' || c == '\u{85}' || c == '\u{a0}' || c == '\u{1680}' || ('\u{2000}'
        <= c && c <= '\u{200a}') || c == '\u{2028}' || c == '\u{2029}' || c == '\u{202f}' || c == '\u{205f}'
        || c == '\u{3000}'
}

/// `s` without its leading white space.
pub open spec fn trim_start(s: Seq<char>) -> Seq<char>
    decreases s.len(),
{
    if s.len() > 0 && is_white_space(s[0]) {
        trim_start(s.drop_first())
    } else {
        s
    }
}

/// `s` without its trailing white space.
pub open spec fn trim_end(s: Seq<char>) -> Seq<char>
    decreases s.len(),
{
    if s.len() > 0 && is_white_space(s.last()) {
        trim_end(s.drop_last())
    } else {
        s
    }
}

/// `s` without leading and trailing white space (`str::trim`).
pub open spec fn trim(s: Seq<char>) -> Seq<char> {
    trim_end(trim_start(s))
}

/// ASCII decimal digits.
pub open spec fn is_digit(c: char) -> bool {
    '0' <= c && c <= '9'
}

/// The number that a run of decimal digits stands for.
pub open spec fn digits_value(s: Seq<char>) -> nat
    decreases s.len(),
{
    if s.len() == 0 {
        0
    } else {
        digits_value(s.drop_last()) * 10 + (s.last() as int - '0' as int) as nat
    }
}

/// The digits of an unsigned number text: without one leading `+`.
pub open spec fn unsigned_digits(s: Seq<char>) -> Seq<char> {
    if s.len() > 0 && s[0] == '+' {
        s.drop_first()
    } else {
        s
    }
}

/// The value of an unsigned number text no larger than `max` (as `str::parse`
/// reads it: an optional `+`, then one or more decimal digits), or `None`.
pub open spec fn parsed_unsigned(s: Seq<char>, max: nat) -> Option<nat> {
    let d = unsigned_digits(s);
    if d.len() > 0 && (forall|i: int| 0 <= i < d.len() ==> #[trigger] is_digit(d[i])) && digits_value(d) <= max {
        Some(digits_value(d))
    } else {
        None
    }
}

/// What `str::parse::<usize>` gives.
pub open spec fn usize_parse(s: Seq<char>) -> Option<usize> {
    match parsed_unsigned(s, usize::MAX as nat) {
        Some(n) => Some(n as usize),
        None => None,
    }
}

/// What `str::parse::<u16>` gives.
pub open spec fn u16_parse(s: Seq<char>) -> Option<u16> {
    match parsed_unsigned(s, u16::MAX as nat) {
        Some(n) => Some(n as u16),
        None => None,
    }
}

/// What `str::parse::<bool>` gives.
pub open spec fn bool_parse(s: Seq<char>) -> Option<bool> {
    if s == "true"@ {
        Some(true)
    } else if s == "false"@ {
        Some(false)
    } else {
        None
    }
}

/// A digit run's value is at least that of any of its prefixes.
proof fn lemma_digits_prefix(s: Seq<char>, i: int)
    requires
        0 <= i <= s.len(),
    ensures
        digits_value(s.subrange(0, i)) <= digits_value(s),
    decreases s.len(),
{
    if i < s.len() {
        lemma_digits_prefix(s.drop_last(), i);
        assert(s.drop_last().subrange(0, i) =~= s.subrange(0, i));
    } else {
        assert(s.subrange(0, i) =~= s);
    }
}

/// Reads an unsigned number text no larger than `max`.
fn parse_unsigned_chars(s: &Vec<char>, max: u64) -> (r: Option<u64>)
    requires
        max >= 9,
    ensures
        r == (match parsed_unsigned(s@, max as nat) {
            Some(n) => Some(n as u64),
            None => None::<u64>,
        }),
{
    let n = s.len();
    let start: usize = if n > 0 && s[0] == '+' {
        1
    } else {
        0
    };
    let ghost d = unsigned_digits(s@);
    assert(d =~= s@.subrange(start as int, n as int));
    if start == n {
        assert(d.len() == 0);
        return None;
    }
    let mut acc: u64 = 0;
    let mut i: usize = start;
    while i < n
        invariant
            start <= i <= n,
            n == s@.len(),
            d == s@.subrange(start as int, n as int),
            d == unsigned_digits(s@),
            acc as nat == digits_value(d.subrange(0, i - start)),
            acc <= max,
            max >= 9,
            forall|j: int| 0 <= j < i - start ==> #[trigger] is_digit(d[j]),
        decreases n - i,
    {
        let c = s[i];
        assert(d[i - start] == c);
        if !('0' <= c && c <= '9') {
            assert(!is_digit(d[i - start]));
            assert(parsed_unsigned(s@, max as nat) is None);
            return None;
        }
        let v: u64 = (c as u32 - '0' as u32) as u64;
        let ghost pre = d.subrange(0, i - start);
        let ghost next = d.subrange(0, i - start + 1);
        assert(next.drop_last() =~= pre);
        if acc > (max - v) / 10 {
            proof {
                assert(acc * 10 + v > max) by (nonlinear_arith)
                    requires
                        acc > (max - v) / 10,
                        v <= max,
                ;
                assert(digits_value(next) == acc * 10 + v);
                if forall|j: int| 0 <= j < d.len() ==> #[trigger] is_digit(d[j]) {
                    lemma_digits_prefix(d, i - start + 1);
                    assert(digits_value(d) > max);
                }
                assert(parsed_unsigned(s@, max as nat) is None);
            }
            return None;
        }
        assert(acc * 10 + v <= max) by (nonlinear_arith)
            requires
                acc <= (max - v) / 10,
                v <= max,
        ;
        acc = acc * 10 + v;
        i = i + 1;
    }
    assert(d.subrange(0, n - start) =~= d);
    Some(acc)
}

/// `v` without leading and trailing white space.
fn trim_chars(v: &Vec<char>) -> (r: Vec<char>)
    ensures
        r@ == trim(v@),
{
    let n = v.len();
    let mut i: usize = 0;
    assert(v@.subrange(0, n as int) =~= v@);
    while i < n && is_space(v[i])
        invariant
            i <= n,
            n == v@.len(),
            trim_start(v@) == trim_start(v@.subrange(i as int, n as int)),
        decreases n - i,
    {
        assert(v@.subrange(i as int, n as int).drop_first() =~= v@.subrange(i + 1, n as int));
        i = i + 1;
    }
    assert(trim_start(v@.subrange(i as int, n as int)) == v@.subrange(i as int, n as int));
    let mut j: usize = n;
    while j > i && is_space(v[j - 1])
        invariant
            i <= j <= n,
            n == v@.len(),
            trim(v@) == trim_end(v@.subrange(i as int, j as int)),
        decreases j,
    {
        assert(v@.subrange(i as int, j as int).drop_last() =~= v@.subrange(i as int, j - 1));
        j = j - 1;
    }
    sub_chars(v, i, j)
}

/// A string without leading and trailing white space (`str::trim`).
pub fn trim_text(s: &str) -> (r: String)
    ensures
        r@ == trim(s@),
{
    let cs = chars_of(s);
    let t = trim_chars(&cs);
    string_of_chars(&t)
}

/// Whether a character is white space.
fn is_space(c: char) -> (r: bool)
    ensures
        r == is_white_space(c),
{
    ('\t' <= c && c <= '\r') || c == ' ' || c == '\u{85}' || c == '\u{a0}' || c == '\u{1680}' || ('\u{2000}'
        <= c && c <= '\u{200a}') || c == '\u{2028}' || c == '\u{2029}' || c == '\u{202f}' || c == '\u{205f}'
        || c == '\u{3000}'
}

/// Reads a `usize` as `str::parse` does.
pub fn parse_usize(s: &str) -> (r: Option<usize>)
    ensures
        r == usize_parse(s@),
{
    let cs = chars_of(s);
    match parse_unsigned_chars(&cs, usize::MAX as u64) {
        Some(n) => Some(n as usize),
        None => None,
    }
}

/// Reads a `u16` as `str::parse` does.
pub fn parse_u16(s: &str) -> (r: Option<u16>)
    ensures
        r == u16_parse(s@),
{
    let cs = chars_of(s);
    match parse_unsigned_chars(&cs, 65535) {
        Some(n) => Some(n as u16),
        None => None,
    }
}

/// Reads a `bool` as `str::parse` does: exactly `true` or `false`.
pub fn parse_bool(s: &str) -> (r: Option<bool>)
    ensures
        r == bool_parse(s@),
{
    if str_equal(s, "true") {
        Some(true)
    } else if str_equal(s, "false") {
        Some(false)
    } else {
        None
    }
}

/// Size texts too short for a number and a two-byte unit: fewer than three
/// bytes in UTF-8.
pub open spec fn size_too_short(t: Seq<char>) -> bool {
    ||| t.len() == 0
    ||| t.len() == 1 && '\u{800}' > t[0]
    ||| t.len() == 2 && '\u{80}' > t[0] && '\u{80}' > t[1]
}

/// Where the unit (the last two bytes in UTF-8) of a size text starts, in
/// characters, when those bytes are whole characters.
pub open spec fn unit_start(t: Seq<char>) -> Option<int> {
    if '\u{80}' <= t.last() && '\u{800}' > t.last() {
        Some(t.len() - 1)
    } else if '\u{80}' > t.last() && t.len() >= 2 && '\u{80}' > t[t.len() - 2] {
        Some(t.len() - 2)
    } else {
        None
    }
}

/// The number of bytes a size unit stands for: `KB`, `MB` or `GB` in any
/// case.
pub open spec fn unit_multiplier(u: Seq<char>) -> Option<nat> {
    if u.len() == 2 && ascii_upper(u[1]) == 'B' {
        if ascii_upper(u[0]) == 'K' {
            Some(1024)
        } else if ascii_upper(u[0]) == 'M' {
            Some(1048576)
        } else if ascii_upper(u[0]) == 'G' {
            Some(1073741824)
        } else {
            None
        }
    } else {
        None
    }
}

/// What a size text stands for: a plain number of bytes, or a number and a
/// unit (`KB`, `MB`, `GB`, in any case); surrounding white space is ignored.
pub open spec fn size_outcome(s: Seq<char>) -> Result<usize, ConfigErrorView> {
    let t = trim(s);
    match usize_parse(t) {
        Some(n) => Ok(n),
        None => if size_too_short(t) {
            Err(ConfigErrorView::InvalidSize(t))
        } else {
            let p = unit_start(t)->Some_0;
            let unit = t.subrange(p, t.len() as int);
            let num = t.subrange(0, p);
            match unit_multiplier(unit) {
                None => Err(ConfigErrorView::UnknownSizeUnit(unit)),
                Some(m) => match usize_parse(num) {
                    None => Err(ConfigErrorView::InvalidNumber(num)),
                    Some(n) => Ok((n * m) as usize),
                },
            }
        },
    }
}

/// The size texts that can be read without a fault: the unit is made of
/// whole characters, and a number times its unit fits in `usize`.
pub open spec fn size_defined(s: Seq<char>) -> bool {
    let t = trim(s);
    ||| usize_parse(t) is Some
    ||| size_too_short(t)
    ||| unit_start(t) matches Some(p) && (unit_multiplier(t.subrange(p, t.len() as int)) matches Some(m)
        ==> (usize_parse(t.subrange(0, p)) matches Some(n) ==> n * m <= usize::MAX))
}

/// Reads a size text such as `1024`, `64KB`, `512MB` or `1GB` as a number of
/// bytes.
pub fn parse_size(size_str: &str) -> (r: Result<usize, ConfigError>)
    requires
        size_defined(size_str@),
    ensures
        match size_outcome(size_str@) {
            Ok(n) => r matches Ok(m) && m == n,
            Err(ev) => r matches Err(e) && e@ == ev,
        },
{
    let all = chars_of(size_str);
    let t = trim_chars(&all);
    assert(t@ == trim(size_str@));
    match parse_unsigned_chars(&t, usize::MAX as u64) {
        Some(n) => {
            return Ok(n as usize);
        },
        None => {},
    }
    assert(usize_parse(t@) is None);
    let len = t.len();
    if len == 0 || (len == 1 && '\u{800}' > t[0]) || (len == 2 && '\u{80}' > t[0] && '\u{80}' > t[1]) {
        return Err(ConfigError::InvalidSize(string_of_chars(&t)));
    }
    assert(!size_too_short(t@));
    assert(unit_start(t@) is Some);
    let last = t[len - 1];
    let p: usize = if '\u{80}' <= last && '\u{800}' > last {
        len - 1
    } else {
        len - 2
    };
    let unit = sub_chars(&t, p, len);
    let num = sub_chars(&t, 0, p);
    let multiplier: u64 = match size_unit_multiplier(&unit) {
        Some(m) => m,
        None => {
            return Err(ConfigError::UnknownSizeUnit(string_of_chars(&unit)));
        },
    };
    match parse_unsigned_chars(&num, usize::MAX as u64) {
        Some(n) => {
            assert(n * multiplier <= usize::MAX);
            Ok((n * multiplier) as usize)
        },
        None => Err(ConfigError::InvalidNumber(string_of_chars(&num))),
    }
}

/// An ASCII letter in upper case.
fn upper(c: char) -> (r: char)
    ensures
        r == ascii_upper(c),
{
    if 'a' <= c && c <= 'z' {
        ((c as u8) - 32) as char
    } else {
        c
    }
}

/// The number of bytes a size unit stands for.
fn size_unit_multiplier(u: &Vec<char>) -> (r: Option<u64>)
    ensures
        r == (match unit_multiplier(u@) {
            Some(m) => Some(m as u64),
            None => None::<u64>,
        }),
{
    if u.len() != 2 || upper(u[1]) != 'B' {
        return None;
    }
    let c = upper(u[0]);
    if c == 'K' {
        Some(1024)
    } else if c == 'M' {
        Some(1048576)
    } else if c == 'G' {
        Some(1073741824)
    } else {
        None
    }
}

/// Values of the environment variables that override the configuration:
/// `AURORA_DB_MAX_CONNECTIONS`, `AURORA_DB_BUFFER_POOL_SIZE`,
/// `AURORA_SERVER_POSTGRESQL_PORT`, `AURORA_SERVER_HTTP_PORT`,
/// `AURORA_SECURITY_TLS_ENABLED` and `AURORA_LOG_LEVEL`, each when set.
#[derive(Debug)]
pub struct EnvOverrides {
    pub db_max_connections: Option<String>,
    pub db_buffer_pool_size: Option<String>,
    pub server_postgresql_port: Option<String>,
    pub server_http_port: Option<String>,
    pub security_tls_enabled: Option<String>,
    pub log_level: Option<String>,
}

/// The overrides can be read without a fault: the buffer pool size, when
/// it is reached, is a size text that `parse_size` reads.
pub open spec fn env_defined(env: EnvOverrides) -> bool {
    (env.db_max_connections matches Some(v) ==> usize_parse(v@) is Some) ==> (env.db_buffer_pool_size matches Some(
        w,
    ) ==> size_defined(w@))
}

/// The configuration `c` with the environment overrides applied, or the
/// first override that cannot be read (in the order the fields are listed).
#[verifier::opaque]
pub open spec fn env_result(c: AuroraConfig, env: EnvOverrides) -> Result<AuroraConfig, ConfigErrorView> {
    if env.db_max_connections matches Some(v) && usize_parse(v@) is None {
        Err(ConfigErrorView::InvalidNumber(env.db_max_connections->Some_0@))
    } else if env.db_buffer_pool_size matches Some(v) && size_outcome(v@) is Err {
        Err(size_outcome(env.db_buffer_pool_size->Some_0@)->Err_0)
    } else if env.server_postgresql_port matches Some(v) && u16_parse(v@) is None {
        Err(ConfigErrorView::InvalidNumber(env.server_postgresql_port->Some_0@))
    } else if env.server_http_port matches Some(v) && u16_parse(v@) is None {
        Err(ConfigErrorView::InvalidNumber(env.server_http_port->Some_0@))
    } else if env.security_tls_enabled matches Some(v) && bool_parse(v@) is None {
        Err(ConfigErrorView::InvalidBool(env.security_tls_enabled->Some_0@))
    } else {
        Ok(
            AuroraConfig {
                database: DatabaseConfig {
                    max_connections: match env.db_max_connections {
                        Some(v) => usize_parse(v@)->Some_0,
                        None => c.database.max_connections,
                    },
                    buffer_pool_size: match env.db_buffer_pool_size {
                        Some(v) => size_outcome(v@)->Ok_0,
                        None => c.database.buffer_pool_size,
                    },
                    ..c.database
                },
                server: ServerConfig {
                    postgresql_port: match env.server_postgresql_port {
                        Some(v) => u16_parse(v@)->Some_0,
                        None => c.server.postgresql_port,
                    },
                    http_port: match env.server_http_port {
                        Some(v) => u16_parse(v@)->Some_0,
                        None => c.server.http_port,
                    },
                    ..c.server
                },
                network: NetworkConfig {
                    tls: TLSConfig {
                        enabled: match env.security_tls_enabled {
                            Some(v) => bool_parse(v@)->Some_0,
                            None => c.network.tls.enabled,
                        },
                        ..c.network.tls
                    },
                    ..c.network
                },
                logging: LoggingConfig {
                    level: match env.log_level {
                        Some(v) => v,
                        None => c.logging.level,
                    },
                    ..c.logging
                },
                ..c
            },
        )
    }
}

/// What loading gives, from the configuration `base` and the overrides:
/// the overridden configuration when it is valid; otherwise the error, and
/// the stored configuration unchanged.
pub open spec fn load_outcome(
    base: AuroraConfig,
    env: EnvOverrides,
    r: Result<(), ConfigError>,
    stored: AuroraConfig,
    before: AuroraConfig,
) -> bool {
    match env_result(base, env) {
        Ok(c) => if c.failures().len() == 0 {
            r is Ok && stored == c
        } else {
            r matches Err(e) && e@ == ConfigErrorView::Invalid(c.failures()) && stored == before
        },
        Err(ev) => r matches Err(e) && e@ == ev && stored == before,
    }
}

/// Whether the overrides apply to `base` and give a valid configuration.
pub open spec fn loads_valid(base: AuroraConfig, env: EnvOverrides) -> bool {
    env_result(base, env) matches Ok(c) && c.failures().len() == 0
}

/// A configuration file that was found and read.
#[derive(Debug)]
pub struct LoadedConfigFile {
    pub path: String,
    pub config: AuroraConfig,
}

/// Holds the current configuration and where it was read from.
#[derive(Debug)]
pub struct ConfigManager {
    config: AuroraConfig,
    config_path: Option<String>,
}

impl ConfigManager {
    /// The current configuration.
    pub closed spec fn config(&self) -> AuroraConfig {
        self.config
    }

    /// The file the configuration was read from, if any.
    pub closed spec fn path(&self) -> Option<String> {
        self.config_path
    }

    /// A manager holding the default configuration.
    pub fn new() -> (r: Self)
        ensures
            r.config().is_default(),
            r.path() is None,
    {
        ConfigManager { config: AuroraConfig::default(), config_path: None }
    }

    /// Loads configuration: the file's, when one was found, else the
    /// defaults; then the environment overrides; then validation.  The file's
    /// path is kept even when a later step fails.
    pub fn load_config(&mut self, file: Option<LoadedConfigFile>, env: &EnvOverrides) -> (r: Result<(), ConfigError>)
        requires
            env_defined(*env),
        ensures
            file matches Some(f) ==> final(self).path() == Some(f.path) && load_outcome(
                f.config,
                *env,
                r,
                final(self).config(),
                old(self).config(),
            ),
            file is None ==> final(self).path() == old(self).path() && exists|b: AuroraConfig|
                #[trigger] b.is_default() && load_outcome(b, *env, r, final(self).config(), old(self).config()),
    {
        let base = match file {
            Some(f) => {
                self.config_path = Some(f.path);
                f.config
            },
            None => AuroraConfig::default(),
        };
        let ghost b = base;
        let config = match self.override_from_env(base, env) {
            Ok(c) => c,
            Err(e) => {
                assert(load_outcome(b, *env, Err(e), self.config, self.config));
                return Err(e);
            },
        };
        match config.validate() {
            Ok(()) => {
                self.config = config;
                assert(load_outcome(b, *env, Ok(()), self.config, old(self).config));
                Ok(())
            },
            Err(errs) => {
                let e = ConfigError::Invalid(errs);
                assert(load_outcome(b, *env, Err(e), self.config, self.config));
                Err(e)
            },
        }
    }

    /// The configuration with the environment overrides applied.
    pub fn override_from_env(&self, config: AuroraConfig, env: &EnvOverrides) -> (r: Result<AuroraConfig, ConfigError>)
        requires
            env_defined(*env),
        ensures
            match env_result(config, *env) {
                Ok(c) => r matches Ok(c2) && c2 == c,
                Err(ev) => r matches Err(e) && e@ == ev,
            },
    {
        reveal(env_result);
        let mut config = config;
        if let Some(v) = &env.db_max_connections {
            match parse_usize(v.as_str()) {
                Some(n) => config.database.max_connections = n,
                None => {
                    return Err(ConfigError::InvalidNumber(v.clone()));
                },
            }
        }
        if let Some(v) = &env.db_buffer_pool_size {
            match parse_size(v.as_str()) {
                Ok(n) => config.database.buffer_pool_size = n,
                Err(e) => {
                    return Err(e);
                },
            }
        }
        if let Some(v) = &env.server_postgresql_port {
            match parse_u16(v.as_str()) {
                Some(n) => config.server.postgresql_port = n,
                None => {
                    return Err(ConfigError::InvalidNumber(v.clone()));
                },
            }
        }
        if let Some(v) = &env.server_http_port {
            match parse_u16(v.as_str()) {
                Some(n) => config.server.http_port = n,
                None => {
                    return Err(ConfigError::InvalidNumber(v.clone()));
                },
            }
        }
        if let Some(v) = &env.security_tls_enabled {
            match parse_bool(v.as_str()) {
                Some(b) => config.network.tls.enabled = b,
                None => {
                    return Err(ConfigError::InvalidBool(v.clone()));
                },
            }
        }
        if let Some(v) = &env.log_level {
            config.logging.level = v.clone();
        }
        Ok(config)
    }

    /// A copy of the current configuration.
    pub fn get_config(&self) -> (r: Result<AuroraConfig, ConfigError>)
        ensures
            r matches Ok(c) && c == self.config(),
    {
        Ok(self.config.duplicate())
    }

    /// Replaces the configuration with a valid one; an invalid one is
    /// refused and the current one kept.
    pub fn update_config(&mut self, new_config: AuroraConfig) -> (r: Result<(), ConfigError>)
        ensures
            new_config.failures().len() == 0 ==> r is Ok && final(self).config() == new_config,
            new_config.failures().len() > 0 ==> (r matches Err(e) && e@ == ConfigErrorView::Invalid(
                new_config.failures(),
            )) && final(self).config() == old(self).config(),
            final(self).path() == old(self).path(),
    {
        match new_config.validate() {
            Ok(()) => {
                self.config = new_config;
                Ok(())
            },
            Err(errs) => Err(ConfigError::Invalid(errs)),
        }
    }

    /// The file the configuration was read from, if any.
    pub fn config_path(&self) -> (r: Option<String>)
        ensures
            r == self.path(),
    {
        copy_opt_string(&self.config_path)
    }
}

/// What creating a manager from base configuration `base`, read from
/// `path`, gives: the manager holding `base` with the environment overrides
/// applied, when that is valid; else the override error or the validation
/// failures.
pub open spec fn manager_outcome(
    base: AuroraConfig,
    env: EnvOverrides,
    path: Option<String>,
    r: Result<ConfigManager, ConfigError>,
) -> bool {
    match env_result(base, env) {
        Ok(c) => if c.failures().len() == 0 {
            r matches Ok(m) && m.config() == c && m.path() == path
        } else {
            r matches Err(e) && e@ == ConfigErrorView::Invalid(c.failures())
        },
        Err(ev) => r matches Err(e) && e@ == ev,
    }
}

/// A manager with configuration loaded as `load_config` does: from the
/// file, when one was found (keeping its path), else from the defaults.
pub fn create_config_manager(file: Option<LoadedConfigFile>, env: &EnvOverrides) -> (r: Result<ConfigManager, ConfigError>)
    requires
        env_defined(*env),
    ensures
        r matches Ok(m) ==> m.config().failures().len() == 0,
        file is None ==> exists|b: AuroraConfig| #[trigger] b.is_default() && manager_outcome(b, *env, None, r),
        file matches Some(f) ==> manager_outcome(f.config, *env, Some(f.path), r),
{
    let mut manager = ConfigManager::new();
    match manager.load_config(file, env) {
        Ok(()) => Ok(manager),
        Err(e) => Err(e),
    }
}

/// Law (defaults are valid): every default configuration passes validation.
pub proof fn law_default_config_valid(c: AuroraConfig)
    requires
        c.is_default(),
    ensures
        c.failures().len() == 0,
{
    assert(c.database.failures() =~= Seq::<Seq<char>>::empty());
    assert(c.server.failures() =~= Seq::<Seq<char>>::empty());
    assert(c.storage.failures() =~= Seq::<Seq<char>>::empty());
    assert(c.network.failures() =~= Seq::<Seq<char>>::empty());
    assert(c.security.failures() =~= Seq::<Seq<char>>::empty());
    assert(c.logging.failures() =~= Seq::<Seq<char>>::empty());
    assert(c.monitoring.failures() =~= Seq::<Seq<char>>::empty());
    assert(c.transaction.failures() =~= Seq::<Seq<char>>::empty());
    assert(c.vector.failures() =~= Seq::<Seq<char>>::empty());
    assert(c.audit.failures() =~= Seq::<Seq<char>>::empty());
    assert(c.failures() =~= Seq::<Seq<char>>::empty());
}

} // verus!
