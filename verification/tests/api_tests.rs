use auroradb::api::{ApiError, ApiResponse, AuroraDatabase, ServerConfig};

#[test]
fn test_server_config() {
    let config = ServerConfig::default();
    assert_eq!(config.host, "127.0.0.1");
    assert_eq!(config.port, 8080);
    assert!(config.enable_cors);
}

#[test]
fn server_config_limits() {
    let config = ServerConfig::default();
    assert!(config.enable_metrics);
    assert_eq!(config.max_request_size, 10 * 1024 * 1024);
    assert_eq!(config.rate_limit_requests_per_minute, 1000);
}

#[test]
fn api_response_envelopes() {
    let ok: ApiResponse<String> = ApiResponse::success("test".to_string());
    assert!(ok.success);
    assert_eq!(ok.data, Some("test".to_string()));
    assert_eq!(ok.error, None);
    let err: ApiResponse<()> = ApiResponse::error("test error".to_string());
    assert!(!err.success);
    assert_eq!(err.data, None);
    assert_eq!(err.error, Some("test error".to_string()));
}

#[test]
fn demo_database_answers_the_health_query_only() {
    let mut db = AuroraDatabase::new();
    let r = db.execute_sql("  SELECT * FROM Health ").unwrap();
    assert_eq!(r.columns, vec!["status".to_string()]);
    assert_eq!(r.rows, vec![vec!["healthy".to_string()]]);
    assert_eq!(r.row_count, 1);
    assert_eq!(
        db.execute_sql("select * from users").unwrap_err(),
        ApiError::InvalidArgument("Query not supported in demo".to_string())
    );
}
