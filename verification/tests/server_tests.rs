use graphql_rust::config::DataLoaderConfig;
use graphql_rust::config::DatabaseConfig;
use graphql_rust::config::ServerConfig;
use graphql_rust::config::ServiceConfig;
use graphql_rust::config::SPLIT_AT_DOUBLE_UNDERSCORE;
use graphql_rust::server::logging::CustomMakeSpan;
use graphql_rust::server::logging::CustomOnRequest;
use graphql_rust::server::logging::RequestLog;
use graphql_rust::server::request_id::RequestIdFactory;
use graphql_rust::server::request_id::HEADER_X_REQUEST_ID;
use graphql_rust::util::MaybeOwned;

#[test]
fn default_settings() {
    let cfg = ServiceConfig::default();
    assert_eq!(cfg.data_loader, DataLoaderConfig { default_delay_ms: 10, max_batch_size: 100 });
    assert_eq!(cfg.server, ServerConfig { port: 8080, request_timeout: 10_000 });
    assert_eq!(
        cfg.db,
        DatabaseConfig {
            user: "postgres".to_string(),
            pass: "password".to_string(),
            db_name: "postgres".to_string(),
            host: "127.0.0.1".to_string(),
            port: 5432,
            max_conn: 16,
            create_timeout: 5_000,
            acquire_timeout: 5_000,
        }
    );
    assert_eq!(SPLIT_AT_DOUBLE_UNDERSCORE, "__");
}

#[test]
fn request_logging_switches() {
    let on = CustomOnRequest::new();
    assert!(on.enabled);
    assert!(!on.log_headers);
    assert_eq!(on, CustomOnRequest::default());
    assert_eq!(on.on_request(), RequestLog::Line);
    assert_eq!(on.log_headers(true).on_request(), RequestLog::LineWithHeaders);
    assert_eq!(on.enabled(false).on_request(), RequestLog::Nothing);
    assert_eq!(on.enabled(false).log_headers(true).on_request(), RequestLog::Nothing);
    assert_eq!(on.log_headers(true).enabled(true).log_headers(false).on_request(), RequestLog::Line);
}

#[test]
fn span_request_id_defaults() {
    let span = CustomMakeSpan::new();
    assert_eq!(span.span_request_id(Some("abc")), "abc");
    assert_eq!(span.span_request_id(None), "N/A");
    assert_eq!(span, CustomMakeSpan::default());
}

#[test]
fn request_id_is_made_only_where_none_is_brought() {
    let mut factory = RequestIdFactory::new();
    assert_eq!(factory.make_request_id(true), None);
    let id = factory.make_request_id(false).unwrap();
    assert_eq!(id.len(), 36);
    for (i, c) in id.chars().enumerate() {
        if i == 8 || i == 13 || i == 18 || i == 23 {
            assert_eq!(c, '-');
        } else {
            assert!(c.is_ascii_digit() || ('A'..='F').contains(&c));
        }
    }
    let other = factory.make_request_id(false).unwrap();
    assert_ne!(id, other);
    assert_eq!(HEADER_X_REQUEST_ID, "x-request-id");
}

#[test]
fn maybe_owned_reads_and_writes_through() {
    let mut owned = MaybeOwned::Owned(1);
    assert_eq!(*owned.get(), 1);
    *owned.get_mut() = 2;
    assert_eq!(*owned.get(), 2);
    let mut target = 5;
    {
        let mut borrowed = MaybeOwned::Borrowed(&mut target);
        assert_eq!(*borrowed.get(), 5);
        *borrowed.get_mut() += 1;
        assert!(matches!(borrowed, MaybeOwned::Borrowed(_)));
    }
    assert_eq!(target, 6);
}
