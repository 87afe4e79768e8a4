use fz_stream_common::auth::AuthTokenValidator;
use fz_stream_common::config::{
    CompressionLevel, CompressionType, ConfigBuilder, SerializationProtocol, ServerConfig,
    StreamClientConfig,
};

fn validator() -> AuthTokenValidator {
    AuthTokenValidator::new("secret".to_string())
}

#[test]
fn predefined_tokens_are_accepted_with_their_permissions() {
    let v = validator();
    assert_eq!(
        v.validate_token("demo_token_12345").unwrap(),
        vec!["read".to_string(), "stream".to_string()]
    );
    assert_eq!(
        v.validate_token("test_auth_token").unwrap(),
        vec!["read".to_string(), "stream".to_string(), "write".to_string()]
    );
    assert_eq!(
        v.validate_token("admin_super_token_999").unwrap(),
        vec![
            "read".to_string(),
            "stream".to_string(),
            "write".to_string(),
            "admin".to_string()
        ]
    );
}

#[test]
fn jwt_shaped_tokens_need_exactly_three_parts() {
    let v = validator();
    assert!(v.validate_token("aaa.bbb.ccc").is_ok());
    assert_eq!(
        v.validate_token("aaa.bbb.ccc").unwrap(),
        vec!["read".to_string(), "stream".to_string()]
    );
    assert!(v.validate_token("aaa.bbb").is_err());
    assert!(v.validate_token("aaa.bbb.ccc.ddd").is_err());
    assert!(v.validate_jwt_token("x.y.z").is_ok());
    assert!(v.validate_jwt_token("x.y").is_err());
}

#[test]
fn api_keys_need_the_sk_prefix_and_three_parts() {
    let v = validator();
    assert!(v.validate_token("sk_user1_abcdef").is_ok());
    assert!(v.validate_token("sk_user1_1234_extra").is_ok());
    assert!(v.validate_token("sk_useronly").is_err());
    assert!(v.validate_api_key("sk_a_b").is_ok());
    assert!(v.validate_api_key("sk_").is_err());
    assert!(v.validate_api_key("skx_a_b").is_err());
}

#[test]
fn session_tokens_age_out_after_an_hour() {
    let v = validator();
    let token = "sess_1000_user_abc";
    assert!(v.validate_session_token_at(token, 1000).is_ok());
    assert!(v.validate_session_token_at(token, 4599).is_ok());
    assert!(v.validate_session_token_at(token, 4600).is_err());
    // a timestamp from the future counts as fresh
    assert!(v.validate_session_token_at(token, 500).is_ok());
    assert_eq!(
        v.validate_session_token_at(token, 1000).unwrap(),
        vec!["read".to_string(), "stream".to_string()]
    );
}

#[test]
fn malformed_session_tokens_are_rejected() {
    let v = validator();
    assert!(v.validate_session_token_at("sess_1000", 1000).is_err());
    assert!(v.validate_session_token_at("sess_1000_user", 1000).is_err());
    assert!(v.validate_session_token_at("sess__user_abc", 1000).is_err());
    assert!(v.validate_session_token_at("sess_12x4_user_abc", 1000).is_err());
    assert!(v.validate_session_token_at("session_1000_user_abc", 1000).is_err());
    assert!(v
        .validate_session_token_at("sess_99999999999999999999_user_abc", 1000)
        .is_err());
}

#[test]
fn unrecognized_tokens_are_rejected() {
    let v = validator();
    assert!(v.validate_token("garbage").is_err());
    assert!(v.validate_token("").is_err());
    assert!(v.validate_token("demo_token_123456").is_err());
}

#[test]
fn serialization_protocol_defaults_to_auto() {
    assert_eq!(SerializationProtocol::default(), SerializationProtocol::Auto);
    assert_eq!(CompressionLevel::default(), CompressionLevel::LZ4Fast);
}

#[test]
fn compression_family_mapping() {
    assert_eq!(
        CompressionType::from(CompressionLevel::NoCompression),
        CompressionType::NoCompression
    );
    assert_eq!(CompressionType::from(CompressionLevel::LZ4Fast), CompressionType::LZ4);
    assert_eq!(CompressionType::from(CompressionLevel::LZ4High), CompressionType::LZ4);
    assert_eq!(CompressionType::from(CompressionLevel::ZstdFast), CompressionType::Zstd);
    assert_eq!(CompressionType::from(CompressionLevel::ZstdMedium), CompressionType::Zstd);
    assert_eq!(CompressionType::from(CompressionLevel::ZstdHigh), CompressionType::Zstd);
    assert_eq!(CompressionType::from(CompressionLevel::ZstdMax), CompressionType::Zstd);
}

#[test]
fn stream_client_config_defaults() {
    let c = StreamClientConfig::default();
    assert_eq!(c.server_address, "127.0.0.1:8080");
    assert_eq!(c.server_name, "localhost");
    assert_eq!(c.auth_token, None);
    assert_eq!(c.protocol, SerializationProtocol::Auto);
    assert_eq!(c.compression, CompressionLevel::LZ4Fast);
    assert!(c.auto_reconnect);
    assert_eq!(c.reconnect_interval_ms, 5000);
    assert_eq!(c.max_reconnect_attempts, 10);
    assert_eq!(c.connection_timeout_ms, 10000);
    assert_eq!(c.keep_alive_interval_ms, 30000);
}

#[test]
fn server_config_defaults() {
    let c = ServerConfig::default();
    assert_eq!(c.bind_address, "127.0.0.1:8080");
    assert_eq!(c.num_workers, None);
    assert_eq!(c.auth_secret_key, None);
    assert!(c.enable_stats_reporter);
    assert_eq!(c.heartbeat_interval_secs, 30);
    assert_eq!(c.idle_timeout_secs, 300);
}

#[test]
fn builder_overrides_every_field() {
    let c = ConfigBuilder::new()
        .server_address("10.0.0.1:9000".to_string())
        .server_name("edge".to_string())
        .auth_token("demo_token_12345".to_string())
        .protocol(SerializationProtocol::JSON)
        .compression(CompressionLevel::ZstdMax)
        .auto_reconnect(false)
        .reconnect_interval(1500)
        .max_reconnect_attempts(3)
        .connection_timeout(2500)
        .keep_alive_interval(9000)
        .build();
    assert_eq!(c.server_address, "10.0.0.1:9000");
    assert_eq!(c.server_name, "edge");
    assert_eq!(c.auth_token, Some("demo_token_12345".to_string()));
    assert_eq!(c.protocol, SerializationProtocol::JSON);
    assert_eq!(c.compression, CompressionLevel::ZstdMax);
    assert!(!c.auto_reconnect);
    assert_eq!(c.reconnect_interval_ms, 1500);
    assert_eq!(c.max_reconnect_attempts, 3);
    assert_eq!(c.connection_timeout_ms, 2500);
    assert_eq!(c.keep_alive_interval_ms, 9000);
}

#[test]
fn builder_keeps_defaults_for_untouched_fields() {
    let c = ConfigBuilder::new().server_name("edge".to_string()).build();
    assert_eq!(c.server_address, "127.0.0.1:8080");
    assert_eq!(c.server_name, "edge");
    assert_eq!(c.reconnect_interval_ms, 5000);
}
