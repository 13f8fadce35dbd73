use stream_bridge::configuration::{BridgeServiceConfig, Environment};

#[test]
fn environment_names_round_trip() {
    assert_eq!(Environment::Local.as_str(), "local");
    assert_eq!(Environment::Production.as_str(), "production");
    assert_eq!(
        Environment::try_from_name("local"),
        Ok(Environment::Local)
    );
    assert_eq!(
        Environment::try_from_name("Production"),
        Ok(Environment::Production)
    );
    assert_eq!(Environment::try_from_name("LOCAL"), Ok(Environment::Local));
}

#[test]
fn unknown_environment_names_are_rejected() {
    let err = Environment::try_from_name("staging").unwrap_err();
    assert!(err.contains("staging"));
    assert!(err.contains("local"));
    assert!(err.contains("production"));
}

#[test]
fn configuration_holds_plain_settings() {
    let config = BridgeServiceConfig {
        override_aws_endpoint: Some("http://localhost:4566".to_string()),
        dynamo_table_name: "AuditLog".to_string(),
        kinesis_stream_name: "audit-events".to_string(),
    };
    assert_eq!(config.dynamo_table_name, "AuditLog");
    assert_eq!(
        config.override_aws_endpoint.as_deref(),
        Some("http://localhost:4566")
    );
}
