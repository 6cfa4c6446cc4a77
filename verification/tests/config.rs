use sensor_telemetry::config::utils::{connection_string, server_address};
use sensor_telemetry::config::{development, production, Config, Environment};

#[test]
fn presets() {
    let dev = development::config();
    assert_eq!(
        (dev.database_url.as_str(), dev.port, dev.debug_mode, dev.max_connections),
        ("postgres://localhost:5432/dev_db", 3000, true, 10)
    );
    let testing = sensor_telemetry::config::test::config();
    assert_eq!(
        (testing.database_url.as_str(), testing.port, testing.debug_mode, testing.max_connections),
        ("postgres://localhost:5432/test_db", 3001, true, 5)
    );
    let prod = production::config(None);
    assert_eq!(
        (prod.database_url.as_str(), prod.port, prod.debug_mode, prod.max_connections),
        ("postgres://prod-server:5432/prod_db", 8080, false, 100)
    );
    let prod = production::config(Some("postgres://elsewhere/db".to_string()));
    assert_eq!(prod.database_url, "postgres://elsewhere/db");
}

#[test]
fn presets_by_environment_and_name() {
    assert_eq!(Config::for_environment(Environment::Development, None).port, 3000);
    assert_eq!(Config::for_environment(Environment::Test, Some("x".to_string())).port, 3001);
    assert_eq!(Config::for_environment(Environment::Production, Some("x".to_string())).database_url, "x");
    assert_eq!(Config::load(Some("production".to_string()), None).port, 8080);
    assert_eq!(Config::load(Some("prod".to_string()), None).port, 8080);
    assert_eq!(Config::load(Some("test".to_string()), None).port, 3001);
    assert_eq!(Config::load(Some("development".to_string()), None).port, 3000);
    assert_eq!(Config::load(Some("anything".to_string()), None).port, 3000);
    assert_eq!(Config::load(None, Some("x".to_string())).port, 3000);
}

#[test]
fn validation_says_everything_that_is_wrong() {
    assert_eq!(development::config().validate(), Ok(()));
    let bad = Config { database_url: String::new(), port: 0, debug_mode: false, max_connections: 0 };
    assert_eq!(
        bad.validate(),
        Err(vec![
            "Database URL cannot be empty".to_string(),
            "Port cannot be 0".to_string(),
            "Max connections must be at least 1".to_string(),
        ])
    );
    let bad = Config { database_url: "u".to_string(), port: 0, debug_mode: false, max_connections: 1 };
    assert_eq!(bad.validate(), Err(vec!["Port cannot be 0".to_string()]));
}

#[test]
fn addresses() {
    let dev = development::config();
    assert_eq!(connection_string(&dev), "postgres://localhost:5432/dev_db?max_connections=10");
    assert_eq!(server_address(&dev), "0.0.0.0:3000");
}
