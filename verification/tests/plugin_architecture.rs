use sensor_telemetry::plugin_architecture::plugins::auth::{AuthPlugin, AuthType};
use sensor_telemetry::plugin_architecture::plugins::logger::{LogLevel, LoggerPlugin};
use sensor_telemetry::plugin_architecture::plugins::metrics::MetricsPlugin;
use sensor_telemetry::plugin_architecture::plugins::AnyPlugin;
use sensor_telemetry::plugin_architecture::registry::PluginRegistry;
use sensor_telemetry::plugin_architecture::Plugin;

#[test]
fn plugins_have_names_versions_and_reports() {
    let logger = LoggerPlugin::new("log".to_string(), LogLevel::Warn);
    assert_eq!(logger.name(), "log");
    assert_eq!(logger.version(), "2.0.0");
    assert_eq!(logger.execute(), "[log] Logger plugin executing at level Warn");
    let auth = AuthPlugin::new("auth".to_string(), AuthType::JWT);
    assert_eq!(auth.version(), "1.0.0");
    assert_eq!(auth.execute(), "[auth] Auth plugin using JWT Token");
    assert_eq!(AuthPlugin::new("a".to_string(), AuthType::Basic).execute(), "[a] Auth plugin using Basic Authentication");
    assert_eq!(AuthPlugin::new("a".to_string(), AuthType::OAuth).execute(), "[a] Auth plugin using OAuth 2.0");
    let mut metrics = MetricsPlugin::new("m".to_string());
    metrics.collect();
    metrics.collect();
    assert_eq!(metrics.version(), "1.0.0");
    assert_eq!(metrics.execute_at(7), "[m] Metrics plugin - Uptime: 7s, Metrics collected: 2");
    assert!(metrics.execute().starts_with("[m] Metrics plugin - Uptime: "));
    assert!(metrics.execute().ends_with("s, Metrics collected: 2"));
}

#[test]
fn registry_keeps_plugins_by_name() {
    let mut registry: PluginRegistry<AnyPlugin> = PluginRegistry::new();
    assert_eq!(registry.register(AnyPlugin::Logger(LoggerPlugin::new("log".to_string(), LogLevel::Info))), Ok(()));
    assert_eq!(registry.register(AnyPlugin::Auth(AuthPlugin::new("auth".to_string(), AuthType::Basic))), Ok(()));
    assert_eq!(registry.register(AnyPlugin::Metrics(MetricsPlugin::new("metrics".to_string()))), Ok(()));
    assert_eq!(
        registry.register(AnyPlugin::Auth(AuthPlugin::new("log".to_string(), AuthType::JWT))),
        Err("Plugin 'log' already registered".to_string())
    );
    assert_eq!(registry.list_plugins(), vec!["log".to_string(), "auth".to_string(), "metrics".to_string()]);
    assert_eq!(registry.get_plugin_info("log"), Some(("log".to_string(), "2.0.0".to_string())));
    assert_eq!(registry.get_plugin_info("auth"), Some(("auth".to_string(), "1.0.0".to_string())));
    assert_eq!(registry.get_plugin_info("none"), None);
    assert_eq!(registry.execute("log"), Ok("[log] Logger plugin executing at level Info".to_string()));
    assert_eq!(registry.execute("none"), Err("Plugin 'none' not found".to_string()));
    let lines = registry.execute_all();
    assert_eq!(lines.len(), 3);
    assert_eq!(lines[1], "[auth] Auth plugin using Basic Authentication");
    assert_eq!(registry.unregister("auth"), Ok(()));
    assert_eq!(registry.unregister("auth"), Err("Plugin 'auth' not found".to_string()));
    assert_eq!(registry.list_plugins(), vec!["log".to_string(), "metrics".to_string()]);
    let empty: PluginRegistry<LoggerPlugin> = PluginRegistry::default();
    assert!(empty.list_plugins().is_empty());
}
