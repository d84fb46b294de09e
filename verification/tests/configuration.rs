use eans::config::Config;
use eans::config::ConfigError;
use eans::service::listing_query;

#[test]
fn all_values_present_builds_config() {
    let r = Config::from_env_values(
        Some("db.local".to_string()),
        Some("alice".to_string()),
        Some("pw".to_string()),
    );
    let cfg = r.expect("all values were present");
    assert_eq!(cfg.host, "db.local");
    assert_eq!(cfg.user, "alice");
    assert_eq!(cfg.password, "pw");
}

#[test]
fn missing_host_is_reported() {
    let r = Config::from_env_values(None, Some("alice".to_string()), Some("pw".to_string()));
    assert_eq!(r, Err(ConfigError::MissingHost));
    assert_eq!(ConfigError::MissingHost.variable_name(), "POSTGRES_HOST");
}

#[test]
fn missing_user_is_reported() {
    let r = Config::from_env_values(Some("db.local".to_string()), None, Some("pw".to_string()));
    assert_eq!(r, Err(ConfigError::MissingUser));
    assert_eq!(ConfigError::MissingUser.variable_name(), "POSTGRES_USER");
}

#[test]
fn missing_password_is_reported() {
    let r = Config::from_env_values(Some("db.local".to_string()), Some("alice".to_string()), None);
    assert_eq!(r, Err(ConfigError::MissingPassword));
    assert_eq!(ConfigError::MissingPassword.variable_name(), "POSTGRES_PASSWORD");
}

#[test]
fn missing_host_is_reported_first() {
    let r = Config::from_env_values(None, None, None);
    assert_eq!(r, Err(ConfigError::MissingHost));
}

#[test]
fn connection_string_is_exact() {
    let cfg = Config {
        host: "localhost".to_string(),
        user: "postgres".to_string(),
        password: "s3cret".to_string(),
    };
    assert_eq!(
        cfg.connection_string(),
        "host=localhost user=postgres password=s3cret dbname=panso"
    );
}

#[test]
fn listing_query_is_exact() {
    assert_eq!(listing_query(), "SELECT ean, name FROM eans");
}
