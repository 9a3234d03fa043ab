use trmnl_server::app::App;
use trmnl_server::config::{ConfigError, LogFormat, LoggingSettings, ServerConfig};
use trmnl_server::credentials::{friendly_id_from_hex, generate_credentials};
use trmnl_server::handlers::effective_refresh_rate;
use trmnl_server::text::text_precedes;

#[test]
fn config_loads_with_defaults() {
    let config = ServerConfig::load(Some("devices.db".to_string()), Some("http://example.com/logo.png".to_string()), None).unwrap();
    assert_eq!(config.database.path, "devices.db");
    assert_eq!(config.app.setup_logo_url, "http://example.com/logo.png");
    assert_eq!(config.logging.format, LogFormat::Json);
}

#[test]
fn config_reads_log_format() {
    let config = ServerConfig::load(Some("d".to_string()), Some("u".to_string()), Some("pretty".to_string())).unwrap();
    assert_eq!(config.logging.format, LogFormat::Pretty);
    assert_eq!(LogFormat::from_name("json"), Some(LogFormat::Json));
    assert_eq!(LogFormat::from_name("Json"), None);
}

#[test]
fn config_refusals() {
    assert_eq!(ServerConfig::load(None, Some("u".to_string()), None).unwrap_err(), ConfigError::MissingDatabasePath);
    assert_eq!(ServerConfig::load(Some("d".to_string()), None, None).unwrap_err(), ConfigError::MissingSetupLogoUrl);
    assert_eq!(
        ServerConfig::load(Some("d".to_string()), Some("u".to_string()), Some("xml".to_string())).unwrap_err(),
        ConfigError::UnknownLogFormat
    );
}

#[test]
fn defaults_are_json() {
    assert_eq!(LogFormat::default(), LogFormat::Json);
    assert_eq!(LoggingSettings::default().format, LogFormat::Json);
}

#[test]
fn app_can_be_made() {
    let _app = App::new();
}

#[test]
fn friendly_id_is_upper_cased_prefix() {
    assert_eq!(friendly_id_from_hex("abcdef0123456789abcdef0123456789"), "ABCDEF");
    assert_eq!(friendly_id_from_hex("0a1b2c3d"), "0A1B2C");
    assert_eq!(friendly_id_from_hex("ab"), "AB");
}

#[test]
fn generated_credentials_have_their_shape() {
    let c = generate_credentials();
    assert_eq!(c.friendly_id.chars().count(), 6);
    assert!(c.friendly_id.chars().all(|ch| ch.is_ascii_digit() || ('A'..='F').contains(&ch)));
    assert_eq!(c.api_key.chars().count(), 22);
    assert!(c.api_key.chars().all(|ch| ch.is_ascii_alphanumeric()));
}

#[test]
fn refresh_rate_echo_or_default() {
    assert_eq!(effective_refresh_rate(""), "1800");
    assert_eq!(effective_refresh_rate("60"), "60");
}

#[test]
fn text_order_is_lexicographic() {
    assert!(text_precedes("A1", "A10"));
    assert!(text_precedes("A10", "B"));
    assert!(!text_precedes("B", "A10"));
    assert!(!text_precedes("same", "same"));
    assert!(text_precedes("", "a"));
    assert!(text_precedes("Z", "a"));
}
