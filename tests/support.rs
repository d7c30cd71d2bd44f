use charcoal::{
    configure_kafka_ssl, consumer_config, get_unix_timestamp, new_random_id, producer_config,
    unix_millis, CharcoalConfig, SASLConfig, SSLConfig, REQUEST_ID_LEN,
};
use rdkafka::ClientConfig;

fn config(ssl: Option<SSLConfig>, sasl: Option<SASLConfig>) -> CharcoalConfig {
    CharcoalConfig { ssl, sasl, kafka_topic: "communication".to_string() }
}

fn ssl() -> SSLConfig {
    SSLConfig {
        ssl_key: "key.pem".to_string(),
        ssl_ca: "ca.pem".to_string(),
        ssl_cert: "cert.pem".to_string(),
    }
}

fn sasl() -> SASLConfig {
    SASLConfig { kafka_username: "user".to_string(), kafka_password: "SECRET-REDACTED".to_string() }
}

#[test]
fn random_ids_are_url_safe() {
    let a = new_random_id();
    let b = new_random_id();
    assert_eq!(a.chars().count(), REQUEST_ID_LEN);
    assert!(a.chars().all(|c| c == '_' || c == '-' || c.is_ascii_alphanumeric()));
    assert_ne!(a, b);
}

#[test]
fn clock_reads_after_epoch() {
    let d = get_unix_timestamp().unwrap();
    assert!(d.as_secs() > 1_500_000_000);
    assert!(unix_millis().unwrap() > 1_500_000_000_000);
}

#[test]
fn ssl_takes_precedence_over_sasl() {
    let c = configure_kafka_ssl(ClientConfig::new(), &config(Some(ssl()), Some(sasl())));
    assert_eq!(c.get("security.protocol"), Some("ssl"));
    assert_eq!(c.get("ssl.ca.location"), Some("ca.pem"));
    assert_eq!(c.get("ssl.certificate.location"), Some("cert.pem"));
    assert_eq!(c.get("ssl.key.location"), Some("key.pem"));
    assert_eq!(c.get("sasl.username"), None);
}

#[test]
fn sasl_settings_without_ssl() {
    let c = configure_kafka_ssl(ClientConfig::new(), &config(None, Some(sasl())));
    assert_eq!(c.get("security.protocol"), Some("SASL_SSL"));
    assert_eq!(c.get("sasl.mechanisms"), Some("PLAIN"));
    assert_eq!(c.get("sasl.username"), Some("user"));
    assert_eq!(c.get("sasl.password"), Some("SECRET-REDACTED"));
}

#[test]
fn no_security_settings_without_either() {
    let c = configure_kafka_ssl(ClientConfig::new(), &config(None, None));
    assert_eq!(c.get("security.protocol"), None);
}

#[test]
fn producer_and_consumer_settings() {
    let p = producer_config("broker:9092", &config(None, None));
    assert_eq!(p.get("bootstrap.servers"), Some("broker:9092"));
    let c = consumer_config("broker:9092", &config(None, Some(sasl())));
    assert_eq!(c.get("bootstrap.servers"), Some("broker:9092"));
    assert_eq!(c.get("enable.partition.eof"), Some("false"));
    assert_eq!(c.get("session.timeout.ms"), Some("6000"));
    assert_eq!(c.get("enable.auto.commit"), Some("true"));
    assert_eq!(c.get("security.protocol"), Some("SASL_SSL"));
    assert_eq!(c.get("group.id").unwrap().chars().count(), REQUEST_ID_LEN);
}
