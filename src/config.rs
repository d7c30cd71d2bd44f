//! Configuration of the bus clients: which settings the consumer and the
//! producer are created with.
use crate::ids::{is_request_id, new_random_id};
use rdkafka::ClientConfig;
use vstd::prelude::*;

verus! {

/// TLS files for the bus connection.
pub struct SSLConfig {
    /// Path to the key file.
    pub ssl_key: String,
    /// Path to the certificate authority file.
    pub ssl_ca: String,
    /// Path to the certificate file.
    pub ssl_cert: String,
}

/// User name and password for the bus connection.
pub struct SASLConfig {
    pub kafka_username: String,
    pub kafka_password: String,
}

/// How to reach the bus.
pub struct CharcoalConfig {
    /// TLS settings; where present they take precedence over `sasl`.
    pub ssl: Option<SSLConfig>,
    /// User name and password, used where `ssl` is absent.
    pub sasl: Option<SASLConfig>,
    /// The topic that the worker pool listens and answers on.
    pub kafka_topic: String,
}

#[verifier::external_type_specification]
#[verifier::external_body]
pub struct ExClientConfig(ClientConfig);

/// The settings that a client configuration holds, by name.
pub uninterp spec fn config_entries(c: ClientConfig) -> Map<Seq<char>, Seq<char>>;

/// Relies on `ClientConfig::new`: a configuration without settings.
#[verifier::external_body]
fn new_client_config() -> (r: ClientConfig)
    ensures
        config_entries(r) =~= Map::empty(),
{
    ClientConfig::new()
}

/// Relies on `ClientConfig::set`: the setting `key` takes the value `value`,
/// replacing any earlier value, and the other settings stay.
#[verifier::external_body]
fn set_entry(c: &mut ClientConfig, key: &str, value: &str)
    ensures
        config_entries(*final(c)) == config_entries(*old(c)).insert(key@, value@),
{
    c.set(key, value);
}

/// The settings `m` with the security settings of `config` added: TLS files
/// where `ssl` is present, else user name and password where `sasl` is, else
/// nothing.
pub open spec fn with_security(m: Map<Seq<char>, Seq<char>>, config: CharcoalConfig) -> Map<
    Seq<char>,
    Seq<char>,
> {
    match config.ssl {
        Some(ssl) => m.insert("security.protocol"@, "ssl"@).insert(
            "ssl.ca.location"@,
            ssl.ssl_ca@,
        ).insert("ssl.certificate.location"@, ssl.ssl_cert@).insert(
            "ssl.key.location"@,
            ssl.ssl_key@,
        ),
        None => match config.sasl {
            Some(sasl) => m.insert("security.protocol"@, "SASL_SSL"@).insert(
                "sasl.mechanisms"@,
                "PLAIN"@,
            ).insert("sasl.username"@, sasl.kafka_username@).insert(
                "sasl.password"@,
                sasl.kafka_password@,
            ),
            None => m,
        },
    }
}

/// Adds the security settings of `config` to `kafka_config`.
pub fn configure_kafka_ssl(kafka_config: ClientConfig, config: &CharcoalConfig) -> (r:
    ClientConfig)
    ensures
        config_entries(r) == with_security(config_entries(kafka_config), *config),
{
    let mut c = kafka_config;
    match &config.ssl {
        Some(ssl) => {
            set_entry(&mut c, "security.protocol", "ssl");
            set_entry(&mut c, "ssl.ca.location", ssl.ssl_ca.as_str());
            set_entry(&mut c, "ssl.certificate.location", ssl.ssl_cert.as_str());
            set_entry(&mut c, "ssl.key.location", ssl.ssl_key.as_str());
        },
        None => match &config.sasl {
            Some(sasl) => {
                set_entry(&mut c, "security.protocol", "SASL_SSL");
                set_entry(&mut c, "sasl.mechanisms", "PLAIN");
                set_entry(&mut c, "sasl.username", sasl.kafka_username.as_str());
                set_entry(&mut c, "sasl.password", sasl.kafka_password.as_str());
            },
            None => {},
        },
    }
    c
}

/// The settings of the producer: the broker to reach, and security.
pub fn producer_config(broker: &str, config: &CharcoalConfig) -> (r: ClientConfig)
    ensures
        config_entries(r) == with_security(
            Map::<Seq<char>, Seq<char>>::empty().insert("bootstrap.servers"@, broker@),
            *config,
        ),
{
    let mut c = new_client_config();
    assert(config_entries(c) == Map::<Seq<char>, Seq<char>>::empty());
    set_entry(&mut c, "bootstrap.servers", broker);
    configure_kafka_ssl(c, config)
}

/// The consumer's settings before security is added, for the consumer group
/// `group_id`.
pub open spec fn consumer_base(group_id: Seq<char>, brokers: Seq<char>) -> Map<
    Seq<char>,
    Seq<char>,
> {
    Map::<Seq<char>, Seq<char>>::empty().insert("group.id"@, group_id).insert(
        "bootstrap.servers"@,
        brokers,
    ).insert("enable.partition.eof"@, "false"@).insert("session.timeout.ms"@, "6000"@).insert(
        "enable.auto.commit"@,
        "true"@,
    ).insert("security.protocol"@, "ssl"@)
}

/// The settings of the consumer, in a consumer group of its own with a
/// random name, drawn as a request identifier is.
pub fn consumer_config(brokers: &str, config: &CharcoalConfig) -> (r: ClientConfig)
    ensures
        exists|group_id: Seq<char>|
            is_request_id(group_id) && config_entries(r) == with_security(
                #[trigger] consumer_base(group_id, brokers@),
                *config,
            ),
{
    let group_id = new_random_id();
    let mut c = new_client_config();
    assert(config_entries(c) == Map::<Seq<char>, Seq<char>>::empty());
    set_entry(&mut c, "group.id", group_id.as_str());
    set_entry(&mut c, "bootstrap.servers", brokers);
    set_entry(&mut c, "enable.partition.eof", "false");
    set_entry(&mut c, "session.timeout.ms", "6000");
    set_entry(&mut c, "enable.auto.commit", "true");
    set_entry(&mut c, "security.protocol", "ssl");
    assert(config_entries(c) == consumer_base(group_id@, brokers@));
    configure_kafka_ssl(c, config)
}

} // verus!
