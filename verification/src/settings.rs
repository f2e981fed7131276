//! Settings of the producer and the choice of the settings file.

use vstd::prelude::*;

verus! {

/// Where the metrics are served.
#[derive(Clone, Debug)]
pub struct MetricsSettings {
    pub endpoint: String,
    pub port: u16,
    /// Whether the metrics server is started at all.
    pub enable: bool,
}

/// How bursts of messages are sampled.
#[derive(Clone, Copy, Debug, PartialEq, Eq)]
pub enum BurstProbabilityDistribution {
    Uniform,
    Bernoulli,
}

/// Settings of the random message generator.
#[derive(Clone, Debug)]
pub struct RandomGeneratorSettings {
    /// Base rate of messages per second.
    pub messages_per_sec: u32,
    /// Size of every generated message.
    pub message_size_in_bytes: u64,
    /// Length of the run, in seconds.
    pub duration_in_sec: u64,
    /// Rate of messages per second during a burst.
    pub burst_messages_per_sec: u32,
    /// The probability of a burst, a floating-point number kept here by its
    /// IEEE 754 bit pattern (`f64::to_bits`): the library never reads it.
    pub burst_probability_bits: u64,
    pub sampling_distribution: BurstProbabilityDistribution,
}

/// Settings of the message generators.
#[derive(Clone, Debug)]
pub struct GeneratorSettings {
    pub random: Option<RandomGeneratorSettings>,
}

/// Credentials for a Kafka cluster that uses SASL.
#[derive(Clone, Debug)]
pub struct KafkaSecrets {
    pub username: String,
    pub password: String,
}

/// Settings of the Kafka producer.
#[derive(Clone, Debug)]
pub struct KafkaSettings {
    pub brokers: Vec<String>,
    pub sasl_enabled: bool,
    pub secrets: Option<KafkaSecrets>,
    /// Number of topics `topic_0` .. that messages are spread over.
    pub n_topics: u32,
    pub poll_timeout_in_ms: u64,
    /// Further client settings, as (key, value) pairs applied in order.
    pub additional_rdkafka_settings: Option<Vec<(String, String)>>,
}

/// Settings of the producer that prints to the standard output.
#[derive(Clone, Debug)]
pub struct StdoutSettings {}

/// How messages are handed to Redis.
#[derive(Clone, Copy, Debug, PartialEq, Eq)]
pub enum RedisMode {
    PubSub,
}

/// Settings of the Redis producer.
#[derive(Clone, Debug)]
pub struct RedisSettings {
    pub uri: String,
    pub n_conn: u32,
    pub mode: RedisMode,
}

/// Settings of the producers; the first one present is used.
#[derive(Clone, Debug)]
pub struct ProducerSettings {
    pub kafka: Option<KafkaSettings>,
    pub stdout: Option<StdoutSettings>,
    pub redis: Option<RedisSettings>,
}

/// All settings of the program.
#[derive(Clone, Debug)]
pub struct Settings {
    pub metrics: MetricsSettings,
    pub generator: GeneratorSettings,
    pub producer: ProducerSettings,
}

/// Name of the settings file read when no other is given.
pub open spec fn default_config_file() -> Seq<char> {
    "config.yml"@
}

/// The settings file chosen from the value of the environment variable
/// that names it: an absent or empty value falls back to the default.
pub open spec fn spec_config_file_name(env_value: Option<Seq<char>>) -> Seq<char> {
    match env_value {
        Some(v) => if v.len() == 0 { default_config_file() } else { v },
        None => default_config_file(),
    }
}

/// A non-empty value of the variable names the settings file as it is;
/// only an absent or empty value falls back to `config.yml`.
pub proof fn lemma_config_file_choice(v: Seq<char>)
    ensures
        v.len() > 0 ==> spec_config_file_name(Some(v)) == v,
        v.len() == 0 ==> spec_config_file_name(Some(v)) == "config.yml"@,
        spec_config_file_name(None) == "config.yml"@,
{
}

/// The view of an optional string.
pub open spec fn opt_view(s: Option<String>) -> Option<Seq<char>> {
    match s {
        Some(v) => Some(v@),
        None => None,
    }
}

/// Chooses the settings file from the value of the environment variable
/// that names it (`None` when the variable is not set).
pub fn config_file_name(env_value: Option<String>) -> (name: String)
    ensures
        name@ == spec_config_file_name(opt_view(env_value)),
        (env_value is Some && env_value->0@.len() > 0) ==> name@ == env_value->0@,
        (env_value is None || env_value->0@.len() == 0) ==> name@ == "config.yml"@,
{
    match env_value {
        Some(v) => {
            if v.as_str().is_empty() {
                String::from_str("config.yml")
            } else {
                v
            }
        },
        None => String::from_str("config.yml"),
    }
}

} // verus!
