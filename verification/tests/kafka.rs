use event_producer::producer::kafka::{choose_topic, client_config, topic_for_index};
use event_producer::settings::{KafkaSecrets, KafkaSettings};

fn settings(sasl: bool, secrets: Option<KafkaSecrets>, extra: Option<Vec<(String, String)>>) -> KafkaSettings {
    KafkaSettings {
        brokers: vec!["broker-1:9092".to_string(), "broker-2:9092".to_string()],
        sasl_enabled: sasl,
        secrets,
        n_topics: 3,
        poll_timeout_in_ms: 100,
        additional_rdkafka_settings: extra,
    }
}

fn secrets() -> KafkaSecrets {
    KafkaSecrets { username: "alice".to_string(), password: "SECRET-REDACTED".to_string() }
}

#[test]
fn kafka_config_without_sasl() {
    let config = client_config(&settings(false, Some(secrets()), None));
    assert_eq!(config.get("bootstrap.servers"), Some("broker-1:9092 broker-2:9092"));
    assert_eq!(config.get("api.version.request"), Some("true"));
    assert_eq!(config.get("broker.version.fallback"), Some("2.4.0"));
    assert_eq!(config.get("security.protocol"), None);
    assert_eq!(config.get("sasl.mechanism"), None);
    assert_eq!(config.get("sasl.username"), None);
    assert_eq!(config.get("sasl.password"), None);
}

#[test]
fn kafka_config_with_sasl() {
    let config = client_config(&settings(true, Some(secrets()), None));
    assert_eq!(config.get("bootstrap.servers"), Some("broker-1:9092 broker-2:9092"));
    assert_eq!(config.get("security.protocol"), Some("sasl_plaintext"));
    assert_eq!(config.get("sasl.mechanism"), Some("SCRAM-SHA-256"));
    assert_eq!(config.get("sasl.username"), Some("alice"));
    assert_eq!(config.get("sasl.password"), Some("SECRET-REDACTED"));
}

#[test]
fn kafka_additional_settings_are_applied_last() {
    let extra = vec![
        ("linger.ms".to_string(), "10".to_string()),
        ("bootstrap.servers".to_string(), "other:9092".to_string()),
        ("sasl.username".to_string(), "bob".to_string()),
    ];
    let config = client_config(&settings(false, None, Some(extra)));
    assert_eq!(config.get("bootstrap.servers"), Some("other:9092"));
    assert_eq!(config.get("linger.ms"), Some("10"));
    assert_eq!(config.get("api.version.request"), Some("true"));
    assert_eq!(config.get("sasl.username"), Some("bob"));
}

#[test]
fn kafka_additional_settings_override_credentials() {
    let extra = vec![("sasl.password".to_string(), "other-password".to_string())];
    let config = client_config(&settings(true, Some(secrets()), Some(extra)));
    assert_eq!(config.get("sasl.username"), Some("alice"));
    assert_eq!(config.get("sasl.password"), Some("other-password"));
}

#[test]
fn kafka_config_without_brokers() {
    let mut s = settings(false, None, None);
    s.brokers = vec![];
    let config = client_config(&s);
    assert_eq!(config.get("bootstrap.servers"), Some(""));
}

#[test]
fn topic_names_carry_their_index() {
    assert_eq!(topic_for_index(0), "topic_0");
    assert_eq!(topic_for_index(7), "topic_7");
    assert_eq!(topic_for_index(123), "topic_123");
}

#[test]
fn distinct_topics_have_distinct_names() {
    let names: Vec<String> = (0..50).map(topic_for_index).collect();
    for i in 0..names.len() {
        for j in 0..names.len() {
            assert_eq!(i == j, names[i] == names[j]);
        }
    }
}

#[test]
fn chosen_topic_is_one_of_the_configured() {
    let s = settings(false, None, None);
    for _ in 0..100 {
        let name = choose_topic(&s);
        assert!(name == "topic_0" || name == "topic_1" || name == "topic_2", "{}", name);
    }
}

#[test]
fn single_topic_is_always_chosen() {
    let mut s = settings(false, None, None);
    s.n_topics = 1;
    assert_eq!(choose_topic(&s), "topic_0");
}
