use event_producer::settings::{config_file_name, BurstProbabilityDistribution, RedisMode};

#[test]
fn config_file_defaults_when_variable_missing() {
    assert_eq!(config_file_name(None), "config.yml");
}

#[test]
fn config_file_defaults_when_variable_empty() {
    assert_eq!(config_file_name(Some(String::new())), "config.yml");
}

#[test]
fn config_file_taken_from_variable() {
    assert_eq!(config_file_name(Some("settings/prod.yml".to_string())), "settings/prod.yml");
}

#[test]
fn settings_enums_compare_by_variant() {
    assert_eq!(BurstProbabilityDistribution::Uniform, BurstProbabilityDistribution::Uniform);
    assert_ne!(BurstProbabilityDistribution::Uniform, BurstProbabilityDistribution::Bernoulli);
    assert_eq!(RedisMode::PubSub, RedisMode::PubSub);
}
