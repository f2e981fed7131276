use event_producer::producer::redis::RedisProducer;
use event_producer::producer::stdout::StdoutProducer;
use event_producer::settings::{RedisMode, RedisSettings, StdoutSettings};

fn redis_settings(uri: &str) -> RedisSettings {
    RedisSettings { uri: uri.to_string(), n_conn: 2, mode: RedisMode::PubSub }
}

#[test]
fn redis_default_has_no_client() {
    let p = RedisProducer::default();
    assert_eq!(p._settings.uri, "");
    assert_eq!(p._settings.n_conn, 0);
    assert_eq!(p._settings.mode, RedisMode::PubSub);
    assert!(p.client.is_none());
}

#[test]
fn redis_instantiate_keeps_settings_and_client() {
    let mut p = RedisProducer::default();
    p.instantiate(redis_settings("redis://127.0.0.1:6379"));
    assert_eq!(p._settings.uri, "redis://127.0.0.1:6379");
    assert_eq!(p._settings.n_conn, 2);
    assert!(p.client.is_some());
}

#[test]
fn redis_try_instantiate_accepts_redis_urls() {
    let mut p = RedisProducer::default();
    assert!(p.try_instantiate(redis_settings("redis://:pw@localhost:6380/1")));
    assert!(p.client.is_some());
    assert_eq!(p._settings.uri, "redis://:pw@localhost:6380/1");
}

#[test]
fn redis_try_instantiate_refuses_other_urls() {
    let mut p = RedisProducer::default();
    assert!(!p.try_instantiate(redis_settings("http://localhost:6379")));
    assert!(!p.try_instantiate(redis_settings("not a url")));
    assert!(p.client.is_none());
    assert_eq!(p._settings.uri, "");
}

#[test]
fn stdout_default_and_instantiate() {
    let mut p = StdoutProducer::default();
    p.instantiate(StdoutSettings {});
    let _copy = p.clone();
}

fn tcp_address(p: &RedisProducer) -> (String, u16, i64) {
    let info = p.client.as_ref().unwrap().get_connection_info();
    match &info.addr {
        redis::ConnectionAddr::Tcp(host, port) => (host.clone(), *port, info.redis.db),
        other => panic!("unexpected address {:?}", other),
    }
}

#[test]
fn redis_client_is_made_of_the_uri() {
    let mut p = RedisProducer::default();
    p.instantiate(redis_settings("redis://cache.example:6390/3"));
    assert_eq!(tcp_address(&p), ("cache.example".to_string(), 6390, 3));
}

#[test]
fn redis_second_instantiate_wins() {
    let mut p = RedisProducer::default();
    p.instantiate(redis_settings("redis://first-host:6379/0"));
    p.instantiate(redis_settings("redis://second-host:6380/2"));
    assert_eq!(p._settings.uri, "redis://second-host:6380/2");
    assert_eq!(tcp_address(&p), ("second-host".to_string(), 6380, 2));
    assert!(p.try_instantiate(redis_settings("redis://third-host")));
    assert_eq!(tcp_address(&p), ("third-host".to_string(), 6379, 0));
}
