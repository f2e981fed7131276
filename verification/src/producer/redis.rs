//! The producer that publishes messages on a Redis channel.
//!
//! The library prepares the Redis client from the settings; connecting and
//! publishing are left to the program around it.

use vstd::prelude::*;

use crate::settings::{RedisMode, RedisSettings};

verus! {

#[verifier::external_type_specification]
#[verifier::external_body]
pub struct ExRedisClient(::redis::Client);

#[verifier::external_type_specification]
#[verifier::external_body]
pub struct ExRedisError(::redis::RedisError);

/// Whether `redis::Client::open` accepts `uri`: it parses `uri` as a URL of
/// scheme `redis`, `rediss`, `unix` or `redis+unix` and checks its host or
/// socket path, database number and credentials. The answer depends on the
/// text of `uri` alone, given the platform and features the library is
/// built with (`rediss` needs a TLS feature, `unix` a Unix platform); what
/// exactly it accepts is left unsaid here.
pub uninterp spec fn redis_uri_accepted(uri: Seq<char>) -> bool;

/// The client that `redis::Client::open` makes of an accepted `uri`: the
/// connection information parsed from its text (address, database number,
/// credentials), with no connection opened.
pub uninterp spec fn redis_client_for(uri: Seq<char>) -> ::redis::Client;

/// `redis::Client::open` on a URL: it parses the URL and opens no
/// connection yet. It succeeds exactly on the URLs it accepts, and the
/// client it returns is the one made of the URL's text.
#[verifier::external_body]
fn open_client(uri: String) -> (res: Result<::redis::Client, ::redis::RedisError>)
    ensures
        res is Ok <==> redis_uri_accepted(uri@),
        res matches Ok(c) ==> c == redis_client_for(uri@),
{
    ::redis::Client::open(uri)
}

/// Publishes messages on a Redis channel through the client it holds.
pub struct RedisProducer {
    pub _settings: RedisSettings,
    pub client: Option<::redis::Client>,
}

impl Default for RedisProducer {
    /// A producer with empty settings and no client.
    fn default() -> (p: Self)
        ensures
            p._settings.uri@ == Seq::<char>::empty(),
            p._settings.n_conn == 0,
            p._settings.mode == RedisMode::PubSub,
            p.client is None,
    {
        RedisProducer {
            _settings: RedisSettings { uri: String::new(), n_conn: 0, mode: RedisMode::PubSub },
            client: None,
        }
    }
}

impl RedisProducer {
    /// Takes the settings and prepares a client for their URI.
    pub fn instantiate(&mut self, settings: RedisSettings)
        requires
            redis_uri_accepted(settings.uri@),
        ensures
            final(self)._settings == settings,
            final(self).client == Some(redis_client_for(settings.uri@)),
    {
        match open_client(settings.uri.clone()) {
            Ok(client) => {
                self._settings = settings;
                self.client = Some(client);
            },
            Err(_) => {},
        }
    }

    /// Takes the settings and prepares a client, when their URI is one that
    /// Redis accepts; otherwise leaves the producer as it was and returns
    /// `false`. The URI is parsed once to learn whether it is accepted and
    /// once more by `instantiate`, which keeps the client it makes.
    pub fn try_instantiate(&mut self, settings: RedisSettings) -> (accepted: bool)
        ensures
            accepted == redis_uri_accepted(settings.uri@),
            accepted ==> final(self)._settings == settings && final(self).client == Some(
                redis_client_for(settings.uri@),
            ),
            !accepted ==> *final(self) == *old(self),
    {
        match open_client(settings.uri.clone()) {
            Ok(_) => {
                self.instantiate(settings);
                true
            },
            Err(_) => false,
        }
    }
}

} // verus!
