//! The configuration of the Kafka client and the choice of topics.
//!
//! The client is configured by a sequence of (key, value) settings applied
//! in order, a later setting of a key replacing an earlier one: first the
//! brokers and the protocol versions, then the SASL credentials when SASL
//! is enabled, then the additional settings given by the user.

use vstd::prelude::*;

use crate::settings::KafkaSettings;
use crate::text::{
    decimal, decimal_string, is_ascii_digit, joined, join_strings, lemma_decimal_injective,
    lemma_decimal_is_numeral, numeral_value, string_views,
};

verus! {

#[verifier::external_type_specification]
#[verifier::external_body]
pub struct ExClientConfig(rdkafka::ClientConfig);

/// The parameters held by a Kafka client configuration, by key.
pub uninterp spec fn client_config_entries(config: rdkafka::ClientConfig) -> Map<Seq<char>, Seq<char>>;

/// `rdkafka::ClientConfig::new`: a configuration that holds no parameter.
#[verifier::external_body]
fn new_client_config() -> (config: rdkafka::ClientConfig)
    ensures
        client_config_entries(config).dom() == Set::<Seq<char>>::empty(),
{
    rdkafka::ClientConfig::new()
}

/// `rdkafka::ClientConfig::set`: the parameter `key` now holds `value`,
/// replacing any earlier value; the other parameters are unchanged.
#[verifier::external_body]
fn set_client_config(config: &mut rdkafka::ClientConfig, key: &str, value: &str)
    ensures
        client_config_entries(*final(config)) == client_config_entries(*old(config)).insert(
            key@,
            value@,
        ),
{
    config.set(key, value);
}

/// `fastrand::u32` over `0..n`: some number below `n`.
#[verifier::external_body]
fn random_below(n: u32) -> (r: u32)
    requires
        n > 0,
    ensures
        r < n,
{
    fastrand::u32(0..n)
}

/// A (key, value) setting.
pub type Setting = (Seq<char>, Seq<char>);

/// The parameters that result from applying `settings` in order to an
/// empty configuration.
pub open spec fn applied(settings: Seq<Setting>) -> Map<Seq<char>, Seq<char>>
    decreases settings.len(),
{
    if settings.len() == 0 {
        Map::empty()
    } else {
        applied(settings.drop_last()).insert(settings.last().0, settings.last().1)
    }
}

/// The value of the last setting of `key` in `settings`, if any.
pub open spec fn last_setting(settings: Seq<Setting>, key: Seq<char>) -> Option<Seq<char>>
    decreases settings.len(),
{
    if settings.len() == 0 {
        None
    } else if settings.last().0 == key {
        Some(settings.last().1)
    } else {
        last_setting(settings.drop_last(), key)
    }
}

/// No key occurs twice among the settings.
pub open spec fn keys_distinct(settings: Seq<Setting>) -> bool {
    forall|i: int, j: int| 0 <= i < j < settings.len() ==> settings[i].0 != settings[j].0
}

/// The views of (key, value) pairs of strings.
pub open spec fn setting_views(pairs: Seq<(String, String)>) -> Seq<Setting> {
    pairs.map_values(|p: (String, String)| (p.0@, p.1@))
}

/// The settings that precede the user's: brokers and protocol versions.
pub open spec fn base_settings(brokers: Seq<Seq<char>>) -> Seq<Setting> {
    seq![
        ("bootstrap.servers"@, joined(brokers, " "@)),
        ("api.version.request"@, "true"@),
        ("broker.version.fallback"@, "2.4.0"@),
    ]
}

/// The settings that authenticate with SASL.
pub open spec fn sasl_settings(username: Seq<char>, password: Seq<char>) -> Seq<Setting> {
    seq![
        ("security.protocol"@, "sasl_plaintext"@),
        ("sasl.mechanism"@, "SCRAM-SHA-256"@),
        ("sasl.username"@, username),
        ("sasl.password"@, password),
    ]
}

impl KafkaSettings {
    /// The additional settings of the user, in order.
    pub open spec fn additional_settings(&self) -> Seq<Setting> {
        match self.additional_rdkafka_settings {
            Some(v) => setting_views(v@),
            None => Seq::empty(),
        }
    }

    /// The user's additional settings name each key at most once.
    pub open spec fn additional_keys_distinct(&self) -> bool {
        keys_distinct(self.additional_settings())
    }

    /// The SASL settings, when SASL is enabled.
    pub open spec fn credential_settings(&self) -> Seq<Setting> {
        if self.sasl_enabled {
            match self.secrets {
                Some(s) => sasl_settings(s.username@, s.password@),
                None => Seq::empty(),
            }
        } else {
            Seq::empty()
        }
    }

    /// Every setting applied to the client configuration, in order.
    pub open spec fn client_settings(&self) -> Seq<Setting> {
        base_settings(string_views(self.brokers@)) + self.credential_settings()
            + self.additional_settings()
    }
}

/// The parameters applied are those of the last setting of each key.
pub proof fn lemma_applied_last_setting(settings: Seq<Setting>, key: Seq<char>)
    ensures
        applied(settings).contains_key(key) <==> last_setting(settings, key) is Some,
        last_setting(settings, key) is Some ==> applied(settings)[key] == last_setting(
            settings,
            key,
        ).unwrap(),
    decreases settings.len(),
{
    if settings.len() > 0 {
        lemma_applied_last_setting(settings.drop_last(), key);
    }
}

/// A key set among the later settings takes its value from them alone.
pub proof fn lemma_last_setting_append(first: Seq<Setting>, later: Seq<Setting>, key: Seq<char>)
    ensures
        last_setting(later, key) is Some ==> last_setting(first + later, key) == last_setting(
            later,
            key,
        ),
        last_setting(later, key) is None ==> last_setting(first + later, key) == last_setting(
            first,
            key,
        ),
    decreases later.len(),
{
    if later.len() == 0 {
        assert(first + later == first);
    } else {
        assert((first + later).drop_last() == first + later.drop_last());
        lemma_last_setting_append(first, later.drop_last(), key);
    }
}

/// Builds the configuration of the Kafka client from the settings.
pub fn client_config(settings: &KafkaSettings) -> (config: rdkafka::ClientConfig)
    requires
        settings.sasl_enabled ==> settings.secrets is Some,
        settings.additional_keys_distinct(),
    ensures
        client_config_entries(config) == applied(settings.client_settings()),
{
    let ghost all = settings.client_settings();
    let ghost base = base_settings(string_views(settings.brokers@));
    let ghost creds = settings.credential_settings();
    let mut config = new_client_config();
    assert(client_config_entries(config) =~= applied(Seq::<Setting>::empty()));
    let servers = join_strings(&settings.brokers, " ");
    set_client_config(&mut config, "bootstrap.servers", servers.as_str());
    proof {
        assert(base.take(1).drop_last() == Seq::<Setting>::empty());
        assert(client_config_entries(config) == applied(base.take(1)));
    }
    set_client_config(&mut config, "api.version.request", "true");
    proof {
        assert(base.take(2).drop_last() == base.take(1));
        assert(client_config_entries(config) == applied(base.take(2)));
    }
    set_client_config(&mut config, "broker.version.fallback", "2.4.0");
    proof {
        assert(base.take(3).drop_last() == base.take(2));
        assert(base.take(3) == base);
        assert(client_config_entries(config) == applied(base));
    }
    if settings.sasl_enabled {
        match &settings.secrets {
            Some(secrets) => {
                let ghost s = base + creds;
                set_client_config(&mut config, "security.protocol", "sasl_plaintext");
                proof {
                    assert(s.take(4).drop_last() == base);
                    assert(client_config_entries(config) == applied(s.take(4)));
                }
                set_client_config(&mut config, "sasl.mechanism", "SCRAM-SHA-256");
                proof {
                    assert(s.take(5).drop_last() == s.take(4));
                    assert(client_config_entries(config) == applied(s.take(5)));
                }
                set_client_config(&mut config, "sasl.username", secrets.username.as_str());
                proof {
                    assert(s.take(6).drop_last() == s.take(5));
                    assert(client_config_entries(config) == applied(s.take(6)));
                }
                set_client_config(&mut config, "sasl.password", secrets.password.as_str());
                proof {
                    assert(s.take(7).drop_last() == s.take(6));
                    assert(s.take(7) == s);
                    assert(client_config_entries(config) == applied(s));
                }
            },
            None => {},
        }
    } else {
        assert(base + creds == base);
    }
    let ghost prefix = base + creds;
    assert(client_config_entries(config) == applied(prefix));
    match &settings.additional_rdkafka_settings {
        Some(additional) => {
            let ghost extra = setting_views(additional@);
            let mut i: usize = 0;
            while i < additional.len()
                invariant
                    i <= additional.len(),
                    extra == setting_views(additional@),
                    client_config_entries(config) == applied(prefix + extra.take(i as int)),
                decreases additional.len() - i,
            {
                let (key, value) = &additional[i];
                set_client_config(&mut config, key.as_str(), value.as_str());
                assert((prefix + extra.take(i + 1)).drop_last() == prefix + extra.take(i as int));
                i = i + 1;
            }
            assert(extra.take(additional.len() as int) == extra);
        },
        None => {
            assert(prefix + Seq::<Setting>::empty() == prefix);
        },
    }
    config
}

/// The keys that the library sets are distinct from one another.
proof fn lemma_setting_keys_distinct()
    ensures
        "bootstrap.servers"@ != "api.version.request"@,
        "bootstrap.servers"@ != "broker.version.fallback"@,
        "bootstrap.servers"@ != "security.protocol"@,
        "bootstrap.servers"@ != "sasl.mechanism"@,
        "bootstrap.servers"@ != "sasl.username"@,
        "bootstrap.servers"@ != "sasl.password"@,
        "sasl.username"@ != "sasl.password"@,
        "sasl.username"@ != "api.version.request"@,
        "sasl.username"@ != "broker.version.fallback"@,
        "sasl.username"@ != "security.protocol"@,
        "sasl.username"@ != "sasl.mechanism"@,
        "sasl.password"@ != "api.version.request"@,
        "sasl.password"@ != "broker.version.fallback"@,
        "sasl.password"@ != "security.protocol"@,
        "sasl.password"@ != "sasl.mechanism"@,
{
    reveal_strlit("bootstrap.servers");
    reveal_strlit("api.version.request");
    reveal_strlit("broker.version.fallback");
    reveal_strlit("security.protocol");
    reveal_strlit("sasl.mechanism");
    reveal_strlit("sasl.username");
    reveal_strlit("sasl.password");
    assert("bootstrap.servers"@.len() != "broker.version.fallback"@.len());
    assert("bootstrap.servers"@[0] != "api.version.request"@[0]);
    assert("bootstrap.servers"@[0] != "security.protocol"@[0]);
    assert("sasl.username"@[5] != "sasl.password"@[5]);
}

/// The last setting of a key among three.
proof fn lemma_last_setting_three(x: Setting, y: Setting, z: Setting, key: Seq<char>)
    ensures
        last_setting(seq![x, y, z], key) == (if z.0 == key {
            Some(z.1)
        } else if y.0 == key {
            Some(y.1)
        } else if x.0 == key {
            Some(x.1)
        } else {
            None
        }),
{
    assert(seq![x, y, z].drop_last() == seq![x, y]);
    assert(seq![x, y].drop_last() == seq![x]);
    assert(seq![x].drop_last() == Seq::<Setting>::empty());
    assert(seq![x, y, z].last() == z);
    assert(seq![x, y].last() == y);
    assert(seq![x].last() == x);
    assert(last_setting(Seq::<Setting>::empty(), key) is None);
    assert(last_setting(seq![x], key) == (if x.0 == key { Some(x.1) } else { None }));
    assert(last_setting(seq![x, y], key) == (if y.0 == key {
        Some(y.1)
    } else {
        last_setting(seq![x], key)
    }));
}

/// The last setting of a key among four.
proof fn lemma_last_setting_four(w: Setting, x: Setting, y: Setting, z: Setting, key: Seq<char>)
    ensures
        last_setting(seq![w, x, y, z], key) == (if z.0 == key {
            Some(z.1)
        } else {
            last_setting(seq![w, x, y], key)
        }),
{
    assert(seq![w, x, y, z].drop_last() == seq![w, x, y]);
    assert(seq![w, x, y, z].last() == z);
}

/// A key that the user's additional settings name takes the value of the
/// last of them, whatever the brokers and credentials would give it.
pub proof fn lemma_additional_settings_win(settings: KafkaSettings, key: Seq<char>)
    requires
        last_setting(settings.additional_settings(), key) is Some,
    ensures
        applied(settings.client_settings()).contains_key(key),
        applied(settings.client_settings())[key] == last_setting(
            settings.additional_settings(),
            key,
        ).unwrap(),
{
    let first = base_settings(string_views(settings.brokers@)) + settings.credential_settings();
    lemma_last_setting_append(first, settings.additional_settings(), key);
    lemma_applied_last_setting(settings.client_settings(), key);
}

/// Among settings with distinct keys, the setting of a key is its only one.
pub proof fn lemma_distinct_last_setting(settings: Seq<Setting>, i: int)
    requires
        keys_distinct(settings),
        0 <= i < settings.len(),
    ensures
        last_setting(settings, settings[i].0) == Some(settings[i].1),
    decreases settings.len(),
{
    if i < settings.len() - 1 {
        let shorter = settings.drop_last();
        assert(settings.last().0 != settings[i].0);
        assert(keys_distinct(shorter)) by {
            assert forall|a: int, b: int| 0 <= a < b < shorter.len() implies shorter[a].0
                != shorter[b].0 by {
                assert(shorter[a] == settings[a] && shorter[b] == settings[b]);
            }
        }
        assert(shorter[i] == settings[i]);
        lemma_distinct_last_setting(shorter, i);
    }
}

/// Each of the user's additional settings reaches the client as given,
/// whatever the brokers and credentials would give its key.
pub proof fn lemma_additional_setting_applied(settings: KafkaSettings, i: int)
    requires
        settings.additional_keys_distinct(),
        0 <= i < settings.additional_settings().len(),
    ensures
        applied(settings.client_settings()).contains_key(settings.additional_settings()[i].0),
        applied(settings.client_settings())[settings.additional_settings()[i].0]
            == settings.additional_settings()[i].1,
{
    let extra = settings.additional_settings();
    lemma_distinct_last_setting(extra, i);
    lemma_additional_settings_win(settings, extra[i].0);
}

/// The last setting of `key` among the settings that precede the user's.
proof fn lemma_leading_settings(settings: KafkaSettings, key: Seq<char>)
    ensures
        last_setting(
            base_settings(string_views(settings.brokers@)) + settings.credential_settings(),
            key,
        ) == (if settings.credential_settings().len() > 0 && last_setting(
            settings.credential_settings(),
            key,
        ) is Some {
            last_setting(settings.credential_settings(), key)
        } else {
            last_setting(base_settings(string_views(settings.brokers@)), key)
        }),
{
    let base = base_settings(string_views(settings.brokers@));
    let creds = settings.credential_settings();
    lemma_last_setting_append(base, creds, key);
    if creds.len() == 0 {
        assert(last_setting(creds, key) is None);
    }
}

/// Unless the additional settings name it, `bootstrap.servers` lists the
/// brokers, separated by single spaces.
pub proof fn lemma_brokers_setting(settings: KafkaSettings)
    requires
        last_setting(settings.additional_settings(), "bootstrap.servers"@) is None,
    ensures
        applied(settings.client_settings()).contains_key("bootstrap.servers"@),
        applied(settings.client_settings())["bootstrap.servers"@] == joined(
            string_views(settings.brokers@),
            " "@,
        ),
{
    let key = "bootstrap.servers"@;
    let base = base_settings(string_views(settings.brokers@));
    let creds = settings.credential_settings();
    lemma_setting_keys_distinct();
    lemma_last_setting_append(base + creds, settings.additional_settings(), key);
    lemma_leading_settings(settings, key);
    lemma_last_setting_three(base[0], base[1], base[2], key);
    assert(base == seq![base[0], base[1], base[2]]);
    if creds.len() > 0 {
        let c = creds;
        assert(c == seq![c[0], c[1], c[2], c[3]]);
        lemma_last_setting_four(c[0], c[1], c[2], c[3], key);
        lemma_last_setting_three(c[0], c[1], c[2], key);
    }
    lemma_applied_last_setting(settings.client_settings(), key);
}

/// With SASL enabled, the client authenticates with the configured user
/// name and password, unless the additional settings name those keys.
pub proof fn lemma_sasl_credentials(settings: KafkaSettings)
    requires
        settings.sasl_enabled,
        settings.secrets is Some,
        last_setting(settings.additional_settings(), "sasl.username"@) is None,
        last_setting(settings.additional_settings(), "sasl.password"@) is None,
    ensures
        applied(settings.client_settings())["sasl.username"@] == settings.secrets.unwrap().username@,
        applied(settings.client_settings())["sasl.password"@] == settings.secrets.unwrap().password@,
{
    let base = base_settings(string_views(settings.brokers@));
    let c = settings.credential_settings();
    let user = "sasl.username"@;
    let pass = "sasl.password"@;
    lemma_setting_keys_distinct();
    lemma_last_setting_append(base + c, settings.additional_settings(), user);
    lemma_last_setting_append(base + c, settings.additional_settings(), pass);
    lemma_leading_settings(settings, user);
    lemma_leading_settings(settings, pass);
    assert(c == seq![c[0], c[1], c[2], c[3]]);
    lemma_last_setting_four(c[0], c[1], c[2], c[3], user);
    lemma_last_setting_four(c[0], c[1], c[2], c[3], pass);
    lemma_last_setting_three(c[0], c[1], c[2], user);
    lemma_applied_last_setting(settings.client_settings(), user);
    lemma_applied_last_setting(settings.client_settings(), pass);
}

/// With SASL disabled, no credential reaches the client unless the
/// additional settings name it.
pub proof fn lemma_no_credentials_without_sasl(settings: KafkaSettings)
    requires
        !settings.sasl_enabled,
        last_setting(settings.additional_settings(), "sasl.username"@) is None,
        last_setting(settings.additional_settings(), "sasl.password"@) is None,
    ensures
        !applied(settings.client_settings()).contains_key("sasl.username"@),
        !applied(settings.client_settings()).contains_key("sasl.password"@),
{
    let base = base_settings(string_views(settings.brokers@));
    let user = "sasl.username"@;
    let pass = "sasl.password"@;
    lemma_setting_keys_distinct();
    lemma_last_setting_append(base + settings.credential_settings(), settings.additional_settings(), user);
    lemma_last_setting_append(base + settings.credential_settings(), settings.additional_settings(), pass);
    lemma_leading_settings(settings, user);
    lemma_leading_settings(settings, pass);
    assert(base == seq![base[0], base[1], base[2]]);
    lemma_last_setting_three(base[0], base[1], base[2], user);
    lemma_last_setting_three(base[0], base[1], base[2], pass);
    lemma_applied_last_setting(settings.client_settings(), user);
    lemma_applied_last_setting(settings.client_settings(), pass);
}

/// The name of topic number `index`.
pub open spec fn topic_name(index: nat) -> Seq<char> {
    "topic_"@ + decimal(index)
}

/// A topic's name is `topic_` followed by the standard decimal numeral of
/// its number: ASCII digits only, denoting the number, with no leading
/// zero.
pub proof fn lemma_topic_name_numeral(index: nat)
    ensures
        topic_name(index).len() > 6,
        topic_name(index).subrange(0, 6) == "topic_"@,
        forall|i: int|
            6 <= i < topic_name(index).len() ==> is_ascii_digit(#[trigger] topic_name(index)[i]),
        numeral_value(topic_name(index).subrange(6, topic_name(index).len() as int)) == index,
        index > 0 ==> (topic_name(index)[6] as u32) != 48,
{
    reveal_strlit("topic_");
    lemma_decimal_is_numeral(index);
    let t = topic_name(index);
    let p = "topic_"@;
    assert(t.subrange(0, 6) == p);
    assert(t.subrange(6, t.len() as int) == decimal(index));
    assert forall|i: int| 6 <= i < t.len() implies is_ascii_digit(#[trigger] t[i]) by {
        assert(t[i] == decimal(index)[i - 6]);
    }
    assert(t[6] == decimal(index)[0]);
}

/// Names topic number `index`.
pub fn topic_for_index(index: u32) -> (name: String)
    ensures
        name@ == topic_name(index as nat),
        name@.subrange(0, 6) == "topic_"@,
        forall|i: int| 6 <= i < name@.len() ==> is_ascii_digit(#[trigger] name@[i]),
        numeral_value(name@.subrange(6, name@.len() as int)) == index,
{
    proof {
        lemma_topic_name_numeral(index as nat);
    }
    let mut name = String::from_str("topic_");
    let numeral = decimal_string(index);
    name.append(numeral.as_str());
    name
}

/// Whether `index` is a number that a draw below `n` can give: the result
/// of a call of `random_below(n)`, and nothing made up otherwise.
pub closed spec fn drawn_below(n: u32, index: u32) -> bool {
    call_ensures(random_below, (n,), index)
}

/// A drawn index is below the bound it was drawn under.
pub proof fn lemma_drawn_index_below(n: u32, index: u32)
    requires
        drawn_below(n, index),
    ensures
        index < n,
{
}

/// Picks, at random, one of the `n_topics` topics of the settings: the
/// topic whose number was drawn below `n_topics`.
pub fn choose_topic(settings: &KafkaSettings) -> (name: String)
    requires
        settings.n_topics > 0,
    ensures
        exists|i: u32|
            #![trigger drawn_below(settings.n_topics, i)]
            drawn_below(settings.n_topics, i) && i < settings.n_topics && name@ == topic_name(
                i as nat,
            ),
{
    let index = random_below(settings.n_topics);
    let name = topic_for_index(index);
    assert(drawn_below(settings.n_topics, index));
    name
}

/// Distinct topics have distinct names.
pub proof fn lemma_topic_names_distinct(i: nat, j: nat)
    requires
        i != j,
    ensures
        topic_name(i) != topic_name(j),
{
    if topic_name(i) == topic_name(j) {
        let p = "topic_"@;
        assert(topic_name(i).subrange(p.len() as int, topic_name(i).len() as int) == decimal(i));
        assert(topic_name(j).subrange(p.len() as int, topic_name(j).len() as int) == decimal(j));
        lemma_decimal_injective(i, j);
    }
}

} // verus!
