//! The Kafka client configuration of a source.
//!
//! Connecting, reading metadata and consuming happen outside the library;
//! the settings handed to the client are decided here.

use vstd::prelude::*;

use rdkafka::config::ClientConfig;

use crate::config::Profile;
use crate::error::Error;
use crate::text::{trim, trim_spec};

verus! {

/// `rdkafka::config::ClientConfig`, carried as an opaque value.
#[verifier::external_type_specification]
#[verifier::external_body]
pub struct ExClientConfig(rdkafka::config::ClientConfig);

/// Name for the key/value settings a `ClientConfig` holds.
pub uninterp spec fn client_entries(c: ClientConfig) -> Map<Seq<char>, Seq<char>>;

/// No setting at all.
pub open spec fn no_settings() -> Map<Seq<char>, Seq<char>> {
    Map::empty()
}

/// Calls `ClientConfig::new`. Claimed: it holds no setting (its map starts
/// empty in the crate's source).
#[verifier::external_body]
fn client_config_new() -> (r: ClientConfig)
    ensures
        client_entries(r) == no_settings(),
{
    ClientConfig::new()
}

/// Calls `ClientConfig::set`. Claimed: the setting `key` now has `value`,
/// replacing any earlier one, and no other setting changes (the crate's
/// source inserts into its map).
#[verifier::external_body]
fn client_config_set(c: &mut ClientConfig, key: &str, value: &str)
    ensures
        client_entries(*final(c)) == client_entries(*old(c)).insert(key@, value@),
{
    c.set(key, value);
}

/// Production source settings: the client configuration and whether a
/// consumer group was asked for.
pub struct RdkafkaSource {
    pub base_config: ClientConfig,
    pub explicit_group: bool,
}

/// The settings of a source for `profile`, joining `group` (a throwaway
/// group id when none is asked for, `explicit` telling which).
pub open spec fn source_settings(p: Profile, group: Seq<char>, explicit: bool) -> Map<
    Seq<char>,
    Seq<char>,
> {
    let base = no_settings().insert(
        "bootstrap.servers"@,
        trim_spec(p.brokers@),
    ).insert("group.id"@, group).insert(
        "enable.auto.commit"@,
        if explicit {
            "true"@
        } else {
            "false"@
        },
    );
    let with_store = if explicit {
        base
    } else {
        base.insert("enable.auto.offset.store"@, "false"@)
    };
    let with_reset = with_store.insert("auto.offset.reset"@, "earliest"@);
    match (p.sasl_mechanism, p.sasl_username, p.sasl_password) {
        (Some(m), Some(u), Some(w)) => with_reset.insert(
            "security.protocol"@,
            "SASL_PLAINTEXT"@,
        ).insert("sasl.mechanism"@, m@).insert("sasl.username"@, u@).insert(
            "sasl.password"@,
            w@,
        ),
        _ => with_reset,
    }
}

impl RdkafkaSource {
    /// Builds a source from a resolved profile. With `group_id` the consumer
    /// joins that group and commits offsets at the end of a consume;
    /// without, it uses `throwaway_group_id` and commits nothing. A profile
    /// whose brokers are blank is [`Error::KafkaBrokersMissing`].
    pub fn new(profile: &Profile, group_id: Option<&str>, throwaway_group_id: &str) -> (r: Result<
        Self,
        Error,
    >)
        ensures
            trim_spec(profile.brokers@).len() == 0 ==> r matches Err(Error::KafkaBrokersMissing),
            trim_spec(profile.brokers@).len() > 0 ==> (r matches Ok(s) && s.explicit_group == (
            group_id is Some) && client_entries(s.base_config) == source_settings(
                *profile,
                match group_id {
                    Some(g) => g@,
                    None => throwaway_group_id@,
                },
                group_id is Some,
            )),
    {
        let brokers = trim(profile.brokers.as_str());
        if brokers.as_str().unicode_len() == 0 {
            return Err(Error::KafkaBrokersMissing);
        }
        let mut cfg = client_config_new();
        client_config_set(&mut cfg, "bootstrap.servers", brokers.as_str());
        let gid: &str = match group_id {
            Some(s) => s,
            None => throwaway_group_id,
        };
        client_config_set(&mut cfg, "group.id", gid);
        client_config_set(
            &mut cfg,
            "enable.auto.commit",
            if group_id.is_some() {
                "true"
            } else {
                "false"
            },
        );
        if group_id.is_none() {
            client_config_set(&mut cfg, "enable.auto.offset.store", "false");
        }
        client_config_set(&mut cfg, "auto.offset.reset", "earliest");
        match (&profile.sasl_mechanism, &profile.sasl_username, &profile.sasl_password) {
            (Some(mech), Some(user), Some(pass)) => {
                client_config_set(&mut cfg, "security.protocol", "SASL_PLAINTEXT");
                client_config_set(&mut cfg, "sasl.mechanism", mech.as_str());
                client_config_set(&mut cfg, "sasl.username", user.as_str());
                client_config_set(&mut cfg, "sasl.password", pass.as_str());
            },
            _ => {},
        }
        Ok(RdkafkaSource { base_config: cfg, explicit_group: group_id.is_some() })
    }

    /// The client configuration consumers are created from.
    pub fn client_config(&self) -> (r: &ClientConfig)
        ensures
            *r == self.base_config,
    {
        &self.base_config
    }
}

} // verus!
