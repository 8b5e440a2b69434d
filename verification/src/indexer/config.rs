//! The configuration of the indexer.
use vstd::prelude::*;

use crate::settings::find_setting;
use crate::settings::setting;
use crate::text::dec;
use crate::text::dec_parses_back;
use crate::text::parse_bounded;
use crate::text::parse_u64;

verus! {

broadcast use vstd::string::group_string_axioms;

/// The configuration of the indexer.
#[derive(Debug)]
pub struct Config {
    pub database_url: String,
    pub redis_url: String,
    /// For how many days events are kept, where that is limited.
    pub event_retention_days: Option<u64>,
}

impl Config {
    /// The configuration that the given variables make up. Both URLs have to be set; a retention
    /// that is no number counts as none.
    pub fn from_env(vars: &[(String, String)]) -> (r: Self)
        requires
            setting(vars@, "DATABASE_URL"@) is Some,
            setting(vars@, "REDIS_URL"@) is Some,
        ensures
            Some(r.database_url@) == setting(vars@, "DATABASE_URL"@),
            Some(r.redis_url@) == setting(vars@, "REDIS_URL"@),
            match r.event_retention_days {
                Some(days) => setting(vars@, "EVENT_RETENTION_DAYS"@) is Some && parse_bounded(
                    setting(vars@, "EVENT_RETENTION_DAYS"@)->0,
                    u64::MAX as nat,
                ) == Some(days as nat),
                None => setting(vars@, "EVENT_RETENTION_DAYS"@) is None || parse_bounded(
                    setting(vars@, "EVENT_RETENTION_DAYS"@)->0,
                    u64::MAX as nat,
                ) is None,
            },
    {
        let database_url = match find_setting(vars, "DATABASE_URL") {
            Some(url) => url.to_owned(),
            None => vstd::pervasive::unreached(),
        };
        let redis_url = match find_setting(vars, "REDIS_URL") {
            Some(url) => url.to_owned(),
            None => vstd::pervasive::unreached(),
        };
        let event_retention_days = match find_setting(vars, "EVENT_RETENTION_DAYS") {
            Some(days) => parse_u64(days),
            None => None,
        };
        Config { database_url, redis_url, event_retention_days }
    }
}

/// The configuration takes each value from the variable of its name.
pub proof fn values_come_from_their_variables(vars: &[(String, String)], c: Config, days: u64)
    requires
        call_ensures(Config::from_env, (vars,), c),
    ensures
        setting(vars@, "DATABASE_URL"@) == Some(c.database_url@),
        setting(vars@, "REDIS_URL"@) == Some(c.redis_url@),
        setting(vars@, "EVENT_RETENTION_DAYS"@) == Some(dec(days as nat)) ==> c.event_retention_days
            == Some(days),
        setting(vars@, "EVENT_RETENTION_DAYS"@) is None ==> c.event_retention_days is None,
{
    dec_parses_back(days as nat);
}

} // verus!
