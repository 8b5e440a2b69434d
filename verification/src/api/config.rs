//! The configuration of the query service.
use vstd::prelude::*;

use crate::errors::ErrorSource;
use crate::errors::TridentError;
use crate::settings::find_setting;
use crate::settings::opt_str;
use crate::settings::positive_or;
use crate::settings::positive_u32;
use crate::settings::setting;
use crate::text::join;
use crate::text::join_strings;
use crate::text::same;
use crate::text::views;

verus! {

broadcast use vstd::string::group_string_axioms;

/// The connections to the database where nothing else is set.
pub const DEFAULT_DB_POOL_SIZE: u32 = 10;

/// The configuration of the query service.
#[derive(Debug)]
pub struct Config {
    pub database_url: String,
    pub grpc_addr: String,
    pub mtls: Option<MtlsConfig>,
}

/// Where the certificates for mutual TLS are found.
#[derive(Debug)]
pub struct MtlsConfig {
    pub ca_cert_path: String,
    pub server_cert_path: String,
    pub server_key_path: String,
}

/// The value of a variable that is needed. An empty one is as good as none.
pub open spec fn required(vars: Seq<(String, String)>, name: Seq<char>) -> Option<Seq<char>> {
    match setting(vars, name) {
        Some(value) => if value.len() > 0 {
            Some(value)
        } else {
            None
        },
        None => None,
    }
}

/// Whether mutual TLS is asked for.
pub open spec fn wants_mtls(vars: Seq<(String, String)>) -> bool {
    setting(vars, "GRPC_MTLS_ENABLED"@) == Some("true"@)
}

/// The variables that are needed.
pub open spec fn needed(vars: Seq<(String, String)>) -> Seq<Seq<char>> {
    if wants_mtls(vars) {
        seq![
            "DATABASE_URL"@,
            "GRPC_ADDR"@,
            "GRPC_MTLS_CA_CERT"@,
            "GRPC_MTLS_SERVER_CERT"@,
            "GRPC_MTLS_SERVER_KEY"@,
        ]
    } else {
        seq!["DATABASE_URL"@, "GRPC_ADDR"@]
    }
}

/// Those of the given variables that are missing, in order.
pub open spec fn missing_of(vars: Seq<(String, String)>, names: Seq<Seq<char>>) -> Seq<Seq<char>>
    decreases names.len(),
{
    if names.len() == 0 {
        Seq::empty()
    } else {
        let before = missing_of(vars, names.drop_last());
        if required(vars, names.last()) is None {
            before.push(names.last())
        } else {
            before
        }
    }
}

proof fn lemma_missing_push(vars: Seq<(String, String)>, names: Seq<Seq<char>>, name: Seq<char>)
    ensures
        missing_of(vars, names.push(name)) == if required(vars, name) is None {
            missing_of(vars, names).push(name)
        } else {
            missing_of(vars, names)
        },
{
    assert(names.push(name).drop_last() =~= names);
}

fn collect_required(vars: &[(String, String)], name: &'static str, missing: &mut Vec<String>) -> (r:
    Option<String>)
    ensures
        match r {
            Some(value) => required(vars@, name@) == Some(value@) && views(final(missing)@) == views(
                old(missing)@,
            ),
            None => required(vars@, name@) is None && views(final(missing)@) == views(
                old(missing)@,
            ).push(name@),
        },
{
    if let Some(value) = find_setting(vars, name) {
        if !value.is_empty() {
            return Some(value.to_owned());
        }
    }
    let ghost before = missing@;
    missing.push(name.to_owned());
    assert(views(missing@) =~= views(before).push(name@));
    None
}

impl Config {
    /// The configuration that the given variables make up. All that is missing is named at once.
    pub fn from_env(vars: &[(String, String)]) -> (r: Result<Self, TridentError>)
        ensures
            match r {
                Ok(c) => {
                    &&& missing_of(vars@, needed(vars@)).len() == 0
                    &&& required(vars@, "DATABASE_URL"@) == Some(c.database_url@)
                    &&& required(vars@, "GRPC_ADDR"@) == Some(c.grpc_addr@)
                    &&& c.mtls is Some <==> wants_mtls(vars@)
                    &&& c.mtls is Some ==> {
                        &&& required(vars@, "GRPC_MTLS_CA_CERT"@) == Some(c.mtls->0.ca_cert_path@)
                        &&& required(vars@, "GRPC_MTLS_SERVER_CERT"@) == Some(
                            c.mtls->0.server_cert_path@,
                        )
                        &&& required(vars@, "GRPC_MTLS_SERVER_KEY"@) == Some(
                            c.mtls->0.server_key_path@,
                        )
                    }
                },
                Err(e) => {
                    &&& missing_of(vars@, needed(vars@)).len() > 0
                    &&& e is ConfigError
                    &&& e.cause().text() == "[trident-api] missing required env vars:\n"@ + join(
                        missing_of(vars@, needed(vars@)),
                        "\n"@,
                    )
                },
            },
    {
        let mut missing: Vec<String> = Vec::new();
        let ghost none = Seq::<Seq<char>>::empty();
        let ghost first = none.push("DATABASE_URL"@);
        let ghost second = first.push("GRPC_ADDR"@);
        let ghost third = second.push("GRPC_MTLS_CA_CERT"@);
        let ghost fourth = third.push("GRPC_MTLS_SERVER_CERT"@);
        let ghost fifth = fourth.push("GRPC_MTLS_SERVER_KEY"@);
        proof {
            lemma_missing_push(vars@, none, "DATABASE_URL"@);
            lemma_missing_push(vars@, first, "GRPC_ADDR"@);
            lemma_missing_push(vars@, second, "GRPC_MTLS_CA_CERT"@);
            lemma_missing_push(vars@, third, "GRPC_MTLS_SERVER_CERT"@);
            lemma_missing_push(vars@, fourth, "GRPC_MTLS_SERVER_KEY"@);
            assert(views(missing@) =~= none);
        }
        let database_url = collect_required(vars, "DATABASE_URL", &mut missing);
        let grpc_addr = collect_required(vars, "GRPC_ADDR", &mut missing);
        let mtls_enabled = match find_setting(vars, "GRPC_MTLS_ENABLED") {
            Some(value) => same(value, "true"),
            None => false,
        };
        let mut mtls: Option<MtlsConfig> = None;
        if mtls_enabled {
            let ca = collect_required(vars, "GRPC_MTLS_CA_CERT", &mut missing);
            let cert = collect_required(vars, "GRPC_MTLS_SERVER_CERT", &mut missing);
            let key = collect_required(vars, "GRPC_MTLS_SERVER_KEY", &mut missing);
            if let (Some(ca_cert_path), Some(server_cert_path), Some(server_key_path)) = (
                ca,
                cert,
                key,
            ) {
                mtls = Some(MtlsConfig { ca_cert_path, server_cert_path, server_key_path });
            }
            assert(needed(vars@) =~= fifth);
        } else {
            assert(needed(vars@) =~= second);
        }
        assert(views(missing@) == missing_of(vars@, needed(vars@)));
        match (database_url, grpc_addr) {
            (Some(database_url), Some(grpc_addr)) if missing.len() == 0 => Ok(
                Config { database_url, grpc_addr, mtls },
            ),
            _ => {
                let mut message = "[trident-api] missing required env vars:\n".to_owned();
                let names = join_strings(missing.as_slice(), "\n");
                message.append(names.as_str());
                Err(TridentError::config(ErrorSource::msg(message)))
            },
        }
    }
}

/// The message about missing variables names just those that are missing.
pub proof fn every_missing_variable_is_named(
    vars: Seq<(String, String)>,
    names: Seq<Seq<char>>,
    name: Seq<char>,
)
    ensures
        missing_of(vars, names).contains(name) <==> names.contains(name) && required(vars, name)
            is None,
    decreases names.len(),
{
    if names.len() > 0 {
        let before = names.drop_last();
        every_missing_variable_is_named(vars, before, name);
        assert(names =~= before.push(names.last()));
        if before.contains(name) {
            let k = choose|k: int| 0 <= k < before.len() && before[k] == name;
            assert(names[k] == name);
        }
        if names.contains(name) && !before.contains(name) {
            let k = choose|k: int| 0 <= k < names.len() && names[k] == name;
            if k < before.len() {
                assert(before[k] == name);
            }
        }
        let m = missing_of(vars, before);
        if m.contains(name) {
            let k = choose|k: int| 0 <= k < m.len() && m[k] == name;
            assert(m.push(names.last())[k] == name);
        }
        if m.push(names.last()).contains(name) && !m.contains(name) {
            let k = choose|k: int|
                0 <= k < m.push(names.last()).len() && m.push(names.last())[k] == name;
            if k < m.len() {
                assert(m[k] == name);
            }
        }
        assert(m.push(names.last())[m.len() as int] == names.last());
        assert(names[names.len() - 1] == names.last());
    }
}

/// The number of connections to the database.
pub fn db_pool_size(value: Option<&str>) -> (r: u32)
    ensures
        r == positive_or(opt_str(value), u32::MAX as nat, 10),
{
    positive_u32(value, DEFAULT_DB_POOL_SIZE)
}

/// The database and the address are always needed, and the three certificates as well where mutual
/// TLS is asked for. An empty value is as good as none.
pub proof fn certificates_are_needed_for_mutual_tls(vars: Seq<(String, String)>, name: Seq<char>)
    ensures
        needed(vars).contains("DATABASE_URL"@),
        needed(vars).contains("GRPC_ADDR"@),
        setting(vars, "GRPC_MTLS_ENABLED"@) == Some("true"@) ==> needed(vars).contains(
            "GRPC_MTLS_CA_CERT"@,
        ) && needed(vars).contains("GRPC_MTLS_SERVER_CERT"@) && needed(vars).contains(
            "GRPC_MTLS_SERVER_KEY"@,
        ) && needed(vars).len() == 5,
        setting(vars, "GRPC_MTLS_ENABLED"@) != Some("true"@) ==> needed(vars).len() == 2,
        setting(vars, name) is None ==> required(vars, name) is None,
        setting(vars, name) is Some && setting(vars, name)->0.len() == 0 ==> required(vars, name)
            is None,
        setting(vars, name) is Some && setting(vars, name)->0.len() > 0 ==> required(vars, name)
            == setting(vars, name),
{
    assert(needed(vars)[0] == "DATABASE_URL"@);
    assert(needed(vars)[1] == "GRPC_ADDR"@);
    if wants_mtls(vars) {
        assert(needed(vars)[2] == "GRPC_MTLS_CA_CERT"@);
        assert(needed(vars)[3] == "GRPC_MTLS_SERVER_CERT"@);
        assert(needed(vars)[4] == "GRPC_MTLS_SERVER_KEY"@);
    }
}

/// The configuration takes each value from the variable of its name, and the certificates only
/// where mutual TLS is asked for.
pub proof fn values_come_from_their_variables(vars: &[(String, String)], c: Config)
    requires
        call_ensures(Config::from_env, (vars,), Ok(c)),
    ensures
        setting(vars@, "DATABASE_URL"@) == Some(c.database_url@),
        setting(vars@, "GRPC_ADDR"@) == Some(c.grpc_addr@),
        c.database_url@.len() > 0,
        c.grpc_addr@.len() > 0,
        c.mtls is Some <==> setting(vars@, "GRPC_MTLS_ENABLED"@) == Some("true"@),
        c.mtls matches Some(m) ==> {
            &&& setting(vars@, "GRPC_MTLS_CA_CERT"@) == Some(m.ca_cert_path@)
            &&& setting(vars@, "GRPC_MTLS_SERVER_CERT"@) == Some(m.server_cert_path@)
            &&& setting(vars@, "GRPC_MTLS_SERVER_KEY"@) == Some(m.server_key_path@)
        },
{
}

} // verus!
