//! The settings of the balancer, as a configuration file gives them.

use crate::config::document::{
    entry, integer_in, keys_in, parse_document, text_in, toml_integer, toml_keys, toml_member,
    toml_parsed, toml_str,
};
use crate::rpc::pool::records_of;
use crate::rpc::types::{fresh_rpc, Rpc, RpcLocation, RpcView};
use crate::sort::types::Algo;
use crate::text::{chars_of, has_char, replace_all, replaced, text_of};
use vstd::prelude::*;

verus! {

/// Why a configuration file gives no settings.
#[derive(Debug, Clone, Copy, PartialEq, Eq, Structural)]
pub enum ConfigError {
    /// The file is no TOML.
    InvalidToml,
    /// There is no `proto_balancer`.
    MissingBalancerTable,
    /// `proto_balancer` is no table.
    InvalidBalancerTable,
    MissingAddress,
    /// `address` is no string.
    InvalidAddress,
    MissingLogLevel,
    /// `log_level` is no string.
    InvalidLogLevel,
    MissingStatsVecSize,
    /// `stats_vec_size` is no integer.
    InvalidStatsVecSize,
    /// An entry beside `proto_balancer` is no table.
    InvalidRpcTable,
    MissingUrl,
    /// `url` is no string.
    InvalidUrl,
    MissingWsUrl,
    /// `ws_url` is no string.
    InvalidWsUrl,
    MissingChainId,
    /// `chain_id` is no integer.
    InvalidChainId,
    MissingRpcLocation,
    /// `rpc_location` is no string.
    InvalidRpcLocation,
    /// `rpc_location` is neither `local` nor `external`.
    UnknownRpcLocation,
}

/// What the settings hold.
pub struct SettingsView {
    pub rpc_list: Seq<RpcView>,
    pub address: Seq<char>,
    pub log_level: Seq<char>,
    pub stats_vec_size: nat,
    pub algo: Algo,
}

/// The settings of the balancer.
#[derive(Debug)]
pub struct Settings {
    /// The backends, in the order of their names in the file.
    pub rpc_list: Vec<Rpc>,
    /// Where the balancer listens: a host, a colon and a port.
    pub address: String,
    pub log_level: String,
    /// The capacity of each window of statistics.
    pub stats_vec_size: usize,
    pub algo: Algo,
}

impl View for Settings {
    type V = SettingsView;

    open spec fn view(&self) -> SettingsView {
        SettingsView {
            rpc_list: records_of(self.rpc_list@),
            address: self.address@,
            log_level: self.log_level@,
            stats_vec_size: self.stats_vec_size as nat,
            algo: self.algo,
        }
    }
}

impl Clone for Settings {
    fn clone(&self) -> (copy: Self)
        ensures
            copy@ == self@,
    {
        let mut rpc_list: Vec<Rpc> = Vec::new();
        let mut i: usize = 0;
        while i < self.rpc_list.len()
            invariant
                i <= self.rpc_list.len(),
                rpc_list@.len() == i,
                forall|k: int| 0 <= k < i ==> (#[trigger] rpc_list@[k])@ == self.rpc_list@[k]@,
            decreases self.rpc_list.len() - i,
        {
            rpc_list.push(self.rpc_list[i].clone());
            i = i + 1;
        }
        assert(records_of(rpc_list@) =~= records_of(self.rpc_list@));
        Settings {
            rpc_list,
            address: self.address.clone(),
            log_level: self.log_level.clone(),
            stats_vec_size: self.stats_vec_size,
            algo: self.algo,
        }
    }
}

impl Default for Settings {
    fn default() -> (settings: Self)
        ensures
            settings@ == (SettingsView {
                rpc_list: Seq::empty(),
                address: "127.0.0.1:3000"@,
                log_level: "info"@,
                stats_vec_size: 1000,
                algo: Algo::MinLatency,
            }),
    {
        let settings = Self {
            rpc_list: Vec::new(),
            address: "127.0.0.1:3000".to_owned(),
            log_level: "info".to_owned(),
            stats_vec_size: 1000,
            algo: Algo::MinLatency,
        };
        assert(settings@.rpc_list =~= Seq::empty());
        settings
    }
}

/// The text under a key of a table.
pub open spec fn text_entry(
    table: toml::Value,
    key: Seq<char>,
    missing: ConfigError,
    invalid: ConfigError,
) -> Result<Seq<char>, ConfigError> {
    match toml_member(table, key) {
        Some(value) => match toml_str(value) {
            Some(text) => Ok(text),
            None => Err(invalid),
        },
        None => Err(missing),
    }
}

/// The integer under a key of a table.
pub open spec fn integer_entry(
    table: toml::Value,
    key: Seq<char>,
    missing: ConfigError,
    invalid: ConfigError,
) -> Result<i64, ConfigError> {
    match toml_member(table, key) {
        Some(value) => match toml_integer(value) {
            Some(number) => Ok(number),
            None => Err(invalid),
        },
        None => Err(missing),
    }
}

/// The address that the balancer listens on for a configured one: with
/// `127.0.0.1` for each `localhost`, and with the port 3000 where the
/// address has no colon.
pub open spec fn served_address(address: Seq<char>) -> Seq<char> {
    let numeric = replaced(address, "localhost"@, "127.0.0.1"@);
    if numeric.contains(':') {
        numeric
    } else {
        numeric + ":3000"@
    }
}

/// The algorithm that `proto_balancer` names; `MinLatency` where it names
/// none that is known.
pub open spec fn configured_algo(balancer: toml::Value) -> Algo {
    match toml_member(balancer, "algo"@) {
        Some(value) => match toml_str(value) {
            Some(word) => match Algo::named(word) {
                Some(algo) => algo,
                None => Algo::MinLatency,
            },
            None => Algo::MinLatency,
        },
        None => Algo::MinLatency,
    }
}

/// The backend that a table of the file describes, with windows of the
/// capacity `limit`. A negative `chain_id` wraps round as a cast to `usize`
/// does.
pub open spec fn rpc_in(table: toml::Value, limit: usize) -> Result<RpcView, ConfigError> {
    if toml_keys(table) is None {
        Err(ConfigError::InvalidRpcTable)
    } else {
        match text_entry(table, "url"@, ConfigError::MissingUrl, ConfigError::InvalidUrl) {
            Err(e) => Err(e),
            Ok(url) => match text_entry(
                table,
                "ws_url"@,
                ConfigError::MissingWsUrl,
                ConfigError::InvalidWsUrl,
            ) {
                Err(e) => Err(e),
                Ok(ws_url) => match integer_entry(
                    table,
                    "chain_id"@,
                    ConfigError::MissingChainId,
                    ConfigError::InvalidChainId,
                ) {
                    Err(e) => Err(e),
                    Ok(chain) => match text_entry(
                        table,
                        "rpc_location"@,
                        ConfigError::MissingRpcLocation,
                        ConfigError::InvalidRpcLocation,
                    ) {
                        Err(e) => Err(e),
                        Ok(word) => match RpcLocation::named(word) {
                            Some(location) => Ok(
                                fresh_rpc(
                                    url,
                                    ws_url,
                                    (chain as usize) as nat,
                                    location,
                                    limit as nat,
                                ),
                            ),
                            None => Err(ConfigError::UnknownRpcLocation),
                        },
                    },
                },
            },
        }
    }
}

/// The backends that the entries of the document with the given names
/// describe, in the order of the names; `proto_balancer` describes none.
/// The first entry that describes no backend gives its error.
pub open spec fn rpcs_in(document: toml::Value, names: Seq<Seq<char>>, limit: usize) -> Result<
    Seq<RpcView>,
    ConfigError,
>
    decreases names.len(),
{
    if names.len() == 0 {
        Ok(Seq::empty())
    } else {
        match rpcs_in(document, names.drop_last(), limit) {
            Err(e) => Err(e),
            Ok(list) => if names.last() == "proto_balancer"@ {
                Ok(list)
            } else {
                match toml_member(document, names.last()) {
                    Some(table) => match rpc_in(table, limit) {
                        Ok(rpc) => Ok(list.push(rpc)),
                        Err(e) => Err(e),
                    },
                    None => Err(ConfigError::InvalidRpcTable),
                }
            },
        }
    }
}

/// The settings that a document gives. `proto_balancer` holds the address,
/// the log level, the capacity of the windows and the algorithm; every other
/// entry describes a backend. A negative `stats_vec_size` wraps round as a
/// cast to `usize` does.
pub open spec fn settings_of(document: toml::Value) -> Result<SettingsView, ConfigError> {
    match toml_keys(document) {
        None => Err(ConfigError::InvalidToml),
        Some(names) => match toml_member(document, "proto_balancer"@) {
            None => Err(ConfigError::MissingBalancerTable),
            Some(balancer) => if toml_keys(balancer) is None {
                Err(ConfigError::InvalidBalancerTable)
            } else {
                match text_entry(
                    balancer,
                    "address"@,
                    ConfigError::MissingAddress,
                    ConfigError::InvalidAddress,
                ) {
                    Err(e) => Err(e),
                    Ok(address) => match text_entry(
                        balancer,
                        "log_level"@,
                        ConfigError::MissingLogLevel,
                        ConfigError::InvalidLogLevel,
                    ) {
                        Err(e) => Err(e),
                        Ok(log_level) => match integer_entry(
                            balancer,
                            "stats_vec_size"@,
                            ConfigError::MissingStatsVecSize,
                            ConfigError::InvalidStatsVecSize,
                        ) {
                            Err(e) => Err(e),
                            Ok(size) => match rpcs_in(document, names, size as usize) {
                                Err(e) => Err(e),
                                Ok(rpc_list) => Ok(
                                    SettingsView {
                                        rpc_list,
                                        address: served_address(address),
                                        log_level,
                                        stats_vec_size: (size as usize) as nat,
                                        algo: configured_algo(balancer),
                                    },
                                ),
                            },
                        },
                    },
                }
            },
        },
    }
}

/// The settings that the text of a configuration file gives.
pub open spec fn settings_in(text: Seq<char>) -> Result<SettingsView, ConfigError> {
    match toml_parsed(text) {
        Some(document) => settings_of(document),
        None => Err(ConfigError::InvalidToml),
    }
}

fn read_text(table: &toml::Value, key: &str, missing: ConfigError, invalid: ConfigError) -> (text:
    Result<String, ConfigError>)
    ensures
        match text {
            Ok(t) => text_entry(*table, key@, missing, invalid) == Ok::<Seq<char>, ConfigError>(t@),
            Err(e) => text_entry(*table, key@, missing, invalid) == Err::<Seq<char>, ConfigError>(
                e,
            ),
        },
{
    match entry(table, key) {
        Some(value) => match text_in(value) {
            Some(text) => Ok(text.to_owned()),
            None => Err(invalid),
        },
        None => Err(missing),
    }
}

fn read_integer(table: &toml::Value, key: &str, missing: ConfigError, invalid: ConfigError) -> (number:
    Result<i64, ConfigError>)
    ensures
        number == integer_entry(*table, key@, missing, invalid),
{
    match entry(table, key) {
        Some(value) => match integer_in(value) {
            Some(number) => Ok(number),
            None => Err(invalid),
        },
        None => Err(missing),
    }
}

fn wrapped(number: i64) -> (size: usize)
    ensures
        size == number as usize,
{
    #[verifier::truncate]
    (number as usize)
}

/// Writes the address that the balancer listens on for a configured one.
pub fn serve_address(address: &str) -> (served: String)
    ensures
        served@ == served_address(address@),
{
    proof {
        reveal_strlit("localhost");
        reveal_strlit(":3000");
    }
    let given: Vec<char> = chars_of(address);
    let pattern: Vec<char> = chars_of("localhost");
    let with: Vec<char> = chars_of("127.0.0.1");
    let numeric: Vec<char> = replace_all(&given, &pattern, &with);
    let mut served: String = text_of(&numeric);
    if !has_char(&numeric, ':') {
        served.append(":3000");
    }
    served
}

fn read_algo(balancer: &toml::Value) -> (algo: Algo)
    ensures
        algo == configured_algo(*balancer),
{
    match entry(balancer, "algo") {
        Some(value) => match text_in(value) {
            Some(word) => match Algo::parse(word) {
                Some(algo) => algo,
                None => Algo::MinLatency,
            },
            None => Algo::MinLatency,
        },
        None => Algo::MinLatency,
    }
}

fn read_rpc(table: &toml::Value, stats_vec_size: usize) -> (rpc: Result<Rpc, ConfigError>)
    ensures
        match rpc {
            Ok(r) => rpc_in(*table, stats_vec_size) == Ok::<RpcView, ConfigError>(r@),
            Err(e) => rpc_in(*table, stats_vec_size) == Err::<RpcView, ConfigError>(e),
        },
{
    if keys_in(table).is_none() {
        return Err(ConfigError::InvalidRpcTable);
    }
    let url: String = match read_text(
        table,
        "url",
        ConfigError::MissingUrl,
        ConfigError::InvalidUrl,
    ) {
        Ok(text) => text,
        Err(e) => { return Err(e); },
    };
    let ws_url: String = match read_text(
        table,
        "ws_url",
        ConfigError::MissingWsUrl,
        ConfigError::InvalidWsUrl,
    ) {
        Ok(text) => text,
        Err(e) => { return Err(e); },
    };
    let chain_id: usize = match read_integer(
        table,
        "chain_id",
        ConfigError::MissingChainId,
        ConfigError::InvalidChainId,
    ) {
        Ok(number) => wrapped(number),
        Err(e) => { return Err(e); },
    };
    let word: String = match read_text(
        table,
        "rpc_location",
        ConfigError::MissingRpcLocation,
        ConfigError::InvalidRpcLocation,
    ) {
        Ok(text) => text,
        Err(e) => { return Err(e); },
    };
    match RpcLocation::parse(word.as_str()) {
        Some(rpc_location) => Ok(Rpc::new(url, ws_url, chain_id, rpc_location, stats_vec_size)),
        None => Err(ConfigError::UnknownRpcLocation),
    }
}

impl Settings {
    /// Reads the settings from the text of a configuration file.
    pub fn create_from_file(conf_file: &str) -> (settings: Result<Settings, ConfigError>)
        ensures
            match settings {
                Ok(s) => settings_in(conf_file@) == Ok::<SettingsView, ConfigError>(s@),
                Err(e) => settings_in(conf_file@) == Err::<SettingsView, ConfigError>(e),
            },
    {
        let parsed_toml: toml::Value = match parse_document(conf_file) {
            Some(document) => document,
            None => { return Err(ConfigError::InvalidToml); },
        };
        let table_names: Vec<String> = match keys_in(&parsed_toml) {
            Some(names) => names,
            None => { return Err(ConfigError::InvalidToml); },
        };
        let ghost names = Seq::new(table_names@.len(), |i: int| table_names@[i]@);
        let proto_balancer_table: &toml::Value = match entry(&parsed_toml, "proto_balancer") {
            Some(table) => table,
            None => { return Err(ConfigError::MissingBalancerTable); },
        };
        if keys_in(proto_balancer_table).is_none() {
            return Err(ConfigError::InvalidBalancerTable);
        }
        let address: String = match read_text(
            proto_balancer_table,
            "address",
            ConfigError::MissingAddress,
            ConfigError::InvalidAddress,
        ) {
            Ok(text) => serve_address(text.as_str()),
            Err(e) => { return Err(e); },
        };
        let log_level: String = match read_text(
            proto_balancer_table,
            "log_level",
            ConfigError::MissingLogLevel,
            ConfigError::InvalidLogLevel,
        ) {
            Ok(text) => text,
            Err(e) => { return Err(e); },
        };
        let stats_vec_size: usize = match read_integer(
            proto_balancer_table,
            "stats_vec_size",
            ConfigError::MissingStatsVecSize,
            ConfigError::InvalidStatsVecSize,
        ) {
            Ok(number) => wrapped(number),
            Err(e) => { return Err(e); },
        };
        let algo: Algo = read_algo(proto_balancer_table);
        match read_rpcs(&parsed_toml, &table_names, stats_vec_size) {
            Ok(rpc_list) => Ok(Settings { rpc_list, address, log_level, stats_vec_size, algo }),
            Err(e) => Err(e),
        }
    }
}

fn read_rpcs(parsed_toml: &toml::Value, table_names: &Vec<String>, stats_vec_size: usize) -> (rpcs:
    Result<Vec<Rpc>, ConfigError>)
    ensures
        match rpcs {
            Ok(list) => rpcs_in(
                *parsed_toml,
                Seq::new(table_names@.len(), |i: int| table_names@[i]@),
                stats_vec_size,
            ) == Ok::<Seq<RpcView>, ConfigError>(records_of(list@)),
            Err(e) => rpcs_in(
                *parsed_toml,
                Seq::new(table_names@.len(), |i: int| table_names@[i]@),
                stats_vec_size,
            ) == Err::<Seq<RpcView>, ConfigError>(e),
        },
{
    let ghost names = Seq::new(table_names@.len(), |i: int| table_names@[i]@);
    let skipped: String = "proto_balancer".to_owned();
    let mut rpc_list: Vec<Rpc> = Vec::new();
    let mut i: usize = 0;
    proof {
        assert(names.subrange(0, 0) =~= Seq::<Seq<char>>::empty());
        assert(records_of(rpc_list@) =~= Seq::<RpcView>::empty());
    }
    while i < table_names.len()
        invariant
            i <= table_names.len(),
            names == Seq::new(table_names@.len(), |i: int| table_names@[i]@),
            skipped@ == "proto_balancer"@,
            rpcs_in(*parsed_toml, names.subrange(0, i as int), stats_vec_size) == Ok::<
                Seq<RpcView>,
                ConfigError,
            >(records_of(rpc_list@)),
        decreases table_names.len() - i,
    {
        let ghost longer = names.subrange(0, i + 1);
        let ghost before = records_of(rpc_list@);
        proof {
            assert(longer.drop_last() =~= names.subrange(0, i as int));
            assert(longer.last() == table_names@[i as int]@);
        }
        if table_names[i] != skipped {
            let rpc_table: &toml::Value = match entry(parsed_toml, table_names[i].as_str()) {
                Some(table) => table,
                None => {
                    proof {
                        lemma_first_error(*parsed_toml, names, i + 1, stats_vec_size);
                    }
                    return Err(ConfigError::InvalidRpcTable);
                },
            };
            match read_rpc(rpc_table, stats_vec_size) {
                Ok(rpc) => {
                    rpc_list.push(rpc);
                    assert(records_of(rpc_list@) =~= before.push(rpc@));
                },
                Err(e) => {
                    proof {
                        lemma_first_error(*parsed_toml, names, i + 1, stats_vec_size);
                    }
                    return Err(e);
                },
            }
        }
        i = i + 1;
    }
    assert(names.subrange(0, i as int) =~= names);
    Ok(rpc_list)
}

/// An error among the first `k` names is the error of all the names.
proof fn lemma_first_error(document: toml::Value, names: Seq<Seq<char>>, k: int, limit: usize)
    requires
        0 <= k <= names.len(),
        rpcs_in(document, names.subrange(0, k), limit) is Err,
    ensures
        rpcs_in(document, names, limit) == rpcs_in(document, names.subrange(0, k), limit),
    decreases names.len() - k,
{
    if k == names.len() {
        assert(names.subrange(0, k) =~= names);
    } else {
        let longer = names.subrange(0, k + 1);
        assert(longer.drop_last() =~= names.subrange(0, k));
        lemma_first_error(document, names, k + 1, limit);
    }
}

} // verus!
