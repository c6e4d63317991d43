use proto_balancer::config::types::{serve_address, ConfigError, Settings};
use proto_balancer::rpc::types::RpcLocation;
use proto_balancer::sort::types::Algo;

const BALANCER: &str = "[proto_balancer]\naddress = \"127.0.0.1:3000\"\nlog_level = \"info\"\nstats_vec_size = 1000\nalgo = \"min_latency\"\n";

fn with_backend(balancer: &str, name: &str, body: &str) -> String {
    format!("{}\n[{}]\n{}\n", balancer, name, body)
}

fn error_of(text: &str) -> ConfigError {
    match Settings::create_from_file(text) {
        Err(error) => error,
        Ok(settings) => panic!("{:?}", settings),
    }
}

#[test]
fn default_settings_listen_on_port_3000() {
    let settings = Settings::default();
    assert_eq!(settings.rpc_list.len(), 0);
    assert_eq!(settings.address, "127.0.0.1:3000");
    assert_eq!(settings.log_level, "info");
    assert_eq!(settings.stats_vec_size, 1000);
    assert_eq!(settings.algo, Algo::MinLatency);
}

#[test]
fn a_file_gives_the_balancer_and_its_backends() {
    let text = "\
[zeta]
url = \"https://z.example\"
ws_url = \"wss://z.example\"
chain_id = 8453
rpc_location = \"External\"

[proto_balancer]
address = \"0.0.0.0:8080\"
log_level = \"debug\"
stats_vec_size = 50
algo = \"Round_Robin\"

[mainnet_a]
url = \"https://a.example\"
ws_url = \"wss://a.example\"
chain_id = 1
rpc_location = \"local\"
";
    let settings = Settings::create_from_file(text).unwrap();
    assert_eq!(settings.address, "0.0.0.0:8080");
    assert_eq!(settings.log_level, "debug");
    assert_eq!(settings.stats_vec_size, 50);
    assert_eq!(settings.algo, Algo::RoundRobin);
    assert_eq!(settings.rpc_list.len(), 2);
    let a = &settings.rpc_list[0];
    assert_eq!(a.url, "https://a.example");
    assert_eq!(a.ws_url, "wss://a.example");
    assert_eq!(a.chain_id, 1);
    assert_eq!(a.rpc_location, RpcLocation::Local);
    assert_eq!(a.last_block, 0);
    assert_eq!(a.intra_latencies.limit, 50);
    assert_eq!(a.srv_latencies.limit, 50);
    assert_eq!(a.arrivals_ts.limit, 50);
    assert_eq!(a.arrivals_ts.len(), 0);
    let z = &settings.rpc_list[1];
    assert_eq!(z.url, "https://z.example");
    assert_eq!(z.chain_id, 8453);
    assert_eq!(z.rpc_location, RpcLocation::External);
}

#[test]
fn a_file_without_backends_gives_none() {
    let settings = Settings::create_from_file(BALANCER).unwrap();
    assert_eq!(settings.rpc_list.len(), 0);
    assert_eq!(settings.algo, Algo::MinLatency);
}

#[test]
fn the_address_gets_a_host_and_a_port() {
    assert_eq!(serve_address("localhost"), "127.0.0.1:3000");
    assert_eq!(serve_address("localhost:8000"), "127.0.0.1:8000");
    assert_eq!(serve_address("10.0.0.1"), "10.0.0.1:3000");
    assert_eq!(serve_address("10.0.0.1:1"), "10.0.0.1:1");
    assert_eq!(serve_address("[::1]:9"), "[::1]:9");
    assert_eq!(serve_address(""), ":3000");
    assert_eq!(serve_address("localhostlocalhost"), "127.0.0.1127.0.0.1:3000");
    assert_eq!(serve_address("Localhost"), "Localhost:3000");
    let text = BALANCER.replace("127.0.0.1:3000", "localhost");
    assert_eq!(Settings::create_from_file(&text).unwrap().address, "127.0.0.1:3000");
}

#[test]
fn an_unknown_algorithm_is_min_latency() {
    for algo in ["algo = \"fastest\"", "algo = 3", ""] {
        let text = BALANCER.replace("algo = \"min_latency\"", algo);
        assert_eq!(Settings::create_from_file(&text).unwrap().algo, Algo::MinLatency);
    }
    let text = BALANCER.replace("min_latency", "BROADCAST");
    assert_eq!(Settings::create_from_file(&text).unwrap().algo, Algo::Broadcast);
}

#[test]
fn a_negative_size_wraps_round() {
    let text = BALANCER.replace("stats_vec_size = 1000", "stats_vec_size = -1");
    assert_eq!(Settings::create_from_file(&text).unwrap().stats_vec_size, usize::MAX);
    let backend = "url = \"u\"\nws_url = \"w\"\nchain_id = -2\nrpc_location = \"local\"";
    let settings = Settings::create_from_file(&with_backend(BALANCER, "a", backend)).unwrap();
    assert_eq!(settings.rpc_list[0].chain_id, usize::MAX - 1);
}

#[test]
fn a_broken_balancer_gives_its_error() {
    assert_eq!(error_of("[proto_balancer"), ConfigError::InvalidToml);
    assert_eq!(error_of(""), ConfigError::MissingBalancerTable);
    assert_eq!(error_of("[other]\nurl = \"u\""), ConfigError::MissingBalancerTable);
    assert_eq!(error_of("proto_balancer = 1"), ConfigError::InvalidBalancerTable);
    assert_eq!(
        error_of(&BALANCER.replace("address = \"127.0.0.1:3000\"", "")),
        ConfigError::MissingAddress
    );
    assert_eq!(
        error_of(&BALANCER.replace("address = \"127.0.0.1:3000\"", "address = 3000")),
        ConfigError::InvalidAddress
    );
    assert_eq!(error_of(&BALANCER.replace("log_level = \"info\"", "")), ConfigError::MissingLogLevel);
    assert_eq!(
        error_of(&BALANCER.replace("log_level = \"info\"", "log_level = true")),
        ConfigError::InvalidLogLevel
    );
    assert_eq!(
        error_of(&BALANCER.replace("stats_vec_size = 1000", "")),
        ConfigError::MissingStatsVecSize
    );
    assert_eq!(
        error_of(&BALANCER.replace("stats_vec_size = 1000", "stats_vec_size = \"1000\"")),
        ConfigError::InvalidStatsVecSize
    );
    assert_eq!(
        error_of(&BALANCER.replace("stats_vec_size = 1000", "stats_vec_size = 1.5")),
        ConfigError::InvalidStatsVecSize
    );
}

#[test]
fn a_broken_backend_gives_its_error() {
    let good = "url = \"u\"\nws_url = \"w\"\nchain_id = 1\nrpc_location = \"local\"";
    assert!(Settings::create_from_file(&with_backend(BALANCER, "a", good)).is_ok());
    let cases = [
        ("url = \"u\"\n", "", ConfigError::MissingUrl),
        ("url = \"u\"", "url = 1", ConfigError::InvalidUrl),
        ("ws_url = \"w\"\n", "", ConfigError::MissingWsUrl),
        ("ws_url = \"w\"", "ws_url = [\"w\"]", ConfigError::InvalidWsUrl),
        ("chain_id = 1\n", "", ConfigError::MissingChainId),
        ("chain_id = 1", "chain_id = \"1\"", ConfigError::InvalidChainId),
        ("rpc_location = \"local\"", "", ConfigError::MissingRpcLocation),
        ("rpc_location = \"local\"", "rpc_location = 0", ConfigError::InvalidRpcLocation),
        ("rpc_location = \"local\"", "rpc_location = \"near\"", ConfigError::UnknownRpcLocation),
    ];
    for (from, to, error) in cases {
        let text = with_backend(BALANCER, "a", &good.replacen(from, to, 1));
        assert_eq!(error_of(&text), error, "{}", text);
    }
    let scalar = format!("stray = 1\n{}", BALANCER);
    assert_eq!(error_of(&scalar), ConfigError::InvalidRpcTable);
}

#[test]
fn the_first_broken_backend_gives_the_error() {
    let no_url = "ws_url = \"w\"\nchain_id = 1\nrpc_location = \"local\"";
    let no_chain = "url = \"u\"\nws_url = \"w\"\nrpc_location = \"local\"";
    let text = format!("{}\n[b]\n{}\n\n[a]\n{}\n", BALANCER, no_url, no_chain);
    assert_eq!(error_of(&text), ConfigError::MissingChainId);
    let text = format!("{}\n[a]\n{}\n\n[b]\n{}\n", BALANCER, no_url, no_chain);
    assert_eq!(error_of(&text), ConfigError::MissingUrl);
}

#[test]
fn the_balancer_is_read_before_the_backends() {
    let no_url = "ws_url = \"w\"\nchain_id = 1\nrpc_location = \"local\"";
    let text = with_backend(&BALANCER.replace("log_level = \"info\"", ""), "a", no_url);
    assert_eq!(error_of(&text), ConfigError::MissingLogLevel);
}

#[test]
fn two_backends_may_share_a_url() {
    let same = "url = \"u\"\nws_url = \"w\"\nchain_id = 1\nrpc_location = \"local\"";
    let text = format!("{}\n[a]\n{}\n\n[b]\n{}\n", BALANCER, same, same);
    let settings = Settings::create_from_file(&text).unwrap();
    assert_eq!(settings.rpc_list.len(), 2);
    assert!(settings.rpc_list[0] == settings.rpc_list[1]);
}
