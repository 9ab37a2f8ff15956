use strapped_core::client_config::{
    parse_cli_args, AppConfig, CliArgs, CliError, CliOption, CliRequest, NetworkTarget, VrfMode, WalletConfig,
    DEFAULT_DEVNET_RPC_URL, DEFAULT_LOCAL_RPC_URL, DEFAULT_TESTNET_RPC_URL,
};

fn args(list: &[&str]) -> Vec<String> {
    list.iter().map(|s| s.to_string()).collect()
}

fn run(list: &[&str]) -> CliArgs {
    match parse_cli_args(&args(list)) {
        Ok(CliRequest::Run(a)) => a,
        other => panic!("expected a run request, got {:?}", other),
    }
}

#[test]
fn devnet_with_wallet_uses_the_default_endpoint() {
    let a = run(&["--devnet", "--wallet", "alice"]);
    assert_eq!(a.vrf_mode, VrfMode::Pseudo);
    assert_eq!(a.network, NetworkTarget::Devnet { url: DEFAULT_DEVNET_RPC_URL.to_string() });
    assert_eq!(a.wallet, "alice");
    assert_eq!(a.wallet_dir, None);
    assert_eq!(a.indexer_url, None);
}

#[test]
fn each_network_flag_has_its_endpoint() {
    assert_eq!(
        run(&["--testnet", "--wallet", "w"]).network,
        NetworkTarget::Testnet { url: "https://testnet.fuel.network".to_string() }
    );
    assert_eq!(
        run(&["--local", "--wallet", "w"]).network,
        NetworkTarget::LocalNode { url: "http://localhost:4000/".to_string() }
    );
    assert_eq!(DEFAULT_TESTNET_RPC_URL, "https://testnet.fuel.network");
    assert_eq!(DEFAULT_LOCAL_RPC_URL, "http://localhost:4000/");
}

#[test]
fn all_options_are_read() {
    let a = run(&[
        "--fake-vrf",
        "--local",
        "--rpc-url",
        "http://node:1",
        "--wallet",
        "bob",
        "--wallet-dir",
        "/tmp/w",
        "--indexer-url",
        "http://idx",
    ]);
    assert_eq!(a.vrf_mode, VrfMode::Fake);
    assert_eq!(a.network, NetworkTarget::LocalNode { url: "http://node:1".to_string() });
    assert_eq!(a.wallet, "bob");
    assert_eq!(a.wallet_dir, Some("/tmp/w".to_string()));
    assert_eq!(a.indexer_url, Some("http://idx".to_string()));
}

#[test]
fn the_config_takes_the_resolved_directory() {
    let a = run(&["--devnet", "--wallet", "alice", "--indexer-url", "http://idx"]);
    let config = a.into_config("/home/alice/.fuel/wallets".to_string());
    assert_eq!(
        config,
        AppConfig {
            vrf_mode: VrfMode::Pseudo,
            network: NetworkTarget::Devnet { url: DEFAULT_DEVNET_RPC_URL.to_string() },
            wallets: WalletConfig::ForcKeystore {
                owner: "alice".to_string(),
                dir: "/home/alice/.fuel/wallets".to_string(),
            },
            indexer_url: Some("http://idx".to_string()),
        }
    );
}

#[test]
fn help_stops_reading() {
    assert_eq!(parse_cli_args(&args(&["--help", "--bogus"])), Ok(CliRequest::Help));
    assert_eq!(parse_cli_args(&args(&["--devnet", "-h"])), Ok(CliRequest::Help));
}

#[test]
fn an_error_before_help_wins() {
    assert_eq!(
        parse_cli_args(&args(&["--bogus", "--help"])),
        Err(CliError::UnknownArgument("--bogus".to_string()))
    );
}

#[test]
fn two_network_flags_are_refused() {
    assert_eq!(parse_cli_args(&args(&["--devnet", "--local"])), Err(CliError::MultipleNetworks));
    assert_eq!(parse_cli_args(&args(&["--testnet", "--testnet"])), Err(CliError::MultipleNetworks));
}

#[test]
fn rpc_url_needs_a_network_first() {
    assert_eq!(
        parse_cli_args(&args(&["--rpc-url", "http://x", "--devnet"])),
        Err(CliError::RpcUrlWithoutNetwork)
    );
}

#[test]
fn rpc_url_once_only() {
    assert_eq!(
        parse_cli_args(&args(&["--devnet", "--rpc-url", "a", "--rpc-url", "b"])),
        Err(CliError::Repeated(CliOption::RpcUrl))
    );
}

#[test]
fn options_need_their_value() {
    assert_eq!(parse_cli_args(&args(&["--devnet", "--rpc-url"])), Err(CliError::MissingValue(CliOption::RpcUrl)));
    assert_eq!(parse_cli_args(&args(&["--wallet"])), Err(CliError::MissingValue(CliOption::Wallet)));
    assert_eq!(parse_cli_args(&args(&["--wallet-dir"])), Err(CliError::MissingValue(CliOption::WalletDir)));
    assert_eq!(parse_cli_args(&args(&["--indexer-url"])), Err(CliError::MissingValue(CliOption::IndexerUrl)));
}

#[test]
fn a_missing_value_is_reported_before_a_repeat() {
    assert_eq!(
        parse_cli_args(&args(&["--wallet", "a", "--wallet"])),
        Err(CliError::MissingValue(CliOption::Wallet))
    );
}

#[test]
fn options_are_given_once() {
    assert_eq!(
        parse_cli_args(&args(&["--wallet", "a", "--wallet", "b"])),
        Err(CliError::Repeated(CliOption::Wallet))
    );
    assert_eq!(
        parse_cli_args(&args(&["--wallet-dir", "a", "--wallet-dir", "b"])),
        Err(CliError::Repeated(CliOption::WalletDir))
    );
    assert_eq!(
        parse_cli_args(&args(&["--indexer-url", "a", "--indexer-url", "b"])),
        Err(CliError::Repeated(CliOption::IndexerUrl))
    );
}

#[test]
fn an_option_takes_the_next_argument_whatever_it_is() {
    let a = run(&["--wallet", "--devnet", "--local"]);
    assert_eq!(a.wallet, "--devnet");
    assert_eq!(a.network, NetworkTarget::LocalNode { url: DEFAULT_LOCAL_RPC_URL.to_string() });
}

#[test]
fn a_network_is_required() {
    assert_eq!(parse_cli_args(&args(&["--wallet", "alice"])), Err(CliError::NoNetwork));
    assert_eq!(parse_cli_args(&args(&[])), Err(CliError::NoNetwork));
}

#[test]
fn a_wallet_is_required() {
    assert_eq!(parse_cli_args(&args(&["--devnet"])), Err(CliError::NoWallet));
}
