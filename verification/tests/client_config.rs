use strapped_core::client_config::{
    initial_vrf, parse_asset_id, safe_script_gas_limit, select_deployment, AssetIdError, VrfMode,
    DEFAULT_SAFE_SCRIPT_GAS_LIMIT,
};
use strapped_core::deployments::DeploymentRecord;

fn record(hash: &str) -> DeploymentRecord {
    DeploymentRecord {
        deployed_at: "2024-01-01T00:00:00Z".to_string(),
        contract_id: "0x01".to_string(),
        bytecode_hash: hash.to_string(),
        network_url: "http://localhost:4000/".to_string(),
        chip_asset_id: None,
        chip_asset_ticker: None,
        contract_salt: None,
        vrf_salt: None,
        vrf_contract_id: None,
        vrf_bytecode_hash: None,
        deployment_block_height: None,
        roll_frequency: None,
    }
}

#[test]
fn gas_limit_is_one_below_the_chain_limit() {
    assert_eq!(safe_script_gas_limit(1_000_001), 1_000_000);
}

#[test]
fn gas_limit_is_capped() {
    assert_eq!(safe_script_gas_limit(u64::MAX), DEFAULT_SAFE_SCRIPT_GAS_LIMIT);
    assert_eq!(safe_script_gas_limit(DEFAULT_SAFE_SCRIPT_GAS_LIMIT + 1), DEFAULT_SAFE_SCRIPT_GAS_LIMIT);
    assert_eq!(safe_script_gas_limit(DEFAULT_SAFE_SCRIPT_GAS_LIMIT + 2), DEFAULT_SAFE_SCRIPT_GAS_LIMIT);
}

#[test]
fn gas_limit_is_at_least_one() {
    assert_eq!(safe_script_gas_limit(0), 1);
    assert_eq!(safe_script_gas_limit(1), 1);
    assert_eq!(safe_script_gas_limit(2), 1);
    assert_eq!(safe_script_gas_limit(3), 2);
}

#[test]
fn initial_vrf_per_mode() {
    assert_eq!(initial_vrf(VrfMode::Fake), 19);
    assert_eq!(initial_vrf(VrfMode::Pseudo), 0);
}

#[test]
fn deployment_is_selected_when_the_hash_matches() {
    let picked = select_deployment(Some(record("abc")), "abc");
    assert_eq!(picked, Ok(record("abc")));
}

#[test]
fn deployment_is_refused_when_the_hash_differs() {
    let picked = select_deployment(Some(record("abc")), "abd");
    assert_eq!(picked, Err(Some(record("abc"))));
}

#[test]
fn deployment_is_refused_when_none_was_recorded() {
    assert_eq!(select_deployment(None, "abc"), Err(None));
}

#[test]
fn asset_id_with_prefix_parses() {
    let text = format!("0x{}", "0a".repeat(31) + "Ff");
    let id = parse_asset_id(text.as_bytes()).unwrap();
    assert_eq!(id[0], 0x0a);
    assert_eq!(id[30], 0x0a);
    assert_eq!(id[31], 0xff);
}

#[test]
fn asset_id_without_prefix_parses() {
    let text = "01".repeat(32);
    assert_eq!(parse_asset_id(text.as_bytes()), Ok([1u8; 32]));
}

#[test]
fn asset_id_with_bad_digit_is_invalid_hex() {
    let text = "zz".repeat(32);
    assert_eq!(parse_asset_id(text.as_bytes()), Err(AssetIdError::InvalidHex));
}

#[test]
fn asset_id_of_odd_length_is_invalid_hex() {
    let text = "0".repeat(63);
    assert_eq!(parse_asset_id(text.as_bytes()), Err(AssetIdError::InvalidHex));
}

#[test]
fn asset_id_of_wrong_length_is_refused() {
    let text = "ab".repeat(31);
    assert_eq!(parse_asset_id(text.as_bytes()), Err(AssetIdError::WrongLength));
    assert_eq!(parse_asset_id(b"0x"), Err(AssetIdError::WrongLength));
}
