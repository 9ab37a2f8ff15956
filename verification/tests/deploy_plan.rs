use strapped_core::client_config::AssetIdError;
use strapped_core::deploy_plan::{
    deploy_chip_asset, deploy_roll_frequency, owner_target, parse_identity, withdraw_amount, DeployAction,
    DeployCliError,
};
use strapped_core::deployments::DeploymentRecord;
use strapped_core::types::Identity;

fn hex64(byte: &str) -> String {
    byte.repeat(32)
}

fn record(contract_id: &str, chip: Option<String>) -> DeploymentRecord {
    DeploymentRecord {
        deployed_at: "2024-01-01T00:00:00Z".to_string(),
        contract_id: contract_id.to_string(),
        bytecode_hash: "abc".to_string(),
        network_url: "http://localhost:4000/".to_string(),
        chip_asset_id: chip,
        chip_asset_ticker: None,
        contract_salt: None,
        vrf_salt: None,
        vrf_contract_id: None,
        vrf_bytecode_hash: None,
        deployment_block_height: Some(3),
        roll_frequency: Some(10),
    }
}

#[test]
fn deploy_chip_asset__defaults_to_the_base_asset() {
    assert_eq!(deploy_chip_asset(None, [9; 32]), Ok([9; 32]));
    assert_eq!(deploy_chip_asset(Some(&format!("0x{}", hex64("12"))), [9; 32]), Ok([0x12; 32]));
    assert_eq!(
        deploy_chip_asset(Some("0x1234"), [9; 32]),
        Err(DeployCliError::InvalidChipAssetId(AssetIdError::WrongLength))
    );
    assert_eq!(
        deploy_chip_asset(Some("xyz"), [9; 32]),
        Err(DeployCliError::InvalidChipAssetId(AssetIdError::InvalidHex))
    );
}

#[test]
fn withdraw_amount__is_required_for_a_withdrawal() {
    assert_eq!(withdraw_amount(DeployAction::Withdraw, None), Err(DeployCliError::MissingWithdrawAmount));
    assert_eq!(withdraw_amount(DeployAction::Withdraw, Some(5)), Ok(Some(5)));
    assert_eq!(withdraw_amount(DeployAction::Balance, None), Ok(None));
    assert_eq!(withdraw_amount(DeployAction::Deploy, Some(7)), Ok(Some(7)));
}

#[test]
fn deploy_roll_frequency__must_be_given_and_positive() {
    assert_eq!(deploy_roll_frequency(None), Err(DeployCliError::MissingRollFrequency));
    assert_eq!(deploy_roll_frequency(Some(0)), Err(DeployCliError::ZeroRollFrequency));
    assert_eq!(deploy_roll_frequency(Some(12)), Ok(12));
}

#[test]
fn parse_identity__reads_an_address() {
    assert_eq!(parse_identity(&hex64("ab")), Some(Identity::Address([0xab; 32])));
    assert_eq!(parse_identity(&format!("0x{}", hex64("01"))), Some(Identity::Address([0x01; 32])));
    assert_eq!(parse_identity("0x01"), None);
    assert_eq!(parse_identity(&format!("fuel{}", hex64("01"))), None);
}

#[test]
fn owner_target__prefers_the_given_chip_then_the_stored_one() {
    let rec = record(&hex64("11"), Some(hex64("22")));
    let t = owner_target(DeployAction::Balance, &rec, None, [9; 32], None, [5; 32]).unwrap();
    assert_eq!(t.contract_id, [0x11; 32]);
    assert_eq!(t.chip_asset_id, [0x22; 32]);
    assert_eq!(t.withdraw_to, None);
    let t = owner_target(DeployAction::Balance, &rec, Some(&hex64("33")), [9; 32], None, [5; 32]).unwrap();
    assert_eq!(t.chip_asset_id, [0x33; 32]);
    let bare = record(&hex64("11"), None);
    let t = owner_target(DeployAction::Balance, &bare, None, [9; 32], None, [5; 32]).unwrap();
    assert_eq!(t.chip_asset_id, [9; 32]);
}

#[test]
fn owner_target__withdraws_to_the_wallet_unless_told_otherwise() {
    let rec = record(&hex64("11"), None);
    let t = owner_target(DeployAction::Withdraw, &rec, None, [9; 32], None, [5; 32]).unwrap();
    assert_eq!(t.withdraw_to, Some(Identity::Address([5; 32])));
    let t = owner_target(DeployAction::Withdraw, &rec, None, [9; 32], Some(&hex64("66")), [5; 32]).unwrap();
    assert_eq!(t.withdraw_to, Some(Identity::Address([0x66; 32])));
    assert_eq!(
        owner_target(DeployAction::Withdraw, &rec, None, [9; 32], Some("nobody"), [5; 32]),
        Err(DeployCliError::InvalidWithdrawTo)
    );
}

#[test]
fn owner_target__refuses_a_bad_record() {
    let rec = record(&format!("fuel{}", hex64("11")), None);
    assert_eq!(
        owner_target(DeployAction::Balance, &rec, None, [9; 32], None, [5; 32]),
        Err(DeployCliError::InvalidStoredContractId)
    );
    let rec = record(&hex64("11"), Some("0x12".to_string()));
    assert_eq!(
        owner_target(DeployAction::Balance, &rec, None, [9; 32], None, [5; 32]),
        Err(DeployCliError::InvalidChipAssetId(AssetIdError::WrongLength))
    );
}
