use strapped_core::client_config::{resolve_remote_contracts, RemoteSetupError};
use strapped_core::deployments::DeploymentRecord;
use strapped_core::indexer_start::{
    indexer_start, parse_contract_id, parse_record_contract_id, IndexerStartError,
};

fn hex64(byte: &str) -> String {
    byte.repeat(32)
}

fn record(contract_id: &str, height: Option<u64>) -> DeploymentRecord {
    DeploymentRecord {
        deployed_at: "2024-01-01T00:00:00Z".to_string(),
        contract_id: contract_id.to_string(),
        bytecode_hash: "abc".to_string(),
        network_url: "http://localhost:4000/".to_string(),
        chip_asset_id: None,
        chip_asset_ticker: None,
        contract_salt: None,
        vrf_salt: None,
        vrf_contract_id: None,
        vrf_bytecode_hash: None,
        deployment_block_height: height,
        roll_frequency: None,
    }
}

#[test]
fn parse_contract_id__trims_and_drops_fuel_prefixes() {
    assert_eq!(parse_contract_id(&format!("0x{}", hex64("11"))), Some([0x11; 32]));
    assert_eq!(parse_contract_id(&hex64("ab")), Some([0xab; 32]));
    assert_eq!(parse_contract_id(&hex64("AB")), Some([0xab; 32]));
    assert_eq!(parse_contract_id(&format!("  fuel0x{}\n", hex64("22"))), Some([0x22; 32]));
    assert_eq!(parse_contract_id(&format!("fuelfuel{}", hex64("33"))), Some([0x33; 32]));
    assert_eq!(parse_contract_id(&format!("\u{3000}{}\t", hex64("44"))), Some([0x44; 32]));
    let mut first = [0u8; 32];
    first[0] = 0x01;
    assert_eq!(parse_contract_id(&format!("01{}", "00".repeat(31))), Some(first));
}

#[test]
fn parse_contract_id__refuses_what_is_not_64_hex_digits() {
    assert_eq!(parse_contract_id(""), None);
    assert_eq!(parse_contract_id("0x01"), None);
    assert_eq!(parse_contract_id(&hex64("1")), None);
    assert_eq!(parse_contract_id(&format!("{}00", hex64("11"))), None);
    assert_eq!(parse_contract_id(&format!("0x0x{}", &hex64("11")[4..])), None);
    assert_eq!(parse_contract_id(&hex64("zz")), None);
    assert_eq!(parse_contract_id(&format!("fue{}", hex64("11"))), None);
    assert_eq!(parse_contract_id(&format!("{} {}", &hex64("11")[..32], &hex64("11")[..32])), None);
}

#[test]
fn parse_record_contract_id__drops_fuel_but_keeps_white_space() {
    assert_eq!(parse_record_contract_id(&format!("fuel{}", hex64("55"))), Some([0x55; 32]));
    assert_eq!(parse_record_contract_id(&format!(" {}", hex64("55"))), None);
}

#[test]
fn indexer_start__follows_the_record_from_the_block_before_its_deployment() {
    let rec = record(&format!("0x{}", hex64("11")), Some(100));
    let start = indexer_start(Some(rec.clone()), None, None, None).unwrap();
    assert_eq!(start.contract_id, [0x11; 32]);
    assert_eq!(start.record_used, Some(rec));
    assert_eq!(start.requested_start_height, 100);
    assert_eq!(start.start_height, 100);
    assert_eq!(start.event_start_height, 99);
}

#[test]
fn indexer_start__resumes_from_the_last_indexed_height() {
    let rec = record(&hex64("11"), Some(100));
    let ahead = indexer_start(Some(rec.clone()), None, None, Some(150)).unwrap();
    assert_eq!((ahead.requested_start_height, ahead.start_height, ahead.event_start_height), (100, 150, 150));
    let behind = indexer_start(Some(rec.clone()), None, None, Some(50)).unwrap();
    assert_eq!((behind.requested_start_height, behind.start_height, behind.event_start_height), (100, 100, 100));
    let custom = indexer_start(Some(rec), None, Some(10), None).unwrap();
    assert_eq!((custom.requested_start_height, custom.start_height, custom.event_start_height), (10, 10, 10));
}

#[test]
fn indexer_start__record_without_height_starts_at_zero() {
    let start = indexer_start(Some(record(&hex64("11"), None)), None, None, None).unwrap();
    assert_eq!((start.requested_start_height, start.start_height, start.event_start_height), (0, 0, 0));
}

#[test]
fn indexer_start__command_line_contract_needs_a_start_height() {
    assert_eq!(indexer_start(None, None, None, None).unwrap_err(), IndexerStartError::NoRecord);
    assert_eq!(
        indexer_start(None, Some([7; 32]), None, None).unwrap_err(),
        IndexerStartError::NoStartHeight
    );
    let start = indexer_start(None, Some([7; 32]), Some(5), Some(9)).unwrap();
    assert_eq!(start.contract_id, [7; 32]);
    assert_eq!(start.record_used, None);
    assert_eq!((start.requested_start_height, start.start_height, start.event_start_height), (5, 9, 9));
}

#[test]
fn indexer_start__record_of_another_contract_is_ignored() {
    let rec = record(&hex64("11"), Some(100));
    assert_eq!(
        indexer_start(Some(rec.clone()), Some([7; 32]), None, None).unwrap_err(),
        IndexerStartError::NoStartHeight
    );
    let start = indexer_start(Some(rec.clone()), Some([7; 32]), Some(3), None).unwrap();
    assert_eq!(start.record_used, None);
    assert_eq!(start.contract_id, [7; 32]);
    let same = indexer_start(Some(rec.clone()), Some([0x11; 32]), None, None).unwrap();
    assert_eq!(same.record_used, Some(rec));
    assert_eq!(same.event_start_height, 99);
}

#[test]
fn indexer_start__refuses_a_bad_record() {
    assert_eq!(
        indexer_start(Some(record("not hex", Some(1))), None, None, None).unwrap_err(),
        IndexerStartError::RecordContractId
    );
    let ignored = indexer_start(Some(record("not hex", Some(1))), Some([7; 32]), Some(2), None).unwrap();
    assert_eq!(ignored.record_used, None);
    assert_eq!(
        indexer_start(Some(record(&hex64("11"), Some(1u64 << 32))), None, None, None).unwrap_err(),
        IndexerStartError::HeightTooLarge
    );
    let top = indexer_start(Some(record(&hex64("11"), Some(u32::MAX as u64))), None, None, None).unwrap();
    assert_eq!(top.start_height, u32::MAX);
}

fn remote_record() -> DeploymentRecord {
    let mut rec = record(&format!("fuel{}", hex64("11")), Some(1));
    rec.chip_asset_id = Some(format!("0x{}", hex64("22")));
    rec
}

#[test]
fn resolve_remote_contracts__names_the_base_asset_gwei() {
    let ids = resolve_remote_contracts(&remote_record(), [0x22; 32]).unwrap();
    assert_eq!(ids.contract_id, [0x11; 32]);
    assert_eq!(ids.chip_asset_id, [0x22; 32]);
    assert_eq!(ids.chip_asset_ticker, Some("Gwei".to_string()));
    assert_eq!(ids.vrf_contract_id, None);
    let other = resolve_remote_contracts(&remote_record(), [0x33; 32]).unwrap();
    assert_eq!(other.chip_asset_ticker, None);
    let mut named = remote_record();
    named.chip_asset_ticker = Some("CHIP".to_string());
    assert_eq!(
        resolve_remote_contracts(&named, [0x22; 32]).unwrap().chip_asset_ticker,
        Some("CHIP".to_string())
    );
}

#[test]
fn resolve_remote_contracts__reads_the_vrf_contract() {
    let mut rec = remote_record();
    rec.vrf_contract_id = Some(hex64("44"));
    assert_eq!(resolve_remote_contracts(&rec, [0; 32]).unwrap().vrf_contract_id, Some([0x44; 32]));
    rec.vrf_contract_id = Some(format!("fuel{}", hex64("44")));
    assert_eq!(resolve_remote_contracts(&rec, [0; 32]).unwrap_err(), RemoteSetupError::InvalidVrfContractId);
}

#[test]
fn resolve_remote_contracts__refuses_bad_ids() {
    let mut rec = remote_record();
    rec.contract_id = "0x1234".to_string();
    assert_eq!(resolve_remote_contracts(&rec, [0; 32]).unwrap_err(), RemoteSetupError::InvalidContractId);
    let mut rec = remote_record();
    rec.chip_asset_id = Some("0x22".to_string());
    assert_eq!(resolve_remote_contracts(&rec, [0; 32]).unwrap_err(), RemoteSetupError::InvalidChipAssetId);
}
