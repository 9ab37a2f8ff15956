use strapped_core::deployments::{
    bytecode_hash, ensure_structure, format_deployment_summary, hash_preview, latest_record, read_record, to_lower_hex, DeploymentEnv,
    DeploymentError, DeploymentRecord, DeploymentStore,
};
use strapped_core::wallets::WalletDescriptor;

fn record(hash: &str) -> DeploymentRecord {
    DeploymentRecord {
        deployed_at: "2024-01-01T00:00:00Z".to_string(),
        contract_id: "0x01".to_string(),
        bytecode_hash: hash.to_string(),
        network_url: "http://localhost:4000/".to_string(),
        chip_asset_id: None,
        chip_asset_ticker: None,
        contract_salt: None,
        vrf_salt: None,
        vrf_contract_id: None,
        vrf_bytecode_hash: None,
        deployment_block_height: Some(7),
        roll_frequency: Some(10),
    }
}

#[test]
fn dir_name__and_display_name_per_network() {
    assert_eq!(DeploymentEnv::Dev.dir_name(), "dev");
    assert_eq!(DeploymentEnv::Test.dir_name(), "test");
    assert_eq!(DeploymentEnv::Local.dir_name(), "local");
    assert_eq!(DeploymentEnv::Dev.display_name(), "Devnet");
    assert_eq!(DeploymentEnv::Test.display_name(), "Testnet");
    assert_eq!(DeploymentEnv::Local.display_name(), "Local");
}

#[test]
fn deployment_store__path_under_deployments_dir() {
    assert_eq!(DeploymentStore::new(DeploymentEnv::Test).path(), ".deployments/test/deployments.json");
    assert_eq!(
        ensure_structure(),
        vec![
            ".deployments/dev/deployments.json".to_string(),
            ".deployments/test/deployments.json".to_string(),
            ".deployments/local/deployments.json".to_string(),
        ]
    );
}

#[test]
fn is_compatible_with_hash__compares_bytecode_hash() {
    let r = record("abc123");
    assert!(r.is_compatible_with_hash("abc123"));
    assert!(!r.is_compatible_with_hash("abc124"));
    assert!(!r.is_compatible_with_hash(""));
}

#[test]
fn read_record__blank_single_list_and_error() {
    assert_eq!(read_record(b"", None, None), Ok(None));
    assert_eq!(read_record(b" \n\t\r\x0c", Some(record("x")), None), Ok(None));
    assert_eq!(read_record(b"{}", Some(record("one")), Some(vec![record("a")])), Ok(Some(record("one"))));
    assert_eq!(read_record(b"[]", None, Some(vec![record("a"), record("b")])), Ok(Some(record("b"))));
    assert_eq!(read_record(b"[]", None, Some(vec![])), Ok(None));
    assert_eq!(read_record(b"oops", None, None), Err(DeploymentError::UnparsableRecord));
    // a vertical tab is not whitespace for the record file
    assert_eq!(read_record(b"\x0b", None, None), Err(DeploymentError::UnparsableRecord));
    let store = DeploymentStore::new(DeploymentEnv::Local);
    assert_eq!(store.load(b"{}", Some(record("h")), None), Ok(Some(record("h"))));
}

#[test]
fn latest_record__requires_a_deployment() {
    assert_eq!(latest_record(Some(record("h"))), Ok(record("h")));
    assert_eq!(latest_record(None), Err(DeploymentError::NoDeployments));
}

#[test]
fn bytecode_hash__is_lowercase_hex_sha256() {
    assert_eq!(bytecode_hash(b"abc"), "ba7816bf8f01cfea414140de5dae2223b00361a396177a9cb410ff61f20015ad");
    assert_eq!(bytecode_hash(b""), "e3b0c44298fc1c149afbf4c8996fb92427ae41e4649b934ca495991b7852b855");
    assert_eq!(to_lower_hex(&[0x00, 0x0f, 0xa0, 0xff]), "000fa0ff");
}

#[test]
fn hash_preview__first_sixteen_bytes() {
    assert_eq!(hash_preview("0123456789abcdef0123"), "0123456789abcdef...");
    assert_eq!(hash_preview("0123456789abcdef"), "0123456789abcdef");
    assert_eq!(hash_preview("abc"), "abc");
    assert_eq!(hash_preview(""), "");
}

#[test]
fn wallet_descriptor__new_keeps_name_and_path() {
    let w = WalletDescriptor::new("alice".to_string(), "/home/alice/.fuel/wallets/alice".to_string());
    assert_eq!(w.name, "alice");
    assert_eq!(w.path, "/home/alice/.fuel/wallets/alice");
}

#[test]
fn a_new_deployment_knows_only_what_was_deployed() {
    let r = DeploymentRecord::new_deployment(
        "2024-02-02T00:00:00Z".to_string(),
        "0xabc".to_string(),
        "beef".to_string(),
        "https://devnet.fuel.network".to_string(),
        Some("0x01".to_string()),
        Some("CHIP".to_string()),
    );
    assert_eq!(r.contract_id, "0xabc");
    assert_eq!(r.bytecode_hash, "beef");
    assert_eq!(r.chip_asset_ticker.as_deref(), Some("CHIP"));
    assert_eq!(r.contract_salt, None);
    assert_eq!(r.deployment_block_height, None);
    assert_eq!(r.roll_frequency, None);
}

#[test]
fn deployment_summary_lists_what_is_recorded() {
    let mut rec = record("abcdef0123456789abcd");
    rec.chip_asset_id = Some("0xchip".to_string());
    rec.chip_asset_ticker = Some("CHP".to_string());
    let store = DeploymentStore::new(DeploymentEnv::Local);
    let text = format_deployment_summary(
        DeploymentEnv::Local,
        "http://localhost:4000/",
        &store,
        Some(&rec),
        &"ffff".to_string(),
    );
    assert_eq!(
        text,
        "No compatible deployment recorded for Local at http://localhost:4000/.\n\n\
         Recorded deployment for Local:\n  \
         2024-01-01T00:00:00Z - 0x01 @ http://localhost:4000/ (hash abcdef0123456789...) \
         asset 0xchip (CHP) contract_salt (unknown salt) vrf_salt (unknown vrf salt) \
         vrf_contract (unknown vrf id) vrf_hash (unknown vrf hash)\n\n\
         Current local bytecode hash: ffff\n\
         Deployment records file: .deployments/local/deployments.json"
    );
}

#[test]
fn deployment_summary_marks_a_compatible_record_and_no_record() {
    let rec = record("beef");
    let store = DeploymentStore::new(DeploymentEnv::Dev);
    let text = format_deployment_summary(DeploymentEnv::Dev, "u", &store, Some(&rec), &"beef".to_string());
    assert!(text.contains("(hash beef) [compatible] asset (unknown asset) contract_salt"));
    let text = format_deployment_summary(DeploymentEnv::Test, "u", &store, None, &"beef".to_string());
    assert_eq!(
        text,
        "No compatible deployment recorded for Testnet at u.\n\nRecorded deployment for Testnet:\n  (none recorded)\n\n\
         Current local bytecode hash: beef\nDeployment records file: .deployments/dev/deployments.json"
    );
}

#[test]
fn bytecode_hash__is_sixty_four_lowercase_hex_digits() {
    for data in [&b""[..], &b"abc"[..], &[0xffu8; 1000][..]] {
        let h = bytecode_hash(data);
        assert_eq!(h.len(), 64);
        assert!(h.chars().all(|c| c.is_ascii_digit() || ('a'..='f').contains(&c)));
    }
}
