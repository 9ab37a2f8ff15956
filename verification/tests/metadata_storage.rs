#![allow(non_snake_case)]
use strapped_core::storage::InMemoryMetadataStorage;
use strapped_core::types::{Modifier, Strap, StrapKind};

#[test]
fn all_known_strap_asset_ids__returns_all_inserted_ids() {
    // given
    let mut storage = InMemoryMetadataStorage::new();
    let strap_a = Strap::new(1, StrapKind::Hat, Modifier::Lucky);
    let strap_b = Strap::new(2, StrapKind::Coat, Modifier::Burnt);
    let asset_id_a = [1u8; 32];
    let asset_id_b = [2u8; 32];
    storage.record_new_asset_id(&asset_id_a, &strap_a).unwrap();
    storage.record_new_asset_id(&asset_id_b, &strap_b).unwrap();

    // when
    let mut known = storage.all_known_strap_asset_ids().unwrap();
    known.sort();

    // then
    assert_eq!(known, vec![asset_id_a, asset_id_b]);
}

#[test]
fn all_known_straps__returns_asset_and_metadata_pairs() {
    // given
    let mut storage = InMemoryMetadataStorage::new();
    let strap_a = Strap::new(1, StrapKind::Hat, Modifier::Lucky);
    let strap_b = Strap::new(2, StrapKind::Coat, Modifier::Burnt);
    let asset_id_a = [1u8; 32];
    let asset_id_b = [2u8; 32];
    storage.record_new_asset_id(&asset_id_a, &strap_a).unwrap();
    storage.record_new_asset_id(&asset_id_b, &strap_b).unwrap();

    // when
    let mut known = storage.all_known_straps().unwrap();
    known.sort_by_key(|(asset_id, _)| *asset_id);

    // then
    assert_eq!(known, vec![(asset_id_a, strap_a), (asset_id_b, strap_b)]);
}

#[test]
fn strap_asset_id__returns_recorded_strap_and_none_for_unknown() {
    let mut storage = InMemoryMetadataStorage::new();
    let strap = Strap::new(3, StrapKind::Ring, Modifier::Holy);
    storage.record_new_asset_id(&[7u8; 32], &strap).unwrap();
    assert_eq!(storage.strap_asset_id(&[7u8; 32]).unwrap(), Some(strap));
    assert_eq!(storage.strap_asset_id(&[8u8; 32]).unwrap(), None);
}

#[test]
fn record_new_asset_id__replaces_strap_for_same_asset() {
    let mut storage = InMemoryMetadataStorage::new();
    let first = Strap::new(1, StrapKind::Hat, Modifier::Nothing);
    let second = Strap::new(2, StrapKind::Hat, Modifier::Nothing);
    storage.record_new_asset_id(&[9u8; 32], &first).unwrap();
    storage.record_new_asset_id(&[9u8; 32], &second).unwrap();
    assert_eq!(storage.all_known_straps().unwrap(), vec![([9u8; 32], second)]);
}
