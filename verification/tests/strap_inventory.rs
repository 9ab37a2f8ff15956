use strapped_core::strap_inventory::{aggregate_owned_straps_by_kind, owned_strap_summary, SUMMARY_LENGTH};
use strapped_core::types::{Modifier, Strap, StrapKind};

fn s(level: u8, kind: StrapKind, modifier: Modifier) -> Strap {
    Strap { level, kind, modifier }
}

#[test]
fn rows_follow_the_catalogue() {
    let rows = aggregate_owned_straps_by_kind(&Vec::new());
    assert_eq!(rows.len(), 19);
    assert_eq!(rows[0].kind, StrapKind::Shirt);
    assert_eq!(rows[4].kind, StrapKind::Hat);
    assert_eq!(rows[18].kind, StrapKind::Belt);
    assert!(rows.iter().all(|r| r.total == 0 && r.entries.is_empty()));
}

#[test]
fn straps_merge_per_strap_and_sort_by_level_then_modifier() {
    let owned = vec![
        (s(2, StrapKind::Hat, Modifier::Nothing), 1),
        (s(1, StrapKind::Hat, Modifier::Lucky), 4),
        (s(1, StrapKind::Shirt, Modifier::Nothing), 9),
        (s(1, StrapKind::Hat, Modifier::Nothing), 2),
        (s(2, StrapKind::Hat, Modifier::Nothing), 5),
    ];
    let rows = aggregate_owned_straps_by_kind(&owned);
    let hats = &rows[4];
    assert_eq!(hats.kind, StrapKind::Hat);
    assert_eq!(
        hats.entries,
        vec![
            (s(1, StrapKind::Hat, Modifier::Nothing), 2),
            (s(1, StrapKind::Hat, Modifier::Lucky), 4),
            (s(2, StrapKind::Hat, Modifier::Nothing), 6),
        ]
    );
    assert_eq!(hats.total, 12);
    assert_eq!(rows[0].entries, vec![(s(1, StrapKind::Shirt, Modifier::Nothing), 9)]);
    assert_eq!(rows[0].total, 9);
}

#[test]
fn merging_saturates() {
    let owned = vec![
        (s(1, StrapKind::Ring, Modifier::Nothing), u64::MAX),
        (s(1, StrapKind::Ring, Modifier::Nothing), 3),
    ];
    let rows = aggregate_owned_straps_by_kind(&owned);
    assert_eq!(rows[7].entries, vec![(s(1, StrapKind::Ring, Modifier::Nothing), u64::MAX)]);
    assert_eq!(rows[7].total, u64::MAX);
}

#[test]
fn summary_shows_the_lowest_straps() {
    let owned = vec![
        (s(3, StrapKind::Shirt, Modifier::Nothing), 1),
        (s(1, StrapKind::Hat, Modifier::Nothing), 1),
        (s(1, StrapKind::Shirt, Modifier::Burnt), 2),
        (s(1, StrapKind::Shirt, Modifier::Nothing), 3),
        (s(1, StrapKind::Shirt, Modifier::Nothing), 4),
    ];
    let (shown, more) = owned_strap_summary(&owned);
    assert_eq!(SUMMARY_LENGTH, 3);
    assert!(more);
    assert_eq!(
        shown,
        vec![
            (s(1, StrapKind::Shirt, Modifier::Nothing), 7),
            (s(1, StrapKind::Shirt, Modifier::Burnt), 2),
            (s(1, StrapKind::Hat, Modifier::Nothing), 1),
        ]
    );
}

#[test]
fn summary_of_few_or_none() {
    let (shown, more) = owned_strap_summary(&Vec::new());
    assert!(shown.is_empty());
    assert!(!more);
    let (shown, more) = owned_strap_summary(&vec![(s(2, StrapKind::Coat, Modifier::Evil), 1)]);
    assert_eq!(shown.len(), 1);
    assert!(!more);
}
