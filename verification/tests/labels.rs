use strapped_core::labels::{
    active_mods_emojis, decimal_string, format_bet_detail_lines, format_owned_strap_summary, format_my_bet_lines, format_units, modifier_emoji,
    render_reward_compact, strap_asset_label, strap_emoji, super_compact_strap,
};
use strapped_core::types::{Modifier, Roll, Strap, StrapKind};

fn s(level: u8, kind: StrapKind, modifier: Modifier) -> Strap {
    Strap { level, kind, modifier }
}

#[test]
fn decimals() {
    assert_eq!(decimal_string(0), "0");
    assert_eq!(decimal_string(1234), "1234");
    assert_eq!(decimal_string(u64::MAX), "18446744073709551615");
}

#[test]
fn emojis() {
    assert_eq!(strap_emoji(&StrapKind::Hat), "🎩");
    assert_eq!(strap_emoji(&StrapKind::Belt), "🧵");
    assert_eq!(modifier_emoji(&Modifier::Nothing), "");
    assert_eq!(modifier_emoji(&Modifier::Lucky), "🍀");
    assert_eq!(modifier_emoji(&Modifier::Starched), "🏳️");
}

#[test]
fn compact_straps() {
    assert_eq!(super_compact_strap(&s(3, StrapKind::Shirt, Modifier::Lucky)), "🍀👕3");
    assert_eq!(super_compact_strap(&s(1, StrapKind::Hat, Modifier::Nothing)), "🎩1");
    assert_eq!(render_reward_compact(&s(12, StrapKind::Ring, Modifier::Moldy)), "🍄💍12");
    assert_eq!(render_reward_compact(&s(1, StrapKind::Hat, Modifier::Nothing)), "🎩1");
}

#[test]
fn asset_labels() {
    assert_eq!(strap_asset_label(&s(2, StrapKind::Hat, Modifier::Nothing)), "lvl2");
    assert_eq!(strap_asset_label(&s(2, StrapKind::Hat, Modifier::Evil)), "lvl2 😈");
}

#[test]
fn active_modifier_emojis_of_a_roll() {
    let active = vec![
        (Roll::Six, Modifier::Lucky, 0),
        (Roll::Two, Modifier::Holy, 0),
        (Roll::Six, Modifier::Nothing, 1),
        (Roll::Six, Modifier::Evil, 2),
    ];
    assert_eq!(active_mods_emojis(&Roll::Six, &active), "🍀 😈");
    assert_eq!(active_mods_emojis(&Roll::Two, &active), "👼");
    assert_eq!(active_mods_emojis(&Roll::Nine, &active), "");
}

#[test]
fn units() {
    assert_eq!(format_units(1_500_000_000, 9), "1.5");
    assert_eq!(format_units(1_000_000_000, 9), "1");
    assert_eq!(format_units(5, 9), "0.000000005");
    assert_eq!(format_units(0, 9), "0");
    assert_eq!(format_units(123, 0), "123");
    assert_eq!(format_units(120, 2), "1.2");
    assert_eq!(format_units(1005, 3), "1.005");
    assert_eq!(format_units(u64::MAX, 40), format!("0.{}18446744073709551615", "0".repeat(20)));
}

#[test]
fn bet_lines() {
    let hat = s(1, StrapKind::Hat, Modifier::Nothing);
    assert_eq!(format_my_bet_lines(0, &Vec::new(), "chips"), vec!["none".to_string()]);
    assert_eq!(
        format_my_bet_lines(5, &vec![(hat, 2)], "chips"),
        vec!["5 chips".to_string(), "🎩1 x2".to_string()]
    );
    assert_eq!(format_bet_detail_lines(0, &vec![(hat, 1)], "CHIP", "  "), vec!["  🎩1 x1".to_string()]);
    assert_eq!(format_bet_detail_lines(0, &Vec::new(), "CHIP", "  "), vec!["  none".to_string()]);
    assert_eq!(format_bet_detail_lines(7, &Vec::new(), "CHIP", "- "), vec!["- 7 CHIP".to_string()]);
}

#[test]
fn owned_straps_summary_line() {
    assert_eq!(format_owned_strap_summary(&Vec::new()), ("none".to_string(), false));
    let owned = vec![
        (s(2, StrapKind::Hat, Modifier::Nothing), 1),
        (s(1, StrapKind::Shirt, Modifier::Lucky), 2),
        (s(1, StrapKind::Shirt, Modifier::Lucky), 3),
    ];
    assert_eq!(format_owned_strap_summary(&owned), ("🍀👕1x5, 🎩2x1".to_string(), false));
    let many = vec![
        (s(4, StrapKind::Hat, Modifier::Nothing), 1),
        (s(3, StrapKind::Hat, Modifier::Nothing), 1),
        (s(2, StrapKind::Hat, Modifier::Nothing), 1),
        (s(1, StrapKind::Hat, Modifier::Nothing), 1),
    ];
    assert_eq!(format_owned_strap_summary(&many), ("🎩1x1, 🎩2x1, 🎩3x1".to_string(), true));
}
