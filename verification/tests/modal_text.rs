use strapped_core::client_state::{Bet, PreviousGameSummary, RewardInfo, RollCell};
use strapped_core::modal_text::{
    bet_modal_text, border_color_for_roll, cell_lines, cell_title, claim_lines, has_user_bets, overview_lines, previous_games_lines,
    quit_modal_text, roll_history_line, shop_lines, shop_panel_lines, strap_bet_lines, strap_inventory_lines,
    vrf_modal_text, wallet_line, GameFigures, LineStyle, WalletFigures,
};
use strapped_core::client_config::VrfMode;
use strapped_core::strap_inventory::aggregate_owned_straps_by_kind;
use strapped_core::types::{Modifier, Roll, Strap, StrapKind};
use strapped_core::ui_state::{ClaimFocus, ClaimState};

fn s(level: u8, kind: StrapKind, modifier: Modifier) -> Strap {
    Strap { level, kind, modifier }
}

#[test]
fn editing_dialogs() {
    assert_eq!(bet_modal_text(5), "Amount: 5\nEnter=confirm Esc=cancel +/- or digits to edit");
    assert_eq!(vrf_modal_text(19), "VRF: 19\nEnter=confirm Esc=cancel +/- or digits to edit");
    assert_eq!(quit_modal_text(), "Quit the game? (Y/N)");
}

#[test]
fn shop_dialog() {
    assert_eq!(shop_lines(&Vec::new(), 0), vec![("No modifiers available".to_string(), LineStyle::Plain)]);
    let items = vec![
        (Roll::Two, Roll::Six, Modifier::Burnt, false, false, 15),
        (Roll::Three, Roll::Six, Modifier::Lucky, true, false, 25),
        (Roll::Four, Roll::Eight, Modifier::Holy, true, true, 35),
    ];
    assert_eq!(
        shop_lines(&items, 1),
        vec![
            ("  Six 🧯 (Unlock by rolling Two) - 15 chips".to_string(), LineStyle::Dimmed),
            ("> Six 🍀 - 25 chips".to_string(), LineStyle::Plain),
            ("  Eight 👼 - purchased (35 chips)".to_string(), LineStyle::Done),
            (
                "Enter=buy Esc=close ↑/↓ move (unlock first; purchased items are disabled)".to_string(),
                LineStyle::Plain
            ),
        ]
    );
}

#[test]
fn strap_bet_dialog() {
    assert_eq!(strap_bet_lines(&Vec::new(), 0, 1), vec!["No straps owned".to_string()]);
    let owned = vec![(s(1, StrapKind::Hat, Modifier::Nothing), 3), (s(2, StrapKind::Coat, Modifier::Evil), 1)];
    assert_eq!(
        strap_bet_lines(&owned, 1, 2),
        vec![
            "  🎩1 x3".to_string(),
            "> 😈🧥2 x1".to_string(),
            "Amount: 2 (Enter=confirm, Esc=cancel, +/- change)".to_string(),
        ]
    );
}

#[test]
fn claim_dialog() {
    let hat = s(1, StrapKind::Hat, Modifier::Nothing);
    let game = PreviousGameSummary {
        game_id: 4,
        cells: vec![],
        modifiers: vec![(Roll::Six, Modifier::Lucky, 0), (Roll::Eight, Modifier::Holy, 1)],
        rolls: vec![Roll::Six, Roll::Eight, Roll::Seven],
        bets_by_roll: vec![(Roll::Six, vec![(Bet::Chip, 5, 0), (Bet::Strap(hat), 1, 0)])],
        claimed: false,
    };
    let cs = ClaimState {
        game_idx: 0,
        mod_idx: 1,
        selected: vec![(Roll::Six, Modifier::Lucky)],
        focus: ClaimFocus::Modifiers,
    };
    assert_eq!(
        claim_lines(&cs, &vec![game.clone()]),
        vec![
            "Games:",
            "> Game 4 [unclaimed]",
            "",
            "Details for Game 4",
            "Rolls: Six🍀 Eight👼 Seven",
            "Bets:",
            "  Six: Chip x5 @0",
            "  Six: 🎩1 x1 @0",
            "Modifiers (space to toggle):",
            "  [x] Six Lucky",
            "> [ ] Eight Holy",
            "Enter=claim Esc=cancel ←/→ focus ↑/↓ move Space toggle (focus: modifiers)",
        ]
        .into_iter()
        .map(String::from)
        .collect::<Vec<String>>()
    );
    let mut claimed = game;
    claimed.claimed = true;
    assert_eq!(
        claim_lines(&cs, &vec![claimed]),
        vec!["No claimable games".to_string(), "Esc=close".to_string()]
    );
}

#[test]
fn strap_inventory_dialog() {
    let hat2 = s(2, StrapKind::Hat, Modifier::Nothing);
    let hat1 = s(1, StrapKind::Hat, Modifier::Lucky);
    let rows = aggregate_owned_straps_by_kind(&vec![(hat2, 1), (hat1, 4)]);
    let known = vec![([1u8; 32], hat2), ([2u8; 32], s(1, StrapKind::Shirt, Modifier::Nothing)), ([3u8; 32], hat1)];
    let lines = strap_inventory_lines(&rows, 4, &known);
    assert_eq!(lines.len(), 19 + 2 + 2 + 2);
    assert_eq!(lines[0], (format!("{} {:<10} total: {:<3} {}", " ", "Shirt", 0, "-"), LineStyle::Plain));
    assert_eq!(
        lines[4],
        (format!("{} {:<10} total: {:<3} {}", ">", "Hat", 5, "🍀🎩1x4, 🎩2x1"), LineStyle::Highlight)
    );
    assert_eq!(lines[19], (String::new(), LineStyle::Plain));
    assert_eq!(lines[20], ("Asset IDs for Hat:".to_string(), LineStyle::Plain));
    assert_eq!(lines[21], (format!("  lvl1 🍀: 0x{}", "03".repeat(32)), LineStyle::Plain));
    assert_eq!(lines[22], (format!("  lvl2: 0x{}", "01".repeat(32)), LineStyle::Plain));
    assert_eq!(
        lines[24],
        ("Esc=close ↑/↓ move (rows include strap kinds you do not own yet)".to_string(), LineStyle::Plain)
    );

    let lines = strap_inventory_lines(&rows, 99, &known);
    assert_eq!(lines[18].1, LineStyle::Highlight);
    assert_eq!(lines[20], ("Asset IDs for Belt:".to_string(), LineStyle::Plain));
    assert_eq!(lines[21], ("  None".to_string(), LineStyle::Plain));
    assert_eq!(
        strap_inventory_lines(&Vec::new(), 0, &known),
        vec![("No strap types available".to_string(), LineStyle::Plain)]
    );
}

#[test]
fn roll_history_panel() {
    assert_eq!(roll_history_line(&Vec::new()), ("None".to_string(), LineStyle::Dimmed));
    assert_eq!(
        roll_history_line(&vec![Roll::Four, Roll::Eleven]),
        ("Four Eleven".to_string(), LineStyle::Plain)
    );
}

#[test]
fn game_panel() {
    let f = GameFigures {
        game_id: 3,
        vrf_mode: VrfMode::Fake,
        vrf_number: 19,
        next_roll_height: Some(120),
        block_height: 118,
        pot: 1000,
        owed: 10,
        chip_bets: 40,
        capacity: 9,
    };
    assert_eq!(
        overview_lines(&f),
        vec![
            "Game: 3 | Fake VRF: 19 (Seven) | Next Roll Height: 120 | Current Block Height: 118".to_string(),
            "Pot: 1000 | Owed: 10 | Chip Bets: 40 | Remaining Capacity: 9".to_string(),
        ]
    );
    let p = GameFigures { vrf_mode: VrfMode::Pseudo, next_roll_height: None, ..f };
    assert_eq!(
        overview_lines(&p)[0],
        "Game: 3 | Pseudo VRF Mode | Next Roll Height: N/A | Current Block Height: 118"
    );
}

#[test]
fn grid_cells() {
    let active = vec![(Roll::Six, Modifier::Lucky, 0), (Roll::Six, Modifier::Evil, 1)];
    assert_eq!(cell_title(Roll::Six, &active), "Six 🍀 😈");
    assert_eq!(cell_title(Roll::Seven, &active), "Seven/RESET");
    assert_eq!(cell_title(Roll::Two, &Vec::new()), "Two");
    let hat = s(1, StrapKind::Hat, Modifier::Nothing);
    let cell = RollCell {
        roll: Roll::Six,
        chip_total: 4,
        strap_total: 1,
        straps: vec![(hat, 1)],
        rewards: vec![
            RewardInfo { strap: hat, cost: 20, count: 2 },
            RewardInfo { strap: s(1, StrapKind::Ring, Modifier::Nothing), cost: 40, count: 1 },
        ],
    };
    assert_eq!(
        cell_lines(&cell, "chips"),
        vec!["Rewards:", "2x🎩/20chips", "💍/40chips", "", "You:", "4 chips", "🎩1 x1"]
            .into_iter()
            .map(String::from)
            .collect::<Vec<String>>()
    );
    let empty = RollCell { roll: Roll::Two, chip_total: 0, strap_total: 0, straps: vec![], rewards: vec![] };
    assert_eq!(
        cell_lines(&empty, "CHP"),
        vec!["Rewards:", " None", "", "You:", "none"].into_iter().map(String::from).collect::<Vec<String>>()
    );
}

#[test]
fn shop_panel() {
    let items = vec![
        (Roll::Two, Roll::Six, Modifier::Burnt, false, false, 15),
        (Roll::Four, Roll::Eight, Modifier::Holy, true, true, 35),
    ];
    assert_eq!(
        shop_panel_lines(&items),
        vec![
            ("Six 🧯 (Unlock by rolling Two) - 15 chips".to_string(), LineStyle::Dimmed),
            ("Eight 👼 - purchased (35 chips)".to_string(), LineStyle::Done),
        ]
    );
    assert_eq!(shop_panel_lines(&Vec::new()), vec![("No modifiers available".to_string(), LineStyle::Plain)]);
}

#[test]
fn previous_games_panel() {
    assert_eq!(previous_games_lines(&Vec::new()), vec!["None".to_string()]);
    let with_bets = PreviousGameSummary {
        game_id: 5,
        cells: vec![RollCell { roll: Roll::Six, chip_total: 5, strap_total: 0, straps: vec![], rewards: vec![] }],
        modifiers: vec![],
        rolls: vec![Roll::Six, Roll::Seven],
        bets_by_roll: vec![(Roll::Six, vec![(Bet::Chip, 5, 0)])],
        claimed: false,
    };
    let without = PreviousGameSummary {
        game_id: 4,
        cells: vec![],
        modifiers: vec![],
        rolls: vec![],
        bets_by_roll: vec![],
        claimed: false,
    };
    assert!(has_user_bets(&with_bets));
    assert!(!has_user_bets(&without));
    assert_eq!(
        previous_games_lines(&vec![with_bets, without]),
        vec![
            "Game 5 [unclaimed] | Rolls: Six Seven",
            "  Bets:",
            "    Six: Chip x5 @0",
            "Game 4 [nothing-to-claim] | Rolls: None",
        ]
        .into_iter()
        .map(String::from)
        .collect::<Vec<String>>()
    );
}

#[test]
fn wallet_panel() {
    let w = WalletFigures {
        base_asset: [0xab; 32],
        base_ticker: Some("ETH".to_string()),
        base_balance: 1_500_000_000,
        chip_asset: [0x01; 32],
        chip_ticker: None,
        chip_balance: 7,
    };
    assert_eq!(
        wallet_line(&w, &Vec::new()),
        "Balance (ETH | 0xabab...): 1.5 | Chips (0x0101...): 7 | Straps: none"
    );
    let owned: Vec<(Strap, u64)> = (1..=4).map(|l| (s(l, StrapKind::Hat, Modifier::Nothing), 1)).collect();
    assert_eq!(
        wallet_line(&w, &owned),
        "Balance (ETH | 0xabab...): 1.5 | Chips (0x0101...): 7 | Straps: 🎩1x1, 🎩2x1, 🎩3x1... see more (press i)"
    );
}

#[test]
fn cell_border_colours() {
    let active = vec![(Roll::Six, Modifier::Nothing, 0), (Roll::Six, Modifier::Lucky, 1), (Roll::Six, Modifier::Evil, 2)];
    assert_eq!(border_color_for_roll(&Roll::Six, &active), Some((40, 167, 69)));
    assert_eq!(border_color_for_roll(&Roll::Two, &active), None);
}
