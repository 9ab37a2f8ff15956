use strapped_core::client_state::{Bet, PreviousGameSummary};
use strapped_core::types::{Modifier, Roll, Strap, StrapKind};
use strapped_core::ui_state::{ClaimFocus, ClaimState, KeyCode, Mode, UiState, UserEvent};

fn game(id: u32, claimed: bool, modifiers: Vec<(Roll, Modifier, u32)>) -> PreviousGameSummary {
    PreviousGameSummary {
        game_id: id,
        cells: vec![],
        modifiers,
        rolls: vec![Roll::Six],
        bets_by_roll: vec![(Roll::Six, vec![(Bet::Chip, 5, 0)])],
        claimed,
    }
}

#[test]
fn bet_modal__edits_amount_and_confirms() {
    let mut ui = UiState::default();
    assert!(matches!(ui.interpret_key(KeyCode::Char('b')), Some(UserEvent::OpenBetModal)));
    for c in ['4', '2'] {
        ui.interpret_key(KeyCode::Char(c));
    }
    assert_eq!(ui.mode, Mode::BetModal { amount: 42 });
    ui.interpret_key(KeyCode::Backspace);
    ui.interpret_key(KeyCode::Char('+'));
    ui.interpret_key(KeyCode::Up);
    assert_eq!(ui.mode, Mode::BetModal { amount: 6 });
    assert_eq!(ui.interpret_key(KeyCode::Char('x')), None);
    assert_eq!(ui.interpret_key(KeyCode::Enter), Some(UserEvent::PlaceBetAmount(6)));
    assert_eq!(ui.mode, Mode::Normal);
}

#[test]
fn vrf_modal__saturates_and_sets() {
    let mut ui = UiState::default();
    ui.interpret_key(KeyCode::Char('/'));
    ui.mode = Mode::VrfModal { value: u64::MAX };
    ui.interpret_key(KeyCode::Char('9'));
    assert_eq!(ui.mode, Mode::VrfModal { value: u64::MAX });
    ui.mode = Mode::VrfModal { value: 0 };
    ui.interpret_key(KeyCode::Down);
    assert_eq!(ui.mode, Mode::VrfModal { value: 0 });
    assert_eq!(ui.interpret_key(KeyCode::Enter), Some(UserEvent::SetVrf(0)));
}

#[test]
fn normal_mode__keys_and_quit() {
    let mut ui = UiState::default();
    assert_eq!(ui.interpret_key(KeyCode::Right), Some(UserEvent::NextRoll));
    assert_eq!(ui.interpret_key(KeyCode::Char('h')), Some(UserEvent::PrevRoll));
    assert_eq!(ui.interpret_key(KeyCode::Char('r')), Some(UserEvent::Roll));
    assert_eq!(ui.interpret_key(KeyCode::Char('z')), None);
    assert_eq!(ui.interpret_key(KeyCode::Esc), Some(UserEvent::Redraw));
    assert_eq!(ui.mode, Mode::QuitModal);
    assert_eq!(ui.interpret_key(KeyCode::Char('n')), Some(UserEvent::Redraw));
    assert_eq!(ui.mode, Mode::Normal);
    ui.interpret_key(KeyCode::Char('q'));
    assert_eq!(ui.interpret_key(KeyCode::Char('Y')), Some(UserEvent::Quit));
}

#[test]
fn normal_mode__t_opens_the_strap_bet_with_one() {
    let mut ui = UiState::default();
    assert_eq!(ui.interpret_key(KeyCode::Char('t')), Some(UserEvent::OpenStrapBet));
    assert_eq!(ui.mode, Mode::StrapBet { idx: 0, amount: 1 });
    ui.mode = Mode::Normal;
    assert_eq!(ui.interpret_key(KeyCode::Char('b')), Some(UserEvent::OpenBetModal));
    assert_eq!(ui.mode, Mode::BetModal { amount: 0 });
    ui.mode = Mode::Normal;
    assert_eq!(ui.interpret_key(KeyCode::Char('s')), Some(UserEvent::OpenShop));
    assert_eq!(ui.mode, Mode::ShopModal { idx: 0 });
}

#[test]
fn shop_modal__buys_only_triggered_unpurchased() {
    let mut ui = UiState::default();
    ui.shop_items = vec![
        (Roll::Two, Roll::Four, Modifier::Holy, false, false, 30),
        (Roll::Three, Roll::Five, Modifier::Holey, true, false, 40),
    ];
    ui.interpret_key(KeyCode::Char('s'));
    assert_eq!(ui.interpret_key(KeyCode::Enter), Some(UserEvent::Redraw));
    ui.interpret_key(KeyCode::Down);
    ui.interpret_key(KeyCode::Down);
    assert_eq!(ui.mode, Mode::ShopModal { idx: 1 });
    assert_eq!(
        ui.interpret_key(KeyCode::Enter),
        Some(UserEvent::ConfirmShopPurchase { roll: Roll::Five, modifier: Modifier::Holey })
    );
}

#[test]
fn strap_bet__amount_capped_by_balance() {
    let mut ui = UiState::default();
    let hat = Strap::new(1, StrapKind::Hat, Modifier::Nothing);
    ui.owned_straps = vec![(hat, 2)];
    ui.interpret_key(KeyCode::Char('i'));
    assert_eq!(ui.interpret_key(KeyCode::Enter), Some(UserEvent::OpenStrapBet));
    assert_eq!(ui.mode, Mode::StrapBet { idx: 0, amount: 1 });
    ui.interpret_key(KeyCode::Char('-'));
    assert_eq!(ui.mode, Mode::StrapBet { idx: 0, amount: 1 });
    for _ in 0..5 {
        ui.interpret_key(KeyCode::Right);
    }
    assert_eq!(ui.interpret_key(KeyCode::Enter), Some(UserEvent::ConfirmStrapBet { strap: hat, amount: 2 }));
}

#[test]
fn claim_modal__selects_and_confirms() {
    let mut ui = UiState::default();
    ui.prev_games = vec![
        game(1, true, vec![]),
        game(2, false, vec![(Roll::Six, Modifier::Lucky, 0), (Roll::Eight, Modifier::Holy, 1)]),
        game(3, false, vec![]),
    ];
    assert_eq!(ui.interpret_key(KeyCode::Char('c')), Some(UserEvent::OpenClaimModal));
    assert_eq!(
        ui.mode,
        Mode::ClaimModal(ClaimState {
            game_idx: 0,
            mod_idx: 0,
            selected: vec![(Roll::Six, Modifier::Lucky), (Roll::Eight, Modifier::Holy)],
            focus: ClaimFocus::Games,
        })
    );
    // the space bar moves the focus to the modifiers and drops the one under the cursor
    ui.interpret_key(KeyCode::Char(' '));
    assert_eq!(
        ui.interpret_key(KeyCode::Enter),
        Some(UserEvent::ConfirmClaim { game_id: 2, enabled: vec![(Roll::Eight, Modifier::Holy)] })
    );
    // the next game has nothing to enable
    ui.interpret_key(KeyCode::Char('c'));
    ui.interpret_key(KeyCode::Down);
    assert_eq!(ui.interpret_key(KeyCode::Enter), Some(UserEvent::ConfirmClaim { game_id: 3, enabled: vec![] }));
    // with nothing to claim, Enter does nothing
    ui.prev_games = vec![];
    ui.interpret_key(KeyCode::Char('c'));
    assert_eq!(ui.interpret_key(KeyCode::Enter), None);
}

#[test]
fn absorb_snapshot__resets_shop_cursor_on_new_game() {
    let mut ui = UiState::default();
    ui.mode = Mode::ShopModal { idx: 3 };
    ui.absorb_snapshot(vec![], 7, 4, vec![], vec![]);
    assert_eq!(ui.mode, Mode::ShopModal { idx: 0 });
    assert_eq!(ui.last_game_id, Some(4));
    assert_eq!(ui.current_vrf, 7);
    ui.mode = Mode::ShopModal { idx: 2 };
    ui.absorb_snapshot(vec![], 7, 4, vec![], vec![]);
    assert_eq!(ui.mode, Mode::ShopModal { idx: 2 });
}
