use strapped_core::client_loop::{
    action_error, action_status, chip_label, claim_status, claim_strap_deltas, followups, plan_user_event,
    process_post_action, roll_wait_status, rolled_status, AppController, Followups, LoopAction, PendingRollCheck, PostRollStep,
};
use strapped_core::types::{Modifier, Roll, Strap, StrapKind};
use strapped_core::ui_state::UserEvent;

fn controller(roll: Roll, vrf: u64) -> AppController {
    AppController { selected_roll: roll, vrf_number: vrf, status: "idle".to_string(), errors: Vec::new() }
}

fn shop() -> Vec<(Roll, Roll, Modifier, bool, bool, u64)> {
    vec![
        (Roll::Two, Roll::Six, Modifier::Burnt, false, false, 15),
        (Roll::Three, Roll::Six, Modifier::Lucky, true, false, 25),
        (Roll::Four, Roll::Eight, Modifier::Holy, true, true, 35),
        (Roll::Five, Roll::Six, Modifier::Holy, true, false, 45),
    ]
}

#[test]
fn before_a_board_only_quit_counts() {
    let mut c = controller(Roll::Six, 3);
    assert_eq!(plan_user_event(&mut c, UserEvent::Quit, None, &shop()), LoopAction::Stop);
    assert_eq!(plan_user_event(&mut c, UserEvent::NextRoll, None, &shop()), LoopAction::Ignore);
    assert_eq!(plan_user_event(&mut c, UserEvent::VRFInc, None, &shop()), LoopAction::Ignore);
    assert_eq!(c.selected_roll, Roll::Six);
    assert_eq!(c.vrf_number, 3);
}

#[test]
fn the_cursor_moves_round_the_board() {
    let history = vec![Roll::Four];
    let mut c = controller(Roll::Twelve, 0);
    let a = plan_user_event(&mut c, UserEvent::NextRoll, Some((&history, 1)), &shop());
    assert_eq!(a, LoopAction::SelectionMoved(Roll::Two));
    assert_eq!(c.selected_roll, Roll::Two);
    let a = plan_user_event(&mut c, UserEvent::PrevRoll, Some((&history, 1)), &shop());
    assert_eq!(a, LoopAction::SelectionMoved(Roll::Twelve));
    c.select_prev_roll();
    assert_eq!(c.selected_roll, Roll::Eleven);
    c.select_next_roll();
    assert_eq!(c.selected_roll, Roll::Twelve);
}

#[test]
fn vrf_steps_wrap() {
    let history = Vec::new();
    let mut c = controller(Roll::Six, u64::MAX);
    assert_eq!(plan_user_event(&mut c, UserEvent::VRFInc, Some((&history, 1)), &shop()), LoopAction::SetVrf(0));
    assert_eq!(c.vrf_number, 0);
    assert_eq!(plan_user_event(&mut c, UserEvent::VRFDec, Some((&history, 1)), &shop()), LoopAction::SetVrf(u64::MAX));
    assert_eq!(c.vrf_number, u64::MAX);
    assert_eq!(plan_user_event(&mut c, UserEvent::SetVrf(7), Some((&history, 1)), &shop()), LoopAction::SetVrf(7));
    assert_eq!(c.vrf_number, u64::MAX);
    c.inc_vrf();
    c.inc_vrf();
    assert_eq!(c.vrf_number, 1);
    c.dec_vrf();
    assert_eq!(c.vrf_number, 0);
}

#[test]
fn a_chip_bet_goes_on_the_selected_roll() {
    let history = Vec::new();
    let mut c = controller(Roll::Nine, 0);
    assert_eq!(
        plan_user_event(&mut c, UserEvent::PlaceBetAmount(12), Some((&history, 1)), &shop()),
        LoopAction::PlaceChipBet { roll: Roll::Nine, amount: 12 }
    );
}

#[test]
fn purchase_takes_the_first_open_trigger_of_the_selected_roll() {
    let history = Vec::new();
    let mut c = controller(Roll::Six, 0);
    assert_eq!(
        plan_user_event(&mut c, UserEvent::Purchase, Some((&history, 1)), &shop()),
        LoopAction::PurchaseTriggered { target: Roll::Six, modifier: Modifier::Lucky, cost: 25 }
    );
    let mut c = controller(Roll::Eight, 0);
    assert_eq!(
        plan_user_event(&mut c, UserEvent::Purchase, Some((&history, 1)), &shop()),
        LoopAction::NoTriggeredModifier { roll: Roll::Eight }
    );
}

#[test]
fn shop_purchase_checks_what_was_bought_and_prices() {
    let history = Vec::new();
    let mut c = controller(Roll::Two, 0);
    let ev = UserEvent::ConfirmShopPurchase { roll: Roll::Eight, modifier: Modifier::Holy };
    assert_eq!(
        plan_user_event(&mut c, ev, Some((&history, 1)), &shop()),
        LoopAction::AlreadyPurchased { roll: Roll::Eight, modifier: Modifier::Holy }
    );
    let ev = UserEvent::ConfirmShopPurchase { roll: Roll::Six, modifier: Modifier::Burnt };
    assert_eq!(
        plan_user_event(&mut c, ev, Some((&history, 1)), &shop()),
        LoopAction::ShopPurchase { roll: Roll::Six, modifier: Modifier::Burnt, cost: 15 }
    );
    let ev = UserEvent::ConfirmShopPurchase { roll: Roll::Ten, modifier: Modifier::Groovy };
    assert_eq!(
        plan_user_event(&mut c, ev, Some((&history, 1)), &shop()),
        LoopAction::ShopPurchase { roll: Roll::Ten, modifier: Modifier::Groovy, cost: 100 }
    );
}

#[test]
fn a_roll_remembers_the_board() {
    let history = vec![Roll::Four, Roll::Nine];
    let mut c = controller(Roll::Two, 0);
    assert_eq!(
        plan_user_event(&mut c, UserEvent::Roll, Some((&history, 5)), &shop()),
        LoopAction::Roll { prev_len: 2, prev_last: Some(Roll::Nine), prev_game_id: 5 }
    );
    let empty = Vec::new();
    assert_eq!(
        plan_user_event(&mut c, UserEvent::Roll, Some((&empty, 6)), &shop()),
        LoopAction::Roll { prev_len: 0, prev_last: None, prev_game_id: 6 }
    );
}

#[test]
fn other_requests_pass_through_or_redraw() {
    let history = Vec::new();
    let mut c = controller(Roll::Two, 0);
    let strap = Strap { level: 1, kind: StrapKind::Shirt, modifier: Modifier::Nothing };
    assert_eq!(
        plan_user_event(&mut c, UserEvent::ConfirmStrapBet { strap, amount: 2 }, Some((&history, 1)), &shop()),
        LoopAction::PlaceStrapBet { roll: Roll::Two, strap, amount: 2 }
    );
    assert_eq!(
        plan_user_event(
            &mut c,
            UserEvent::ConfirmClaim { game_id: 3, enabled: vec![(Roll::Six, Modifier::Lucky)] },
            Some((&history, 1)),
            &shop()
        ),
        LoopAction::Claim { game_id: 3, enabled: vec![(Roll::Six, Modifier::Lucky)] }
    );
    assert_eq!(
        plan_user_event(&mut c, UserEvent::OpenStrapInventory, Some((&history, 1)), &shop()),
        LoopAction::RefreshStrapInventory
    );
    for ev in [
        UserEvent::OpenShop,
        UserEvent::OpenBetModal,
        UserEvent::OpenClaimModal,
        UserEvent::OpenVrfModal,
        UserEvent::OpenStrapBet,
        UserEvent::Redraw,
    ] {
        assert_eq!(plan_user_event(&mut c, ev, Some((&history, 1)), &shop()), LoopAction::Redraw);
    }
    assert_eq!(plan_user_event(&mut c, UserEvent::Quit, Some((&history, 1)), &shop()), LoopAction::Stop);
}

#[test]
fn refreshes_after_each_call() {
    let none = Followups { request_snapshot: false, refresh_modifiers: false, refresh_straps: false, refresh_chips: false };
    assert_eq!(
        followups(&LoopAction::PlaceChipBet { roll: Roll::Six, amount: 1 }),
        Followups { request_snapshot: true, refresh_chips: true, ..none }
    );
    assert_eq!(
        followups(&LoopAction::ShopPurchase { roll: Roll::Six, modifier: Modifier::Lucky, cost: 3 }),
        Followups { request_snapshot: true, refresh_modifiers: true, refresh_chips: true, ..none }
    );
    assert_eq!(
        followups(&LoopAction::Claim { game_id: 1, enabled: Vec::new() }),
        Followups { request_snapshot: true, refresh_straps: true, ..none }
    );
    assert_eq!(
        followups(&LoopAction::Roll { prev_len: 0, prev_last: None, prev_game_id: 1 }),
        Followups { request_snapshot: true, refresh_modifiers: true, ..none }
    );
    assert_eq!(followups(&LoopAction::SetVrf(3)), Followups { request_snapshot: true, ..none });
    assert_eq!(followups(&LoopAction::Redraw), none);
    assert_eq!(followups(&LoopAction::NoTriggeredModifier { roll: Roll::Six }), none);
}

#[test]
fn status_and_errors() {
    let mut c = controller(Roll::Two, 0);
    c.push_errors(vec!["a".to_string(), "b".to_string()]);
    assert_eq!(c.errors.len(), 2);
    c.set_status("Rolling...".to_string());
    assert_eq!(c.status, "Rolling...");
    assert!(c.errors.is_empty());
    let many: Vec<String> = (0..60).map(|i| format!("e{}", i)).collect();
    c.push_errors(many);
    assert_eq!(c.errors.len(), 50);
    assert_eq!(c.errors[0], "e10");
}

#[test]
fn chip_word() {
    assert_eq!(chip_label(1), "chip");
    assert_eq!(chip_label(0), "chips");
    assert_eq!(chip_label(2), "chips");
}

#[test]
fn post_roll_messages() {
    let check = PendingRollCheck { prev_len: 2, prev_last: Some(Roll::Four), prev_game_id: 3 };
    let mut pending = None;
    assert_eq!(process_post_action(&mut pending, 3, Some(Roll::Six), 3, 1, 2, 3, "x"), PostRollStep::Idle);

    let mut pending = Some(check);
    assert_eq!(
        process_post_action(&mut pending, 0, None, 4, 100, 20, 4, "Rolling..."),
        PostRollStep::Shown("Rolled a Seven! New Game 4 | Pot: 100 | Owed: 20 | Capacity: 4".to_string())
    );
    assert_eq!(pending, None);

    let mut pending = Some(check);
    assert_eq!(
        process_post_action(&mut pending, 3, Some(Roll::Eight), 3, 0, 0, 0, "Rolling..."),
        PostRollStep::Shown("Rolled an Eight".to_string())
    );
    assert_eq!(pending, None);

    let mut pending = Some(check);
    assert_eq!(
        process_post_action(&mut pending, 3, Some(Roll::Six), 3, 0, 0, 0, "Rolling..."),
        PostRollStep::Shown("Rolled a Six".to_string())
    );

    let mut pending = Some(check);
    assert_eq!(
        process_post_action(&mut pending, 2, Some(Roll::Four), 3, 0, 0, 0, "Rolling..."),
        PostRollStep::Waiting(Some("Roll submitted; waiting for confirmation...".to_string()))
    );
    assert_eq!(pending, Some(check));
    assert_eq!(
        process_post_action(&mut pending, 2, Some(Roll::Four), 3, 0, 0, 0, "idle"),
        PostRollStep::Waiting(None)
    );
}

#[test]
fn claim_messages() {
    let hat = Strap { level: 2, kind: StrapKind::Hat, modifier: Modifier::Lucky };
    let shirt = Strap { level: 1, kind: StrapKind::Shirt, modifier: Modifier::Nothing };
    let gains = claim_strap_deltas(&vec![(hat, 1), (shirt, 5)], &vec![3, 5]);
    assert_eq!(gains, vec![(hat, 2)]);
    assert_eq!(claim_status(7, 30, 0, &Vec::new()), "Claimed game 7 | Chips 30");
    assert_eq!(claim_status(7, 30, 10, &Vec::new()), "Claimed game 7 | Chips 30 | Bet 10 | Net +20");
    assert_eq!(
        claim_status(7, 5, 10, &vec![(hat, 2), (shirt, 1)]),
        "Claimed game 7 | Chips 5 | Bet 10 | Net -5 | Straps: 🍀🎩2 x2 👕1 x1"
    );
}

#[test]
fn action_messages() {
    let hat = Strap { level: 2, kind: StrapKind::Hat, modifier: Modifier::Nothing };
    assert_eq!(
        action_status(&LoopAction::PlaceChipBet { roll: Roll::Nine, amount: 1 }),
        Some("Placing bet of 1 chip on Nine...".to_string())
    );
    assert_eq!(
        action_status(&LoopAction::PlaceChipBet { roll: Roll::Two, amount: 12 }),
        Some("Placing bet of 12 chips on Two...".to_string())
    );
    assert_eq!(
        action_status(&LoopAction::PlaceStrapBet { roll: Roll::Six, strap: hat, amount: 3 }),
        Some("Placing 3 of 🎩2 on Six...".to_string())
    );
    assert_eq!(
        action_status(&LoopAction::NoTriggeredModifier { roll: Roll::Ten }),
        Some("Purchasing triggered modifier for Ten...".to_string())
    );
    assert_eq!(action_status(&LoopAction::Roll { prev_len: 0, prev_last: None, prev_game_id: 0 }), Some("Rolling...".to_string()));
    assert_eq!(action_status(&LoopAction::SetVrf(19)), Some("Setting VRF to 19...".to_string()));
    assert_eq!(
        action_status(&LoopAction::Claim { game_id: 4, enabled: Vec::new() }),
        Some("Claiming rewards for game 4...".to_string())
    );
    assert_eq!(
        action_status(&LoopAction::Claim { game_id: 4, enabled: vec![(Roll::Six, Modifier::Lucky)] }),
        Some("Claiming rewards for game 4 (1 modifier)...".to_string())
    );
    assert_eq!(
        action_status(&LoopAction::Claim {
            game_id: 4,
            enabled: vec![(Roll::Six, Modifier::Lucky), (Roll::Two, Modifier::Holy)]
        }),
        Some("Claiming rewards for game 4 (2 modifiers)...".to_string())
    );
    assert_eq!(
        action_status(&LoopAction::ShopPurchase { roll: Roll::Eight, modifier: Modifier::Groovy, cost: 100 }),
        Some("Purchasing Groovy for Eight (100 chips)...".to_string())
    );
    assert_eq!(action_status(&LoopAction::Redraw), None);
    assert_eq!(
        action_error(&LoopAction::NoTriggeredModifier { roll: Roll::Ten }),
        Some("No triggered modifier for the selected roll".to_string())
    );
    assert_eq!(
        action_error(&LoopAction::AlreadyPurchased { roll: Roll::Eight, modifier: Modifier::Holy }),
        Some("Holy for Eight is already purchased".to_string())
    );
    assert_eq!(action_error(&LoopAction::Redraw), None);
}

#[test]
fn roll_statuses() {
    assert_eq!(
        roll_wait_status(120, 118),
        Some("Waiting for block 120 (current height 118) before rolling".to_string())
    );
    assert_eq!(roll_wait_status(120, 120), None);
    assert_eq!(rolled_status(Roll::Seven), "Rolled a Seven! Waiting for the next game...");
    assert_eq!(rolled_status(Roll::Eight), "Rolled a Eight");
}
