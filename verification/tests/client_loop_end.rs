use strapped_core::client_loop::{
    loop_result, AppController, LoopError, OverviewData, SnapshotError, WorkerEnd,
};
use strapped_core::types::Roll;

fn controller(errors: Vec<String>) -> AppController {
    AppController { selected_roll: Roll::Nine, vrf_number: 21, status: "Ready".to_string(), errors }
}

fn overview() -> OverviewData {
    OverviewData {
        game_id: 4,
        rolls: vec![Roll::Six],
        pot_size: 10_000,
        chips_owed: 2_000,
        total_chip_bets: 100,
        current_block_height: 77,
        next_roll_height: Some(80),
        rewards: Vec::new(),
        modifier_shop: Vec::new(),
    }
}

#[test]
fn claim_failed__names_the_game_and_keeps_the_error() {
    let mut c = controller(vec!["older".to_string()]);
    c.claim_failed(12, "out of gas");
    assert_eq!(c.status, "Claim failed for game 12");
    assert_eq!(c.errors, vec!["older".to_string(), "claim(game_id=12) error: out of gas".to_string()]);
    assert_eq!(c.selected_roll, Roll::Nine);
    assert_eq!(c.vrf_number, 21);
}

#[test]
fn snapshot_head__needs_an_overview() {
    let c = controller(Vec::new());
    assert_eq!(c.snapshot_head(None).unwrap_err(), SnapshotError::NoOverview);
}

#[test]
fn snapshot_head__copies_the_overview_and_the_newest_five_errors() {
    let errors: Vec<String> = (1..=7).map(|i| format!("e{i}")).collect();
    let c = controller(errors);
    let o = overview();
    let h = c.snapshot_head(Some(&o)).unwrap();
    assert_eq!(h.current_game_id, 4);
    assert_eq!(h.current_block_height, 77);
    assert_eq!(h.next_roll_height, Some(80));
    assert_eq!((h.pot_balance, h.chips_owed, h.total_chip_bets), (10_000, 2_000, 100));
    // (10000 - 2000) * 5 / 100 - 100
    assert_eq!(h.available_bet_capacity, 300);
    assert_eq!(h.selected_roll, Roll::Nine);
    assert_eq!(h.vrf_number, 21);
    assert_eq!(h.status, "Ready");
    assert_eq!(h.errors, vec!["e7", "e6", "e5", "e4", "e3"]);
    let few = controller(vec!["a".to_string(), "b".to_string()]);
    assert_eq!(few.snapshot_head(Some(&o)).unwrap().errors, vec!["b", "a"]);
}

#[test]
fn loop_result__reports_how_the_snapshot_worker_ended() {
    assert_eq!(loop_result(WorkerEnd::Finished, false), Ok(()));
    assert_eq!(loop_result(WorkerEnd::Finished, true), Err(LoopError::WorkerExitedUnexpectedly));
    assert_eq!(
        loop_result(WorkerEnd::Failed("gone".to_string()), false),
        Err(LoopError::WorkerFailed("gone".to_string()))
    );
    assert_eq!(
        loop_result(WorkerEnd::Panicked("boom".to_string()), true),
        Err(LoopError::WorkerPanicked("boom".to_string()))
    );
    assert_eq!(
        LoopError::WorkerExitedUnexpectedly.message(),
        "Snapshot worker exited unexpectedly; check the indexer connection"
    );
    assert_eq!(LoopError::WorkerFailed("x".to_string()).message(), "snapshot worker failed: x");
}
