use strapped_core::deploy_plan::choose_binary;
use strapped_core::ui_state::{
    interpret_event, KeyCode, KeyEvent, KeyEventKind, Mode, TerminalEvent, UiState, UserEvent,
};

fn key(code: KeyCode, kind: KeyEventKind) -> TerminalEvent {
    TerminalEvent::Key(KeyEvent { code, kind })
}

#[test]
fn interpret_event__acts_on_presses_only() {
    let mut ui = UiState::default();
    assert_eq!(interpret_event(&mut ui, key(KeyCode::Char('b'), KeyEventKind::Release)), None);
    assert_eq!(ui.mode, Mode::Normal);
    assert_eq!(interpret_event(&mut ui, key(KeyCode::Char('b'), KeyEventKind::Repeat)), None);
    assert_eq!(ui.mode, Mode::Normal);
    assert_eq!(interpret_event(&mut ui, TerminalEvent::Other), None);
    assert_eq!(ui.mode, Mode::Normal);
    assert_eq!(
        interpret_event(&mut ui, key(KeyCode::Char('b'), KeyEventKind::Press)),
        Some(UserEvent::OpenBetModal)
    );
    assert_eq!(ui.mode, Mode::BetModal { amount: 0 });
    assert_eq!(interpret_event(&mut ui, key(KeyCode::Esc, KeyEventKind::Release)), None);
    assert_eq!(ui.mode, Mode::BetModal { amount: 0 });
    assert_eq!(interpret_event(&mut ui, key(KeyCode::Esc, KeyEventKind::Press)), Some(UserEvent::Redraw));
    assert_eq!(ui.mode, Mode::Normal);
}

#[test]
fn interpret_key__moves_up_from_the_last_cursor() {
    let mut ui = UiState::default();
    ui.mode = Mode::ShopModal { idx: usize::MAX };
    ui.interpret_key(KeyCode::Up);
    assert_eq!(ui.mode, Mode::ShopModal { idx: usize::MAX - 1 });
}

#[test]
fn choose_binary__takes_the_first_that_exists() {
    assert_eq!(choose_binary(&vec![false, true, true]), Some(1));
    assert_eq!(choose_binary(&vec![true]), Some(0));
    assert_eq!(choose_binary(&vec![false, false]), None);
    assert_eq!(choose_binary(&vec![]), None);
}
