//! The terminal client's modal dialogs: how a key press moves them and what it asks the
//! client to do. Drawing and reading the keyboard stay with the caller.
use vstd::prelude::*;
use crate::client_state::{PreviousGameSummary, claimable, claimable_games, rows_view};
use crate::indexer::{sat_add, sat_sub};
use crate::types::{Modifier, Roll, Strap};

verus! {

/// The keys the client reacts to.
#[derive(Clone, Copy, Debug, PartialEq, Eq, Structural)]
pub enum KeyCode {
    Esc,
    Enter,
    Up,
    Down,
    Left,
    Right,
    Backspace,
    Char(char),
    Other,
}

/// What a key press asks the client to do.
#[derive(Clone, Debug, PartialEq, Eq)]
pub enum UserEvent {
    Quit,
    NextRoll,
    PrevRoll,
    PlaceBetAmount(u64),
    Purchase,
    Roll,
    VRFInc,
    VRFDec,
    SetVrf(u64),
    OpenBetModal,
    OpenClaimModal,
    OpenVrfModal,
    Redraw,
    OpenShop,
    ConfirmShopPurchase { roll: Roll, modifier: Modifier },
    OpenStrapBet,
    OpenStrapInventory,
    ConfirmStrapBet { strap: Strap, amount: u64 },
    ConfirmClaim { game_id: u32, enabled: Vec<(Roll, Modifier)> },
}

/// Which list of the claim dialog has the focus.
#[derive(Clone, Copy, Debug, PartialEq, Eq, Structural)]
pub enum ClaimFocus {
    Games,
    Modifiers,
}

/// The claim dialog: the game and modifier under the cursor, and the modifiers to enable.
#[derive(Clone, Debug, PartialEq, Eq)]
pub struct ClaimState {
    pub game_idx: usize,
    pub mod_idx: usize,
    pub selected: Vec<(Roll, Modifier)>,
    pub focus: ClaimFocus,
}

/// The dialog that is open, with its own state.
#[derive(Clone, Debug, PartialEq, Eq)]
pub enum Mode {
    Normal,
    BetModal { amount: u64 },
    TableBetsModal,
    ClaimModal(ClaimState),
    VrfModal { value: u64 },
    ShopModal { idx: usize },
    QuitModal,
    StrapBet { idx: usize, amount: u64 },
    StrapInventory { idx: usize },
}

/// The terminal client's state: its open dialog and what the dialogs show.
#[derive(Debug, PartialEq, Eq)]
pub struct UiState {
    pub mode: Mode,
    pub prev_games: Vec<PreviousGameSummary>,
    pub current_vrf: u64,
    pub shop_items: Vec<(Roll, Roll, Modifier, bool, bool, u64)>,
    pub last_game_id: Option<u32>,
    pub owned_straps: Vec<(Strap, u64)>,
}

/// The number of strap kinds the inventory lists.
pub const STRAP_KIND_COUNT: usize = 19;

/// The ten digits, with their values.
pub open spec fn digit_value(c: char) -> Option<u64> {
    if '0' <= c && c <= '9' {
        Some((c as u64 - '0' as u64) as u64)
    } else {
        None
    }
}

/// A number after a key of an amount editor: up by one, down by one, its last digit
/// dropped, or a digit appended (all saturating).
pub open spec fn edited(v: u64, key: KeyCode) -> Option<u64> {
    match key {
        KeyCode::Up => Some(sat_add(v, 1)),
        KeyCode::Down => Some(sat_sub(v, 1)),
        KeyCode::Backspace => Some(v / 10),
        KeyCode::Char(c) => if c == 'k' || c == '+' {
            Some(sat_add(v, 1))
        } else if c == 'j' || c == '-' {
            Some(sat_sub(v, 1))
        } else {
            match digit_value(c) {
                Some(d) => Some(sat_add(if v * 10 > u64::MAX {
                    u64::MAX
                } else {
                    (v * 10) as u64
                }, d)),
                None => None,
            }
        },
        _ => None,
    }
}

fn edit_amount(v: u64, key: KeyCode) -> (r: Option<u64>)
    ensures
        r == edited(v, key),
{
    match key {
        KeyCode::Up => Some(v.saturating_add(1)),
        KeyCode::Down => Some(v.saturating_sub(1)),
        KeyCode::Backspace => Some(v / 10),
        KeyCode::Char(c) => {
            if c == 'k' || c == '+' {
                Some(v.saturating_add(1))
            } else if c == 'j' || c == '-' {
                Some(v.saturating_sub(1))
            } else if '0' <= c && c <= '9' {
                let d = (c as u32 - '0' as u32) as u64;
                let scaled = match v.checked_mul(10) {
                    Some(x) => x,
                    None => u64::MAX,
                };
                Some(scaled.saturating_add(d))
            } else {
                None
            }
        },
        _ => None,
    }
}

/// A cursor moved up a list: one up, unless at the top.
pub open spec fn cursor_up(idx: usize) -> usize {
    if idx > 0 {
        (idx - 1) as usize
    } else {
        idx
    }
}

/// A cursor moved down a list of `len` entries: one down, but not past the last entry.
pub open spec fn cursor_down(idx: usize, len: nat) -> usize {
    let max: int = if len == 0 {
        0
    } else {
        len - 1
    };
    if idx + 1 < max {
        (idx + 1) as usize
    } else {
        max as usize
    }
}

fn move_down(idx: usize, len: usize) -> (r: usize)
    requires
        idx < usize::MAX,
    ensures
        r == cursor_down(idx, len as nat),
{
    let max = len.saturating_sub(1);
    let next = idx + 1;
    if next < max {
        next
    } else {
        max
    }
}

/// The claim dialog as plain values.
pub struct ClaimModel {
    pub game_idx: usize,
    pub mod_idx: usize,
    pub selected: Seq<(Roll, Modifier)>,
    pub focus: ClaimFocus,
}

impl View for ClaimState {
    type V = ClaimModel;

    open spec fn view(&self) -> ClaimModel {
        ClaimModel { game_idx: self.game_idx, mod_idx: self.mod_idx, selected: self.selected@, focus: self.focus }
    }
}

/// The game offers modifier `sel` on its roll.
pub open spec fn offers(offered: Seq<(Roll, Modifier, u32)>, sel: (Roll, Modifier)) -> bool {
    exists|k: int| 0 <= k < offered.len() && offered[k].0 == sel.0 && offered[k].1 == sel.1
}

/// All the modifiers a game offers, selected.
pub open spec fn all_offered(offered: Seq<(Roll, Modifier, u32)>) -> Seq<(Roll, Modifier)> {
    offered.map_values(|m: (Roll, Modifier, u32)| (m.0, m.1))
}

/// The claim dialog when it shows a game offering `offered`: it keeps only the selected
/// modifiers the game offers, and with none left selects all the game offers; with none
/// offered, the focus goes back to the games.
pub open spec fn pruned(m: ClaimModel, offered: Seq<(Roll, Modifier, u32)>) -> ClaimModel {
    let kept = m.selected.filter(|sel: (Roll, Modifier)| offers(offered, sel));
    let selected = if kept.len() == 0 && offered.len() > 0 {
        all_offered(offered)
    } else {
        kept
    };
    if offered.len() == 0 {
        ClaimModel { mod_idx: 0, selected, focus: ClaimFocus::Games, ..m }
    } else {
        ClaimModel {
            mod_idx: if m.mod_idx < offered.len() - 1 {
                m.mod_idx
            } else {
                (offered.len() - 1) as usize
            },
            selected,
            ..m
        }
    }
}

/// The games the claim dialog lists: those with something to claim.
pub open spec fn claim_list(games: Seq<PreviousGameSummary>) -> Seq<PreviousGameSummary> {
    games.filter(|g: PreviousGameSummary| crate::client_state::is_claimable(g))
}

/// The claim dialog before it handles a key: empty without games to claim; else its game
/// cursor kept within the list, and its selection pruned for that game.
pub open spec fn claim_prepared(m: ClaimModel, list: Seq<PreviousGameSummary>) -> ClaimModel {
    if list.len() == 0 {
        ClaimModel { game_idx: 0, mod_idx: 0, selected: Seq::empty(), focus: ClaimFocus::Games }
    } else {
        let gi: usize = if m.game_idx < list.len() - 1 {
            m.game_idx
        } else {
            (list.len() - 1) as usize
        };
        pruned(ClaimModel { game_idx: gi, ..m }, list[gi as int].modifiers@)
    }
}

/// The selection with `x` toggled: its first occurrence removed, or `x` appended.
pub open spec fn toggled(s: Seq<(Roll, Modifier)>, x: (Roll, Modifier)) -> Seq<(Roll, Modifier)>
    decreases s.len(),
{
    if !s.contains(x) {
        s.push(x)
    } else if s[0] == x {
        s.drop_first()
    } else {
        seq![s[0]] + toggled(s.drop_first(), x)
    }
}

/// The claim dialog after a key other than Esc and Enter, from its prepared state.
pub open spec fn claim_moved(m: ClaimModel, list: Seq<PreviousGameSummary>, key: KeyCode) -> ClaimModel {
    let has_game = m.game_idx < list.len();
    let offered = if has_game {
        list[m.game_idx as int].modifiers@
    } else {
        Seq::empty()
    };
    if key == KeyCode::Left || key == KeyCode::Char('h') {
        ClaimModel { focus: ClaimFocus::Games, ..m }
    } else if key == KeyCode::Right || key == KeyCode::Char('l') {
        if has_game && offered.len() > 0 {
            ClaimModel {
                focus: ClaimFocus::Modifiers,
                mod_idx: if m.mod_idx < offered.len() - 1 {
                    m.mod_idx
                } else {
                    (offered.len() - 1) as usize
                },
                ..m
            }
        } else {
            m
        }
    } else if key == KeyCode::Up || key == KeyCode::Char('k') {
        match m.focus {
            ClaimFocus::Games => if m.game_idx > 0 {
                let gi = (m.game_idx - 1) as usize;
                pruned(ClaimModel { game_idx: gi, ..m }, list[gi as int].modifiers@)
            } else {
                m
            },
            ClaimFocus::Modifiers => ClaimModel { mod_idx: cursor_up(m.mod_idx), ..m },
        }
    } else if key == KeyCode::Down || key == KeyCode::Char('j') {
        match m.focus {
            ClaimFocus::Games => if m.game_idx + 1 < list.len() {
                let gi = (m.game_idx + 1) as usize;
                pruned(ClaimModel { game_idx: gi, ..m }, list[gi as int].modifiers@)
            } else {
                m
            },
            ClaimFocus::Modifiers => if has_game && m.mod_idx + 1 < offered.len() {
                ClaimModel { mod_idx: (m.mod_idx + 1) as usize, ..m }
            } else {
                m
            },
        }
    } else {
        // the space bar
        let focus = if m.focus != ClaimFocus::Modifiers && has_game && offered.len() > 0 {
            ClaimFocus::Modifiers
        } else {
            m.focus
        };
        let selected = if has_game && m.mod_idx < offered.len() {
            toggled(m.selected, (offered[m.mod_idx as int].0, offered[m.mod_idx as int].1))
        } else {
            m.selected
        };
        ClaimModel { focus, selected, ..m }
    }
}

/// What a key does in the claim dialog: `mode` is the dialog afterwards and `r` what the
/// key asks.
pub open spec fn claim_key_handled(
    before: ClaimModel,
    games: Seq<PreviousGameSummary>,
    key: KeyCode,
    mode: Mode,
    r: Option<UserEvent>,
) -> bool {
    let list = claim_list(games);
    let m = claim_prepared(before, list);
    if key == KeyCode::Esc {
        mode is Normal && r matches Some(UserEvent::Redraw)
    } else if key == KeyCode::Enter {
        if m.game_idx < list.len() {
            &&& mode is Normal
            &&& r matches Some(UserEvent::ConfirmClaim { game_id, enabled })
            &&& game_id == list[m.game_idx as int].game_id
            &&& enabled@ == m.selected
        } else {
            mode matches Mode::ClaimModal(cs) && cs@ == m && r is None
        }
    } else if key == KeyCode::Left || key == KeyCode::Char('h') || key == KeyCode::Right || key == KeyCode::Char('l')
        || key == KeyCode::Up || key == KeyCode::Char('k') || key == KeyCode::Down || key == KeyCode::Char('j')
        || key == KeyCode::Char(' ') {
        mode matches Mode::ClaimModal(cs) && cs@ == claim_moved(m, list, key) && r matches Some(UserEvent::Redraw)
    } else {
        mode matches Mode::ClaimModal(cs) && cs@ == m && r is None
    }
}

fn offered_has(offered: &Vec<(Roll, Modifier, u32)>, sel: (Roll, Modifier)) -> (r: bool)
    ensures
        r == offers(offered@, sel),
{
    let mut k: usize = 0;
    while k < offered.len()
        invariant
            k <= offered@.len(),
            forall|j: int| 0 <= j < k ==> !(offered@[j].0 == sel.0 && offered@[j].1 == sel.1),
        decreases offered@.len() - k,
    {
        if offered[k].0 == sel.0 && offered[k].1 == sel.1 {
            return true;
        }
        k = k + 1;
    }
    false
}

/// Keeps the claim dialog's selection and cursor consistent with the game it shows.
fn prune_selected(cs: &mut ClaimState, offered: &Vec<(Roll, Modifier, u32)>)
    ensures
        final(cs)@ == pruned(old(cs)@, offered@),
{
    let ghost pred = |sel: (Roll, Modifier)| offers(offered@, sel);
    let mut kept: Vec<(Roll, Modifier)> = Vec::new();
    let mut i: usize = 0;
    while i < cs.selected.len()
        invariant
            i <= cs.selected@.len(),
            cs@ == old(cs)@,
            pred == (|sel: (Roll, Modifier)| offers(offered@, sel)),
            kept@ == cs.selected@.take(i as int).filter(pred),
        decreases cs.selected@.len() - i,
    {
        let sel = cs.selected[i];
        proof {
            reveal_with_fuel(Seq::filter, 1);
            assert(cs.selected@.take(i + 1).drop_last() =~= cs.selected@.take(i as int));
        }
        if offered_has(offered, sel) {
            kept.push(sel);
        }
        i = i + 1;
    }
    proof {
        assert(cs.selected@.take(cs.selected@.len() as int) =~= cs.selected@);
    }
    if kept.len() == 0 && offered.len() > 0 {
        let mut all: Vec<(Roll, Modifier)> = Vec::new();
        let mut k: usize = 0;
        while k < offered.len()
            invariant
                k <= offered@.len(),
                all@ == all_offered(offered@.take(k as int)),
            decreases offered@.len() - k,
        {
            all.push((offered[k].0, offered[k].1));
            proof {
                assert(all_offered(offered@.take(k + 1)) =~= all_offered(offered@.take(k as int)).push(
                    (offered@[k as int].0, offered@[k as int].1),
                ));
            }
            k = k + 1;
        }
        proof {
            assert(offered@.take(offered@.len() as int) =~= offered@);
        }
        kept = all;
    }
    cs.selected = kept;
    if offered.len() == 0 {
        cs.focus = ClaimFocus::Games;
        cs.mod_idx = 0;
    } else if cs.mod_idx >= offered.len() - 1 {
        cs.mod_idx = offered.len() - 1;
    }
}

/// Toggles a modifier in the claim dialog's selection.
fn toggle(selected: &mut Vec<(Roll, Modifier)>, x: (Roll, Modifier))
    ensures
        final(selected)@ == toggled(old(selected)@, x),
{
    let mut j: usize = 0;
    while j < selected.len()
        invariant
            j <= selected@.len(),
            selected@ == old(selected)@,
            forall|k: int| 0 <= k < j ==> selected@[k] != x,
        decreases selected@.len() - j,
    {
        if selected[j].0 == x.0 && selected[j].1 == x.1 {
            proof {
                lemma_toggled_at(selected@, x, j as int);
            }
            selected.remove(j);
            return;
        }
        j = j + 1;
    }
    proof {
        assert(!selected@.contains(x));
    }
    selected.push(x);
}

proof fn lemma_toggled_at(s: Seq<(Roll, Modifier)>, x: (Roll, Modifier), j: int)
    requires
        0 <= j < s.len(),
        s[j] == x,
        forall|k: int| 0 <= k < j ==> s[k] != x,
    ensures
        toggled(s, x) == s.remove(j),
    decreases j,
{
    assert(s.contains(x));
    if j > 0 {
        let t = s.drop_first();
        assert(t[j - 1] == x);
        assert forall|k: int| 0 <= k < j - 1 implies t[k] != x by {
            assert(t[k] == s[k + 1]);
        }
        lemma_toggled_at(t, x, j - 1);
        assert(seq![s[0]] + t.remove(j - 1) =~= s.remove(j));
    } else {
        assert(s.drop_first() =~= s.remove(0));
    }
}

/// Handles a key in the claim dialog, over the finished games the client shows.
fn claim_key(cs: ClaimState, games: &Vec<PreviousGameSummary>, key: KeyCode) -> (res: (Mode, Option<UserEvent>))
    ensures
        claim_key_handled(cs@, games@, key, res.0, res.1),
{
    let ghost before = cs@;
    let mut cs = cs;
    let picks = claimable_games(games);
    let ghost list = claim_list(games@);
    let n = picks.len();
    proof {
        assert(picks@.map_values(|k: usize| games@[k as int]) == list);
        assert(n == list.len());
        assert forall|k: int| 0 <= k < n implies games@[#[trigger] picks@[k] as int] == list[k] by {
            assert(picks@.map_values(|k: usize| games@[k as int])[k] == games@[picks@[k] as int]);
        }
    }
    if n == 0 {
        cs.game_idx = 0;
        cs.mod_idx = 0;
        cs.selected = Vec::new();
        cs.focus = ClaimFocus::Games;
    } else {
        if cs.game_idx >= n - 1 {
            cs.game_idx = n - 1;
        }
        let gi = cs.game_idx;
        proof {
            assert(games@[picks@[gi as int] as int] == list[gi as int]);
        }
        prune_selected(&mut cs, &games[picks[gi]].modifiers);
    }
    proof {
        assert(cs@ == claim_prepared(before, list));
    }
    let ghost m = cs@;
    if key == KeyCode::Esc {
        return (Mode::Normal, Some(UserEvent::Redraw));
    }
    if key == KeyCode::Enter {
        if cs.game_idx < n {
            let g = &games[picks[cs.game_idx]];
            proof {
                assert(games@[picks@[cs.game_idx as int] as int] == list[cs.game_idx as int]);
            }
            let enabled = crate::snapshot::copy_vec(&cs.selected);
            return (Mode::Normal, Some(UserEvent::ConfirmClaim { game_id: g.game_id, enabled }));
        } else {
            return (Mode::ClaimModal(cs), None);
        }
    }
    if key == KeyCode::Left || key == KeyCode::Char('h') {
        cs.focus = ClaimFocus::Games;
        return (Mode::ClaimModal(cs), Some(UserEvent::Redraw));
    }
    if key == KeyCode::Right || key == KeyCode::Char('l') {
        if cs.game_idx < n {
            let count = games[picks[cs.game_idx]].modifiers.len();
            proof {
                assert(games@[picks@[cs.game_idx as int] as int] == list[cs.game_idx as int]);
            }
            if count > 0 {
                cs.focus = ClaimFocus::Modifiers;
                if cs.mod_idx >= count - 1 {
                    cs.mod_idx = count - 1;
                }
            }
        }
        return (Mode::ClaimModal(cs), Some(UserEvent::Redraw));
    }
    if key == KeyCode::Up || key == KeyCode::Char('k') {
        match cs.focus {
            ClaimFocus::Games => {
                if cs.game_idx > 0 {
                    cs.game_idx = cs.game_idx - 1;
                    let gi = cs.game_idx;
                    proof {
                        assert(games@[picks@[gi as int] as int] == list[gi as int]);
                    }
                    prune_selected(&mut cs, &games[picks[gi]].modifiers);
                }
            },
            ClaimFocus::Modifiers => {
                if cs.mod_idx > 0 {
                    cs.mod_idx = cs.mod_idx - 1;
                }
            },
        }
        return (Mode::ClaimModal(cs), Some(UserEvent::Redraw));
    }
    if key == KeyCode::Down || key == KeyCode::Char('j') {
        match cs.focus {
            ClaimFocus::Games => {
                if cs.game_idx + 1 < n {
                    cs.game_idx = cs.game_idx + 1;
                    let gi = cs.game_idx;
                    proof {
                        assert(games@[picks@[gi as int] as int] == list[gi as int]);
                    }
                    prune_selected(&mut cs, &games[picks[gi]].modifiers);
                }
            },
            ClaimFocus::Modifiers => {
                if cs.game_idx < n {
                    let count = games[picks[cs.game_idx]].modifiers.len();
                    proof {
                        assert(games@[picks@[cs.game_idx as int] as int] == list[cs.game_idx as int]);
                    }
                    if cs.mod_idx + 1 < count {
                        cs.mod_idx = cs.mod_idx + 1;
                    }
                }
            },
        }
        return (Mode::ClaimModal(cs), Some(UserEvent::Redraw));
    }
    if key == KeyCode::Char(' ') {
        if cs.game_idx < n {
            let g = &games[picks[cs.game_idx]];
            proof {
                assert(games@[picks@[cs.game_idx as int] as int] == list[cs.game_idx as int]);
            }
            if cs.focus != ClaimFocus::Modifiers && g.modifiers.len() > 0 {
                cs.focus = ClaimFocus::Modifiers;
            }
            if cs.mod_idx < g.modifiers.len() {
                let (roll, modifier, _) = g.modifiers[cs.mod_idx];
                toggle(&mut cs.selected, (roll, modifier));
            }
        }
        return (Mode::ClaimModal(cs), Some(UserEvent::Redraw));
    }
    (Mode::ClaimModal(cs), None)
}
/// The claim dialog as it opens: on the first game to claim, with all its modifiers
/// selected.
pub open spec fn claim_opened(games: Seq<PreviousGameSummary>) -> ClaimModel {
    let list = claim_list(games);
    ClaimModel {
        game_idx: 0,
        mod_idx: 0,
        selected: if list.len() > 0 && list[0].modifiers@.len() > 0 {
            all_offered(list[0].modifiers@)
        } else {
            Seq::empty()
        },
        focus: ClaimFocus::Games,
    }
}

/// Whether a key moves a dialog's cursor down.
pub open spec fn moves_down(key: KeyCode) -> bool {
    key == KeyCode::Down || key == KeyCode::Char('j')
}

/// No cursor of the open dialog sits at `usize::MAX`.
pub open spec fn mode_wf(mode: Mode) -> bool {
    match mode {
        Mode::ShopModal { idx } => idx < usize::MAX,
        Mode::StrapBet { idx, .. } => idx < usize::MAX,
        Mode::StrapInventory { idx } => idx < usize::MAX,
        _ => true,
    }
}

/// What a key does to the dialog `mode`, over the finished games, the shop's items and the
/// straps held: `after` is the dialog afterwards and `r` what the key asks the client.
pub open spec fn key_handled(
    mode: Mode,
    games: Seq<PreviousGameSummary>,
    shop: Seq<(Roll, Roll, Modifier, bool, bool, u64)>,
    owned: Seq<(Strap, u64)>,
    key: KeyCode,
    after: Mode,
    r: Option<UserEvent>,
) -> bool {
    let up = key == KeyCode::Up || key == KeyCode::Char('k');
    let down = key == KeyCode::Down || key == KeyCode::Char('j');
    match mode {
        Mode::BetModal { amount } => if key == KeyCode::Esc {
            after is Normal && r matches Some(UserEvent::Redraw)
        } else if key == KeyCode::Enter {
            (r matches Some(UserEvent::PlaceBetAmount(a)) && a == amount) && after is Normal
        } else {
            match edited(amount, key) {
                Some(v) => after matches Mode::BetModal { amount: a } && a == v && r matches Some(UserEvent::Redraw),
                None => after matches Mode::BetModal { amount: a } && a == amount && r is None,
            }
        },
        Mode::VrfModal { value } => if key == KeyCode::Esc {
            after is Normal && r matches Some(UserEvent::Redraw)
        } else if key == KeyCode::Enter {
            (r matches Some(UserEvent::SetVrf(v)) && v == value) && after is Normal
        } else {
            match edited(value, key) {
                Some(v) => after matches Mode::VrfModal { value: a } && a == v && r matches Some(UserEvent::Redraw),
                None => after matches Mode::VrfModal { value: a } && a == value && r is None,
            }
        },
        Mode::TableBetsModal => if key == KeyCode::Esc || key == KeyCode::Char('q') || key == KeyCode::Char('Q') {
            after is Normal && r matches Some(UserEvent::Redraw)
        } else {
            after is TableBetsModal && r is None
        },
        Mode::ClaimModal(cs) => claim_key_handled(cs@, games, key, after, r),
        Mode::ShopModal { idx } => if key == KeyCode::Esc {
            after is Normal && r matches Some(UserEvent::Redraw)
        } else if up {
            after matches Mode::ShopModal { idx: i } && i == cursor_up(idx) && r matches Some(UserEvent::Redraw)
        } else if down {
            after matches Mode::ShopModal { idx: i } && i == cursor_down(idx, shop.len()) && r matches Some(
                UserEvent::Redraw,
            )
        } else if key == KeyCode::Enter {
            if idx < shop.len() && shop[idx as int].3 && !shop[idx as int].4 {
                &&& after is Normal
                &&& r matches Some(UserEvent::ConfirmShopPurchase { roll, modifier })
                &&& roll == shop[idx as int].1
                &&& modifier == shop[idx as int].2
            } else {
                after matches Mode::ShopModal { idx: i } && i == idx && r matches Some(UserEvent::Redraw)
            }
        } else {
            after matches Mode::ShopModal { idx: i } && i == idx && r is None
        },
        Mode::QuitModal => if key == KeyCode::Char('y') || key == KeyCode::Char('Y') {
            after is QuitModal && r matches Some(UserEvent::Quit)
        } else if key == KeyCode::Char('n') || key == KeyCode::Char('N') || key == KeyCode::Esc {
            after is Normal && r matches Some(UserEvent::Redraw)
        } else {
            after is QuitModal && r is None
        },
        Mode::StrapBet { idx, amount } => if key == KeyCode::Esc {
            after is Normal && r matches Some(UserEvent::Redraw)
        } else if up || down {
            &&& after matches Mode::StrapBet { idx: i, amount: a }
            &&& i == if up {
                cursor_up(idx)
            } else {
                cursor_down(idx, owned.len())
            }
            &&& a == amount
            &&& r matches Some(UserEvent::Redraw)
        } else if key == KeyCode::Char('+') || key == KeyCode::Right {
            after matches Mode::StrapBet { idx: i, amount: a } && i == idx && a == sat_add(amount, 1) && r matches Some(
                UserEvent::Redraw,
            )
        } else if key == KeyCode::Char('-') || key == KeyCode::Left {
            &&& after matches Mode::StrapBet { idx: i, amount: a }
            &&& i == idx
            &&& a == if sat_sub(amount, 1) < 1 {
                1
            } else {
                sat_sub(amount, 1)
            }
            &&& r matches Some(UserEvent::Redraw)
        } else if key == KeyCode::Enter {
            if idx < owned.len() {
                &&& after is Normal
                &&& r matches Some(UserEvent::ConfirmStrapBet { strap, amount: a })
                &&& strap == owned[idx as int].0
                &&& a == if amount < owned[idx as int].1 {
                    amount
                } else {
                    owned[idx as int].1
                }
            } else {
                after matches Mode::StrapBet { idx: i, amount: a } && i == idx && a == amount && r matches Some(
                    UserEvent::Redraw,
                )
            }
        } else {
            after matches Mode::StrapBet { idx: i, amount: a } && i == idx && a == amount && r is None
        },
        Mode::StrapInventory { idx } => if key == KeyCode::Esc {
            after is Normal && r matches Some(UserEvent::Redraw)
        } else if up {
            after matches Mode::StrapInventory { idx: i } && i == cursor_up(idx) && r matches Some(UserEvent::Redraw)
        } else if down {
            after matches Mode::StrapInventory { idx: i } && i == cursor_down(idx, STRAP_KIND_COUNT as nat)
                && r matches Some(UserEvent::Redraw)
        } else if key == KeyCode::Enter {
            after matches Mode::StrapBet { idx: i, amount: a } && i == idx && a == 1 && r matches Some(
                UserEvent::OpenStrapBet,
            )
        } else {
            after matches Mode::StrapInventory { idx: i } && i == idx && r is None
        },
        Mode::Normal => if key == KeyCode::Char('q') || key == KeyCode::Esc {
            after is QuitModal && r matches Some(UserEvent::Redraw)
        } else if key == KeyCode::Right || key == KeyCode::Char('l') {
            after is Normal && r matches Some(UserEvent::NextRoll)
        } else if key == KeyCode::Left || key == KeyCode::Char('h') {
            after is Normal && r matches Some(UserEvent::PrevRoll)
        } else if key == KeyCode::Char('b') {
            after matches Mode::BetModal { amount } && amount == 0 && r matches Some(UserEvent::OpenBetModal)
        } else if key == KeyCode::Char('B') {
            after is TableBetsModal && r matches Some(UserEvent::Redraw)
        } else if key == KeyCode::Char('t') {
            after matches Mode::StrapBet { idx, amount } && idx == 0 && amount == 1 && r matches Some(
                UserEvent::OpenStrapBet,
            )
        } else if key == KeyCode::Char('m') {
            after is Normal && r matches Some(UserEvent::Purchase)
        } else if key == KeyCode::Char('r') {
            after is Normal && r matches Some(UserEvent::Roll)
        } else if key == KeyCode::Char(']') {
            after is Normal && r matches Some(UserEvent::VRFInc)
        } else if key == KeyCode::Char('[') {
            after is Normal && r matches Some(UserEvent::VRFDec)
        } else if key == KeyCode::Char('/') {
            after matches Mode::VrfModal { value } && value == 0 && r matches Some(UserEvent::OpenVrfModal)
        } else if key == KeyCode::Char('s') {
            after matches Mode::ShopModal { idx } && idx == 0 && r matches Some(UserEvent::OpenShop)
        } else if key == KeyCode::Char('i') {
            after matches Mode::StrapInventory { idx } && idx == 0 && r matches Some(UserEvent::OpenStrapInventory)
        } else if key == KeyCode::Char('c') {
            after matches Mode::ClaimModal(cs) && cs@ == claim_opened(games) && r matches Some(UserEvent::OpenClaimModal)
        } else {
            after is Normal && r is None
        },
    }
}

impl UiState {
    /// Handles one key press: moves the open dialog and says what the client should do.
    pub fn interpret_key(&mut self, key: KeyCode) -> (r: Option<UserEvent>)
        requires
            moves_down(key) ==> mode_wf(old(self).mode),
        ensures
            key_handled(
                old(self).mode,
                old(self).prev_games@,
                old(self).shop_items@,
                old(self).owned_straps@,
                key,
                final(self).mode,
                r,
            ),
            mode_wf(old(self).mode) ==> mode_wf(final(self).mode),
            final(self).prev_games@ == old(self).prev_games@,
            final(self).shop_items@ == old(self).shop_items@,
            final(self).owned_straps@ == old(self).owned_straps@,
            final(self).current_vrf == old(self).current_vrf,
            final(self).last_game_id == old(self).last_game_id,
    {
        let mut mode = Mode::Normal;
        core::mem::swap(&mut mode, &mut self.mode);
        let up = key == KeyCode::Up || key == KeyCode::Char('k');
        let down = key == KeyCode::Down || key == KeyCode::Char('j');
        match mode {
            Mode::BetModal { amount } => {
                if key == KeyCode::Esc {
                    return Some(UserEvent::Redraw);
                }
                if key == KeyCode::Enter {
                    return Some(UserEvent::PlaceBetAmount(amount));
                }
                match edit_amount(amount, key) {
                    Some(v) => {
                        self.mode = Mode::BetModal { amount: v };
                        Some(UserEvent::Redraw)
                    },
                    None => {
                        self.mode = Mode::BetModal { amount };
                        None
                    },
                }
            },
            Mode::VrfModal { value } => {
                if key == KeyCode::Esc {
                    return Some(UserEvent::Redraw);
                }
                if key == KeyCode::Enter {
                    return Some(UserEvent::SetVrf(value));
                }
                match edit_amount(value, key) {
                    Some(v) => {
                        self.mode = Mode::VrfModal { value: v };
                        Some(UserEvent::Redraw)
                    },
                    None => {
                        self.mode = Mode::VrfModal { value };
                        None
                    },
                }
            },
            Mode::TableBetsModal => {
                if key == KeyCode::Esc || key == KeyCode::Char('q') || key == KeyCode::Char('Q') {
                    Some(UserEvent::Redraw)
                } else {
                    self.mode = Mode::TableBetsModal;
                    None
                }
            },
            Mode::ClaimModal(cs) => {
                let (next, r) = claim_key(cs, &self.prev_games, key);
                self.mode = next;
                r
            },
            Mode::ShopModal { idx } => {
                if key == KeyCode::Esc {
                    return Some(UserEvent::Redraw);
                }
                if up {
                    let i = if idx > 0 {
                        idx - 1
                    } else {
                        idx
                    };
                    self.mode = Mode::ShopModal { idx: i };
                    return Some(UserEvent::Redraw);
                }
                if down {
                    self.mode = Mode::ShopModal { idx: move_down(idx, self.shop_items.len()) };
                    return Some(UserEvent::Redraw);
                }
                if key == KeyCode::Enter {
                    if idx < self.shop_items.len() {
                        let (_from, roll, modifier, triggered, purchased, _price) = self.shop_items[idx];
                        if triggered && !purchased {
                            return Some(UserEvent::ConfirmShopPurchase { roll, modifier });
                        }
                    }
                    self.mode = Mode::ShopModal { idx };
                    return Some(UserEvent::Redraw);
                }
                self.mode = Mode::ShopModal { idx };
                None
            },
            Mode::QuitModal => {
                if key == KeyCode::Char('y') || key == KeyCode::Char('Y') {
                    self.mode = Mode::QuitModal;
                    Some(UserEvent::Quit)
                } else if key == KeyCode::Char('n') || key == KeyCode::Char('N') || key == KeyCode::Esc {
                    Some(UserEvent::Redraw)
                } else {
                    self.mode = Mode::QuitModal;
                    None
                }
            },
            Mode::StrapBet { idx, amount } => {
                if key == KeyCode::Esc {
                    return Some(UserEvent::Redraw);
                }
                if up {
                    let i = if idx > 0 {
                        idx - 1
                    } else {
                        idx
                    };
                    self.mode = Mode::StrapBet { idx: i, amount };
                    return Some(UserEvent::Redraw);
                }
                if down {
                    self.mode = Mode::StrapBet { idx: move_down(idx, self.owned_straps.len()), amount };
                    return Some(UserEvent::Redraw);
                }
                if key == KeyCode::Char('+') || key == KeyCode::Right {
                    self.mode = Mode::StrapBet { idx, amount: amount.saturating_add(1) };
                    return Some(UserEvent::Redraw);
                }
                if key == KeyCode::Char('-') || key == KeyCode::Left {
                    let lowered = amount.saturating_sub(1);
                    let a = if lowered < 1 {
                        1
                    } else {
                        lowered
                    };
                    self.mode = Mode::StrapBet { idx, amount: a };
                    return Some(UserEvent::Redraw);
                }
                if key == KeyCode::Enter {
                    if idx < self.owned_straps.len() {
                        let (strap, balance) = self.owned_straps[idx];
                        let a = if amount < balance {
                            amount
                        } else {
                            balance
                        };
                        return Some(UserEvent::ConfirmStrapBet { strap, amount: a });
                    }
                    self.mode = Mode::StrapBet { idx, amount };
                    return Some(UserEvent::Redraw);
                }
                self.mode = Mode::StrapBet { idx, amount };
                None
            },
            Mode::StrapInventory { idx } => {
                if key == KeyCode::Esc {
                    return Some(UserEvent::Redraw);
                }
                if up {
                    let i = if idx > 0 {
                        idx - 1
                    } else {
                        idx
                    };
                    self.mode = Mode::StrapInventory { idx: i };
                    return Some(UserEvent::Redraw);
                }
                if down {
                    self.mode = Mode::StrapInventory { idx: move_down(idx, STRAP_KIND_COUNT) };
                    return Some(UserEvent::Redraw);
                }
                if key == KeyCode::Enter {
                    self.mode = Mode::StrapBet { idx, amount: 1 };
                    return Some(UserEvent::OpenStrapBet);
                }
                self.mode = Mode::StrapInventory { idx };
                None
            },
            Mode::Normal => {
                if key == KeyCode::Char('q') || key == KeyCode::Esc {
                    self.mode = Mode::QuitModal;
                    Some(UserEvent::Redraw)
                } else if key == KeyCode::Right || key == KeyCode::Char('l') {
                    Some(UserEvent::NextRoll)
                } else if key == KeyCode::Left || key == KeyCode::Char('h') {
                    Some(UserEvent::PrevRoll)
                } else if key == KeyCode::Char('b') {
                    self.mode = Mode::BetModal { amount: 0 };
                    Some(UserEvent::OpenBetModal)
                } else if key == KeyCode::Char('B') {
                    self.mode = Mode::TableBetsModal;
                    Some(UserEvent::Redraw)
                } else if key == KeyCode::Char('t') {
                    self.mode = Mode::StrapBet { idx: 0, amount: 1 };
                    Some(UserEvent::OpenStrapBet)
                } else if key == KeyCode::Char('m') {
                    Some(UserEvent::Purchase)
                } else if key == KeyCode::Char('r') {
                    Some(UserEvent::Roll)
                } else if key == KeyCode::Char(']') {
                    Some(UserEvent::VRFInc)
                } else if key == KeyCode::Char('[') {
                    Some(UserEvent::VRFDec)
                } else if key == KeyCode::Char('/') {
                    self.mode = Mode::VrfModal { value: 0 };
                    Some(UserEvent::OpenVrfModal)
                } else if key == KeyCode::Char('s') {
                    self.mode = Mode::ShopModal { idx: 0 };
                    Some(UserEvent::OpenShop)
                } else if key == KeyCode::Char('i') {
                    self.mode = Mode::StrapInventory { idx: 0 };
                    Some(UserEvent::OpenStrapInventory)
                } else if key == KeyCode::Char('c') {
                    self.mode = Mode::ClaimModal(open_claim(&self.prev_games));
                    Some(UserEvent::OpenClaimModal)
                } else {
                    None
                }
            },
        }
    }
}

/// The claim dialog as it opens over the finished games.
fn open_claim(games: &Vec<PreviousGameSummary>) -> (cs: ClaimState)
    ensures
        cs@ == claim_opened(games@),
{
    let picks = claimable_games(games);
    let ghost list = claim_list(games@);
    proof {
        assert(picks@.map_values(|k: usize| games@[k as int]) == list);
    }
    let mut selected: Vec<(Roll, Modifier)> = Vec::new();
    if picks.len() > 0 {
        let offered = &games[picks[0]].modifiers;
        proof {
            assert(picks@.map_values(|k: usize| games@[k as int])[0] == games@[picks@[0] as int]);
        }
        if offered.len() > 0 {
            let mut k: usize = 0;
            while k < offered.len()
                invariant
                    k <= offered@.len(),
                    selected@ == all_offered(offered@.take(k as int)),
                decreases offered@.len() - k,
            {
                selected.push((offered[k].0, offered[k].1));
                proof {
                    assert(all_offered(offered@.take(k + 1)) =~= all_offered(offered@.take(k as int)).push(
                        (offered@[k as int].0, offered@[k as int].1),
                    ));
                }
                k = k + 1;
            }
            proof {
                assert(offered@.take(offered@.len() as int) =~= offered@);
            }
        }
    }
    ClaimState { game_idx: 0, mod_idx: 0, selected, focus: ClaimFocus::Games }
}

impl UiState {
    /// Takes in what a fresh board shows before it is drawn: the finished games, the VRF
    /// number, the shop's items and the straps held; when the game changed, the shop's
    /// cursor goes back to the top.
    pub fn absorb_snapshot(
        &mut self,
        previous_games: Vec<PreviousGameSummary>,
        vrf_number: u64,
        current_game_id: u32,
        shop_items: Vec<(Roll, Roll, Modifier, bool, bool, u64)>,
        owned_straps: Vec<(Strap, u64)>,
    )
        requires
            mode_wf(old(self).mode),
        ensures
            mode_wf(final(self).mode),
            final(self).prev_games@ == previous_games@,
            final(self).current_vrf == vrf_number,
            final(self).shop_items@ == shop_items@,
            final(self).owned_straps@ == owned_straps@,
            final(self).last_game_id == Some(current_game_id),
            old(self).last_game_id != Some(current_game_id) && old(self).mode is ShopModal ==> (final(self).mode matches Mode::ShopModal { idx } && idx == 0),
            !(old(self).last_game_id != Some(current_game_id) && old(self).mode is ShopModal) ==> final(self).mode
                == old(self).mode,
    {
        self.prev_games = previous_games;
        self.current_vrf = vrf_number;
        let game_changed = self.last_game_id != Some(current_game_id);
        self.shop_items = shop_items;
        self.owned_straps = owned_straps;
        if game_changed {
            if let Mode::ShopModal { .. } = self.mode {
                self.mode = Mode::ShopModal { idx: 0 };
            }
            self.last_game_id = Some(current_game_id);
        }
    }
}

impl Default for UiState {
    fn default() -> (s: Self)
        ensures
            s.mode is Normal,
            s.prev_games@.len() == 0,
            s.current_vrf == 0,
            s.shop_items@.len() == 0,
            s.last_game_id is None,
            s.owned_straps@.len() == 0,
    {
        UiState {
            mode: Mode::Normal,
            prev_games: Vec::new(),
            current_vrf: 0,
            shop_items: Vec::new(),
            last_game_id: None,
            owned_straps: Vec::new(),
        }
    }
}

/// Esc closes whatever dialog is open and asks for a redraw.
pub proof fn law_escape_closes_dialogs(
    mode: Mode,
    games: Seq<PreviousGameSummary>,
    shop: Seq<(Roll, Roll, Modifier, bool, bool, u64)>,
    owned: Seq<(Strap, u64)>,
    after: Mode,
    r: Option<UserEvent>,
)
    requires
        !(mode is Normal),
        key_handled(mode, games, shop, owned, KeyCode::Esc, after, r),
    ensures
        after is Normal,
        r matches Some(UserEvent::Redraw),
{
}


/// What kind of key event the terminal reports.
#[derive(Clone, Copy, Debug, PartialEq, Eq, Structural)]
pub enum KeyEventKind {
    Press,
    Repeat,
    Release,
}

/// A key event of the terminal: the key and whether it was pressed, repeated or released.
#[derive(Clone, Copy, Debug, PartialEq, Eq, Structural)]
pub struct KeyEvent {
    pub code: KeyCode,
    pub kind: KeyEventKind,
}

/// An event of the terminal: a key, or anything else (mouse, resize, focus, paste).
#[derive(Clone, Copy, Debug, PartialEq, Eq, Structural)]
pub enum TerminalEvent {
    Key(KeyEvent),
    Other,
}

/// The key pressed, if the event is a key press.
pub open spec fn pressed_key(event: TerminalEvent) -> Option<KeyCode> {
    match event {
        TerminalEvent::Key(k) => if k.kind == KeyEventKind::Press {
            Some(k.code)
        } else {
            None
        },
        TerminalEvent::Other => None,
    }
}

/// Handles one event of the terminal: a key press moves the open dialog as
/// `UiState::interpret_key` does; any other event, a key's release or repeat among them, is
/// ignored and leaves the state as it was.
pub fn interpret_event(state: &mut UiState, event: TerminalEvent) -> (r: Option<UserEvent>)
    requires
        pressed_key(event) matches Some(key) && moves_down(key) ==> mode_wf(old(state).mode),
    ensures
        match pressed_key(event) {
            None => r is None && *final(state) == *old(state),
            Some(key) => {
                &&& key_handled(
                    old(state).mode,
                    old(state).prev_games@,
                    old(state).shop_items@,
                    old(state).owned_straps@,
                    key,
                    final(state).mode,
                    r,
                )
                &&& (mode_wf(old(state).mode) ==> mode_wf(final(state).mode))
                &&& final(state).prev_games@ == old(state).prev_games@
                &&& final(state).shop_items@ == old(state).shop_items@
                &&& final(state).owned_straps@ == old(state).owned_straps@
                &&& final(state).current_vrf == old(state).current_vrf
                &&& final(state).last_game_id == old(state).last_game_id
            },
        },
{
    match event {
        TerminalEvent::Key(k) => match k.kind {
            KeyEventKind::Press => state.interpret_key(k.code),
            _ => None,
        },
        TerminalEvent::Other => None,
    }
}


/// In the bet and the VRF dialogs, `-`, `j` and Down lower the amount by one, not below
/// zero; `+`, `k` and Up raise it by one, not above `u64::MAX`; Backspace drops its last
/// digit and a digit is appended to it (saturating); each keeps the dialog open and asks
/// for a redraw.
pub proof fn law_amount_keys(
    v: u64,
    games: Seq<PreviousGameSummary>,
    shop: Seq<(Roll, Roll, Modifier, bool, bool, u64)>,
    owned: Seq<(Strap, u64)>,
    key: KeyCode,
    after: Mode,
    r: Option<UserEvent>,
)
    ensures
        (key == KeyCode::Char('-') || key == KeyCode::Char('j') || key == KeyCode::Down) ==> {
            let lower: u64 = if v == 0 {
                0
            } else {
                (v - 1) as u64
            };
            &&& key_handled(Mode::BetModal { amount: v }, games, shop, owned, key, after, r) ==> after
                == Mode::BetModal { amount: lower } && r == Some(UserEvent::Redraw)
            &&& key_handled(Mode::VrfModal { value: v }, games, shop, owned, key, after, r) ==> after
                == Mode::VrfModal { value: lower } && r == Some(UserEvent::Redraw)
        },
        (key == KeyCode::Char('+') || key == KeyCode::Char('k') || key == KeyCode::Up) ==> {
            let higher: u64 = if v == u64::MAX {
                v
            } else {
                (v + 1) as u64
            };
            &&& key_handled(Mode::BetModal { amount: v }, games, shop, owned, key, after, r) ==> after
                == Mode::BetModal { amount: higher } && r == Some(UserEvent::Redraw)
            &&& key_handled(Mode::VrfModal { value: v }, games, shop, owned, key, after, r) ==> after
                == Mode::VrfModal { value: higher } && r == Some(UserEvent::Redraw)
        },
        key == KeyCode::Backspace ==> {
            &&& key_handled(Mode::BetModal { amount: v }, games, shop, owned, key, after, r) ==> after
                == Mode::BetModal { amount: v / 10 }
            &&& key_handled(Mode::VrfModal { value: v }, games, shop, owned, key, after, r) ==> after
                == Mode::VrfModal { value: v / 10 }
        },
        match key {
            KeyCode::Char(c) => '0' <= c <= '9' ==> {
                let appended: int = v * 10 + (c as int - '0' as int);
                let next: u64 = if appended > u64::MAX {
                    u64::MAX
                } else {
                    appended as u64
                };
                &&& key_handled(Mode::BetModal { amount: v }, games, shop, owned, key, after, r) ==> after
                    == Mode::BetModal { amount: next }
                &&& key_handled(Mode::VrfModal { value: v }, games, shop, owned, key, after, r) ==> after
                    == Mode::VrfModal { value: next }
            },
            _ => true,
        },
{
}


/// A cursor moves up by one, staying at the top; and down by one, staying on the last
/// entry of a list of `len` entries (on an empty list it sits at 0); a list holds at most
/// `usize::MAX` entries.
pub proof fn law_cursor_steps(idx: usize, len: nat)
    ensures
        idx > 0 ==> cursor_up(idx) == idx - 1,
        idx == 0 ==> cursor_up(idx) == 0,
        len <= usize::MAX && idx + 1 < len ==> cursor_down(idx, len) == idx + 1,
        0 < len <= usize::MAX && idx + 1 >= len ==> cursor_down(idx, len) == len - 1,
        len == 0 ==> cursor_down(idx, len) == 0,
{
}

/// The keys of the board: `q` and Esc ask to quit, Right/`l` and Left/`h` move to the next
/// and the previous roll, `b` opens the bet dialog at 0, `B` the table of bets, `t` the
/// strap bet at the first strap with one, `m` buys, `r` rolls, `]` and `[` raise and lower
/// the VRF number, `/` opens the VRF dialog at 0, `s` the shop and `i` the inventory at
/// their first entry; any other key but `c` does nothing.
pub proof fn law_board_keys(
    games: Seq<PreviousGameSummary>,
    shop: Seq<(Roll, Roll, Modifier, bool, bool, u64)>,
    owned: Seq<(Strap, u64)>,
    key: KeyCode,
    after: Mode,
    r: Option<UserEvent>,
)
    requires
        key_handled(Mode::Normal, games, shop, owned, key, after, r),
    ensures
        (key == KeyCode::Char('q') || key == KeyCode::Esc) ==> after == Mode::QuitModal && r == Some(UserEvent::Redraw),
        (key == KeyCode::Right || key == KeyCode::Char('l')) ==> after == Mode::Normal && r == Some(UserEvent::NextRoll),
        (key == KeyCode::Left || key == KeyCode::Char('h')) ==> after == Mode::Normal && r == Some(UserEvent::PrevRoll),
        key == KeyCode::Char('b') ==> after == (Mode::BetModal { amount: 0 }) && r == Some(UserEvent::OpenBetModal),
        key == KeyCode::Char('B') ==> after == Mode::TableBetsModal && r == Some(UserEvent::Redraw),
        key == KeyCode::Char('t') ==> after == (Mode::StrapBet { idx: 0, amount: 1 }) && r == Some(UserEvent::OpenStrapBet),
        key == KeyCode::Char('m') ==> after == Mode::Normal && r == Some(UserEvent::Purchase),
        key == KeyCode::Char('r') ==> after == Mode::Normal && r == Some(UserEvent::Roll),
        key == KeyCode::Char(']') ==> after == Mode::Normal && r == Some(UserEvent::VRFInc),
        key == KeyCode::Char('[') ==> after == Mode::Normal && r == Some(UserEvent::VRFDec),
        key == KeyCode::Char('/') ==> after == (Mode::VrfModal { value: 0 }) && r == Some(UserEvent::OpenVrfModal),
        key == KeyCode::Char('s') ==> after == (Mode::ShopModal { idx: 0 }) && r == Some(UserEvent::OpenShop),
        key == KeyCode::Char('i') ==> after == (Mode::StrapInventory { idx: 0 }) && r == Some(
            UserEvent::OpenStrapInventory,
        ),
        key == KeyCode::Char('c') ==> r == Some(UserEvent::OpenClaimModal),
        (key == KeyCode::Char('x') || key == KeyCode::Enter || key == KeyCode::Char('y')) ==> after == Mode::Normal
            && (r is None),
{
}

/// In the quit dialog `y`/`Y` quits, and `n`/`N`/Esc goes back to the board.
pub proof fn law_quit_keys(
    games: Seq<PreviousGameSummary>,
    shop: Seq<(Roll, Roll, Modifier, bool, bool, u64)>,
    owned: Seq<(Strap, u64)>,
    key: KeyCode,
    after: Mode,
    r: Option<UserEvent>,
)
    requires
        key_handled(Mode::QuitModal, games, shop, owned, key, after, r),
    ensures
        (key == KeyCode::Char('y') || key == KeyCode::Char('Y')) ==> r == Some(UserEvent::Quit),
        (key == KeyCode::Char('n') || key == KeyCode::Char('N') || key == KeyCode::Esc) ==> after == Mode::Normal
            && r == Some(UserEvent::Redraw),
{
}

/// In the strap-bet dialog `+`/Right raise the amount by one (saturating) and `-`/Left lower
/// it by one but not below 1, keeping the strap; Enter on a held strap bets it, at most as
/// many as are held.
pub proof fn law_strap_bet_keys(
    idx: usize,
    amount: u64,
    games: Seq<PreviousGameSummary>,
    shop: Seq<(Roll, Roll, Modifier, bool, bool, u64)>,
    owned: Seq<(Strap, u64)>,
    key: KeyCode,
    after: Mode,
    r: Option<UserEvent>,
)
    requires
        key_handled((Mode::StrapBet { idx, amount }), games, shop, owned, key, after, r),
    ensures
        (key == KeyCode::Char('+') || key == KeyCode::Right) ==> after == (Mode::StrapBet {
            idx,
            amount: if amount == u64::MAX {
                amount
            } else {
                (amount + 1) as u64
            },
        }),
        (key == KeyCode::Char('-') || key == KeyCode::Left) ==> after == (Mode::StrapBet {
            idx,
            amount: if amount <= 2 {
                1
            } else {
                (amount - 1) as u64
            },
        }),
        key == KeyCode::Enter && idx < owned.len() ==> after == Mode::Normal && r == Some(
            (UserEvent::ConfirmStrapBet {
                strap: owned[idx as int].0,
                amount: if amount < owned[idx as int].1 {
                    amount
                } else {
                    owned[idx as int].1
                },
            }),
        ),
{
}

} // verus!
