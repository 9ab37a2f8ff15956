//! The text of the client's dialogs and panels, line by line, with how each line is
//! highlighted. Drawing the lines in a frame stays with the caller.
use vstd::prelude::*;
use vstd::string::{StrSliceExecFns, StringExecFns};
use crate::client_state::{
    Bet, PreviousGameSummary, RewardInfo, RollCell, claimable_games, has_claimable_bets, is_claimable, rows_view,
};
use crate::client_config::{VrfMode, hex_encode};
use crate::contract_math::{roll_for_vrf, vrf_to_roll};
use crate::client_state::{modifier_order_value, modifier_rank};
use crate::deployments::{lemma_lower_hex_shape, lower_hex};
use crate::labels::{
    active_emojis, active_mods_emojis, asset_label, bet_lines, compact, decimal, decimal_string, format_my_bet_lines,
    format_owned_strap_summary, format_units, joined, kind_emoji, kind_text, lemma_joined_push, mod_emoji,
    modifier_emoji, modifier_name, modifier_text, pad_right, push_decimal, push_padded, render_reward_compact,
    roll_name, roll_text, strap_asset_label, strap_emoji, strap_kind_name, summary_part, super_compact_strap,
    units_text,
};
use crate::strap_inventory::{SUMMARY_LENGTH, StrapKindRow, key_sorted, tallied};
use crate::types::{Modifier, Roll, Strap, StrapKind};
use crate::ui_state::{ClaimFocus, ClaimModel, ClaimState, claim_list};

verus! {

/// How a dialog line is drawn.
#[derive(Clone, Copy, Debug, PartialEq, Eq, Structural)]
pub enum LineStyle {
    /// As plain text.
    Plain,
    /// Highlighted, as the line under the cursor.
    Highlight,
    /// As an item already bought.
    Done,
    /// Dimmed, as an item not yet available.
    Dimmed,
}

/// The cursor mark of a list line: `>` on the line under the cursor, else a space.
pub open spec fn cursor_mark(at: bool) -> Seq<char> {
    if at {
        ">"@
    } else {
        " "@
    }
}

fn push_cursor(m: &mut String, at: bool)
    ensures
        final(m)@ == old(m)@ + cursor_mark(at),
{
    if at {
        m.append(">");
    } else {
        m.append(" ");
    }
}

/// The help line of the editing dialogs.
pub open spec fn edit_help() -> Seq<char> {
    "\nEnter=confirm Esc=cancel +/- or digits to edit"@
}

/// The bet dialog's text.
pub open spec fn bet_modal_text_spec(amount: u64) -> Seq<char> {
    "Amount: "@ + decimal(amount as nat) + edit_help()
}

pub fn bet_modal_text(amount: u64) -> (r: String)
    ensures
        r@ == bet_modal_text_spec(amount),
{
    let mut m = "Amount: ".to_owned();
    push_decimal(&mut m, amount as u128);
    m.append("\nEnter=confirm Esc=cancel +/- or digits to edit");
    m
}

/// The VRF dialog's text.
pub open spec fn vrf_modal_text_spec(value: u64) -> Seq<char> {
    "VRF: "@ + decimal(value as nat) + edit_help()
}

pub fn vrf_modal_text(value: u64) -> (r: String)
    ensures
        r@ == vrf_modal_text_spec(value),
{
    let mut m = "VRF: ".to_owned();
    push_decimal(&mut m, value as u128);
    m.append("\nEnter=confirm Esc=cancel +/- or digits to edit");
    m
}

/// The quit dialog's text.
pub fn quit_modal_text() -> (r: String)
    ensures
        r@ == "Quit the game? (Y/N)"@,
{
    "Quit the game? (Y/N)".to_owned()
}

/// A line of the modifier shop: the cursor, the roll the modifier applies to and its
/// emoji; then whether it was bought, or its price, or the roll that unlocks it.
pub open spec fn shop_line(item: (Roll, Roll, Modifier, bool, bool, u64), at: bool) -> (Seq<char>, LineStyle) {
    (cursor_mark(at) + " "@ + shop_item_text(item), shop_item_style(item))
}

/// A modifier as the shop lists it: the roll it applies to and its emoji; then whether it
/// was bought, or its price, or the roll that unlocks it.
pub open spec fn shop_item_text(item: (Roll, Roll, Modifier, bool, bool, u64)) -> Seq<char> {
    let (from, to, modifier, triggered, purchased, price) = item;
    let head = roll_text(to) + " "@ + mod_emoji(modifier);
    if purchased {
        head + " - purchased ("@ + decimal(price as nat) + " chips)"@
    } else if triggered {
        head + " - "@ + decimal(price as nat) + " chips"@
    } else {
        head + " (Unlock by rolling "@ + roll_text(from) + ") - "@ + decimal(price as nat) + " chips"@
    }
}

/// How a shop item is drawn: bought, available, or still locked.
pub open spec fn shop_item_style(item: (Roll, Roll, Modifier, bool, bool, u64)) -> LineStyle {
    if item.4 {
        LineStyle::Done
    } else if item.3 {
        LineStyle::Plain
    } else {
        LineStyle::Dimmed
    }
}

fn push_shop_item(m: &mut String, item: (Roll, Roll, Modifier, bool, bool, u64)) -> (style: LineStyle)
    ensures
        final(m)@ == old(m)@ + shop_item_text(item),
        style == shop_item_style(item),
{
    let ghost start = m@;
    let (from, to, modifier, triggered, purchased, price) = item;
    m.append(roll_name(&to));
    m.append(" ");
    m.append(modifier_emoji(&modifier));
    let style = if purchased {
        m.append(" - purchased (");
        push_decimal(m, price as u128);
        m.append(" chips)");
        LineStyle::Done
    } else if triggered {
        m.append(" - ");
        push_decimal(m, price as u128);
        m.append(" chips");
        LineStyle::Plain
    } else {
        m.append(" (Unlock by rolling ");
        m.append(roll_name(&from));
        m.append(") - ");
        push_decimal(m, price as u128);
        m.append(" chips");
        LineStyle::Dimmed
    };
    assert(m@ =~= start + shop_item_text(item));
    style
}

/// The shop's lines: one per modifier, then the help line; or a note that none is offered.
pub open spec fn shop_lines_spec(items: Seq<(Roll, Roll, Modifier, bool, bool, u64)>, idx: usize) -> Seq<(Seq<char>, LineStyle)> {
    if items.len() == 0 {
        seq![("No modifiers available"@, LineStyle::Plain)]
    } else {
        Seq::new(items.len(), |i: int| shop_line(items[i], i == idx)).push(
            ("Enter=buy Esc=close ↑/↓ move (unlock first; purchased items are disabled)"@, LineStyle::Plain),
        )
    }
}

/// Lines with their text taken by characters.
pub open spec fn styled_view(lines: Seq<(String, LineStyle)>) -> Seq<(Seq<char>, LineStyle)> {
    lines.map_values(|l: (String, LineStyle)| (l.0@, l.1))
}

/// Texts taken by characters.
pub open spec fn texts_view(lines: Seq<String>) -> Seq<Seq<char>> {
    lines.map_values(|l: String| l@)
}

pub fn shop_lines(items: &Vec<(Roll, Roll, Modifier, bool, bool, u64)>, idx: usize) -> (r: Vec<(String, LineStyle)>)
    ensures
        styled_view(r@) == shop_lines_spec(items@, idx),
{
    let mut lines: Vec<(String, LineStyle)> = Vec::new();
    if items.len() == 0 {
        lines.push(("No modifiers available".to_owned(), LineStyle::Plain));
        proof {
            assert(styled_view(lines@) =~= shop_lines_spec(items@, idx));
        }
        return lines;
    }
    let mut i: usize = 0;
    while i < items.len()
        invariant
            i <= items@.len(),
            styled_view(lines@) =~= Seq::new(i as nat, |k: int| shop_line(items@[k], k == idx)),
        decreases items@.len() - i,
    {
        let mut m = String::new();
        push_cursor(&mut m, i == idx);
        m.append(" ");
        let style = push_shop_item(&mut m, items[i]);
        let ghost before = lines@;
        lines.push((m, style));
        proof {
            assert(styled_view(lines@) =~= styled_view(before).push((m@, style)));
            assert((m@, style) == shop_line(items@[i as int], i == idx));
        }
        i = i + 1;
    }
    let ghost before = lines@;
    let help = "Enter=buy Esc=close ↑/↓ move (unlock first; purchased items are disabled)".to_owned();
    let ghost help_view = help@;
    lines.push((help, LineStyle::Plain));
    proof {
        assert(styled_view(lines@) =~= styled_view(before).push((help_view, LineStyle::Plain)));
        assert(styled_view(lines@) =~= shop_lines_spec(items@, idx));
    }
    lines
}

/// The strap bet dialog's lines: each owned strap with its balance, then the amount; or a
/// note that no strap is owned.
pub open spec fn strap_bet_lines_spec(owned: Seq<(Strap, u64)>, idx: usize, amount: u64) -> Seq<Seq<char>> {
    if owned.len() == 0 {
        seq!["No straps owned"@]
    } else {
        Seq::new(
            owned.len(),
            |i: int| cursor_mark(i == idx) + " "@ + compact(owned[i].0) + " x"@ + decimal(owned[i].1 as nat),
        ).push("Amount: "@ + decimal(amount as nat) + " (Enter=confirm, Esc=cancel, +/- change)"@)
    }
}

pub fn strap_bet_lines(owned: &Vec<(Strap, u64)>, idx: usize, amount: u64) -> (r: Vec<String>)
    ensures
        texts_view(r@) == strap_bet_lines_spec(owned@, idx, amount),
{
    let mut lines: Vec<String> = Vec::new();
    if owned.len() == 0 {
        lines.push("No straps owned".to_owned());
        proof {
            assert(texts_view(lines@) =~= strap_bet_lines_spec(owned@, idx, amount));
        }
        return lines;
    }
    let mut i: usize = 0;
    while i < owned.len()
        invariant
            i <= owned@.len(),
            texts_view(lines@) =~= Seq::new(
                i as nat,
                |k: int| cursor_mark(k == idx) + " "@ + compact(owned@[k].0) + " x"@ + decimal(owned@[k].1 as nat),
            ),
        decreases owned@.len() - i,
    {
        let (strap, balance) = owned[i];
        let mut m = String::new();
        push_cursor(&mut m, i == idx);
        m.append(" ");
        let label = super_compact_strap(&strap);
        m.append(label.as_str());
        m.append(" x");
        push_decimal(&mut m, balance as u128);
        let ghost before = lines@;
        lines.push(m);
        proof {
            assert(texts_view(lines@) =~= texts_view(before).push(m@));
        }
        i = i + 1;
    }
    let mut last = "Amount: ".to_owned();
    push_decimal(&mut last, amount as u128);
    last.append(" (Enter=confirm, Esc=cancel, +/- change)");
    let ghost before = lines@;
    lines.push(last);
    proof {
        assert(texts_view(lines@) =~= texts_view(before).push(last@));
        assert(texts_view(lines@) =~= strap_bet_lines_spec(owned@, idx, amount));
    }
    lines
}


/// The emojis of the modifiers of a game that apply to its `i`-th roll `roll`: those of
/// that roll, activated at or before that roll, in order.
pub open spec fn roll_marks(mods: Seq<(Roll, Modifier, u32)>, roll: Roll, i: int) -> Seq<char>
    decreases mods.len(),
{
    if mods.len() == 0 {
        Seq::empty()
    } else {
        let m = mods.last();
        roll_marks(mods.drop_last(), roll, i) + if m.0 == roll && m.2 as int <= i {
            mod_emoji(m.1)
        } else {
            Seq::empty()
        }
    }
}

/// The line of a game's rolls: each roll's name with the marks of its modifiers, separated
/// by spaces; `None` without rolls.
pub open spec fn rolls_line(rolls: Seq<Roll>, mods: Seq<(Roll, Modifier, u32)>) -> Seq<char> {
    if rolls.len() == 0 {
        "Rolls: None"@
    } else {
        "Rolls: "@ + joined(Seq::new(rolls.len(), |i: int| roll_text(rolls[i]) + roll_marks(mods, rolls[i], i)), " "@)
    }
}

/// The line of one bet of a game: its roll, what it staked and how much, and the roll
/// position at which it was placed.
pub open spec fn bet_line(roll: Roll, bet: (Bet, u64, u32)) -> Seq<char> {
    "  "@ + roll_text(roll) + ": "@ + match bet.0 {
        Bet::Chip => "Chip x"@,
        Bet::Strap(s) => compact(s) + " x"@,
    } + decimal(bet.1 as nat) + " @"@ + decimal(bet.2 as nat)
}

/// The lines of a game's bets, row by row.
pub open spec fn bet_lines_of(rows: Seq<(Roll, Seq<(Bet, u64, u32)>)>) -> Seq<Seq<char>>
    decreases rows.len(),
{
    if rows.len() == 0 {
        Seq::empty()
    } else {
        bet_lines_of(rows.drop_last()) + rows.last().1.map_values(|b: (Bet, u64, u32)| bet_line(rows.last().0, b))
    }
}

/// The line of one modifier of a game in the claim dialog: the cursor, whether it is
/// chosen, its roll and its name.
pub open spec fn claim_modifier_line(m: (Roll, Modifier, u32), at: bool, chosen: Seq<(Roll, Modifier)>) -> Seq<char> {
    cursor_mark(at) + " ["@ + (if chosen.contains((m.0, m.1)) {
        "x"@
    } else {
        " "@
    }) + "] "@ + roll_text(m.0) + " "@ + modifier_text(m.1)
}

/// The label of a game in the claim dialog.
pub open spec fn status_label(g: PreviousGameSummary) -> Seq<char> {
    if is_claimable(g) {
        "[unclaimed]"@
    } else {
        "[nothing-to-claim]"@
    }
}

/// The claim dialog's lines: the games with something to claim, the cursor's game in
/// detail (rolls, bets, modifiers to choose) and the help line; or a note that there is
/// nothing to claim.
pub open spec fn claim_lines_spec(cs: ClaimModel, games: Seq<PreviousGameSummary>) -> Seq<Seq<char>> {
    let list = claim_list(games);
    if list.len() == 0 {
        seq!["No claimable games"@, "Esc=close"@]
    } else {
        let g = list[if cs.game_idx < list.len() {
            cs.game_idx as int
        } else {
            list.len() - 1
        }];
        seq!["Games:"@] + Seq::new(
            list.len(),
            |i: int| cursor_mark(i == cs.game_idx) + " Game "@ + decimal(list[i].game_id as nat) + " "@ + status_label(list[i]),
        ) + seq![""@, "Details for Game "@ + decimal(g.game_id as nat), rolls_line(g.rolls@, g.modifiers@), "Bets:"@]
            + bet_lines_of(rows_view(g.bets_by_roll@)) + seq!["Modifiers (space to toggle):"@] + Seq::new(
            g.modifiers@.len(),
            |i: int| claim_modifier_line(g.modifiers@[i], i == cs.mod_idx, cs.selected),
        ) + seq![
            "Enter=claim Esc=cancel ←/→ focus ↑/↓ move Space toggle "@ + match cs.focus {
                ClaimFocus::Games => "(focus: games)"@,
                ClaimFocus::Modifiers => "(focus: modifiers)"@,
            },
        ]
    }
}

fn push_roll_marks(m: &mut String, mods: &Vec<(Roll, Modifier, u32)>, roll: Roll, i: usize)
    ensures
        final(m)@ == old(m)@ + roll_marks(mods@, roll, i as int),
{
    let ghost start = m@;
    let mut k: usize = 0;
    while k < mods.len()
        invariant
            k <= mods@.len(),
            m@ == start + roll_marks(mods@.take(k as int), roll, i as int),
        decreases mods@.len() - k,
    {
        let (r, modifier, at) = mods[k];
        proof {
            assert(mods@.take(k + 1).drop_last() =~= mods@.take(k as int));
        }
        let ghost before = m@;
        if r == roll && (at as usize) <= i {
            let e = modifier_emoji(&modifier);
            if !e.is_empty() {
                m.append(e);
            }
            proof {
                if e@.len() == 0 {
                    assert(m@ =~= before + e@);
                }
            }
        }
        proof {
            let add = if r == roll && at as int <= i {
                mod_emoji(modifier)
            } else {
                Seq::<char>::empty()
            };
            assert(m@ =~= before + add);
        }
        k = k + 1;
    }
    proof {
        assert(mods@.take(mods@.len() as int) =~= mods@);
    }
}

fn rolls_line_text(rolls: &Vec<Roll>, mods: &Vec<(Roll, Modifier, u32)>) -> (r: String)
    ensures
        r@ == rolls_line(rolls@, mods@),
{
    if rolls.len() == 0 {
        return "Rolls: None".to_owned();
    }
    let mut m = "Rolls: ".to_owned();
    let ghost start = m@;
    let ghost items = Seq::new(rolls@.len(), |i: int| roll_text(rolls@[i]) + roll_marks(mods@, rolls@[i], i));
    let mut i: usize = 0;
    while i < rolls.len()
        invariant
            i <= rolls@.len(),
            items == Seq::new(rolls@.len(), |i: int| roll_text(rolls@[i]) + roll_marks(mods@, rolls@[i], i)),
            m@ == start + joined(items.take(i as int), " "@),
        decreases rolls@.len() - i,
    {
        proof {
            lemma_joined_push(items.take(i as int), " "@, items[i as int]);
            assert(items.take(i + 1) =~= items.take(i as int).push(items[i as int]));
        }
        let ghost before = m@;
        if i > 0 {
            m.append(" ");
        }
        let roll = rolls[i];
        m.append(roll_name(&roll));
        push_roll_marks(&mut m, mods, roll, i);
        proof {
            if i > 0 {
                assert(m@ =~= before + " "@ + items[i as int]);
            } else {
                assert(m@ =~= before + items[i as int]);
            }
        }
        i = i + 1;
    }
    proof {
        assert(items.take(rolls@.len() as int) =~= items);
    }
    m
}

fn bet_line_text(roll: Roll, bet: (Bet, u64, u32)) -> (r: String)
    ensures
        r@ == bet_line(roll, bet),
{
    let mut m = "  ".to_owned();
    m.append(roll_name(&roll));
    m.append(": ");
    match bet.0 {
        Bet::Chip => m.append("Chip x"),
        Bet::Strap(s) => {
            let label = super_compact_strap(&s);
            m.append(label.as_str());
            m.append(" x");
        },
    }
    push_decimal(&mut m, bet.1 as u128);
    m.append(" @");
    push_decimal(&mut m, bet.2 as u128);
    m
}

fn push_bet_lines(lines: &mut Vec<String>, rows: &Vec<(Roll, Vec<(Bet, u64, u32)>)>)
    ensures
        texts_view(final(lines)@) == texts_view(old(lines)@) + bet_lines_of(rows_view(rows@)),
{
    let ghost start = texts_view(lines@);
    let mut i: usize = 0;
    while i < rows.len()
        invariant
            i <= rows@.len(),
            texts_view(lines@) == start + bet_lines_of(rows_view(rows@).take(i as int)),
        decreases rows@.len() - i,
    {
        let roll = rows[i].0;
        let bets = &rows[i].1;
        let ghost row_start = texts_view(lines@);
        let ghost row_view = bets@.map_values(|b: (Bet, u64, u32)| bet_line(roll, b));
        let mut k: usize = 0;
        while k < bets.len()
            invariant
                k <= bets@.len(),
                row_view == bets@.map_values(|b: (Bet, u64, u32)| bet_line(roll, b)),
                texts_view(lines@) == row_start + row_view.take(k as int),
            decreases bets@.len() - k,
        {
            let ghost before = lines@;
            let line = bet_line_text(roll, bets[k]);
            lines.push(line);
            proof {
                assert(texts_view(lines@) =~= texts_view(before).push(line@));
                assert(row_view.take(k + 1) =~= row_view.take(k as int).push(row_view[k as int]));
            }
            k = k + 1;
        }
        proof {
            assert(row_view.take(bets@.len() as int) =~= row_view);
            assert(rows_view(rows@).take(i + 1).drop_last() =~= rows_view(rows@).take(i as int));
            assert(rows_view(rows@)[i as int] == (roll, bets@));
        }
        i = i + 1;
    }
    proof {
        assert(rows_view(rows@).take(rows@.len() as int) =~= rows_view(rows@));
    }
}

fn is_chosen(chosen: &Vec<(Roll, Modifier)>, roll: Roll, modifier: Modifier) -> (r: bool)
    ensures
        r == chosen@.contains((roll, modifier)),
{
    let mut i: usize = 0;
    while i < chosen.len()
        invariant
            i <= chosen@.len(),
            forall|k: int| 0 <= k < i ==> chosen@[k] != (roll, modifier),
        decreases chosen@.len() - i,
    {
        let (r, m) = chosen[i];
        if r == roll && m == modifier {
            assert(chosen@[i as int] == (roll, modifier));
            return true;
        }
        i = i + 1;
    }
    false
}

fn push_text(lines: &mut Vec<String>, text: String)
    ensures
        texts_view(final(lines)@) == texts_view(old(lines)@).push(text@),
{
    let ghost before = lines@;
    lines.push(text);
    assert(texts_view(lines@) =~= texts_view(before).push(text@));
}

/// The claim dialog's lines for the dialog state `cs` over the finished `games`.
pub fn claim_lines(cs: &ClaimState, games: &Vec<PreviousGameSummary>) -> (r: Vec<String>)
    ensures
        texts_view(r@) == claim_lines_spec(cs.view(), games@),
{
    let list = claimable_games(games);
    let ghost lv = claim_list(games@);
    proof {
        assert(list@.map_values(|k: usize| games@[k as int]) == lv);
    }
    let mut lines: Vec<String> = Vec::new();
    if list.len() == 0 {
        push_text(&mut lines, "No claimable games".to_owned());
        push_text(&mut lines, "Esc=close".to_owned());
        proof {
            assert(lv.len() == 0);
            assert(texts_view(lines@) =~= claim_lines_spec(cs.view(), games@));
        }
        return lines;
    }
    push_text(&mut lines, "Games:".to_owned());
    let ghost game_line = |i: int|
        cursor_mark(i == cs.game_idx) + " Game "@ + decimal(lv[i].game_id as nat) + " "@ + status_label(lv[i]);
    let mut i: usize = 0;
    while i < list.len()
        invariant
            i <= list@.len(),
            lv == list@.map_values(|k: usize| games@[k as int]),
            forall|k: int| 0 <= k < list@.len() ==> list@[k] < games@.len(),
            game_line == (|i: int|
                cursor_mark(i == cs.game_idx) + " Game "@ + decimal(lv[i].game_id as nat) + " "@ + status_label(lv[i])),
            texts_view(lines@) =~= seq!["Games:"@] + Seq::new(i as nat, game_line),
        decreases list@.len() - i,
    {
        let g = &games[list[i]];
        assert(*g == lv[i as int]);
        let mut m = String::new();
        push_cursor(&mut m, i == cs.game_idx);
        m.append(" Game ");
        push_decimal(&mut m, g.game_id as u128);
        m.append(" ");
        if has_claimable_bets(g) {
            m.append("[unclaimed]");
        } else {
            m.append("[nothing-to-claim]");
        }
        let ghost before = texts_view(lines@);
        push_text(&mut lines, m);
        proof {
            assert(Seq::new((i + 1) as nat, game_line) =~= Seq::new(i as nat, game_line).push(game_line(i as int)));
        }
        i = i + 1;
    }
    let ghost head = texts_view(lines@);
    let idx = if cs.game_idx < list.len() {
        cs.game_idx
    } else {
        list.len() - 1
    };
    let g = &games[list[idx]];
    assert(*g == lv[idx as int]);
    push_text(&mut lines, "".to_owned());
    let mut details = "Details for Game ".to_owned();
    push_decimal(&mut details, g.game_id as u128);
    push_text(&mut lines, details);
    push_text(&mut lines, rolls_line_text(&g.rolls, &g.modifiers));
    push_text(&mut lines, "Bets:".to_owned());
    let ghost before_bets = texts_view(lines@);
    push_bet_lines(&mut lines, &g.bets_by_roll);
    let ghost after_bets = texts_view(lines@);
    push_text(&mut lines, "Modifiers (space to toggle):".to_owned());
    let ghost mods_start = texts_view(lines@);
    let ghost mod_line = |k: int| claim_modifier_line(g.modifiers@[k], k == cs.mod_idx, cs.selected@);
    let mut k: usize = 0;
    while k < g.modifiers.len()
        invariant
            k <= g.modifiers@.len(),
            mod_line == (|k: int| claim_modifier_line(g.modifiers@[k], k == cs.mod_idx, cs.selected@)),
            texts_view(lines@) =~= mods_start + Seq::new(k as nat, mod_line),
        decreases g.modifiers@.len() - k,
    {
        let (r, modifier, _) = g.modifiers[k];
        let mut m = String::new();
        push_cursor(&mut m, k == cs.mod_idx);
        m.append(" [");
        if is_chosen(&cs.selected, r, modifier) {
            m.append("x");
        } else {
            m.append(" ");
        }
        m.append("] ");
        m.append(roll_name(&r));
        m.append(" ");
        m.append(modifier_name(&modifier));
        push_text(&mut lines, m);
        proof {
            assert(Seq::new((k + 1) as nat, mod_line) =~= Seq::new(k as nat, mod_line).push(mod_line(k as int)));
        }
        k = k + 1;
    }
    let mut help = "Enter=claim Esc=cancel ←/→ focus ↑/↓ move Space toggle ".to_owned();
    match cs.focus {
        ClaimFocus::Games => help.append("(focus: games)"),
        ClaimFocus::Modifiers => help.append("(focus: modifiers)"),
    }
    push_text(&mut lines, help);
    proof {
        assert(texts_view(lines@) =~= claim_lines_spec(cs.view(), games@));
    }
    lines
}


/// Where a strap asset stands in the inventory's asset list: by level, then modifier.
pub open spec fn asset_rank(s: Strap) -> int {
    s.level * 20 + modifier_rank(s.modifier)
}

/// `x` placed into a list ordered by rank, after every entry of the same or lower rank.
pub open spec fn insert_ranked(s: Seq<([u8; 32], Strap)>, x: ([u8; 32], Strap)) -> Seq<([u8; 32], Strap)>
    decreases s.len(),
{
    if s.len() == 0 {
        seq![x]
    } else if asset_rank(s.last().1) <= asset_rank(x.1) {
        s.push(x)
    } else {
        insert_ranked(s.drop_last(), x).push(s.last())
    }
}

/// The assets ordered by rank; assets of the same rank keep their order.
pub open spec fn ranked(s: Seq<([u8; 32], Strap)>) -> Seq<([u8; 32], Strap)>
    decreases s.len(),
{
    if s.len() == 0 {
        Seq::empty()
    } else {
        insert_ranked(ranked(s.drop_last()), s.last())
    }
}

/// The known strap assets of one kind, in the order they are known.
pub open spec fn assets_of_kind(known: Seq<([u8; 32], Strap)>, kind: StrapKind) -> Seq<([u8; 32], Strap)>
    decreases known.len(),
{
    if known.len() == 0 {
        Seq::empty()
    } else if known.last().1.kind == kind {
        assets_of_kind(known.drop_last(), kind).push(known.last())
    } else {
        assets_of_kind(known.drop_last(), kind)
    }
}

proof fn lemma_insert_ranked_at(s: Seq<([u8; 32], Strap)>, x: ([u8; 32], Strap), pos: int)
    requires
        0 <= pos <= s.len(),
        forall|j: int| pos <= j < s.len() ==> asset_rank((#[trigger] s[j]).1) > asset_rank(x.1),
        pos == 0 || asset_rank(s[pos - 1].1) <= asset_rank(x.1),
    ensures
        insert_ranked(s, x) == s.take(pos).push(x) + s.skip(pos),
    decreases s.len(),
{
    if s.len() == 0 {
        assert(s.take(pos).push(x) + s.skip(pos) =~= seq![x]);
    } else if pos == s.len() {
        assert(s.take(pos).push(x) + s.skip(pos) =~= s.push(x));
    } else {
        let init = s.drop_last();
        assert(asset_rank(s[s.len() - 1].1) > asset_rank(x.1));
        assert forall|j: int| pos <= j < init.len() implies asset_rank((#[trigger] init[j]).1) > asset_rank(x.1) by {
            assert(init[j] == s[j]);
        }
        if pos > 0 {
            assert(init[pos - 1] == s[pos - 1]);
        }
        lemma_insert_ranked_at(init, x, pos);
        assert((init.take(pos).push(x) + init.skip(pos)).push(s.last()) =~= s.take(pos).push(x) + s.skip(pos));
    }
}

fn rank_of(s: &Strap) -> (r: u32)
    ensures
        r == asset_rank(*s),
{
    (s.level as u32) * 20 + modifier_order_value(&s.modifier) as u32
}

/// The known strap assets of `kind`, ordered by level and modifier.
fn ranked_assets(known: &Vec<([u8; 32], Strap)>, kind: StrapKind) -> (r: Vec<([u8; 32], Strap)>)
    ensures
        r@ == ranked(assets_of_kind(known@, kind)),
{
    let mut picked: Vec<([u8; 32], Strap)> = Vec::new();
    let mut i: usize = 0;
    while i < known.len()
        invariant
            i <= known@.len(),
            picked@ == assets_of_kind(known@.take(i as int), kind),
        decreases known@.len() - i,
    {
        proof {
            assert(known@.take(i + 1).drop_last() =~= known@.take(i as int));
        }
        let entry = known[i];
        if entry.1.kind == kind {
            picked.push(entry);
        }
        i = i + 1;
    }
    proof {
        assert(known@.take(known@.len() as int) =~= known@);
    }
    let ghost all = picked@;
    let mut sorted: Vec<([u8; 32], Strap)> = Vec::new();
    let mut k: usize = 0;
    while k < picked.len()
        invariant
            k <= picked@.len(),
            all == picked@,
            sorted@ == ranked(all.take(k as int)),
        decreases picked@.len() - k,
    {
        let x = picked[k];
        let rx = rank_of(&x.1);
        let mut pos: usize = sorted.len();
        while pos > 0 && rank_of(&sorted[pos - 1].1) > rx
            invariant
                pos <= sorted@.len(),
                rx == asset_rank(x.1),
                forall|j: int| pos <= j < sorted@.len() ==> asset_rank((#[trigger] sorted@[j]).1) > asset_rank(x.1),
            decreases pos,
        {
            pos = pos - 1;
        }
        proof {
            lemma_insert_ranked_at(sorted@, x, pos as int);
            assert(all.take(k + 1).drop_last() =~= all.take(k as int));
            assert(all.take(k + 1).last() == x);
        }
        sorted.insert(pos, x);
        k = k + 1;
    }
    proof {
        assert(all.take(all.len() as int) =~= all);
    }
    sorted
}

/// The part of an inventory row after the totals: each strap with its amount, separated by
/// commas, or `-` when none is owned.
pub open spec fn row_detail(entries: Seq<(Strap, u64)>) -> Seq<char> {
    if entries.len() == 0 {
        "-"@
    } else {
        joined(entries.map_values(|e: (Strap, u64)| compact(e.0) + "x"@ + decimal(e.1 as nat)), ", "@)
    }
}

/// An inventory row: the cursor, the kind's name padded to ten characters, the total
/// padded to three, and the straps owned.
pub open spec fn inventory_row(row: StrapKindRow, at: bool) -> (Seq<char>, LineStyle) {
    (
        cursor_mark(at) + " "@ + pad_right(kind_text(row.kind), 10) + " total: "@ + pad_right(decimal(row.total as nat), 3)
            + " "@ + row_detail(row.entries@),
        if at {
            LineStyle::Highlight
        } else {
            LineStyle::Plain
        },
    )
}

/// A line of the asset list: the strap's label and its asset id in hexadecimal.
pub open spec fn asset_line(a: ([u8; 32], Strap)) -> Seq<char> {
    "  "@ + asset_label(a.1) + ": 0x"@ + lower_hex(a.0@)
}

/// The inventory dialog's lines: a row per strap kind with the cursor's row highlighted
/// (the cursor kept on the last row), then the asset ids of the cursor's kind, ordered by
/// level and modifier, and the help line.
pub open spec fn inventory_lines_spec(rows: Seq<StrapKindRow>, idx: usize, known: Seq<([u8; 32], Strap)>) -> Seq<(Seq<char>, LineStyle)> {
    if rows.len() == 0 {
        seq![("No strap types available"@, LineStyle::Plain)]
    } else {
        let sel = if idx < rows.len() {
            idx as int
        } else {
            rows.len() - 1
        };
        let kind = rows[sel].kind;
        let assets = ranked(assets_of_kind(known, kind));
        Seq::new(rows.len(), |i: int| inventory_row(rows[i], i == sel)) + seq![
            (""@, LineStyle::Plain),
            ("Asset IDs for "@ + kind_text(kind) + ":"@, LineStyle::Plain),
        ] + (if assets.len() == 0 {
            seq![("  None"@, LineStyle::Plain)]
        } else {
            assets.map_values(|a: ([u8; 32], Strap)| (asset_line(a), LineStyle::Plain))
        }) + seq![
            (""@, LineStyle::Plain),
            ("Esc=close ↑/↓ move (rows include strap kinds you do not own yet)"@, LineStyle::Plain),
        ]
    }
}

fn push_styled(lines: &mut Vec<(String, LineStyle)>, text: String, style: LineStyle)
    ensures
        styled_view(final(lines)@) == styled_view(old(lines)@).push((text@, style)),
{
    let ghost before = lines@;
    lines.push((text, style));
    assert(styled_view(lines@) =~= styled_view(before).push((text@, style)));
}

fn row_detail_text(entries: &Vec<(Strap, u64)>) -> (r: String)
    ensures
        r@ == row_detail(entries@),
{
    if entries.len() == 0 {
        return "-".to_owned();
    }
    let ghost parts = entries@.map_values(|e: (Strap, u64)| compact(e.0) + "x"@ + decimal(e.1 as nat));
    let mut m = String::new();
    let mut i: usize = 0;
    while i < entries.len()
        invariant
            i <= entries@.len(),
            parts == entries@.map_values(|e: (Strap, u64)| compact(e.0) + "x"@ + decimal(e.1 as nat)),
            m@ == joined(parts.take(i as int), ", "@),
        decreases entries@.len() - i,
    {
        proof {
            lemma_joined_push(parts.take(i as int), ", "@, parts[i as int]);
            assert(parts.take(i + 1) =~= parts.take(i as int).push(parts[i as int]));
        }
        let (strap, amount) = entries[i];
        if i > 0 {
            m.append(", ");
        }
        let label = render_reward_compact(&strap);
        m.append(label.as_str());
        m.append("x");
        push_decimal(&mut m, amount as u128);
        i = i + 1;
    }
    proof {
        assert(parts.take(entries@.len() as int) =~= parts);
    }
    m
}

/// The strap inventory dialog's lines, for the `rows` of owned straps by kind, the cursor
/// at `idx`, and the strap assets the indexer knows.
pub fn strap_inventory_lines(rows: &Vec<StrapKindRow>, idx: usize, known: &Vec<([u8; 32], Strap)>) -> (r: Vec<(String, LineStyle)>)
    ensures
        styled_view(r@) == inventory_lines_spec(rows@, idx, known@),
{
    let mut lines: Vec<(String, LineStyle)> = Vec::new();
    if rows.len() == 0 {
        push_styled(&mut lines, "No strap types available".to_owned(), LineStyle::Plain);
        proof {
            assert(styled_view(lines@) =~= inventory_lines_spec(rows@, idx, known@));
        }
        return lines;
    }
    let sel = if idx < rows.len() {
        idx
    } else {
        rows.len() - 1
    };
    let ghost row_line = |i: int| inventory_row(rows@[i], i == sel);
    let mut i: usize = 0;
    while i < rows.len()
        invariant
            i <= rows@.len(),
            sel < rows@.len(),
            row_line == (|i: int| inventory_row(rows@[i], i == sel)),
            styled_view(lines@) =~= Seq::new(i as nat, row_line),
        decreases rows@.len() - i,
    {
        let row = &rows[i];
        let mut m = String::new();
        push_cursor(&mut m, i == sel);
        m.append(" ");
        push_padded(&mut m, strap_kind_name(&row.kind), 10);
        m.append(" total: ");
        let total = decimal_string(row.total);
        push_padded(&mut m, total.as_str(), 3);
        m.append(" ");
        let detail = row_detail_text(&row.entries);
        m.append(detail.as_str());
        let style = if i == sel {
            LineStyle::Highlight
        } else {
            LineStyle::Plain
        };
        push_styled(&mut lines, m, style);
        proof {
            assert(Seq::new((i + 1) as nat, row_line) =~= Seq::new(i as nat, row_line).push(row_line(i as int)));
        }
        i = i + 1;
    }
    let ghost head = styled_view(lines@);
    let kind = rows[sel].kind;
    push_styled(&mut lines, "".to_owned(), LineStyle::Plain);
    let mut title = "Asset IDs for ".to_owned();
    title.append(strap_kind_name(&kind));
    title.append(":");
    push_styled(&mut lines, title, LineStyle::Plain);
    let ghost mid = styled_view(lines@);
    let assets = ranked_assets(known, kind);
    let ghost av = assets@.map_values(|a: ([u8; 32], Strap)| (asset_line(a), LineStyle::Plain));
    if assets.len() == 0 {
        push_styled(&mut lines, "  None".to_owned(), LineStyle::Plain);
    } else {
        let mut k: usize = 0;
        while k < assets.len()
            invariant
                k <= assets@.len(),
                av == assets@.map_values(|a: ([u8; 32], Strap)| (asset_line(a), LineStyle::Plain)),
                styled_view(lines@) =~= mid + av.take(k as int),
            decreases assets@.len() - k,
        {
            let (asset, strap) = assets[k];
            let mut m = "  ".to_owned();
            let label = strap_asset_label(&strap);
            m.append(label.as_str());
            m.append(": 0x");
            let hex = hex_encode(&asset);
            m.append(hex.as_str());
            push_styled(&mut lines, m, LineStyle::Plain);
            proof {
                assert(av.take(k + 1) =~= av.take(k as int).push(av[k as int]));
            }
            k = k + 1;
        }
        proof {
            assert(av.take(assets@.len() as int) =~= av);
        }
    }
    push_styled(&mut lines, "".to_owned(), LineStyle::Plain);
    push_styled(&mut lines, "Esc=close ↑/↓ move (rows include strap kinds you do not own yet)".to_owned(), LineStyle::Plain);
    proof {
        assert(styled_view(lines@) =~= inventory_lines_spec(rows@, idx, known@));
    }
    lines
}


/// The roll history panel's line: the rolls by name, separated by spaces; `None`, dimmed,
/// before the first roll.
pub open spec fn roll_history_line_spec(rolls: Seq<Roll>) -> (Seq<char>, LineStyle) {
    if rolls.len() == 0 {
        ("None"@, LineStyle::Dimmed)
    } else {
        (joined(rolls.map_values(|r: Roll| roll_text(r)), " "@), LineStyle::Plain)
    }
}

pub fn roll_history_line(rolls: &Vec<Roll>) -> (r: (String, LineStyle))
    ensures
        (r.0@, r.1) == roll_history_line_spec(rolls@),
{
    if rolls.len() == 0 {
        return ("None".to_owned(), LineStyle::Dimmed);
    }
    let ghost parts = rolls@.map_values(|r: Roll| roll_text(r));
    let mut m = String::new();
    let mut i: usize = 0;
    while i < rolls.len()
        invariant
            i <= rolls@.len(),
            parts == rolls@.map_values(|r: Roll| roll_text(r)),
            m@ == joined(parts.take(i as int), " "@),
        decreases rolls@.len() - i,
    {
        proof {
            lemma_joined_push(parts.take(i as int), " "@, parts[i as int]);
            assert(parts.take(i + 1) =~= parts.take(i as int).push(parts[i as int]));
        }
        if i > 0 {
            m.append(" ");
        }
        m.append(roll_name(&rolls[i]));
        i = i + 1;
    }
    proof {
        assert(parts.take(rolls@.len() as int) =~= parts);
    }
    (m, LineStyle::Plain)
}

/// What the game panel shows.
#[derive(Clone, Copy, Debug, PartialEq, Eq, Structural)]
pub struct GameFigures {
    pub game_id: u32,
    pub vrf_mode: VrfMode,
    pub vrf_number: u64,
    pub next_roll_height: Option<u32>,
    pub block_height: u32,
    pub pot: u64,
    pub owed: u64,
    pub chip_bets: u64,
    pub capacity: u64,
}

/// The game panel's lines: the game, the VRF (with the roll a fake VRF number gives), the
/// next roll's height (`N/A` when none is scheduled) and the block height; then the pot,
/// the owed chips, the chips bet and the remaining capacity.
pub open spec fn overview_lines_spec(f: GameFigures) -> Seq<Seq<char>> {
    let next = match f.next_roll_height {
        Some(h) => decimal(h as nat),
        None => "N/A"@,
    };
    let first = "Game: "@ + decimal(f.game_id as nat) + match f.vrf_mode {
        VrfMode::Fake => " | Fake VRF: "@ + decimal(f.vrf_number as nat) + " ("@ + roll_text(roll_for_vrf(f.vrf_number))
            + ")"@,
        VrfMode::Pseudo => " | Pseudo VRF Mode"@,
    } + " | Next Roll Height: "@ + next + " | Current Block Height: "@ + decimal(f.block_height as nat);
    seq![
        first,
        "Pot: "@ + decimal(f.pot as nat) + " | Owed: "@ + decimal(f.owed as nat) + " | Chip Bets: "@ + decimal(
            f.chip_bets as nat,
        ) + " | Remaining Capacity: "@ + decimal(f.capacity as nat),
    ]
}

pub fn overview_lines(f: &GameFigures) -> (r: Vec<String>)
    ensures
        texts_view(r@) == overview_lines_spec(*f),
{
    let mut first = "Game: ".to_owned();
    push_decimal(&mut first, f.game_id as u128);
    let ghost g = first@;
    match f.vrf_mode {
        VrfMode::Fake => {
            first.append(" | Fake VRF: ");
            push_decimal(&mut first, f.vrf_number as u128);
            first.append(" (");
            let roll = vrf_to_roll(f.vrf_number);
            first.append(roll_name(&roll));
            first.append(")");
        },
        VrfMode::Pseudo => first.append(" | Pseudo VRF Mode"),
    }
    let ghost vrf_part = match f.vrf_mode {
        VrfMode::Fake => " | Fake VRF: "@ + decimal(f.vrf_number as nat) + " ("@ + roll_text(roll_for_vrf(f.vrf_number))
            + ")"@,
        VrfMode::Pseudo => " | Pseudo VRF Mode"@,
    };
    assert(first@ =~= g + vrf_part);
    let ghost gv = first@;
    first.append(" | Next Roll Height: ");
    let ghost before_next = first@;
    match f.next_roll_height {
        Some(h) => push_decimal(&mut first, h as u128),
        None => first.append("N/A"),
    }
    let ghost next = match f.next_roll_height {
        Some(h) => decimal(h as nat),
        None => "N/A"@,
    };
    assert(first@ =~= before_next + next);
    first.append(" | Current Block Height: ");
    push_decimal(&mut first, f.block_height as u128);
    assert(first@ =~= overview_lines_spec(*f)[0]);
    let mut second = "Pot: ".to_owned();
    push_decimal(&mut second, f.pot as u128);
    second.append(" | Owed: ");
    push_decimal(&mut second, f.owed as u128);
    second.append(" | Chip Bets: ");
    push_decimal(&mut second, f.chip_bets as u128);
    second.append(" | Remaining Capacity: ");
    push_decimal(&mut second, f.capacity as u128);
    assert(second@ =~= overview_lines_spec(*f)[1]);
    let mut lines: Vec<String> = Vec::new();
    push_text(&mut lines, first);
    push_text(&mut lines, second);
    proof {
        assert(texts_view(lines@) =~= overview_lines_spec(*f));
    }
    lines
}


/// The shop panel's lines: each modifier as the shop lists it, or a note that none is
/// offered.
pub open spec fn shop_panel_spec(items: Seq<(Roll, Roll, Modifier, bool, bool, u64)>) -> Seq<(Seq<char>, LineStyle)> {
    if items.len() == 0 {
        seq![("No modifiers available"@, LineStyle::Plain)]
    } else {
        items.map_values(|it: (Roll, Roll, Modifier, bool, bool, u64)| (shop_item_text(it), shop_item_style(it)))
    }
}

pub fn shop_panel_lines(items: &Vec<(Roll, Roll, Modifier, bool, bool, u64)>) -> (r: Vec<(String, LineStyle)>)
    ensures
        styled_view(r@) == shop_panel_spec(items@),
{
    let mut lines: Vec<(String, LineStyle)> = Vec::new();
    if items.len() == 0 {
        push_styled(&mut lines, "No modifiers available".to_owned(), LineStyle::Plain);
        return lines;
    }
    let ghost want = items@.map_values(
        |it: (Roll, Roll, Modifier, bool, bool, u64)| (shop_item_text(it), shop_item_style(it)),
    );
    let mut i: usize = 0;
    while i < items.len()
        invariant
            i <= items@.len(),
            want == items@.map_values(
                |it: (Roll, Roll, Modifier, bool, bool, u64)| (shop_item_text(it), shop_item_style(it)),
            ),
            styled_view(lines@) =~= want.take(i as int),
        decreases items@.len() - i,
    {
        let mut m = String::new();
        let style = push_shop_item(&mut m, items[i]);
        push_styled(&mut lines, m, style);
        proof {
            assert(want.take(i + 1) =~= want.take(i as int).push(want[i as int]));
        }
        i = i + 1;
    }
    proof {
        assert(want.take(items@.len() as int) =~= want);
    }
    lines
}

/// The player bet in a finished game: some summary cell shows chips or straps staked.
pub open spec fn has_user_bets_spec(g: PreviousGameSummary) -> bool {
    exists|i: int| 0 <= i < g.cells@.len() && ((#[trigger] g.cells@[i]).chip_total > 0 || g.cells@[i].strap_total > 0)
}

pub fn has_user_bets(g: &PreviousGameSummary) -> (r: bool)
    ensures
        r == has_user_bets_spec(*g),
{
    let mut i: usize = 0;
    while i < g.cells.len()
        invariant
            i <= g.cells@.len(),
            forall|k: int| 0 <= k < i ==> !((#[trigger] g.cells@[k]).chip_total > 0 || g.cells@[k].strap_total > 0),
        decreases g.cells@.len() - i,
    {
        if g.cells[i].chip_total > 0 || g.cells[i].strap_total > 0 {
            assert(g.cells@[i as int].chip_total > 0 || g.cells@[i as int].strap_total > 0);
            return true;
        }
        i = i + 1;
    }
    false
}

/// The lines of one finished game in the previous games panel: its id, claim status and
/// rolls; then, when the player bet in it, its bets.
pub open spec fn previous_game_lines(g: PreviousGameSummary) -> Seq<Seq<char>> {
    let head = "Game "@ + decimal(g.game_id as nat) + " "@ + status_label(g) + " | "@ + rolls_line(g.rolls@, g.modifiers@);
    if has_user_bets_spec(g) {
        seq![head, "  Bets:"@] + bet_lines_of(rows_view(g.bets_by_roll@)).map_values(|l: Seq<char>| "  "@ + l)
    } else {
        seq![head]
    }
}

/// The lines of the previous games panel, game by game.
pub open spec fn previous_games_spec(games: Seq<PreviousGameSummary>) -> Seq<Seq<char>>
    decreases games.len(),
{
    if games.len() == 0 {
        Seq::empty()
    } else {
        previous_games_spec(games.drop_last()) + previous_game_lines(games.last())
    }
}

/// The previous games panel's lines, or `None` when no game has finished.
pub open spec fn previous_panel_spec(games: Seq<PreviousGameSummary>) -> Seq<Seq<char>> {
    if games.len() == 0 {
        seq!["None"@]
    } else {
        previous_games_spec(games)
    }
}

pub fn previous_games_lines(games: &Vec<PreviousGameSummary>) -> (r: Vec<String>)
    ensures
        texts_view(r@) == previous_panel_spec(games@),
{
    let mut lines: Vec<String> = Vec::new();
    if games.len() == 0 {
        push_text(&mut lines, "None".to_owned());
        return lines;
    }
    let mut i: usize = 0;
    while i < games.len()
        invariant
            i <= games@.len(),
            texts_view(lines@) == previous_games_spec(games@.take(i as int)),
        decreases games@.len() - i,
    {
        let g = &games[i];
        proof {
            assert(games@.take(i + 1).drop_last() =~= games@.take(i as int));
        }
        let ghost start = texts_view(lines@);
        let mut head = "Game ".to_owned();
        push_decimal(&mut head, g.game_id as u128);
        head.append(" ");
        if has_claimable_bets(g) {
            head.append("[unclaimed]");
        } else {
            head.append("[nothing-to-claim]");
        }
        head.append(" | ");
        let rolls = rolls_line_text(&g.rolls, &g.modifiers);
        head.append(rolls.as_str());
        push_text(&mut lines, head);
        if has_user_bets(g) {
            push_text(&mut lines, "  Bets:".to_owned());
            let mut bets: Vec<String> = Vec::new();
            push_bet_lines(&mut bets, &g.bets_by_roll);
            let ghost bv = texts_view(bets@);
            let ghost mid = texts_view(lines@);
            let mut k: usize = 0;
            while k < bets.len()
                invariant
                    k <= bets@.len(),
                    bv == texts_view(bets@),
                    texts_view(lines@) =~= mid + bv.take(k as int).map_values(|l: Seq<char>| "  "@ + l),
                decreases bets@.len() - k,
            {
                let mut line = "  ".to_owned();
                line.append(bets[k].as_str());
                push_text(&mut lines, line);
                proof {
                    assert(bv.take(k + 1).map_values(|l: Seq<char>| "  "@ + l) =~= bv.take(k as int).map_values(
                        |l: Seq<char>| "  "@ + l,
                    ).push("  "@ + bv[k as int]));
                }
                k = k + 1;
            }
            proof {
                assert(bv.take(bets@.len() as int) =~= bv);
                assert(bv =~= Seq::<Seq<char>>::empty() + bet_lines_of(rows_view(g.bets_by_roll@)));
                assert(texts_view(lines@) =~= start + previous_game_lines(*g));
            }
        } else {
            proof {
                assert(texts_view(lines@) =~= start + previous_game_lines(*g));
            }
        }
        i = i + 1;
    }
    proof {
        assert(games@.take(games@.len() as int) =~= games@);
    }
    lines
}


/// The title of a roll's cell: its name (`Seven/RESET` for `Seven`), then the emojis of the
/// modifiers active on it.
pub open spec fn cell_title_spec(roll: Roll, active: Seq<(Roll, Modifier, u32)>) -> Seq<char> {
    let base = if roll == Roll::Seven {
        "Seven/RESET"@
    } else {
        roll_text(roll)
    };
    let mods = joined(active_emojis(roll, active), " "@);
    if mods.len() == 0 {
        base
    } else {
        base + " "@ + mods
    }
}

pub fn cell_title(roll: Roll, active: &Vec<(Roll, Modifier, u32)>) -> (r: String)
    ensures
        r@ == cell_title_spec(roll, active@),
{
    let mut m = if roll == Roll::Seven {
        "Seven/RESET".to_owned()
    } else {
        roll_name(&roll).to_owned()
    };
    let mods = active_mods_emojis(&roll, active);
    if !mods.as_str().is_empty() {
        m.append(" ");
        m.append(mods.as_str());
    }
    m
}

/// A strap reward in a cell: how many are offered (when more than one), the kind's emoji,
/// and the price with the chip label.
pub open spec fn reward_text(r: RewardInfo, chip_label: Seq<char>) -> Seq<char> {
    (if r.count > 1 {
        decimal(r.count as nat) + "x"@
    } else {
        Seq::empty()
    }) + kind_emoji(r.strap.kind) + "/"@ + decimal(r.cost as nat) + chip_label
}

/// The lines of a roll's cell: its rewards (or ` None`), then the player's bets on it.
pub open spec fn cell_lines_spec(cell: RollCell, chip_label: Seq<char>) -> Seq<Seq<char>> {
    seq!["Rewards:"@] + (if cell.rewards@.len() == 0 {
        seq![" None"@]
    } else {
        cell.rewards@.map_values(|r: RewardInfo| reward_text(r, chip_label))
    }) + seq![""@, "You:"@] + bet_lines(cell.chip_total, cell.straps@, chip_label, Seq::empty())
}

pub fn cell_lines(cell: &RollCell, chip_label: &str) -> (r: Vec<String>)
    ensures
        texts_view(r@) == cell_lines_spec(*cell, chip_label@),
{
    let mut lines: Vec<String> = Vec::new();
    push_text(&mut lines, "Rewards:".to_owned());
    if cell.rewards.len() == 0 {
        push_text(&mut lines, " None".to_owned());
    } else {
        let ghost start = texts_view(lines@);
        let ghost want = cell.rewards@.map_values(|r: RewardInfo| reward_text(r, chip_label@));
        let mut i: usize = 0;
        while i < cell.rewards.len()
            invariant
                i <= cell.rewards@.len(),
                want == cell.rewards@.map_values(|r: RewardInfo| reward_text(r, chip_label@)),
                texts_view(lines@) =~= start + want.take(i as int),
            decreases cell.rewards@.len() - i,
        {
            let reward = &cell.rewards[i];
            let mut m = String::new();
            if reward.count > 1 {
                push_decimal(&mut m, reward.count as u128);
                m.append("x");
            }
            m.append(strap_emoji(&reward.strap.kind));
            m.append("/");
            push_decimal(&mut m, reward.cost as u128);
            m.append(chip_label);
            proof {
                assert(m@ =~= reward_text(*reward, chip_label@));
            }
            push_text(&mut lines, m);
            proof {
                assert(want.take(i + 1) =~= want.take(i as int).push(want[i as int]));
            }
            i = i + 1;
        }
        proof {
            assert(want.take(cell.rewards@.len() as int) =~= want);
        }
    }
    push_text(&mut lines, "".to_owned());
    push_text(&mut lines, "You:".to_owned());
    let ghost mid = texts_view(lines@);
    let bets = format_my_bet_lines(cell.chip_total, &cell.straps, chip_label);
    let ghost bv = texts_view(bets@);
    let mut k: usize = 0;
    while k < bets.len()
        invariant
            k <= bets@.len(),
            bv == texts_view(bets@),
            texts_view(lines@) =~= mid + bv.take(k as int),
        decreases bets@.len() - k,
    {
        let line = bets[k].as_str().to_owned();
        push_text(&mut lines, line);
        proof {
            assert(bv.take(k + 1) =~= bv.take(k as int).push(bv[k as int]));
        }
        k = k + 1;
    }
    proof {
        assert(bv.take(bets@.len() as int) =~= bv);
        assert(texts_view(lines@) =~= cell_lines_spec(*cell, chip_label@));
    }
    lines
}

/// How the wallet panel names an asset: the first four hexadecimal digits of its id after
/// `0x` and before `...`, after its ticker when it has one.
pub open spec fn asset_name(asset: [u8; 32], ticker: Option<String>) -> Seq<char> {
    let prefix = "0x"@ + lower_hex(asset@).subrange(0, 4) + "..."@;
    match ticker {
        Some(t) => t@ + " | "@ + prefix,
        None => prefix,
    }
}

fn asset_name_text(asset: &[u8; 32], ticker: &Option<String>) -> (r: String)
    ensures
        r@ == asset_name(*asset, *ticker),
{
    let hex = hex_encode(asset);
    proof {
        lemma_lower_hex_shape(asset@);
    }
    let mut prefix = "0x".to_owned();
    prefix.append(hex.as_str().substring_char(0, 4));
    prefix.append("...");
    match ticker {
        Some(t) => {
            let mut m = t.as_str().to_owned();
            m.append(" | ");
            m.append(prefix.as_str());
            m
        },
        None => prefix,
    }
}

/// What the wallet panel shows.
#[derive(Clone, Debug, PartialEq, Eq)]
pub struct WalletFigures {
    pub base_asset: [u8; 32],
    pub base_ticker: Option<String>,
    pub base_balance: u64,
    pub chip_asset: [u8; 32],
    pub chip_ticker: Option<String>,
    pub chip_balance: u64,
}

/// The wallet panel's line: the base asset's balance in whole units (nine decimals), the
/// chips, and the summary of owned straps, with a hint when more are owned.
pub open spec fn wallet_line_spec(w: WalletFigures, owned: Seq<(Strap, u64)>) -> Seq<char> {
    let t = tallied(owned, None);
    let shown = if t.len() > SUMMARY_LENGTH {
        key_sorted(t).take(SUMMARY_LENGTH as int)
    } else {
        key_sorted(t)
    };
    let straps = if owned.len() == 0 {
        "none"@
    } else {
        joined(shown.map_values(|e: (Strap, u64)| summary_part(e)), ", "@)
    };
    "Balance ("@ + asset_name(w.base_asset, w.base_ticker) + "): "@ + units_text(w.base_balance, 9) + " | Chips ("@
        + asset_name(w.chip_asset, w.chip_ticker) + "): "@ + decimal(w.chip_balance as nat) + " | Straps: "@ + straps
        + if owned.len() > 0 && t.len() > SUMMARY_LENGTH {
        "... see more (press i)"@
    } else {
        Seq::empty()
    }
}

pub fn wallet_line(w: &WalletFigures, owned: &Vec<(Strap, u64)>) -> (r: String)
    ensures
        r@ == wallet_line_spec(*w, owned@),
{
    let (straps, more) = format_owned_strap_summary(owned);
    let mut m = "Balance (".to_owned();
    let base = asset_name_text(&w.base_asset, &w.base_ticker);
    m.append(base.as_str());
    m.append("): ");
    let units = format_units(w.base_balance, 9);
    m.append(units.as_str());
    m.append(" | Chips (");
    let chip = asset_name_text(&w.chip_asset, &w.chip_ticker);
    m.append(chip.as_str());
    m.append("): ");
    push_decimal(&mut m, w.chip_balance as u128);
    m.append(" | Straps: ");
    m.append(straps.as_str());
    let ghost before = m@;
    if more {
        m.append("... see more (press i)");
    }
    proof {
        if !more {
            assert(m@ =~= before + Seq::<char>::empty());
        }
        assert(m@ =~= wallet_line_spec(*w, owned@));
    }
    m
}

/// The colour, as red, green and blue, of a cell whose roll carries the modifier.
pub open spec fn modifier_colour(m: Modifier) -> (u8, u8, u8) {
    match m {
        Modifier::Nothing => (108, 117, 125),
        Modifier::Burnt => (220, 53, 69),
        Modifier::Lucky => (40, 167, 69),
        Modifier::Holy => (255, 193, 7),
        Modifier::Holey => (108, 117, 125),
        Modifier::Scotch => (139, 87, 42),
        Modifier::Soaked => (0, 123, 255),
        Modifier::Moldy => (111, 66, 193),
        Modifier::Starched => (222, 226, 230),
        Modifier::Evil => (156, 39, 176),
        Modifier::Groovy => (255, 87, 34),
        Modifier::Delicate => (255, 182, 193),
    }
}

pub fn modifier_border_color(m: &Modifier) -> (c: (u8, u8, u8))
    ensures
        c == modifier_colour(*m),
{
    match m {
        Modifier::Nothing => (108, 117, 125),
        Modifier::Burnt => (220, 53, 69),
        Modifier::Lucky => (40, 167, 69),
        Modifier::Holy => (255, 193, 7),
        Modifier::Holey => (108, 117, 125),
        Modifier::Scotch => (139, 87, 42),
        Modifier::Soaked => (0, 123, 255),
        Modifier::Moldy => (111, 66, 193),
        Modifier::Starched => (222, 226, 230),
        Modifier::Evil => (156, 39, 176),
        Modifier::Groovy => (255, 87, 34),
        Modifier::Delicate => (255, 182, 193),
    }
}

/// The first modifier other than `Nothing` active on `roll`, if any.
pub open spec fn first_active(roll: Roll, active: Seq<(Roll, Modifier, u32)>) -> Option<Modifier>
    decreases active.len(),
{
    if active.len() == 0 {
        None
    } else if active[0].0 == roll && active[0].1 != Modifier::Nothing {
        Some(active[0].1)
    } else {
        first_active(roll, active.drop_first())
    }
}

/// The colour of a roll's cell border: that of the first modifier active on the roll, if
/// any.
pub fn border_color_for_roll(roll: &Roll, active: &Vec<(Roll, Modifier, u32)>) -> (c: Option<(u8, u8, u8)>)
    ensures
        c == match first_active(*roll, active@) {
            Some(m) => Some(modifier_colour(m)),
            None => None,
        },
{
    let mut i: usize = 0;
    assert(active@.skip(0) =~= active@);
    while i < active.len()
        invariant
            i <= active@.len(),
            first_active(*roll, active@) == first_active(*roll, active@.skip(i as int)),
        decreases active@.len() - i,
    {
        let (r, m, _) = active[i];
        assert(active@.skip(i as int).drop_first() =~= active@.skip(i + 1));
        if r == *roll && m != Modifier::Nothing {
            return Some(modifier_border_color(&m));
        }
        i = i + 1;
    }
    None
}

} // verus!
