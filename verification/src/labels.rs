//! The short texts the game client shows for straps, modifiers, bets and amounts.
use vstd::prelude::*;
use vstd::string::{StrSliceExecFns, StringExecFns};
use crate::strap_inventory::{SUMMARY_LENGTH, key_sorted, owned_strap_summary, tallied};
use crate::types::{Modifier, Roll, Strap, StrapKind};

verus! {

/// The character of a decimal digit.
pub open spec fn digit_char(d: int) -> char {
    if d == 0 {
        '0'
    } else if d == 1 {
        '1'
    } else if d == 2 {
        '2'
    } else if d == 3 {
        '3'
    } else if d == 4 {
        '4'
    } else if d == 5 {
        '5'
    } else if d == 6 {
        '6'
    } else if d == 7 {
        '7'
    } else if d == 8 {
        '8'
    } else {
        '9'
    }
}

/// A number written in decimal, without leading zeros.
pub open spec fn decimal(n: nat) -> Seq<char>
    decreases n,
{
    if n < 10 {
        seq![digit_char(n as int)]
    } else {
        decimal(n / 10) + seq![digit_char((n % 10) as int)]
    }
}

fn digit_str(d: u128) -> (r: &'static str)
    requires
        d < 10,
    ensures
        r@ == seq![digit_char(d as int)],
{
    match d {
        0 => { proof { reveal_strlit("0"); } "0" },
        1 => { proof { reveal_strlit("1"); } "1" },
        2 => { proof { reveal_strlit("2"); } "2" },
        3 => { proof { reveal_strlit("3"); } "3" },
        4 => { proof { reveal_strlit("4"); } "4" },
        5 => { proof { reveal_strlit("5"); } "5" },
        6 => { proof { reveal_strlit("6"); } "6" },
        7 => { proof { reveal_strlit("7"); } "7" },
        8 => { proof { reveal_strlit("8"); } "8" },
        _ => { proof { reveal_strlit("9"); } "9" },
    }
}

/// Writes `n` in decimal at the end of `out`.
pub(crate) fn push_decimal(out: &mut String, n: u128)
    ensures
        final(out)@ == old(out)@ + decimal(n as nat),
    decreases n,
{
    if n >= 10 {
        push_decimal(out, n / 10);
    }
    out.append(digit_str(n % 10));
}

/// `n` in decimal.
pub fn decimal_string(n: u64) -> (r: String)
    ensures
        r@ == decimal(n as nat),
{
    let mut out = String::new();
    push_decimal(&mut out, n as u128);
    out
}

/// The emoji of a strap kind.
pub open spec fn kind_emoji(kind: StrapKind) -> Seq<char> {
    match kind {
        StrapKind::Shirt => "👕"@,
        StrapKind::Pants => "👖"@,
        StrapKind::Shoes => "👟"@,
        StrapKind::Dress => "👗"@,
        StrapKind::Hat => "🎩"@,
        StrapKind::Glasses => "👓"@,
        StrapKind::Watch => "⌚"@,
        StrapKind::Ring => "💍"@,
        StrapKind::Necklace => "📿"@,
        StrapKind::Earring => "🧷"@,
        StrapKind::Bracelet => "🧶"@,
        StrapKind::Tattoo => "🐉"@,
        StrapKind::Skirt => "👚"@,
        StrapKind::Piercing => "📌"@,
        StrapKind::Coat => "🧥"@,
        StrapKind::Scarf => "🧣"@,
        StrapKind::Gloves => "🧤"@,
        StrapKind::Gown => "👘"@,
        StrapKind::Belt => "🧵"@,
    }
}

pub fn strap_emoji(kind: &StrapKind) -> (r: &'static str)
    ensures
        r@ == kind_emoji(*kind),
{
    match kind {
        StrapKind::Shirt => "👕",
        StrapKind::Pants => "👖",
        StrapKind::Shoes => "👟",
        StrapKind::Dress => "👗",
        StrapKind::Hat => "🎩",
        StrapKind::Glasses => "👓",
        StrapKind::Watch => "⌚",
        StrapKind::Ring => "💍",
        StrapKind::Necklace => "📿",
        StrapKind::Earring => "🧷",
        StrapKind::Bracelet => "🧶",
        StrapKind::Tattoo => "🐉",
        StrapKind::Skirt => "👚",
        StrapKind::Piercing => "📌",
        StrapKind::Coat => "🧥",
        StrapKind::Scarf => "🧣",
        StrapKind::Gloves => "🧤",
        StrapKind::Gown => "👘",
        StrapKind::Belt => "🧵",
    }
}

/// The emoji of a modifier; none for `Nothing`.
pub open spec fn mod_emoji(m: Modifier) -> Seq<char> {
    match m {
        Modifier::Nothing => Seq::empty(),
        Modifier::Burnt => "🧯"@,
        Modifier::Lucky => "🍀"@,
        Modifier::Holy => "👼"@,
        Modifier::Holey => "🫥"@,
        Modifier::Scotch => "🏴"@,
        Modifier::Soaked => "🌊"@,
        Modifier::Moldy => "🍄"@,
        Modifier::Starched => "🏳️"@,
        Modifier::Evil => "😈"@,
        Modifier::Groovy => "✌️"@,
        Modifier::Delicate => "❤️"@,
    }
}

pub fn modifier_emoji(m: &Modifier) -> (r: &'static str)
    ensures
        r@ == mod_emoji(*m),
{
    match m {
        Modifier::Nothing => {
            proof {
                reveal_strlit("");
            }
            ""
        },
        Modifier::Burnt => "🧯",
        Modifier::Lucky => "🍀",
        Modifier::Holy => "👼",
        Modifier::Holey => "🫥",
        Modifier::Scotch => "🏴",
        Modifier::Soaked => "🌊",
        Modifier::Moldy => "🍄",
        Modifier::Starched => "🏳️",
        Modifier::Evil => "😈",
        Modifier::Groovy => "✌️",
        Modifier::Delicate => "❤️",
    }
}

/// A strap in a few characters: its modifier's emoji, its kind's emoji, its level.
pub open spec fn compact(s: Strap) -> Seq<char> {
    mod_emoji(s.modifier) + kind_emoji(s.kind) + decimal(s.level as nat)
}

pub fn super_compact_strap(s: &Strap) -> (r: String)
    ensures
        r@ == compact(*s),
{
    let mut out = modifier_emoji(&s.modifier).to_owned();
    out.append(strap_emoji(&s.kind));
    push_decimal(&mut out, s.level as u128);
    out
}

/// A strap reward in a few characters: the kind's emoji and the level, after the
/// modifier's emoji when it has a modifier.
pub fn render_reward_compact(s: &Strap) -> (r: String)
    ensures
        r@ == compact(*s),
{
    let mut out = if s.modifier == Modifier::Nothing {
        String::new()
    } else {
        modifier_emoji(&s.modifier).to_owned()
    };
    out.append(strap_emoji(&s.kind));
    push_decimal(&mut out, s.level as u128);
    out
}

/// The label of a strap asset: `lvl` and its level, then its modifier's emoji, if any.
pub open spec fn asset_label(s: Strap) -> Seq<char> {
    if mod_emoji(s.modifier).len() == 0 {
        "lvl"@ + decimal(s.level as nat)
    } else {
        "lvl"@ + decimal(s.level as nat) + " "@ + mod_emoji(s.modifier)
    }
}

pub fn strap_asset_label(s: &Strap) -> (r: String)
    ensures
        r@ == asset_label(*s),
{
    let mut out = "lvl".to_owned();
    push_decimal(&mut out, s.level as u128);
    if s.modifier != Modifier::Nothing {
        let emoji = modifier_emoji(&s.modifier);
        if !emoji.is_empty() {
            out.append(" ");
            out.append(emoji);
        }
    }
    proof {
        if s.modifier == Modifier::Nothing {
            assert(mod_emoji(s.modifier).len() == 0);
        }
    }
    out
}

/// Texts joined with `sep` between them.
pub open spec fn joined(parts: Seq<Seq<char>>, sep: Seq<char>) -> Seq<char>
    decreases parts.len(),
{
    if parts.len() == 0 {
        Seq::empty()
    } else if parts.len() == 1 {
        parts[0]
    } else {
        joined(parts.drop_last(), sep) + sep + parts.last()
    }
}

/// The emojis of the modifiers active on `roll`, in order, separated by spaces.
pub open spec fn active_emojis(roll: Roll, active: Seq<(Roll, Modifier, u32)>) -> Seq<Seq<char>>
    decreases active.len(),
{
    if active.len() == 0 {
        Seq::empty()
    } else {
        let rest = active_emojis(roll, active.drop_last());
        let (r, m, _) = active.last();
        if r == roll && mod_emoji(m).len() > 0 {
            rest.push(mod_emoji(m))
        } else {
            rest
        }
    }
}

pub(crate) proof fn lemma_joined_push(parts: Seq<Seq<char>>, sep: Seq<char>, p: Seq<char>)
    ensures
        joined(parts.push(p), sep) == if parts.len() == 0 {
            p
        } else {
            joined(parts, sep) + sep + p
        },
{
    assert(parts.push(p).drop_last() =~= parts);
}

pub fn active_mods_emojis(roll: &Roll, active: &Vec<(Roll, Modifier, u32)>) -> (r: String)
    ensures
        r@ == joined(active_emojis(*roll, active@), " "@),
{
    let mut out = String::new();
    let mut started = false;
    let ghost mut parts: Seq<Seq<char>> = Seq::empty();
    let mut i: usize = 0;
    while i < active.len()
        invariant
            i <= active@.len(),
            parts == active_emojis(*roll, active@.take(i as int)),
            out@ == joined(parts, " "@),
            started == (parts.len() > 0),
        decreases active@.len() - i,
    {
        let (r, m, _) = active[i];
        proof {
            assert(active@.take(i + 1).drop_last() =~= active@.take(i as int));
        }
        if r == *roll {
            let e = modifier_emoji(&m);
            if !e.is_empty() {
                proof {
                    lemma_joined_push(parts, " "@, e@);
                }
                if started {
                    out.append(" ");
                }
                out.append(e);
                started = true;
                proof {
                    parts = parts.push(e@);
                }
            }
        }
        i = i + 1;
    }
    proof {
        assert(active@.take(active@.len() as int) =~= active@);
    }
    out
}


/// One line of a bet listing: the indent, then the text.
pub open spec fn bet_lines(chip_total: u64, straps: Seq<(Strap, u64)>, chip_label: Seq<char>, indent: Seq<char>) -> Seq<Seq<char>> {
    let chips = if chip_total > 0 {
        seq![indent + decimal(chip_total as nat) + " "@ + chip_label]
    } else {
        Seq::empty()
    };
    let lines = chips + straps.map_values(|e: (Strap, u64)| indent + compact(e.0) + " x"@ + decimal(e.1 as nat));
    if lines.len() == 0 {
        seq![indent + "none"@]
    } else {
        lines
    }
}

/// The lines listing a bet, each after `indent`: the chips staked (when any), then each
/// strap staked with its amount; `none` when nothing was staked.
pub fn format_bet_detail_lines(chip_total: u64, straps: &Vec<(Strap, u64)>, chip_label: &str, indent: &str) -> (r: Vec<String>)
    ensures
        r@.map_values(|l: String| l@) == bet_lines(chip_total, straps@, chip_label@, indent@),
{
    let mut lines: Vec<String> = Vec::new();
    let ghost chips = if chip_total > 0 {
        seq![indent@ + decimal(chip_total as nat) + " "@ + chip_label@]
    } else {
        Seq::<Seq<char>>::empty()
    };
    if chip_total > 0 {
        let mut line = indent.to_owned();
        push_decimal(&mut line, chip_total as u128);
        line.append(" ");
        line.append(chip_label);
        lines.push(line);
    }
    let ghost f = |e: (Strap, u64)| indent@ + compact(e.0) + " x"@ + decimal(e.1 as nat);
    proof {
        assert(lines@.map_values(|l: String| l@) =~= chips + straps@.take(0).map_values(f));
    }
    let mut i: usize = 0;
    while i < straps.len()
        invariant
            i <= straps@.len(),
            f == (|e: (Strap, u64)| indent@ + compact(e.0) + " x"@ + decimal(e.1 as nat)),
            lines@.map_values(|l: String| l@) == chips + straps@.take(i as int).map_values(f),
        decreases straps@.len() - i,
    {
        let (strap, amount) = straps[i];
        let mut line = indent.to_owned();
        let label = render_reward_compact(&strap);
        line.append(label.as_str());
        line.append(" x");
        push_decimal(&mut line, amount as u128);
        let ghost before = lines@;
        lines.push(line);
        proof {
            assert(straps@.take(i + 1).map_values(f) =~= straps@.take(i as int).map_values(f).push(f(straps@[i as int])));
            assert(lines@.map_values(|l: String| l@) =~= before.map_values(|l: String| l@).push(line@));
        }
        i = i + 1;
    }
    proof {
        assert(straps@.take(straps@.len() as int) =~= straps@);
    }
    if lines.len() == 0 {
        let mut none = indent.to_owned();
        none.append("none");
        lines.push(none);
        proof {
            assert(lines@.map_values(|l: String| l@) =~= seq![indent@ + "none"@]);
        }
    }
    lines
}

/// The lines listing the player's bet on the board, without indent.
pub fn format_my_bet_lines(chip_total: u64, straps: &Vec<(Strap, u64)>, chip_label: &str) -> (r: Vec<String>)
    ensures
        r@.map_values(|l: String| l@) == bet_lines(chip_total, straps@, chip_label@, Seq::empty()),
{
    let r = format_bet_detail_lines(chip_total, straps, chip_label, "");
    proof {
        reveal_strlit("");
    }
    r
}


/// Ten to the power `d`.
pub open spec fn pow10(d: nat) -> nat
    decreases d,
{
    if d == 0 {
        1
    } else {
        10 * pow10((d - 1) as nat)
    }
}

/// Ten to the power `d`, or `u128::MAX` where that is larger.
pub open spec fn sat_pow10(d: nat) -> u128 {
    if pow10(d) > u128::MAX {
        u128::MAX
    } else {
        pow10(d) as u128
    }
}

/// The text without its trailing `0` characters.
pub open spec fn trim_zeros(s: Seq<char>) -> Seq<char>
    decreases s.len(),
{
    if s.len() > 0 && s.last() == '0' {
        trim_zeros(s.drop_last())
    } else {
        s
    }
}

/// `n` zeros.
pub open spec fn zeros(n: nat) -> Seq<char> {
    Seq::new(n, |i: int| '0')
}

/// The digits written with leading zeros to at least `width` characters.
pub open spec fn zero_padded(digits: Seq<char>, width: nat) -> Seq<char> {
    if digits.len() >= width {
        digits
    } else {
        zeros((width - digits.len()) as nat) + digits
    }
}

/// An amount of base units shown in whole units with `decimals` decimal places: the whole
/// part, then, when there is a fraction, a point and the fraction's digits without
/// trailing zeros. The scale is ten to the `decimals`, capped at `u128::MAX`.
pub open spec fn units_text(amount: u64, decimals: u32) -> Seq<char> {
    let factor = sat_pow10(decimals as nat);
    let whole = (amount as nat) / (factor as nat);
    let fraction = (amount as nat) % (factor as nat);
    if fraction == 0 {
        decimal(whole)
    } else {
        decimal(whole) + "."@ + trim_zeros(zero_padded(decimal(fraction), decimals as nat))
    }
}

proof fn lemma_pow10_grows(a: nat, b: nat)
    requires
        a <= b,
    ensures
        pow10(a) <= pow10(b),
        pow10(a) >= 1,
    decreases b,
{
    if b > a {
        lemma_pow10_grows(a, (b - 1) as nat);
    } else if a > 0 {
        lemma_pow10_grows((a - 1) as nat, (a - 1) as nat);
    }
}

/// The scale `sat_pow10(decimals)`.
fn scale(decimals: u32) -> (f: u128)
    ensures
        f == sat_pow10(decimals as nat),
{
    let mut factor: u128 = 1;
    let mut k: u32 = 0;
    while k < decimals && factor < u128::MAX
        invariant
            k <= decimals,
            factor == sat_pow10(k as nat),
        decreases decimals - k,
    {
        proof {
            lemma_pow10_grows(k as nat, k as nat);
            assert(pow10((k + 1) as nat) == 10 * pow10(k as nat));
        }
        factor = match factor.checked_mul(10) {
            Some(f) => f,
            None => u128::MAX,
        };
        k = k + 1;
    }
    proof {
        if k < decimals {
            assert(factor == u128::MAX);
            if k == 0 {
                assert(pow10(0) == 1);
            } else {
                assert(pow10(k as nat) == 10 * pow10((k - 1) as nat));
            }
            assert(pow10(k as nat) > u128::MAX);
            lemma_pow10_grows(k as nat, decimals as nat);
        }
    }
    factor
}

proof fn lemma_decimal_first(n: nat)
    ensures
        decimal(n).len() >= 1,
        n > 0 ==> decimal(n)[0] != '0',
    decreases n,
{
    if n >= 10 {
        lemma_decimal_first(n / 10);
    }
}

proof fn lemma_trim_prefix(z: Seq<char>, s: Seq<char>)
    requires
        trim_zeros(s).len() > 0,
    ensures
        trim_zeros(z + s) == z + trim_zeros(s),
    decreases s.len(),
{
    if s.len() > 0 && s.last() == '0' {
        assert((z + s).drop_last() =~= z + s.drop_last());
        lemma_trim_prefix(z, s.drop_last());
    }
}

proof fn lemma_trim_nonzero(s: Seq<char>)
    requires
        s.len() > 0,
        s[0] != '0',
    ensures
        trim_zeros(s).len() > 0,
    decreases s.len(),
{
    if s.last() == '0' {
        lemma_trim_nonzero(s.drop_last());
    }
}

proof fn lemma_trim_decimal(n: nat)
    requires
        n > 0,
    ensures
        n % 10 == 0 ==> trim_zeros(decimal(n)) == trim_zeros(decimal(n / 10)),
        n % 10 != 0 ==> trim_zeros(decimal(n)) == decimal(n),
{
    if n % 10 == 0 {
        assert(n >= 10);
        assert(decimal(n).drop_last() =~= decimal(n / 10));
    } else if n < 10 {
    } else {
        assert(decimal(n).last() == digit_char((n % 10) as int));
    }
}

/// The number of decimal digits of `n`.
fn digit_count(n: u64) -> (c: u64)
    ensures
        c == decimal(n as nat).len(),
    decreases n,
{
    if n < 10 {
        1
    } else {
        let c = digit_count(n / 10);
        proof {
            assert(decimal(n as nat).len() == decimal((n / 10) as nat).len() + 1);
            lemma_decimal_len_bound((n / 10) as nat);
        }
        c + 1
    }
}

proof fn lemma_decimal_len_bound(n: nat)
    ensures
        decimal(n).len() <= n + 1,
    decreases n,
{
    if n >= 10 {
        lemma_decimal_len_bound(n / 10);
    }
}

pub fn format_units(amount: u64, decimals: u32) -> (r: String)
    ensures
        r@ == units_text(amount, decimals),
{
    let factor = scale(decimals);
    proof {
        lemma_pow10_grows(decimals as nat, decimals as nat);
    }
    let whole = (amount as u128) / factor;
    let fraction = (amount as u128) % factor;
    assert(fraction <= amount && whole <= amount) by (nonlinear_arith)
        requires
            factor > 0,
            fraction == (amount as u128) % factor,
            whole == (amount as u128) / factor,
    ;
    let mut out = String::new();
    push_decimal(&mut out, whole);
    if fraction == 0 {
        return out;
    }
    out.append(".");
    let frac = fraction as u64;
    let width = decimals as u64;
    let digits = digit_count(frac);
    let ghost fd = decimal(frac as nat);
    let mut z: u64 = 0;
    if digits < width {
        while z < width - digits
            invariant
                z <= width - digits,
                digits < width,
                out@ == decimal(whole as nat) + "."@ + zeros(z as nat),
            decreases width - digits - z,
        {
            out.append("0");
            proof {
                reveal_strlit("0");
                assert(zeros(z as nat).push('0') =~= zeros((z + 1) as nat));
            }
            z = z + 1;
        }
    }
    let mut rest = frac;
    while rest % 10 == 0
        invariant
            rest > 0,
            trim_zeros(decimal(rest as nat)) == trim_zeros(fd),
        decreases rest,
    {
        proof {
            lemma_trim_decimal(rest as nat);
        }
        rest = rest / 10;
    }
    proof {
        lemma_trim_decimal(rest as nat);
        lemma_decimal_first(frac as nat);
        lemma_trim_nonzero(fd);
        lemma_trim_prefix(zeros(z as nat), fd);
        if digits < width {
            assert(zero_padded(fd, decimals as nat) == zeros(z as nat) + fd);
        } else {
            assert(z == 0);
            assert(zeros(0) + fd =~= fd);
        }
        assert(trim_zeros(zero_padded(fd, decimals as nat)) == zeros(z as nat) + decimal(rest as nat));
    }
    push_decimal(&mut out, rest as u128);
    proof {
        assert(out@ =~= decimal(whole as nat) + "."@ + trim_zeros(zero_padded(fd, decimals as nat)));
    }
    out
}


/// An entry of the straps summary: the strap in a few characters, `x` and the amount.
pub open spec fn summary_part(e: (Strap, u64)) -> Seq<char> {
    compact(e.0) + "x"@ + decimal(e.1 as nat)
}

/// The board's line of owned straps: `none` when the player owns none; otherwise the
/// summary's straps, each with its amount, separated by commas; and whether more are owned.
pub fn format_owned_strap_summary(owned: &Vec<(Strap, u64)>) -> (r: (String, bool))
    ensures
        owned@.len() == 0 ==> r.0@ == "none"@ && !r.1,
        owned@.len() > 0 ==> {
            let t = tallied(owned@, None);
            let shown = if t.len() > SUMMARY_LENGTH {
                key_sorted(t).take(SUMMARY_LENGTH as int)
            } else {
                key_sorted(t)
            };
            &&& r.0@ == joined(shown.map_values(|e: (Strap, u64)| summary_part(e)), ", "@)
            &&& r.1 == (t.len() > SUMMARY_LENGTH)
        },
{
    if owned.len() == 0 {
        return ("none".to_owned(), false);
    }
    let (shown, more) = owned_strap_summary(owned);
    let ghost parts = shown@.map_values(|e: (Strap, u64)| summary_part(e));
    let mut out = String::new();
    let mut i: usize = 0;
    while i < shown.len()
        invariant
            i <= shown@.len(),
            parts == shown@.map_values(|e: (Strap, u64)| summary_part(e)),
            out@ == joined(parts.take(i as int), ", "@),
        decreases shown@.len() - i,
    {
        let (strap, amount) = shown[i];
        proof {
            lemma_joined_push(parts.take(i as int), ", "@, parts[i as int]);
            assert(parts.take(i + 1) =~= parts.take(i as int).push(parts[i as int]));
        }
        if i > 0 {
            out.append(", ");
        }
        let label = render_reward_compact(&strap);
        out.append(label.as_str());
        out.append("x");
        push_decimal(&mut out, amount as u128);
        i = i + 1;
    }
    proof {
        assert(parts.take(shown@.len() as int) =~= parts);
    }
    (out, more)
}


/// The name of a roll.
pub open spec fn roll_text(x: Roll) -> Seq<char> {
    match x {
        Roll::Two => "Two"@,
        Roll::Three => "Three"@,
        Roll::Four => "Four"@,
        Roll::Five => "Five"@,
        Roll::Six => "Six"@,
        Roll::Seven => "Seven"@,
        Roll::Eight => "Eight"@,
        Roll::Nine => "Nine"@,
        Roll::Ten => "Ten"@,
        Roll::Eleven => "Eleven"@,
        Roll::Twelve => "Twelve"@,
    }
}

pub fn roll_name(x: &Roll) -> (r: &'static str)
    ensures
        r@ == roll_text(*x),
{
    match x {
        Roll::Two => "Two",
        Roll::Three => "Three",
        Roll::Four => "Four",
        Roll::Five => "Five",
        Roll::Six => "Six",
        Roll::Seven => "Seven",
        Roll::Eight => "Eight",
        Roll::Nine => "Nine",
        Roll::Ten => "Ten",
        Roll::Eleven => "Eleven",
        Roll::Twelve => "Twelve",
    }
}

/// The name of a modifier.
pub open spec fn modifier_text(x: Modifier) -> Seq<char> {
    match x {
        Modifier::Nothing => "Nothing"@,
        Modifier::Burnt => "Burnt"@,
        Modifier::Lucky => "Lucky"@,
        Modifier::Holy => "Holy"@,
        Modifier::Holey => "Holey"@,
        Modifier::Scotch => "Scotch"@,
        Modifier::Soaked => "Soaked"@,
        Modifier::Moldy => "Moldy"@,
        Modifier::Starched => "Starched"@,
        Modifier::Evil => "Evil"@,
        Modifier::Groovy => "Groovy"@,
        Modifier::Delicate => "Delicate"@,
    }
}

pub fn modifier_name(x: &Modifier) -> (r: &'static str)
    ensures
        r@ == modifier_text(*x),
{
    match x {
        Modifier::Nothing => "Nothing",
        Modifier::Burnt => "Burnt",
        Modifier::Lucky => "Lucky",
        Modifier::Holy => "Holy",
        Modifier::Holey => "Holey",
        Modifier::Scotch => "Scotch",
        Modifier::Soaked => "Soaked",
        Modifier::Moldy => "Moldy",
        Modifier::Starched => "Starched",
        Modifier::Evil => "Evil",
        Modifier::Groovy => "Groovy",
        Modifier::Delicate => "Delicate",
    }
}


/// The name of a strap kind.
pub open spec fn kind_text(x: StrapKind) -> Seq<char> {
    match x {
        StrapKind::Shirt => "Shirt"@,
        StrapKind::Pants => "Pants"@,
        StrapKind::Shoes => "Shoes"@,
        StrapKind::Dress => "Dress"@,
        StrapKind::Hat => "Hat"@,
        StrapKind::Glasses => "Glasses"@,
        StrapKind::Watch => "Watch"@,
        StrapKind::Ring => "Ring"@,
        StrapKind::Necklace => "Necklace"@,
        StrapKind::Earring => "Earring"@,
        StrapKind::Bracelet => "Bracelet"@,
        StrapKind::Tattoo => "Tattoo"@,
        StrapKind::Skirt => "Skirt"@,
        StrapKind::Piercing => "Piercing"@,
        StrapKind::Coat => "Coat"@,
        StrapKind::Scarf => "Scarf"@,
        StrapKind::Gloves => "Gloves"@,
        StrapKind::Gown => "Gown"@,
        StrapKind::Belt => "Belt"@,
    }
}

pub fn strap_kind_name(x: &StrapKind) -> (r: &'static str)
    ensures
        r@ == kind_text(*x),
{
    match x {
        StrapKind::Shirt => "Shirt",
        StrapKind::Pants => "Pants",
        StrapKind::Shoes => "Shoes",
        StrapKind::Dress => "Dress",
        StrapKind::Hat => "Hat",
        StrapKind::Glasses => "Glasses",
        StrapKind::Watch => "Watch",
        StrapKind::Ring => "Ring",
        StrapKind::Necklace => "Necklace",
        StrapKind::Earring => "Earring",
        StrapKind::Bracelet => "Bracelet",
        StrapKind::Tattoo => "Tattoo",
        StrapKind::Skirt => "Skirt",
        StrapKind::Piercing => "Piercing",
        StrapKind::Coat => "Coat",
        StrapKind::Scarf => "Scarf",
        StrapKind::Gloves => "Gloves",
        StrapKind::Gown => "Gown",
        StrapKind::Belt => "Belt",
    }
}

/// The text followed by spaces up to `width` characters.
pub open spec fn pad_right(t: Seq<char>, width: nat) -> Seq<char> {
    if t.len() >= width {
        t
    } else {
        t + Seq::new((width - t.len()) as nat, |i: int| ' ')
    }
}

/// Appends `t` followed by spaces up to `width` characters.
pub fn push_padded(out: &mut String, t: &str, width: usize)
    ensures
        final(out)@ == old(out)@ + pad_right(t@, width as nat),
{
    out.append(t);
    let n = t.unicode_len();
    if n < width {
        let ghost start = out@;
        let mut k: usize = n;
        while k < width
            invariant
                n <= k <= width,
                out@ == start + Seq::new((k - n) as nat, |i: int| ' '),
            decreases width - k,
        {
            out.append(" ");
            proof {
                reveal_strlit(" ");
                assert(Seq::new((k - n) as nat, |i: int| ' ').push(' ') =~= Seq::new((k + 1 - n) as nat, |i: int| ' '));
            }
            k = k + 1;
        }
        proof {
            assert(out@ =~= old(out)@ + pad_right(t@, width as nat));
        }
    }
}


/// The number that decimal digits stand for, read left to right.
pub open spec fn digits_value(s: Seq<char>) -> int
    decreases s.len(),
{
    if s.len() == 0 {
        0
    } else {
        digits_value(s.drop_last()) * 10 + (s.last() as int - '0' as int)
    }
}

proof fn lemma_digit_char_value(d: int)
    requires
        0 <= d < 10,
    ensures
        digit_char(d) as int - '0' as int == d,
{
}

/// A number written in decimal is a nonempty run of the digits `0` to `9` that reads back
/// as the number, with no leading zero unless the number is zero.
pub proof fn law_decimal_reads_back(n: nat)
    ensures
        decimal(n).len() > 0,
        forall|i: int| 0 <= i < decimal(n).len() ==> '0' <= #[trigger] decimal(n)[i] <= '9',
        digits_value(decimal(n)) == n,
        n > 0 ==> decimal(n)[0] != '0',
    decreases n,
{
    lemma_digit_char_value((n % 10) as int);
    if n < 10 {
        assert(n % 10 == n);
        let one = seq![digit_char(n as int)];
        assert(one.drop_last() =~= Seq::<char>::empty());
        assert(digits_value(one) == digits_value(one.drop_last()) * 10 + (one.last() as int - '0' as int));
    }
    if n >= 10 {
        law_decimal_reads_back(n / 10);
        let head = decimal(n / 10);
        let d = digit_char((n % 10) as int);
        assert(decimal(n) == head + seq![d]);
        assert((head + seq![d]).drop_last() =~= head);
        assert(digits_value(decimal(n)) == digits_value(head) * 10 + (d as int - '0' as int));
        assert(n == (n / 10) * 10 + n % 10);
        assert forall|i: int| 0 <= i < decimal(n).len() implies '0' <= #[trigger] decimal(n)[i] <= '9' by {
            if i < head.len() {
                assert(decimal(n)[i] == head[i]);
            }
        }
        assert(decimal(n)[0] == head[0]);
    }
}

} // verus!
