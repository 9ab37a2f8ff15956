//! Game arithmetic shared with the contract: payouts, the straps and modifier triggers that
//! a random seed yields, and the mapping between dice rolls and VRF numbers.
use vstd::prelude::*;
use vstd::arithmetic::power2::pow2;
use crate::types::{Modifier, Roll, Strap, StrapKind, roll_index};

verus! {

/// Payout multipliers of the contract, one (numerator, denominator) pair per roll.
#[derive(Clone, Copy, Debug)]
pub struct PayoutConfig {
    pub two_payout_multiplier: (u64, u64),
    pub three_payout_multiplier: (u64, u64),
    pub four_payout_multiplier: (u64, u64),
    pub five_payout_multiplier: (u64, u64),
    pub six_payout_multiplier: (u64, u64),
    pub seven_payout_multiplier: (u64, u64),
    pub eight_payout_multiplier: (u64, u64),
    pub nine_payout_multiplier: (u64, u64),
    pub ten_payout_multiplier: (u64, u64),
    pub eleven_payout_multiplier: (u64, u64),
    pub twelve_payout_multiplier: (u64, u64),
}

/// The multiplier pair of a roll.
pub open spec fn multiplier_of(cfg: PayoutConfig, roll: Roll) -> (u64, u64) {
    match roll {
        Roll::Two => cfg.two_payout_multiplier,
        Roll::Three => cfg.three_payout_multiplier,
        Roll::Four => cfg.four_payout_multiplier,
        Roll::Five => cfg.five_payout_multiplier,
        Roll::Six => cfg.six_payout_multiplier,
        Roll::Seven => cfg.seven_payout_multiplier,
        Roll::Eight => cfg.eight_payout_multiplier,
        Roll::Nine => cfg.nine_payout_multiplier,
        Roll::Ten => cfg.ten_payout_multiplier,
        Roll::Eleven => cfg.eleven_payout_multiplier,
        Roll::Twelve => cfg.twelve_payout_multiplier,
    }
}

/// What a winning bet of `principal` on `roll` pays: whole units of the denominator,
/// times the numerator.
pub open spec fn payout_spec(cfg: PayoutConfig, roll: Roll, principal: u64) -> int {
    (principal / multiplier_of(cfg, roll).1) * multiplier_of(cfg, roll).0
}

pub fn calculate_payout(cfg: &PayoutConfig, roll: &Roll, principal: u64) -> (payout: u64)
    requires
        multiplier_of(*cfg, *roll).1 != 0,
        payout_spec(*cfg, *roll, principal) <= u64::MAX,
    ensures
        payout == payout_spec(*cfg, *roll, principal),
{
    let numerator = payout_numerator(cfg, roll);
    let denominator = payout_denominator(cfg, roll);
    (principal / denominator) * numerator
}

pub fn payout_numerator(cfg: &PayoutConfig, roll: &Roll) -> (n: u64)
    ensures
        n == multiplier_of(*cfg, *roll).0,
{
    match roll {
        Roll::Two => cfg.two_payout_multiplier.0,
        Roll::Three => cfg.three_payout_multiplier.0,
        Roll::Four => cfg.four_payout_multiplier.0,
        Roll::Five => cfg.five_payout_multiplier.0,
        Roll::Six => cfg.six_payout_multiplier.0,
        Roll::Seven => cfg.seven_payout_multiplier.0,
        Roll::Eight => cfg.eight_payout_multiplier.0,
        Roll::Nine => cfg.nine_payout_multiplier.0,
        Roll::Ten => cfg.ten_payout_multiplier.0,
        Roll::Eleven => cfg.eleven_payout_multiplier.0,
        Roll::Twelve => cfg.twelve_payout_multiplier.0,
    }
}

pub fn payout_denominator(cfg: &PayoutConfig, roll: &Roll) -> (d: u64)
    ensures
        d == multiplier_of(*cfg, *roll).1,
{
    match roll {
        Roll::Two => cfg.two_payout_multiplier.1,
        Roll::Three => cfg.three_payout_multiplier.1,
        Roll::Four => cfg.four_payout_multiplier.1,
        Roll::Five => cfg.five_payout_multiplier.1,
        Roll::Six => cfg.six_payout_multiplier.1,
        Roll::Seven => cfg.seven_payout_multiplier.1,
        Roll::Eight => cfg.eight_payout_multiplier.1,
        Roll::Nine => cfg.nine_payout_multiplier.1,
        Roll::Ten => cfg.ten_payout_multiplier.1,
        Roll::Eleven => cfg.eleven_payout_multiplier.1,
        Roll::Twelve => cfg.twelve_payout_multiplier.1,
    }
}

/// The strap kind drawn by `m = num % 141`, by weight: three common kinds of weight 20,
/// four of weight 10, six of weight 5 and four of weight 2 or less.
pub open spec fn strap_kind_for(m: int) -> StrapKind {
    if m < 20 {
        StrapKind::Shirt
    } else if m < 40 {
        StrapKind::Pants
    } else if m < 60 {
        StrapKind::Shoes
    } else if m < 70 {
        StrapKind::Hat
    } else if m < 80 {
        StrapKind::Glasses
    } else if m < 90 {
        StrapKind::Watch
    } else if m < 100 {
        StrapKind::Ring
    } else if m < 105 {
        StrapKind::Necklace
    } else if m < 110 {
        StrapKind::Earring
    } else if m < 115 {
        StrapKind::Bracelet
    } else if m < 120 {
        StrapKind::Tattoo
    } else if m < 125 {
        StrapKind::Skirt
    } else if m < 130 {
        StrapKind::Piercing
    } else if m < 135 {
        StrapKind::Coat
    } else if m < 137 {
        StrapKind::Scarf
    } else if m < 139 {
        StrapKind::Gloves
    } else if m < 141 {
        StrapKind::Gown
    } else {
        StrapKind::Belt
    }
}

/// The level-one, unmodified strap that a number yields.
pub open spec fn strap_for(num: u64) -> Strap {
    Strap { level: 1, kind: strap_kind_for((num % 141) as int), modifier: Modifier::Nothing }
}

pub fn u64_to_strap(num: u64) -> (strap: Strap)
    ensures
        strap == strap_for(num),
{
    let level: u8 = 1;
    let modifier = Modifier::Nothing;
    let modulo: u64 = num % 141;
    let kind = if modulo < 20 {
        StrapKind::Shirt
    } else if modulo < 40 {
        StrapKind::Pants
    } else if modulo < 60 {
        StrapKind::Shoes
    } else if modulo < 70 {
        StrapKind::Hat
    } else if modulo < 80 {
        StrapKind::Glasses
    } else if modulo < 90 {
        StrapKind::Watch
    } else if modulo < 100 {
        StrapKind::Ring
    } else if modulo < 105 {
        StrapKind::Necklace
    } else if modulo < 110 {
        StrapKind::Earring
    } else if modulo < 115 {
        StrapKind::Bracelet
    } else if modulo < 120 {
        StrapKind::Tattoo
    } else if modulo < 125 {
        StrapKind::Skirt
    } else if modulo < 130 {
        StrapKind::Piercing
    } else if modulo < 135 {
        StrapKind::Coat
    } else if modulo < 137 {
        StrapKind::Scarf
    } else if modulo < 139 {
        StrapKind::Gloves
    } else if modulo < 141 {
        StrapKind::Gown
    } else {
        StrapKind::Belt
    };
    Strap::new(level, kind, modifier)
}

/// The board slot (never `Seven`) that a number yields.
pub open spec fn slot_for(num: u64) -> Roll {
    let m = num % 10;
    if m == 0 {
        Roll::Two
    } else if m == 1 {
        Roll::Three
    } else if m == 2 {
        Roll::Four
    } else if m == 3 {
        Roll::Five
    } else if m == 4 {
        Roll::Six
    } else if m == 5 {
        Roll::Eight
    } else if m == 6 {
        Roll::Nine
    } else if m == 7 {
        Roll::Ten
    } else if m == 8 {
        Roll::Eleven
    } else {
        Roll::Twelve
    }
}

pub fn u64_to_slot(num: u64) -> (roll: Roll)
    ensures
        roll == slot_for(num),
{
    match num % 10 {
        0 => Roll::Two,
        1 => Roll::Three,
        2 => Roll::Four,
        3 => Roll::Five,
        4 => Roll::Six,
        5 => Roll::Eight,
        6 => Roll::Nine,
        7 => Roll::Ten,
        8 => Roll::Eleven,
        _ => Roll::Twelve,
    }
}

/// The price of a strap, by the rarity of its kind.
pub open spec fn strap_cost_spec(strap: Strap) -> u64 {
    match strap.kind {
        StrapKind::Shirt | StrapKind::Pants | StrapKind::Shoes | StrapKind::Dress => 10,
        StrapKind::Hat | StrapKind::Glasses | StrapKind::Watch | StrapKind::Ring => 20,
        StrapKind::Necklace | StrapKind::Earring | StrapKind::Bracelet | StrapKind::Tattoo
        | StrapKind::Skirt | StrapKind::Piercing => 50,
        StrapKind::Coat | StrapKind::Scarf | StrapKind::Gloves | StrapKind::Gown => 100,
        StrapKind::Belt => 200,
    }
}

pub fn strap_to_cost(strap: &Strap) -> (cost: u64)
    ensures
        cost == strap_cost_spec(*strap),
{
    match strap.kind {
        StrapKind::Shirt => 10,
        StrapKind::Pants => 10,
        StrapKind::Shoes => 10,
        StrapKind::Dress => 10,
        StrapKind::Hat => 20,
        StrapKind::Glasses => 20,
        StrapKind::Watch => 20,
        StrapKind::Ring => 20,
        StrapKind::Necklace => 50,
        StrapKind::Earring => 50,
        StrapKind::Bracelet => 50,
        StrapKind::Tattoo => 50,
        StrapKind::Skirt => 50,
        StrapKind::Piercing => 50,
        StrapKind::Coat => 100,
        StrapKind::Scarf => 100,
        StrapKind::Gloves => 100,
        StrapKind::Gown => 100,
        StrapKind::Belt => 200,
    }
}

/// `base` to the power `k`.
pub open spec fn power(base: nat, k: nat) -> nat
    decreases k,
{
    if k == 0 {
        1
    } else {
        base * power(base, (k - 1) as nat)
    }
}

pub proof fn lemma_power_monotone(base: nat, j: nat, k: nat)
    requires
        base >= 1,
        j <= k,
    ensures
        1 <= power(base, j) <= power(base, k),
    decreases k,
{
    if k > 0 {
        if j < k {
            lemma_power_monotone(base, j, (k - 1) as nat);
        } else {
            lemma_power_monotone(base, (k - 1) as nat, (k - 1) as nat);
        }
        assert(power(base, k) == base * power(base, (k - 1) as nat));
        assert(power(base, (k - 1) as nat) <= base * power(base, (k - 1) as nat)) by (nonlinear_arith)
            requires
                base >= 1,
                power(base, (k - 1) as nat) >= 1,
        ;
    }
}

pub proof fn lemma_divisor_at_most(n: int, m: int)
    requires
        n > 0,
        m > 0,
        n % m == 0,
    ensures
        m <= n,
{
    assert(m <= n) by (nonlinear_arith)
        requires
            n > 0,
            m > 0,
            n % m == 0,
    {
        assert(n == m * (n / m) + n % m);
        assert(n / m >= 1);
    }
}

/// The measure by which the divisor chains below terminate.
pub open spec fn chain_measure(seed: u64, multiple: nat) -> int {
    if multiple <= seed {
        seed - multiple + 1
    } else {
        0
    }
}

/// A reward on the board: its slot, the strap and its price.
pub open spec fn reward_for(inner: u64) -> (Roll, Strap, u64) {
    (slot_for(inner), strap_for(inner), strap_cost_spec(strap_for(inner)))
}

/// The rewards that `seed` yields, from `multiple` on: one for each power of two
/// `multiple, 2*multiple, ...` that divides the seed, drawn from the quotient.
pub open spec fn straps_from(seed: u64, multiple: nat) -> Seq<(Roll, Strap, u64)>
    decreases chain_measure(seed, multiple),
{
    if multiple >= 1 && seed != 0 && (seed as nat) % multiple == 0 {
        proof {
            lemma_divisor_at_most(seed as int, multiple as int);
        }
        seq![reward_for(((seed as nat) / multiple) as u64)] + straps_from(seed, multiple * 2)
    } else {
        seq![]
    }
}

/// The strap rewards that a seed generates.
pub fn generate_straps(seed: u64) -> (straps: Vec<(Roll, Strap, u64)>)
    requires
        seed != 0x8000_0000_0000_0000,
    ensures
        straps@ == straps_from(seed, 1),
        seed == 0 ==> straps@.len() == 0,
        seed != 0 ==> straps@.len() == trailing_zeros(seed as nat) + 1,
        forall|k: int| 0 <= k < straps@.len() ==> #[trigger] straps@[k] == reward_for(seed >> (k as u64)),
        forall|k: int| 0 <= k < straps@.len() ==> (#[trigger] straps@[k]).0 != Roll::Seven,
{
    proof {
        law_straps_follow_seed_bits(seed);
        law_generated_rewards_are_plain(seed, 1);
    }
    let mut straps: Vec<(Roll, Strap, u64)> = Vec::new();
    let mut multiple: u64 = 1;
    let ghost mut k: nat = 0;
    proof {
        reveal_with_fuel(power, 64);
    }
    while seed % multiple == 0 && seed != 0
        invariant
            seed != 0x8000_0000_0000_0000,
            k <= 63,
            multiple >= 1,
            multiple == power(2, k),
            power(2, 62) == 0x4000_0000_0000_0000,
            power(2, 63) == 0x8000_0000_0000_0000,
            straps@ + straps_from(seed, multiple as nat) == straps_from(seed, 1),
        decreases 64 - k,
    {
        proof {
            lemma_power_monotone(2, 0, k);
            if k == 63 {
                assert(seed % 0x8000_0000_0000_0000u64 == 0);
                assert(seed == 0x8000_0000_0000_0000);
            }
            lemma_power_monotone(2, k, 62);
        }
        let inner: u64 = seed / multiple;
        let strap = u64_to_strap(inner);
        let slot = u64_to_slot(inner);
        let cost: u64 = strap_to_cost(&strap);
        let ghost before = straps@;
        straps.push((slot, strap, cost));
        assert(straps_from(seed, multiple as nat) == seq![reward_for(inner)] + straps_from(
            seed,
            (multiple * 2) as nat,
        ));
        assert(straps@ + straps_from(seed, (multiple * 2) as nat) =~= before + straps_from(
            seed,
            multiple as nat,
        ));
        multiple = multiple * 2;
        proof {
            k = k + 1;
            assert(power(2, k) == 2 * power(2, (k - 1) as nat));
        }
    }
    assert(straps_from(seed, multiple as nat) =~= seq![]);
    assert(straps@ =~= straps@ + straps_from(seed, multiple as nat));
    straps
}

/// The VRF number that makes the contract roll `roll`.
pub open spec fn vrf_number_for(roll: Roll) -> u64 {
    match roll {
        Roll::Two => 0,
        Roll::Three => 1,
        Roll::Four => 3,
        Roll::Five => 6,
        Roll::Six => 10,
        Roll::Seven => 15,
        Roll::Eight => 21,
        Roll::Nine => 26,
        Roll::Ten => 30,
        Roll::Eleven => 33,
        Roll::Twelve => 35,
    }
}

pub fn roll_to_vrf_number(roll: &Roll) -> (n: u64)
    ensures
        n == vrf_number_for(*roll),
{
    match roll {
        Roll::Two => 0,
        Roll::Three => 1,
        Roll::Four => 3,
        Roll::Five => 6,
        Roll::Six => 10,
        Roll::Seven => 15,
        Roll::Eight => 21,
        Roll::Nine => 26,
        Roll::Ten => 30,
        Roll::Eleven => 33,
        Roll::Twelve => 35,
    }
}

/// The roll a VRF number yields: `num % 36` read as one of the 36 outcomes of two dice.
pub open spec fn roll_for_vrf(num: u64) -> Roll {
    let m = num % 36;
    if m == 0 {
        Roll::Two
    } else if m <= 2 {
        Roll::Three
    } else if m <= 5 {
        Roll::Four
    } else if m <= 9 {
        Roll::Five
    } else if m <= 14 {
        Roll::Six
    } else if m <= 20 {
        Roll::Seven
    } else if m <= 25 {
        Roll::Eight
    } else if m <= 29 {
        Roll::Nine
    } else if m <= 32 {
        Roll::Ten
    } else if m <= 34 {
        Roll::Eleven
    } else {
        Roll::Twelve
    }
}

pub fn vrf_to_roll(num: u64) -> (roll: Roll)
    ensures
        roll == roll_for_vrf(num),
{
    let modulo: u64 = num % 36;
    if modulo == 0 {
        Roll::Two
    } else if modulo <= 2 {
        Roll::Three
    } else if modulo <= 5 {
        Roll::Four
    } else if modulo <= 9 {
        Roll::Five
    } else if modulo <= 14 {
        Roll::Six
    } else if modulo <= 20 {
        Roll::Seven
    } else if modulo <= 25 {
        Roll::Eight
    } else if modulo <= 29 {
        Roll::Nine
    } else if modulo <= 32 {
        Roll::Ten
    } else if modulo <= 34 {
        Roll::Eleven
    } else {
        Roll::Twelve
    }
}

/// Setting the VRF to the number chosen for a roll makes the contract roll exactly that roll.
pub proof fn lemma_vrf_number_rolls_back(roll: Roll)
    ensures
        roll_for_vrf(vrf_number_for(roll)) == roll,
{
}

/// How many of the VRF numbers below `n` yield `roll`.
pub open spec fn vrf_count(roll: Roll, n: nat) -> nat
    decreases n,
{
    if n == 0 {
        0
    } else {
        vrf_count(roll, (n - 1) as nat) + if roll_for_vrf((n - 1) as u64) == roll {
            1nat
        } else {
            0nat
        }
    }
}

/// The number of ways two dice show the sum `s` of a roll: `6 - |s - 7|`.
pub open spec fn dice_ways(roll: Roll) -> int {
    let s = roll_index(roll) + 2;
    6 - (if s >= 7 {
        s - 7
    } else {
        7 - s
    })
}

/// A VRF number yields the same roll as its remainder by 36, and of the 36 remainders each
/// roll takes as many as two dice have ways to show its sum: one for `Two` and `Twelve`,
/// six for `Seven`.
pub proof fn law_vrf_rolls_follow_two_dice(num: u64, roll: Roll)
    ensures
        roll_for_vrf(num) == roll_for_vrf(num % 36),
        vrf_count(roll, 36) == dice_ways(roll),
{
    reveal_with_fuel(vrf_count, 37);
    match roll {
        Roll::Two => { assert(vrf_count(Roll::Two, 36) == dice_ways(Roll::Two)); },
        Roll::Three => { assert(vrf_count(Roll::Three, 36) == dice_ways(Roll::Three)); },
        Roll::Four => { assert(vrf_count(Roll::Four, 36) == dice_ways(Roll::Four)); },
        Roll::Five => { assert(vrf_count(Roll::Five, 36) == dice_ways(Roll::Five)); },
        Roll::Six => { assert(vrf_count(Roll::Six, 36) == dice_ways(Roll::Six)); },
        Roll::Seven => { assert(vrf_count(Roll::Seven, 36) == dice_ways(Roll::Seven)); },
        Roll::Eight => { assert(vrf_count(Roll::Eight, 36) == dice_ways(Roll::Eight)); },
        Roll::Nine => { assert(vrf_count(Roll::Nine, 36) == dice_ways(Roll::Nine)); },
        Roll::Ten => { assert(vrf_count(Roll::Ten, 36) == dice_ways(Roll::Ten)); },
        Roll::Eleven => { assert(vrf_count(Roll::Eleven, 36) == dice_ways(Roll::Eleven)); },
        Roll::Twelve => { assert(vrf_count(Roll::Twelve, 36) == dice_ways(Roll::Twelve)); },
    }
}

/// The modifier, and the roll it applies to, that a number yields.
pub open spec fn modifier_for(num: u64) -> (Roll, Modifier) {
    let m = num % 11;
    if m == 0 {
        (Roll::Two, Modifier::Burnt)
    } else if m == 1 {
        (Roll::Three, Modifier::Lucky)
    } else if m == 2 {
        (Roll::Four, Modifier::Holy)
    } else if m == 3 {
        (Roll::Five, Modifier::Holey)
    } else if m == 4 {
        (Roll::Six, Modifier::Scotch)
    } else if m == 8 {
        (Roll::Seven, Modifier::Evil)
    } else if m == 5 {
        (Roll::Eight, Modifier::Soaked)
    } else if m == 6 {
        (Roll::Nine, Modifier::Moldy)
    } else if m == 7 {
        (Roll::Ten, Modifier::Starched)
    } else if m == 9 {
        (Roll::Eleven, Modifier::Groovy)
    } else {
        (Roll::Twelve, Modifier::Delicate)
    }
}

pub fn u64_to_modifier(num: u64) -> (r: (Roll, Modifier))
    ensures
        r == modifier_for(num),
{
    match num % 11 {
        0 => (Roll::Two, Modifier::Burnt),
        1 => (Roll::Three, Modifier::Lucky),
        2 => (Roll::Four, Modifier::Holy),
        3 => (Roll::Five, Modifier::Holey),
        4 => (Roll::Six, Modifier::Scotch),
        8 => (Roll::Seven, Modifier::Evil),
        5 => (Roll::Eight, Modifier::Soaked),
        6 => (Roll::Nine, Modifier::Moldy),
        7 => (Roll::Ten, Modifier::Starched),
        9 => (Roll::Eleven, Modifier::Groovy),
        _ => (Roll::Twelve, Modifier::Delicate),
    }
}

/// The roll that triggers a modifier, drawn from a number.
pub open spec fn trigger_for(num: u64) -> Roll {
    let m = num % 4;
    if m == 0 {
        Roll::Two
    } else if m == 1 {
        Roll::Three
    } else if m == 2 {
        Roll::Eleven
    } else {
        Roll::Twelve
    }
}

pub fn u64_to_trigger_roll(num: u64) -> (roll: Roll)
    ensures
        roll == trigger_for(num),
{
    match num % 4 {
        0 => Roll::Two,
        1 => Roll::Three,
        2 => Roll::Eleven,
        _ => Roll::Twelve,
    }
}

/// The modifier triggers that `roll` yields from `multiple` on: one candidate for each power
/// of three `multiple, 3*multiple, ...` that divides it, drawn from the quotient, of which only
/// the first for each modifier roll is kept (`seen` holds the board positions already taken).
pub open spec fn triggers_from(roll: u64, multiple: nat, seen: Set<int>) -> Seq<(Roll, Roll, Modifier)>
    decreases chain_measure(roll, multiple),
{
    if multiple >= 1 && roll != 0 && (roll as nat) % multiple == 0 {
        proof {
            lemma_divisor_at_most(roll as int, multiple as int);
        }
        let inner = ((roll as nat) / multiple) as u64;
        let (modifier_roll, modifier) = modifier_for(inner);
        let trigger_roll = trigger_for(inner);
        let idx = roll_index(modifier_roll);
        if !seen.contains(idx) {
            seq![(trigger_roll, modifier_roll, modifier)] + triggers_from(
                roll,
                multiple * 3,
                seen.insert(idx),
            )
        } else {
            triggers_from(roll, multiple * 3, seen)
        }
    } else {
        seq![]
    }
}

/// The modifier triggers that a roll of the VRF generates.
pub fn modifier_triggers_for_roll(roll: u64) -> (triggers: Vec<(Roll, Roll, Modifier)>)
    requires
        roll != 12157665459056928801,
    ensures
        triggers@ == triggers_from(roll, 1, Set::empty()),
        roll == 0 ==> triggers@.len() == 0,
        triggers@.len() <= 11,
        roll != 0 ==> triggers@.len() > 0 && triggers@[0] == trigger_entry(roll),
        forall|i: int, j: int|
            0 <= i < j < triggers@.len() ==> (#[trigger] triggers@[i]).1 != (#[trigger] triggers@[j]).1,
        exists|ks: Seq<nat>| #[trigger] drawn_at(roll, 0, triggers@, ks),
        first_quotients_drawn(roll, 0, triggers@),
{
    proof {
        law_triggers_follow_powers_of_three(roll);
        law_triggers_have_distinct_modifier_rolls(roll, 1, Set::empty());
    }
    broadcast use vstd::array::group_array_axioms;

    let mut seen = [false;11];
    let mut triggers: Vec<(Roll, Roll, Modifier)> = Vec::new();
    let mut multiple: u64 = 1;
    let ghost mut k: nat = 0;
    let ghost mut seen_set: Set<int> = Set::empty();
    proof {
        reveal_with_fuel(power, 41);
    }
    while roll % multiple == 0 && roll != 0
        invariant
            roll != 12157665459056928801,
            k <= 40,
            multiple >= 1,
            multiple == power(3, k),
            power(3, 39) == 4052555153018976267,
            power(3, 40) == 12157665459056928801,
            forall|i: int| 0 <= i < 11 ==> (seen[i] <==> seen_set.contains(i)),
            forall|i: int| seen_set.contains(i) ==> 0 <= i < 11,
            triggers@ + triggers_from(roll, multiple as nat, seen_set) == triggers_from(
                roll,
                1,
                Set::empty(),
            ),
        decreases 41 - k,
    {
        proof {
            lemma_power_monotone(3, 0, k);
            if k == 40 {
                assert(roll % 12157665459056928801u64 == 0);
                assert(roll == 12157665459056928801);
            }
            lemma_power_monotone(3, k, 39);
        }
        let inner: u64 = roll / multiple;
        let (modifier_roll, modifier) = u64_to_modifier(inner);
        let trigger_roll = u64_to_trigger_roll(inner);
        let index = crate::types::roll_to_index(&modifier_roll);
        let ghost before = triggers@;
        if !seen[index] {
            triggers.push((trigger_roll, modifier_roll, modifier));
            seen[index] = true;
            proof {
                assert(triggers_from(roll, multiple as nat, seen_set) == seq![
                    (trigger_roll, modifier_roll, modifier),
                ] + triggers_from(roll, (multiple * 3) as nat, seen_set.insert(index as int)));
                assert(triggers@ + triggers_from(roll, (multiple * 3) as nat, seen_set.insert(index as int))
                    =~= before + triggers_from(roll, multiple as nat, seen_set));
                seen_set = seen_set.insert(index as int);
            }
        } else {
            assert(triggers_from(roll, multiple as nat, seen_set) == triggers_from(
                roll,
                (multiple * 3) as nat,
                seen_set,
            ));
        }
        multiple = multiple * 3;
        proof {
            k = k + 1;
            assert(power(3, k) == 3 * power(3, (k - 1) as nat));
        }
    }
    assert(triggers_from(roll, multiple as nat, seen_set) =~= seq![]);
    assert(triggers@ =~= triggers@ + triggers_from(roll, multiple as nat, seen_set));
    triggers
}

/// Every reward that a seed generates sits on a slot other than `Seven` and offers a
/// level-one, unmodified strap at the price of its kind.
pub proof fn law_generated_rewards_are_plain(seed: u64, multiple: nat)
    ensures
        forall|i: int|
            0 <= i < straps_from(seed, multiple).len() ==> {
                let (slot, strap, cost) = #[trigger] straps_from(seed, multiple)[i];
                &&& slot != Roll::Seven
                &&& strap.level == 1
                &&& strap.modifier == Modifier::Nothing
                &&& cost == strap_cost_spec(strap)
            },
    decreases chain_measure(seed, multiple),
{
    if multiple >= 1 && seed != 0 && (seed as nat) % multiple == 0 {
        lemma_divisor_at_most(seed as int, multiple as int);
        law_generated_rewards_are_plain(seed, multiple * 2);
        let rest = straps_from(seed, multiple * 2);
        let head = reward_for(((seed as nat) / multiple) as u64);
        assert(straps_from(seed, multiple) == seq![head] + rest);
        assert forall|i: int| 1 <= i < straps_from(seed, multiple).len() implies straps_from(seed, multiple)[i]
            == rest[i - 1] by {}
    }
}

/// The number of trailing zero bits of a positive number.
pub open spec fn trailing_zeros(x: nat) -> nat
    decreases x,
{
    if x == 0 || x % 2 == 1 {
        0
    } else {
        1 + trailing_zeros(x / 2)
    }
}

proof fn lemma_even_halves(y: nat, m: nat)
    requires
        m >= 1,
    ensures
        (2 * y) % (2 * m) == 2 * (y % m),
        (2 * y) / (2 * m) == y / m,
{
    vstd::arithmetic::div_mod::lemma_fundamental_div_mod(y as int, m as int);
    let q = y / m;
    let r = y % m;
    assert(2 * y == q * (2 * m) + 2 * r) by (nonlinear_arith)
        requires
            y == m * q + r,
    ;
    vstd::arithmetic::div_mod::lemma_fundamental_div_mod_converse((2 * y) as int, (2 * m) as int, q as int, (2 * r) as int);
}

proof fn lemma_straps_of_even_seed(x: u64, m: nat)
    requires
        x % 2 == 0,
        m >= 1,
    ensures
        straps_from(x, 2 * m) == straps_from((x / 2) as u64, m),
    decreases chain_measure((x / 2) as u64, m),
{
    let y = (x / 2) as u64;
    lemma_even_halves(y as nat, m);
    assert(x as nat == 2 * (y as nat));
    if y != 0 && (y as nat) % m == 0 {
        lemma_divisor_at_most(y as int, m as int);
        lemma_straps_of_even_seed(x, 2 * m);
        assert(2 * (2 * m) == 2 * m * 2);
    }
}

proof fn lemma_straps_by_halving(x: u64)
    requires
        x != 0,
    ensures
        straps_from(x, 1).len() == trailing_zeros(x as nat) + 1,
        forall|k: int|
            0 <= k < straps_from(x, 1).len() ==> {
                &&& #[trigger] straps_from(x, 1)[k] == reward_for((x as nat / pow2(k as nat)) as u64)
                &&& x as nat / pow2(k as nat) >= 1
            },
    decreases x,
{
    let all = straps_from(x, 1);
    assert(all == seq![reward_for(x)] + straps_from(x, 2));
    vstd::arithmetic::power2::lemma2_to64();
    if x % 2 == 1 {
        assert(straps_from(x, 2) =~= seq![]);
        assert(all[0] == reward_for(x));
    } else {
        let y = (x / 2) as u64;
        lemma_straps_of_even_seed(x, 1);
        lemma_straps_by_halving(y);
        let rest = straps_from(y, 1);
        assert forall|k: int| 0 <= k < all.len() implies {
            &&& #[trigger] all[k] == reward_for((x as nat / pow2(k as nat)) as u64)
            &&& x as nat / pow2(k as nat) >= 1
        } by {
            if k > 0 {
                assert(all[k] == rest[k - 1]);
                vstd::arithmetic::power2::lemma_pow2_unfold(k as nat);
                vstd::arithmetic::power2::lemma_pow2_pos((k - 1) as nat);
                vstd::arithmetic::div_mod::lemma_div_denominator(x as int, 2, pow2((k - 1) as nat) as int);
                assert(pow2(k as nat) == 2 * pow2((k - 1) as nat));
            }
        }
    }
}

/// A nonzero seed yields one reward more than it has trailing zero bits, at most 64, the
/// k-th drawn from the seed shifted right by k; a zero seed yields none.
pub proof fn law_straps_follow_seed_bits(seed: u64)
    ensures
        seed == 0 ==> straps_from(seed, 1).len() == 0,
        seed != 0 ==> straps_from(seed, 1).len() == trailing_zeros(seed as nat) + 1,
        straps_from(seed, 1).len() <= 64,
        forall|k: int|
            0 <= k < straps_from(seed, 1).len() ==> #[trigger] straps_from(seed, 1)[k] == reward_for(
                seed >> (k as u64),
            ),
{
    if seed != 0 {
        lemma_straps_by_halving(seed);
        let n = straps_from(seed, 1).len() as int;
        let k = n - 1;
        vstd::arithmetic::power2::lemma2_to64();
        vstd::arithmetic::power2::lemma_pow2_pos(k as nat);
        assert(straps_from(seed, 1)[k] == reward_for((seed as nat / pow2(k as nat)) as u64));
        assert(seed as nat / pow2(k as nat) >= 1);
        if k >= 64 {
            if k > 64 {
                vstd::arithmetic::power2::lemma_pow2_strictly_increases(64, k as nat);
            }
            assert(seed as nat / pow2(k as nat) == 0) by (nonlinear_arith)
                requires
                    seed as nat <= 0xffff_ffff_ffff_ffff,
                    pow2(k as nat) >= 0x1_0000_0000_0000_0000,
            ;
        }
        assert(n - 1 < 64);
        assert forall|k: int| 0 <= k < straps_from(seed, 1).len() implies #[trigger] straps_from(
            seed,
            1,
        )[k] == reward_for(seed >> (k as u64)) by {
            assert(k < 64);
            assert((k as u64) < u64::BITS);
            vstd::bits::lemma_u64_shr_is_div(seed, k as u64);
            assert((k as u64) as nat == k as nat);
        }
    } else {
        assert(straps_from(seed, 1).len() == 0);
    }
}

/// The triggers that a roll generates name each modifier roll at most once, and none whose
/// board position is already in `seen`.
pub proof fn law_triggers_have_distinct_modifier_rolls(roll: u64, multiple: nat, seen: Set<int>)
    ensures
        forall|i: int|
            0 <= i < triggers_from(roll, multiple, seen).len() ==> !seen.contains(
                roll_index((#[trigger] triggers_from(roll, multiple, seen)[i]).1),
            ),
        forall|i: int, j: int|
            0 <= i < j < triggers_from(roll, multiple, seen).len() ==> (#[trigger] triggers_from(
                roll,
                multiple,
                seen,
            )[i]).1 != (#[trigger] triggers_from(roll, multiple, seen)[j]).1,
    decreases chain_measure(roll, multiple),
{
    if multiple >= 1 && roll != 0 && (roll as nat) % multiple == 0 {
        lemma_divisor_at_most(roll as int, multiple as int);
        let inner = ((roll as nat) / multiple) as u64;
        let (modifier_roll, modifier) = modifier_for(inner);
        let trigger_roll = trigger_for(inner);
        let idx = roll_index(modifier_roll);
        let all = triggers_from(roll, multiple, seen);
        if !seen.contains(idx) {
            law_triggers_have_distinct_modifier_rolls(roll, multiple * 3, seen.insert(idx));
            let rest = triggers_from(roll, multiple * 3, seen.insert(idx));
            assert(all == seq![(trigger_roll, modifier_roll, modifier)] + rest);
            assert forall|i: int| 1 <= i < all.len() implies all[i] == rest[i - 1] by {}
            assert forall|i: int, j: int| 0 <= i < j < all.len() implies (#[trigger] all[i]).1 != (
            #[trigger] all[j]).1 by {
                if i == 0 {
                    assert(!seen.insert(idx).contains(roll_index(rest[j - 1].1)));
                } else {
                    assert(all[i] == rest[i - 1]);
                    assert(all[j] == rest[j - 1]);
                }
            }
            assert forall|i: int| 0 <= i < all.len() implies !seen.contains(roll_index((#[trigger] all[i]).1)) by {
                if i > 0 {
                    assert(all[i] == rest[i - 1]);
                }
            }
        } else {
            law_triggers_have_distinct_modifier_rolls(roll, multiple * 3, seen);
            assert(all == triggers_from(roll, multiple * 3, seen));
        }
    }
}


/// The roll divided by three to the power `k`.
pub open spec fn quotient3(roll: u64, k: nat) -> u64 {
    ((roll as nat) / power(3, k)) as u64
}

/// Whether three to the power `k` divides the roll, a nonzero one.
pub open spec fn divides3(roll: u64, k: nat) -> bool {
    roll != 0 && (roll as nat) % power(3, k) == 0
}

/// The trigger that a quotient yields: its trigger roll, then its modifier roll and modifier.
pub open spec fn trigger_entry(q: u64) -> (Roll, Roll, Modifier) {
    (trigger_for(q), modifier_for(q).0, modifier_for(q).1)
}

/// The board positions of the modifier rolls of the quotients before the `k`-th.
#[verifier::opaque]
pub open spec fn modifier_rolls_before(roll: u64, k: nat) -> Set<int> {
    Set::new(
        |x: int|
            exists|i: nat| i < k && #[trigger] divides3(roll, i) && x == roll_index(modifier_for(quotient3(roll, i)).0),
    )
}

/// Whether the `k`-th quotient exists and is the first to yield its modifier roll.
pub open spec fn first_of_its_modifier_roll(roll: u64, k: nat) -> bool {
    divides3(roll, k) && !modifier_rolls_before(roll, k).contains(roll_index(modifier_for(quotient3(roll, k)).0))
}

proof fn lemma_divides3_lower(roll: u64, j: nat, k: nat)
    requires
        j <= k,
        divides3(roll, k),
    ensures
        divides3(roll, j),
    decreases k - j,
{
    if j < k {
        let k1 = (k - 1) as nat;
        lemma_power_monotone(3, 0, k1);
        let p1 = power(3, k1);
        assert(power(3, k) == 3 * p1);
        vstd::arithmetic::div_mod::lemma_fundamental_div_mod(roll as int, (3 * p1) as int);
        let q = (roll as nat) / (3 * p1);
        assert(roll as nat == (3 * q) * p1) by (nonlinear_arith)
            requires
                roll as nat == (3 * p1) * q + 0,
        ;
        vstd::arithmetic::div_mod::lemma_mod_multiples_basic((3 * q) as int, p1 as int);
        lemma_divides3_lower(roll, j, k1);
    }
}

proof fn lemma_seen_grows(roll: u64, j: nat)
    requires
        divides3(roll, j),
    ensures
        modifier_rolls_before(roll, j + 1) == modifier_rolls_before(roll, j).insert(
            roll_index(modifier_for(quotient3(roll, j)).0),
        ),
{
    reveal(modifier_rolls_before);
    let seen = modifier_rolls_before(roll, j);
    let idx = roll_index(modifier_for(quotient3(roll, j)).0);
    let next = modifier_rolls_before(roll, j + 1);
    assert forall|x: int| next.contains(x) implies seen.insert(idx).contains(x) by {
        let i = choose|i: nat| i < j + 1 && #[trigger] divides3(roll, i) && x == roll_index(modifier_for(quotient3(roll, i)).0);
        if i < j {
            assert(seen.contains(x));
        }
    }
    assert forall|x: int| seen.insert(idx).contains(x) implies next.contains(x) by {
        if x == idx {
            assert(divides3(roll, j));
        } else {
            let i = choose|i: nat| i < j && #[trigger] divides3(roll, i) && x == roll_index(modifier_for(quotient3(roll, i)).0);
            assert(divides3(roll, i));
        }
    }
    assert(next =~= seen.insert(idx));
}

proof fn lemma_triggers_step(roll: u64, j: nat)
    requires
        divides3(roll, j),
    ensures
        ({
            let idx = roll_index(modifier_for(quotient3(roll, j)).0);
            let rest = triggers_from(roll, power(3, j + 1), modifier_rolls_before(roll, j + 1));
            &&& chain_measure(roll, power(3, j + 1)) < chain_measure(roll, power(3, j))
            &&& first_of_its_modifier_roll(roll, j) ==> triggers_from(roll, power(3, j), modifier_rolls_before(roll, j))
                == seq![trigger_entry(quotient3(roll, j))] + rest
            &&& !first_of_its_modifier_roll(roll, j) ==> triggers_from(roll, power(3, j), modifier_rolls_before(roll, j))
                == rest
        }),
{
    let m = power(3, j);
    lemma_power_monotone(3, 0, j);
    assert(power(3, j + 1) == 3 * m);
    lemma_divisor_at_most(roll as int, m as int);
    lemma_seen_grows(roll, j);
    let seen = modifier_rolls_before(roll, j);
    let idx = roll_index(modifier_for(quotient3(roll, j)).0);
    if seen.contains(idx) {
        assert(seen.insert(idx) =~= seen);
    }
}

/// Each quotient from the `j`-th on that is the first to yield its modifier roll yields one
/// of the triggers.
pub open spec fn first_quotients_drawn(roll: u64, j: nat, t: Seq<(Roll, Roll, Modifier)>) -> bool {
    forall|k: nat|
        k >= j && #[trigger] first_of_its_modifier_roll(roll, k) ==> exists|i: int|
            0 <= i < t.len() && t[i] == trigger_entry(quotient3(roll, k))
}

/// `ks` gives, for each trigger, the power of three whose quotient it is drawn from: one from
/// the `j`-th on that is the first to yield its modifier roll.
pub open spec fn drawn_at(roll: u64, j: nat, t: Seq<(Roll, Roll, Modifier)>, ks: Seq<nat>) -> bool {
    &&& ks.len() == t.len()
    &&& forall|i: int|
        #![trigger ks[i]]
        0 <= i < t.len() ==> ks[i] >= j && first_of_its_modifier_roll(roll, ks[i]) && t[i] == trigger_entry(
            quotient3(roll, ks[i]),
        )
}

proof fn lemma_first_kept_step(roll: u64, j: nat, t: Seq<(Roll, Roll, Modifier)>, rest: Seq<(Roll, Roll, Modifier)>)
    requires
        first_of_its_modifier_roll(roll, j),
        t == seq![trigger_entry(quotient3(roll, j))] + rest,
        first_quotients_drawn(roll, j + 1, rest),
    ensures
        first_quotients_drawn(roll, j, t),
{
    assert forall|k: nat| k >= j && #[trigger] first_of_its_modifier_roll(roll, k) implies exists|i: int|
        0 <= i < t.len() && t[i] == trigger_entry(quotient3(roll, k)) by {
        if k == j {
            assert(t[0] == trigger_entry(quotient3(roll, k)));
        } else {
            let i = choose|i: int| 0 <= i < rest.len() && rest[i] == trigger_entry(quotient3(roll, k));
            assert(t[i + 1] == rest[i]);
        }
    }
}

proof fn lemma_skipped_kept_step(roll: u64, j: nat, t: Seq<(Roll, Roll, Modifier)>)
    requires
        !first_of_its_modifier_roll(roll, j),
        first_quotients_drawn(roll, j + 1, t),
    ensures
        first_quotients_drawn(roll, j, t),
{
    assert forall|k: nat| k >= j && #[trigger] first_of_its_modifier_roll(roll, k) implies exists|i: int|
        0 <= i < t.len() && t[i] == trigger_entry(quotient3(roll, k)) by {
        assert(k != j);
    }
}

proof fn lemma_no_more_quotients(roll: u64, j: nat)
    requires
        !divides3(roll, j),
    ensures
        first_quotients_drawn(roll, j, Seq::empty()),
{
    assert forall|k: nat| k >= j && #[trigger] first_of_its_modifier_roll(roll, k) implies exists|i: int|
        0 <= i < Seq::<(Roll, Roll, Modifier)>::empty().len() && Seq::<(Roll, Roll, Modifier)>::empty()[i]
            == trigger_entry(quotient3(roll, k)) by {
        lemma_divides3_lower(roll, j, k);
    }
}

proof fn lemma_triggers_from_power(roll: u64, j: nat) -> (ks: Seq<nat>)
    ensures
        drawn_at(roll, j, triggers_from(roll, power(3, j), modifier_rolls_before(roll, j)), ks),
        first_quotients_drawn(roll, j, triggers_from(roll, power(3, j), modifier_rolls_before(roll, j))),
    decreases chain_measure(roll, power(3, j)),
{
    let t = triggers_from(roll, power(3, j), modifier_rolls_before(roll, j));
    if divides3(roll, j) {
        lemma_triggers_step(roll, j);
        let ks_rest = lemma_triggers_from_power(roll, j + 1);
        let rest = triggers_from(roll, power(3, j + 1), modifier_rolls_before(roll, j + 1));
        if first_of_its_modifier_roll(roll, j) {
            lemma_first_kept_step(roll, j, t, rest);
            let ks = seq![j] + ks_rest;
            assert forall|i: int| #![trigger ks[i]] 0 <= i < t.len() implies ks[i] >= j && first_of_its_modifier_roll(roll, ks[i])
                && t[i] == trigger_entry(quotient3(roll, ks[i])) by {
                if i > 0 {
                    assert(ks[i] == ks_rest[i - 1]);
                    assert(t[i] == rest[i - 1]);
                }
            }
            ks
        } else {
            lemma_skipped_kept_step(roll, j, t);
            assert forall|i: int| #![trigger ks_rest[i]] 0 <= i < t.len() implies ks_rest[i] >= j && first_of_its_modifier_roll(
                roll,
                ks_rest[i],
            ) && t[i] == trigger_entry(quotient3(roll, ks_rest[i])) by {}
            ks_rest
        }
    } else {
        lemma_power_monotone(3, 0, j);
        assert(t =~= Seq::empty());
        lemma_no_more_quotients(roll, j);
        Seq::empty()
    }
}

proof fn lemma_at_most_eleven_triggers(roll: u64)
    ensures
        triggers_from(roll, 1, Set::empty()).len() <= 11,
{
    let t = triggers_from(roll, 1, Set::empty());
    law_triggers_have_distinct_modifier_rolls(roll, 1, Set::empty());
    let idxs = t.map_values(|e: (Roll, Roll, Modifier)| roll_index(e.1));
    assert forall|i: int, j: int| 0 <= i < idxs.len() && 0 <= j < idxs.len() && i != j implies idxs[i] != idxs[j] by {
        if i < j {
            assert(t[i].1 != t[j].1);
        } else {
            assert(t[j].1 != t[i].1);
        }
    }
    assert(idxs.no_duplicates());
    idxs.unique_seq_to_set();
    vstd::set_lib::lemma_int_range(0, 11);
    assert(idxs.to_set().subset_of(vstd::set_lib::set_int_range(0, 11)));
    vstd::set_lib::lemma_len_subset(idxs.to_set(), vstd::set_lib::set_int_range(0, 11));
}

proof fn lemma_triggers_drawn_from_first(roll: u64)
    ensures
        exists|ks: Seq<nat>| #[trigger] drawn_at(roll, 0, triggers_from(roll, 1, Set::empty()), ks),
        first_quotients_drawn(roll, 0, triggers_from(roll, 1, Set::empty())),
{
    assert(power(3, 0) == 1);
    assert(modifier_rolls_before(roll, 0) =~= Set::<int>::empty()) by {
        reveal(modifier_rolls_before);
    }
    let ks = lemma_triggers_from_power(roll, 0);
    assert(drawn_at(roll, 0, triggers_from(roll, 1, Set::empty()), ks));
}

proof fn lemma_first_trigger(roll: u64)
    requires
        roll != 0,
    ensures
        triggers_from(roll, 1, Set::empty()).len() > 0,
        triggers_from(roll, 1, Set::empty())[0] == trigger_entry(roll),
{
    assert((roll as nat) / 1 == roll as nat);
    assert(triggers_from(roll, 1, Set::empty()) == seq![trigger_entry(roll)] + triggers_from(
        roll,
        3,
        Set::empty().insert(roll_index(modifier_for(roll).0)),
    ));
}

/// The modifier triggers of a roll: none for a zero roll, at most eleven, the first drawn
/// from the roll itself; each drawn from the roll divided by a power of three that divides
/// it, the first quotient to yield its modifier roll; and every such first quotient yields
/// one of them.
pub proof fn law_triggers_follow_powers_of_three(roll: u64)
    ensures
        roll == 0 ==> triggers_from(roll, 1, Set::empty()).len() == 0,
        triggers_from(roll, 1, Set::empty()).len() <= 11,
        roll != 0 ==> triggers_from(roll, 1, Set::empty()).len() > 0 && triggers_from(roll, 1, Set::empty())[0]
            == trigger_entry(roll),
        exists|ks: Seq<nat>| #[trigger] drawn_at(roll, 0, triggers_from(roll, 1, Set::empty()), ks),
        first_quotients_drawn(roll, 0, triggers_from(roll, 1, Set::empty())),
{
    lemma_at_most_eleven_triggers(roll);
    if roll != 0 {
        lemma_first_trigger(roll);
    }
    lemma_triggers_drawn_from_first(roll);
}


/// A winning bet pays by the multiplier named after its own roll: for each roll, the
/// numerator and denominator are that roll's pair of the configuration, and the payout is
/// whole units of the denominator times the numerator.
pub proof fn law_payout_uses_the_rolls_own_multiplier(cfg: PayoutConfig, principal: u64)
    ensures
        multiplier_of(cfg, Roll::Two) == cfg.two_payout_multiplier,
        multiplier_of(cfg, Roll::Three) == cfg.three_payout_multiplier,
        multiplier_of(cfg, Roll::Four) == cfg.four_payout_multiplier,
        multiplier_of(cfg, Roll::Five) == cfg.five_payout_multiplier,
        multiplier_of(cfg, Roll::Six) == cfg.six_payout_multiplier,
        multiplier_of(cfg, Roll::Seven) == cfg.seven_payout_multiplier,
        multiplier_of(cfg, Roll::Eight) == cfg.eight_payout_multiplier,
        multiplier_of(cfg, Roll::Nine) == cfg.nine_payout_multiplier,
        multiplier_of(cfg, Roll::Ten) == cfg.ten_payout_multiplier,
        multiplier_of(cfg, Roll::Eleven) == cfg.eleven_payout_multiplier,
        multiplier_of(cfg, Roll::Twelve) == cfg.twelve_payout_multiplier,
        payout_spec(cfg, Roll::Two, principal) == (principal / cfg.two_payout_multiplier.1) * cfg.two_payout_multiplier.0,
        payout_spec(cfg, Roll::Three, principal) == (principal / cfg.three_payout_multiplier.1) * cfg.three_payout_multiplier.0,
        payout_spec(cfg, Roll::Four, principal) == (principal / cfg.four_payout_multiplier.1) * cfg.four_payout_multiplier.0,
        payout_spec(cfg, Roll::Five, principal) == (principal / cfg.five_payout_multiplier.1) * cfg.five_payout_multiplier.0,
        payout_spec(cfg, Roll::Six, principal) == (principal / cfg.six_payout_multiplier.1) * cfg.six_payout_multiplier.0,
        payout_spec(cfg, Roll::Seven, principal) == (principal / cfg.seven_payout_multiplier.1) * cfg.seven_payout_multiplier.0,
        payout_spec(cfg, Roll::Eight, principal) == (principal / cfg.eight_payout_multiplier.1) * cfg.eight_payout_multiplier.0,
        payout_spec(cfg, Roll::Nine, principal) == (principal / cfg.nine_payout_multiplier.1) * cfg.nine_payout_multiplier.0,
        payout_spec(cfg, Roll::Ten, principal) == (principal / cfg.ten_payout_multiplier.1) * cfg.ten_payout_multiplier.0,
        payout_spec(cfg, Roll::Eleven, principal) == (principal / cfg.eleven_payout_multiplier.1) * cfg.eleven_payout_multiplier.0,
        payout_spec(cfg, Roll::Twelve, principal) == (principal / cfg.twelve_payout_multiplier.1) * cfg.twelve_payout_multiplier.0,
{
}

/// The strap a number yields is a level-one, unmodified strap whose kind follows the
/// contract's weighted table of the number modulo 141: twenty values each for Shirt,
/// Pants and Shoes, ten each for Hat, Glasses, Watch and Ring, five each for Necklace,
/// Earring, Bracelet, Tattoo, Skirt, Piercing and Coat, and two each for Scarf, Gloves and
/// Gown.
pub proof fn law_strap_kind_table(n: u64)
    ensures
        strap_for(n).level == 1,
        strap_for(n).modifier == Modifier::Nothing,
        n % 141 < 20 ==> strap_for(n).kind == StrapKind::Shirt,
        20 <= n % 141 < 40 ==> strap_for(n).kind == StrapKind::Pants,
        40 <= n % 141 < 60 ==> strap_for(n).kind == StrapKind::Shoes,
        60 <= n % 141 < 70 ==> strap_for(n).kind == StrapKind::Hat,
        70 <= n % 141 < 80 ==> strap_for(n).kind == StrapKind::Glasses,
        80 <= n % 141 < 90 ==> strap_for(n).kind == StrapKind::Watch,
        90 <= n % 141 < 100 ==> strap_for(n).kind == StrapKind::Ring,
        100 <= n % 141 < 105 ==> strap_for(n).kind == StrapKind::Necklace,
        105 <= n % 141 < 110 ==> strap_for(n).kind == StrapKind::Earring,
        110 <= n % 141 < 115 ==> strap_for(n).kind == StrapKind::Bracelet,
        115 <= n % 141 < 120 ==> strap_for(n).kind == StrapKind::Tattoo,
        120 <= n % 141 < 125 ==> strap_for(n).kind == StrapKind::Skirt,
        125 <= n % 141 < 130 ==> strap_for(n).kind == StrapKind::Piercing,
        130 <= n % 141 < 135 ==> strap_for(n).kind == StrapKind::Coat,
        135 <= n % 141 < 137 ==> strap_for(n).kind == StrapKind::Scarf,
        137 <= n % 141 < 139 ==> strap_for(n).kind == StrapKind::Gloves,
        139 <= n % 141 ==> strap_for(n).kind == StrapKind::Gown,
{
}

/// A strap's price depends on its kind alone: 10 for the common kinds (Shirt, Pants, Shoes,
/// Dress), 20 for Hat, Glasses, Watch and Ring, 50 for Necklace, Earring, Bracelet, Tattoo,
/// Skirt and Piercing, 100 for Coat, Scarf, Gloves and Gown, and 200 for a Belt.
pub proof fn law_strap_price_table(s: Strap)
    ensures
        (s.kind == StrapKind::Shirt || s.kind == StrapKind::Pants || s.kind == StrapKind::Shoes || s.kind
            == StrapKind::Dress) ==> strap_cost_spec(s) == 10,
        (s.kind == StrapKind::Hat || s.kind == StrapKind::Glasses || s.kind == StrapKind::Watch || s.kind
            == StrapKind::Ring) ==> strap_cost_spec(s) == 20,
        (s.kind == StrapKind::Necklace || s.kind == StrapKind::Earring || s.kind == StrapKind::Bracelet
            || s.kind == StrapKind::Tattoo || s.kind == StrapKind::Skirt || s.kind == StrapKind::Piercing)
            ==> strap_cost_spec(s) == 50,
        (s.kind == StrapKind::Coat || s.kind == StrapKind::Scarf || s.kind == StrapKind::Gloves || s.kind
            == StrapKind::Gown) ==> strap_cost_spec(s) == 100,
        s.kind == StrapKind::Belt ==> strap_cost_spec(s) == 200,
{
}

/// The slot of a reward follows the number modulo 10 through the board without Seven:
/// 0 Two, 1 Three, 2 Four, 3 Five, 4 Six, 5 Eight, 6 Nine, 7 Ten, 8 Eleven, 9 Twelve.
pub proof fn law_slot_table(n: u64)
    ensures
        n % 10 == 0 ==> slot_for(n) == Roll::Two,
        n % 10 == 1 ==> slot_for(n) == Roll::Three,
        n % 10 == 2 ==> slot_for(n) == Roll::Four,
        n % 10 == 3 ==> slot_for(n) == Roll::Five,
        n % 10 == 4 ==> slot_for(n) == Roll::Six,
        n % 10 == 5 ==> slot_for(n) == Roll::Eight,
        n % 10 == 6 ==> slot_for(n) == Roll::Nine,
        n % 10 == 7 ==> slot_for(n) == Roll::Ten,
        n % 10 == 8 ==> slot_for(n) == Roll::Eleven,
        n % 10 == 9 ==> slot_for(n) == Roll::Twelve,
{
}

/// The modifier a number yields follows the contract's table of the number modulo 11:
/// 0 (Two, Burnt), 1 (Three, Lucky), 2 (Four, Holy), 3 (Five, Holey), 4 (Six, Scotch),
/// 5 (Eight, Soaked), 6 (Nine, Moldy), 7 (Ten, Starched), 8 (Seven, Evil), 9 (Eleven, Groovy),
/// 10 (Twelve, Delicate); and the roll that triggers it follows the number modulo 4:
/// 0 Two, 1 Three, 2 Eleven, 3 Twelve.
pub proof fn law_modifier_table(n: u64)
    ensures
        n % 11 == 0 ==> modifier_for(n) == (Roll::Two, Modifier::Burnt),
        n % 11 == 1 ==> modifier_for(n) == (Roll::Three, Modifier::Lucky),
        n % 11 == 2 ==> modifier_for(n) == (Roll::Four, Modifier::Holy),
        n % 11 == 3 ==> modifier_for(n) == (Roll::Five, Modifier::Holey),
        n % 11 == 4 ==> modifier_for(n) == (Roll::Six, Modifier::Scotch),
        n % 11 == 5 ==> modifier_for(n) == (Roll::Eight, Modifier::Soaked),
        n % 11 == 6 ==> modifier_for(n) == (Roll::Nine, Modifier::Moldy),
        n % 11 == 7 ==> modifier_for(n) == (Roll::Ten, Modifier::Starched),
        n % 11 == 8 ==> modifier_for(n) == (Roll::Seven, Modifier::Evil),
        n % 11 == 9 ==> modifier_for(n) == (Roll::Eleven, Modifier::Groovy),
        n % 11 == 10 ==> modifier_for(n) == (Roll::Twelve, Modifier::Delicate),
        n % 4 == 0 ==> trigger_for(n) == Roll::Two,
        n % 4 == 1 ==> trigger_for(n) == Roll::Three,
        n % 4 == 2 ==> trigger_for(n) == Roll::Eleven,
        n % 4 == 3 ==> trigger_for(n) == Roll::Twelve,
{
}

/// A VRF number rolls by its remainder modulo 36, read as the 36 outcomes of two dice in
/// order: 0 Two, 1-2 Three, 3-5 Four, 6-9 Five, 10-14 Six, 15-20 Seven, 21-25 Eight,
/// 26-29 Nine, 30-32 Ten, 33-34 Eleven, 35 Twelve; and the number chosen for each roll is
/// the first remainder of its run.
pub proof fn law_vrf_roll_table(n: u64)
    ensures
        n % 36 == 0 ==> roll_for_vrf(n) == Roll::Two,
        1 <= n % 36 <= 2 ==> roll_for_vrf(n) == Roll::Three,
        3 <= n % 36 <= 5 ==> roll_for_vrf(n) == Roll::Four,
        6 <= n % 36 <= 9 ==> roll_for_vrf(n) == Roll::Five,
        10 <= n % 36 <= 14 ==> roll_for_vrf(n) == Roll::Six,
        15 <= n % 36 <= 20 ==> roll_for_vrf(n) == Roll::Seven,
        21 <= n % 36 <= 25 ==> roll_for_vrf(n) == Roll::Eight,
        26 <= n % 36 <= 29 ==> roll_for_vrf(n) == Roll::Nine,
        30 <= n % 36 <= 32 ==> roll_for_vrf(n) == Roll::Ten,
        33 <= n % 36 <= 34 ==> roll_for_vrf(n) == Roll::Eleven,
        n % 36 == 35 ==> roll_for_vrf(n) == Roll::Twelve,
        vrf_number_for(Roll::Two) == 0,
        vrf_number_for(Roll::Three) == 1,
        vrf_number_for(Roll::Four) == 3,
        vrf_number_for(Roll::Five) == 6,
        vrf_number_for(Roll::Six) == 10,
        vrf_number_for(Roll::Seven) == 15,
        vrf_number_for(Roll::Eight) == 21,
        vrf_number_for(Roll::Nine) == 26,
        vrf_number_for(Roll::Ten) == 30,
        vrf_number_for(Roll::Eleven) == 33,
        vrf_number_for(Roll::Twelve) == 35,
{
}

} // verus!
