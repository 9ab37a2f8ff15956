use strapped_core::contract_math::{
    calculate_payout, generate_straps, modifier_triggers_for_roll, payout_denominator, payout_numerator,
    roll_to_vrf_number, strap_to_cost, u64_to_modifier, u64_to_slot, u64_to_strap, u64_to_trigger_roll,
    vrf_to_roll, PayoutConfig,
};
use strapped_core::types::{index_to_roll, roll_to_index, strap_to_sub_id, Modifier, Roll, Strap, StrapKind};

fn config() -> PayoutConfig {
    PayoutConfig {
        two_payout_multiplier: (6, 1),
        three_payout_multiplier: (3, 1),
        four_payout_multiplier: (2, 1),
        five_payout_multiplier: (3, 2),
        six_payout_multiplier: (6, 5),
        seven_payout_multiplier: (0, 1),
        eight_payout_multiplier: (6, 5),
        nine_payout_multiplier: (3, 2),
        ten_payout_multiplier: (2, 1),
        eleven_payout_multiplier: (3, 1),
        twelve_payout_multiplier: (6, 1),
    }
}

#[test]
fn calculate_payout__divides_then_multiplies() {
    let cfg = config();
    assert_eq!(payout_numerator(&cfg, &Roll::Six), 6);
    assert_eq!(payout_denominator(&cfg, &Roll::Six), 5);
    // (12 / 5) * 6: whole units of the denominator only
    assert_eq!(calculate_payout(&cfg, &Roll::Six, 12), 12);
    assert_eq!(calculate_payout(&cfg, &Roll::Two, 7), 42);
    assert_eq!(calculate_payout(&cfg, &Roll::Five, 1), 0);
}

#[test]
fn generate_straps__one_reward_per_power_of_two_dividing_the_seed() {
    let shirt = Strap::new(1, StrapKind::Shirt, Modifier::Nothing);
    assert_eq!(
        generate_straps(12),
        vec![(Roll::Four, shirt, 10), (Roll::Nine, shirt, 10), (Roll::Five, shirt, 10)]
    );
    assert_eq!(
        generate_straps(140),
        vec![
            (Roll::Two, Strap::new(1, StrapKind::Gown, Modifier::Nothing), 100),
            (Roll::Two, Strap::new(1, StrapKind::Glasses, Modifier::Nothing), 20),
            (Roll::Eight, Strap::new(1, StrapKind::Pants, Modifier::Nothing), 10),
        ]
    );
    assert!(generate_straps(0).is_empty());
}

#[test]
fn generated_rewards__are_plain_and_never_on_seven() {
    for seed in 1..2000u64 {
        for (slot, strap, cost) in generate_straps(seed) {
            assert_ne!(slot, Roll::Seven);
            assert_eq!(strap.level, 1);
            assert_eq!(strap.modifier, Modifier::Nothing);
            assert_eq!(cost, strap_to_cost(&strap));
        }
    }
}

#[test]
fn u64_to_strap__draws_kind_by_weight() {
    assert_eq!(u64_to_strap(0).kind, StrapKind::Shirt);
    assert_eq!(u64_to_strap(20).kind, StrapKind::Pants);
    assert_eq!(u64_to_strap(104).kind, StrapKind::Necklace);
    assert_eq!(u64_to_strap(140).kind, StrapKind::Gown);
    assert_eq!(u64_to_strap(141).kind, StrapKind::Shirt);
    assert_eq!(u64_to_slot(5), Roll::Eight);
    assert_eq!(u64_to_slot(19), Roll::Twelve);
    assert_eq!(strap_to_cost(&Strap::new(3, StrapKind::Belt, Modifier::Evil)), 200);
}

#[test]
fn modifier_triggers_for_roll__one_per_power_of_three() {
    assert_eq!(
        modifier_triggers_for_roll(9),
        vec![
            (Roll::Three, Roll::Eleven, Modifier::Groovy),
            (Roll::Twelve, Roll::Five, Modifier::Holey),
            (Roll::Three, Roll::Three, Modifier::Lucky),
        ]
    );
    // 33 and 11 both draw the modifier of roll Two: only the first is kept
    assert_eq!(modifier_triggers_for_roll(33), vec![(Roll::Three, Roll::Two, Modifier::Burnt)]);
    assert!(modifier_triggers_for_roll(0).is_empty());
    assert_eq!(u64_to_modifier(8), (Roll::Seven, Modifier::Evil));
    assert_eq!(u64_to_trigger_roll(6), Roll::Eleven);
}

#[test]
fn modifier_triggers__never_repeat_a_modifier_roll() {
    for roll in 1..3000u64 {
        let triggers = modifier_triggers_for_roll(roll);
        for i in 0..triggers.len() {
            for j in (i + 1)..triggers.len() {
                assert_ne!(triggers[i].1, triggers[j].1);
            }
        }
    }
}

#[test]
fn roll_to_vrf_number__rolls_back_to_the_same_roll() {
    assert_eq!(roll_to_vrf_number(&Roll::Seven), 15);
    for idx in 0..11usize {
        let roll = index_to_roll(idx);
        assert_eq!(roll_to_index(&roll), idx);
        assert_eq!(vrf_to_roll(roll_to_vrf_number(&roll)), roll);
    }
    assert_eq!(vrf_to_roll(36), Roll::Two);
    assert_eq!(vrf_to_roll(35), Roll::Twelve);
}

#[test]
fn strap_to_sub_id__distinct_straps_get_distinct_ids() {
    let a = strap_to_sub_id(&Strap::new(1, StrapKind::Hat, Modifier::Lucky));
    let b = strap_to_sub_id(&Strap::new(2, StrapKind::Hat, Modifier::Lucky));
    let c = strap_to_sub_id(&Strap::new(1, StrapKind::Hat, Modifier::Holy));
    assert_ne!(a, b);
    assert_ne!(a, c);
    assert_eq!(a, Strap::new(1, StrapKind::Hat, Modifier::Lucky).sub_id());
}

#[test]
fn generate_straps__follows_the_trailing_zero_bits_of_the_seed() {
    for seed in 1..5000u64 {
        let straps = generate_straps(seed);
        assert_eq!(straps.len() as u32, seed.trailing_zeros() + 1);
        for (k, entry) in straps.iter().enumerate() {
            let inner = seed >> k;
            let strap = u64_to_strap(inner);
            assert_eq!(*entry, (u64_to_slot(inner), strap, strap_to_cost(&strap)));
        }
    }
    let high = 1u64 << 62;
    assert_eq!(generate_straps(high).len(), 63);
}

#[test]
fn vrf_to_roll__repeats_every_36_and_follows_two_dice() {
    let mut counts = [0u32; 11];
    for n in 0..36u64 {
        counts[roll_to_index(&vrf_to_roll(n))] += 1;
        assert_eq!(vrf_to_roll(n), vrf_to_roll(n + 36));
        assert_eq!(vrf_to_roll(n), vrf_to_roll(n + 36 * 1000));
    }
    assert_eq!(counts, [1, 2, 3, 4, 5, 6, 5, 4, 3, 2, 1]);
    assert_eq!(vrf_to_roll(u64::MAX), vrf_to_roll(u64::MAX % 36));
}

#[test]
fn modifier_triggers__at_most_eleven_first_from_the_roll_itself() {
    for roll in 1..3000u64 {
        let triggers = modifier_triggers_for_roll(roll);
        assert!(triggers.len() <= 11);
        let (modifier_roll, modifier) = u64_to_modifier(roll);
        assert_eq!(triggers[0], (u64_to_trigger_roll(roll), modifier_roll, modifier));
    }
    // 3^39 has forty quotients; only one trigger per modifier roll survives
    let big = 4052555153018976267u64;
    let triggers = modifier_triggers_for_roll(big);
    assert!(triggers.len() <= 11);
    assert!(!triggers.is_empty());
}
