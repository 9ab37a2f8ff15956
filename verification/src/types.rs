//! Dice rolls, clothing straps and their modifiers, and the identities that play.
use vstd::prelude::*;

verus! {

/// The eleven outcomes of two six-sided dice.
#[derive(Clone, Copy, Debug, PartialEq, Eq, Structural)]
pub enum Roll {
    Two,
    Three,
    Four,
    Five,
    Six,
    Seven,
    Eight,
    Nine,
    Ten,
    Eleven,
    Twelve,
}

/// The kinds of clothing a strap can be.
#[derive(Clone, Copy, Debug, PartialEq, Eq, Structural)]
pub enum StrapKind {
    Shirt,
    Pants,
    Shoes,
    Dress,
    Hat,
    Glasses,
    Watch,
    Ring,
    Necklace,
    Earring,
    Bracelet,
    Tattoo,
    Skirt,
    Piercing,
    Coat,
    Scarf,
    Gloves,
    Gown,
    Belt,
}

/// Modifiers that can be applied to a strap.
#[derive(Clone, Copy, Debug, PartialEq, Eq, Structural)]
pub enum Modifier {
    Nothing,
    Burnt,
    Lucky,
    Holy,
    Holey,
    Scotch,
    Soaked,
    Moldy,
    Starched,
    Evil,
    Groovy,
    Delicate,
}

/// A piece of clothing: its level, kind and modifier.
#[derive(Clone, Copy, Debug, PartialEq, Eq, Structural)]
pub struct Strap {
    pub level: u8,
    pub kind: StrapKind,
    pub modifier: Modifier,
}

/// Who acted on chain: a wallet address or a contract, each 32 bytes.
#[derive(Clone, Copy, Debug, PartialEq, Eq)]
pub enum Identity {
    Address([u8; 32]),
    ContractId([u8; 32]),
}

/// Position of a roll on the board, from `Two` at 0 to `Twelve` at 10.
pub open spec fn roll_index(r: Roll) -> int {
    match r {
        Roll::Two => 0,
        Roll::Three => 1,
        Roll::Four => 2,
        Roll::Five => 3,
        Roll::Six => 4,
        Roll::Seven => 5,
        Roll::Eight => 6,
        Roll::Nine => 7,
        Roll::Ten => 8,
        Roll::Eleven => 9,
        Roll::Twelve => 10,
    }
}

/// The roll at a board position (the inverse of `roll_index`).
pub open spec fn roll_at(i: int) -> Roll {
    if i == 0 {
        Roll::Two
    } else if i == 1 {
        Roll::Three
    } else if i == 2 {
        Roll::Four
    } else if i == 3 {
        Roll::Five
    } else if i == 4 {
        Roll::Six
    } else if i == 5 {
        Roll::Seven
    } else if i == 6 {
        Roll::Eight
    } else if i == 7 {
        Roll::Nine
    } else if i == 8 {
        Roll::Ten
    } else if i == 9 {
        Roll::Eleven
    } else {
        Roll::Twelve
    }
}

/// All rolls in board order.
pub open spec fn all_rolls_spec() -> Seq<Roll> {
    Seq::new(11, |i: int| roll_at(i))
}

/// Board positions and rolls are in one-to-one correspondence.
pub proof fn lemma_roll_index_roundtrip(r: Roll, i: int)
    ensures
        0 <= roll_index(r) < 11,
        roll_at(roll_index(r)) == r,
        0 <= i < 11 ==> roll_index(roll_at(i)) == i,
{
}

/// Board position of a roll.
pub fn roll_to_index(roll: &Roll) -> (idx: usize)
    ensures
        idx as int == roll_index(*roll),
        idx < 11,
{
    match roll {
        Roll::Two => 0,
        Roll::Three => 1,
        Roll::Four => 2,
        Roll::Five => 3,
        Roll::Six => 4,
        Roll::Seven => 5,
        Roll::Eight => 6,
        Roll::Nine => 7,
        Roll::Ten => 8,
        Roll::Eleven => 9,
        Roll::Twelve => 10,
    }
}

/// The roll at a board position.
pub fn index_to_roll(idx: usize) -> (roll: Roll)
    requires
        idx < 11,
    ensures
        roll == roll_at(idx as int),
        roll_index(roll) == idx,
{
    if idx == 0 {
        Roll::Two
    } else if idx == 1 {
        Roll::Three
    } else if idx == 2 {
        Roll::Four
    } else if idx == 3 {
        Roll::Five
    } else if idx == 4 {
        Roll::Six
    } else if idx == 5 {
        Roll::Seven
    } else if idx == 6 {
        Roll::Eight
    } else if idx == 7 {
        Roll::Nine
    } else if idx == 8 {
        Roll::Ten
    } else if idx == 9 {
        Roll::Eleven
    } else {
        Roll::Twelve
    }
}

/// The byte that encodes a strap kind in a strap's sub id.
pub open spec fn kind_byte(kind: StrapKind) -> u8 {
    match kind {
        StrapKind::Shirt => 0,
        StrapKind::Pants => 1,
        StrapKind::Shoes => 2,
        StrapKind::Dress => 3,
        StrapKind::Hat => 4,
        StrapKind::Glasses => 5,
        StrapKind::Watch => 6,
        StrapKind::Ring => 7,
        StrapKind::Necklace => 8,
        StrapKind::Earring => 9,
        StrapKind::Bracelet => 10,
        StrapKind::Tattoo => 11,
        StrapKind::Skirt => 12,
        StrapKind::Piercing => 13,
        StrapKind::Coat => 14,
        StrapKind::Scarf => 15,
        StrapKind::Gloves => 16,
        StrapKind::Gown => 17,
        StrapKind::Belt => 18,
    }
}

/// The byte that encodes a modifier in a strap's sub id.
pub open spec fn modifier_byte(modifier: Modifier) -> u8 {
    match modifier {
        Modifier::Nothing => 0,
        Modifier::Burnt => 1,
        Modifier::Lucky => 2,
        Modifier::Holy => 3,
        Modifier::Holey => 4,
        Modifier::Scotch => 5,
        Modifier::Soaked => 6,
        Modifier::Moldy => 7,
        Modifier::Starched => 8,
        Modifier::Evil => 9,
        Modifier::Groovy => 10,
        Modifier::Delicate => 11,
    }
}

/// The 32-byte sub id of a strap: level, kind byte, modifier byte, then zeros.
pub open spec fn sub_id_spec(strap: Strap) -> Seq<u8> {
    Seq::new(
        32,
        |i: int|
            if i == 0 {
                strap.level
            } else if i == 1 {
                kind_byte(strap.kind)
            } else if i == 2 {
                modifier_byte(strap.modifier)
            } else {
                0u8
            },
    )
}

fn kind_to_byte(kind: StrapKind) -> (b: u8)
    ensures
        b == kind_byte(kind),
{
    match kind {
        StrapKind::Shirt => 0u8,
        StrapKind::Pants => 1u8,
        StrapKind::Shoes => 2u8,
        StrapKind::Dress => 3u8,
        StrapKind::Hat => 4u8,
        StrapKind::Glasses => 5u8,
        StrapKind::Watch => 6u8,
        StrapKind::Ring => 7u8,
        StrapKind::Necklace => 8u8,
        StrapKind::Earring => 9u8,
        StrapKind::Bracelet => 10u8,
        StrapKind::Tattoo => 11u8,
        StrapKind::Skirt => 12u8,
        StrapKind::Piercing => 13u8,
        StrapKind::Coat => 14u8,
        StrapKind::Scarf => 15u8,
        StrapKind::Gloves => 16u8,
        StrapKind::Gown => 17u8,
        StrapKind::Belt => 18u8,
    }
}

fn modifier_to_byte(modifier: Modifier) -> (b: u8)
    ensures
        b == modifier_byte(modifier),
{
    match modifier {
        Modifier::Nothing => 0u8,
        Modifier::Burnt => 1u8,
        Modifier::Lucky => 2u8,
        Modifier::Holy => 3u8,
        Modifier::Holey => 4u8,
        Modifier::Scotch => 5u8,
        Modifier::Soaked => 6u8,
        Modifier::Moldy => 7u8,
        Modifier::Starched => 8u8,
        Modifier::Evil => 9u8,
        Modifier::Groovy => 10u8,
        Modifier::Delicate => 11u8,
    }
}

/// The sub id of a strap, as an array.
pub open spec fn sub_id_of(strap: Strap) -> [u8; 32] {
    choose|a: [u8; 32]| a@ == sub_id_spec(strap)
}

/// An array is determined by its contents.
pub proof fn lemma_array_by_view(a: [u8; 32], b: [u8; 32])
    requires
        a@ == b@,
    ensures
        a == b,
{
    broadcast use vstd::array::group_array_axioms;

    assert forall|i: int| 0 <= i < 32 implies a[i] == b[i] by {
        assert(a@[i] == b@[i]);
    }
    assert(a =~= b);
}

/// Encodes a strap as the sub id under which its asset is minted.
pub fn strap_to_sub_id(strap: &Strap) -> (sub_id: [u8; 32])
    ensures
        sub_id@ == sub_id_spec(*strap),
        sub_id == sub_id_of(*strap),
{
    let mut sub_id = [0u8; 32];
    sub_id[0] = strap.level;
    sub_id[1] = kind_to_byte(strap.kind);
    sub_id[2] = modifier_to_byte(strap.modifier);
    assert(sub_id@ =~= sub_id_spec(*strap));
    proof {
        let a = choose|a: [u8; 32]| a@ == sub_id_spec(*strap);
        lemma_array_by_view(a, sub_id);
    }
    sub_id
}

/// Distinct straps have distinct sub ids.
pub proof fn lemma_sub_id_injective(a: Strap, b: Strap)
    requires
        sub_id_spec(a) == sub_id_spec(b),
    ensures
        a == b,
{
    assert(sub_id_spec(a)[0] == a.level && sub_id_spec(b)[0] == b.level);
    assert(sub_id_spec(a)[1] == kind_byte(a.kind) && sub_id_spec(b)[1] == kind_byte(b.kind));
    assert(sub_id_spec(a)[2] == modifier_byte(a.modifier) && sub_id_spec(b)[2] == modifier_byte(
        b.modifier,
    ));
    assert(kind_byte(a.kind) == kind_byte(b.kind));
    assert(modifier_byte(a.modifier) == modifier_byte(b.modifier));
    assert(a.kind == b.kind) by {
        match a.kind {
            StrapKind::Shirt => {},
            _ => {},
        }
    }
    assert(a.modifier == b.modifier) by {
        match a.modifier {
            Modifier::Nothing => {},
            _ => {},
        }
    }
}

impl Strap {
    pub fn new(level: u8, kind: StrapKind, modifier: Modifier) -> (s: Self)
        ensures
            s.level == level,
            s.kind == kind,
            s.modifier == modifier,
    {
        Strap { level, kind, modifier }
    }

    pub fn sub_id(&self) -> (sub_id: [u8; 32])
        ensures
            sub_id@ == sub_id_spec(*self),
            sub_id == sub_id_of(*self),
    {
        strap_to_sub_id(self)
    }
}

/// Whether two identities are the same.
pub fn identity_eq(a: &Identity, b: &Identity) -> (r: bool)
    ensures
        r == (*a == *b),
{
    match (a, b) {
        (Identity::Address(x), Identity::Address(y)) => bytes32_eq(x, y),
        (Identity::ContractId(x), Identity::ContractId(y)) => bytes32_eq(x, y),
        _ => false,
    }
}

/// Whether two 32-byte values are equal.
pub fn bytes32_eq(x: &[u8; 32], y: &[u8; 32]) -> (r: bool)
    ensures
        r == (*x == *y),
{
    broadcast use vstd::array::group_array_axioms;

    let mut i: usize = 0;
    while i < 32
        invariant
            0 <= i <= 32,
            forall|j: int| 0 <= j < i ==> x[j] == y[j],
        decreases 32 - i,
    {
        if x[i] != y[i] {
            return false;
        }
        i = i + 1;
    }
    assert(*x =~= *y);
    true
}


/// A strap's sub id holds its level, then its kind and its modifier numbered in the
/// order the contract declares them (Shirt 0 to Belt 18, Nothing 0 to Delicate 11), then
/// zeros; and the board positions run from Two at 0 to Twelve at 10.
pub proof fn law_sub_id_and_board_numbering(strap: Strap)
    ensures
        sub_id_spec(strap).len() == 32,
        sub_id_spec(strap)[0] == strap.level,
        forall|i: int| 3 <= i < 32 ==> #[trigger] sub_id_spec(strap)[i] == 0,
        kind_byte(StrapKind::Shirt) == 0 && kind_byte(StrapKind::Pants) == 1 && kind_byte(StrapKind::Shoes) == 2
            && kind_byte(StrapKind::Dress) == 3 && kind_byte(StrapKind::Hat) == 4 && kind_byte(StrapKind::Glasses)
            == 5 && kind_byte(StrapKind::Watch) == 6 && kind_byte(StrapKind::Ring) == 7 && kind_byte(
            StrapKind::Necklace,
        ) == 8 && kind_byte(StrapKind::Earring) == 9 && kind_byte(StrapKind::Bracelet) == 10 && kind_byte(
            StrapKind::Tattoo,
        ) == 11 && kind_byte(StrapKind::Skirt) == 12 && kind_byte(StrapKind::Piercing) == 13 && kind_byte(
            StrapKind::Coat,
        ) == 14 && kind_byte(StrapKind::Scarf) == 15 && kind_byte(StrapKind::Gloves) == 16 && kind_byte(
            StrapKind::Gown,
        ) == 17 && kind_byte(StrapKind::Belt) == 18,
        sub_id_spec(strap)[1] == kind_byte(strap.kind),
        modifier_byte(Modifier::Nothing) == 0 && modifier_byte(Modifier::Burnt) == 1 && modifier_byte(
            Modifier::Lucky,
        ) == 2 && modifier_byte(Modifier::Holy) == 3 && modifier_byte(Modifier::Holey) == 4 && modifier_byte(
            Modifier::Scotch,
        ) == 5 && modifier_byte(Modifier::Soaked) == 6 && modifier_byte(Modifier::Moldy) == 7 && modifier_byte(
            Modifier::Starched,
        ) == 8 && modifier_byte(Modifier::Evil) == 9 && modifier_byte(Modifier::Groovy) == 10 && modifier_byte(
            Modifier::Delicate,
        ) == 11,
        sub_id_spec(strap)[2] == modifier_byte(strap.modifier),
        roll_index(Roll::Two) == 0 && roll_index(Roll::Three) == 1 && roll_index(Roll::Four) == 2 && roll_index(
            Roll::Five,
        ) == 3 && roll_index(Roll::Six) == 4 && roll_index(Roll::Seven) == 5 && roll_index(Roll::Eight) == 6
            && roll_index(Roll::Nine) == 7 && roll_index(Roll::Ten) == 8 && roll_index(Roll::Eleven) == 9
            && roll_index(Roll::Twelve) == 10,
{
}

} // verus!
