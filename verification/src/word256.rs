//! A 256-bit storage word, the unit of both slot indices and slot values.

use vstd::prelude::*;

verus! {

/// One 256-bit word, split into four 64-bit limbs, least significant first.
#[derive(Clone, Copy, Debug, PartialEq, Eq, Structural)]
pub struct Word256 {
    pub limb0: u64,
    pub limb1: u64,
    pub limb2: u64,
    pub limb3: u64,
}

impl View for Word256 {
    type V = nat;

    open spec fn view(&self) -> nat {
        (self.limb0
            + 0x10000000000000000 * (self.limb1
                + 0x10000000000000000 * (self.limb2
                    + 0x10000000000000000 * self.limb3))) as nat
    }
}

impl Word256 {
    /// The all-zero word.
    pub fn zero() -> (w: Word256)
        ensures
            w@ == 0,
    {
        Word256 { limb0: 0, limb1: 0, limb2: 0, limb3: 0 }
    }

    /// Embeds a 64-bit value into a word.
    pub fn from_u64(x: u64) -> (w: Word256)
        ensures
            w@ == x,
    {
        Word256 { limb0: x, limb1: 0, limb2: 0, limb3: 0 }
    }

    /// Whether this word is zero.
    pub fn is_zero(&self) -> (b: bool)
        ensures
            b == (self@ == 0),
    {
        proof {
            lemma_word256_view_injective(*self, Word256 { limb0: 0, limb1: 0, limb2: 0, limb3: 0 });
        }
        self.limb0 == 0 && self.limb1 == 0 && self.limb2 == 0 && self.limb3 == 0
    }

    /// Whether two words hold the same value.
    pub fn same_value(&self, other: &Word256) -> (b: bool)
        ensures
            b == (self@ == other@),
    {
        proof {
            lemma_word256_view_injective(*self, *other);
        }
        self.limb0 == other.limb0 && self.limb1 == other.limb1 && self.limb2 == other.limb2
            && self.limb3 == other.limb3
    }
}

/// The number of distinct 256-bit values.
pub open spec fn word_bound() -> nat {
    0x10000000000000000000000000000000000000000000000000000000000000000nat
}

/// Every word value lies below the 256-bit bound.
pub proof fn lemma_word256_view_bounded(w: Word256)
    ensures
        w@ < word_bound(),
{
}

/// Splitting a limb off the bottom of a word value is division with
/// remainder by the limb base.
proof fn lemma_limb_split(low: u64, rest: int)
    requires
        rest >= 0,
    ensures
        (low + 0x10000000000000000 * rest) % 0x10000000000000000 == low,
        (low + 0x10000000000000000 * rest) / 0x10000000000000000 == rest,
{
    vstd::arithmetic::mul::lemma_mul_is_commutative(0x10000000000000000, rest);
    vstd::arithmetic::div_mod::lemma_fundamental_div_mod_converse(
        low + 0x10000000000000000 * rest,
        0x10000000000000000,
        rest,
        low as int,
    );
}

/// Two words with the same value have the same limbs.
pub proof fn lemma_word256_view_injective(a: Word256, b: Word256)
    ensures
        a@ == b@ ==> a == b,
{
    if a@ == b@ {
        let a_rest1 = a.limb1 + 0x10000000000000000 * (a.limb2 + 0x10000000000000000 * a.limb3);
        let b_rest1 = b.limb1 + 0x10000000000000000 * (b.limb2 + 0x10000000000000000 * b.limb3);
        let a_rest2 = a.limb2 + 0x10000000000000000 * a.limb3;
        let b_rest2 = b.limb2 + 0x10000000000000000 * b.limb3;
        lemma_limb_split(a.limb0, a_rest1);
        lemma_limb_split(b.limb0, b_rest1);
        lemma_limb_split(a.limb1, a_rest2);
        lemma_limb_split(b.limb1, b_rest2);
        lemma_limb_split(a.limb2, a.limb3 as int);
        lemma_limb_split(b.limb2, b.limb3 as int);
    }
}

} // verus!
