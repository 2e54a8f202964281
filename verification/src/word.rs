//! 256-bit unsigned integers, as the contract and the guest program exchange
//! them.

use ethabi::ethereum_types::U256;
use vstd::prelude::*;

verus! {

/// Two to the power 64: the weight of the second limb.
pub open spec fn limb_base() -> nat {
    0x1_0000_0000_0000_0000nat
}

/// Two to the power 256: one more than the largest value a [`Word`] holds.
pub open spec fn word_modulus() -> nat {
    0x1_0000_0000_0000_0000_0000_0000_0000_0000_0000_0000_0000_0000_0000_0000_0000_0000nat
}

/// The number that four 64-bit limbs stand for, least significant first.
pub open spec fn limbs_value(l0: u64, l1: u64, l2: u64, l3: u64) -> nat {
    (l0 as nat) + limb_base() * ((l1 as nat) + limb_base() * ((l2 as nat) + limb_base() * (
    l3 as nat)))
}

/// Whether the sum of two words is itself below two to the power 256.
pub open spec fn sum_fits(a: Word, b: Word) -> bool {
    a.value() + b.value() < word_modulus()
}

/// An unsigned integer below two to the power 256, held as four 64-bit limbs
/// with the least significant limb first.
#[derive(Clone, Copy, Debug, PartialEq, Eq, Structural)]
pub struct Word {
    pub l0: u64,
    pub l1: u64,
    pub l2: u64,
    pub l3: u64,
}

impl Word {
    /// The number this word stands for.
    pub open spec fn value(self) -> nat {
        limbs_value(self.l0, self.l1, self.l2, self.l3)
    }

    /// Every word is below two to the power 256.
    pub proof fn lemma_value_bound(self)
        ensures
            self.value() < word_modulus(),
    {
        let base = limb_base() as int;
        let b2 = 0x1_0000_0000_0000_0000_0000_0000_0000_0000int;
        let b3 = 0x1_0000_0000_0000_0000_0000_0000_0000_0000_0000_0000_0000_0000int;
        let h2 = (self.l2 as int) + base * (self.l3 as int);
        let h1 = (self.l1 as int) + base * h2;
        assert(base * (self.l3 as int) <= b2 - base) by (nonlinear_arith)
            requires
                base == 0x1_0000_0000_0000_0000int,
                b2 == 0x1_0000_0000_0000_0000_0000_0000_0000_0000int,
                0 <= self.l3 <= base - 1,
        ;
        assert(base * h2 <= b3 - base) by (nonlinear_arith)
            requires
                base == 0x1_0000_0000_0000_0000int,
                b2 == 0x1_0000_0000_0000_0000_0000_0000_0000_0000int,
                b3 == 0x1_0000_0000_0000_0000_0000_0000_0000_0000_0000_0000_0000_0000int,
                0 <= h2 <= b2 - 1,
        ;
        assert(base * h1 <= word_modulus() - base) by (nonlinear_arith)
            requires
                base == 0x1_0000_0000_0000_0000int,
                b3 == 0x1_0000_0000_0000_0000_0000_0000_0000_0000_0000_0000_0000_0000int,
                word_modulus()
                    == 0x1_0000_0000_0000_0000_0000_0000_0000_0000_0000_0000_0000_0000_0000_0000_0000_0000int,
                0 <= h1 <= b3 - 1,
        ;
    }

    /// Two words that stand for the same number are equal.
    pub proof fn lemma_value_injective(a: Word, b: Word)
        requires
            a.value() == b.value(),
        ensures
            a == b,
    {
        let base = limb_base() as int;
        let ha2 = (a.l2 as int) + base * (a.l3 as int);
        let hb2 = (b.l2 as int) + base * (b.l3 as int);
        let ha = (a.l1 as int) + base * ha2;
        let hb = (b.l1 as int) + base * hb2;
        lemma_split_unique(a.l0 as int, ha, b.l0 as int, hb);
        lemma_split_unique(a.l1 as int, ha2, b.l1 as int, hb2);
        lemma_split_unique(a.l2 as int, a.l3 as int, b.l2 as int, b.l3 as int);
    }

    /// The word whose limbs are `limbs`, least significant first.
    pub fn from_limbs(limbs: [u64; 4]) -> (w: Word)
        ensures
            w == (Word { l0: limbs[0], l1: limbs[1], l2: limbs[2], l3: limbs[3] }),
    {
        Word { l0: limbs[0], l1: limbs[1], l2: limbs[2], l3: limbs[3] }
    }

    /// The four limbs of the word, least significant first.
    pub fn limbs(&self) -> (l: [u64; 4])
        ensures
            l@ == seq![self.l0, self.l1, self.l2, self.l3],
    {
        [self.l0, self.l1, self.l2, self.l3]
    }

    /// The word that stands for `x`.
    pub fn from_u64(x: u64) -> (w: Word)
        ensures
            w.value() == x,
            w == (Word { l0: x, l1: 0, l2: 0, l3: 0 }),
    {
        Word { l0: x, l1: 0, l2: 0, l3: 0 }
    }

    /// The word that stands for one.
    pub fn one() -> (w: Word)
        ensures
            w.value() == 1,
    {
        Word::from_u64(1)
    }

    /// The sum of the two words, where it is below two to the power 256.
    pub fn checked_add(&self, other: &Word) -> (r: Option<Word>)
        ensures
            r is Some <==> sum_fits(*self, *other),
            r matches Some(s) ==> s.value() == self.value() + other.value(),
    {
        u256_checked_add(*self, *other)
    }

    /// The value as a `u32`, where it fits.
    pub fn to_u32(&self) -> (r: Option<u32>)
        ensures
            r == (if self.value() <= u32::MAX {
                Some(self.value() as u32)
            } else {
                None
            }),
    {
        if self.l1 == 0 && self.l2 == 0 && self.l3 == 0 && self.l0 <= 0xffff_ffff {
            Some(self.l0 as u32)
        } else {
            proof {
                if self.l1 != 0 || self.l2 != 0 || self.l3 != 0 {
                    lemma_high_limbs(self.l0, self.l1, self.l2, self.l3);
                }
            }
            None
        }
    }
}

/// `U256::checked_add` of the `uint` crate, which holds its limbs least
/// significant first, as a word does. Trusted: it returns the sum when the
/// sum is below two to the power 256, and nothing when it is not.
#[verifier::external_body]
fn u256_checked_add(a: Word, b: Word) -> (r: Option<Word>)
    ensures
        r is Some <==> sum_fits(a, b),
        r matches Some(s) ==> s.value() == a.value() + b.value(),
{
    U256(a.limbs()).checked_add(U256(b.limbs())).map(|s| Word::from_limbs(s.0))
}

/// A number split into a low part below the limb base and a high part is
/// split so in one way only.
proof fn lemma_split_unique(a0: int, a1: int, b0: int, b1: int)
    requires
        0 <= a0 < limb_base(),
        0 <= b0 < limb_base(),
        a0 + limb_base() * a1 == b0 + limb_base() * b1,
    ensures
        a0 == b0,
        a1 == b1,
{
    let base = limb_base() as int;
    assert(base * (a1 - b1) == b0 - a0) by (nonlinear_arith)
        requires
            a0 + base * a1 == b0 + base * b1,
    ;
    if a1 > b1 {
        assert(base * (a1 - b1) >= base) by (nonlinear_arith)
            requires
                base >= 0,
                a1 - b1 >= 1,
        ;
    } else if a1 < b1 {
        assert(base * (a1 - b1) <= -base) by (nonlinear_arith)
            requires
                base >= 0,
                a1 - b1 <= -1,
        ;
    }
}

/// Limbs with a high limb that is not zero stand for a number of at least
/// two to the power 64.
proof fn lemma_high_limbs(l0: u64, l1: u64, l2: u64, l3: u64)
    requires
        l1 != 0 || l2 != 0 || l3 != 0,
    ensures
        limbs_value(l0, l1, l2, l3) >= limb_base(),
{
    let base = limb_base() as int;
    let h2 = (l2 as int) + base * (l3 as int);
    let h1 = (l1 as int) + base * h2;
    assert(base * (l3 as int) >= 0) by (nonlinear_arith)
        requires
            base >= 0,
            l3 >= 0,
    ;
    assert(base * h2 >= 0) by (nonlinear_arith)
        requires
            base >= 0,
            h2 >= 0,
    ;
    if l1 == 0 {
        if l2 == 0 {
            assert(base * (l3 as int) >= base) by (nonlinear_arith)
                requires
                    base >= 0,
                    l3 >= 1,
            ;
        }
        assert(base * h2 >= base) by (nonlinear_arith)
            requires
                base >= 0,
                h2 >= 1,
        ;
    }
    assert(base * h1 >= base) by (nonlinear_arith)
        requires
            base >= 0,
            h1 >= 1,
    ;
}

} // verus!
