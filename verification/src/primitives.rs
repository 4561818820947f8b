//! Fixed-width words: account addresses, 256-bit hashes and 256-bit numbers.
//!
//! Each word is held as big-endian limbs of machine integers, so equality is
//! equality of the limbs and the order is the order of the numbers they spell.

use vstd::prelude::*;

verus! {

/// Two to the power 128: the weight of a word's upper limb.
#[verifier::inline]
pub open spec fn limb_weight() -> int {
    0x1_0000_0000_0000_0000_0000_0000_0000_0000int
}

/// A fixed-width word that stands for a non-negative integer.
///
/// Words of one type are ordered by that integer, and two words with the same
/// integer are the same word.
pub trait Word: Copy + Sized {
    /// The integer that the word spells.
    spec fn value(self) -> int;

    /// The integer determines the word.
    proof fn value_is_injective(a: Self, b: Self)
        ensures
            a.value() == b.value() ==> a == b,
    ;

    /// Whether `self` is strictly below `other`.
    fn is_below(&self, other: &Self) -> (below: bool)
        ensures
            below == (self.value() < other.value()),
    ;

    /// Whether `self` and `other` are the same word.
    fn is_same(&self, other: &Self) -> (same: bool)
        ensures
            same == (*self == *other),
    ;
}

/// A 160-bit account address: the upper 32 bits in `hi`, the lower 128 bits in `lo`.
#[derive(Clone, Copy, Debug, PartialEq, Eq, Hash, Structural)]
pub struct Address {
    pub hi: u32,
    pub lo: u128,
}

/// A 256-bit hash or storage word: the upper 128 bits in `hi`, the lower 128 bits in `lo`.
#[derive(Clone, Copy, Debug, PartialEq, Eq, Hash, Structural)]
pub struct H256 {
    pub hi: u128,
    pub lo: u128,
}

/// A 256-bit unsigned number: the upper 128 bits in `hi`, the lower 128 bits in `lo`.
#[derive(Clone, Copy, Debug, PartialEq, Eq, Hash, Structural)]
pub struct U256 {
    pub hi: u128,
    pub lo: u128,
}

impl Address {
    /// The address whose bits are all zero.
    pub fn zero() -> (a: Address)
        ensures
            a == (Address { hi: 0, lo: 0 }),
    {
        Address { hi: 0, lo: 0 }
    }
}

impl H256 {
    /// The word whose bits are all zero.
    pub fn zero() -> (h: H256)
        ensures
            h == (H256 { hi: 0, lo: 0 }),
    {
        H256 { hi: 0, lo: 0 }
    }

    /// Whether every bit of the word is zero.
    pub open spec fn spec_is_zero(&self) -> bool {
        self.hi == 0 && self.lo == 0
    }

    /// Whether every bit of the word is zero.
    #[verifier::when_used_as_spec(spec_is_zero)]
    pub fn is_zero(&self) -> (zero: bool)
        ensures
            zero == self.spec_is_zero(),
    {
        self.hi == 0 && self.lo == 0
    }

    /// The big-endian word of a number: the same 256 bits.
    pub open spec fn spec_from_u256(n: U256) -> H256 {
        H256 { hi: n.hi, lo: n.lo }
    }

    /// The big-endian word of a number: the same 256 bits.
    #[verifier::when_used_as_spec(spec_from_u256)]
    pub fn from_u256(n: U256) -> (h: H256)
        ensures
            h == H256::spec_from_u256(n),
            h.value() == n.value(),
    {
        H256 { hi: n.hi, lo: n.lo }
    }
}

impl U256 {
    /// The number zero.
    pub fn zero() -> (n: U256)
        ensures
            n == (U256 { hi: 0, lo: 0 }),
            n.value() == 0,
    {
        U256 { hi: 0, lo: 0 }
    }

    /// The 256-bit number equal to `n`.
    pub open spec fn spec_from_u64(n: u64) -> U256 {
        U256 { hi: 0, lo: n as u128 }
    }

    /// The 256-bit number equal to `n`.
    #[verifier::when_used_as_spec(spec_from_u64)]
    pub fn from_u64(n: u64) -> (wide: U256)
        ensures
            wide == U256::spec_from_u64(n),
            wide.value() == n,
    {
        U256 { hi: 0, lo: n as u128 }
    }

    /// Whether the number is zero.
    pub fn is_zero(&self) -> (zero: bool)
        ensures
            zero == (self.value() == 0),
    {
        self.hi == 0 && self.lo == 0
    }
}

impl Word for Address {
    open spec fn value(self) -> int {
        self.hi as int * limb_weight() + self.lo as int
    }

    proof fn value_is_injective(a: Self, b: Self) {
    }

    fn is_below(&self, other: &Self) -> (below: bool) {
        self.hi < other.hi || (self.hi == other.hi && self.lo < other.lo)
    }

    fn is_same(&self, other: &Self) -> (same: bool) {
        self.hi == other.hi && self.lo == other.lo
    }
}

impl Word for H256 {
    open spec fn value(self) -> int {
        self.hi as int * limb_weight() + self.lo as int
    }

    proof fn value_is_injective(a: Self, b: Self) {
    }

    fn is_below(&self, other: &Self) -> (below: bool) {
        self.hi < other.hi || (self.hi == other.hi && self.lo < other.lo)
    }

    fn is_same(&self, other: &Self) -> (same: bool) {
        self.hi == other.hi && self.lo == other.lo
    }
}

impl Word for U256 {
    open spec fn value(self) -> int {
        self.hi as int * limb_weight() + self.lo as int
    }

    proof fn value_is_injective(a: Self, b: Self) {
    }

    fn is_below(&self, other: &Self) -> (below: bool) {
        self.hi < other.hi || (self.hi == other.hi && self.lo < other.lo)
    }

    fn is_same(&self, other: &Self) -> (same: bool) {
        self.hi == other.hi && self.lo == other.lo
    }
}

/// A copy of `bytes`.
pub fn copy_bytes(bytes: &Vec<u8>) -> (copy: Vec<u8>)
    ensures
        copy@ == bytes@,
{
    let mut copy: Vec<u8> = Vec::new();
    let mut at: usize = 0;
    while at < bytes.len()
        invariant
            at <= bytes.len(),
            copy@ == bytes@.subrange(0, at as int),
        decreases bytes.len() - at,
    {
        copy.push(bytes[at]);
        assert(copy@ =~= bytes@.subrange(0, at as int + 1));
        at += 1;
    }
    assert(copy@ =~= bytes@);
    copy
}

/// A copy of `words`.
pub fn copy_words(words: &Vec<H256>) -> (copy: Vec<H256>)
    ensures
        copy@ == words@,
{
    let mut copy: Vec<H256> = Vec::new();
    let mut at: usize = 0;
    while at < words.len()
        invariant
            at <= words.len(),
            copy@ == words@.subrange(0, at as int),
        decreases words.len() - at,
    {
        copy.push(words[at]);
        assert(copy@ =~= words@.subrange(0, at as int + 1));
        at += 1;
    }
    assert(copy@ =~= words@);
    copy
}

} // verus!
