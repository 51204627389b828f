//! Account identities and 256-bit quantities.
//!
//! An [`Address`] is twenty bytes; a [`U256`] is four 64-bit limbs, least
//! significant first, read in contracts through its view as a natural number.
//! The 256-bit arithmetic itself is done by `alloy_primitives`.

use vstd::prelude::*;
use vstd::std_specs::cmp::PartialEqSpecImpl;
use vstd::std_specs::convert::FromSpecImpl;

verus! {

/// A 160-bit account identity.
#[derive(Clone, Copy, Debug, Eq, Hash)]
pub struct Address(pub [u8; 20]);

impl Address {
    /// The null account: the synthetic source of minted tokens and the
    /// synthetic destination of burned ones.
    pub open spec fn spec_zero() -> Address {
        Address([0, 0, 0, 0, 0, 0, 0, 0, 0, 0, 0, 0, 0, 0, 0, 0, 0, 0, 0, 0])
    }

    #[verifier::when_used_as_spec(spec_zero)]
    pub fn zero() -> (r: Address)
        ensures
            r == Address::spec_zero(),
    {
        Address([0, 0, 0, 0, 0, 0, 0, 0, 0, 0, 0, 0, 0, 0, 0, 0, 0, 0, 0, 0])
    }
}

impl PartialEq for Address {
    fn eq(&self, other: &Address) -> (r: bool) {
        let mut i: usize = 0;
        while i < 20
            invariant
                i <= 20,
                forall|j: int| 0 <= j < i ==> self.0[j] == other.0[j],
            decreases 20 - i,
        {
            if self.0[i] != other.0[i] {
                return false;
            }
            i += 1;
        }
        assert(self.0 =~= other.0);
        true
    }
}

impl PartialEqSpecImpl for Address {
    open spec fn obeys_eq_spec() -> bool {
        true
    }

    open spec fn eq_spec(&self, other: &Address) -> bool {
        *self == *other
    }
}

impl From<[u8; 20]> for Address {
    fn from(bytes: [u8; 20]) -> (r: Address) {
        Address(bytes)
    }
}

impl FromSpecImpl<[u8; 20]> for Address {
    open spec fn obeys_from_spec() -> bool {
        true
    }

    open spec fn from_spec(bytes: [u8; 20]) -> Address {
        Address(bytes)
    }
}

impl From<u64> for U256 {
    fn from(value: u64) -> (r: U256) {
        U256 { limbs: [value, 0, 0, 0] }
    }
}

impl FromSpecImpl<u64> for U256 {
    open spec fn obeys_from_spec() -> bool {
        true
    }

    open spec fn from_spec(value: u64) -> U256 {
        U256 { limbs: [value, 0, 0, 0] }
    }
}

/// The number that four limbs stand for, least significant limb first.
pub open spec fn limbs_value(limbs: Seq<u64>) -> nat {
    (limbs[0] as nat) + (limbs[1] as nat) * 0x1_0000_0000_0000_0000nat + (limbs[2] as nat)
        * 0x1_0000_0000_0000_0000_0000_0000_0000_0000nat + (limbs[3] as nat)
        * 0x1_0000_0000_0000_0000_0000_0000_0000_0000_0000_0000_0000_0000nat
}

/// An unsigned 256-bit quantity.
#[derive(Clone, Copy, Debug, PartialEq, Eq, Hash)]
pub struct U256 {
    pub limbs: [u64; 4],
}

impl View for U256 {
    type V = nat;

    open spec fn view(&self) -> nat {
        limbs_value(self.limbs@)
    }
}

impl U256 {
    /// The largest quantity a `U256` can hold, `2^256 - 1`.
    pub open spec fn max_value() -> nat {
        0xffff_ffff_ffff_ffff_ffff_ffff_ffff_ffff_ffff_ffff_ffff_ffff_ffff_ffff_ffff_ffffnat
    }

    /// Every `U256` stands for a number no larger than [`U256::max_value`].
    pub proof fn lemma_in_range(self)
        ensures
            self@ <= U256::max_value(),
    {
    }

    /// Two `U256` that stand for the same number are the same value.
    pub proof fn lemma_view_injective(self, other: U256)
        requires
            self@ == other@,
        ensures
            self == other,
    {
        let a = self.limbs@;
        let b = other.limbs@;
        let base = 0x1_0000_0000_0000_0000nat;
        let a_high = (a[1] as nat) + (a[2] as nat) * base + (a[3] as nat) * base * base;
        let b_high = (b[1] as nat) + (b[2] as nat) * base + (b[3] as nat) * base * base;
        assert(self@ == (a[0] as nat) + a_high * base);
        assert(other@ == (b[0] as nat) + b_high * base);
        assert(a_high == b_high && a[0] == b[0]);
        let a_top = (a[2] as nat) + (a[3] as nat) * base;
        let b_top = (b[2] as nat) + (b[3] as nat) * base;
        assert(a_high == (a[1] as nat) + a_top * base);
        assert(b_high == (b[1] as nat) + b_top * base);
        assert(a_top == b_top && a[1] == b[1]);
        assert(a[3] == b[3] && a[2] == b[2]);
        assert(self.limbs =~= other.limbs);
    }

    pub fn zero() -> (r: U256)
        ensures
            r@ == 0,
    {
        U256 { limbs: [0, 0, 0, 0] }
    }

    /// The largest `U256`.
    pub fn max() -> (r: U256)
        ensures
            r@ == U256::max_value(),
    {
        U256 {
            limbs: [
                0xffff_ffff_ffff_ffff,
                0xffff_ffff_ffff_ffff,
                0xffff_ffff_ffff_ffff,
                0xffff_ffff_ffff_ffff,
            ],
        }
    }

    /// The quantity with the given limbs, least significant first.
    pub fn from_limbs(limbs: [u64; 4]) -> (r: U256)
        ensures
            r.limbs == limbs,
            r@ == limbs_value(limbs@),
    {
        U256 { limbs }
    }

    /// The limbs of the quantity, least significant first.
    pub fn into_limbs(self) -> (r: [u64; 4])
        ensures
            r == self.limbs,
            limbs_value(r@) == self@,
    {
        self.limbs
    }

    /// `self + rhs`, or `None` when the sum does not fit in 256 bits.
    ///
    /// Trusted: the sum is computed by `alloy_primitives::U256::checked_add`
    /// on the same limbs. It returns the exact sum when no carry leaves the
    /// top limb, and `None` otherwise. Any four limbs are a valid 256-bit
    /// value, so the conversion by `from_limbs` never panics.
    #[verifier::external_body]
    pub(crate) fn checked_add(self, rhs: U256) -> (r: Option<U256>)
        ensures
            match r {
                Some(sum) => sum@ == self@ + rhs@,
                None => self@ + rhs@ > U256::max_value(),
            },
    {
        let a = alloy_primitives::U256::from_limbs(self.limbs);
        let b = alloy_primitives::U256::from_limbs(rhs.limbs);
        match a.checked_add(b) {
            Some(sum) => Some(U256 { limbs: sum.into_limbs() }),
            None => None,
        }
    }

    /// `self - rhs`, or `None` when `rhs` is the larger.
    ///
    /// Trusted: the difference is computed by
    /// `alloy_primitives::U256::checked_sub` on the same limbs. It returns the
    /// exact difference when no borrow leaves the top limb, and `None`
    /// otherwise. Any four limbs are a valid 256-bit value, so the
    /// conversion by `from_limbs` never panics.
    #[verifier::external_body]
    pub(crate) fn checked_sub(self, rhs: U256) -> (r: Option<U256>)
        ensures
            match r {
                Some(difference) => difference@ + rhs@ == self@,
                None => self@ < rhs@,
            },
    {
        let a = alloy_primitives::U256::from_limbs(self.limbs);
        let b = alloy_primitives::U256::from_limbs(rhs.limbs);
        match a.checked_sub(b) {
            Some(difference) => Some(U256 { limbs: difference.into_limbs() }),
            None => None,
        }
    }
}

} // verus!
