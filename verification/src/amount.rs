use stylus_sdk::alloy_primitives::U256;
use vstd::prelude::*;
use vstd::std_specs::cmp::PartialEqSpecImpl;

verus! {

/// The first number that no amount can hold: two to the power 256.
pub open spec fn amount_limit() -> nat {
    0x1_0000_0000_0000_0000_0000_0000_0000_0000_0000_0000_0000_0000_0000_0000_0000_0000nat
}

/// The number that four 64-bit limbs stand for, least significant limb first.
pub open spec fn limbs_value(limbs: [u64; 4]) -> nat {
    (limbs[0] as nat) + (limbs[1] as nat) * 0x1_0000_0000_0000_0000 + (limbs[2] as nat)
        * 0x1_0000_0000_0000_0000_0000_0000_0000_0000 + (limbs[3] as nat)
        * 0x1_0000_0000_0000_0000_0000_0000_0000_0000_0000_0000_0000_0000
}

/// Every choice of limbs stands for a number below the limit.
pub proof fn lemma_limbs_value_bounded(limbs: [u64; 4])
    ensures
        limbs_value(limbs) < amount_limit(),
{
}

/// Different limbs stand for different numbers.
pub proof fn lemma_limbs_value_injective(a: [u64; 4], b: [u64; 4])
    requires
        limbs_value(a) == limbs_value(b),
    ensures
        a == b,
{
    assert(a[3] == b[3]);
    assert(a[2] == b[2]);
    assert(a[1] == b[1]);
    assert(a[0] == b[0]);
    assert(a =~= b);
}

/// Calls `Uint::checked_add` of ruint on `U256`, that is `Uint<256, 4>`, built from
/// the limbs with `Uint::from_limbs` and taken apart with `Uint::into_limbs`.
/// Believed of it: the result is the sum where the sum is below two to the power
/// 256, and nothing where it is not.
#[verifier::external_body]
fn limbs_checked_add(a: [u64; 4], b: [u64; 4]) -> (r: Option<[u64; 4]>)
    ensures
        limbs_value(a) + limbs_value(b) < amount_limit() ==> r is Some && limbs_value(r.unwrap())
            == limbs_value(a) + limbs_value(b),
        limbs_value(a) + limbs_value(b) >= amount_limit() ==> r is None,
{
    match U256::from_limbs(a).checked_add(U256::from_limbs(b)) {
        Some(sum) => Some(sum.into_limbs()),
        None => None,
    }
}

/// Calls `Uint::wrapping_sub` of ruint on `U256`, built from the limbs and taken
/// apart as above. Believed of it: the result is the difference modulo two to the
/// power 256, so the difference itself where `b` is no larger than `a`.
#[verifier::external_body]
fn limbs_wrapping_sub(a: [u64; 4], b: [u64; 4]) -> (r: [u64; 4])
    ensures
        limbs_value(a) >= limbs_value(b) ==> limbs_value(r) == limbs_value(a) - limbs_value(b),
        limbs_value(a) < limbs_value(b) ==> limbs_value(r) == limbs_value(a) + amount_limit()
            - limbs_value(b),
{
    U256::from_limbs(a).wrapping_sub(U256::from_limbs(b)).into_limbs()
}

/// Calls `<`, the `PartialOrd::lt` that ruint implements for `Uint`, on `U256` built
/// from the limbs as above. Believed of it: it orders by the numbers that the limbs
/// stand for.
#[verifier::external_body]
fn limbs_less(a: [u64; 4], b: [u64; 4]) -> (r: bool)
    ensures
        r == (limbs_value(a) < limbs_value(b)),
{
    U256::from_limbs(a) < U256::from_limbs(b)
}

/// A quantity of the token: an unsigned integer of 256 bits.
#[derive(Clone, Copy, Debug, Eq, Hash)]
pub struct Amount {
    pub limbs: [u64; 4],
}

impl View for Amount {
    type V = nat;

    open spec fn view(&self) -> nat {
        limbs_value(self.limbs)
    }
}

impl Amount {
    /// The amount zero.
    pub fn zero() -> (r: Amount)
        ensures
            r@ == 0,
    {
        Amount { limbs: [0u64; 4] }
    }

    /// The amount that a 64-bit number stands for.
    pub fn from_u64(value: u64) -> (r: Amount)
        ensures
            r@ == value,
    {
        Amount { limbs: [value, 0u64, 0u64, 0u64] }
    }

    /// The amount with the given limbs, least significant first.
    pub fn from_limbs(limbs: [u64; 4]) -> (r: Amount)
        ensures
            r.limbs == limbs,
            r@ == limbs_value(limbs),
    {
        Amount { limbs }
    }

    /// The limbs of this amount, least significant first.
    pub fn into_limbs(self) -> (r: [u64; 4])
        ensures
            r == self.limbs,
            limbs_value(r) == self@,
    {
        self.limbs
    }

    /// Tells whether this amount is zero.
    pub fn is_zero(&self) -> (r: bool)
        ensures
            r == (self@ == 0),
    {
        self.limbs[0] == 0 && self.limbs[1] == 0 && self.limbs[2] == 0 && self.limbs[3] == 0
    }

    /// Tells whether this amount is smaller than the other.
    pub fn lt(&self, other: &Amount) -> (r: bool)
        ensures
            r == (self@ < other@),
    {
        limbs_less(self.limbs, other.limbs)
    }

    /// The sum of two amounts, or nothing where 256 bits cannot hold it.
    pub fn checked_add(self, rhs: Amount) -> (r: Option<Amount>)
        ensures
            self@ + rhs@ < amount_limit() ==> r is Some && r.unwrap()@ == self@ + rhs@,
            self@ + rhs@ >= amount_limit() ==> r is None,
    {
        match limbs_checked_add(self.limbs, rhs.limbs) {
            Some(limbs) => Some(Amount { limbs }),
            None => None,
        }
    }

    /// What is left of this amount once `rhs`, which is no larger, is taken from it.
    pub fn sub(self, rhs: Amount) -> (r: Amount)
        requires
            rhs@ <= self@,
        ensures
            r@ == self@ - rhs@,
    {
        Amount { limbs: limbs_wrapping_sub(self.limbs, rhs.limbs) }
    }

    /// An amount is below the limit.
    pub proof fn lemma_bounded(self)
        ensures
            self@ < amount_limit(),
    {
        lemma_limbs_value_bounded(self.limbs);
    }

    /// Amounts that stand for the same number are the same amount.
    pub proof fn lemma_view_injective(self, other: Amount)
        requires
            self@ == other@,
        ensures
            self == other,
    {
        lemma_limbs_value_injective(self.limbs, other.limbs);
    }
}

impl PartialEq for Amount {
    fn eq(&self, other: &Amount) -> (r: bool) {
        let same = self.limbs[0] == other.limbs[0] && self.limbs[1] == other.limbs[1]
            && self.limbs[2] == other.limbs[2] && self.limbs[3] == other.limbs[3];
        proof {
            if same {
                assert(self.limbs =~= other.limbs);
            }
        }
        same
    }
}

impl PartialEqSpecImpl for Amount {
    open spec fn obeys_eq_spec() -> bool {
        true
    }

    open spec fn eq_spec(&self, other: &Amount) -> bool {
        *self == *other
    }
}

} // verus!
