use crate::address::Address;
use crate::amount::Amount;
use vstd::prelude::*;

verus! {

/// Notice that `value` went from `from` to `to`. In a mint `from` is the reserved
/// identifier, in a burn `to` is.
#[derive(Clone, Copy, Debug, PartialEq, Eq)]
pub struct Transfer {
    pub from: Address,
    pub to: Address,
    pub value: Amount,
}

/// Notice that `owner` lets `spender` spend up to `value`.
#[derive(Clone, Copy, Debug, PartialEq, Eq)]
pub struct Approval {
    pub owner: Address,
    pub spender: Address,
    pub value: Amount,
}

} // verus!
