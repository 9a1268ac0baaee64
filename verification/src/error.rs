use crate::address::Address;
use crate::amount::Amount;
use vstd::prelude::*;

verus! {

/// Why an operation on the token was refused. A refused operation changes nothing.
#[derive(Clone, Copy, Debug, PartialEq, Eq)]
pub enum ERC20Error {
    /// `account` holds `balance`, which is less than the `needed` amount.
    InsufficientBalance { account: Address, balance: Amount, needed: Amount },
    /// `spender` may spend `allowance` of what `owner` holds, which is less than the
    /// `needed` amount.
    InsufficientAllowance { owner: Address, spender: Address, allowance: Amount, needed: Amount },
    /// The receiver is the reserved identifier.
    InvalidReceiver,
    /// The sender is the reserved identifier. No operation of this crate answers with
    /// it; it is kept for callers that check the source of a transfer themselves.
    InvalidSender,
    /// The approving owner is the reserved identifier.
    InvalidApprover,
    /// The approved spender is the reserved identifier.
    InvalidSpender,
    /// The result would not fit in 256 bits.
    Overflow,
}

} // verus!
