use crate::address::Address;
use crate::amount::{amount_limit, Amount};
use crate::erc20::{ERC20, ERC20Params};
use crate::error::ERC20Error;
use crate::notification::Transfer;
use crate::state::State;
use vstd::prelude::*;

verus! {

/// A token named "Mock ERC20" that anyone may mint and burn. It owns its token and
/// hands every other operation to it through the field.
pub struct Mock {
    pub erc20: ERC20,
}

impl View for Mock {
    type V = State;

    open spec fn view(&self) -> State {
        self.erc20@
    }
}

impl Mock {
    /// The token inside is sound.
    pub open spec fn wf(&self) -> bool {
        self.erc20.wf()
    }

    /// The mock token with no supply.
    pub fn new() -> (r: Mock)
        ensures
            r.wf(),
            r@ == State::empty("Mock ERC20"@, "MOCK"@),
    {
        let params = ERC20Params { name: "Mock ERC20".to_owned(), symbol: "MOCK".to_owned() };
        Mock { erc20: ERC20::new(params) }
    }

    /// Creates `amount` and gives it to `to`.
    ///
    /// Refused with `InvalidReceiver` where `to` is the reserved identifier, and
    /// otherwise with `Overflow` where 256 bits cannot hold the new supply.
    pub fn mint(&mut self, to: Address, amount: Amount) -> (r: Result<Transfer, ERC20Error>)
        requires
            old(self).wf(),
        ensures
            final(self).wf(),
            r is Ok <==> !to.is_null() && old(self)@.supply + amount@ < amount_limit(),
            r matches Ok(notice) ==> {
                &&& final(self)@ == old(self)@.minted(to, amount@)
                &&& notice.from.is_null()
                &&& notice.to == to
                &&& notice.value == amount
            },
            r is Err ==> *final(self) == *old(self),
            to.is_null() ==> r == Err::<Transfer, ERC20Error>(ERC20Error::InvalidReceiver),
            !to.is_null() && old(self)@.supply + amount@ >= amount_limit() ==> r == Err::<
                Transfer,
                ERC20Error,
            >(ERC20Error::Overflow),
    {
        self.erc20._mint(to, amount)
    }

    /// Destroys `amount` of what `from` holds.
    ///
    /// Refused with `InsufficientBalance` where `from` holds less than `amount`.
    pub fn burn(&mut self, from: Address, amount: Amount) -> (r: Result<Transfer, ERC20Error>)
        requires
            old(self).wf(),
        ensures
            final(self).wf(),
            r is Ok <==> amount@ <= old(self)@.balances[from],
            r matches Ok(notice) ==> {
                &&& final(self)@ == old(self)@.burned(from, amount@)
                &&& notice.from == from
                &&& notice.to.is_null()
                &&& notice.value == amount
            },
            r is Err ==> {
                &&& r matches Err(ERC20Error::InsufficientBalance { account, balance, needed })
                &&& account == from
                &&& balance@ == old(self)@.balances[from]
                &&& needed == amount
                &&& *final(self) == *old(self)
            },
    {
        self.erc20._burn(from, amount)
    }
}

} // verus!
