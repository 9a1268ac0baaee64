use crate::address::Address;
use crate::allowances::AllowanceRegistry;
use crate::amount::{amount_limit, Amount};
use crate::error::ERC20Error;
use crate::ledger::Ledger;
use crate::notification::{Approval, Transfer};
use crate::state::{
    lemma_approved_is_sound, lemma_balance_within_sum, lemma_burned_is_sound, lemma_debited,
    lemma_empty_is_sound, lemma_minted_is_sound, lemma_moved_is_sound, lemma_spent_is_sound, State,
};
use vstd::prelude::*;

verus! {

/// What a token is called.
pub struct ERC20Params {
    pub name: String,
    pub symbol: String,
}

/// A fungible token: a ledger of balances, a registry of allowances, and the
/// operations that move units between accounts, create them and destroy them.
///
/// Every operation either succeeds, changes the state as its contract says and
/// hands back the notice to publish, or is refused and changes nothing. The caller
/// of an operation is an argument: finding out who calls is the embedder's part,
/// as is publishing the notice.
pub struct ERC20 {
    params: ERC20Params,
    ledger: Ledger,
    allowances: AllowanceRegistry,
}

impl View for ERC20 {
    type V = State;

    closed spec fn view(&self) -> State {
        State {
            name: self.params.name@,
            symbol: self.params.symbol@,
            holders: self.ledger.holders(),
            balances: self.ledger.balances(),
            allowances: self.allowances.allowances(),
            supply: self.ledger.supply(),
        }
    }
}

impl ERC20 {
    /// The token is stored soundly: no account and no pair is stored twice, and its
    /// state is sound. This holds of a new token, and every operation keeps it,
    /// whether it succeeds or is refused.
    pub closed spec fn wf(&self) -> bool {
        &&& self.ledger.wf()
        &&& self.allowances.wf()
        &&& self@.sound()
    }

    /// The state of a token that is stored soundly is sound: among other things, its
    /// supply is the sum of its balances.
    pub proof fn lemma_sound(&self)
        requires
            self.wf(),
        ensures
            self@.sound(),
    {
    }

    /// Both maps of the state have an entry for every key.
    pub proof fn lemma_state_is_total(&self)
        ensures
            forall|account: Address| self@.balances.contains_key(account),
            forall|pair: (Address, Address)| self@.allowances.contains_key(pair),
    {
        self.ledger.lemma_total();
        self.allowances.lemma_total();
    }

    /// A token of the given name and symbol in which nobody holds anything.
    pub fn new(params: ERC20Params) -> (r: ERC20)
        ensures
            r.wf(),
            r@ == State::empty(params.name@, params.symbol@),
    {
        let r = ERC20 { params, ledger: Ledger::new(), allowances: AllowanceRegistry::new() };
        proof {
            r.ledger.lemma_total();
            r.allowances.lemma_total();
            assert(r@.balances =~= State::empty(params.name@, params.symbol@).balances);
            assert(r@.allowances =~= State::empty(params.name@, params.symbol@).allowances);
            lemma_empty_is_sound(params.name@, params.symbol@);
        }
        r
    }

    /// The token's name.
    pub fn name(&self) -> (r: Result<String, ()>)
        ensures
            r matches Ok(name) && name@ == self@.name,
    {
        Ok(self.params.name.clone())
    }

    /// The token's symbol.
    pub fn symbol(&self) -> (r: Result<String, ()>)
        ensures
            r matches Ok(symbol) && symbol@ == self@.symbol,
    {
        Ok(self.params.symbol.clone())
    }

    /// The total supply.
    #[allow(non_snake_case)]
    pub fn totalSupply(&self) -> (r: Result<Amount, ()>)
        ensures
            r matches Ok(supply) && supply@ == self@.supply,
    {
        Ok(self.ledger.total_supply())
    }

    /// What `owner` holds: zero for an account that was never credited.
    #[allow(non_snake_case)]
    pub fn balanceOf(&self, owner: Address) -> (r: Result<Amount, ()>)
        requires
            self.wf(),
        ensures
            r matches Ok(balance) && balance@ == self@.balances[owner],
    {
        Ok(self.ledger.balance_of(owner))
    }

    /// What `owner` lets `spender` spend: zero where nothing was approved.
    pub fn allowance(&self, owner: Address, spender: Address) -> (r: Result<Amount, ()>)
        requires
            self.wf(),
        ensures
            r matches Ok(allowance) && allowance@ == self@.allowances[(owner, spender)],
    {
        Ok(self.allowances.allowance(owner, spender))
    }

    /// Moves `amount` from `caller` to `receiver`.
    ///
    /// Refused with `InvalidReceiver` where `receiver` is the reserved identifier, and
    /// otherwise with `InsufficientBalance` where `caller` holds less than `amount`.
    pub fn transfer(&mut self, caller: Address, receiver: Address, amount: Amount) -> (r: Result<
        Transfer,
        ERC20Error,
    >)
        requires
            old(self).wf(),
        ensures
            final(self).wf(),
            r is Ok <==> !receiver.is_null() && amount@ <= old(self)@.balances[caller],
            r matches Ok(notice) ==> {
                &&& final(self)@ == old(self)@.moved(caller, receiver, amount@)
                &&& notice == (Transfer { from: caller, to: receiver, value: amount })
            },
            r is Err ==> *final(self) == *old(self),
            receiver.is_null() ==> r == Err::<Transfer, ERC20Error>(ERC20Error::InvalidReceiver),
            !receiver.is_null() && amount@ > old(self)@.balances[caller] ==> {
                &&& r matches Err(ERC20Error::InsufficientBalance { account, balance, needed })
                &&& account == caller
                &&& balance@ == old(self)@.balances[caller]
                &&& needed == amount
            },
    {
        if receiver.is_zero() {
            return Err(ERC20Error::InvalidReceiver);
        }
        self.move_funds(caller, receiver, amount)
    }

    /// Moves `amount` from `sender` to `receiver` on behalf of `caller`. A caller other
    /// than `sender` pays for it out of the allowance that `sender` gave; `sender`
    /// itself needs none, and none is touched.
    ///
    /// Refused with `InsufficientAllowance` where the caller is not `sender` and its
    /// allowance is less than `amount`; otherwise with `InvalidReceiver` where
    /// `receiver` is the reserved identifier; otherwise with `InsufficientBalance`
    /// where `sender` holds less than `amount`.
    #[allow(non_snake_case)]
    pub fn transferFrom(
        &mut self,
        caller: Address,
        sender: Address,
        receiver: Address,
        amount: Amount,
    ) -> (r: Result<Transfer, ERC20Error>)
        requires
            old(self).wf(),
        ensures
            final(self).wf(),
            r is Ok <==> {
                &&& caller == sender || amount@ <= old(self)@.allowances[(sender, caller)]
                &&& !receiver.is_null()
                &&& amount@ <= old(self)@.balances[sender]
            },
            r matches Ok(notice) ==> {
                &&& final(self)@ == old(self)@.transferred_from(caller, sender, receiver, amount@)
                &&& notice == (Transfer { from: sender, to: receiver, value: amount })
                &&& caller == sender ==> final(self)@.allowances == old(self)@.allowances
                &&& caller != sender ==> final(self)@.allowances[(sender, caller)] == old(
                    self,
                )@.allowances[(sender, caller)] - amount@
            },
            r is Err ==> *final(self) == *old(self),
            caller != sender && amount@ > old(self)@.allowances[(sender, caller)] ==> {
                &&& r matches Err(
                    ERC20Error::InsufficientAllowance { owner, spender, allowance, needed },
                )
                &&& owner == sender
                &&& spender == caller
                &&& allowance@ == old(self)@.allowances[(sender, caller)]
                &&& needed == amount
            },
            (caller == sender || amount@ <= old(self)@.allowances[(sender, caller)])
                && receiver.is_null() ==> r == Err::<Transfer, ERC20Error>(
                ERC20Error::InvalidReceiver,
            ),
            (caller == sender || amount@ <= old(self)@.allowances[(sender, caller)])
                && !receiver.is_null() && amount@ > old(self)@.balances[sender] ==> {
                &&& r matches Err(ERC20Error::InsufficientBalance { account, balance, needed })
                &&& account == sender
                &&& balance@ == old(self)@.balances[sender]
                &&& needed == amount
            },
    {
        let delegated = caller != sender;
        if delegated {
            let allowance = self.allowances.allowance(sender, caller);
            if allowance.lt(&amount) {
                return Err(
                    ERC20Error::InsufficientAllowance {
                        owner: sender,
                        spender: caller,
                        allowance,
                        needed: amount,
                    },
                );
            }
        }
        if receiver.is_zero() {
            return Err(ERC20Error::InvalidReceiver);
        }
        let balance = self.ledger.balance_of(sender);
        if balance.lt(&amount) {
            return Err(ERC20Error::InsufficientBalance { account: sender, balance, needed: amount });
        }
        // Every check has passed: the allowance, the debit and the credit below are
        // not refused.
        if delegated {
            match self.allowances.spend(sender, caller, amount) {
                Ok(()) => {},
                Err(e) => {
                    return Err(e);
                },
            }
            proof {
                lemma_spent_is_sound(old(self)@, sender, caller, amount@);
            }
        }
        self.move_funds(sender, receiver, amount)
    }

    /// Sets what `caller` lets `spender` spend to `amount`, whatever it was before.
    ///
    /// Refused with `InvalidApprover` where `caller` is the reserved identifier, and
    /// otherwise with `InvalidSpender` where `spender` is.
    pub fn approve(&mut self, caller: Address, spender: Address, amount: Amount) -> (r: Result<
        Approval,
        ERC20Error,
    >)
        requires
            old(self).wf(),
        ensures
            final(self).wf(),
            r is Ok <==> !caller.is_null() && !spender.is_null(),
            r matches Ok(notice) ==> {
                &&& final(self)@ == old(self)@.approved(caller, spender, amount@)
                &&& final(self)@.allowances[(caller, spender)] == amount@
                &&& notice == (Approval { owner: caller, spender, value: amount })
            },
            r is Err ==> *final(self) == *old(self),
            caller.is_null() ==> r == Err::<Approval, ERC20Error>(ERC20Error::InvalidApprover),
            !caller.is_null() && spender.is_null() ==> r == Err::<Approval, ERC20Error>(
                ERC20Error::InvalidSpender,
            ),
    {
        match self.allowances.approve(caller, spender, amount) {
            Ok(()) => {
                proof {
                    lemma_approved_is_sound(old(self)@, caller, spender, amount@);
                }
                Ok(Approval { owner: caller, spender, value: amount })
            },
            Err(e) => Err(e),
        }
    }

    /// Creates `amount` and gives it to `receiver`.
    ///
    /// Refused with `InvalidReceiver` where `receiver` is the reserved identifier, and
    /// otherwise with `Overflow` where 256 bits cannot hold the new supply.
    pub fn _mint(&mut self, receiver: Address, amount: Amount) -> (r: Result<Transfer, ERC20Error>)
        requires
            old(self).wf(),
        ensures
            final(self).wf(),
            r is Ok <==> !receiver.is_null() && old(self)@.supply + amount@ < amount_limit(),
            r matches Ok(notice) ==> {
                &&& final(self)@ == old(self)@.minted(receiver, amount@)
                &&& notice.from.is_null()
                &&& notice.to == receiver
                &&& notice.value == amount
            },
            r is Err ==> *final(self) == *old(self),
            receiver.is_null() ==> r == Err::<Transfer, ERC20Error>(ERC20Error::InvalidReceiver),
            !receiver.is_null() && old(self)@.supply + amount@ >= amount_limit() ==> r == Err::<
                Transfer,
                ERC20Error,
            >(ERC20Error::Overflow),
    {
        if receiver.is_zero() {
            return Err(ERC20Error::InvalidReceiver);
        }
        if self.ledger.total_supply().checked_add(amount).is_none() {
            return Err(ERC20Error::Overflow);
        }
        // The receiver holds no more than the supply, so the credit fits where the new
        // supply does: from here on nothing is refused.
        proof {
            lemma_balance_within_sum(self@, receiver);
        }
        match self.ledger.credit(receiver, amount) {
            Ok(()) => {},
            Err(e) => {
                return Err(e);
            },
        }
        match self.ledger.raise_supply(amount) {
            Ok(()) => {},
            Err(e) => {
                return Err(e);
            },
        }
        proof {
            lemma_minted_is_sound(old(self)@, receiver, amount@);
        }
        Ok(Transfer { from: Address::null(), to: receiver, value: amount })
    }

    /// Destroys `amount` of what `account` holds.
    ///
    /// Refused with `InsufficientBalance` where `account` holds less than `amount`.
    pub fn _burn(&mut self, account: Address, amount: Amount) -> (r: Result<Transfer, ERC20Error>)
        requires
            old(self).wf(),
        ensures
            final(self).wf(),
            r is Ok <==> amount@ <= old(self)@.balances[account],
            r matches Ok(notice) ==> {
                &&& final(self)@ == old(self)@.burned(account, amount@)
                &&& notice.from == account
                &&& notice.to.is_null()
                &&& notice.value == amount
            },
            r is Err ==> {
                &&& r matches Err(ERC20Error::InsufficientBalance { account: who, balance, needed })
                &&& who == account
                &&& balance@ == old(self)@.balances[account]
                &&& needed == amount
                &&& *final(self) == *old(self)
            },
    {
        match self.ledger.debit(account, amount) {
            Ok(()) => {},
            Err(e) => {
                return Err(e);
            },
        }
        // What was taken from the account was part of the supply.
        proof {
            lemma_balance_within_sum(old(self)@, account);
        }
        self.ledger.lower_supply(amount);
        proof {
            lemma_burned_is_sound(old(self)@, account, amount@);
        }
        Ok(Transfer { from: account, to: Address::null(), value: amount })
    }

    /// Takes `amount` from `from` and gives it to `to`, which is not the reserved
    /// identifier.
    fn move_funds(&mut self, from: Address, to: Address, amount: Amount) -> (r: Result<
        Transfer,
        ERC20Error,
    >)
        requires
            old(self).wf(),
            !to.is_null(),
        ensures
            final(self).wf(),
            r is Ok <==> amount@ <= old(self)@.balances[from],
            r matches Ok(notice) ==> {
                &&& final(self)@ == old(self)@.moved(from, to, amount@)
                &&& notice == (Transfer { from, to, value: amount })
            },
            r is Err ==> {
                &&& r matches Err(ERC20Error::InsufficientBalance { account, balance, needed })
                &&& account == from
                &&& balance@ == old(self)@.balances[from]
                &&& needed == amount
                &&& *final(self) == *old(self)
            },
    {
        match self.ledger.debit(from, amount) {
            Ok(()) => {},
            Err(e) => {
                return Err(e);
            },
        }
        // What `to` holds and what was just taken are both part of the supply, so the
        // credit fits: it is never refused.
        proof {
            lemma_debited(old(self)@, from, amount@);
            lemma_balance_within_sum(old(self)@.debited(from, amount@), to);
        }
        match self.ledger.credit(to, amount) {
            Ok(()) => {},
            Err(e) => {
                return Err(e);
            },
        }
        proof {
            lemma_moved_is_sound(old(self)@, from, to, amount@);
        }
        Ok(Transfer { from, to, value: amount })
    }
}

} // verus!
