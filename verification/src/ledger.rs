use crate::address::Address;
use crate::amount::{amount_limit, Amount};
use crate::error::ERC20Error;
use crate::state::recorded;
use vstd::prelude::*;

verus! {

/// What one account holds.
struct Holding {
    account: Address,
    amount: Amount,
}

spec fn listed(entries: Seq<Holding>, account: Address) -> bool {
    exists|i: int| 0 <= i < entries.len() && #[trigger] entries[i].account == account
}

spec fn place(entries: Seq<Holding>, account: Address) -> int {
    choose|i: int| 0 <= i < entries.len() && #[trigger] entries[i].account == account
}

spec fn held(entries: Seq<Holding>, account: Address) -> nat {
    if listed(entries, account) {
        entries[place(entries, account)].amount@
    } else {
        0
    }
}

spec fn distinct(entries: Seq<Holding>) -> bool {
    forall|i: int, j: int|
        0 <= i < j < entries.len() ==> (#[trigger] entries[i]).account != (
        #[trigger] entries[j]).account
}

spec fn accounts_of(entries: Seq<Holding>) -> Seq<Address> {
    Seq::new(entries.len(), |i: int| entries[i].account)
}

proof fn lemma_held_at(entries: Seq<Holding>, i: int)
    requires
        distinct(entries),
        0 <= i < entries.len(),
    ensures
        listed(entries, entries[i].account),
        held(entries, entries[i].account) == entries[i].amount@,
{
    let account = entries[i].account;
    let p = place(entries, account);
    if p < i {
        assert(entries[p].account != entries[i].account);
    } else if i < p {
        assert(entries[i].account != entries[p].account);
    }
}

proof fn lemma_listed_is_contained(entries: Seq<Holding>, account: Address)
    ensures
        listed(entries, account) == accounts_of(entries).contains(account),
{
    let accounts = accounts_of(entries);
    if listed(entries, account) {
        let i = place(entries, account);
        assert(accounts[i] == account);
    }
    if accounts.contains(account) {
        let i = choose|i: int| 0 <= i < accounts.len() && accounts[i] == account;
        assert(entries[i].account == account);
    }
}

/// The balances of all accounts and the total supply. An account without an entry
/// holds nothing.
pub struct Ledger {
    entries: Vec<Holding>,
    total: Amount,
}

impl Ledger {
    /// The accounts that have an entry, in the order in which they got it.
    pub closed spec fn holders(&self) -> Seq<Address> {
        accounts_of(self.entries@)
    }

    /// What each account holds; every account has a balance.
    pub closed spec fn balances(&self) -> Map<Address, nat> {
        Map::total(|account: Address| held(self.entries@, account))
    }

    /// The total supply.
    pub closed spec fn supply(&self) -> nat {
        self.total@
    }

    /// No account has two entries. This holds of a new ledger, and every operation
    /// keeps it.
    pub closed spec fn wf(&self) -> bool {
        distinct(self.entries@)
    }

    /// Every account has a balance, and the supply fits in 256 bits.
    pub proof fn lemma_total(&self)
        ensures
            forall|account: Address| self.balances().contains_key(account),
            self.supply() < amount_limit(),
    {
        self.total.lemma_bounded();
    }

    /// A ledger without entries and with no supply.
    pub fn new() -> (r: Ledger)
        ensures
            r.wf(),
            r.supply() == 0,
            r.holders() == Seq::<Address>::empty(),
            forall|account: Address| r.balances()[account] == 0,
    {
        let r = Ledger { entries: Vec::new(), total: Amount::zero() };
        proof {
            assert(r.holders() =~= Seq::<Address>::empty());
        }
        r
    }

    fn find(&self, account: &Address) -> (r: Option<usize>)
        ensures
            match r {
                Some(i) => i < self.entries@.len() && self.entries@[i as int].account == *account,
                None => !listed(self.entries@, *account),
            },
    {
        let mut i: usize = 0;
        while i < self.entries.len()
            invariant
                i <= self.entries@.len(),
                forall|j: int| 0 <= j < i ==> (#[trigger] self.entries@[j]).account != *account,
            decreases self.entries@.len() - i,
        {
            if self.entries[i].account == *account {
                return Some(i);
            }
            i += 1;
        }
        None
    }

    /// What `account` holds.
    pub fn balance_of(&self, account: Address) -> (r: Amount)
        requires
            self.wf(),
        ensures
            r@ == self.balances()[account],
    {
        match self.find(&account) {
            Some(i) => {
                proof {
                    lemma_held_at(self.entries@, i as int);
                }
                self.entries[i].amount
            },
            None => Amount::zero(),
        }
    }

    /// The total supply.
    pub fn total_supply(&self) -> (r: Amount)
        ensures
            r@ == self.supply(),
    {
        self.total
    }

    fn write(&mut self, account: Address, amount: Amount)
        requires
            old(self).wf(),
        ensures
            final(self).wf(),
            final(self).supply() == old(self).supply(),
            final(self).balances() == old(self).balances().insert(account, amount@),
            final(self).holders() == recorded(old(self).holders(), account, amount@),
    {
        let ghost before = self.entries@;
        let ghost old_balances = self.balances();
        let found = self.find(&account);
        proof {
            lemma_listed_is_contained(before, account);
        }
        match found {
            Some(i) => {
                self.entries[i] = Holding { account, amount };
                proof {
                    let after = self.entries@;
                    assert forall|k: int| 0 <= k < after.len() implies (#[trigger] after[k]).account
                        == before[k].account by {}
                    assert(distinct(after)) by {
                        assert forall|k: int, l: int| 0 <= k < l < after.len() implies (
                        #[trigger] after[k]).account != (#[trigger] after[l]).account by {
                            assert(before[k].account != before[l].account);
                        }
                    }
                    assert forall|a: Address| #[trigger]
                        self.balances()[a] == old_balances.insert(account, amount@)[a] by {
                        if listed(before, a) {
                            let p = place(before, a);
                            assert(after[p].account == a);
                            if p != i as int {
                                if a == account {
                                    if p < i as int {
                                        assert(before[p].account != before[i as int].account);
                                    } else {
                                        assert(before[i as int].account != before[p].account);
                                    }
                                }
                            }
                        } else {
                            if listed(after, a) {
                                let p = place(after, a);
                                assert(before[p].account == a);
                            }
                        }
                    }
                }
            },
            None => {
                if !amount.is_zero() {
                    self.entries.push(Holding { account, amount });
                    proof {
                        let after = self.entries@;
                        let n = before.len() as int;
                        assert(distinct(after)) by {
                            assert forall|k: int, l: int| 0 <= k < l < after.len() implies (
                            #[trigger] after[k]).account != (#[trigger] after[l]).account by {
                                if l < n {
                                    assert(before[k].account != before[l].account);
                                } else {
                                    assert(before[k].account != account);
                                }
                            }
                        }
                        assert forall|a: Address| #[trigger]
                            self.balances()[a] == old_balances.insert(account, amount@)[a] by {
                            if a == account {
                                lemma_held_at(after, n);
                            } else if listed(before, a) {
                                let p = place(before, a);
                                assert(after[p] == before[p]);
                            } else if listed(after, a) {
                                let p = place(after, a);
                                assert(before[p].account == a);
                            }
                        }
                    }
                } else {
                    proof {
                        assert(self.balances() =~= old_balances.insert(account, amount@));
                    }
                }
            },
        }
    }

    /// Adds `amount` to what `account` holds. Refused with `Overflow` where 256 bits
    /// cannot hold the new balance. The supply is left alone.
    pub fn credit(&mut self, account: Address, amount: Amount) -> (r: Result<(), ERC20Error>)
        requires
            old(self).wf(),
        ensures
            final(self).wf(),
            r is Ok <==> old(self).balances()[account] + amount@ < amount_limit(),
            r is Ok ==> {
                &&& final(self).balances() == old(self).balances().insert(
                    account,
                    old(self).balances()[account] + amount@,
                )
                &&& final(self).holders() == recorded(
                    old(self).holders(),
                    account,
                    old(self).balances()[account] + amount@,
                )
                &&& final(self).supply() == old(self).supply()
            },
            r is Err ==> r == Err::<(), ERC20Error>(ERC20Error::Overflow) && *final(self) == *old(
                self,
            ),
    {
        let balance = self.balance_of(account);
        match balance.checked_add(amount) {
            Some(sum) => {
                self.write(account, sum);
                Ok(())
            },
            None => Err(ERC20Error::Overflow),
        }
    }

    /// Takes `amount` from what `account` holds. Refused with `InsufficientBalance`
    /// where the account holds less. The supply is left alone.
    pub fn debit(&mut self, account: Address, amount: Amount) -> (r: Result<(), ERC20Error>)
        requires
            old(self).wf(),
        ensures
            final(self).wf(),
            r is Ok <==> amount@ <= old(self).balances()[account],
            r is Ok ==> {
                &&& final(self).balances() == old(self).balances().insert(
                    account,
                    (old(self).balances()[account] - amount@) as nat,
                )
                &&& final(self).holders() == recorded(
                    old(self).holders(),
                    account,
                    (old(self).balances()[account] - amount@) as nat,
                )
                &&& final(self).supply() == old(self).supply()
            },
            r is Err ==> {
                &&& r matches Err(ERC20Error::InsufficientBalance { account: who, balance, needed })
                &&& who == account
                &&& balance@ == old(self).balances()[account]
                &&& needed == amount
                &&& *final(self) == *old(self)
            },
    {
        let balance = self.balance_of(account);
        if balance.lt(&amount) {
            return Err(ERC20Error::InsufficientBalance { account, balance, needed: amount });
        }
        self.write(account, balance.sub(amount));
        Ok(())
    }

    /// Adds `amount` to the supply. Refused with `Overflow` where 256 bits cannot hold
    /// the new supply. The balances are left alone.
    pub(crate) fn raise_supply(&mut self, amount: Amount) -> (r: Result<(), ERC20Error>)
        requires
            old(self).wf(),
        ensures
            final(self).wf(),
            r is Ok <==> old(self).supply() + amount@ < amount_limit(),
            r is Ok ==> {
                &&& final(self).supply() == old(self).supply() + amount@
                &&& final(self).balances() == old(self).balances()
                &&& final(self).holders() == old(self).holders()
            },
            r is Err ==> r == Err::<(), ERC20Error>(ERC20Error::Overflow) && *final(self) == *old(
                self,
            ),
    {
        match self.total.checked_add(amount) {
            Some(sum) => {
                self.total = sum;
                Ok(())
            },
            None => Err(ERC20Error::Overflow),
        }
    }

    /// Takes `amount`, which is no more than the supply, from the supply. The balances
    /// are left alone.
    pub(crate) fn lower_supply(&mut self, amount: Amount)
        requires
            old(self).wf(),
            amount@ <= old(self).supply(),
        ensures
            final(self).wf(),
            final(self).supply() == old(self).supply() - amount@,
            final(self).balances() == old(self).balances(),
            final(self).holders() == old(self).holders(),
    {
        self.total = self.total.sub(amount);
    }
}

} // verus!
