use crate::address::Address;
use crate::amount::Amount;
use crate::error::ERC20Error;
use vstd::prelude::*;

verus! {

/// What one owner lets one spender spend.
struct Grant {
    owner: Address,
    spender: Address,
    amount: Amount,
}

spec fn pair_of(grant: Grant) -> (Address, Address) {
    (grant.owner, grant.spender)
}

spec fn listed(entries: Seq<Grant>, pair: (Address, Address)) -> bool {
    exists|i: int| 0 <= i < entries.len() && #[trigger] pair_of(entries[i]) == pair
}

spec fn place(entries: Seq<Grant>, pair: (Address, Address)) -> int {
    choose|i: int| 0 <= i < entries.len() && #[trigger] pair_of(entries[i]) == pair
}

spec fn granted(entries: Seq<Grant>, pair: (Address, Address)) -> nat {
    if listed(entries, pair) {
        entries[place(entries, pair)].amount@
    } else {
        0
    }
}

spec fn distinct(entries: Seq<Grant>) -> bool {
    forall|i: int, j: int|
        0 <= i < j < entries.len() ==> #[trigger] pair_of(entries[i]) != #[trigger] pair_of(
            entries[j],
        )
}

proof fn lemma_granted_at(entries: Seq<Grant>, i: int)
    requires
        distinct(entries),
        0 <= i < entries.len(),
    ensures
        listed(entries, pair_of(entries[i])),
        granted(entries, pair_of(entries[i])) == entries[i].amount@,
{
    let pair = pair_of(entries[i]);
    let p = place(entries, pair);
    if p < i {
        assert(pair_of(entries[p]) != pair_of(entries[i]));
    } else if i < p {
        assert(pair_of(entries[i]) != pair_of(entries[p]));
    }
}

/// The spending rights that owners have given to spenders. A pair without an entry
/// stands for no right at all.
pub struct AllowanceRegistry {
    entries: Vec<Grant>,
}

impl AllowanceRegistry {
    /// What each owner lets each spender spend; every pair has an allowance.
    pub closed spec fn allowances(&self) -> Map<(Address, Address), nat> {
        Map::total(|pair: (Address, Address)| granted(self.entries@, pair))
    }

    /// No pair has two entries. This holds of a new registry, and every operation
    /// keeps it.
    pub closed spec fn wf(&self) -> bool {
        distinct(self.entries@)
    }

    /// Every pair has an allowance.
    pub proof fn lemma_total(&self)
        ensures
            forall|pair: (Address, Address)| self.allowances().contains_key(pair),
    {
    }

    /// A registry without entries.
    pub fn new() -> (r: AllowanceRegistry)
        ensures
            r.wf(),
            forall|pair: (Address, Address)| r.allowances()[pair] == 0,
    {
        AllowanceRegistry { entries: Vec::new() }
    }

    fn find(&self, owner: &Address, spender: &Address) -> (r: Option<usize>)
        ensures
            match r {
                Some(i) => i < self.entries@.len() && pair_of(self.entries@[i as int]) == (
                    *owner,
                    *spender,
                ),
                None => !listed(self.entries@, (*owner, *spender)),
            },
    {
        let mut i: usize = 0;
        while i < self.entries.len()
            invariant
                i <= self.entries@.len(),
                forall|j: int| 0 <= j < i ==> #[trigger] pair_of(self.entries@[j]) != (*owner, *spender),
            decreases self.entries@.len() - i,
        {
            if self.entries[i].owner == *owner && self.entries[i].spender == *spender {
                return Some(i);
            }
            i += 1;
        }
        None
    }

    /// What `owner` lets `spender` spend.
    pub fn allowance(&self, owner: Address, spender: Address) -> (r: Amount)
        requires
            self.wf(),
        ensures
            r@ == self.allowances()[(owner, spender)],
    {
        match self.find(&owner, &spender) {
            Some(i) => {
                proof {
                    lemma_granted_at(self.entries@, i as int);
                }
                self.entries[i].amount
            },
            None => Amount::zero(),
        }
    }

    fn write(&mut self, owner: Address, spender: Address, amount: Amount)
        requires
            old(self).wf(),
        ensures
            final(self).wf(),
            final(self).allowances() == old(self).allowances().insert((owner, spender), amount@),
    {
        let ghost before = self.entries@;
        let ghost old_allowances = self.allowances();
        let ghost pair = (owner, spender);
        let found = self.find(&owner, &spender);
        match found {
            Some(i) => {
                self.entries[i] = Grant { owner, spender, amount };
                proof {
                    let after = self.entries@;
                    assert forall|k: int| 0 <= k < after.len() implies #[trigger] pair_of(after[k])
                        == pair_of(before[k]) by {}
                    assert(distinct(after)) by {
                        assert forall|k: int, l: int| 0 <= k < l < after.len() implies #[trigger] pair_of(
                            after[k],
                        ) != #[trigger] pair_of(after[l]) by {
                            assert(pair_of(before[k]) != pair_of(before[l]));
                        }
                    }
                    assert forall|q: (Address, Address)| #[trigger]
                        self.allowances()[q] == old_allowances.insert(pair, amount@)[q] by {
                        if listed(before, q) {
                            let p = place(before, q);
                            assert(pair_of(after[p]) == q);
                            if p != i as int {
                                if q == pair {
                                    if p < i as int {
                                        assert(pair_of(before[p]) != pair_of(before[i as int]));
                                    } else {
                                        assert(pair_of(before[i as int]) != pair_of(before[p]));
                                    }
                                }
                            }
                        } else {
                            if listed(after, q) {
                                let p = place(after, q);
                                assert(pair_of(before[p]) == q);
                            }
                        }
                    }
                }
            },
            None => {
                if !amount.is_zero() {
                    self.entries.push(Grant { owner, spender, amount });
                    proof {
                        let after = self.entries@;
                        let n = before.len() as int;
                        assert(distinct(after)) by {
                            assert forall|k: int, l: int| 0 <= k < l < after.len() implies #[trigger] pair_of(
                                after[k],
                            ) != #[trigger] pair_of(after[l]) by {
                                if l < n {
                                    assert(pair_of(before[k]) != pair_of(before[l]));
                                } else {
                                    assert(pair_of(before[k]) != pair);
                                }
                            }
                        }
                        assert forall|q: (Address, Address)| #[trigger]
                            self.allowances()[q] == old_allowances.insert(pair, amount@)[q] by {
                            if q == pair {
                                lemma_granted_at(after, n);
                            } else if listed(before, q) {
                                let p = place(before, q);
                                assert(after[p] == before[p]);
                            } else if listed(after, q) {
                                let p = place(after, q);
                                assert(pair_of(before[p]) == q);
                            }
                        }
                    }
                } else {
                    proof {
                        assert(self.allowances() =~= old_allowances.insert(pair, amount@));
                    }
                }
            },
        }
    }

    /// Sets what `owner` lets `spender` spend to `amount`, whatever it was before.
    /// Refused with `InvalidApprover` where `owner` is the reserved identifier, and
    /// otherwise with `InvalidSpender` where `spender` is.
    pub fn approve(&mut self, owner: Address, spender: Address, amount: Amount) -> (r: Result<
        (),
        ERC20Error,
    >)
        requires
            old(self).wf(),
        ensures
            final(self).wf(),
            r is Ok <==> !owner.is_null() && !spender.is_null(),
            r is Ok ==> final(self).allowances() == old(self).allowances().insert(
                (owner, spender),
                amount@,
            ),
            r is Err ==> *final(self) == *old(self),
            owner.is_null() ==> r == Err::<(), ERC20Error>(ERC20Error::InvalidApprover),
            !owner.is_null() && spender.is_null() ==> r == Err::<(), ERC20Error>(
                ERC20Error::InvalidSpender,
            ),
    {
        if owner.is_zero() {
            return Err(ERC20Error::InvalidApprover);
        }
        if spender.is_zero() {
            return Err(ERC20Error::InvalidSpender);
        }
        self.write(owner, spender, amount);
        Ok(())
    }

    /// Takes `amount` from what `owner` lets `spender` spend. Refused with
    /// `InsufficientAllowance` where the allowance is less.
    pub fn spend(&mut self, owner: Address, spender: Address, amount: Amount) -> (r: Result<
        (),
        ERC20Error,
    >)
        requires
            old(self).wf(),
        ensures
            final(self).wf(),
            r is Ok <==> amount@ <= old(self).allowances()[(owner, spender)],
            r is Ok ==> final(self).allowances() == old(self).allowances().insert(
                (owner, spender),
                (old(self).allowances()[(owner, spender)] - amount@) as nat,
            ),
            r is Err ==> {
                &&& r matches Err(
                    ERC20Error::InsufficientAllowance { owner: by, spender: to, allowance, needed },
                )
                &&& by == owner
                &&& to == spender
                &&& allowance@ == old(self).allowances()[(owner, spender)]
                &&& needed == amount
                &&& *final(self) == *old(self)
            },
    {
        let allowance = self.allowance(owner, spender);
        if allowance.lt(&amount) {
            return Err(
                ERC20Error::InsufficientAllowance { owner, spender, allowance, needed: amount },
            );
        }
        self.write(owner, spender, allowance.sub(amount));
        Ok(())
    }
}

} // verus!
