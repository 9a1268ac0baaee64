use crate::address::Address;
use crate::amount::amount_limit;
use vstd::prelude::*;

verus! {

/// The sum of what the listed accounts hold.
pub open spec fn sum_over(accounts: Seq<Address>, balances: Map<Address, nat>) -> nat
    decreases accounts.len(),
{
    if accounts.len() == 0 {
        0
    } else {
        sum_over(accounts.drop_last(), balances) + balances[accounts.last()]
    }
}

/// The list of holders once `account` holds `balance`: an account enters the list,
/// at its end, when it first holds something, and never leaves it.
pub open spec fn recorded(holders: Seq<Address>, account: Address, balance: nat) -> Seq<Address> {
    if holders.contains(account) || balance == 0 {
        holders
    } else {
        holders.push(account)
    }
}

/// Writing the balance of an account that is not listed leaves the sum as it was.
pub proof fn lemma_sum_over_unlisted(
    accounts: Seq<Address>,
    balances: Map<Address, nat>,
    account: Address,
    balance: nat,
)
    requires
        !accounts.contains(account),
    ensures
        sum_over(accounts, balances.insert(account, balance)) == sum_over(accounts, balances),
    decreases accounts.len(),
{
    if accounts.len() > 0 {
        let front = accounts.drop_last();
        assert forall|a: Address| front.contains(a) implies accounts.contains(a) by {
            let i = choose|i: int| 0 <= i < front.len() && front[i] == a;
            assert(accounts[i] == a);
        }
        lemma_sum_over_unlisted(front, balances, account, balance);
    }
}

/// Writing the balance of an account that is listed once moves the sum by the change.
pub proof fn lemma_sum_over_listed(
    accounts: Seq<Address>,
    balances: Map<Address, nat>,
    account: Address,
    balance: nat,
)
    requires
        accounts.no_duplicates(),
        accounts.contains(account),
    ensures
        sum_over(accounts, balances.insert(account, balance)) + balances[account] == sum_over(
            accounts,
            balances,
        ) + balance,
    decreases accounts.len(),
{
    let front = accounts.drop_last();
    let last = accounts.len() - 1;
    if accounts.last() == account {
        assert(!front.contains(account)) by {
            if front.contains(account) {
                let i = choose|i: int| 0 <= i < front.len() && front[i] == account;
                assert(accounts[i] == accounts[last]);
            }
        }
        lemma_sum_over_unlisted(front, balances, account, balance);
    } else {
        let i = choose|i: int| 0 <= i < accounts.len() && accounts[i] == account;
        assert(front[i] == account);
        lemma_sum_over_listed(front, balances, account, balance);
    }
}

/// A listed account holds no more than the listed accounts hold together.
pub proof fn lemma_sum_over_bounds_each(
    accounts: Seq<Address>,
    balances: Map<Address, nat>,
    account: Address,
)
    requires
        accounts.contains(account),
    ensures
        balances[account] <= sum_over(accounts, balances),
    decreases accounts.len(),
{
    let front = accounts.drop_last();
    if accounts.last() != account {
        let i = choose|i: int| 0 <= i < accounts.len() && accounts[i] == account;
        assert(front[i] == account);
        lemma_sum_over_bounds_each(front, balances, account);
    }
}

/// What a token is, apart from how it is stored: its name and symbol, the accounts
/// that ever held something, what every account holds, what every owner lets every
/// spender spend, and the total supply. Both maps have an entry for every key; an
/// account that was never credited holds 0.
pub struct State {
    pub name: Seq<char>,
    pub symbol: Seq<char>,
    pub holders: Seq<Address>,
    pub balances: Map<Address, nat>,
    pub allowances: Map<(Address, Address), nat>,
    pub supply: nat,
}

impl State {
    /// The token of the given name and symbol in which nobody holds or may spend
    /// anything.
    pub open spec fn empty(name: Seq<char>, symbol: Seq<char>) -> State {
        State {
            name,
            symbol,
            holders: Seq::empty(),
            balances: Map::total(|account: Address| 0nat),
            allowances: Map::total(|pair: (Address, Address)| 0nat),
            supply: 0,
        }
    }

    /// The sum of what the holders hold.
    pub open spec fn balances_sum(self) -> nat {
        sum_over(self.holders, self.balances)
    }

    /// No account is listed twice among the holders, and whoever holds something is
    /// listed: the sum over the holders is the sum over all accounts.
    pub open spec fn well_listed(self) -> bool {
        &&& self.holders.no_duplicates()
        &&& forall|account: Address| #[trigger]
            self.balances[account] > 0 ==> self.holders.contains(account)
    }

    /// What holds of a token at all times: the supply is the sum of the balances and
    /// fits in 256 bits, as does every allowance, and the reserved identifier neither
    /// holds anything nor takes part in an allowance.
    pub open spec fn sound(self) -> bool {
        &&& self.well_listed()
        &&& self.supply == self.balances_sum()
        &&& self.supply < amount_limit()
        &&& forall|pair: (Address, Address)| #[trigger] self.allowances[pair] < amount_limit()
        &&& forall|account: Address| account.is_null() ==> #[trigger] self.balances[account] == 0
        &&& forall|owner: Address, spender: Address|
            owner.is_null() || spender.is_null() ==> #[trigger] self.allowances[(owner, spender)]
                == 0
    }

    /// This state with `amount` added to what `account` holds.
    pub open spec fn credited(self, account: Address, amount: nat) -> State {
        State {
            holders: recorded(self.holders, account, self.balances[account] + amount),
            balances: self.balances.insert(account, self.balances[account] + amount),
            ..self
        }
    }

    /// This state with `amount` taken from what `account` holds.
    pub open spec fn debited(self, account: Address, amount: nat) -> State {
        State {
            holders: recorded(self.holders, account, (self.balances[account] - amount) as nat),
            balances: self.balances.insert(account, (self.balances[account] - amount) as nat),
            ..self
        }
    }

    /// This state after `amount` went from `from` to `to`: first taken, then added.
    pub open spec fn moved(self, from: Address, to: Address, amount: nat) -> State {
        self.debited(from, amount).credited(to, amount)
    }

    /// This state with the allowance of `spender` on `owner` set to `amount`.
    pub open spec fn approved(self, owner: Address, spender: Address, amount: nat) -> State {
        State { allowances: self.allowances.insert((owner, spender), amount), ..self }
    }

    /// This state with `amount` taken from the allowance of `spender` on `owner`.
    pub open spec fn spent(self, owner: Address, spender: Address, amount: nat) -> State {
        self.approved(owner, spender, (self.allowances[(owner, spender)] - amount) as nat)
    }

    /// This state after `caller` moved `amount` from `owner` to `to`. Only a caller
    /// other than the owner pays for it out of an allowance.
    pub open spec fn transferred_from(
        self,
        caller: Address,
        owner: Address,
        to: Address,
        amount: nat,
    ) -> State {
        if caller == owner {
            self.moved(owner, to, amount)
        } else {
            self.spent(owner, caller, amount).moved(owner, to, amount)
        }
    }

    /// This state after `amount` was created for `to`.
    pub open spec fn minted(self, to: Address, amount: nat) -> State {
        State { supply: self.supply + amount, ..self.credited(to, amount) }
    }

    /// This state after `amount` of what `from` holds was destroyed.
    pub open spec fn burned(self, from: Address, amount: nat) -> State {
        State { supply: (self.supply - amount) as nat, ..self.debited(from, amount) }
    }
}

/// No account holds more than the holders hold together.
pub proof fn lemma_balance_within_sum(state: State, account: Address)
    requires
        state.well_listed(),
    ensures
        state.balances[account] <= state.balances_sum(),
{
    if state.balances[account] > 0 {
        lemma_sum_over_bounds_each(state.holders, state.balances, account);
    }
}

/// Crediting keeps the list of holders in order and raises the sum by the amount.
pub proof fn lemma_credited(state: State, account: Address, amount: nat)
    requires
        state.well_listed(),
    ensures
        state.credited(account, amount).well_listed(),
        state.credited(account, amount).balances_sum() == state.balances_sum() + amount,
{
    lemma_written(state.holders, state.balances, account, state.balances[account] + amount);
}

/// Debiting no more than the account holds keeps the list of holders in order and
/// lowers the sum by the amount.
pub proof fn lemma_debited(state: State, account: Address, amount: nat)
    requires
        state.well_listed(),
        amount <= state.balances[account],
    ensures
        state.debited(account, amount).well_listed(),
        state.debited(account, amount).balances_sum() == state.balances_sum() - amount,
{
    lemma_written(
        state.holders,
        state.balances,
        account,
        (state.balances[account] - amount) as nat,
    );
}

proof fn lemma_written(
    holders: Seq<Address>,
    balances: Map<Address, nat>,
    account: Address,
    balance: nat,
)
    requires
        holders.no_duplicates(),
        forall|a: Address| #[trigger] balances[a] > 0 ==> holders.contains(a),
    ensures
        recorded(holders, account, balance).no_duplicates(),
        forall|a: Address| #[trigger]
            balances.insert(account, balance)[a] > 0 ==> recorded(
                holders,
                account,
                balance,
            ).contains(a),
        sum_over(recorded(holders, account, balance), balances.insert(account, balance))
            + balances[account] == sum_over(holders, balances) + balance,
{
    let after = recorded(holders, account, balance);
    let written = balances.insert(account, balance);
    if holders.contains(account) {
        lemma_sum_over_listed(holders, balances, account, balance);
    } else {
        lemma_sum_over_unlisted(holders, balances, account, balance);
        if balance != 0 {
            assert(after.drop_last() =~= holders);
            assert(after[holders.len() as int] == account);
        }
    }
    assert forall|a: Address| #[trigger] written[a] > 0 implies after.contains(a) by {
        if a != account {
            let i = choose|i: int| 0 <= i < holders.len() && holders[i] == a;
            assert(after[i] == a);
        }
    }
}

/// A new token is sound.
pub proof fn lemma_empty_is_sound(name: Seq<char>, symbol: Seq<char>)
    ensures
        State::empty(name, symbol).sound(),
{
}

/// Moving what the sender holds to a receiver other than the reserved identifier
/// keeps a token sound, and leaves the supply as it was.
pub proof fn lemma_moved_is_sound(state: State, from: Address, to: Address, amount: nat)
    requires
        state.sound(),
        !to.is_null(),
        amount <= state.balances[from],
    ensures
        state.moved(from, to, amount).sound(),
        state.moved(from, to, amount).supply == state.supply,
{
    lemma_debited(state, from, amount);
    lemma_credited(state.debited(from, amount), to, amount);
}

/// Minting to a receiver other than the reserved identifier keeps a token sound as
/// long as the new supply fits in 256 bits.
pub proof fn lemma_minted_is_sound(state: State, to: Address, amount: nat)
    requires
        state.sound(),
        !to.is_null(),
        state.supply + amount < amount_limit(),
    ensures
        state.minted(to, amount).sound(),
{
    lemma_credited(state, to, amount);
}

/// Burning what the account holds keeps a token sound.
pub proof fn lemma_burned_is_sound(state: State, from: Address, amount: nat)
    requires
        state.sound(),
        amount <= state.balances[from],
    ensures
        state.burned(from, amount).sound(),
{
    lemma_debited(state, from, amount);
}

/// An approval between accounts other than the reserved identifier, of an amount
/// that fits in 256 bits, keeps a token sound.
pub proof fn lemma_approved_is_sound(state: State, owner: Address, spender: Address, amount: nat)
    requires
        state.sound(),
        !owner.is_null(),
        !spender.is_null(),
        amount < amount_limit(),
    ensures
        state.approved(owner, spender, amount).sound(),
{
    let after = state.approved(owner, spender, amount);
    assert forall|pair: (Address, Address)| #[trigger] after.allowances[pair] < amount_limit() by {
        if pair != (owner, spender) {
            assert(state.allowances[pair] < amount_limit());
        }
    }
    assert forall|o: Address, s: Address| o.is_null() || s.is_null() implies #[trigger] after.allowances[(
        o,
        s,
    )] == 0 by {
        assert(state.allowances[(o, s)] == 0);
    }
}

/// Spending no more than the allowance keeps a token sound.
pub proof fn lemma_spent_is_sound(state: State, owner: Address, spender: Address, amount: nat)
    requires
        state.sound(),
        amount <= state.allowances[(owner, spender)],
    ensures
        state.spent(owner, spender, amount).sound(),
{
    let after = state.spent(owner, spender, amount);
    assert forall|pair: (Address, Address)| #[trigger] after.allowances[pair] < amount_limit() by {
        if pair != (owner, spender) {
            assert(state.allowances[pair] < amount_limit());
        }
    }
    assert forall|o: Address, s: Address| o.is_null() || s.is_null() implies #[trigger] after.allowances[(
        o,
        s,
    )] == 0 by {
        assert(state.allowances[(o, s)] == 0);
    }
}

/// A transfer on behalf of the owner, within the caller's allowance where the caller
/// is not the owner and within what the owner holds, to a receiver other than the
/// reserved identifier, keeps a token sound.
pub proof fn lemma_transferred_from_is_sound(
    state: State,
    caller: Address,
    owner: Address,
    to: Address,
    amount: nat,
)
    requires
        state.sound(),
        caller == owner || amount <= state.allowances[(owner, caller)],
        !to.is_null(),
        amount <= state.balances[owner],
    ensures
        state.transferred_from(caller, owner, to, amount).sound(),
{
    if caller == owner {
        lemma_moved_is_sound(state, owner, to, amount);
    } else {
        lemma_spent_is_sound(state, owner, caller, amount);
        lemma_moved_is_sound(state.spent(owner, caller, amount), owner, to, amount);
    }
}

/// In a sound token no account holds more than the supply. No balance is negative:
/// balances are natural numbers.
pub proof fn lemma_balance_within_supply(state: State, account: Address)
    requires
        state.sound(),
    ensures
        0 <= state.balances[account] <= state.supply < amount_limit(),
{
    lemma_balance_within_sum(state, account);
}

/// Approving twice for the same pair leaves the second amount, as if the first
/// approval had never been made.
pub proof fn lemma_approve_overwrites(
    state: State,
    owner: Address,
    spender: Address,
    first: nat,
    second: nat,
)
    ensures
        state.approved(owner, spender, first).approved(owner, spender, second).allowances[(
            owner,
            spender,
        )] == second,
        state.approved(owner, spender, first).approved(owner, spender, second) == state.approved(
            owner,
            spender,
            second,
        ),
{
    assert(state.allowances.insert((owner, spender), first).insert((owner, spender), second)
        =~= state.allowances.insert((owner, spender), second));
}

/// A transfer by a spender other than the owner takes exactly the moved amount from
/// the allowance of that spender on that owner, and touches no other allowance.
pub proof fn lemma_delegated_transfer_spends(
    state: State,
    caller: Address,
    owner: Address,
    to: Address,
    amount: nat,
)
    requires
        caller != owner,
        amount <= state.allowances[(owner, caller)],
    ensures
        state.transferred_from(caller, owner, to, amount).allowances[(owner, caller)]
            == state.allowances[(owner, caller)] - amount,
        forall|pair: (Address, Address)|
            pair != (owner, caller) ==> state.transferred_from(
                caller,
                owner,
                to,
                amount,
            ).allowances[pair] == state.allowances[pair],
{
}

/// A transfer by the owner leaves every allowance as it was.
pub proof fn lemma_own_transfer_keeps_allowances(
    state: State,
    owner: Address,
    to: Address,
    amount: nat,
)
    ensures
        state.transferred_from(owner, owner, to, amount).allowances == state.allowances,
{
}

/// Minting an amount to an account and then burning no more than that from it leaves
/// the account and the supply higher by the difference, and every other balance and
/// every allowance as they were.
pub proof fn lemma_mint_then_burn(state: State, to: Address, minted: nat, burned: nat)
    requires
        burned <= minted,
    ensures
        state.minted(to, minted).burned(to, burned).balances[to] == state.balances[to] + minted
            - burned,
        state.minted(to, minted).burned(to, burned).supply == state.supply + minted - burned,
        state.minted(to, minted).burned(to, burned).balances == state.minted(
            to,
            (minted - burned) as nat,
        ).balances,
        state.minted(to, minted).burned(to, burned).allowances == state.allowances,
{
    assert(state.minted(to, minted).burned(to, burned).balances =~= state.minted(
        to,
        (minted - burned) as nat,
    ).balances);
}

/// Only an approval and a delegated transfer touch an allowance: moving, minting
/// and burning leave every allowance as it was.
pub proof fn lemma_balance_changes_keep_allowances(
    state: State,
    from: Address,
    to: Address,
    amount: nat,
)
    ensures
        state.moved(from, to, amount).allowances == state.allowances,
        state.minted(to, amount).allowances == state.allowances,
        state.burned(from, amount).allowances == state.allowances,
{
}

} // verus!
