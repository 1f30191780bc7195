//! The stablecoin in which units are paid for and returns are paid out: a
//! ledger of balances and of allowances that holders grant to spenders.

use crate::address::{lemma_pair_key_injective, pair_key, spec_pair_key, Address};
use crate::error::MinahError;
use std::collections::HashMap;
use vstd::prelude::*;

verus! {

broadcast use vstd::std_specs::hash::group_hash_axioms;

/// Decimal places of one stablecoin.
pub const STABLECOIN_DECIMALS: u32 = 7;

/// Smallest parts in one stablecoin: ten to the power of its decimal places.
pub const STABLECOIN_SCALE: i128 = 10_000_000;

/// What one holder owns.
#[derive(Debug, Clone, Copy)]
pub struct Account {
    pub holder: Address,
    pub balance: i128,
}

/// The ledger of a stablecoin.
pub struct Stablecoin {
    accounts: Vec<Account>,
    allowances: HashMap<u128, i128>,
    total_supply: i128,
}

/// A stablecoin ledger as a mathematical value. Both maps are total: who
/// holds nothing has balance 0, who was granted nothing has allowance 0.
pub struct StablecoinView {
    /// What each address owns.
    pub balances: Map<Address, int>,
    /// What each owner lets each spender take: the key is (owner, spender).
    pub allowances: Map<(Address, Address), int>,
    /// Everything ever minted.
    pub total_supply: int,
}

/// The ledger after `amount` has gone from `from` to `to`.
pub open spec fn spec_move_funds(
    ledger: StablecoinView,
    from: Address,
    to: Address,
    amount: int,
) -> StablecoinView {
    let debited = ledger.balances.insert(from, ledger.balances[from] - amount);
    StablecoinView { balances: debited.insert(to, debited[to] + amount), ..ledger }
}

/// What a grant of `amount` from `owner` to `spender` gives: the new ledger,
/// or the reason for which the grant is refused.
pub open spec fn spec_approve(
    ledger: StablecoinView,
    owner: Address,
    spender: Address,
    amount: int,
) -> Result<StablecoinView, MinahError> {
    if amount < 0 {
        Err(MinahError::NegativeAmount)
    } else {
        Ok(
            StablecoinView {
                allowances: ledger.allowances.insert((owner, spender), amount),
                ..ledger
            },
        )
    }
}

/// What minting `amount` to `to` gives.
pub open spec fn spec_mint(ledger: StablecoinView, to: Address, amount: int) -> Result<
    StablecoinView,
    MinahError,
> {
    if amount < 0 {
        Err(MinahError::NegativeAmount)
    } else if ledger.total_supply + amount > i128::MAX {
        Err(MinahError::ArithmeticOverflow)
    } else {
        Ok(
            StablecoinView {
                balances: ledger.balances.insert(to, ledger.balances[to] + amount),
                total_supply: ledger.total_supply + amount,
                ..ledger
            },
        )
    }
}

/// What a transfer of `amount` by its holder `from` to `to` gives.
pub open spec fn spec_transfer(
    ledger: StablecoinView,
    from: Address,
    to: Address,
    amount: int,
) -> Result<StablecoinView, MinahError> {
    if amount < 0 {
        Err(MinahError::NegativeAmount)
    } else if ledger.balances[from] < amount {
        Err(MinahError::InsufficientBalance)
    } else {
        Ok(spec_move_funds(ledger, from, to, amount))
    }
}

/// What a transfer of `amount` from `from` to `to` gives when `spender` makes
/// it on the strength of an allowance: the allowance shrinks by the amount.
pub open spec fn spec_transfer_from(
    ledger: StablecoinView,
    spender: Address,
    from: Address,
    to: Address,
    amount: int,
) -> Result<StablecoinView, MinahError> {
    if amount < 0 {
        Err(MinahError::NegativeAmount)
    } else if ledger.allowances[(from, spender)] < amount {
        Err(MinahError::InsufficientAllowance)
    } else if ledger.balances[from] < amount {
        Err(MinahError::InsufficientBalance)
    } else {
        let spent = StablecoinView {
            allowances: ledger.allowances.insert(
                (from, spender),
                ledger.allowances[(from, spender)] - amount,
            ),
            ..ledger
        };
        Ok(spec_move_funds(spent, from, to, amount))
    }
}

spec fn balance_in(accounts: Seq<Account>, holder: Address) -> int
    decreases accounts.len(),
{
    if accounts.len() == 0 {
        0
    } else if accounts.last().holder == holder {
        accounts.last().balance as int
    } else {
        balance_in(accounts.drop_last(), holder)
    }
}

spec fn sum_of(accounts: Seq<Account>) -> int
    decreases accounts.len(),
{
    if accounts.len() == 0 {
        0
    } else {
        sum_of(accounts.drop_last()) + accounts.last().balance
    }
}

spec fn holders_distinct(accounts: Seq<Account>) -> bool {
    forall|i: int, j: int|
        0 <= i < j < accounts.len() ==> (#[trigger] accounts[i]).holder != (
        #[trigger] accounts[j]).holder
}

spec fn no_debts(accounts: Seq<Account>) -> bool {
    forall|i: int| 0 <= i < accounts.len() ==> (#[trigger] accounts[i]).balance >= 0
}

spec fn absent(accounts: Seq<Account>, holder: Address) -> bool {
    forall|i: int| 0 <= i < accounts.len() ==> (#[trigger] accounts[i]).holder != holder
}

spec fn allowance_in(allowances: Map<u128, i128>, owner: Address, spender: Address) -> int {
    let key = spec_pair_key(owner, spender);
    if allowances.contains_key(key) {
        allowances[key] as int
    } else {
        0
    }
}

proof fn lemma_balance_at(accounts: Seq<Account>, i: int)
    requires
        holders_distinct(accounts),
        0 <= i < accounts.len(),
    ensures
        balance_in(accounts, accounts[i].holder) == accounts[i].balance,
    decreases accounts.len(),
{
    if i < accounts.len() - 1 {
        assert(accounts[i].holder != accounts[accounts.len() - 1].holder);
        assert(accounts.drop_last()[i] == accounts[i]);
        lemma_balance_at(accounts.drop_last(), i);
    }
}

proof fn lemma_balance_absent(accounts: Seq<Account>, holder: Address)
    requires
        absent(accounts, holder),
    ensures
        balance_in(accounts, holder) == 0,
    decreases accounts.len(),
{
    if accounts.len() > 0 {
        assert(accounts[accounts.len() - 1].holder != holder);
        assert forall|i: int| 0 <= i < accounts.drop_last().len() implies (
        #[trigger] accounts.drop_last()[i]).holder != holder by {
            assert(accounts.drop_last()[i] == accounts[i]);
        }
        lemma_balance_absent(accounts.drop_last(), holder);
    }
}

proof fn lemma_sum_update(accounts: Seq<Account>, i: int, account: Account)
    requires
        0 <= i < accounts.len(),
    ensures
        sum_of(accounts.update(i, account)) == sum_of(accounts) - accounts[i].balance
            + account.balance,
    decreases accounts.len(),
{
    let updated = accounts.update(i, account);
    if i == accounts.len() - 1 {
        assert(updated.drop_last() =~= accounts.drop_last());
    } else {
        assert(updated.drop_last() =~= accounts.drop_last().update(i, account));
        lemma_sum_update(accounts.drop_last(), i, account);
    }
}

proof fn lemma_sum_bounds(accounts: Seq<Account>, i: int)
    requires
        no_debts(accounts),
        0 <= i < accounts.len(),
    ensures
        0 <= accounts[i].balance <= sum_of(accounts),
    decreases accounts.len(),
{
    lemma_sum_nonnegative(accounts.drop_last());
    if i < accounts.len() - 1 {
        assert(accounts.drop_last()[i] == accounts[i]);
        lemma_sum_bounds(accounts.drop_last(), i);
    }
}

proof fn lemma_sum_nonnegative(accounts: Seq<Account>)
    requires
        no_debts(accounts),
    ensures
        0 <= sum_of(accounts),
    decreases accounts.len(),
{
    if accounts.len() > 0 {
        assert forall|i: int| 0 <= i < accounts.drop_last().len() implies (
        #[trigger] accounts.drop_last()[i]).balance >= 0 by {
            assert(accounts.drop_last()[i] == accounts[i]);
        }
        lemma_sum_nonnegative(accounts.drop_last());
    }
}

proof fn lemma_balance_after_update(accounts: Seq<Account>, i: int, balance: i128, other: Address)
    requires
        holders_distinct(accounts),
        0 <= i < accounts.len(),
    ensures
        holders_distinct(accounts.update(i, Account { holder: accounts[i].holder, balance })),
        balance_in(accounts.update(i, Account { holder: accounts[i].holder, balance }), other) == (
        if other == accounts[i].holder {
            balance as int
        } else {
            balance_in(accounts, other)
        }),
{
    let updated = accounts.update(i, Account { holder: accounts[i].holder, balance });
    assert forall|a: int, b: int| 0 <= a < b < updated.len() implies (
    #[trigger] updated[a]).holder != (#[trigger] updated[b]).holder by {
        assert(updated[a].holder == accounts[a].holder);
        assert(updated[b].holder == accounts[b].holder);
    }
    if other == accounts[i].holder {
        lemma_balance_at(updated, i);
    } else if absent(accounts, other) {
        assert forall|k: int| 0 <= k < updated.len() implies (#[trigger] updated[k]).holder
            != other by {
            assert(updated[k].holder == accounts[k].holder);
        }
        lemma_balance_absent(accounts, other);
        lemma_balance_absent(updated, other);
    } else {
        let k = choose|k: int| 0 <= k < accounts.len() && (#[trigger] accounts[k]).holder == other;
        assert(updated[k] == accounts[k]);
        lemma_balance_at(accounts, k);
        lemma_balance_at(updated, k);
    }
}

proof fn lemma_balance_after_push(accounts: Seq<Account>, account: Account, other: Address)
    ensures
        balance_in(accounts.push(account), other) == (if other == account.holder {
            account.balance as int
        } else {
            balance_in(accounts, other)
        }),
        sum_of(accounts.push(account)) == sum_of(accounts) + account.balance,
{
    assert(accounts.push(account).drop_last() =~= accounts);
}

impl Stablecoin {
    /// The ledger as a mathematical value.
    pub closed spec fn view(&self) -> StablecoinView {
        StablecoinView {
            balances: Map::total(|holder: Address| balance_in(self.accounts@, holder)),
            allowances: Map::total(
                |pair: (Address, Address)| allowance_in(self.allowances@, pair.0, pair.1),
            ),
            total_supply: self.total_supply as int,
        }
    }

    /// The ledger is in order: no holder is listed twice, nobody owes, and
    /// the balances add up to the total supply.
    pub closed spec fn wf(&self) -> bool {
        &&& holders_distinct(self.accounts@)
        &&& no_debts(self.accounts@)
        &&& sum_of(self.accounts@) == self.total_supply
        &&& forall|key: u128| #[trigger]
            self.allowances@.contains_key(key) ==> self.allowances@[key] >= 0
    }

    /// A ledger on which nothing has been minted yet.
    pub fn new() -> (ledger: Stablecoin)
        ensures
            ledger.wf(),
            ledger@.total_supply == 0,
            forall|holder: Address| ledger@.balances[holder] == 0,
            forall|pair: (Address, Address)| ledger@.allowances[pair] == 0,
    {
        let ledger = Stablecoin { accounts: Vec::new(), allowances: HashMap::new(), total_supply: 0 };
        assert forall|holder: Address| ledger@.balances[holder] == 0 by {
            lemma_balance_absent(ledger.accounts@, holder);
        }
        ledger
    }

    /// The name of the token.
    pub fn name(&self) -> (name: String)
        ensures
            name@ == "USDC Mock Token"@,
    {
        String::from_str("USDC Mock Token")
    }

    /// The symbol of the token.
    pub fn symbol(&self) -> (symbol: String)
        ensures
            symbol@ == "USDC"@,
    {
        String::from_str("USDC")
    }

    /// The decimal places that the token declares.
    pub fn decimals(&self) -> (decimals: u32)
        ensures
            decimals == 6,
    {
        6
    }

    /// The sum of two numbers that is known to fit.
    pub fn add(x: u32, y: u32) -> (sum: u32)
        requires
            x + y <= u32::MAX,
        ensures
            sum == x + y,
    {
        x + y
    }

    /// Everything minted so far.
    pub fn total_supply(&self) -> (supply: i128)
        ensures
            supply == self@.total_supply,
    {
        self.total_supply
    }

    fn find(&self, holder: Address) -> (found: Option<usize>)
        ensures
            match found {
                Some(i) => i < self.accounts@.len() && self.accounts@[i as int].holder == holder,
                None => absent(self.accounts@, holder),
            },
    {
        let mut i: usize = 0;
        while i < self.accounts.len()
            invariant
                i <= self.accounts@.len(),
                forall|k: int| 0 <= k < i ==> (#[trigger] self.accounts@[k]).holder != holder,
            decreases self.accounts@.len() - i,
        {
            if self.accounts[i].holder == holder {
                return Some(i);
            }
            i += 1;
        }
        None
    }

    /// What `holder` owns.
    pub fn balance(&self, holder: Address) -> (balance: i128)
        requires
            self.wf(),
        ensures
            balance == self@.balances[holder],
    {
        match self.find(holder) {
            Some(i) => {
                proof {
                    lemma_balance_at(self.accounts@, i as int);
                }
                self.accounts[i].balance
            },
            None => {
                proof {
                    lemma_balance_absent(self.accounts@, holder);
                }
                0
            },
        }
    }

    /// What `owner` lets `spender` take.
    pub fn allowance(&self, owner: Address, spender: Address) -> (allowance: i128)
        requires
            self.wf(),
        ensures
            allowance == self@.allowances[(owner, spender)],
    {
        let key: u128 = pair_key(owner, spender);
        match self.allowances.get(&key) {
            Some(amount) => *amount,
            None => 0,
        }
    }

    /// A copy of the ledger.
    pub fn duplicate(&self) -> (copy: Stablecoin)
        ensures
            copy@ == self@,
            self.wf() ==> copy.wf(),
    {
        let copy = Stablecoin {
            accounts: self.accounts.clone(),
            allowances: self.allowances.clone(),
            total_supply: self.total_supply,
        };
        proof {
            assert(copy.accounts@ =~= self.accounts@);
            assert(copy@.balances =~= self@.balances);
            assert(copy@.allowances =~= self@.allowances);
        }
        copy
    }

    /// `owner` lets `spender` take up to `amount`, in place of what was
    /// granted before. The grant stands until it is replaced: the ledger
    /// keeps no record of `live_until_ledger`.
    pub fn approve(
        &mut self,
        owner: Address,
        spender: Address,
        amount: i128,
        live_until_ledger: u32,
    ) -> (outcome: Result<(), MinahError>)
        requires
            old(self).wf(),
        ensures
            final(self).wf(),
            match spec_approve(old(self)@, owner, spender, amount as int) {
                Ok(ledger) => outcome.is_ok() && final(self)@ == ledger,
                Err(error) => outcome == Err::<(), MinahError>(error) && final(self)@ == old(
                    self,
                )@,
            },
    {
        if amount < 0 {
            return Err(MinahError::NegativeAmount);
        }
        let key: u128 = pair_key(owner, spender);
        self.allowances.insert(key, amount);
        proof {
            let granted = spec_approve(old(self)@, owner, spender, amount as int)->Ok_0;
            assert forall|pair: (Address, Address)| #[trigger]
                self@.allowances[pair] == granted.allowances[pair] by {
                lemma_pair_key_injective(pair.0, pair.1, owner, spender);
            }
            assert(self@.allowances =~= granted.allowances);
            assert(self@.balances =~= granted.balances);
        }
        Ok(())
    }

    /// The place of `holder` in the list of accounts, after listing the
    /// holder with nothing if need be.
    fn open_account(&mut self, holder: Address) -> (i: usize)
        requires
            old(self).wf(),
        ensures
            final(self).wf(),
            final(self)@ == old(self)@,
            i < final(self).accounts@.len(),
            final(self).accounts@[i as int].holder == holder,
            final(self).accounts@.len() >= old(self).accounts@.len(),
            forall|k: int|
                0 <= k < old(self).accounts@.len() ==> final(self).accounts@[k] == old(
                    self,
                ).accounts@[k],
    {
        match self.find(holder) {
            Some(i) => i,
            None => {
                let i: usize = self.accounts.len();
                self.accounts.push(Account { holder, balance: 0 });
                proof {
                    let before = old(self).accounts@;
                    let account = Account { holder, balance: 0 };
                    lemma_balance_absent(before, holder);
                    assert forall|other: Address| #[trigger]
                        self@.balances[other] == old(self)@.balances[other] by {
                        lemma_balance_after_push(before, account, other);
                    }
                    lemma_balance_after_push(before, account, holder);
                    assert(self@.balances =~= old(self)@.balances);
                    assert(self@.allowances =~= old(self)@.allowances);
                }
                i
            },
        }
    }

    fn set_balance(&mut self, i: usize, balance: i128)
        requires
            i < old(self).accounts@.len(),
            holders_distinct(old(self).accounts@),
        ensures
            final(self).allowances == old(self).allowances,
            final(self).total_supply == old(self).total_supply,
            final(self).accounts@ == old(self).accounts@.update(
                i as int,
                Account { holder: old(self).accounts@[i as int].holder, balance },
            ),
            holders_distinct(final(self).accounts@),
            sum_of(final(self).accounts@) == sum_of(old(self).accounts@) - old(
                self,
            ).accounts@[i as int].balance + balance,
            forall|other: Address|
                #![trigger balance_in(final(self).accounts@, other)]
                balance_in(final(self).accounts@, other) == (if other == old(
                    self,
                ).accounts@[i as int].holder {
                    balance as int
                } else {
                    balance_in(old(self).accounts@, other)
                }),
    {
        let holder: Address = self.accounts[i].holder;
        self.accounts.set(i, Account { holder, balance });
        proof {
            lemma_sum_update(old(self).accounts@, i as int, Account { holder, balance });
            assert forall|other: Address|
                #![trigger balance_in(self.accounts@, other)]
                balance_in(self.accounts@, other) == (if other == holder {
                    balance as int
                } else {
                    balance_in(old(self).accounts@, other)
                }) by {
                lemma_balance_after_update(old(self).accounts@, i as int, balance, other);
            }
            lemma_balance_after_update(old(self).accounts@, i as int, balance, holder);
        }
    }

    /// Takes `amount` from `from` and gives it to `to`.
    fn move_funds(&mut self, from: Address, to: Address, amount: i128)
        requires
            old(self).wf(),
            0 <= amount <= old(self)@.balances[from],
        ensures
            final(self).wf(),
            final(self)@ == spec_move_funds(old(self)@, from, to, amount as int),
    {
        let ghost target = spec_move_funds(old(self)@, from, to, amount as int);
        if amount == 0 || from == to {
            proof {
                assert(self@.balances =~= target.balances);
            }
            return ;
        }
        let i: usize = self.open_account(from);
        let j: usize = self.open_account(to);
        assert(self.accounts@[i as int].holder == from);
        proof {
            lemma_balance_at(self.accounts@, i as int);
            lemma_balance_at(self.accounts@, j as int);
            lemma_sum_bounds(self.accounts@, j as int);
        }
        let ghost listed = self.accounts@;
        let debited: i128 = self.accounts[i].balance - amount;
        self.set_balance(i, debited);
        proof {
            assert(self.accounts@[j as int] == listed[j as int]);
            assert forall|k: int| 0 <= k < self.accounts@.len() implies (
            #[trigger] self.accounts@[k]).balance >= 0 by {
                if k != i {
                    assert(self.accounts@[k] == listed[k]);
                }
            }
            lemma_sum_bounds(self.accounts@, j as int);
        }
        let ghost halfway = self.accounts@;
        let credited: i128 = self.accounts[j].balance + amount;
        self.set_balance(j, credited);
        proof {
            assert forall|k: int| 0 <= k < self.accounts@.len() implies (
            #[trigger] self.accounts@[k]).balance >= 0 by {
                if k != j {
                    assert(self.accounts@[k] == halfway[k]);
                }
            }
            assert(self@.balances =~= target.balances);
            assert(self@.allowances =~= target.allowances);
        }
    }

    /// Creates `amount` new stablecoin for `to`.
    pub fn mint(&mut self, to: Address, amount: i128) -> (outcome: Result<(), MinahError>)
        requires
            old(self).wf(),
        ensures
            final(self).wf(),
            match spec_mint(old(self)@, to, amount as int) {
                Ok(ledger) => outcome.is_ok() && final(self)@ == ledger,
                Err(error) => outcome == Err::<(), MinahError>(error) && final(self)@ == old(
                    self,
                )@,
            },
    {
        if amount < 0 {
            return Err(MinahError::NegativeAmount);
        }
        let supply: i128 = match self.total_supply.checked_add(amount) {
            Some(supply) => supply,
            None => {
                return Err(MinahError::ArithmeticOverflow);
            },
        };
        let ghost target = spec_mint(old(self)@, to, amount as int)->Ok_0;
        let j: usize = self.open_account(to);
        proof {
            lemma_balance_at(self.accounts@, j as int);
            lemma_sum_bounds(self.accounts@, j as int);
        }
        let ghost listed = self.accounts@;
        let credited: i128 = self.accounts[j].balance + amount;
        self.set_balance(j, credited);
        self.total_supply = supply;
        proof {
            assert forall|k: int| 0 <= k < self.accounts@.len() implies (
            #[trigger] self.accounts@[k]).balance >= 0 by {
                if k != j {
                    assert(self.accounts@[k] == listed[k]);
                }
            }
            assert(self@.balances =~= target.balances);
            assert(self@.allowances =~= target.allowances);
        }
        Ok(())
    }

    /// `from` hands `amount` to `to`.
    pub fn transfer(&mut self, from: Address, to: Address, amount: i128) -> (outcome: Result<
        (),
        MinahError,
    >)
        requires
            old(self).wf(),
        ensures
            final(self).wf(),
            match spec_transfer(old(self)@, from, to, amount as int) {
                Ok(ledger) => outcome.is_ok() && final(self)@ == ledger,
                Err(error) => outcome == Err::<(), MinahError>(error) && final(self)@ == old(
                    self,
                )@,
            },
    {
        if amount < 0 {
            return Err(MinahError::NegativeAmount);
        }
        if self.balance(from) < amount {
            return Err(MinahError::InsufficientBalance);
        }
        self.move_funds(from, to, amount);
        Ok(())
    }

    /// `spender` moves `amount` from `from` to `to`, out of what `from` has
    /// allowed the spender to take.
    pub fn transfer_from(
        &mut self,
        spender: Address,
        from: Address,
        to: Address,
        amount: i128,
    ) -> (outcome: Result<(), MinahError>)
        requires
            old(self).wf(),
        ensures
            final(self).wf(),
            match spec_transfer_from(old(self)@, spender, from, to, amount as int) {
                Ok(ledger) => outcome.is_ok() && final(self)@ == ledger,
                Err(error) => outcome == Err::<(), MinahError>(error) && final(self)@ == old(
                    self,
                )@,
            },
    {
        if amount < 0 {
            return Err(MinahError::NegativeAmount);
        }
        let allowed: i128 = self.allowance(from, spender);
        if allowed < amount {
            return Err(MinahError::InsufficientAllowance);
        }
        if self.balance(from) < amount {
            return Err(MinahError::InsufficientBalance);
        }
        let key: u128 = pair_key(from, spender);
        self.allowances.insert(key, allowed - amount);
        proof {
            let spent = StablecoinView {
                allowances: old(self)@.allowances.insert(
                    (from, spender),
                    old(self)@.allowances[(from, spender)] - amount,
                ),
                ..old(self)@
            };
            assert forall|pair: (Address, Address)| #[trigger]
                self@.allowances[pair] == spent.allowances[pair] by {
                lemma_pair_key_injective(pair.0, pair.1, from, spender);
            }
            assert(self@.allowances =~= spent.allowances);
            assert(self@.balances =~= spent.balances);
            assert(self@ == spent);
        }
        self.move_funds(from, to, amount);
        Ok(())
    }
}

} // verus!
