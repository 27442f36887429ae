//! The money and the shares of a vault, as it keeps them.

use vstd::prelude::*;

use crate::model::{fits, quotient, Book};
use crate::table::Table;
use crate::types::{Address, QueuedClaim, BPS};

verus! {

/// The books of a vault.
#[derive(Debug)]
pub struct Accounts {
    pub(crate) liquid: i128,
    pub(crate) invested: i128,
    pub(crate) expected_returns: i128,
    pub(crate) insurance_reserve: i128,
    pub(crate) supply: i128,
    pub(crate) balances: Table<i128>,
    pub(crate) locks: Table<u32>,
    pub(crate) investments: Table<i128>,
    /// Every claim that was ever queued, in order.
    pub(crate) claims: Vec<QueuedClaim>,
    /// How many of them are settled.
    pub(crate) head: usize,
}

impl View for Accounts {
    type V = Book;

    open(crate) spec fn view(&self) -> Book {
        Book {
            liquid: self.liquid as int,
            invested: self.invested as int,
            expected_returns: self.expected_returns as int,
            insurance_reserve: self.insurance_reserve as int,
            supply: self.supply as int,
            balances: self.balances@,
            locks: self.locks@,
            investments: self.investments@,
            queue: self.claims@.skip(self.head as int),
        }
    }
}

/// `amount` times `factor` over `divisor`, rounded toward zero, where the product fits.
pub fn scaled(amount: i128, factor: i128, divisor: i128) -> (result: Option<i128>)
    requires
        divisor > 0,
    ensures
        result is Some <==> fits(amount * factor),
        result matches Some(q) ==> q == quotient(amount * factor, divisor as int),
{
    match amount.checked_mul(factor) {
        Some(product) => Some(product / divisor),
        None => None,
    }
}

impl Accounts {
    /// What always holds of the books.
    pub open(crate) spec fn wf(&self) -> bool {
        &&& self.balances.wf()
        &&& self.locks.wf()
        &&& self.investments.wf()
        &&& self.head <= self.claims@.len()
        &&& self@.valid()
    }

    /// The books of a vault that nobody has used.
    pub fn new() -> (accounts: Self)
        ensures
            accounts.wf(),
            accounts@ == (Book {
                liquid: 0,
                invested: 0,
                expected_returns: 0,
                insurance_reserve: 0,
                supply: 0,
                balances: Map::empty(),
                locks: Map::empty(),
                investments: Map::empty(),
                queue: Seq::empty(),
            }),
    {
        let accounts = Accounts {
            liquid: 0,
            invested: 0,
            expected_returns: 0,
            insurance_reserve: 0,
            supply: 0,
            balances: Table::new(),
            locks: Table::new(),
            investments: Table::new(),
            claims: Vec::new(),
            head: 0,
        };
        assert(accounts@.queue =~= Seq::empty());
        accounts
    }

    /// A copy of the books.
    pub fn duplicate(&self) -> (copy: Self)
        requires
            self.wf(),
        ensures
            copy.wf(),
            copy@ == self@,
    {
        let mut claims: Vec<QueuedClaim> = Vec::new();
        let mut i: usize = self.head;
        while i < self.claims.len()
            invariant
                self.head <= i <= self.claims@.len(),
                claims@ == self.claims@.subrange(self.head as int, i as int),
            decreases self.claims@.len() - i,
        {
            claims.push(self.claims[i]);
            i = i + 1;
        }
        let copy = Accounts {
            liquid: self.liquid,
            invested: self.invested,
            expected_returns: self.expected_returns,
            insurance_reserve: self.insurance_reserve,
            supply: self.supply,
            balances: self.balances.duplicate(),
            locks: self.locks.duplicate(),
            investments: self.investments.duplicate(),
            claims,
            head: 0,
        };
        assert(copy@.queue =~= self@.queue);
        copy
    }

    pub fn total_assets(&self) -> (total: i128)
        requires
            self.wf(),
        ensures
            total == self@.total_assets(),
    {
        self.liquid + self.invested + self.expected_returns
    }

    /// The shares that `amount` of USDC buys, where they can be worked out.
    pub fn shares_for(&self, amount: i128) -> (shares: Option<i128>)
        requires
            self.wf(),
        ensures
            shares is Some <==> self@.shares_for_fits(amount as int),
            shares matches Some(n) ==> n == self@.shares_for(amount as int),
    {
        let total: i128 = self.total_assets();
        if self.supply == 0 || total == 0 {
            Some(amount)
        } else {
            scaled(amount, self.supply, total)
        }
    }

    /// The USDC that `shares` are worth, where it can be worked out.
    pub fn assets_for(&self, shares: i128) -> (assets: Option<i128>)
        requires
            self.wf(),
        ensures
            assets is Some <==> self@.assets_for_fits(shares as int),
            assets matches Some(n) ==> n == self@.assets_for(shares as int),
    {
        if self.supply == 0 {
            Some(0)
        } else {
            scaled(shares, self.total_assets(), self.supply)
        }
    }

    /// The part of the assets that stands in projects, in basis points, where it can be worked
    /// out.
    pub fn utilization(&self) -> (utilization: Option<i128>)
        requires
            self.wf(),
        ensures
            utilization is Some <==> self@.utilization_fits(),
            utilization matches Some(n) ==> n == self@.utilization(),
    {
        let total: i128 = self.total_assets();
        if total == 0 {
            Some(0)
        } else {
            assert(self.invested * BPS >= 0) by (nonlinear_arith)
                requires
                    self.invested >= 0,
                    BPS == 10_000,
            ;
            scaled(self.invested, BPS, total)
        }
    }

    /// The shares of an account.
    pub fn balance(&self, account: Address) -> (shares: i128)
        requires
            self.wf(),
        ensures
            shares == self@.balance(account),
    {
        match self.balances.get(account) {
            Some(shares) => shares,
            None => 0,
        }
    }

    /// What stands in a project.
    pub fn investment(&self, project_id: u32) -> (amount: i128)
        requires
            self.wf(),
        ensures
            amount == self@.investment(project_id),
    {
        match self.investments.get(project_id as u64) {
            Some(amount) => amount,
            None => 0,
        }
    }

    /// Whether an account's shares may not leave yet.
    pub fn locked(&self, account: Address, window: u32, now: u32) -> (locked: bool)
        requires
            self.wf(),
        ensures
            locked == self@.locked(account, window, now),
    {
        match self.locks.get(account) {
            Some(since) => (now as u64) < since as u64 + window as u64,
            None => false,
        }
    }

    /// Every project that has an investment, with what stands in it, once.
    pub fn all_investments(&self) -> (all: Vec<(u32, i128)>)
        requires
            self.wf(),
        ensures
            all@.len() == self@.investments.dom().len(),
            forall|i: int|
                0 <= i < all@.len() ==> self@.investments.dom().contains(
                    (#[trigger] all@[i]).0 as u64,
                ) && self@.investments[all@[i].0 as u64] == all@[i].1,
            forall|i: int, j: int|
                0 <= i < j < all@.len() ==> (#[trigger] all@[i]).0 != (#[trigger] all@[j]).0,
    {
        let mut all: Vec<(u32, i128)> = Vec::new();
        let ghost entries = self.investments.entries@;
        proof {
            self.investments.lemma_entries();
        }
        let mut i: usize = 0;
        while i < self.investments.entries.len()
            invariant
                self.wf(),
                entries == self.investments.entries@,
                i <= entries.len(),
                all@.len() == i,
                forall|j: int|
                    0 <= j < entries.len() ==> self@.investments.dom().contains(
                        (#[trigger] entries[j]).0,
                    ) && self@.investments[entries[j].0] == entries[j].1,
                forall|j: int|
                    0 <= j < i ==> (#[trigger] all@[j]).0 as u64 == entries[j].0 && all@[j].1
                        == entries[j].1,
            decreases entries.len() - i,
        {
            let entry = self.investments.entries[i];
            assert(self@.investments.dom().contains(entries[i as int].0));
            all.push((entry.0 as u32, entry.1));
            i = i + 1;
        }
        all
    }
}

} // verus!
