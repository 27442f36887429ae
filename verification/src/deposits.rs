//! Deposits: USDC in, shares out.

use vstd::prelude::*;

use crate::error::VaultError;
use crate::model::{
    after_batch_deposit, after_deposit, batch_deposit_error, batch_deposit_events,
    batch_deposit_payments, deposit_error, deposit_events, deposit_payments, deposit_shares,
    each_deposit_error, fee_rate, insurance_premium, investable, management_fee, Vault,
};
use crate::sums::{lemma_amount_within_sum, lemma_sum_insert};
use crate::types::{
    Address, Event, Payment, Receipt, Settings, BPS, INSURANCE_PREMIUM_BPS, MAX_DEPOSIT,
    MAX_MANAGEMENT_FEE_BPS, MIN_DEPOSIT, STATE_VERSION,
};
use crate::vault::InvestmentVault;

verus! {

/// The parts of an acceptable deposit are not negative, and some of it buys shares.
pub proof fn lemma_deposit_parts(settings: Settings, amount: int)
    requires
        MIN_DEPOSIT <= amount <= MAX_DEPOSIT,
        settings.management_fee_bps <= MAX_MANAGEMENT_FEE_BPS,
        settings.tier_bps <= MAX_MANAGEMENT_FEE_BPS,
    ensures
        0 <= amount * fee_rate(settings, amount) <= MAX_DEPOSIT * 500,
        0 <= insurance_premium(amount) <= amount,
        0 <= management_fee(settings, amount) <= amount,
        0 < investable(settings, amount) <= amount,
{
    let rate = fee_rate(settings, amount) as int;
    assert(0 <= amount * rate <= amount * 500) by (nonlinear_arith)
        requires
            0 <= rate <= 500,
            amount >= 0,
    ;
}

/// A deposit that is not refused keeps what always holds of a vault.
pub proof fn lemma_deposit_valid(v: Vault, from: Address, amount: int, now: u32)
    requires
        v.valid(),
        deposit_error(v, from, amount) is None,
    ensures
        after_deposit(v, from, amount, now).valid(),
        0 <= deposit_shares(v, amount),
        v.book.balance(from) + deposit_shares(v, amount) <= v.settings.max_hbs_supply,
{
    lemma_deposit_parts(v.settings, amount);
    let bought = investable(v.settings, amount);
    let shares = deposit_shares(v, amount);
    assert(shares >= 0) by {
        if !v.book.one_to_one() {
            let total = v.book.total_assets();
            let product = bought * v.book.supply;
            assert(product >= 0) by (nonlinear_arith)
                requires
                    product == bought * v.book.supply,
                    bought >= 0,
                    v.book.supply >= 0,
            ;
            assert(product / total >= 0) by (nonlinear_arith)
                requires
                    product >= 0,
                    total > 0,
            ;
        }
    }
    lemma_amount_within_sum(v.book.balances, from, from);
    let balance = (v.book.balance(from) + shares) as i128;
    lemma_sum_insert(v.book.balances, from, balance);
}

/// A batch is refused for the first deposit in it that is refused.
proof fn lemma_batch_error(v: Vault, deposits: Seq<(Address, i128)>, count: int, now: u32)
    requires
        0 <= count <= deposits.len(),
        each_deposit_error(v, deposits.take(count), now) is Some,
    ensures
        each_deposit_error(v, deposits, now) == each_deposit_error(
            v,
            deposits.take(count),
            now,
        ),
    decreases deposits.len(),
{
    if count == deposits.len() {
        assert(deposits.take(count) =~= deposits);
    } else {
        assert(deposits.drop_last().take(count) =~= deposits.take(count));
        lemma_batch_error(v, deposits.drop_last(), count, now);
    }
}

impl InvestmentVault {
    /// The management fee on a deposit of `amount`.
    fn fee_on(&self, amount: i128) -> (fee: i128)
        requires
            self.wf(),
            MIN_DEPOSIT <= amount <= MAX_DEPOSIT,
        ensures
            fee == management_fee(self@.settings, amount as int),
    {
        proof {
            lemma_deposit_parts(self.settings, amount as int);
        }
        if self.settings.fee_recipient.is_none() {
            return 0;
        }
        let rate: u32 = if self.settings.tier_threshold > 0 && amount
            >= self.settings.tier_threshold {
            self.settings.tier_bps
        } else {
            self.settings.management_fee_bps
        };
        amount * rate as i128 / BPS
    }

    /// Takes a deposit of USDC and mints shares for it: an insurance premium and the management
    /// fee come off first, and the rest buys shares at the price before the deposit. `now` is
    /// the number of the current ledger; the shares are locked from it on.
    pub fn deposit(&mut self, from: Address, amount: i128, now: u32) -> (result: Result<
        Receipt<i128>,
        VaultError,
    >)
        requires
            old(self).wf(),
        ensures
            final(self).wf(),
            match result {
                Ok(receipt) => {
                    &&& deposit_error(old(self)@, from, amount as int) is None
                    &&& final(self)@ == after_deposit(old(self)@, from, amount as int, now)
                    &&& receipt.value == deposit_shares(old(self)@, amount as int)
                    &&& receipt.payments@ == deposit_payments(old(self)@, from, amount as int)
                    &&& receipt.events@ == deposit_events(old(self)@, from, amount as int)
                },
                Err(error) => {
                    &&& deposit_error(old(self)@, from, amount as int) == Some(error)
                    &&& final(self)@ == old(self)@
                },
            },
    {
        let ghost v = self@;
        if self.settings.paused {
            return Err(VaultError::Paused);
        }
        if self.settings.stored_version != STATE_VERSION {
            return Err(VaultError::StaleState);
        }
        if amount <= 0 {
            return Err(VaultError::AmountNotPositive);
        }
        if amount < MIN_DEPOSIT {
            return Err(VaultError::DepositBelowMinimum);
        }
        if amount > MAX_DEPOSIT {
            return Err(VaultError::DepositAboveMaximum);
        }
        if from == self.settings.address {
            return Err(VaultError::VaultAsHolder);
        }
        proof {
            lemma_deposit_parts(self.settings, amount as int);
        }
        let fee: i128 = self.fee_on(amount);
        let premium: i128 = amount * INSURANCE_PREMIUM_BPS / BPS;
        let shares: i128 = match self.accounts.shares_for(amount - premium - fee) {
            Some(shares) => shares,
            None => {
                return Err(VaultError::Overflow);
            },
        };
        if shares > self.settings.max_hbs_supply - self.accounts.supply {
            return Err(VaultError::SupplyCapExceeded);
        }
        if amount > i128::MAX - self.accounts.total_assets() || premium > i128::MAX
            - self.accounts.insurance_reserve {
            return Err(VaultError::Overflow);
        }
        proof {
            lemma_deposit_valid(v, from, amount as int, now);
        }
        let mut payments: Vec<Payment> = Vec::new();
        payments.push(Payment { from, to: self.settings.address, amount });
        self.accounts.liquid = self.accounts.liquid + amount;
        if let Some(recipient) = self.settings.fee_recipient {
            if fee > 0 {
                payments.push(Payment { from: self.settings.address, to: recipient, amount: fee });
            }
            if recipient != self.settings.address {
                self.accounts.liquid = self.accounts.liquid - fee;
            }
        }
        let balance: i128 = self.accounts.balance(from);
        self.accounts.insurance_reserve = self.accounts.insurance_reserve + premium;
        self.accounts.supply = self.accounts.supply + shares;
        self.accounts.balances.set(from, balance + shares);
        self.accounts.locks.set(from, now);
        let mut events: Vec<Event> = Vec::new();
        events.push(Event::Mint { to: from, shares });
        events.push(Event::Deposited { from, amount, shares });
        assert(self@ == after_deposit(v, from, amount as int, now));
        assert(payments@ =~= deposit_payments(v, from, amount as int));
        assert(events@ =~= deposit_events(v, from, amount as int));
        Ok(Receipt { value: shares, payments, events })
    }

    /// Takes several deposits, one after another, and says what each minted. Where one is
    /// refused, all are.
    pub fn batch_deposit(&mut self, deposits: &Vec<(Address, i128)>, now: u32) -> (result: Result<
        Receipt<Vec<i128>>,
        VaultError,
    >)
        requires
            old(self).wf(),
        ensures
            final(self).wf(),
            match result {
                Ok(receipt) => {
                    &&& batch_deposit_error(old(self)@, deposits@, now) is None
                    &&& final(self)@ == after_batch_deposit(old(self)@, deposits@, now)
                    &&& receipt.value@.len() == deposits@.len()
                    &&& forall|i: int|
                        0 <= i < deposits@.len() ==> #[trigger] receipt.value@[i]
                            == deposit_shares(
                            after_batch_deposit(old(self)@, deposits@.take(i), now),
                            deposits@[i].1 as int,
                        )
                    &&& receipt.payments@ == batch_deposit_payments(old(self)@, deposits@, now)
                    &&& receipt.events@ == batch_deposit_events(old(self)@, deposits@, now)
                },
                Err(error) => {
                    &&& batch_deposit_error(old(self)@, deposits@, now) == Some(error)
                    &&& final(self)@ == old(self)@
                },
            },
    {
        let ghost v = self@;
        if deposits.len() == 0 {
            return Err(VaultError::EmptyBatchDeposit);
        }
        let saved = self.accounts.duplicate();
        let mut minted: Vec<i128> = Vec::new();
        let mut payments: Vec<Payment> = Vec::new();
        let mut events: Vec<Event> = Vec::new();
        let mut i: usize = 0;
        while i < deposits.len()
            invariant
                i <= deposits@.len(),
                0 < deposits@.len(),
                v == old(self)@,
                self.wf(),
                v.valid(),
                saved.wf(),
                saved@ == v.book,
                self@ == after_batch_deposit(v, deposits@.take(i as int), now),
                self@.settings == v.settings,
                self@.schedule == v.schedule,
                self@.signers == v.signers,
                self@.approvals_needed == v.approvals_needed,
                self@.emitters == v.emitters,
                each_deposit_error(v, deposits@.take(i as int), now) is None,
                minted@.len() == i,
                forall|j: int|
                    0 <= j < i ==> #[trigger] minted@[j] == deposit_shares(
                        after_batch_deposit(v, deposits@.take(j), now),
                        deposits@[j].1 as int,
                    ),
                payments@ == batch_deposit_payments(v, deposits@.take(i as int), now),
                events@ == batch_deposit_events(v, deposits@.take(i as int), now),
            decreases deposits@.len() - i,
        {
            let ghost before = self@;
            assert(deposits@.take(i + 1).drop_last() =~= deposits@.take(i as int));
            match self.deposit(deposits[i].0, deposits[i].1, now) {
                Ok(mut receipt) => {
                    minted.push(receipt.value);
                    payments.append(&mut receipt.payments);
                    events.append(&mut receipt.events);
                },
                Err(error) => {
                    self.accounts = saved;
                    proof {
                        lemma_batch_error(v, deposits@, i + 1, now);
                    }
                    assert(self@ == v);
                    return Err(error);
                },
            }
            i = i + 1;
        }
        assert(deposits@.take(i as int) =~= deposits@);
        Ok(Receipt { value: minted, payments, events })
    }
}

} // verus!
