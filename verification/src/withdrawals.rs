//! Withdrawals, the queue of those that cannot be paid yet, and share transfers.

use vstd::prelude::*;

use crate::error::VaultError;
use crate::model::{
    after_claims, after_transfer, after_withdraw, claim_error, claim_events, claim_payments,
    owed_total,
    pays_at_once, settles, transfer_error, withdraw_error, withdraw_events, withdraw_payments,
    Vault,
};
use crate::sums::{amount_at, lemma_amount_within_sum, lemma_sum_insert};
use crate::types::{
    Address, Event, Payment, QueuedClaim, Receipt, BPS, LIMITED_FROM_BPS, MIN_WITHDRAW,
    STATE_VERSION, UTILIZATION_WARNING_BPS,
};
use crate::vault::{step_at, InvestmentVault};

verus! {

/// What shares are worth is not negative and not more than all there is.
pub proof fn lemma_worth(v: Vault, shares: int)
    requires
        v.valid(),
        0 <= shares <= v.book.supply,
    ensures
        0 <= v.book.assets_for(shares) <= v.book.total_assets(),
{
    let total = v.book.total_assets();
    let supply = v.book.supply;
    if supply > 0 {
        let product = shares * total;
        assert(0 <= product <= total * supply) by (nonlinear_arith)
            requires
                product == shares * total,
                0 <= shares <= supply,
                total >= 0,
        ;
        assert(0 <= product / supply <= total) by (nonlinear_arith)
            requires
                0 <= product <= total * supply,
                supply > 0,
        ;
    }
}

/// A withdrawal that is not refused keeps what always holds of a vault.
pub proof fn lemma_withdraw_valid(v: Vault, from: Address, shares: int, now: u32)
    requires
        v.valid(),
        withdraw_error(v, from, shares, now) is None,
    ensures
        after_withdraw(v, from, shares).valid(),
        shares <= v.book.balance(from) <= v.book.supply,
{
    lemma_amount_within_sum(v.book.balances, from, from);
    lemma_worth(v, shares);
    let balance = (v.book.balance(from) - shares) as i128;
    lemma_sum_insert(v.book.balances, from, balance);
    let after = after_withdraw(v, from, shares);
    assert forall|i: int| 0 <= i < after.book.queue.len() implies (
    #[trigger] after.book.queue[i]).owed > 0 && after.book.queue[i].to != v.settings.address by {
        if i < v.book.queue.len() {
            assert(after.book.queue[i] == v.book.queue[i]);
        }
    }
}

/// A transfer of shares that is not refused keeps what always holds of a vault.
pub proof fn lemma_transfer_valid(v: Vault, from: Address, to: Address, shares: int, now: u32)
    requires
        v.valid(),
        transfer_error(v, from, to, shares, now) is None,
    ensures
        after_transfer(v, from, to, shares, now).valid(),
{
    let balances = v.book.balances;
    lemma_amount_within_sum(balances, from, to);
    lemma_amount_within_sum(balances, to, to);
    let left = (amount_at(balances, from) - shares) as i128;
    let taken = if shares == 0 {
        balances
    } else {
        balances.insert(from, left)
    };
    lemma_sum_insert(balances, from, left);
    lemma_amount_within_sum(taken, to, to);
    lemma_sum_insert(taken, to, (amount_at(taken, to) + shares) as i128);
}

impl InvestmentVault {
    /// Redeems shares for USDC. They are burned, and their worth is paid at once where the
    /// liquid USDC covers it; else it is queued, and zero is the result. Shares that came in
    /// within the last ledgers are locked, and a vault with much of its money in projects pays
    /// only so much at a time.
    pub fn withdraw(&mut self, from: Address, shares: i128, now: u32) -> (result: Result<
        Receipt<i128>,
        VaultError,
    >)
        requires
            old(self).wf(),
        ensures
            final(self).wf(),
            match result {
                Ok(receipt) => {
                    &&& withdraw_error(old(self)@, from, shares as int, now) is None
                    &&& final(self)@ == after_withdraw(old(self)@, from, shares as int)
                    &&& receipt.value == if pays_at_once(old(self)@, shares as int) {
                        old(self)@.book.assets_for(shares as int)
                    } else {
                        0
                    }
                    &&& receipt.payments@ == withdraw_payments(old(self)@, from, shares as int)
                    &&& receipt.events@ == withdraw_events(old(self)@, from, shares as int)
                },
                Err(error) => {
                    &&& withdraw_error(old(self)@, from, shares as int, now) == Some(error)
                    &&& final(self)@ == old(self)@
                },
            },
    {
        let ghost v = self@;
        if self.settings.stored_version != STATE_VERSION {
            return Err(VaultError::StaleState);
        }
        if shares <= 0 {
            return Err(VaultError::SharesNotPositive);
        }
        if shares < MIN_WITHDRAW {
            return Err(VaultError::WithdrawBelowMinimum);
        }
        if self.accounts.locked(from, self.settings.withdrawal_window, now) {
            return Err(VaultError::DepositLocked);
        }
        let balance: i128 = self.accounts.balance(from);
        if balance < shares {
            return Err(VaultError::InsufficientShares);
        }
        proof {
            lemma_amount_within_sum(v.book.balances, from, from);
            lemma_worth(v, shares as int);
        }
        let worth: i128 = match self.accounts.assets_for(shares) {
            Some(worth) => worth,
            None => {
                return Err(VaultError::Overflow);
            },
        };
        let utilization: i128 = match self.accounts.utilization() {
            Some(utilization) => utilization,
            None => {
                return Err(VaultError::Overflow);
            },
        };
        if utilization >= LIMITED_FROM_BPS as i128 {
            let step = step_at(&self.schedule, utilization);
            let scaled: i128 = match self.accounts.liquid.checked_mul(step.liquid_bps as i128) {
                Some(scaled) => scaled,
                None => {
                    return Err(VaultError::Overflow);
                },
            };
            assert(scaled >= 0) by (nonlinear_arith)
                requires
                    scaled == self.accounts.liquid * step.liquid_bps,
                    self.accounts.liquid >= 0,
            ;
            if worth > scaled / BPS {
                return Err(VaultError::WithdrawalLimitExceeded);
            }
        }
        proof {
            lemma_withdraw_valid(v, from, shares as int, now);
        }
        let mut payments: Vec<Payment> = Vec::new();
        let mut events: Vec<Event> = Vec::new();
        events.push(Event::Burn { from, shares });
        if utilization >= UTILIZATION_WARNING_BPS as i128 {
            events.push(Event::UtilizationWarning { utilization_bps: utilization });
        }
        let paid = worth <= self.accounts.liquid;
        self.accounts.supply = self.accounts.supply - shares;
        self.accounts.balances.set(from, balance - shares);
        if paid {
            self.accounts.liquid = self.accounts.liquid - worth;
            payments.push(Payment { from: self.settings.address, to: from, amount: worth });
            events.push(Event::Withdrawn { to: from, shares, assets: worth });
        } else {
            let ghost claims = self.accounts.claims@;
            self.accounts.claims.push(QueuedClaim { to: from, owed: worth });
            events.push(Event::WithdrawQueued { to: from, shares, owed: worth });
            assert(self.accounts@.queue =~= v.book.queue.push(
                QueuedClaim { to: from, owed: worth },
            ));
        }
        assert(self@ == after_withdraw(v, from, shares as int));
        assert(payments@ =~= withdraw_payments(v, from, shares as int));
        assert(events@ =~= withdraw_events(v, from, shares as int));
        Ok(
            Receipt {
                value: if paid {
                    worth
                } else {
                    0
                },
                payments,
                events,
            },
        )
    }

    /// Pays queued redemptions, the oldest first and each in full, as far as the liquid USDC
    /// goes, and says how much was paid.
    pub fn claim(&mut self) -> (result: Result<Receipt<i128>, VaultError>)
        requires
            old(self).wf(),
        ensures
            final(self).wf(),
            match result {
                Ok(receipt) => {
                    let count = receipt.payments@.len() as int;
                    &&& claim_error(old(self)@) is None
                    &&& settles(old(self)@.book, count)
                    &&& final(self)@ == after_claims(old(self)@, count)
                    &&& receipt.value == owed_total(old(self)@.book.queue.take(count))
                    &&& receipt.payments@ == claim_payments(old(self)@, count)
                    &&& receipt.events@ == claim_events(old(self)@, count)
                },
                Err(error) => {
                    &&& claim_error(old(self)@) == Some(error)
                    &&& final(self)@ == old(self)@
                },
            },
    {
        let ghost v = self@;
        let ghost queue = self@.book.queue;
        let ghost first = self.accounts.head;
        if self.settings.stored_version != STATE_VERSION {
            return Err(VaultError::StaleState);
        }
        let mut paid: i128 = 0;
        let mut payments: Vec<Payment> = Vec::new();
        let mut events: Vec<Event> = Vec::new();
        assert(queue.take(0) =~= Seq::empty());
        assert(queue.skip(0) =~= queue);
        while self.accounts.head < self.accounts.claims.len()
            && self.accounts.claims[self.accounts.head].owed <= self.accounts.liquid
            invariant
                v.valid(),
                queue == v.book.queue,
                queue == self.accounts.claims@.skip(first as int),
                first <= self.accounts.head <= self.accounts.claims@.len(),
                self.wf(),
                paid == owed_total(queue.take(self.accounts.head - first)),
                0 <= paid <= v.book.liquid,
                self@ == after_claims(v, self.accounts.head - first),
                payments@ == claim_payments(v, self.accounts.head - first),
                events@ == claim_events(v, self.accounts.head - first),
            decreases self.accounts.claims@.len() - self.accounts.head,
        {
            let ghost count = self.accounts.head - first;
            let due = self.accounts.claims[self.accounts.head];
            assert(due == queue[count]);
            assert(queue.take(count + 1).drop_last() =~= queue.take(count));
            assert(self.accounts@.queue =~= queue.skip(count));
            payments.push(
                Payment { from: self.settings.address, to: due.to, amount: due.owed },
            );
            events.push(Event::ClaimSettled { to: due.to, paid: due.owed });
            paid = paid + due.owed;
            self.accounts.liquid = self.accounts.liquid - due.owed;
            self.accounts.head = self.accounts.head + 1;
            assert(self.accounts@.queue =~= queue.skip(count + 1));
            assert(payments@ =~= claim_payments(v, count + 1));
            assert(events@ =~= claim_events(v, count + 1));
            assert(self@.valid());
        }
        proof {
            let count = self.accounts.head - first;
            if count < queue.len() {
                assert(queue[count] == self.accounts.claims@[self.accounts.head as int]);
            }
        }
        Ok(Receipt { value: paid, payments, events })
    }

    /// Moves shares from one account to another, where they are locked as if just bought. The
    /// vault itself cannot hold shares.
    pub fn transfer(&mut self, from: Address, to: Address, shares: i128, now: u32) -> (result:
        Result<Receipt<()>, VaultError>)
        requires
            old(self).wf(),
        ensures
            final(self).wf(),
            match result {
                Ok(receipt) => {
                    &&& transfer_error(old(self)@, from, to, shares as int, now) is None
                    &&& final(self)@ == after_transfer(old(self)@, from, to, shares as int, now)
                    &&& receipt.payments@ == Seq::<Payment>::empty()
                    &&& receipt.events@ == seq![Event::Transfer { from, to, shares }]
                },
                Err(error) => {
                    &&& transfer_error(old(self)@, from, to, shares as int, now) == Some(error)
                    &&& final(self)@ == old(self)@
                },
            },
    {
        let ghost v = self@;
        if self.settings.stored_version != STATE_VERSION {
            return Err(VaultError::StaleState);
        }
        if to == self.settings.address {
            return Err(VaultError::VaultAsHolder);
        }
        if shares < 0 {
            return Err(VaultError::NegativeTransfer);
        }
        if self.accounts.locked(from, self.settings.withdrawal_window, now) {
            return Err(VaultError::DepositLocked);
        }
        let balance: i128 = self.accounts.balance(from);
        if balance < shares {
            return Err(VaultError::InsufficientShares);
        }
        proof {
            lemma_transfer_valid(v, from, to, shares as int, now);
            lemma_amount_within_sum(v.book.balances, from, to);
            lemma_amount_within_sum(v.book.balances, to, to);
        }
        if shares != 0 {
            self.accounts.balances.set(from, balance - shares);
        }
        let held: i128 = match self.accounts.balances.get(to) {
            Some(held) => held,
            None => 0,
        };
        self.accounts.balances.set(to, held + shares);
        self.accounts.locks.set(to, now);
        assert(self@ == after_transfer(v, from, to, shares as int, now));
        let mut events: Vec<Event> = Vec::new();
        events.push(Event::Transfer { from, to, shares });
        assert(events@ =~= seq![Event::Transfer { from, to, shares }]);
        Ok(Receipt { value: (), payments: Vec::new(), events })
    }
}

} // verus!
