//! Flash loans: lent and repaid with a fee in one request.

use vstd::prelude::*;

use crate::error::VaultError;
use crate::model::{after_flash_loan, flash_loan_error, flash_loan_fee, Vault};
use crate::types::{Address, Event, Payment, Receipt, BPS, STATE_VERSION};
use crate::vault::InvestmentVault;

verus! {

/// A borrower: it is called with the loan in hand, and says whether it has repaid it.
pub trait FlashLoanReceiver {
    fn flash_loan_callback(
        &self,
        initiator: Address,
        vault: Address,
        amount: i128,
        fee: i128,
        data: &Vec<u8>,
    ) -> bool;
}

/// A borrower that always says it has repaid.
pub struct MockRepayingReceiver;

impl FlashLoanReceiver for MockRepayingReceiver {
    fn flash_loan_callback(
        &self,
        initiator: Address,
        vault: Address,
        amount: i128,
        fee: i128,
        data: &Vec<u8>,
    ) -> (repaid: bool)
        ensures
            repaid,
    {
        true
    }
}

/// A borrower that never repays.
pub struct MockFailingReceiver;

impl FlashLoanReceiver for MockFailingReceiver {
    fn flash_loan_callback(
        &self,
        initiator: Address,
        vault: Address,
        amount: i128,
        fee: i128,
        data: &Vec<u8>,
    ) -> (repaid: bool)
        ensures
            !repaid,
    {
        false
    }
}

/// Whether a borrower that is called with a loan of the vault and the fee on it may give this
/// answer.
pub open spec fn answers<R: FlashLoanReceiver>(
    borrower: &R,
    initiator: Address,
    v: Vault,
    amount: i128,
    data: &Vec<u8>,
    repaid: bool,
) -> bool {
    call_ensures(
        R::flash_loan_callback,
        (
            borrower,
            initiator,
            v.settings.address,
            amount,
            flash_loan_fee(v.settings, amount as int) as i128,
            data,
        ),
        repaid,
    )
}

/// A flash loan that is not refused keeps what always holds of a vault.
pub proof fn lemma_flash_loan_valid(v: Vault, amount: int)
    requires
        v.valid(),
        flash_loan_error(v, amount) is None,
    ensures
        flash_loan_fee(v.settings, amount) >= 0,
        after_flash_loan(v, amount).valid(),
{
    let bps = v.settings.flash_loan_fee_bps as int;
    assert(amount * bps >= 0) by (nonlinear_arith)
        requires
            amount >= 0,
            bps >= 0,
    ;
}

impl InvestmentVault {
    /// The fee on a flash loan, where the loan can be made.
    pub fn quote_flash_loan(&self, amount: i128) -> (result: Result<i128, VaultError>)
        requires
            self.wf(),
        ensures
            match result {
                Ok(fee) => flash_loan_error(self@, amount as int) is None && fee == flash_loan_fee(
                    self@.settings,
                    amount as int,
                ),
                Err(error) => flash_loan_error(self@, amount as int) == Some(error),
            },
    {
        if self.settings.stored_version != STATE_VERSION {
            return Err(VaultError::StaleState);
        }
        if amount <= 0 {
            return Err(VaultError::AmountNotPositive);
        }
        if amount > self.accounts.liquid {
            return Err(VaultError::InsufficientLiquidity);
        }
        let product: i128 = match amount.checked_mul(self.settings.flash_loan_fee_bps) {
            Some(product) => product,
            None => {
                return Err(VaultError::Overflow);
            },
        };
        assert(product >= 0) by (nonlinear_arith)
            requires
                product == amount * self.settings.flash_loan_fee_bps,
                amount >= 0,
                self.settings.flash_loan_fee_bps >= 0,
        ;
        let fee: i128 = product / BPS;
        if fee > i128::MAX - self.accounts.total_assets() {
            return Err(VaultError::Overflow);
        }
        Ok(fee)
    }

    /// Ends a flash loan: with the borrower's word that it has repaid, the fee is the vault's;
    /// without it the loan is as if it had not been.
    pub fn settle_flash_loan(&mut self, amount: i128, repaid: bool) -> (result: Result<
        Receipt<i128>,
        VaultError,
    >)
        requires
            old(self).wf(),
        ensures
            final(self).wf(),
            match result {
                Ok(receipt) => {
                    &&& flash_loan_error(old(self)@, amount as int) is None
                    &&& repaid
                    &&& final(self)@ == after_flash_loan(old(self)@, amount as int)
                    &&& receipt.value == flash_loan_fee(old(self)@.settings, amount as int)
                    &&& receipt.payments@ == Seq::<Payment>::empty()
                    &&& receipt.events@ == Seq::<Event>::empty()
                },
                Err(error) => {
                    &&& match flash_loan_error(old(self)@, amount as int) {
                        Some(refusal) => error == refusal,
                        None => !repaid && error == VaultError::FlashLoanCallbackFailed,
                    }
                    &&& final(self)@ == old(self)@
                },
            },
    {
        let ghost v = self@;
        let fee: i128 = match self.quote_flash_loan(amount) {
            Ok(fee) => fee,
            Err(error) => {
                return Err(error);
            },
        };
        if !repaid {
            return Err(VaultError::FlashLoanCallbackFailed);
        }
        proof {
            lemma_flash_loan_valid(v, amount as int);
        }
        self.accounts.liquid = self.accounts.liquid + fee;
        assert(self@ == after_flash_loan(v, amount as int));
        Ok(Receipt { value: fee, payments: Vec::new(), events: Vec::new() })
    }

    /// Makes a flash loan: calls the borrower with the loan and its fee, and settles on its
    /// word. The loan and its repayment pass between the vault and the borrower during that
    /// call.
    pub fn execute_flash_loan<R: FlashLoanReceiver>(
        &mut self,
        initiator: Address,
        borrower: &R,
        amount: i128,
        data: &Vec<u8>,
    ) -> (result: Result<Receipt<i128>, VaultError>)
        requires
            old(self).wf(),
        ensures
            final(self).wf(),
            match flash_loan_error(old(self)@, amount as int) {
                Some(error) => result == Err::<Receipt<i128>, VaultError>(error) && final(self)@
                    == old(self)@,
                None => exists|repaid: bool|
                    {
                        &&& #[trigger] answers(
                            borrower,
                            initiator,
                            old(self)@,
                            amount,
                            data,
                            repaid,
                        )
                        &&& match result {
                            Ok(receipt) => {
                                &&& repaid
                                &&& final(self)@ == after_flash_loan(old(self)@, amount as int)
                                &&& receipt.value == flash_loan_fee(
                                    old(self)@.settings,
                                    amount as int,
                                )
                                &&& receipt.payments@ == Seq::<Payment>::empty()
                                &&& receipt.events@ == Seq::<Event>::empty()
                            },
                            Err(error) => {
                                &&& !repaid
                                &&& error == VaultError::FlashLoanCallbackFailed
                                &&& final(self)@ == old(self)@
                            },
                        }
                    },
            },
    {
        let fee: i128 = match self.quote_flash_loan(amount) {
            Ok(fee) => fee,
            Err(error) => {
                return Err(error);
            },
        };
        let repaid = borrower.flash_loan_callback(
            initiator,
            self.settings.address,
            amount,
            fee,
            data,
        );
        assert(answers(borrower, initiator, self@, amount, data, repaid));
        self.settle_flash_loan(amount, repaid)
    }
}

} // verus!
