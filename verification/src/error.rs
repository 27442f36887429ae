//! The ways in which the vault refuses a request.

use vstd::prelude::*;

verus! {

/// Why a request was refused. A refused request leaves the vault as it was.
#[derive(Clone, Copy, Debug, PartialEq, Eq, Structural)]
pub enum VaultError {
    /// An amount of USDC that has to be positive is not.
    AmountNotPositive,
    /// A deposit below the smallest one accepted.
    DepositBelowMinimum,
    /// A deposit above the largest one accepted.
    DepositAboveMaximum,
    /// A deposit that would take the share supply over its cap.
    SupplyCapExceeded,
    /// A batch deposit without a single deposit in it.
    EmptyBatchDeposit,
    /// A withdrawal of no shares, or of a negative number of them.
    SharesNotPositive,
    /// A withdrawal below the smallest one accepted.
    WithdrawBelowMinimum,
    /// The account's shares came in too recently to leave.
    DepositLocked,
    /// The account holds fewer shares than the request needs.
    InsufficientShares,
    /// A withdrawal over what the vault's utilization allows.
    WithdrawalLimitExceeded,
    /// A transfer of a negative number of shares.
    NegativeTransfer,
    /// Shares would come to be held by the vault itself.
    VaultAsHolder,
    /// The registry does not answer as a registry does.
    InvalidRegistry,
    /// The registry is paused.
    RegistryPaused,
    /// The registry has no project of that number.
    InvalidProject,
    /// The project belongs to the vault's owner, or to the vault.
    SelfFunding,
    /// The project's credit quality is below the threshold.
    CreditQualityBelowThreshold,
    /// The project's green impact is below the threshold.
    GreenImpactBelowThreshold,
    /// The amount is more than the liquid USDC outside the insurance reserve.
    InsufficientDeployable,
    /// A batch that names one project twice.
    DuplicateProject,
    /// Fewer approvals than the multisig asks for, or no multisig set up.
    InsufficientApprovals,
    /// A funding threshold above 100.
    InvalidThreshold,
    /// A management fee above its cap.
    FeeAboveCap,
    /// A flash loan fee below zero.
    NegativeFlashLoanFee,
    /// A flash loan of more than the vault's liquid USDC.
    InsufficientLiquidity,
    /// The borrower did not confirm the repayment of a flash loan.
    FlashLoanCallbackFailed,
    /// The caller is not the account that the request is reserved to.
    Unauthorized,
    /// Deposits are paused.
    Paused,
    /// The stored state was written by another version.
    StaleState,
    /// The migration does not start from the stored version.
    VersionMismatch,
    /// There is no ownership transfer to cancel or to accept.
    NoPendingTransfer,
    /// The deadline of an ownership transfer is past, or too far away.
    InvalidLiveUntilLedger,
    /// The ownership transfer to cancel is to another account.
    InvalidPendingAccount,
    /// The deadline of the ownership transfer has passed.
    TransferExpired,
    /// The vault cannot be set up with the given limits.
    InvalidLimits,
    /// A number does not fit the machine integers.
    Overflow,
}

impl VaultError {
    /// The number that clients know the error by, for those that have a published one.
    pub fn code(&self) -> (code: Option<u32>)
        ensures
            code == match *self {
                VaultError::AmountNotPositive => Some(1u32),
                VaultError::InvalidThreshold => Some(19u32),
                VaultError::DuplicateProject => Some(40u32),
                _ => None,
            },
    {
        match self {
            VaultError::AmountNotPositive => Some(1),
            VaultError::InvalidThreshold => Some(19),
            VaultError::DuplicateProject => Some(40),
            _ => None,
        }
    }
}

} // verus!
