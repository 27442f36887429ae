//! The plain values that the vault works on and hands back.

use vstd::prelude::*;

verus! {

/// An account or a contract, by the number that the host knows it by.
pub type Address = u64;

/// The version of the state layout that this code works on.
pub const STATE_VERSION: u32 = 1;

/// Parts in a whole, for rates in basis points.
pub const BPS: i128 = 10_000;

/// The share of a deposit that goes to the insurance reserve, in basis points.
pub const INSURANCE_PREMIUM_BPS: i128 = 50;

/// The largest management fee, in basis points.
pub const MAX_MANAGEMENT_FEE_BPS: u32 = 500;

/// The smallest deposit: 100 USDC, at seven decimals.
pub const MIN_DEPOSIT: i128 = 1_000_000_000;

/// The largest deposit: a thousand million USDC.
pub const MAX_DEPOSIT: i128 = 10_000_000_000_000_000;

/// The highest cap on the share supply. Twenty of the largest deposits reach it.
pub const MAX_SUPPLY_CAP: i128 = 190_000_000_000_000_000;

/// The smallest withdrawal: 100 shares.
pub const MIN_WITHDRAW: i128 = 1_000_000_000;

/// The utilization from which withdrawals are limited, in basis points.
pub const LIMITED_FROM_BPS: u32 = 5_000;

/// A high utilization, in basis points, for which the limit on withdrawals is given.
pub const HIGH_UTILIZATION_BPS: u32 = 8_000;

/// The part of the liquid USDC that one withdrawal may take at that utilization, in basis
/// points.
pub const HIGH_UTILIZATION_LIMIT_BPS: u32 = 2_500;

/// The utilization from which a withdrawal raises a warning, in basis points.
pub const UTILIZATION_WARNING_BPS: u32 = 7_000;

/// The largest funding threshold.
pub const MAX_THRESHOLD: u32 = 100;

/// How many ledgers shares stay locked unless told otherwise.
pub const DEFAULT_WITHDRAWAL_WINDOW: u32 = 1;

/// The decimals of the share token.
pub const SHARE_DECIMALS: u32 = 7;

/// A step of the withdrawal schedule: from this utilization on, one withdrawal may take at most
/// this part of the liquid USDC.
#[derive(Clone, Copy, Debug, PartialEq, Eq, Structural)]
pub struct LimitStep {
    pub from_bps: u32,
    pub liquid_bps: u32,
}

/// A redemption that waits for liquid USDC. Its shares are burned already.
#[derive(Clone, Copy, Debug, PartialEq, Eq, Structural)]
pub struct QueuedClaim {
    pub to: Address,
    pub owed: i128,
}

/// An ownership transfer that waits to be accepted.
#[derive(Clone, Copy, Debug, PartialEq, Eq, Structural)]
pub struct PendingOwner {
    pub account: Address,
    pub live_until_ledger: u32,
}

/// What the vault is set to.
#[derive(Clone, Copy, Debug, PartialEq, Eq, Structural)]
pub struct Settings {
    /// The vault's own address.
    pub address: Address,
    pub owner: Address,
    pub pending_owner: Option<PendingOwner>,
    pub emergency_admin: Option<Address>,
    /// The token that the vault takes.
    pub asset: Address,
    pub registry: Address,
    pub max_hbs_supply: i128,
    pub stored_version: u32,
    pub paused: bool,
    pub trading_enabled: bool,
    pub management_fee_bps: u32,
    pub fee_recipient: Option<Address>,
    /// From this deposit on the tier's rate holds; zero where there is no tier.
    pub tier_threshold: i128,
    pub tier_bps: u32,
    pub min_credit_quality: u32,
    pub min_green_impact: u32,
    pub withdrawal_window: u32,
    pub flash_loan_fee_bps: i128,
}

/// A payment in the accepted asset that a request calls for.
#[derive(Clone, Copy, Debug, PartialEq, Eq, Structural)]
pub struct Payment {
    pub from: Address,
    pub to: Address,
    pub amount: i128,
}

/// What a request announces.
#[derive(Clone, Copy, Debug, PartialEq, Eq, Structural)]
pub enum Event {
    Mint { to: Address, shares: i128 },
    Burn { from: Address, shares: i128 },
    Transfer { from: Address, to: Address, shares: i128 },
    Deposited { from: Address, amount: i128, shares: i128 },
    UtilizationWarning { utilization_bps: i128 },
    Withdrawn { to: Address, shares: i128, assets: i128 },
    WithdrawQueued { to: Address, shares: i128, owed: i128 },
    ClaimSettled { to: Address, paid: i128 },
    ProjectFunded { project_id: u32, amount: i128 },
    ManagementFeeSet { bps: u32, recipient: Address },
    SecondaryTradingEnabled,
    TrustedEmitterSet { chain_id: u32, trusted: bool },
    OwnershipTransfer { old_owner: Address, new_owner: Address, live_until_ledger: u32 },
    OwnershipTransferred { old_owner: Address, new_owner: Address },
    OwnershipTransferCompleted { new_owner: Address },
}

/// What an accepted request comes to: its result, the payments to make, in order, and the
/// events to announce, in order.
#[derive(Debug, PartialEq, Eq)]
pub struct Receipt<T> {
    pub value: T,
    pub payments: Vec<Payment>,
    pub events: Vec<Event>,
}

/// What the registry says of a project.
#[derive(Clone, Copy, Debug, PartialEq, Eq, Structural)]
pub struct ProjectInfo {
    pub owner: Address,
    pub credit_quality: u32,
    pub green_impact: u32,
    /// What a funding of the project is expected to return on top of its amount.
    pub expected_return: u64,
}

/// What the registry says: project `n` stands at place `n - 1`.
#[derive(Debug, PartialEq, Eq)]
pub struct RegistryInfo {
    pub paused: bool,
    pub projects: Vec<ProjectInfo>,
}

/// A request to fund a project.
#[derive(Clone, Copy, Debug, PartialEq, Eq, Structural)]
pub struct FundingRequest {
    pub project_id: u32,
    pub amount: i128,
}

/// The share token as a market sees it.
#[derive(Debug, PartialEq, Eq)]
pub struct TokenInfo {
    pub name: String,
    pub symbol: String,
    pub decimals: u32,
    pub trading_enabled: bool,
}

/// The requests that are reserved to the owner.
#[derive(Clone, Copy, Debug, PartialEq, Eq, Structural)]
pub enum OwnerRequest {
    MigrateState,
    FundProject,
    ReceiveYield,
    ClaimInsurance,
    SetMultisigAdmin,
    SetManagementFee,
    EnableSecondaryTrading,
    SetFundingThresholds,
    SetRegistry,
    SetBridge,
    SetWormholeCore,
    SetTrustedEmitter,
    SetFlashLoanFee,
    SetCarbonOracle,
    SetMaxTransactionAmount,
    RecordComplianceEvent,
    TakeReportingSnapshot,
    Pause,
    Unpause,
    SetEmergencyAdmin,
    CompactStorage,
    Upgrade,
    SetVolumeFeeTier,
}

} // verus!
