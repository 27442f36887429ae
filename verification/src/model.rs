//! What a vault is and what each request does to it, as mathematics.

use vstd::prelude::*;

use crate::error::VaultError;
use crate::sums::{amount_at, nonzero, sum_of};
use crate::types::{
    Address, Event, FundingRequest, LimitStep, Payment, PendingOwner, QueuedClaim, RegistryInfo,
    Settings, BPS, HIGH_UTILIZATION_BPS, HIGH_UTILIZATION_LIMIT_BPS, INSURANCE_PREMIUM_BPS,
    LIMITED_FROM_BPS, MAX_DEPOSIT, MAX_MANAGEMENT_FEE_BPS, MAX_SUPPLY_CAP, MAX_THRESHOLD,
    MIN_DEPOSIT, MIN_WITHDRAW, STATE_VERSION, UTILIZATION_WARNING_BPS,
};

verus! {

/// The money and the shares of a vault.
pub struct Book {
    /// USDC that the vault holds.
    pub liquid: int,
    /// USDC that stands in projects.
    pub invested: int,
    /// What the projects are expected to return on top.
    pub expected_returns: int,
    /// What of the deposits was put aside as insurance.
    pub insurance_reserve: int,
    /// Shares in circulation.
    pub supply: int,
    pub balances: Map<Address, i128>,
    /// The ledger in which an account's shares last came in.
    pub locks: Map<Address, u32>,
    /// What stands in each project.
    pub investments: Map<u64, i128>,
    /// Redemptions that wait, the oldest first.
    pub queue: Seq<QueuedClaim>,
}

/// A vault.
pub struct Vault {
    pub settings: Settings,
    pub book: Book,
    pub schedule: Seq<LimitStep>,
    pub signers: Set<Address>,
    /// How many of the signers have to approve; none where no multisig is set up.
    pub approvals_needed: Option<u32>,
    /// The bridge emitters that are trusted, by chain.
    pub emitters: Set<(u32, Seq<u8>)>,
}

/// Division that rounds toward zero, for a positive divisor.
pub open spec fn quotient(dividend: int, divisor: int) -> int {
    if dividend >= 0 {
        dividend / divisor
    } else {
        -((-dividend) / divisor)
    }
}

pub open spec fn fits(value: int) -> bool {
    i128::MIN <= value <= i128::MAX
}

impl Book {
    pub open spec fn total_assets(self) -> int {
        self.liquid + self.invested + self.expected_returns
    }

    /// Whether shares are quoted one to one: nothing has been deposited yet, or nothing is left.
    pub open spec fn one_to_one(self) -> bool {
        self.supply == 0 || self.total_assets() == 0
    }

    /// The shares that `amount` of USDC buys.
    pub open spec fn shares_for(self, amount: int) -> int {
        if self.one_to_one() {
            amount
        } else {
            quotient(amount * self.supply, self.total_assets())
        }
    }

    /// Whether that price can be worked out in machine integers.
    pub open spec fn shares_for_fits(self, amount: int) -> bool {
        self.one_to_one() || fits(amount * self.supply)
    }

    /// The USDC that `shares` are worth.
    pub open spec fn assets_for(self, shares: int) -> int {
        if self.supply == 0 {
            0
        } else {
            quotient(shares * self.total_assets(), self.supply)
        }
    }

    /// Whether that worth can be worked out in machine integers.
    pub open spec fn assets_for_fits(self, shares: int) -> bool {
        self.supply == 0 || fits(shares * self.total_assets())
    }

    /// The part of the assets that stands in projects, in basis points.
    pub open spec fn utilization(self) -> int {
        if self.total_assets() == 0 {
            0
        } else {
            self.invested * BPS / self.total_assets()
        }
    }

    pub open spec fn utilization_fits(self) -> bool {
        fits(self.invested * BPS)
    }

    pub open spec fn balance(self, account: Address) -> int {
        amount_at(self.balances, account)
    }

    pub open spec fn investment(self, project_id: u32) -> int {
        amount_at(self.investments, project_id as u64)
    }

    /// Whether an account's shares may not leave yet.
    pub open spec fn locked(self, account: Address, window: u32, now: u32) -> bool {
        self.locks.dom().contains(account) && now < self.locks[account] + window
    }

    /// What always holds of the money and the shares.
    pub open spec fn valid(self) -> bool {
        &&& self.liquid >= 0
        &&& self.invested >= 0
        &&& self.expected_returns >= 0
        &&& self.total_assets() <= i128::MAX
        &&& 0 <= self.insurance_reserve <= i128::MAX
        &&& 0 <= self.supply <= i128::MAX
        &&& self.balances.dom().finite()
        &&& forall|account: Address|
            self.balances.dom().contains(account) ==> #[trigger] self.balances[account] >= 0
        &&& self.supply == sum_of(self.balances)
        &&& self.investments.dom().finite()
        &&& forall|id: u64| #[trigger]
            self.investments.dom().contains(id) ==> 1 <= id <= u32::MAX && self.investments[id]
                >= 0
        &&& self.invested == sum_of(self.investments)
        &&& forall|i: int| 0 <= i < self.queue.len() ==> (#[trigger] self.queue[i]).owed > 0
    }
}

/// The sum of what the claims are owed.
pub open spec fn owed_total(claims: Seq<QueuedClaim>) -> int
    decreases claims.len(),
{
    if claims.len() == 0 {
        0
    } else {
        owed_total(claims.drop_last()) + claims.last().owed
    }
}

// ---------------------------------------------------------------------------------------------
// Fees and limits
// ---------------------------------------------------------------------------------------------

/// The management fee rate for a deposit: the tier's from its threshold on, else the flat one.
pub open spec fn fee_rate(settings: Settings, amount: int) -> u32 {
    if settings.tier_threshold > 0 && amount >= settings.tier_threshold {
        settings.tier_bps
    } else {
        settings.management_fee_bps
    }
}

/// The management fee on a deposit. Without a recipient there is none.
pub open spec fn management_fee(settings: Settings, amount: int) -> int {
    if settings.fee_recipient is Some {
        amount * fee_rate(settings, amount) / (BPS as int)
    } else {
        0
    }
}

/// What of a deposit is put aside as insurance.
pub open spec fn insurance_premium(amount: int) -> int {
    amount * INSURANCE_PREMIUM_BPS / (BPS as int)
}

/// What of a deposit buys shares.
pub open spec fn investable(settings: Settings, amount: int) -> int {
    amount - insurance_premium(amount) - management_fee(settings, amount)
}

/// What a payment from the vault to `to` takes out of it.
pub open spec fn outflow(settings: Settings, to: Address, amount: int) -> int {
    if to == settings.address {
        0
    } else {
        amount
    }
}

/// Whether the steps of a withdrawal schedule start at the utilization from which withdrawals
/// are limited, go upward, and never allow more than all the liquid USDC.
pub open spec fn schedule_ordered(schedule: Seq<LimitStep>) -> bool {
    &&& schedule.len() > 0
    &&& schedule[0].from_bps == LIMITED_FROM_BPS
    &&& forall|i: int, j: int|
        0 <= i < j < schedule.len() ==> (#[trigger] schedule[i]).from_bps < (
        #[trigger] schedule[j]).from_bps
    &&& forall|i: int| 0 <= i < schedule.len() ==> (#[trigger] schedule[i]).liquid_bps <= BPS
}

/// What a withdrawal schedule is: ordered steps, with a quarter of the liquid USDC for one
/// withdrawal at a utilization of four fifths.
pub open spec fn schedule_valid(schedule: Seq<LimitStep>) -> bool {
    &&& schedule_ordered(schedule)
    &&& step_in_force(schedule, HIGH_UTILIZATION_BPS as int).liquid_bps
        == HIGH_UTILIZATION_LIMIT_BPS
}

/// The step in force at a utilization: the last one that starts no later.
pub open spec fn step_in_force(schedule: Seq<LimitStep>, utilization: int) -> LimitStep
    decreases schedule.len(),
{
    if schedule.len() <= 1 || schedule.last().from_bps <= utilization {
        schedule.last()
    } else {
        step_in_force(schedule.drop_last(), utilization)
    }
}

impl Vault {
    /// Whether withdrawals are limited at present.
    pub open spec fn limited(self) -> bool {
        self.book.utilization() >= LIMITED_FROM_BPS
    }

    /// The part of the liquid USDC that one withdrawal may take while withdrawals are limited,
    /// as a number of basis points times that USDC.
    pub open spec fn limit_scaled(self) -> int {
        self.book.liquid * step_in_force(self.schedule, self.book.utilization()).liquid_bps
    }

    /// The most that one withdrawal may take while withdrawals are limited.
    pub open spec fn withdrawal_limit(self) -> int {
        self.limit_scaled() / (BPS as int)
    }

    pub open spec fn current(self) -> bool {
        self.settings.stored_version == STATE_VERSION
    }

    /// What of the liquid USDC may go to projects.
    pub open spec fn deployable(self) -> int {
        self.book.liquid - self.book.insurance_reserve
    }

    /// What always holds of a vault.
    pub open spec fn valid(self) -> bool {
        &&& self.book.valid()
        &&& self.book.supply <= self.settings.max_hbs_supply
        &&& !self.book.balances.dom().contains(self.settings.address)
        &&& forall|i: int|
            0 <= i < self.book.queue.len() ==> (#[trigger] self.book.queue[i]).to
                != self.settings.address
        &&& MAX_DEPOSIT < self.settings.max_hbs_supply <= MAX_SUPPLY_CAP
        &&& self.settings.management_fee_bps <= MAX_MANAGEMENT_FEE_BPS
        &&& self.settings.tier_bps <= MAX_MANAGEMENT_FEE_BPS
        &&& self.settings.tier_threshold >= 0
        &&& self.settings.min_credit_quality <= MAX_THRESHOLD
        &&& self.settings.min_green_impact <= MAX_THRESHOLD
        &&& self.settings.flash_loan_fee_bps >= 0
        &&& schedule_valid(self.schedule)
        &&& self.signers.finite()
    }
}

// ---------------------------------------------------------------------------------------------
// Deposits
// ---------------------------------------------------------------------------------------------

/// Why a deposit is refused, if it is.
pub open spec fn deposit_error(v: Vault, from: Address, amount: int) -> Option<VaultError> {
    let bought = investable(v.settings, amount);
    if v.settings.paused {
        Some(VaultError::Paused)
    } else if !v.current() {
        Some(VaultError::StaleState)
    } else if amount <= 0 {
        Some(VaultError::AmountNotPositive)
    } else if amount < MIN_DEPOSIT {
        Some(VaultError::DepositBelowMinimum)
    } else if amount > MAX_DEPOSIT {
        Some(VaultError::DepositAboveMaximum)
    } else if from == v.settings.address {
        Some(VaultError::VaultAsHolder)
    } else if !v.book.shares_for_fits(bought) {
        Some(VaultError::Overflow)
    } else if v.book.supply + v.book.shares_for(bought) > v.settings.max_hbs_supply {
        Some(VaultError::SupplyCapExceeded)
    } else if !fits(v.book.total_assets() + amount) || !fits(
        v.book.insurance_reserve + insurance_premium(amount),
    ) {
        Some(VaultError::Overflow)
    } else {
        None
    }
}

/// The shares that a deposit mints.
pub open spec fn deposit_shares(v: Vault, amount: int) -> int {
    v.book.shares_for(investable(v.settings, amount))
}

/// The vault after a deposit.
pub open spec fn after_deposit(v: Vault, from: Address, amount: int, now: u32) -> Vault {
    let shares = deposit_shares(v, amount);
    let fee_out = match v.settings.fee_recipient {
        Some(recipient) => outflow(v.settings, recipient, management_fee(v.settings, amount)),
        None => 0,
    };
    Vault {
        book: Book {
            liquid: v.book.liquid + amount - fee_out,
            insurance_reserve: v.book.insurance_reserve + insurance_premium(amount),
            supply: v.book.supply + shares,
            balances: v.book.balances.insert(from, (v.book.balance(from) + shares) as i128),
            locks: v.book.locks.insert(from, now),
            ..v.book
        },
        ..v
    }
}

/// The payments of a deposit: the deposit in, the fee on.
pub open spec fn deposit_payments(v: Vault, from: Address, amount: int) -> Seq<Payment> {
    let fee = management_fee(v.settings, amount);
    let paid_in = seq![Payment { from, to: v.settings.address, amount: amount as i128 }];
    match v.settings.fee_recipient {
        Some(recipient) => if fee > 0 {
            paid_in.push(Payment { from: v.settings.address, to: recipient, amount: fee as i128 })
        } else {
            paid_in
        },
        None => paid_in,
    }
}

pub open spec fn deposit_events(v: Vault, from: Address, amount: int) -> Seq<Event> {
    let shares = deposit_shares(v, amount) as i128;
    seq![
        Event::Mint { to: from, shares },
        Event::Deposited { from, amount: amount as i128, shares },
    ]
}

/// The first deposit of a batch that is refused where it stands in the batch, and why.
pub open spec fn each_deposit_error(
    v: Vault,
    deposits: Seq<(Address, i128)>,
    now: u32,
) -> Option<VaultError>
    decreases deposits.len(),
{
    if deposits.len() == 0 {
        None
    } else {
        let init = deposits.drop_last();
        match each_deposit_error(v, init, now) {
            Some(error) => Some(error),
            None => deposit_error(
                after_batch_deposit(v, init, now),
                deposits.last().0,
                deposits.last().1 as int,
            ),
        }
    }
}

/// Why a batch of deposits is refused, if it is.
pub open spec fn batch_deposit_error(
    v: Vault,
    deposits: Seq<(Address, i128)>,
    now: u32,
) -> Option<VaultError> {
    if deposits.len() == 0 {
        Some(VaultError::EmptyBatchDeposit)
    } else {
        each_deposit_error(v, deposits, now)
    }
}

/// The vault after the deposits of a batch, one after another.
pub open spec fn after_batch_deposit(v: Vault, deposits: Seq<(Address, i128)>, now: u32) -> Vault
    decreases deposits.len(),
{
    if deposits.len() == 0 {
        v
    } else {
        after_deposit(
            after_batch_deposit(v, deposits.drop_last(), now),
            deposits.last().0,
            deposits.last().1 as int,
            now,
        )
    }
}

/// The payments of a batch deposit.
pub open spec fn batch_deposit_payments(
    v: Vault,
    deposits: Seq<(Address, i128)>,
    now: u32,
) -> Seq<Payment>
    decreases deposits.len(),
{
    if deposits.len() == 0 {
        Seq::empty()
    } else {
        let init = deposits.drop_last();
        batch_deposit_payments(v, init, now) + deposit_payments(
            after_batch_deposit(v, init, now),
            deposits.last().0,
            deposits.last().1 as int,
        )
    }
}

/// The events of a batch deposit.
pub open spec fn batch_deposit_events(
    v: Vault,
    deposits: Seq<(Address, i128)>,
    now: u32,
) -> Seq<Event>
    decreases deposits.len(),
{
    if deposits.len() == 0 {
        Seq::empty()
    } else {
        let init = deposits.drop_last();
        batch_deposit_events(v, init, now) + deposit_events(
            after_batch_deposit(v, init, now),
            deposits.last().0,
            deposits.last().1 as int,
        )
    }
}

// ---------------------------------------------------------------------------------------------
// Withdrawals and claims
// ---------------------------------------------------------------------------------------------

/// Why a withdrawal is refused, if it is.
pub open spec fn withdraw_error(
    v: Vault,
    from: Address,
    shares: int,
    now: u32,
) -> Option<VaultError> {
    if !v.current() {
        Some(VaultError::StaleState)
    } else if shares <= 0 {
        Some(VaultError::SharesNotPositive)
    } else if shares < MIN_WITHDRAW {
        Some(VaultError::WithdrawBelowMinimum)
    } else if v.book.locked(from, v.settings.withdrawal_window, now) {
        Some(VaultError::DepositLocked)
    } else if v.book.balance(from) < shares {
        Some(VaultError::InsufficientShares)
    } else if !v.book.assets_for_fits(shares) || !v.book.utilization_fits() {
        Some(VaultError::Overflow)
    } else if v.limited() && !fits(v.limit_scaled()) {
        Some(VaultError::Overflow)
    } else if v.limited() && v.book.assets_for(shares) > v.withdrawal_limit() {
        Some(VaultError::WithdrawalLimitExceeded)
    } else {
        None
    }
}

/// Whether a withdrawal is paid at once; else it is queued.
pub open spec fn pays_at_once(v: Vault, shares: int) -> bool {
    v.book.assets_for(shares) <= v.book.liquid
}

/// The vault after a withdrawal: the shares are burned, and their worth is paid or queued.
pub open spec fn after_withdraw(v: Vault, from: Address, shares: int) -> Vault {
    let worth = v.book.assets_for(shares);
    let paid = pays_at_once(v, shares);
    Vault {
        book: Book {
            liquid: if paid {
                v.book.liquid - worth
            } else {
                v.book.liquid
            },
            supply: v.book.supply - shares,
            balances: v.book.balances.insert(from, (v.book.balance(from) - shares) as i128),
            queue: if paid {
                v.book.queue
            } else {
                v.book.queue.push(QueuedClaim { to: from, owed: worth as i128 })
            },
            ..v.book
        },
        ..v
    }
}

pub open spec fn withdraw_payments(v: Vault, from: Address, shares: int) -> Seq<Payment> {
    if pays_at_once(v, shares) {
        seq![
            Payment {
                from: v.settings.address,
                to: from,
                amount: v.book.assets_for(shares) as i128,
            },
        ]
    } else {
        Seq::empty()
    }
}

pub open spec fn withdraw_events(v: Vault, from: Address, shares: int) -> Seq<Event> {
    let burned = shares as i128;
    let worth = v.book.assets_for(shares) as i128;
    let utilization = v.book.utilization();
    let burn = seq![Event::Burn { from, shares: burned }];
    let warned = if utilization >= UTILIZATION_WARNING_BPS {
        burn.push(Event::UtilizationWarning { utilization_bps: utilization as i128 })
    } else {
        burn
    };
    warned.push(
        if pays_at_once(v, shares) {
            Event::Withdrawn { to: from, shares: burned, assets: worth }
        } else {
            Event::WithdrawQueued { to: from, shares: burned, owed: worth }
        },
    )
}

/// Why a claim is refused, if it is.
pub open spec fn claim_error(v: Vault) -> Option<VaultError> {
    if !v.current() {
        Some(VaultError::StaleState)
    } else {
        None
    }
}

/// Whether paying the first `count` claims, in their order and each in full, is as far as the
/// liquid USDC goes.
pub open spec fn settles(book: Book, count: int) -> bool {
    &&& 0 <= count <= book.queue.len()
    &&& owed_total(book.queue.take(count)) <= book.liquid
    &&& count < book.queue.len() ==> owed_total(book.queue.take(count)) + book.queue[count].owed
        > book.liquid
}

/// The vault after its first `count` claims are paid.
pub open spec fn after_claims(v: Vault, count: int) -> Vault {
    Vault {
        book: Book {
            liquid: v.book.liquid - owed_total(v.book.queue.take(count)),
            queue: v.book.queue.skip(count),
            ..v.book
        },
        ..v
    }
}

pub open spec fn claim_payments(v: Vault, count: int) -> Seq<Payment> {
    Seq::new(
        count as nat,
        |i: int|
            Payment {
                from: v.settings.address,
                to: v.book.queue[i].to,
                amount: v.book.queue[i].owed,
            },
    )
}

pub open spec fn claim_events(v: Vault, count: int) -> Seq<Event> {
    Seq::new(
        count as nat,
        |i: int| Event::ClaimSettled { to: v.book.queue[i].to, paid: v.book.queue[i].owed },
    )
}

// ---------------------------------------------------------------------------------------------
// Share transfers
// ---------------------------------------------------------------------------------------------

/// Why a transfer of shares is refused, if it is.
pub open spec fn transfer_error(
    v: Vault,
    from: Address,
    to: Address,
    shares: int,
    now: u32,
) -> Option<VaultError> {
    if !v.current() {
        Some(VaultError::StaleState)
    } else if to == v.settings.address {
        Some(VaultError::VaultAsHolder)
    } else if shares < 0 {
        Some(VaultError::NegativeTransfer)
    } else if v.book.locked(from, v.settings.withdrawal_window, now) {
        Some(VaultError::DepositLocked)
    } else if v.book.balance(from) < shares {
        Some(VaultError::InsufficientShares)
    } else {
        None
    }
}

/// Balances after `shares` went from one account to another.
pub open spec fn moved(
    balances: Map<Address, i128>,
    from: Address,
    to: Address,
    shares: int,
) -> Map<Address, i128> {
    let taken = if shares == 0 {
        balances
    } else {
        balances.insert(from, (amount_at(balances, from) - shares) as i128)
    };
    taken.insert(to, (amount_at(taken, to) + shares) as i128)
}

/// The vault after a transfer of shares, which lock where they arrive.
pub open spec fn after_transfer(
    v: Vault,
    from: Address,
    to: Address,
    shares: int,
    now: u32,
) -> Vault {
    Vault {
        book: Book {
            balances: moved(v.book.balances, from, to, shares),
            locks: v.book.locks.insert(to, now),
            ..v.book
        },
        ..v
    }
}

// ---------------------------------------------------------------------------------------------
// Funding
// ---------------------------------------------------------------------------------------------

/// Why funding a project is refused, if it is.
pub open spec fn funding_error(
    v: Vault,
    request: FundingRequest,
    registry: RegistryInfo,
) -> Option<VaultError> {
    let project = registry.projects@[request.project_id - 1];
    if !v.current() {
        Some(VaultError::StaleState)
    } else if request.amount <= 0 {
        Some(VaultError::AmountNotPositive)
    } else if registry.paused {
        Some(VaultError::RegistryPaused)
    } else if request.project_id == 0 || request.project_id > registry.projects@.len() {
        Some(VaultError::InvalidProject)
    } else if project.owner == v.settings.owner || project.owner == v.settings.address {
        Some(VaultError::SelfFunding)
    } else if project.credit_quality < v.settings.min_credit_quality {
        Some(VaultError::CreditQualityBelowThreshold)
    } else if project.green_impact < v.settings.min_green_impact {
        Some(VaultError::GreenImpactBelowThreshold)
    } else if request.amount > v.deployable() {
        Some(VaultError::InsufficientDeployable)
    } else if !fits(v.book.total_assets() + project.expected_return) {
        Some(VaultError::Overflow)
    } else {
        None
    }
}

/// The vault after a project is funded.
pub open spec fn after_funding(v: Vault, request: FundingRequest, registry: RegistryInfo) -> Vault {
    let project = registry.projects@[request.project_id - 1];
    Vault {
        book: Book {
            liquid: v.book.liquid - request.amount,
            invested: v.book.invested + request.amount,
            expected_returns: v.book.expected_returns + project.expected_return,
            investments: v.book.investments.insert(
                request.project_id as u64,
                (v.book.investment(request.project_id) + request.amount) as i128,
            ),
            ..v.book
        },
        ..v
    }
}

/// The payment that funds a project.
pub open spec fn funding_payment(
    v: Vault,
    request: FundingRequest,
    registry: RegistryInfo,
) -> Payment {
    Payment {
        from: v.settings.address,
        to: registry.projects@[request.project_id - 1].owner,
        amount: request.amount,
    }
}

pub open spec fn funding_event(request: FundingRequest) -> Event {
    Event::ProjectFunded { project_id: request.project_id, amount: request.amount }
}

/// Whether no project is named twice.
pub open spec fn projects_distinct(requests: Seq<FundingRequest>) -> bool {
    forall|i: int, j: int|
        0 <= i < j < requests.len() ==> (#[trigger] requests[i]).project_id != (
        #[trigger] requests[j]).project_id
}

/// How many of the signers approve.
pub open spec fn approvals(v: Vault, approving: Seq<Address>) -> nat {
    approving.to_set().intersect(v.signers).len()
}

pub open spec fn approved(v: Vault, approving: Seq<Address>) -> bool {
    match v.approvals_needed {
        Some(needed) => approvals(v, approving) >= needed,
        None => false,
    }
}

/// The first funding of a batch that is refused where it stands in the batch, and why.
pub open spec fn each_funding_error(
    v: Vault,
    requests: Seq<FundingRequest>,
    registry: RegistryInfo,
) -> Option<VaultError>
    decreases requests.len(),
{
    if requests.len() == 0 {
        None
    } else {
        let init = requests.drop_last();
        match each_funding_error(v, init, registry) {
            Some(error) => Some(error),
            None => funding_error(
                after_batch_funding(v, init, registry),
                requests.last(),
                registry,
            ),
        }
    }
}

/// Why a batch of fundings is refused, if it is.
pub open spec fn batch_funding_error(
    v: Vault,
    requests: Seq<FundingRequest>,
    approving: Seq<Address>,
    registry: RegistryInfo,
) -> Option<VaultError> {
    if !v.current() {
        Some(VaultError::StaleState)
    } else if !approved(v, approving) {
        Some(VaultError::InsufficientApprovals)
    } else if !projects_distinct(requests) {
        Some(VaultError::DuplicateProject)
    } else {
        each_funding_error(v, requests, registry)
    }
}

/// The vault after the fundings of a batch, one after another.
pub open spec fn after_batch_funding(
    v: Vault,
    requests: Seq<FundingRequest>,
    registry: RegistryInfo,
) -> Vault
    decreases requests.len(),
{
    if requests.len() == 0 {
        v
    } else {
        after_funding(
            after_batch_funding(v, requests.drop_last(), registry),
            requests.last(),
            registry,
        )
    }
}

/// The vault after the investments that have come down to zero are forgotten.
pub open spec fn after_compaction(v: Vault) -> Vault {
    Vault { book: Book { investments: nonzero(v.book.investments), ..v.book }, ..v }
}

// ---------------------------------------------------------------------------------------------
// Flash loans
// ---------------------------------------------------------------------------------------------

pub open spec fn flash_loan_fee(settings: Settings, amount: int) -> int {
    amount * settings.flash_loan_fee_bps / (BPS as int)
}

/// Why a flash loan is refused before anything is lent, if it is.
pub open spec fn flash_loan_error(v: Vault, amount: int) -> Option<VaultError> {
    if !v.current() {
        Some(VaultError::StaleState)
    } else if amount <= 0 {
        Some(VaultError::AmountNotPositive)
    } else if amount > v.book.liquid {
        Some(VaultError::InsufficientLiquidity)
    } else if !fits(amount * v.settings.flash_loan_fee_bps) || !fits(
        v.book.total_assets() + flash_loan_fee(v.settings, amount),
    ) {
        Some(VaultError::Overflow)
    } else {
        None
    }
}

/// The vault after a flash loan is repaid with its fee.
pub open spec fn after_flash_loan(v: Vault, amount: int) -> Vault {
    Vault {
        book: Book { liquid: v.book.liquid + flash_loan_fee(v.settings, amount), ..v.book },
        ..v
    }
}

// ---------------------------------------------------------------------------------------------
// Ownership
// ---------------------------------------------------------------------------------------------

/// Why a request to hand over the ownership is refused, if it is.
pub open spec fn transfer_ownership_error(
    v: Vault,
    caller: Address,
    new_owner: Address,
    live_until_ledger: u32,
    now: u32,
    max_live_until: u32,
) -> Option<VaultError> {
    if caller != v.settings.owner {
        Some(VaultError::Unauthorized)
    } else if live_until_ledger == 0 {
        match v.settings.pending_owner {
            None => Some(VaultError::NoPendingTransfer),
            Some(pending) => if pending.account != new_owner {
                Some(VaultError::InvalidPendingAccount)
            } else {
                None
            },
        }
    } else if live_until_ledger < now || live_until_ledger > max_live_until {
        Some(VaultError::InvalidLiveUntilLedger)
    } else {
        None
    }
}

/// Who waits to become owner after such a request.
pub open spec fn pending_after(new_owner: Address, live_until_ledger: u32) -> Option<PendingOwner> {
    if live_until_ledger == 0 {
        None
    } else {
        Some(PendingOwner { account: new_owner, live_until_ledger })
    }
}

/// Why accepting the ownership is refused, if it is.
pub open spec fn accept_ownership_error(v: Vault, caller: Address, now: u32) -> Option<VaultError> {
    match v.settings.pending_owner {
        None => Some(VaultError::NoPendingTransfer),
        Some(pending) => if now > pending.live_until_ledger {
            Some(VaultError::TransferExpired)
        } else if caller != pending.account {
            Some(VaultError::Unauthorized)
        } else {
            None
        },
    }
}

} // verus!
