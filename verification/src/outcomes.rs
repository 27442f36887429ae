//! What each request comes to, in plain numbers.
//!
//! Every law here speaks of the fields of a vault, the arguments of a request and what it hands
//! back. Rounded amounts are given by what they have to satisfy: a quotient rounded down is the
//! number whose product with the divisor is at most the dividend, by less than the divisor.

use vstd::prelude::*;

use crate::admin::{changes_settings, refused_if, with_settings};
use crate::deposits::{lemma_deposit_parts, lemma_deposit_valid};
use crate::error::VaultError;
use crate::flash::{answers, FlashLoanReceiver};
use crate::funding::lemma_funding_valid;
use crate::laws::law_step_in_force_is_the_last;
use crate::model::{
    accept_ownership_error, after_batch_deposit, after_batch_funding, after_claims,
    after_compaction, after_deposit, after_flash_loan, after_funding, after_transfer,
    after_withdraw, batch_deposit_error, batch_deposit_events, batch_deposit_payments,
    batch_funding_error, claim_error, claim_events, claim_payments, deposit_error, deposit_events,
    deposit_payments, deposit_shares, each_deposit_error, each_funding_error, flash_loan_error,
    flash_loan_fee, funding_error, funding_event, funding_payment, insurance_premium, investable,
    management_fee, owed_total, pays_at_once, pending_after, schedule_valid, settles,
    transfer_error, transfer_ownership_error, withdraw_error, withdraw_events, withdraw_payments,
    Book, Vault,
};
use crate::sums::{lemma_amount_within_sum, nonzero};
use crate::types::{
    Address, Event, FundingRequest, LimitStep, Payment, QueuedClaim, Receipt, RegistryInfo,
    Settings, MAX_DEPOSIT, MAX_MANAGEMENT_FEE_BPS, MAX_SUPPLY_CAP, MAX_THRESHOLD,
    MIN_DEPOSIT, MIN_WITHDRAW, SHARE_DECIMALS, STATE_VERSION,
};
use crate::vault::{emitter_set, initial_settings};
use crate::withdrawals::{lemma_withdraw_valid, lemma_worth};

verus! {

/// A number whose product with the divisor is at most the dividend, by less than the divisor,
/// is the quotient.
proof fn lemma_quotient(dividend: int, divisor: int, quotient: int)
    requires
        divisor > 0,
        quotient * divisor <= dividend < quotient * divisor + divisor,
    ensures
        dividend / divisor == quotient,
{
    vstd::arithmetic::div_mod::lemma_fundamental_div_mod_converse(
        dividend,
        divisor,
        quotient,
        dividend - quotient * divisor,
    );
}

proof fn lemma_product_nonnegative(a: int, b: int)
    requires
        a >= 0,
        b >= 0,
    ensures
        a * b >= 0,
{
    assert(a * b >= 0) by (nonlinear_arith)
        requires
            a >= 0,
            b >= 0,
    ;
}

// ---------------------------------------------------------------------------------------------
// What can be asked for
// ---------------------------------------------------------------------------------------------

/// The limits that hold for every vault.
pub proof fn law_limits_of_every_vault()
    ensures
        STATE_VERSION == 1,
        MIN_DEPOSIT == 1_000_000_000,
        MAX_DEPOSIT == 10_000_000_000_000_000,
        MIN_WITHDRAW == 1_000_000_000,
        MAX_SUPPLY_CAP == 19 * MAX_DEPOSIT,
        MAX_MANAGEMENT_FEE_BPS == 500,
        MAX_THRESHOLD == 100,
        SHARE_DECIMALS == 7,
{
}

/// An amount of USDC buys shares in the proportion of the supply to all the assets, rounded
/// down; a negative amount is quoted as the positive one with its sign turned. A quote is given
/// exactly where the product fits.
pub proof fn law_shares_are_quoted_in_proportion(book: Book, amount: int, shares: int)
    requires
        book.valid(),
        amount >= 0,
        book.supply > 0,
        book.liquid + book.invested + book.expected_returns > 0,
        shares * (book.liquid + book.invested + book.expected_returns) <= amount * book.supply,
        amount * book.supply < shares * (book.liquid + book.invested + book.expected_returns) + (
        book.liquid + book.invested + book.expected_returns),
    ensures
        book.shares_for(amount) == shares,
        book.shares_for(-amount) == -shares,
        book.shares_for_fits(amount) <==> amount * book.supply <= i128::MAX,
        book.shares_for_fits(-amount) <==> -(amount * book.supply) >= i128::MIN,
{
    lemma_quotient(amount * book.supply, book.total_assets(), shares);
    lemma_product_nonnegative(amount, book.supply);
    assert((-amount) * book.supply == -(amount * book.supply)) by (nonlinear_arith);
}

/// Where there are no shares or no assets, a share costs one unit, and every amount is quoted.
pub proof fn law_shares_are_quoted_one_to_one(book: Book, amount: int)
    requires
        book.supply == 0 || book.liquid + book.invested + book.expected_returns == 0,
    ensures
        book.shares_for(amount) == amount,
        book.shares_for_fits(amount),
{
}

/// Shares are worth their part of all the assets, rounded down; a negative number of them is
/// quoted as the positive one with its sign turned. Without shares nothing is worth anything.
pub proof fn law_assets_are_quoted_in_proportion(book: Book, shares: int, worth: int)
    requires
        book.valid(),
        shares >= 0,
        book.supply > 0 ==> worth * book.supply <= shares * (book.liquid + book.invested
            + book.expected_returns) < worth * book.supply + book.supply,
        book.supply == 0 ==> worth == 0,
    ensures
        book.assets_for(shares) == worth,
        book.assets_for(-shares) == -worth,
        book.assets_for_fits(shares) <==> (book.supply == 0 || shares * (book.liquid
            + book.invested + book.expected_returns) <= i128::MAX),
        book.assets_for_fits(-shares) <==> (book.supply == 0 || -(shares * (book.liquid
            + book.invested + book.expected_returns)) >= i128::MIN),
{
    let total = book.total_assets();
    lemma_product_nonnegative(shares, total);
    assert((-shares) * total == -(shares * total)) by (nonlinear_arith);
    if book.supply > 0 {
        lemma_quotient(shares * total, book.supply, worth);
    }
}

/// The utilization is the part of all the assets that stands in projects, in ten thousandths,
/// rounded down; nothing is utilized where there are no assets.
pub proof fn law_utilization_is_quoted_in_proportion(book: Book, bps: int)
    requires
        book.valid(),
        book.liquid + book.invested + book.expected_returns > 0 ==> bps * (book.liquid
            + book.invested + book.expected_returns) <= book.invested * 10_000 < bps * (book.liquid
            + book.invested + book.expected_returns) + (book.liquid + book.invested
            + book.expected_returns),
        book.liquid + book.invested + book.expected_returns == 0 ==> bps == 0,
    ensures
        book.utilization() == bps,
        book.utilization_fits() <==> book.invested * 10_000 <= i128::MAX,
        book.total_assets() == book.liquid + book.invested + book.expected_returns,
{
    if book.total_assets() > 0 {
        lemma_quotient(book.invested * 10_000, book.total_assets(), bps);
    }
}

/// An account without an entry has no shares, a project without one no investment, and shares
/// are locked from the ledger they came in for as many ledgers as the window has.
pub proof fn law_entries_are_read(
    book: Book,
    account: Address,
    project_id: u32,
    window: u32,
    now: u32,
)
    ensures
        book.balances.dom().contains(account) ==> book.balance(account) == book.balances[account],
        !book.balances.dom().contains(account) ==> book.balance(account) == 0,
        book.investments.dom().contains(project_id as u64) ==> book.investment(project_id)
            == book.investments[project_id as u64],
        !book.investments.dom().contains(project_id as u64) ==> book.investment(project_id) == 0,
        !book.locks.dom().contains(account) ==> !book.locked(account, window, now),
        book.locks.dom().contains(account) ==> (book.locked(account, window, now) <==> now
            - book.locks[account] < window),
{
}

// ---------------------------------------------------------------------------------------------
// Deposits
// ---------------------------------------------------------------------------------------------

/// What a deposit is divided into: half a hundredth as insurance, the fee at the rate that holds
/// for the amount where somebody receives it, both rounded down, and shares for the rest at the
/// price before the deposit, rounded down.
pub open spec fn deposit_terms(
    v: Vault,
    amount: int,
    premium: int,
    fee: int,
    shares: int,
) -> bool {
    let total = v.book.liquid + v.book.invested + v.book.expected_returns;
    let rate = if v.settings.tier_threshold > 0 && amount >= v.settings.tier_threshold {
        v.settings.tier_bps as int
    } else {
        v.settings.management_fee_bps as int
    };
    &&& premium * 10_000 <= amount * 50 < premium * 10_000 + 10_000
    &&& v.settings.fee_recipient is None ==> fee == 0
    &&& v.settings.fee_recipient is Some ==> fee * 10_000 <= amount * rate < fee * 10_000 + 10_000
    &&& if v.book.supply == 0 || total == 0 {
        shares == amount - premium - fee
    } else {
        shares * total <= (amount - premium - fee) * v.book.supply < shares * total + total
    }
}

proof fn lemma_deposit_terms(v: Vault, amount: int, premium: int, fee: int, shares: int)
    requires
        v.valid(),
        1_000_000_000 <= amount <= 10_000_000_000_000_000,
        deposit_terms(v, amount, premium, fee, shares),
    ensures
        insurance_premium(amount) == premium,
        management_fee(v.settings, amount) == fee,
        investable(v.settings, amount) == amount - premium - fee,
        amount - premium - fee > 0,
        deposit_shares(v, amount) == shares,
        v.book.shares_for(amount - premium - fee) == shares,
        v.book.shares_for_fits(amount - premium - fee) <==> (v.book.one_to_one() || (amount
            - premium - fee) * v.book.supply <= i128::MAX),
{
    lemma_quotient(amount * 50, 10_000, premium);
    if v.settings.fee_recipient is Some {
        let rate = if v.settings.tier_threshold > 0 && amount >= v.settings.tier_threshold {
            v.settings.tier_bps as int
        } else {
            v.settings.management_fee_bps as int
        };
        lemma_quotient(amount * rate, 10_000, fee);
    }
    lemma_deposit_parts(v.settings, amount);
    if !v.book.one_to_one() {
        law_shares_are_quoted_in_proportion(v.book, amount - premium - fee, shares);
    }
}

/// A deposit is accepted exactly if the vault is neither paused nor of another version, the
/// amount is within the limits, the vault does not deposit with itself, the supply stays within
/// its cap, and the numbers fit. Each refusal is given for its own reason alone, and the amount
/// is looked at before anything that depends on the books.
pub proof fn law_deposit_is_accepted(
    v: Vault,
    from: Address,
    amount: int,
    premium: int,
    fee: int,
    shares: int,
)
    requires
        v.valid(),
        deposit_terms(v, amount, premium, fee, shares),
    ensures
        deposit_error(v, from, amount) is None <==> {
            &&& !v.settings.paused
            &&& v.settings.stored_version == 1
            &&& 1_000_000_000 <= amount <= 10_000_000_000_000_000
            &&& from != v.settings.address
            &&& v.book.supply == 0 || v.book.liquid + v.book.invested + v.book.expected_returns
                == 0 || (amount - premium - fee) * v.book.supply <= i128::MAX
            &&& v.book.supply + shares <= v.settings.max_hbs_supply
            &&& v.book.liquid + v.book.invested + v.book.expected_returns + amount <= i128::MAX
            &&& v.book.insurance_reserve + premium <= i128::MAX
        },
        v.settings.paused ==> deposit_error(v, from, amount) == Some(VaultError::Paused),
        !v.settings.paused && v.settings.stored_version == 1 ==> {
            &&& amount <= 0 ==> deposit_error(v, from, amount) == Some(
                VaultError::AmountNotPositive,
            )
            &&& 0 < amount < 1_000_000_000 ==> deposit_error(v, from, amount) == Some(
                VaultError::DepositBelowMinimum,
            )
            &&& amount > 10_000_000_000_000_000 ==> deposit_error(v, from, amount) == Some(
                VaultError::DepositAboveMaximum,
            )
        },
        deposit_error(v, from, amount) matches Some(error) ==> match error {
            VaultError::Paused => v.settings.paused,
            VaultError::StaleState => v.settings.stored_version != 1,
            VaultError::AmountNotPositive => amount <= 0,
            VaultError::DepositBelowMinimum => 0 < amount < 1_000_000_000,
            VaultError::DepositAboveMaximum => amount > 10_000_000_000_000_000,
            VaultError::VaultAsHolder => from == v.settings.address,
            VaultError::SupplyCapExceeded => v.book.supply + shares > v.settings.max_hbs_supply,
            VaultError::Overflow => {
                ||| (amount - premium - fee) * v.book.supply > i128::MAX
                ||| v.book.liquid + v.book.invested + v.book.expected_returns + amount > i128::MAX
                ||| v.book.insurance_reserve + premium > i128::MAX
            },
            _ => false,
        },
{
    if 1_000_000_000 <= amount <= 10_000_000_000_000_000 {
        lemma_deposit_terms(v, amount, premium, fee, shares);
        lemma_deposit_parts(v.settings, amount);
    }
}

/// A deposit adds its amount to the liquid USDC, less the fee where that leaves the vault, and
/// its premium to the reserve. The depositor, and nobody else, gets the new shares and is locked
/// from this ledger on. The rest of the vault stays as it was.
pub proof fn law_deposit_is_carried_out(
    v: Vault,
    from: Address,
    amount: int,
    now: u32,
    premium: int,
    fee: int,
    shares: int,
)
    requires
        v.valid(),
        deposit_error(v, from, amount) is None,
        deposit_terms(v, amount, premium, fee, shares),
    ensures
        deposit_shares(v, amount) == shares,
        ({
            let after = after_deposit(v, from, amount, now);
            &&& after.book.liquid == v.book.liquid + amount - (if v.settings.fee_recipient == Some(
                v.settings.address,
            ) {
                0
            } else {
                fee
            })
            &&& after.book.insurance_reserve == v.book.insurance_reserve + premium
            &&& after.book.supply == v.book.supply + shares
            &&& after.book.balances.dom().contains(from)
            &&& after.book.balances[from] == shares + (if v.book.balances.dom().contains(from) {
                v.book.balances[from] as int
            } else {
                0
            })
            &&& after.book.balances.remove(from) == v.book.balances.remove(from)
            &&& after.book.locks.dom().contains(from) && after.book.locks[from] == now
            &&& after.book.locks.remove(from) == v.book.locks.remove(from)
            &&& after.book.invested == v.book.invested
            &&& after.book.expected_returns == v.book.expected_returns
            &&& after.book.investments == v.book.investments
            &&& after.book.queue == v.book.queue
            &&& after.settings == v.settings
            &&& after.schedule == v.schedule
            &&& after.signers == v.signers
            &&& after.approvals_needed == v.approvals_needed
            &&& after.emitters == v.emitters
        }),
{
    lemma_deposit_terms(v, amount, premium, fee, shares);
    lemma_deposit_valid(v, from, amount, now);
    lemma_amount_within_sum(v.book.balances, from, from);
    let after = after_deposit(v, from, amount, now);
    assert(after.book.balances.remove(from) =~= v.book.balances.remove(from));
    assert(after.book.locks.remove(from) =~= v.book.locks.remove(from));
}

/// The depositor pays the whole amount to the vault, and the vault pays the fee, where there is
/// one, to whoever receives it. The shares are announced as minted, and the deposit with them.
pub proof fn law_deposit_is_paid(
    v: Vault,
    from: Address,
    amount: int,
    premium: int,
    fee: int,
    shares: int,
)
    requires
        v.valid(),
        deposit_error(v, from, amount) is None,
        deposit_terms(v, amount, premium, fee, shares),
    ensures
        ({
            let payments = deposit_payments(v, from, amount);
            &&& payments.len() == (if fee > 0 {
                2int
            } else {
                1int
            })
            &&& payments[0].from == from && payments[0].to == v.settings.address
            &&& payments[0].amount == amount
            &&& fee > 0 ==> {
                &&& payments[1].from == v.settings.address
                &&& v.settings.fee_recipient == Some(payments[1].to)
                &&& payments[1].amount == fee
            }
            &&& deposit_events(v, from, amount) == seq![
                Event::Mint { to: from, shares: shares as i128 },
                Event::Deposited { from, amount: amount as i128, shares: shares as i128 },
            ]
        }),
{
    lemma_deposit_terms(v, amount, premium, fee, shares);
    lemma_deposit_parts(v.settings, amount);
}

/// A batch without deposits is refused and would change nothing; one of a single deposit is that
/// deposit.
pub proof fn law_smallest_batches(v: Vault, from: Address, amount: i128, now: u32)
    ensures
        batch_deposit_error(v, Seq::empty(), now) == Some(VaultError::EmptyBatchDeposit),
        each_deposit_error(v, Seq::empty(), now) is None,
        after_batch_deposit(v, Seq::empty(), now) == v,
        batch_deposit_payments(v, Seq::empty(), now) == Seq::<Payment>::empty(),
        batch_deposit_events(v, Seq::empty(), now) == Seq::<Event>::empty(),
        batch_deposit_error(v, seq![(from, amount)], now) == deposit_error(v, from, amount as int),
        after_batch_deposit(v, seq![(from, amount)], now) == after_deposit(
            v,
            from,
            amount as int,
            now,
        ),
        batch_deposit_payments(v, seq![(from, amount)], now) == deposit_payments(
            v,
            from,
            amount as int,
        ),
        batch_deposit_events(v, seq![(from, amount)], now) == deposit_events(
            v,
            from,
            amount as int,
        ),
{
    let init = seq![(from, amount)].drop_last();
    assert(init =~= Seq::empty());
    assert(after_batch_deposit(v, init, now) == v);
    assert(each_deposit_error(v, init, now) is None);
    assert(batch_deposit_payments(v, init, now) =~= Seq::empty());
    assert(batch_deposit_events(v, init, now) =~= Seq::empty());
    assert(batch_deposit_payments(v, seq![(from, amount)], now) =~= deposit_payments(
        v,
        from,
        amount as int,
    ));
    assert(batch_deposit_events(v, seq![(from, amount)], now) =~= deposit_events(
        v,
        from,
        amount as int,
    ));
}

/// A batch in two parts is refused, changes the vault, pays and announces as the first part does
/// and then, on the vault that leaves, the second.
pub proof fn law_batch_is_one_after_another(
    v: Vault,
    first: Seq<(Address, i128)>,
    second: Seq<(Address, i128)>,
    now: u32,
)
    requires
        first.len() > 0,
        second.len() > 0,
    ensures
        batch_deposit_error(v, first + second, now) == (if batch_deposit_error(
            v,
            first,
            now,
        ) is Some {
            batch_deposit_error(v, first, now)
        } else {
            batch_deposit_error(after_batch_deposit(v, first, now), second, now)
        }),
        after_batch_deposit(v, first + second, now) == after_batch_deposit(
            after_batch_deposit(v, first, now),
            second,
            now,
        ),
        batch_deposit_payments(v, first + second, now) == batch_deposit_payments(v, first, now)
            + batch_deposit_payments(after_batch_deposit(v, first, now), second, now),
        batch_deposit_events(v, first + second, now) == batch_deposit_events(v, first, now)
            + batch_deposit_events(after_batch_deposit(v, first, now), second, now),
    decreases second.len(),
{
    let whole = first + second;
    let init = second.drop_last();
    let middle = after_batch_deposit(v, first, now);
    assert(whole.drop_last() =~= first + init);
    assert(whole.last() == second.last());
    if init.len() > 0 {
        law_batch_is_one_after_another(v, first, init, now);
    } else {
        assert(first + init =~= first);
        assert(after_batch_deposit(middle, init, now) == middle);
        assert(each_deposit_error(middle, init, now) is None);
        assert(batch_deposit_payments(middle, init, now) =~= Seq::empty());
        assert(batch_deposit_events(middle, init, now) =~= Seq::empty());
    }
    assert(batch_deposit_payments(v, whole, now) =~= batch_deposit_payments(v, first, now)
        + batch_deposit_payments(middle, second, now));
    assert(batch_deposit_events(v, whole, now) =~= batch_deposit_events(v, first, now)
        + batch_deposit_events(middle, second, now));
}

// ---------------------------------------------------------------------------------------------
// Withdrawals, claims and transfers
// ---------------------------------------------------------------------------------------------

/// What a withdrawal goes by: the shares' part of all the assets; the part of the assets that
/// stands in projects; and, from half of them on, the limit that the last step of the schedule
/// reached so far sets, as a part of the liquid USDC. All are rounded down.
pub open spec fn withdraw_terms(
    v: Vault,
    shares: int,
    worth: int,
    utilization: int,
    step: int,
    limit: int,
) -> bool {
    let total = v.book.liquid + v.book.invested + v.book.expected_returns;
    &&& v.book.supply > 0 ==> worth * v.book.supply <= shares * total < worth * v.book.supply
        + v.book.supply
    &&& v.book.supply == 0 ==> worth == 0
    &&& total > 0 ==> utilization * total <= v.book.invested * 10_000 < utilization * total + total
    &&& total == 0 ==> utilization == 0
    &&& utilization >= 5_000 ==> {
        &&& 0 <= step < v.schedule.len()
        &&& v.schedule[step].from_bps <= utilization
        &&& step + 1 < v.schedule.len() ==> utilization < v.schedule[step + 1].from_bps
        &&& limit * 10_000 <= v.book.liquid * v.schedule[step].liquid_bps < limit * 10_000 + 10_000
    }
}

proof fn lemma_withdraw_terms(
    v: Vault,
    shares: int,
    worth: int,
    utilization: int,
    step: int,
    limit: int,
)
    requires
        v.valid(),
        shares >= 0,
        withdraw_terms(v, shares, worth, utilization, step, limit),
    ensures
        v.book.assets_for(shares) == worth,
        v.book.utilization() == utilization,
        utilization >= 5_000 ==> {
            &&& v.limit_scaled() == v.book.liquid * v.schedule[step].liquid_bps
            &&& v.limit_scaled() >= 0
            &&& v.withdrawal_limit() == limit
        },
{
    law_assets_are_quoted_in_proportion(v.book, shares, worth);
    law_utilization_is_quoted_in_proportion(v.book, utilization);
    if utilization >= 5_000 {
        law_step_in_force_is_the_last(v.schedule, utilization, step);
        lemma_product_nonnegative(v.book.liquid, v.schedule[step].liquid_bps as int);
        lemma_quotient(v.book.liquid * v.schedule[step].liquid_bps, 10_000, limit);
    }
}

/// A withdrawal is accepted exactly if the vault is not of another version, the shares are
/// enough, held and no longer locked, their worth is within the limit where withdrawals are
/// limited, and the numbers fit. Each refusal is given for its own reason alone: first what is
/// asked for is looked at, then the lock, then what is held.
pub proof fn law_withdrawal_is_accepted(
    v: Vault,
    from: Address,
    shares: int,
    now: u32,
    worth: int,
    utilization: int,
    step: int,
    limit: int,
)
    requires
        v.valid(),
        withdraw_terms(v, shares, worth, utilization, step, limit),
    ensures
        ({
            let total = v.book.liquid + v.book.invested + v.book.expected_returns;
            let held = if v.book.balances.dom().contains(from) {
                v.book.balances[from] as int
            } else {
                0
            };
            let locked = v.book.locks.dom().contains(from) && now - v.book.locks[from]
                < v.settings.withdrawal_window;
            &&& withdraw_error(v, from, shares, now) is None <==> {
                &&& v.settings.stored_version == 1
                &&& shares >= 1_000_000_000
                &&& !locked
                &&& held >= shares
                &&& shares * total <= i128::MAX
                &&& v.book.invested * 10_000 <= i128::MAX
                &&& utilization >= 5_000 ==> v.book.liquid * v.schedule[step].liquid_bps
                    <= i128::MAX && worth <= limit
            }
            &&& v.settings.stored_version == 1 ==> {
                &&& shares <= 0 ==> withdraw_error(v, from, shares, now) == Some(
                    VaultError::SharesNotPositive,
                )
                &&& 0 < shares < 1_000_000_000 ==> withdraw_error(v, from, shares, now) == Some(
                    VaultError::WithdrawBelowMinimum,
                )
                &&& shares >= 1_000_000_000 && locked ==> withdraw_error(v, from, shares, now)
                    == Some(VaultError::DepositLocked)
                &&& shares >= 1_000_000_000 && !locked && held < shares ==> withdraw_error(
                    v,
                    from,
                    shares,
                    now,
                ) == Some(VaultError::InsufficientShares)
            }
            &&& withdraw_error(v, from, shares, now) matches Some(error) ==> match error {
                VaultError::StaleState => v.settings.stored_version != 1,
                VaultError::SharesNotPositive => shares <= 0,
                VaultError::WithdrawBelowMinimum => 0 < shares < 1_000_000_000,
                VaultError::DepositLocked => locked,
                VaultError::InsufficientShares => held < shares,
                VaultError::WithdrawalLimitExceeded => utilization >= 5_000 && worth > limit,
                VaultError::Overflow => {
                    ||| shares * total > i128::MAX
                    ||| v.book.invested * 10_000 > i128::MAX
                    ||| utilization >= 5_000 && v.book.liquid * v.schedule[step].liquid_bps
                        > i128::MAX
                },
                _ => false,
            }
        }),
{
    if shares >= 0 {
        lemma_withdraw_terms(v, shares, worth, utilization, step, limit);
        lemma_product_nonnegative(shares, v.book.total_assets());
        lemma_amount_within_sum(v.book.balances, from, from);
    }
}

/// A withdrawal burns the shares of the account, and nobody else's. What they are worth is paid
/// out of the liquid USDC, in one payment to the account, where that covers it: the payment,
/// what is handed back and what leaves the vault are the same amount. Else nothing is paid, and
/// that amount is owed to the account, behind the claims that waited before. The rest of the
/// vault stays as it was.
pub proof fn law_withdrawal_is_paid_its_worth(
    v: Vault,
    from: Address,
    shares: int,
    now: u32,
    worth: int,
)
    requires
        v.valid(),
        withdraw_error(v, from, shares, now) is None,
        worth * v.book.supply <= shares * (v.book.liquid + v.book.invested
            + v.book.expected_returns) < worth * v.book.supply + v.book.supply,
    ensures
        pays_at_once(v, shares) <==> worth <= v.book.liquid,
        v.book.assets_for(shares) == worth,
        ({
            let after = after_withdraw(v, from, shares);
            let payments = withdraw_payments(v, from, shares);
            &&& worth <= v.book.liquid ==> {
                &&& payments.len() == 1
                &&& payments[0].from == v.settings.address && payments[0].to == from
                &&& payments[0].amount == worth
                &&& after.book.liquid == v.book.liquid - worth
                &&& after.book.queue == v.book.queue
            }
            &&& worth > v.book.liquid ==> {
                &&& payments.len() == 0
                &&& after.book.liquid == v.book.liquid
                &&& after.book.queue.len() == v.book.queue.len() + 1
                &&& after.book.queue.drop_last() == v.book.queue
                &&& after.book.queue.last().to == from
                &&& after.book.queue.last().owed == worth
            }
            &&& after.book.supply == v.book.supply - shares
            &&& after.book.balances.dom().contains(from)
            &&& after.book.balances[from] == v.book.balances[from] - shares
            &&& after.book.balances.remove(from) == v.book.balances.remove(from)
            &&& after.book.locks == v.book.locks
            &&& after.book.invested == v.book.invested
            &&& after.book.expected_returns == v.book.expected_returns
            &&& after.book.insurance_reserve == v.book.insurance_reserve
            &&& after.book.investments == v.book.investments
            &&& after.settings == v.settings
            &&& after.schedule == v.schedule
            &&& after.signers == v.signers
            &&& after.approvals_needed == v.approvals_needed
            &&& after.emitters == v.emitters
        }),
{
    lemma_withdraw_valid(v, from, shares, now);
    lemma_worth(v, shares);
    law_assets_are_quoted_in_proportion(v.book, shares, worth);
    let after = after_withdraw(v, from, shares);
    assert(after.book.balances.remove(from) =~= v.book.balances.remove(from));
    if worth > v.book.liquid {
        assert(after.book.queue.drop_last() =~= v.book.queue);
    }
}

/// A withdrawal announces the burned shares, a warning from seven tenths utilization on, and
/// then that it was paid or queued, with the worth of the shares.
pub proof fn law_withdrawal_is_announced(
    v: Vault,
    from: Address,
    shares: int,
    now: u32,
    worth: int,
    utilization: int,
    step: int,
    limit: int,
)
    requires
        v.valid(),
        withdraw_error(v, from, shares, now) is None,
        withdraw_terms(v, shares, worth, utilization, step, limit),
    ensures
        ({
            let events = withdraw_events(v, from, shares);
            &&& events.len() == (if utilization >= 7_000 {
                3int
            } else {
                2int
            })
            &&& events[0] == (Event::Burn { from, shares: shares as i128 })
            &&& utilization >= 7_000 ==> events[1] == (Event::UtilizationWarning {
                utilization_bps: utilization as i128,
            })
            &&& worth <= v.book.liquid ==> events.last() == (Event::Withdrawn {
                to: from,
                shares: shares as i128,
                assets: worth as i128,
            })
            &&& worth > v.book.liquid ==> events.last() == (Event::WithdrawQueued {
                to: from,
                shares: shares as i128,
                owed: worth as i128,
            })
        }),
{
    lemma_withdraw_terms(v, shares, worth, utilization, step, limit);
}

/// What claims are owed in all is nothing for none of them, and grows by what each is owed.
pub proof fn law_owed_in_all(claims: Seq<QueuedClaim>, claim: QueuedClaim)
    ensures
        owed_total(Seq::empty()) == 0,
        owed_total(claims.push(claim)) == owed_total(claims) + claim.owed,
{
    assert(claims.push(claim).drop_last() =~= claims);
}

/// A claim pays as many of the oldest claims as the liquid USDC covers in full, and not one
/// more: each account gets what it is owed, in one payment, in the order of the queue. The rest
/// of the queue waits on, and the rest of the vault stays as it was.
pub proof fn law_claims_are_paid_in_full(v: Vault, count: int, i: int)
    requires
        v.valid(),
        settles(v.book, count),
    ensures
        claim_error(v) is Some <==> v.settings.stored_version != 1,
        0 <= count <= v.book.queue.len(),
        owed_total(v.book.queue.take(count)) <= v.book.liquid,
        count < v.book.queue.len() ==> owed_total(v.book.queue.take(count + 1)) > v.book.liquid,
        claim_payments(v, count).len() == count,
        claim_events(v, count).len() == count,
        0 <= i < count ==> {
            &&& claim_payments(v, count)[i].from == v.settings.address
            &&& claim_payments(v, count)[i].to == v.book.queue[i].to
            &&& claim_payments(v, count)[i].amount == v.book.queue[i].owed
            &&& claim_events(v, count)[i] == (Event::ClaimSettled {
                to: v.book.queue[i].to,
                paid: v.book.queue[i].owed,
            })
        },
        ({
            let after = after_claims(v, count);
            &&& after.book.liquid + owed_total(v.book.queue.take(count)) == v.book.liquid
            &&& v.book.queue == v.book.queue.take(count) + after.book.queue
            &&& after.book.supply == v.book.supply
            &&& after.book.balances == v.book.balances
            &&& after.book.locks == v.book.locks
            &&& after.book.invested == v.book.invested
            &&& after.book.expected_returns == v.book.expected_returns
            &&& after.book.insurance_reserve == v.book.insurance_reserve
            &&& after.book.investments == v.book.investments
            &&& after.settings == v.settings
            &&& after.schedule == v.schedule
            &&& after.signers == v.signers
            &&& after.approvals_needed == v.approvals_needed
            &&& after.emitters == v.emitters
        }),
{
    if count < v.book.queue.len() {
        assert(v.book.queue.take(count + 1).drop_last() =~= v.book.queue.take(count));
    }
    assert(v.book.queue =~= v.book.queue.take(count) + v.book.queue.skip(count));
}

/// A number of claims is paid if the liquid USDC covers them all and not the next one too.
pub proof fn law_claims_that_are_covered_are_paid(book: Book, count: int)
    requires
        0 <= count <= book.queue.len(),
        owed_total(book.queue.take(count)) <= book.liquid,
        count < book.queue.len() ==> owed_total(book.queue.take(count + 1)) > book.liquid,
    ensures
        settles(book, count),
{
    if count < book.queue.len() {
        assert(book.queue.take(count + 1).drop_last() =~= book.queue.take(count));
    }
}

/// A transfer is accepted exactly if the vault is not of another version and would not come to
/// hold shares, and the shares are not fewer than none, held and no longer locked.
pub proof fn law_transfer_is_accepted(v: Vault, from: Address, to: Address, shares: int, now: u32)
    ensures
        ({
            let held = if v.book.balances.dom().contains(from) {
                v.book.balances[from] as int
            } else {
                0
            };
            let locked = v.book.locks.dom().contains(from) && now - v.book.locks[from]
                < v.settings.withdrawal_window;
            &&& transfer_error(v, from, to, shares, now) is None <==> {
                &&& v.settings.stored_version == 1
                &&& to != v.settings.address
                &&& 0 <= shares <= held
                &&& !locked
            }
            &&& transfer_error(v, from, to, shares, now) matches Some(error) ==> match error {
                VaultError::StaleState => v.settings.stored_version != 1,
                VaultError::VaultAsHolder => to == v.settings.address,
                VaultError::NegativeTransfer => shares < 0,
                VaultError::DepositLocked => locked,
                VaultError::InsufficientShares => held < shares,
                _ => false,
            }
        }),
{
}

/// A transfer takes the shares from the one account and gives them to the other, which is locked
/// from this ledger on. Every other account, and the rest of the vault, stays as it was.
pub proof fn law_transfer_is_carried_out(
    v: Vault,
    from: Address,
    to: Address,
    shares: int,
    now: u32,
)
    requires
        v.valid(),
        transfer_error(v, from, to, shares, now) is None,
    ensures
        ({
            let after = after_transfer(v, from, to, shares, now);
            let held = if v.book.balances.dom().contains(to) {
                v.book.balances[to] as int
            } else {
                0
            };
            &&& from != to && shares > 0 ==> after.book.balances.dom().contains(from)
                && after.book.balances[from] == v.book.balances[from] - shares
            &&& from != to && shares == 0 ==> after.book.balances.remove(to)
                == v.book.balances.remove(to)
            &&& after.book.balances.dom().contains(to)
            &&& from != to ==> after.book.balances[to] == held + shares
            &&& from == to ==> after.book.balances[to] == held
            &&& after.book.balances.remove(from).remove(to) == v.book.balances.remove(from).remove(
                to,
            )
            &&& after.book.locks.dom().contains(to) && after.book.locks[to] == now
            &&& after.book.locks.remove(to) == v.book.locks.remove(to)
            &&& after.book.supply == v.book.supply
            &&& after.book.liquid == v.book.liquid
            &&& after.book.invested == v.book.invested
            &&& after.book.expected_returns == v.book.expected_returns
            &&& after.book.insurance_reserve == v.book.insurance_reserve
            &&& after.book.investments == v.book.investments
            &&& after.book.queue == v.book.queue
            &&& after.settings == v.settings
            &&& after.schedule == v.schedule
            &&& after.signers == v.signers
            &&& after.approvals_needed == v.approvals_needed
            &&& after.emitters == v.emitters
        }),
{
    lemma_amount_within_sum(v.book.balances, from, to);
    lemma_amount_within_sum(v.book.balances, to, to);
    let after = after_transfer(v, from, to, shares, now);
    assert(after.book.balances.remove(from).remove(to) =~= v.book.balances.remove(from).remove(to));
    assert(after.book.locks.remove(to) =~= v.book.locks.remove(to));
    if shares == 0 {
        assert(after.book.balances.remove(to) =~= v.book.balances.remove(to));
    }
}

// ---------------------------------------------------------------------------------------------
// Funding
// ---------------------------------------------------------------------------------------------

/// A funding is accepted exactly if the vault is not of another version, the registry is not
/// paused and knows the project, the project is neither the owner's nor the vault's, its credit
/// quality and its green impact each reach the threshold set for it, and the amount is positive
/// and leaves the insurance reserve in the vault. Each refusal is given for its own reason alone,
/// and the amount is looked at before the registry.
pub proof fn law_funding_is_accepted(v: Vault, request: FundingRequest, registry: RegistryInfo)
    requires
        v.valid(),
    ensures
        ({
            let id = request.project_id as int;
            let known = 1 <= id <= registry.projects@.len();
            let project = registry.projects@[id - 1];
            let own = project.owner == v.settings.owner || project.owner == v.settings.address;
            let total = v.book.liquid + v.book.invested + v.book.expected_returns;
            &&& funding_error(v, request, registry) is None <==> {
                &&& v.settings.stored_version == 1
                &&& request.amount > 0
                &&& !registry.paused
                &&& known
                &&& !own
                &&& project.credit_quality >= v.settings.min_credit_quality
                &&& project.green_impact >= v.settings.min_green_impact
                &&& request.amount + v.book.insurance_reserve <= v.book.liquid
                &&& total + project.expected_return <= i128::MAX
            }
            &&& v.settings.stored_version == 1 && request.amount <= 0 ==> funding_error(
                v,
                request,
                registry,
            ) == Some(VaultError::AmountNotPositive)
            &&& funding_error(v, request, registry) matches Some(error) ==> match error {
                VaultError::StaleState => v.settings.stored_version != 1,
                VaultError::AmountNotPositive => request.amount <= 0,
                VaultError::RegistryPaused => registry.paused,
                VaultError::InvalidProject => !known,
                VaultError::SelfFunding => known && own,
                VaultError::CreditQualityBelowThreshold => known && project.credit_quality
                    < v.settings.min_credit_quality,
                VaultError::GreenImpactBelowThreshold => known && project.green_impact
                    < v.settings.min_green_impact,
                VaultError::InsufficientDeployable => request.amount + v.book.insurance_reserve
                    > v.book.liquid,
                VaultError::Overflow => known && total + project.expected_return > i128::MAX,
                _ => false,
            }
        }),
{
}

/// A funding moves its amount from the liquid USDC to the project, in one payment to the
/// project's owner, and adds the return that the registry expects of it. No other project, and
/// nothing else of the vault, changes.
pub proof fn law_funding_is_carried_out(v: Vault, request: FundingRequest, registry: RegistryInfo)
    requires
        v.valid(),
        funding_error(v, request, registry) is None,
    ensures
        funding_payment(v, request, registry).from == v.settings.address,
        funding_payment(v, request, registry).to == registry.projects@[request.project_id
            - 1].owner,
        funding_payment(v, request, registry).amount == request.amount,
        funding_event(request) == (Event::ProjectFunded {
            project_id: request.project_id,
            amount: request.amount,
        }),
        ({
            let after = after_funding(v, request, registry);
            let id = request.project_id as u64;
            &&& after.book.liquid == v.book.liquid - request.amount
            &&& after.book.invested == v.book.invested + request.amount
            &&& after.book.expected_returns == v.book.expected_returns
                + registry.projects@[request.project_id - 1].expected_return
            &&& after.book.investments.dom().contains(id)
            &&& after.book.investments[id] == request.amount + (
            if v.book.investments.dom().contains(id) {
                v.book.investments[id] as int
            } else {
                0
            })
            &&& after.book.investments.remove(id) == v.book.investments.remove(id)
            &&& after.book.insurance_reserve == v.book.insurance_reserve
            &&& after.book.supply == v.book.supply
            &&& after.book.balances == v.book.balances
            &&& after.book.locks == v.book.locks
            &&& after.book.queue == v.book.queue
            &&& after.settings == v.settings
            &&& after.schedule == v.schedule
            &&& after.signers == v.signers
            &&& after.approvals_needed == v.approvals_needed
            &&& after.emitters == v.emitters
        }),
{
    lemma_funding_valid(v, request, registry);
    let after = after_funding(v, request, registry);
    let id = request.project_id as u64;
    assert(after.book.investments.remove(id) =~= v.book.investments.remove(id));
}

/// A batch of fundings is refused for want of approvals exactly if fewer signers than are needed
/// are among those that approve, each of them counted once, or no multisig is set up. With the
/// approvals it is refused as a repetition exactly if two of its fundings name one project, and
/// otherwise for the first funding that is refused where it stands.
pub proof fn law_batch_funding_needs_approvals(
    v: Vault,
    requests: Seq<FundingRequest>,
    approving: Seq<Address>,
    registry: RegistryInfo,
)
    requires
        v.valid(),
    ensures
        ({
            let error = batch_funding_error(v, requests, approving, registry);
            let given = approving.to_set().intersect(v.signers).len();
            let enough = v.approvals_needed is Some && given >= v.approvals_needed->0;
            let repeats = exists|i: int, j: int|
                0 <= i < j < requests.len() && (#[trigger] requests[i]).project_id == (
                #[trigger] requests[j]).project_id;
            &&& v.settings.stored_version != 1 ==> error == Some(VaultError::StaleState)
            &&& v.settings.stored_version == 1 && !enough ==> error == Some(
                VaultError::InsufficientApprovals,
            )
            &&& v.settings.stored_version == 1 && enough && repeats ==> error == Some(
                VaultError::DuplicateProject,
            )
            &&& v.settings.stored_version == 1 && enough && !repeats ==> error
                == each_funding_error(v, requests, registry)
        }),
{
}

/// Fundings one after another: none changes nothing, one is that funding, and two lots are the
/// first and then, on the vault that leaves, the second.
pub proof fn law_fundings_are_one_after_another(
    v: Vault,
    first: Seq<FundingRequest>,
    second: Seq<FundingRequest>,
    request: FundingRequest,
    registry: RegistryInfo,
)
    ensures
        each_funding_error(v, Seq::empty(), registry) is None,
        after_batch_funding(v, Seq::empty(), registry) == v,
        each_funding_error(v, seq![request], registry) == funding_error(v, request, registry),
        after_batch_funding(v, seq![request], registry) == after_funding(v, request, registry),
        each_funding_error(v, first + second, registry) == (if each_funding_error(
            v,
            first,
            registry,
        ) is Some {
            each_funding_error(v, first, registry)
        } else {
            each_funding_error(after_batch_funding(v, first, registry), second, registry)
        }),
        after_batch_funding(v, first + second, registry) == after_batch_funding(
            after_batch_funding(v, first, registry),
            second,
            registry,
        ),
    decreases second.len(),
{
    let none = seq![request].drop_last();
    assert(none =~= Seq::empty());
    assert(after_batch_funding(v, none, registry) == v);
    assert(each_funding_error(v, none, registry) is None);
    let whole = first + second;
    if second.len() == 0 {
        assert(whole =~= first);
    } else {
        assert(whole.drop_last() =~= first + second.drop_last());
        assert(whole.last() == second.last());
        law_fundings_are_one_after_another(v, first, second.drop_last(), request, registry);
    }
}

/// Compaction forgets exactly the investments that are zero, and changes nothing else.
pub proof fn law_compaction_forgets_zeros(v: Vault, id: u64)
    ensures
        ({
            let after = after_compaction(v);
            &&& after.book.investments == nonzero(v.book.investments)
            &&& after.book.investments.dom().contains(id) <==> v.book.investments.dom().contains(
                id,
            ) && v.book.investments[id] != 0
            &&& after.book.investments.dom().contains(id) ==> after.book.investments[id]
                == v.book.investments[id]
            &&& after.book.liquid == v.book.liquid
            &&& after.book.invested == v.book.invested
            &&& after.book.expected_returns == v.book.expected_returns
            &&& after.book.insurance_reserve == v.book.insurance_reserve
            &&& after.book.supply == v.book.supply
            &&& after.book.balances == v.book.balances
            &&& after.book.locks == v.book.locks
            &&& after.book.queue == v.book.queue
            &&& after.settings == v.settings
            &&& after.schedule == v.schedule
            &&& after.signers == v.signers
            &&& after.approvals_needed == v.approvals_needed
            &&& after.emitters == v.emitters
        }),
{
}

// ---------------------------------------------------------------------------------------------
// Flash loans
// ---------------------------------------------------------------------------------------------

/// The fee on a flash loan is the set part of the loan, in ten thousandths, rounded down, for
/// every loan. The loan can be made exactly if the vault is not of another version, has that
/// much liquid USDC, and the numbers fit. Repaid, it adds the fee to the liquid USDC and so to
/// the assets, and changes nothing else.
pub proof fn law_flash_loan_is_charged_its_fee(v: Vault, amount: int, fee: int)
    requires
        v.valid(),
        fee * 10_000 <= amount * v.settings.flash_loan_fee_bps < fee * 10_000 + 10_000,
    ensures
        flash_loan_fee(v.settings, amount) == fee,
        ({
            let total = v.book.liquid + v.book.invested + v.book.expected_returns;
            let after = after_flash_loan(v, amount);
            &&& flash_loan_error(v, amount) is None <==> {
                &&& v.settings.stored_version == 1
                &&& 0 < amount <= v.book.liquid
                &&& amount * v.settings.flash_loan_fee_bps <= i128::MAX
                &&& total + fee <= i128::MAX
            }
            &&& v.settings.stored_version == 1 && amount <= 0 ==> flash_loan_error(v, amount)
                == Some(VaultError::AmountNotPositive)
            &&& v.settings.stored_version == 1 && amount > v.book.liquid ==> flash_loan_error(
                v,
                amount,
            ) == Some(VaultError::InsufficientLiquidity)
            &&& flash_loan_error(v, amount) matches Some(error) ==> match error {
                VaultError::StaleState => v.settings.stored_version != 1,
                VaultError::AmountNotPositive => amount <= 0,
                VaultError::InsufficientLiquidity => amount > v.book.liquid,
                VaultError::Overflow => amount * v.settings.flash_loan_fee_bps > i128::MAX || total
                    + fee > i128::MAX,
                _ => false,
            }
            &&& after.book.liquid == v.book.liquid + fee
            &&& after.book.liquid + after.book.invested + after.book.expected_returns == total
                + fee
            &&& after.book.invested == v.book.invested
            &&& after.book.expected_returns == v.book.expected_returns
            &&& after.book.insurance_reserve == v.book.insurance_reserve
            &&& after.book.supply == v.book.supply
            &&& after.book.balances == v.book.balances
            &&& after.book.locks == v.book.locks
            &&& after.book.investments == v.book.investments
            &&& after.book.queue == v.book.queue
            &&& after.settings == v.settings
            &&& after.schedule == v.schedule
            &&& after.signers == v.signers
            &&& after.approvals_needed == v.approvals_needed
            &&& after.emitters == v.emitters
        }),
{
    lemma_quotient(amount * v.settings.flash_loan_fee_bps, 10_000, fee);
    if amount >= 0 {
        lemma_product_nonnegative(amount, v.settings.flash_loan_fee_bps as int);
    }
}

/// The borrower is told who started the loan, the vault, the loan, the fee on it and the data.
pub proof fn law_borrower_is_told_the_terms<R: FlashLoanReceiver>(
    borrower: &R,
    initiator: Address,
    v: Vault,
    amount: i128,
    fee: i128,
    data: &Vec<u8>,
    repaid: bool,
)
    requires
        fee * 10_000 <= amount * v.settings.flash_loan_fee_bps < fee * 10_000 + 10_000,
    ensures
        answers(borrower, initiator, v, amount, data, repaid) <==> call_ensures(
            R::flash_loan_callback,
            (borrower, initiator, v.settings.address, amount, fee, data),
            repaid,
        ),
{
    lemma_quotient(amount * v.settings.flash_loan_fee_bps, 10_000, fee as int);
}

// ---------------------------------------------------------------------------------------------
// Settings and ownership
// ---------------------------------------------------------------------------------------------

/// A request that is not allowed is refused as unauthorized, one with a reason against it for
/// that reason, and neither changes anything. Any other gives the vault the settings it asks for,
/// keeps all else, pays nothing and announces its events.
pub proof fn law_settings_are_changed_as_asked(
    before: Vault,
    after: Vault,
    allowed: bool,
    failed: bool,
    error: VaultError,
    settings: Settings,
    events: Seq<Event>,
    result: Result<Receipt<()>, VaultError>,
)
    requires
        changes_settings(
            before,
            after,
            allowed,
            refused_if(failed, error),
            settings,
            events,
            result,
        ),
    ensures
        result is Ok <==> allowed && !failed,
        !allowed ==> result->Err_0 == VaultError::Unauthorized && after == before,
        allowed && failed ==> result->Err_0 == error && after == before,
        allowed && !failed ==> {
            &&& after.settings == settings
            &&& after.book == before.book
            &&& after.schedule == before.schedule
            &&& after.signers == before.signers
            &&& after.approvals_needed == before.approvals_needed
            &&& after.emitters == before.emitters
            &&& result->Ok_0.payments@.len() == 0
            &&& result->Ok_0.events@ == events
        },
{
}

/// The same of a request that nothing can stand against but who makes it.
pub proof fn law_allowed_settings_are_changed(
    before: Vault,
    after: Vault,
    allowed: bool,
    settings: Settings,
    events: Seq<Event>,
    result: Result<Receipt<()>, VaultError>,
)
    requires
        changes_settings(before, after, allowed, None, settings, events, result),
    ensures
        result is Ok <==> allowed,
        !allowed ==> result->Err_0 == VaultError::Unauthorized && after == before,
        allowed ==> {
            &&& after.settings == settings
            &&& after.book == before.book
            &&& after.schedule == before.schedule
            &&& after.signers == before.signers
            &&& after.approvals_needed == before.approvals_needed
            &&& after.emitters == before.emitters
            &&& result->Ok_0.payments@.len() == 0
            &&& result->Ok_0.events@ == events
        },
{
}

/// Other settings are all that a vault with other settings differs in.
pub proof fn law_other_settings_alone(v: Vault, settings: Settings)
    ensures
        with_settings(v, settings).settings == settings,
        with_settings(v, settings).book == v.book,
        with_settings(v, settings).schedule == v.schedule,
        with_settings(v, settings).signers == v.signers,
        with_settings(v, settings).approvals_needed == v.approvals_needed,
        with_settings(v, settings).emitters == v.emitters,
{
}

/// A new vault belongs to its admin alone, takes deposits, charges no fee, asks nothing of
/// projects, does not trade, and locks shares for one ledger.
pub proof fn law_new_vault_is_plain(
    address: Address,
    admin: Address,
    asset: Address,
    registry: Address,
    max_hbs_supply: i128,
)
    ensures
        ({
            let settings = initial_settings(address, admin, asset, registry, max_hbs_supply);
            &&& settings.address == address
            &&& settings.owner == admin
            &&& settings.asset == asset
            &&& settings.registry == registry
            &&& settings.max_hbs_supply == max_hbs_supply
            &&& settings.pending_owner is None
            &&& settings.emergency_admin is None
            &&& settings.fee_recipient is None
            &&& settings.stored_version == 1
            &&& !settings.paused
            &&& !settings.trading_enabled
            &&& settings.management_fee_bps == 0
            &&& settings.tier_threshold == 0
            &&& settings.tier_bps == 0
            &&& settings.min_credit_quality == 0
            &&& settings.min_green_impact == 0
            &&& settings.withdrawal_window == 1
            &&& settings.flash_loan_fee_bps == 0
        }),
{
}

/// A schedule can be used exactly if its steps start at half utilization, go upward, allow no
/// more than all the liquid USDC, and allow a quarter of it at four fifths. `step` is the last
/// one that starts by then.
pub proof fn law_schedule_is_usable(schedule: Seq<LimitStep>, step: int)
    requires
        0 <= step < schedule.len(),
        schedule[step].from_bps <= 8_000,
        step + 1 < schedule.len() ==> 8_000 < schedule[step + 1].from_bps,
    ensures
        schedule_valid(schedule) <==> {
            &&& schedule[0].from_bps == 5_000
            &&& forall|i: int, j: int|
                0 <= i < j < schedule.len() ==> (#[trigger] schedule[i]).from_bps < (
                #[trigger] schedule[j]).from_bps
            &&& forall|i: int|
                0 <= i < schedule.len() ==> (#[trigger] schedule[i]).liquid_bps <= 10_000
            &&& schedule[step].liquid_bps == 2_500
        },
{
    if schedule[0].from_bps == 5_000 && (forall|i: int, j: int|
        0 <= i < j < schedule.len() ==> (#[trigger] schedule[i]).from_bps < (
        #[trigger] schedule[j]).from_bps) && (forall|i: int|
        0 <= i < schedule.len() ==> (#[trigger] schedule[i]).liquid_bps <= 10_000) {
        law_step_in_force_is_the_last(schedule, 8_000, step);
    }
}

/// The emitters of a list are those that stand in it somewhere, by chain and bytes.
pub proof fn law_listed_emitters_are_trusted(
    list: Seq<(u32, [u8; 32])>,
    chain_id: u32,
    bytes: Seq<u8>,
)
    ensures
        emitter_set(list).contains((chain_id, bytes)) <==> exists|i: int|
            0 <= i < list.len() && (#[trigger] list[i]).0 == chain_id && list[i].1@ == bytes,
{
}

/// An offer of the ownership is made, or taken back, by the owner alone: made with a deadline
/// from the present ledger to the last one that the host keeps it for, taken back where it is
/// open to that very account.
pub proof fn law_ownership_is_offered(
    v: Vault,
    caller: Address,
    new_owner: Address,
    live_until_ledger: u32,
    now: u32,
    max_live_until: u32,
)
    ensures
        ({
            let error = transfer_ownership_error(
                v,
                caller,
                new_owner,
                live_until_ledger,
                now,
                max_live_until,
            );
            let open = v.settings.pending_owner;
            &&& error is None <==> caller == v.settings.owner && (if live_until_ledger == 0 {
                open is Some && open->0.account == new_owner
            } else {
                now <= live_until_ledger <= max_live_until
            })
            &&& error matches Some(error) ==> match error {
                VaultError::Unauthorized => caller != v.settings.owner,
                VaultError::NoPendingTransfer => live_until_ledger == 0 && open is None,
                VaultError::InvalidPendingAccount => live_until_ledger == 0 && open is Some
                    && open->0.account != new_owner,
                VaultError::InvalidLiveUntilLedger => live_until_ledger > 0 && (live_until_ledger
                    < now || live_until_ledger > max_live_until),
                _ => false,
            }
        }),
        live_until_ledger == 0 ==> pending_after(new_owner, live_until_ledger) is None,
        live_until_ledger > 0 ==> {
            &&& pending_after(new_owner, live_until_ledger) is Some
            &&& pending_after(new_owner, live_until_ledger)->0.account == new_owner
            &&& pending_after(new_owner, live_until_ledger)->0.live_until_ledger
                == live_until_ledger
        },
{
}

/// An offer of the ownership is taken up by the account it was made to, up to its deadline.
pub proof fn law_ownership_is_taken_up(v: Vault, caller: Address, now: u32)
    ensures
        ({
            let open = v.settings.pending_owner;
            let error = accept_ownership_error(v, caller, now);
            &&& error is None <==> open is Some && open->0.account == caller && now
                <= open->0.live_until_ledger
            &&& error matches Some(error) ==> match error {
                VaultError::NoPendingTransfer => open is None,
                VaultError::TransferExpired => open is Some && now > open->0.live_until_ledger,
                VaultError::Unauthorized => open is Some && caller != open->0.account,
                _ => false,
            }
        }),
{
}

} // verus!
