//! What holds of a vault across requests.

use vstd::prelude::*;

use crate::admin::with_settings;
use crate::deposits::{lemma_deposit_parts, lemma_deposit_valid};
use crate::error::VaultError;
use crate::flash::lemma_flash_loan_valid;
use crate::funding::lemma_funding_valid;
use crate::model::{
    accept_ownership_error, after_batch_deposit, after_batch_funding, after_claims,
    after_compaction, after_deposit, after_flash_loan, after_funding, after_transfer,
    after_withdraw, batch_deposit_error, batch_funding_error, claim_error, claim_payments,
    deposit_error,
    deposit_payments, deposit_shares, each_deposit_error, each_funding_error, fee_rate, fits,
    flash_loan_error, flash_loan_fee, funding_error, funding_payment, insurance_premium,
    investable, management_fee, owed_total, pays_at_once, pending_after, projects_distinct,
    schedule_ordered, settles, step_in_force, transfer_error, transfer_ownership_error,
    withdraw_error, withdraw_payments, Book, Vault,
};
use crate::sums::lemma_amount_within_sum;
use crate::types::{
    Address, FundingRequest, LimitStep, Payment, QueuedClaim, RegistryInfo, Settings, BPS,
    HIGH_UTILIZATION_BPS, LIMITED_FROM_BPS, MAX_DEPOSIT, MAX_SUPPLY_CAP, MIN_DEPOSIT, MIN_WITHDRAW,
};
use crate::withdrawals::{lemma_withdraw_valid, lemma_worth};

verus! {

// ---------------------------------------------------------------------------------------------
// Prices
// ---------------------------------------------------------------------------------------------

/// On a vault without shares a share costs one unit of USDC, whatever the amount, and shares
/// are worth nothing.
pub proof fn law_empty_vault_is_one_to_one(book: Book, amount: int)
    requires
        book.supply == 0,
    ensures
        book.shares_for_fits(amount),
        book.shares_for(amount) == amount,
        book.assets_for_fits(amount),
        book.assets_for(amount) == 0,
{
}

/// Buying shares and redeeming them never gives back more than went in.
pub proof fn law_roundtrip_never_favors_withdrawer(book: Book, amount: int)
    requires
        book.valid(),
        amount >= 0,
    ensures
        book.assets_for(book.shares_for(amount)) <= amount,
{
    if !book.one_to_one() {
        lemma_roundtrip(amount, book.supply, book.total_assets());
    } else if book.supply > 0 {
        assert(amount * 0 == 0);
    }
}

/// Buying shares and redeeming them loses at most one unit exactly for the amounts whose
/// remainder at the price is no more than the supply. While the assets are less than twice the
/// supply no amount loses more than two.
pub proof fn law_roundtrip_loss(book: Book, amount: int)
    requires
        book.valid(),
        !book.one_to_one(),
        amount >= 0,
    ensures
        amount - book.assets_for(book.shares_for(amount)) <= 1 <==> (amount * book.supply)
            % book.total_assets() <= book.supply,
        book.total_assets() <= book.supply + 1 ==> amount - book.assets_for(
            book.shares_for(amount),
        ) <= 1,
        book.total_assets() < 2 * book.supply ==> amount - book.assets_for(
            book.shares_for(amount),
        ) <= 2,
{
    lemma_roundtrip(amount, book.supply, book.total_assets());
}

/// The round trip, on numbers.
proof fn lemma_roundtrip(amount: int, supply: int, total: int)
    requires
        amount >= 0,
        supply > 0,
        total > 0,
    ensures
        amount * supply >= 0,
        (amount * supply / total) >= 0,
        (amount * supply / total) * total >= 0,
        ({
            let back = (amount * supply / total) * total / supply;
            let rest = (amount * supply) % total;
            &&& back <= amount
            &&& amount - back <= 1 <==> rest <= supply
            &&& total <= supply + 1 ==> amount - back <= 1
            &&& total < 2 * supply ==> amount - back <= 2
        }),
{
    let product = amount * supply;
    assert(product >= 0) by (nonlinear_arith)
        requires
            product == amount * supply,
            amount >= 0,
            supply > 0,
    ;
    let shares = product / total;
    let rest = product % total;
    assert(shares >= 0 && product == shares * total + rest && 0 <= rest < total)
        by (nonlinear_arith)
        requires
            shares == product / total,
            rest == product % total,
            product >= 0,
            total > 0,
    ;
    let worth = shares * total;
    assert(worth >= 0) by (nonlinear_arith)
        requires
            worth == shares * total,
            shares >= 0,
            total > 0,
    ;
    let back = worth / supply;
    // worth == amount * supply - rest, so back is amount less rest / supply, rounded up.
    assert(back * supply <= worth < back * supply + supply) by (nonlinear_arith)
        requires
            back == worth / supply,
            supply > 0,
    ;
    let loss = amount - back;
    assert(loss * supply == rest + (worth - back * supply)) by (nonlinear_arith)
        requires
            loss == amount - back,
            amount * supply == worth + rest,
    ;
    assert(loss >= 0) by (nonlinear_arith)
        requires
            loss * supply >= 0,
            supply > 0,
    ;
    assert(loss <= 1 ==> rest <= supply) by (nonlinear_arith)
        requires
            loss * supply == rest + (worth - back * supply),
            worth - back * supply >= 0,
            supply > 0,
    ;
    assert(rest <= supply ==> loss <= 1) by (nonlinear_arith)
        requires
            loss * supply == rest + (worth - back * supply),
            worth - back * supply < supply,
            supply > 0,
    ;
    assert(total < 2 * supply ==> loss <= 2) by (nonlinear_arith)
        requires
            loss * supply == rest + (worth - back * supply),
            worth - back * supply < supply,
            rest < total,
            supply > 0,
    ;
}

/// All the shares together are worth all the assets, and all the assets buy as many shares as
/// there are.
pub proof fn law_whole_supply_is_worth_all_assets(book: Book)
    requires
        book.valid(),
        !book.one_to_one(),
    ensures
        book.assets_for(book.supply) == book.total_assets(),
        book.shares_for(book.total_assets()) == book.supply,
{
    let supply = book.supply;
    let total = book.total_assets();
    assert(supply * total >= 0 && supply * total / supply == total && total * supply >= 0 && total
        * supply / total == supply) by (nonlinear_arith)
        requires
            supply > 0,
            total > 0,
    ;
}

/// The part of the assets that stands in projects is between nothing and all.
pub proof fn law_utilization_is_a_part(book: Book)
    requires
        book.valid(),
    ensures
        0 <= book.utilization() <= BPS,
{
    let total = book.total_assets();
    let invested = book.invested;
    if total > 0 {
        assert(0 <= invested * 10_000 / total <= 10_000) by (nonlinear_arith)
            requires
                0 <= invested <= total,
                total > 0,
        ;
    }
}

// ---------------------------------------------------------------------------------------------
// Deposits
// ---------------------------------------------------------------------------------------------

/// Every amount outside the accepted range is refused, by every vault.
pub proof fn law_deposit_out_of_range_is_refused(v: Vault, from: Address, amount: int)
    requires
        amount < MIN_DEPOSIT || amount > MAX_DEPOSIT,
    ensures
        deposit_error(v, from, amount) is Some,
{
}

/// The cap on the share supply leaves room for a deposit of any accepted size: on a vault
/// without shares none is refused for the cap.
pub proof fn law_cap_is_above_any_deposit(v: Vault, from: Address, amount: int)
    requires
        v.valid(),
        v.book.supply == 0,
    ensures
        v.settings.max_hbs_supply > MAX_DEPOSIT,
        deposit_error(v, from, amount) != Some(VaultError::SupplyCapExceeded),
{
    if MIN_DEPOSIT <= amount <= MAX_DEPOSIT {
        lemma_deposit_parts(v.settings, amount);
    }
}

/// The shares of a vault after so many of the largest deposits, where no fee is taken.
pub open spec fn supply_after_largest(count: int) -> int
    decreases count,
{
    if count <= 0 {
        0
    } else if count == 1 {
        MAX_DEPOSIT - insurance_premium(MAX_DEPOSIT as int)
    } else {
        let before = supply_after_largest(count - 1);
        before + (MAX_DEPOSIT - insurance_premium(MAX_DEPOSIT as int)) * before / ((count - 1)
            * MAX_DEPOSIT)
    }
}

/// Whether a vault takes deposits, has not had any yet, and charges no fee.
pub open spec fn is_fresh(v: Vault) -> bool {
    &&& v.valid()
    &&& v.current()
    &&& !v.settings.paused
    &&& v.settings.fee_recipient is None
    &&& v.book.supply == 0
    &&& v.book.total_assets() == 0
    &&& v.book.insurance_reserve == 0
}

/// A fresh vault reaches its cap within twenty of the largest deposits: one of them is refused,
/// and it is refused for the cap.
pub proof fn law_twenty_largest_deposits_reach_the_cap(
    v: Vault,
    deposits: Seq<(Address, i128)>,
    now: u32,
)
    requires
        is_fresh(v),
        deposits.len() == 20,
        forall|i: int|
            0 <= i < deposits.len() ==> (#[trigger] deposits[i]).0 != v.settings.address
                && deposits[i].1 == MAX_DEPOSIT,
    ensures
        batch_deposit_error(v, deposits, now) == Some(VaultError::SupplyCapExceeded),
{
    lemma_largest_deposits(v, deposits, now);
    lemma_supply_after_twenty();
}

proof fn lemma_supply_after_twenty()
    ensures
        supply_after_largest(20) > MAX_SUPPLY_CAP,
{
    reveal_with_fuel(supply_after_largest, 3);
    assert(supply_after_largest(1) == 9_950_000_000_000_000);
    assert(supply_after_largest(2) >= 2 * 9_925 * 1_000_000_000_000) by {
        assert(9_950_000_000_000_000int * 9_950_000_000_000_000 / 10_000_000_000_000_000
            == 9_900_250_000_000_000) by (nonlinear_arith);
    }
    lemma_supply_bound(20);
}

/// What a number of the largest deposits mints at least.
proof fn lemma_supply_bound(count: int)
    requires
        2 <= count <= 20,
        supply_after_largest(2) >= 2 * 9_925 * 1_000_000_000_000,
    ensures
        supply_after_largest(count) >= count * (9_965 - 20 * count) * 1_000_000_000_000,
    decreases count,
{
    if count > 2 {
        lemma_supply_bound(count - 1);
        lemma_supply_step(count - 1, supply_after_largest(count - 1));
    }
}

/// One more deposit, on numbers.
proof fn lemma_supply_step(count: int, supply: int)
    requires
        2 <= count < 20,
        supply >= count * (9_965 - 20 * count) * 1_000_000_000_000,
    ensures
        supply + 9_950_000_000_000_000 * supply / (count * 10_000_000_000_000_000) >= (count + 1)
            * (9_945 - 20 * count) * 1_000_000_000_000,
{
    let rate = 9_965 - 20 * count;
    let total = count * 10_000_000_000_000_000;
    let product = 9_950_000_000_000_000 * supply;
    let minted = product / total;
    assert(product < (minted + 1) * total) by (nonlinear_arith)
        requires
            minted == product / total,
            total > 0,
    ;
    assert((minted + 1) * 10_000_000_000_000_000 > 9_950_000_000_000_000 * (rate
        * 1_000_000_000_000)) by (nonlinear_arith)
        requires
            9_950_000_000_000_000 * supply < (minted + 1) * (count * 10_000_000_000_000_000),
            supply >= count * rate * 1_000_000_000_000,
            count > 0,
    ;
    assert((count + 1) * (rate - 20) == count * rate + rate - 20 * count - 20)
        by (nonlinear_arith);
}

/// The largest deposits, one after another, are refused for the cap or lead to the supply that
/// is to be expected.
proof fn lemma_largest_deposits(v: Vault, deposits: Seq<(Address, i128)>, now: u32)
    requires
        is_fresh(v),
        deposits.len() <= 20,
        forall|i: int|
            0 <= i < deposits.len() ==> (#[trigger] deposits[i]).0 != v.settings.address
                && deposits[i].1 == MAX_DEPOSIT,
    ensures
        ({
            let after = after_batch_deposit(v, deposits, now);
            match each_deposit_error(v, deposits, now) {
                Some(error) => error == VaultError::SupplyCapExceeded,
                None => {
                    &&& after.valid()
                    &&& after.settings == v.settings
                    &&& after.book.supply == supply_after_largest(deposits.len() as int)
                    &&& deposits.len() > 0 ==> after.book.supply > 0
                    &&& after.book.total_assets() == deposits.len() * MAX_DEPOSIT
                    &&& after.book.insurance_reserve == deposits.len() * insurance_premium(
                        MAX_DEPOSIT as int,
                    )
                },
            }
        }),
    decreases deposits.len(),
{
    if deposits.len() > 0 {
        let init = deposits.drop_last();
        assert forall|i: int| 0 <= i < init.len() implies (#[trigger] init[i]).0
            != v.settings.address && init[i].1 == MAX_DEPOSIT by {
            assert(init[i] == deposits[i]);
        }
        lemma_largest_deposits(v, init, now);
        if each_deposit_error(v, init, now) is None {
            let before = after_batch_deposit(v, init, now);
            let from = deposits.last().0;
            assert(deposits[deposits.len() - 1] == deposits.last());
            lemma_deposit_parts(before.settings, MAX_DEPOSIT as int);
            let supply = before.book.supply;
            assert(0 <= 9_950_000_000_000_000 * supply <= i128::MAX) by (nonlinear_arith)
                requires
                    0 <= supply <= 190_000_000_000_000_000,
            ;
            assert(before.book.shares_for_fits(investable(before.settings, MAX_DEPOSIT as int)));
            assert(deposit_shares(before, MAX_DEPOSIT as int) + supply == supply_after_largest(
                deposits.len() as int,
            ));
            if deposit_error(before, from, MAX_DEPOSIT as int) is None {
                lemma_deposit_valid(before, from, MAX_DEPOSIT as int, now);
            }
        }
    }
}

/// A paused vault refuses every deposit, alone or in a batch.
pub proof fn law_paused_vault_refuses_deposits(
    v: Vault,
    from: Address,
    amount: int,
    deposits: Seq<(Address, i128)>,
    now: u32,
)
    requires
        v.settings.paused,
    ensures
        deposit_error(v, from, amount) == Some(VaultError::Paused),
        batch_deposit_error(v, deposits, now) is Some,
{
    if deposits.len() > 0 {
        lemma_first_refused(v, deposits, now);
    }
}

/// A batch whose first deposit is refused is refused for the same reason.
proof fn lemma_first_refused(v: Vault, deposits: Seq<(Address, i128)>, now: u32)
    requires
        deposits.len() > 0,
        deposit_error(v, deposits[0].0, deposits[0].1 as int) is Some,
    ensures
        each_deposit_error(v, deposits, now) == deposit_error(
            v,
            deposits[0].0,
            deposits[0].1 as int,
        ),
    decreases deposits.len(),
{
    let init = deposits.drop_last();
    if init.len() > 0 {
        assert(init[0] == deposits[0]);
        lemma_first_refused(v, init, now);
    } else {
        assert(after_batch_deposit(v, init, now) == v);
        assert(each_deposit_error(v, init, now) is None);
    }
}

/// A batch in two parts is the first part, then the second: nothing depends on where deposits
/// are put together.
pub proof fn law_batch_deposit_splits(
    v: Vault,
    first: Seq<(Address, i128)>,
    second: Seq<(Address, i128)>,
    now: u32,
)
    ensures
        after_batch_deposit(v, first + second, now) == after_batch_deposit(
            after_batch_deposit(v, first, now),
            second,
            now,
        ),
        each_deposit_error(v, first + second, now) == match each_deposit_error(v, first, now) {
            Some(error) => Some(error),
            None => each_deposit_error(after_batch_deposit(v, first, now), second, now),
        },
    decreases second.len(),
{
    let whole = first + second;
    if second.len() == 0 {
        assert(whole =~= first);
    } else {
        assert(whole.drop_last() =~= first + second.drop_last());
        assert(whole.last() == second.last());
        law_batch_deposit_splits(v, first, second.drop_last(), now);
    }
}

/// A batch of one deposit is that deposit.
pub proof fn law_batch_of_one_is_a_deposit(v: Vault, from: Address, amount: i128, now: u32)
    ensures
        batch_deposit_error(v, seq![(from, amount)], now) == deposit_error(
            v,
            from,
            amount as int,
        ),
        after_batch_deposit(v, seq![(from, amount)], now) == after_deposit(
            v,
            from,
            amount as int,
            now,
        ),
{
    let init = seq![(from, amount)].drop_last();
    assert(after_batch_deposit(v, init, now) == v);
    assert(each_deposit_error(v, init, now) is None);
}

/// Premium, fee and what buys shares make up the deposit; the assets grow by the deposit less
/// what the fee took out of the vault, and the premium is in the reserve.
pub proof fn law_deposit_is_accounted_for(v: Vault, from: Address, amount: int, now: u32)
    requires
        v.valid(),
        deposit_error(v, from, amount) is None,
    ensures
        insurance_premium(amount) + management_fee(v.settings, amount) + investable(
            v.settings,
            amount,
        ) == amount,
        v.settings.fee_recipient is None ==> after_deposit(
            v,
            from,
            amount,
            now,
        ).book.total_assets() == v.book.total_assets() + amount,
        v.settings.fee_recipient is Some && v.settings.fee_recipient != Some(v.settings.address)
            ==> after_deposit(v, from, amount, now).book.total_assets() == v.book.total_assets()
            + amount - management_fee(v.settings, amount),
        after_deposit(v, from, amount, now).book.insurance_reserve == v.book.insurance_reserve
            + insurance_premium(amount),
{
}

/// A deposit never lowers what the shares that were there before are worth.
pub proof fn law_deposit_keeps_share_value(v: Vault, from: Address, amount: int, now: u32)
    requires
        v.valid(),
        v.book.supply > 0,
        deposit_error(v, from, amount) is None,
    ensures
        after_deposit(v, from, amount, now).book.total_assets() * v.book.supply
            >= v.book.total_assets() * after_deposit(v, from, amount, now).book.supply,
{
    lemma_deposit_parts(v.settings, amount);
    lemma_deposit_valid(v, from, amount, now);
    let total = v.book.total_assets();
    let supply = v.book.supply;
    let bought = investable(v.settings, amount);
    let shares = deposit_shares(v, amount);
    let grown = after_deposit(v, from, amount, now).book.total_assets();
    assert(grown >= total + bought);
    if total > 0 {
        let product = bought * supply;
        assert(product >= 0) by (nonlinear_arith)
            requires
                product == bought * supply,
                bought >= 0,
                supply > 0,
        ;
        assert(total * shares <= product) by (nonlinear_arith)
            requires
                shares == product / total,
                total > 0,
        ;
        assert(grown * supply >= total * (supply + shares)) by (nonlinear_arith)
            requires
                grown >= total + bought,
                total * shares <= bought * supply,
                supply > 0,
        ;
    } else {
        assert(grown * supply >= 0 * (supply + shares)) by (nonlinear_arith)
            requires
                grown >= 0,
                supply > 0,
        ;
    }
}

/// The first deposit, where no fee is charged, buys shares that are worth the whole deposit: a
/// redemption of any part of them gives no more than was paid in, and the deposit would buy
/// the same shares again.
pub proof fn law_first_deposit_is_worth_itself(
    v: Vault,
    from: Address,
    amount: int,
    now: u32,
    shares: int,
)
    requires
        v.valid(),
        v.book.supply == 0,
        v.book.total_assets() == 0,
        management_fee(v.settings, amount) == 0,
        deposit_error(v, from, amount) is None,
        0 <= shares <= deposit_shares(v, amount),
    ensures
        deposit_shares(v, amount) == amount - insurance_premium(amount),
        after_deposit(v, from, amount, now).book.assets_for(deposit_shares(v, amount)) == amount,
        after_deposit(v, from, amount, now).book.shares_for(amount) == deposit_shares(v, amount),
        after_deposit(v, from, amount, now).book.assets_for(shares) <= amount,
{
    lemma_deposit_parts(v.settings, amount);
    lemma_deposit_valid(v, from, amount, now);
    let after = after_deposit(v, from, amount, now);
    law_whole_supply_is_worth_all_assets(after.book);
    lemma_worth(after, shares);
}

/// From its threshold on the tier's rate holds, below it the flat rate; without a tier the flat
/// rate holds for every deposit.
pub proof fn law_fee_tier(settings: Settings, amount: int)
    requires
        settings.tier_threshold >= 0,
    ensures
        settings.tier_threshold == 0 ==> fee_rate(settings, amount) == settings.management_fee_bps,
        settings.tier_threshold > 0 && amount >= settings.tier_threshold ==> fee_rate(
            settings,
            amount,
        ) == settings.tier_bps,
        amount < settings.tier_threshold ==> fee_rate(settings, amount)
            == settings.management_fee_bps,
{
}

// ---------------------------------------------------------------------------------------------
// Locks
// ---------------------------------------------------------------------------------------------

/// After a deposit the account's shares can neither be withdrawn nor transferred until the
/// window has passed, and from then on the lock is no obstacle.
pub proof fn law_deposit_locks(
    v: Vault,
    from: Address,
    amount: int,
    now: u32,
    to: Address,
    shares: int,
    later: u32,
)
    requires
        deposit_error(v, from, amount) is None,
    ensures
        later < now + v.settings.withdrawal_window ==> {
            &&& withdraw_error(after_deposit(v, from, amount, now), from, shares, later) is Some
            &&& shares >= MIN_WITHDRAW ==> withdraw_error(
                after_deposit(v, from, amount, now),
                from,
                shares,
                later,
            ) == Some(VaultError::DepositLocked)
            &&& transfer_error(after_deposit(v, from, amount, now), from, to, shares, later)
                is Some
        },
        later >= now + v.settings.withdrawal_window ==> {
            &&& withdraw_error(after_deposit(v, from, amount, now), from, shares, later) != Some(
                VaultError::DepositLocked,
            )
            &&& transfer_error(after_deposit(v, from, amount, now), from, to, shares, later)
                != Some(VaultError::DepositLocked)
        },
{
}

/// Shares that were transferred are locked where they arrived.
pub proof fn law_transfer_locks_receiver(
    v: Vault,
    from: Address,
    to: Address,
    moved: int,
    now: u32,
    shares: int,
    later: u32,
)
    requires
        transfer_error(v, from, to, moved, now) is None,
        later < now + v.settings.withdrawal_window,
        shares >= MIN_WITHDRAW,
    ensures
        withdraw_error(after_transfer(v, from, to, moved, now), to, shares, later) == Some(
            VaultError::DepositLocked,
        ),
{
}

/// A transfer moves shares and makes none: what one account loses the other gains, nobody else
/// is touched, and the supply stays.
pub proof fn law_transfer_moves_shares(
    v: Vault,
    from: Address,
    to: Address,
    shares: int,
    now: u32,
    other: Address,
)
    requires
        v.valid(),
        transfer_error(v, from, to, shares, now) is None,
        other != from,
        other != to,
    ensures
        from != to ==> after_transfer(v, from, to, shares, now).book.balance(from)
            == v.book.balance(from) - shares,
        from != to ==> after_transfer(v, from, to, shares, now).book.balance(to)
            == v.book.balance(to) + shares,
        from == to ==> after_transfer(v, from, to, shares, now).book.balance(to)
            == v.book.balance(to),
        after_transfer(v, from, to, shares, now).book.balance(other) == v.book.balance(other),
        after_transfer(v, from, to, shares, now).book.supply == v.book.supply,
{
    lemma_amount_within_sum(v.book.balances, from, to);
    lemma_amount_within_sum(v.book.balances, to, to);
}

// ---------------------------------------------------------------------------------------------
// Withdrawals
// ---------------------------------------------------------------------------------------------

/// A withdrawal never lowers what the shares that stay are worth.
pub proof fn law_withdraw_keeps_share_value(v: Vault, from: Address, shares: int, now: u32)
    requires
        v.valid(),
        withdraw_error(v, from, shares, now) is None,
    ensures
        after_withdraw(v, from, shares).book.total_assets() * v.book.supply
            >= v.book.total_assets() * after_withdraw(v, from, shares).book.supply,
{
    lemma_withdraw_valid(v, from, shares, now);
    let total = v.book.total_assets();
    let supply = v.book.supply;
    let worth = v.book.assets_for(shares);
    let left = after_withdraw(v, from, shares).book.total_assets();
    let product = shares * total;
    assert(product >= 0) by (nonlinear_arith)
        requires
            product == shares * total,
            shares >= 0,
            total >= 0,
    ;
    assert(worth * supply <= product) by (nonlinear_arith)
        requires
            worth == product / supply,
            supply > 0,
    ;
    lemma_worth(v, shares);
    assert(left * supply >= total * (supply - shares)) by (nonlinear_arith)
        requires
            left >= total - worth,
            worth * supply <= shares * total,
            supply > 0,
    ;
}

/// Below half utilization no withdrawal is refused for its size.
pub proof fn law_low_utilization_is_unlimited(v: Vault, from: Address, shares: int, now: u32)
    requires
        v.book.utilization() < LIMITED_FROM_BPS,
    ensures
        withdraw_error(v, from, shares, now) != Some(VaultError::WithdrawalLimitExceeded),
{
}

/// While withdrawals are limited those that are accepted are paid at once: only below that
/// utilization is anything queued.
pub proof fn law_limited_withdrawals_are_paid(v: Vault, from: Address, shares: int, now: u32)
    requires
        v.valid(),
        v.limited(),
        withdraw_error(v, from, shares, now) is None,
    ensures
        v.book.assets_for(shares) <= v.withdrawal_limit() <= v.book.liquid,
        pays_at_once(v, shares),
{
    lemma_step_bound(v.schedule, v.book.utilization());
    let liquid = v.book.liquid;
    let part = step_in_force(v.schedule, v.book.utilization()).liquid_bps as int;
    assert(liquid * part / 10_000 <= liquid) by (nonlinear_arith)
        requires
            liquid >= 0,
            0 <= part <= 10_000,
    ;
}

proof fn lemma_step_bound(schedule: Seq<LimitStep>, utilization: int)
    requires
        schedule.len() > 0,
        forall|i: int| 0 <= i < schedule.len() ==> (#[trigger] schedule[i]).liquid_bps <= BPS,
    ensures
        step_in_force(schedule, utilization).liquid_bps <= BPS,
    decreases schedule.len(),
{
    if !(schedule.len() <= 1 || schedule.last().from_bps <= utilization) {
        let init = schedule.drop_last();
        assert forall|i: int| 0 <= i < init.len() implies (#[trigger] init[i]).liquid_bps
            <= BPS by {
            assert(init[i] == schedule[i]);
        }
        lemma_step_bound(init, utilization);
    }
}

/// At a utilization of four fifths one withdrawal may take a quarter of the liquid USDC.
pub proof fn law_quarter_at_high_utilization(v: Vault)
    requires
        v.valid(),
        v.book.utilization() == HIGH_UTILIZATION_BPS,
    ensures
        v.limited(),
        v.withdrawal_limit() == v.book.liquid / 4,
{
    assert(v.limit_scaled() == v.book.liquid * 2_500);
}

/// The step in force starts no later than the utilization, and no later step does.
pub proof fn law_step_in_force_is_the_last(schedule: Seq<LimitStep>, utilization: int, i: int)
    requires
        schedule_ordered(schedule),
        utilization >= LIMITED_FROM_BPS,
        0 <= i < schedule.len(),
        schedule[i].from_bps <= utilization,
        i + 1 < schedule.len() ==> utilization < schedule[i + 1].from_bps,
    ensures
        step_in_force(schedule, utilization) == schedule[i],
    decreases schedule.len(),
{
    if i < schedule.len() - 1 {
        let init = schedule.drop_last();
        assert(schedule[i + 1].from_bps <= schedule.last().from_bps);
        assert(init[0] == schedule[0]);
        assert forall|a: int, b: int|
            0 <= a < b < init.len() implies (#[trigger] init[a]).from_bps < (
        #[trigger] init[b]).from_bps by {
            assert(init[a] == schedule[a] && init[b] == schedule[b]);
        }
        assert forall|a: int| 0 <= a < init.len() implies (#[trigger] init[a]).liquid_bps
            <= BPS by {
            assert(init[a] == schedule[a]);
        }
        law_step_in_force_is_the_last(init, utilization, i);
    }
}

// ---------------------------------------------------------------------------------------------
// Queued redemptions
// ---------------------------------------------------------------------------------------------

proof fn lemma_owed_monotonic(queue: Seq<QueuedClaim>, fewer: int, more: int)
    requires
        0 <= fewer <= more <= queue.len(),
        forall|i: int| 0 <= i < queue.len() ==> (#[trigger] queue[i]).owed > 0,
    ensures
        owed_total(queue.take(fewer)) <= owed_total(queue.take(more)),
        fewer < more ==> owed_total(queue.take(fewer)) + queue[fewer].owed <= owed_total(
            queue.take(more),
        ),
    decreases more,
{
    if fewer < more {
        assert(queue.take(more).drop_last() =~= queue.take(more - 1));
        lemma_owed_monotonic(queue, fewer, more - 1);
    }
}

/// How many claims are paid follows from the queue and the liquid USDC alone.
pub proof fn law_settlement_is_determined(book: Book, one: int, other: int)
    requires
        book.valid(),
        settles(book, one),
        settles(book, other),
    ensures
        one == other,
{
    if one < other {
        lemma_owed_monotonic(book.queue, one, other);
    } else if other < one {
        lemma_owed_monotonic(book.queue, other, one);
    }
}

/// Claiming a second time pays nothing: whatever could be paid has been.
pub proof fn law_claim_is_idempotent(v: Vault, count: int, again: int)
    requires
        v.valid(),
        settles(v.book, count),
        settles(after_claims(v, count).book, again),
    ensures
        again == 0,
        owed_total(after_claims(v, count).book.queue.take(again)) == 0,
        after_claims(after_claims(v, count), again) == after_claims(v, count),
{
    let after = after_claims(v, count).book;
    if again > 0 {
        lemma_owed_monotonic(after.queue, 0, again);
        assert(after.queue.take(0) =~= Seq::empty());
        assert(after.queue[0] == v.book.queue[count]);
    }
    assert(after.queue.take(0) =~= Seq::empty());
    assert(after.queue.skip(0) =~= after.queue);
}

/// Once the liquid USDC covers the whole queue, a claim pays all of it: every redemption gets
/// what it was owed when its shares were burned.
pub proof fn law_covered_queue_is_paid(book: Book)
    requires
        owed_total(book.queue) <= book.liquid,
    ensures
        settles(book, book.queue.len() as int),
        book.queue.take(book.queue.len() as int) == book.queue,
{
    assert(book.queue.take(book.queue.len() as int) =~= book.queue);
}

/// A deposit that brings in enough lets the whole queue be paid.
pub proof fn law_deposit_lets_claims_through(v: Vault, from: Address, amount: int, now: u32)
    requires
        v.valid(),
        deposit_error(v, from, amount) is None,
        owed_total(v.book.queue) <= v.book.liquid + amount - management_fee(v.settings, amount),
    ensures
        after_deposit(v, from, amount, now).book.queue == v.book.queue,
        settles(after_deposit(v, from, amount, now).book, v.book.queue.len() as int),
{
    lemma_deposit_parts(v.settings, amount);
    law_covered_queue_is_paid(after_deposit(v, from, amount, now).book);
}

/// A queued withdrawal is owed what its shares were worth, behind those that waited before it.
pub proof fn law_queued_withdrawal_joins_the_end(v: Vault, from: Address, shares: int)
    requires
        !pays_at_once(v, shares),
        fits(v.book.assets_for(shares)),
    ensures
        after_withdraw(v, from, shares).book.queue.len() == v.book.queue.len() + 1,
        after_withdraw(v, from, shares).book.queue.drop_last() == v.book.queue,
        after_withdraw(v, from, shares).book.queue.last().to == from,
        after_withdraw(v, from, shares).book.queue.last().owed == v.book.assets_for(shares),
        after_withdraw(v, from, shares).book.liquid == v.book.liquid,
{
    assert(after_withdraw(v, from, shares).book.queue.drop_last() =~= v.book.queue);
}

// ---------------------------------------------------------------------------------------------
// Funding
// ---------------------------------------------------------------------------------------------

/// Funding moves money, it makes none: the assets change by the return expected alone, and the
/// insurance reserve is still in the vault.
pub proof fn law_funding_keeps_assets_and_reserve(
    v: Vault,
    request: FundingRequest,
    registry: RegistryInfo,
)
    requires
        v.valid(),
        funding_error(v, request, registry) is None,
    ensures
        after_funding(v, request, registry).book.total_assets() == v.book.total_assets()
            + registry.projects@[request.project_id - 1].expected_return,
        after_funding(v, request, registry).book.insurance_reserve == v.book.insurance_reserve,
        after_funding(v, request, registry).deployable() >= 0,
        after_funding(v, request, registry).book.investment(request.project_id)
            == v.book.investment(request.project_id) + request.amount,
{
    lemma_funding_valid(v, request, registry);
}

/// A batch moves in all what its fundings come to.
pub proof fn law_batch_funding_adds_up(
    v: Vault,
    requests: Seq<FundingRequest>,
    registry: RegistryInfo,
)
    ensures
        after_batch_funding(v, requests, registry).book.liquid == v.book.liquid - funded_total(
            requests,
        ),
        after_batch_funding(v, requests, registry).book.invested == v.book.invested
            + funded_total(requests),
    decreases requests.len(),
{
    if requests.len() > 0 {
        law_batch_funding_adds_up(v, requests.drop_last(), registry);
    }
}

/// In a batch that is not refused every project gets its amount, and no other project gets
/// anything.
pub proof fn law_batch_funding_reaches_each_project(
    v: Vault,
    requests: Seq<FundingRequest>,
    registry: RegistryInfo,
    project_id: u32,
)
    requires
        v.valid(),
        projects_distinct(requests),
        each_funding_error(v, requests, registry) is None,
    ensures
        after_batch_funding(v, requests, registry).valid(),
        forall|i: int|
            0 <= i < requests.len() && (#[trigger] requests[i]).project_id == project_id
                ==> after_batch_funding(v, requests, registry).book.investment(project_id)
                == v.book.investment(project_id) + requests[i].amount,
        (forall|i: int| 0 <= i < requests.len() ==> (#[trigger] requests[i]).project_id
            != project_id) ==> after_batch_funding(v, requests, registry).book.investment(
            project_id,
        ) == v.book.investment(project_id),
    decreases requests.len(),
{
    if requests.len() > 0 {
        let init = requests.drop_last();
        let last = requests.last();
        assert forall|i: int, j: int| 0 <= i < j < init.len() implies (
        #[trigger] init[i]).project_id != (#[trigger] init[j]).project_id by {
            assert(init[i] == requests[i] && init[j] == requests[j]);
        }
        law_batch_funding_reaches_each_project(v, init, registry, project_id);
        let before = after_batch_funding(v, init, registry);
        lemma_funding_valid(before, last, registry);
        let whole = after_batch_funding(v, requests, registry);
        if last.project_id == project_id {
            assert forall|i: int| 0 <= i < init.len() implies (#[trigger] init[i]).project_id
                != project_id by {
                assert(init[i] == requests[i]);
                assert(requests[i].project_id != requests[requests.len() - 1].project_id);
            }
        } else {
            assert(whole.book.investment(project_id) == before.book.investment(project_id));
            assert forall|i: int|
                0 <= i < requests.len() && (
            #[trigger] requests[i]).project_id == project_id implies whole.book.investment(
                project_id,
            ) == v.book.investment(project_id) + requests[i].amount by {
                assert(init[i] == requests[i]);
            }
            if forall|i: int| 0 <= i < requests.len() ==> (#[trigger] requests[i]).project_id
                != project_id {
                assert forall|i: int| 0 <= i < init.len() implies (#[trigger] init[i]).project_id
                    != project_id by {
                    assert(init[i] == requests[i]);
                }
            }
        }
    }
}

/// What a batch of fundings comes to.
pub open spec fn funded_total(requests: Seq<FundingRequest>) -> int
    decreases requests.len(),
{
    if requests.len() == 0 {
        0
    } else {
        funded_total(requests.drop_last()) + requests.last().amount
    }
}

/// Forgetting empty investments changes no amount that can be asked for.
pub proof fn law_compaction_keeps_amounts(v: Vault, project_id: u32)
    ensures
        after_compaction(v).book.investment(project_id) == v.book.investment(project_id),
        after_compaction(v).book.total_assets() == v.book.total_assets(),
{
}

// ---------------------------------------------------------------------------------------------
// Money
// ---------------------------------------------------------------------------------------------

/// What payments bring into the vault, less what they take out.
pub open spec fn net_flow(payments: Seq<Payment>, vault: Address) -> int
    decreases payments.len(),
{
    if payments.len() == 0 {
        0
    } else {
        let last = payments.last();
        net_flow(payments.drop_last(), vault) + (if last.to == vault {
            last.amount as int
        } else {
            0
        }) - (if last.from == vault {
            last.amount as int
        } else {
            0
        })
    }
}

/// The vault's liquid USDC changes by what the payments of a deposit bring in.
pub proof fn law_deposit_payments_balance(v: Vault, from: Address, amount: int, now: u32)
    requires
        v.valid(),
        deposit_error(v, from, amount) is None,
    ensures
        after_deposit(v, from, amount, now).book.liquid == v.book.liquid + net_flow(
            deposit_payments(v, from, amount),
            v.settings.address,
        ),
{
    lemma_deposit_parts(v.settings, amount);
    let payments = deposit_payments(v, from, amount);
    let paid_in = seq![Payment { from, to: v.settings.address, amount: amount as i128 }];
    assert(paid_in.drop_last() =~= Seq::empty());
    assert(net_flow(Seq::<Payment>::empty(), v.settings.address) == 0);
    assert(net_flow(paid_in, v.settings.address) == amount);
    if payments.len() == 2 {
        assert(payments.drop_last() =~= paid_in);
    }
}

/// The vault's liquid USDC changes by what the payments of a withdrawal take out.
pub proof fn law_withdraw_payments_balance(v: Vault, from: Address, shares: int, now: u32)
    requires
        v.valid(),
        withdraw_error(v, from, shares, now) is None,
    ensures
        after_withdraw(v, from, shares).book.liquid == v.book.liquid + net_flow(
            withdraw_payments(v, from, shares),
            v.settings.address,
        ),
{
    lemma_withdraw_valid(v, from, shares, now);
    lemma_worth(v, shares);
    let payments = withdraw_payments(v, from, shares);
    if payments.len() > 0 {
        assert(payments.drop_last() =~= Seq::empty());
        assert(net_flow(payments.drop_last(), v.settings.address) == 0);
    }
}

/// The vault's liquid USDC changes by what the payments of a claim take out.
pub proof fn law_claim_payments_balance(v: Vault, count: int)
    requires
        v.valid(),
        settles(v.book, count),
    ensures
        after_claims(v, count).book.liquid == v.book.liquid + net_flow(
            claim_payments(v, count),
            v.settings.address,
        ),
{
    lemma_claim_flow(v, count);
}

proof fn lemma_claim_flow(v: Vault, count: int)
    requires
        0 <= count <= v.book.queue.len(),
        forall|i: int|
            0 <= i < v.book.queue.len() ==> (#[trigger] v.book.queue[i]).to != v.settings.address,
    ensures
        net_flow(claim_payments(v, count), v.settings.address) == -owed_total(
            v.book.queue.take(count),
        ),
    decreases count,
{
    if count > 0 {
        lemma_claim_flow(v, count - 1);
        assert(claim_payments(v, count).drop_last() =~= claim_payments(v, count - 1));
        assert(v.book.queue.take(count).drop_last() =~= v.book.queue.take(count - 1));
        assert(v.book.queue.take(count).last() == v.book.queue[count - 1]);
    } else {
        assert(claim_payments(v, 0) =~= Seq::empty());
        assert(v.book.queue.take(0) =~= Seq::empty());
    }
}

/// The vault's liquid USDC changes by what funding a project takes out.
pub proof fn law_funding_payment_balances(
    v: Vault,
    request: FundingRequest,
    registry: RegistryInfo,
)
    requires
        funding_error(v, request, registry) is None,
    ensures
        after_funding(v, request, registry).book.liquid == v.book.liquid + net_flow(
            seq![funding_payment(v, request, registry)],
            v.settings.address,
        ),
{
    let payments = seq![funding_payment(v, request, registry)];
    assert(payments.drop_last() =~= Seq::empty());
    assert(net_flow(payments.drop_last(), v.settings.address) == 0);
}

/// A flash loan that is repaid leaves the vault with at least what it had.
pub proof fn law_flash_loan_never_costs(v: Vault, amount: int)
    requires
        v.valid(),
        flash_loan_error(v, amount) is None,
    ensures
        after_flash_loan(v, amount).book.total_assets() == v.book.total_assets() + flash_loan_fee(
            v.settings,
            amount,
        ),
        after_flash_loan(v, amount).book.total_assets() >= v.book.total_assets(),
{
    lemma_flash_loan_valid(v, amount);
}

// ---------------------------------------------------------------------------------------------
// Access
// ---------------------------------------------------------------------------------------------

/// State that another version wrote stops deposits, withdrawals, claims, transfers, fundings and
/// flash loans, whatever they ask for.
pub proof fn law_stale_state_stops_requests(
    v: Vault,
    from: Address,
    to: Address,
    amount: int,
    now: u32,
    deposits: Seq<(Address, i128)>,
    request: FundingRequest,
    requests: Seq<FundingRequest>,
    approving: Seq<Address>,
    registry: RegistryInfo,
)
    requires
        !v.current(),
    ensures
        deposit_error(v, from, amount) is Some,
        batch_deposit_error(v, deposits, now) is Some,
        withdraw_error(v, from, amount, now) == Some(VaultError::StaleState),
        claim_error(v) == Some(VaultError::StaleState),
        transfer_error(v, from, to, amount, now) == Some(VaultError::StaleState),
        funding_error(v, request, registry) == Some(VaultError::StaleState),
        batch_funding_error(v, requests, approving, registry) == Some(VaultError::StaleState),
        flash_loan_error(v, amount) == Some(VaultError::StaleState),
{
    if deposits.len() > 0 {
        lemma_first_refused(v, deposits, now);
    }
}

/// Taking a pause back leaves the vault as it was before the pause.
pub proof fn law_unpause_undoes_pause(v: Vault)
    requires
        !v.settings.paused,
    ensures
        ({
            let paused = with_settings(v, Settings { paused: true, ..v.settings });
            with_settings(paused, Settings { paused: false, ..paused.settings }) == v
        }),
{
}

/// An offer of the ownership that was accepted in time makes the offered account owner and is
/// open to no other; one that was taken back is open to nobody.
pub proof fn law_ownership_passes_in_two_steps(
    v: Vault,
    new_owner: Address,
    live_until_ledger: u32,
    now: u32,
    max_live_until: u32,
    caller: Address,
    later: u32,
)
    requires
        transfer_ownership_error(
            v,
            v.settings.owner,
            new_owner,
            live_until_ledger,
            now,
            max_live_until,
        ) is None,
    ensures
        ({
            let offered = Vault {
                settings: Settings {
                    pending_owner: pending_after(new_owner, live_until_ledger),
                    ..v.settings
                },
                ..v
            };
            &&& offered.settings.owner == v.settings.owner
            &&& live_until_ledger == 0 ==> accept_ownership_error(offered, caller, later) == Some(
                VaultError::NoPendingTransfer,
            )
            &&& live_until_ledger > 0 ==> (accept_ownership_error(offered, caller, later) is None
                <==> caller == new_owner && later <= live_until_ledger)
        }),
{
}

} // verus!
