//! The vault: its parts, how it is set up, and whom it listens to.

use vstd::prelude::*;

use crate::accounts::Accounts;
use crate::error::VaultError;
use crate::model::{self, schedule_valid, step_in_force};
use crate::table::copied;
use crate::types::{
    Address, LimitStep, OwnerRequest, Settings, BPS, DEFAULT_WITHDRAWAL_WINDOW,
    HIGH_UTILIZATION_BPS, HIGH_UTILIZATION_LIMIT_BPS, LIMITED_FROM_BPS, MAX_DEPOSIT,
    MAX_SUPPLY_CAP, STATE_VERSION,
};

verus! {

/// An investment vault: it takes deposits of USDC against shares, funds projects with them, and
/// redeems the shares.
///
/// The host authenticates callers, tells the ledger's number and what other contracts answer,
/// and makes the payments that a receipt lists.
#[derive(Debug)]
pub struct InvestmentVault {
    pub(crate) settings: Settings,
    pub(crate) accounts: Accounts,
    pub(crate) schedule: Vec<LimitStep>,
    pub(crate) signers: Vec<Address>,
    pub(crate) approvals_needed: Option<u32>,
    pub(crate) emitters: Vec<(u32, [u8; 32])>,
}

/// The emitters of a list.
pub open spec fn emitter_set(list: Seq<(u32, [u8; 32])>) -> Set<(u32, Seq<u8>)> {
    Set::new(
        |emitter: (u32, Seq<u8>)|
            exists|i: int|
                0 <= i < list.len() && (#[trigger] list[i]).0 == emitter.0 && list[i].1@
                    == emitter.1,
    )
}

impl View for InvestmentVault {
    type V = model::Vault;

    open(crate) spec fn view(&self) -> model::Vault {
        model::Vault {
            settings: self.settings,
            book: self.accounts@,
            schedule: self.schedule@,
            signers: self.signers@.to_set(),
            approvals_needed: self.approvals_needed,
            emitters: emitter_set(self.emitters@),
        }
    }
}

/// The settings of a new vault.
pub open spec fn initial_settings(
    address: Address,
    admin: Address,
    asset: Address,
    registry: Address,
    max_hbs_supply: i128,
) -> Settings {
    Settings {
        address,
        owner: admin,
        pending_owner: None,
        emergency_admin: None,
        asset,
        registry,
        max_hbs_supply,
        stored_version: STATE_VERSION,
        paused: false,
        trading_enabled: false,
        management_fee_bps: 0,
        fee_recipient: None,
        tier_threshold: 0,
        tier_bps: 0,
        min_credit_quality: 0,
        min_green_impact: 0,
        withdrawal_window: DEFAULT_WITHDRAWAL_WINDOW,
        flash_loan_fee_bps: 0,
    }
}

/// The step of a schedule that is in force at a utilization.
pub(crate) fn step_at(schedule: &Vec<LimitStep>, utilization: i128) -> (step: LimitStep)
    requires
        schedule@.len() > 0,
    ensures
        step == step_in_force(schedule@, utilization as int),
{
    let mut i: usize = schedule.len() - 1;
    assert(schedule@.take(i + 1) =~= schedule@);
    while i > 0 && schedule[i].from_bps as i128 > utilization
        invariant
            i < schedule@.len(),
            step_in_force(schedule@.take(i + 1), utilization as int) == step_in_force(
                schedule@,
                utilization as int,
            ),
        decreases i,
    {
        assert(schedule@.take(i + 1).drop_last() =~= schedule@.take(i as int));
        i = i - 1;
    }
    assert(schedule@.take(i + 1).last() == schedule@[i as int]);
    schedule[i]
}

/// Whether a withdrawal schedule can be used.
fn check_schedule(schedule: &Vec<LimitStep>) -> (ok: bool)
    ensures
        ok == schedule_valid(schedule@),
{
    if schedule.len() == 0 {
        return false;
    }
    if schedule[0].from_bps != LIMITED_FROM_BPS || schedule[0].liquid_bps as i128 > BPS {
        return false;
    }
    let mut i: usize = 1;
    while i < schedule.len()
        invariant
            1 <= i <= schedule@.len(),
            schedule@[0].from_bps == LIMITED_FROM_BPS,
            forall|j: int, k: int|
                0 <= j < k < i ==> (#[trigger] schedule@[j]).from_bps < (
                #[trigger] schedule@[k]).from_bps,
            forall|j: int| 0 <= j < i ==> (#[trigger] schedule@[j]).liquid_bps <= BPS,
        decreases schedule@.len() - i,
    {
        if schedule[i].from_bps <= schedule[i - 1].from_bps || schedule[i].liquid_bps as i128
            > BPS {
            assert(schedule@[i - 1].from_bps >= schedule@[i as int].from_bps
                || schedule@[i as int].liquid_bps > BPS);
            return false;
        }
        i = i + 1;
    }
    step_at(schedule, HIGH_UTILIZATION_BPS as i128).liquid_bps == HIGH_UTILIZATION_LIMIT_BPS
}

impl InvestmentVault {
    /// What always holds of a vault.
    pub open(crate) spec fn wf(&self) -> bool {
        &&& self.accounts.wf()
        &&& self@.valid()
    }

    /// Sets up a vault. The cap on its share supply has to be above the largest deposit,
    /// and no higher than twenty such deposits reach.
    /// `registry_answer` is the number of projects that the registry gave when asked, if it
    /// answered at all: without an answer it is no registry.
    pub fn new(
        address: Address,
        admin: Address,
        asset: Address,
        registry: Address,
        registry_answer: Option<u32>,
        max_hbs_supply: i128,
        schedule: Vec<LimitStep>,
    ) -> (result: Result<Self, VaultError>)
        ensures
            match result {
                Ok(vault) => {
                    &&& registry_answer is Some
                    &&& MAX_DEPOSIT < max_hbs_supply <= MAX_SUPPLY_CAP
                    &&& schedule_valid(schedule@)
                    &&& vault.wf()
                    &&& vault@.settings == initial_settings(
                        address,
                        admin,
                        asset,
                        registry,
                        max_hbs_supply,
                    )
                    &&& vault@.book == (model::Book {
                        liquid: 0,
                        invested: 0,
                        expected_returns: 0,
                        insurance_reserve: 0,
                        supply: 0,
                        balances: Map::empty(),
                        locks: Map::empty(),
                        investments: Map::empty(),
                        queue: Seq::empty(),
                    })
                    &&& vault@.schedule == schedule@
                    &&& vault@.signers == Set::<Address>::empty()
                    &&& vault@.approvals_needed is None
                    &&& vault@.emitters == Set::<(u32, Seq<u8>)>::empty()
                },
                Err(VaultError::InvalidRegistry) => registry_answer is None,
                Err(error) => error == VaultError::InvalidLimits && registry_answer is Some && !(
                MAX_DEPOSIT < max_hbs_supply <= MAX_SUPPLY_CAP && schedule_valid(schedule@)),
            },
    {
        if registry_answer.is_none() {
            return Err(VaultError::InvalidRegistry);
        }
        if max_hbs_supply <= MAX_DEPOSIT || max_hbs_supply > MAX_SUPPLY_CAP || !check_schedule(
            &schedule,
        ) {
            return Err(VaultError::InvalidLimits);
        }
        let vault = InvestmentVault {
            settings: Settings {
                address,
                owner: admin,
                pending_owner: None,
                emergency_admin: None,
                asset,
                registry,
                max_hbs_supply,
                stored_version: STATE_VERSION,
                paused: false,
                trading_enabled: false,
                management_fee_bps: 0,
                fee_recipient: None,
                tier_threshold: 0,
                tier_bps: 0,
                min_credit_quality: 0,
                min_green_impact: 0,
                withdrawal_window: DEFAULT_WITHDRAWAL_WINDOW,
                flash_loan_fee_bps: 0,
            },
            accounts: Accounts::new(),
            schedule,
            signers: Vec::new(),
            approvals_needed: None,
            emitters: Vec::new(),
        };
        assert(vault@.signers =~= Set::<Address>::empty());
        assert(vault@.emitters =~= Set::<(u32, Seq<u8>)>::empty());
        Ok(vault)
    }

    /// A copy of the vault, to try a request on.
    pub fn duplicate(&self) -> (copy: Self)
        requires
            self.wf(),
        ensures
            copy.wf(),
            copy@ == self@,
    {
        InvestmentVault {
            settings: self.settings,
            accounts: self.accounts.duplicate(),
            schedule: copied(&self.schedule),
            signers: copied(&self.signers),
            approvals_needed: self.approvals_needed,
            emitters: copied(&self.emitters),
        }
    }

    /// Lets a request that is reserved to the owner pass only if the owner makes it.
    pub fn authorize(&self, caller: Address, request: OwnerRequest) -> (result: Result<
        (),
        VaultError,
    >)
        ensures
            result == if caller == self@.settings.owner {
                Ok::<(), VaultError>(())
            } else {
                Err(VaultError::Unauthorized)
            },
    {
        if caller == self.settings.owner {
            Ok(())
        } else {
            Err(VaultError::Unauthorized)
        }
    }
}

} // verus!
