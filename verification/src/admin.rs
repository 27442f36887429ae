//! What the vault is set to, who may change it, and what can be read from it.

use soroban_sdk::BytesN;
use vstd::prelude::*;

use crate::error::VaultError;
use crate::host::{bytes_of, to_array};
use crate::model::Vault;
use crate::types::{
    Address, Event, OwnerRequest, Payment, Receipt, Settings, TokenInfo, MAX_MANAGEMENT_FEE_BPS,
    MAX_THRESHOLD, SHARE_DECIMALS, STATE_VERSION,
};
use crate::vault::{emitter_set, InvestmentVault};

verus! {

/// A vault with other settings.
pub open spec fn with_settings(v: Vault, settings: Settings) -> Vault {
    Vault { settings, ..v }
}

/// The refusal of a request that fails a test.
pub open spec fn refused_if(failed: bool, error: VaultError) -> Option<VaultError> {
    if failed {
        Some(error)
    } else {
        None
    }
}

/// What a request to change settings comes to: it is refused to anybody but the one account it
/// is reserved to, then for the reason given, if there is one; else the vault has the new
/// settings, nothing is paid, and the events are announced.
pub open spec fn changes_settings(
    before: Vault,
    after: Vault,
    allowed: bool,
    refusal: Option<VaultError>,
    settings: Settings,
    events: Seq<Event>,
    result: Result<Receipt<()>, VaultError>,
) -> bool {
    if !allowed {
        result == Err::<Receipt<()>, VaultError>(VaultError::Unauthorized) && after == before
    } else if refusal is Some {
        result == Err::<Receipt<()>, VaultError>(refusal->0) && after == before
    } else {
        &&& result is Ok
        &&& after == with_settings(before, settings)
        &&& result->Ok_0.payments@ == Seq::<Payment>::empty()
        &&& result->Ok_0.events@ == events
    }
}

/// The receipt of a request that pays nothing and announces nothing.
fn quiet_receipt() -> (receipt: Receipt<()>)
    ensures
        receipt.payments@ == Seq::<Payment>::empty(),
        receipt.events@ == Seq::<Event>::empty(),
{
    Receipt { value: (), payments: Vec::new(), events: Vec::new() }
}

/// The receipt of a request that pays nothing and announces one event.
fn announcement(event: Event) -> (receipt: Receipt<()>)
    ensures
        receipt.payments@ == Seq::<Payment>::empty(),
        receipt.events@ == seq![event],
{
    let mut events: Vec<Event> = Vec::new();
    events.push(event);
    assert(events@ =~= seq![event]);
    Receipt { value: (), payments: Vec::new(), events }
}

/// Whether two byte strings are the same.
fn same_bytes(left: &[u8; 32], right: &[u8; 32]) -> (same: bool)
    ensures
        same == (left@ == right@),
{
    let mut i: usize = 0;
    while i < 32
        invariant
            i <= 32,
            forall|j: int| 0 <= j < i ==> left@[j] == right@[j],
        decreases 32 - i,
    {
        if left[i] != right[i] {
            assert(left@[i as int] != right@[i as int]);
            return false;
        }
        i = i + 1;
    }
    assert(left@ =~= right@);
    true
}

/// One more on the list is one more in the set.
proof fn lemma_emitter_push(list: Seq<(u32, [u8; 32])>, entry: (u32, [u8; 32]))
    ensures
        emitter_set(list.push(entry)) == emitter_set(list).insert((entry.0, entry.1@)),
{
    let longer = list.push(entry);
    let target = emitter_set(list).insert((entry.0, entry.1@));
    assert forall|e: (u32, Seq<u8>)| emitter_set(longer).contains(e) <==> target.contains(e) by {
        if emitter_set(longer).contains(e) {
            let i = choose|i: int|
                0 <= i < longer.len() && (#[trigger] longer[i]).0 == e.0 && longer[i].1@ == e.1;
            if i < list.len() {
                assert(list[i] == longer[i]);
            }
        }
        if emitter_set(list).contains(e) {
            let i = choose|i: int|
                0 <= i < list.len() && (#[trigger] list[i]).0 == e.0 && list[i].1@ == e.1;
            assert(longer[i] == list[i]);
        }
        if e == (entry.0, entry.1@) {
            assert(longer[list.len() as int] == entry);
        }
    }
    assert(emitter_set(longer) =~= target);
}

impl InvestmentVault {
    /// Sets the management fee on deposits and who receives it.
    pub fn set_management_fee(
        &mut self,
        caller: Address,
        bps: u32,
        recipient: Address,
    ) -> (result: Result<Receipt<()>, VaultError>)
        requires
            old(self).wf(),
        ensures
            final(self).wf(),
            changes_settings(
                old(self)@,
                final(self)@,
                caller == old(self)@.settings.owner,
                refused_if(bps > MAX_MANAGEMENT_FEE_BPS, VaultError::FeeAboveCap),
                Settings {
                    management_fee_bps: bps,
                    fee_recipient: Some(recipient),
                    ..old(self)@.settings
                },
                seq![Event::ManagementFeeSet { bps, recipient }],
                result,
            ),
    {
        if let Err(error) = self.authorize(caller, OwnerRequest::SetManagementFee) {
            return Err(error);
        }
        if bps > MAX_MANAGEMENT_FEE_BPS {
            return Err(VaultError::FeeAboveCap);
        }
        self.settings.management_fee_bps = bps;
        self.settings.fee_recipient = Some(recipient);
        Ok(announcement(Event::ManagementFeeSet { bps, recipient }))
    }

    /// Sets another rate for deposits from a threshold on. A threshold of zero removes the
    /// tier; so does one below zero.
    pub fn set_volume_fee_tier(
        &mut self,
        caller: Address,
        threshold: i128,
        bps: u32,
    ) -> (result: Result<Receipt<()>, VaultError>)
        requires
            old(self).wf(),
        ensures
            final(self).wf(),
            changes_settings(
                old(self)@,
                final(self)@,
                caller == old(self)@.settings.owner,
                refused_if(threshold > 0 && bps > MAX_MANAGEMENT_FEE_BPS, VaultError::FeeAboveCap),
                Settings {
                    tier_threshold: (if threshold > 0 { threshold } else { 0 }),
                    tier_bps: (if threshold > 0 { bps } else { 0 }),
                    ..old(self)@.settings
                },
                Seq::empty(),
                result,
            ),
    {
        if let Err(error) = self.authorize(caller, OwnerRequest::SetVolumeFeeTier) {
            return Err(error);
        }
        if threshold > 0 && bps > MAX_MANAGEMENT_FEE_BPS {
            return Err(VaultError::FeeAboveCap);
        }
        if threshold > 0 {
            self.settings.tier_threshold = threshold;
            self.settings.tier_bps = bps;
        } else {
            self.settings.tier_threshold = 0;
            self.settings.tier_bps = 0;
        }
        Ok(quiet_receipt())
    }

    /// Sets the lowest credit quality and green impact of a project that is funded, each from
    /// 0 to 100.
    pub fn set_funding_thresholds(
        &mut self,
        caller: Address,
        credit_quality: u32,
        green_impact: u32,
    ) -> (result: Result<Receipt<()>, VaultError>)
        requires
            old(self).wf(),
        ensures
            final(self).wf(),
            changes_settings(
                old(self)@,
                final(self)@,
                caller == old(self)@.settings.owner,
                refused_if(
                    credit_quality > MAX_THRESHOLD || green_impact > MAX_THRESHOLD,
                    VaultError::InvalidThreshold,
                ),
                Settings {
                    min_credit_quality: credit_quality,
                    min_green_impact: green_impact,
                    ..old(self)@.settings
                },
                Seq::empty(),
                result,
            ),
    {
        if let Err(error) = self.authorize(caller, OwnerRequest::SetFundingThresholds) {
            return Err(error);
        }
        if credit_quality > MAX_THRESHOLD || green_impact > MAX_THRESHOLD {
            return Err(VaultError::InvalidThreshold);
        }
        self.settings.min_credit_quality = credit_quality;
        self.settings.min_green_impact = green_impact;
        Ok(quiet_receipt())
    }

    /// Turns to another registry. `registry_answer` is the number of projects that it gave when
    /// asked, if it answered at all.
    pub fn set_registry(
        &mut self,
        caller: Address,
        registry: Address,
        registry_answer: Option<u32>,
    ) -> (result: Result<Receipt<()>, VaultError>)
        requires
            old(self).wf(),
        ensures
            final(self).wf(),
            changes_settings(
                old(self)@,
                final(self)@,
                caller == old(self)@.settings.owner,
                refused_if(registry_answer is None, VaultError::InvalidRegistry),
                Settings { registry, ..old(self)@.settings },
                Seq::empty(),
                result,
            ),
    {
        if let Err(error) = self.authorize(caller, OwnerRequest::SetRegistry) {
            return Err(error);
        }
        if registry_answer.is_none() {
            return Err(VaultError::InvalidRegistry);
        }
        self.settings.registry = registry;
        Ok(quiet_receipt())
    }

    /// Sets the fee on flash loans, in basis points.
    pub fn set_flash_loan_fee(&mut self, caller: Address, bps: i128) -> (result: Result<
        Receipt<()>,
        VaultError,
    >)
        requires
            old(self).wf(),
        ensures
            final(self).wf(),
            changes_settings(
                old(self)@,
                final(self)@,
                caller == old(self)@.settings.owner,
                refused_if(bps < 0, VaultError::NegativeFlashLoanFee),
                Settings { flash_loan_fee_bps: bps, ..old(self)@.settings },
                Seq::empty(),
                result,
            ),
    {
        if let Err(error) = self.authorize(caller, OwnerRequest::SetFlashLoanFee) {
            return Err(error);
        }
        if bps < 0 {
            return Err(VaultError::NegativeFlashLoanFee);
        }
        self.settings.flash_loan_fee_bps = bps;
        Ok(quiet_receipt())
    }

    /// Opens secondary trading of the shares.
    pub fn enable_secondary_trading(&mut self, caller: Address) -> (result: Result<
        Receipt<()>,
        VaultError,
    >)
        requires
            old(self).wf(),
        ensures
            final(self).wf(),
            changes_settings(
                old(self)@,
                final(self)@,
                caller == old(self)@.settings.owner,
                None,
                Settings { trading_enabled: true, ..old(self)@.settings },
                seq![Event::SecondaryTradingEnabled],
                result,
            ),
    {
        if let Err(error) = self.authorize(caller, OwnerRequest::EnableSecondaryTrading) {
            return Err(error);
        }
        self.settings.trading_enabled = true;
        Ok(announcement(Event::SecondaryTradingEnabled))
    }

    /// Stops deposits.
    pub fn pause(&mut self, caller: Address) -> (result: Result<Receipt<()>, VaultError>)
        requires
            old(self).wf(),
        ensures
            final(self).wf(),
            changes_settings(
                old(self)@,
                final(self)@,
                caller == old(self)@.settings.owner,
                None,
                Settings { paused: true, ..old(self)@.settings },
                Seq::empty(),
                result,
            ),
    {
        if let Err(error) = self.authorize(caller, OwnerRequest::Pause) {
            return Err(error);
        }
        self.settings.paused = true;
        Ok(quiet_receipt())
    }

    /// Lets deposits in again.
    pub fn unpause(&mut self, caller: Address) -> (result: Result<Receipt<()>, VaultError>)
        requires
            old(self).wf(),
        ensures
            final(self).wf(),
            changes_settings(
                old(self)@,
                final(self)@,
                caller == old(self)@.settings.owner,
                None,
                Settings { paused: false, ..old(self)@.settings },
                Seq::empty(),
                result,
            ),
    {
        if let Err(error) = self.authorize(caller, OwnerRequest::Unpause) {
            return Err(error);
        }
        self.settings.paused = false;
        Ok(quiet_receipt())
    }

    /// Names the account that may pause the vault in the owner's place, or none.
    pub fn set_emergency_admin(
        &mut self,
        caller: Address,
        account: Option<Address>,
    ) -> (result: Result<Receipt<()>, VaultError>)
        requires
            old(self).wf(),
        ensures
            final(self).wf(),
            changes_settings(
                old(self)@,
                final(self)@,
                caller == old(self)@.settings.owner,
                None,
                Settings { emergency_admin: account, ..old(self)@.settings },
                Seq::empty(),
                result,
            ),
    {
        if let Err(error) = self.authorize(caller, OwnerRequest::SetEmergencyAdmin) {
            return Err(error);
        }
        self.settings.emergency_admin = account;
        Ok(quiet_receipt())
    }

    /// Brings state of the given version up to the present one.
    pub fn migrate_state(&mut self, caller: Address, from_version: u32) -> (result: Result<
        Receipt<()>,
        VaultError,
    >)
        requires
            old(self).wf(),
        ensures
            final(self).wf(),
            changes_settings(
                old(self)@,
                final(self)@,
                caller == old(self)@.settings.owner,
                refused_if(
                    from_version != old(self)@.settings.stored_version,
                    VaultError::VersionMismatch,
                ),
                Settings { stored_version: STATE_VERSION, ..old(self)@.settings },
                Seq::empty(),
                result,
            ),
    {
        if let Err(error) = self.authorize(caller, OwnerRequest::MigrateState) {
            return Err(error);
        }
        if from_version != self.settings.stored_version {
            return Err(VaultError::VersionMismatch);
        }
        self.settings.stored_version = STATE_VERSION;
        Ok(quiet_receipt())
    }

    /// Whether the account is the one that may pause the vault in the owner's place.
    fn is_emergency_admin(&self, account: Address) -> (result: bool)
        ensures
            result == (self@.settings.emergency_admin == Some(account)),
    {
        match self.settings.emergency_admin {
            Some(admin) => admin == account,
            None => false,
        }
    }

    /// Stops deposits, at the emergency admin's request.
    pub fn emergency_pause(&mut self, caller: Address) -> (result: Result<Receipt<()>, VaultError>)
        requires
            old(self).wf(),
        ensures
            final(self).wf(),
            changes_settings(
                old(self)@,
                final(self)@,
                old(self)@.settings.emergency_admin == Some(caller),
                None,
                Settings { paused: true, ..old(self)@.settings },
                Seq::empty(),
                result,
            ),
    {
        if !self.is_emergency_admin(caller) {
            return Err(VaultError::Unauthorized);
        }
        self.settings.paused = true;
        Ok(quiet_receipt())
    }

    /// Lets deposits in again, at the emergency admin's request.
    pub fn emergency_unpause(&mut self, caller: Address) -> (result: Result<
        Receipt<()>,
        VaultError,
    >)
        requires
            old(self).wf(),
        ensures
            final(self).wf(),
            changes_settings(
                old(self)@,
                final(self)@,
                old(self)@.settings.emergency_admin == Some(caller),
                None,
                Settings { paused: false, ..old(self)@.settings },
                Seq::empty(),
                result,
            ),
    {
        if !self.is_emergency_admin(caller) {
            return Err(VaultError::Unauthorized);
        }
        self.settings.paused = false;
        Ok(quiet_receipt())
    }

    /// Takes over the version that the stored state was written by, as the host read it.
    pub fn load_stored_version(&mut self, version: u32)
        requires
            old(self).wf(),
        ensures
            final(self).wf(),
            final(self)@ == with_settings(
                old(self)@,
                Settings { stored_version: version, ..old(self)@.settings },
            ),
    {
        self.settings.stored_version = version;
    }

    /// Sets how many ledgers shares stay locked. It is not reserved to the owner: who may ask for
    /// it is the host's to decide.
    pub fn set_withdrawal_window(&mut self, ledgers: u32)
        requires
            old(self).wf(),
        ensures
            final(self).wf(),
            final(self)@ == with_settings(
                old(self)@,
                Settings { withdrawal_window: ledgers, ..old(self)@.settings },
            ),
    {
        self.settings.withdrawal_window = ledgers;
    }

    /// Marks a bridge emitter of a chain as trusted, or no longer so.
    pub fn set_trusted_emitter(
        &mut self,
        caller: Address,
        chain_id: u32,
        emitter: &BytesN<32>,
        trusted: bool,
    ) -> (result: Result<Receipt<()>, VaultError>)
        requires
            old(self).wf(),
        ensures
            final(self).wf(),
            match result {
                Ok(receipt) => {
                    &&& caller == old(self)@.settings.owner
                    &&& final(self)@ == (Vault {
                        emitters: if trusted {
                            old(self)@.emitters.insert((chain_id, bytes_of(*emitter)))
                        } else {
                            old(self)@.emitters.remove((chain_id, bytes_of(*emitter)))
                        },
                        ..old(self)@
                    })
                    &&& receipt.payments@ == Seq::<Payment>::empty()
                    &&& receipt.events@ == seq![Event::TrustedEmitterSet { chain_id, trusted }]
                },
                Err(error) => {
                    &&& caller != old(self)@.settings.owner
                    &&& error == VaultError::Unauthorized
                    &&& final(self)@ == old(self)@
                },
            },
    {
        if let Err(error) = self.authorize(caller, OwnerRequest::SetTrustedEmitter) {
            return Err(error);
        }
        let ghost before = self@.emitters;
        let bytes: [u8; 32] = to_array(emitter);
        let ghost changed = (chain_id, bytes@);
        let ghost list = self.emitters@;
        let mut others: Vec<(u32, [u8; 32])> = Vec::new();
        let mut i: usize = 0;
        while i < self.emitters.len()
            invariant
                i <= list.len(),
                list == self.emitters@,
                changed == (chain_id, bytes@),
                emitter_set(others@) == emitter_set(list.take(i as int)).remove(changed),
            decreases list.len() - i,
        {
            let (chain, known): (u32, [u8; 32]) = self.emitters[i];
            proof {
                lemma_emitter_push(list.take(i as int), (chain, known));
                assert(list.take(i + 1) =~= list.take(i as int).push((chain, known)));
            }
            if chain != chain_id || !same_bytes(&known, &bytes) {
                proof {
                    lemma_emitter_push(others@, (chain, known));
                }
                others.push((chain, known));
            }
            assert(emitter_set(others@) =~= emitter_set(list.take(i + 1)).remove(changed));
            i = i + 1;
        }
        assert(list.take(i as int) =~= list);
        if trusted {
            proof {
                lemma_emitter_push(others@, (chain_id, bytes));
            }
            others.push((chain_id, bytes));
        }
        self.emitters = others;
        proof {
            if trusted {
                assert(self@.emitters =~= before.insert(changed));
            } else {
                assert(self@.emitters =~= before.remove(changed));
            }
        }
        Ok(announcement(Event::TrustedEmitterSet { chain_id, trusted }))
    }

    /// Whether a bridge emitter of a chain is trusted.
    pub fn is_trusted_emitter(&self, chain_id: u32, emitter: &BytesN<32>) -> (trusted: bool)
        ensures
            trusted == self@.emitters.contains((chain_id, bytes_of(*emitter))),
    {
        let bytes: [u8; 32] = to_array(emitter);
        let mut i: usize = 0;
        while i < self.emitters.len()
            invariant
                i <= self.emitters@.len(),
                bytes@ == bytes_of(*emitter),
                forall|j: int|
                    0 <= j < i ==> !((#[trigger] self.emitters@[j]).0 == chain_id
                        && self.emitters@[j].1@ == bytes@),
            decreases self.emitters@.len() - i,
        {
            if self.emitters[i].0 == chain_id && same_bytes(&self.emitters[i].1, &bytes) {
                assert(self.emitters@[i as int].0 == chain_id && self.emitters@[i as int].1@
                    == bytes@);
                return true;
            }
            i = i + 1;
        }
        false
    }

    /// The token that the vault takes.
    pub fn accepted_asset(&self) -> (value: Address)
        ensures
            value == self@.settings.asset,
    {
        self.settings.asset
    }

    /// The registry that the vault looks projects up in.
    pub fn get_registry(&self) -> (value: Address)
        ensures
            value == self@.settings.registry,
    {
        self.settings.registry
    }

    /// The management fee, in basis points.
    pub fn get_management_fee_bps(&self) -> (value: u32)
        ensures
            value == self@.settings.management_fee_bps,
    {
        self.settings.management_fee_bps
    }

    /// The volume tier: its threshold and its rate, zero and zero where there is none.
    pub fn get_volume_fee_tier(&self) -> (value: (i128, u32))
        ensures
            value == (self@.settings.tier_threshold, self@.settings.tier_bps),
    {
        (self.settings.tier_threshold, self.settings.tier_bps)
    }

    /// The lowest credit quality of a project that is funded.
    pub fn get_min_credit_quality(&self) -> (value: u32)
        ensures
            value == self@.settings.min_credit_quality,
    {
        self.settings.min_credit_quality
    }

    /// The lowest green impact of a project that is funded.
    pub fn get_min_green_impact(&self) -> (value: u32)
        ensures
            value == self@.settings.min_green_impact,
    {
        self.settings.min_green_impact
    }

    /// How many ledgers shares stay locked.
    pub fn get_withdrawal_window(&self) -> (value: u32)
        ensures
            value == self@.settings.withdrawal_window,
    {
        self.settings.withdrawal_window
    }

    /// The account that may pause the vault in the owner's place.
    pub fn get_emergency_admin(&self) -> (value: Option<Address>)
        ensures
            value == self@.settings.emergency_admin,
    {
        self.settings.emergency_admin
    }

    /// Whether deposits are stopped.
    pub fn is_paused(&self) -> (value: bool)
        ensures
            value == self@.settings.paused,
    {
        self.settings.paused
    }

    /// Whether the shares are traded.
    pub fn is_trading_enabled(&self) -> (value: bool)
        ensures
            value == self@.settings.trading_enabled,
    {
        self.settings.trading_enabled
    }

    /// The cap on the share supply.
    pub fn max_hbs_supply(&self) -> (value: i128)
        ensures
            value == self@.settings.max_hbs_supply,
    {
        self.settings.max_hbs_supply
    }

    /// The version of the state layout that this code works on.
    pub fn state_version(&self) -> (value: u32)
        ensures
            value == STATE_VERSION,
    {
        STATE_VERSION
    }

    /// The version that the stored state was written by.
    pub fn stored_state_version(&self) -> (value: u32)
        ensures
            value == self@.settings.stored_version,
    {
        self.settings.stored_version
    }

    /// The USDC that the vault holds, has invested and expects back.
    pub fn total_assets(&self) -> (value: i128)
        requires
            self.wf(),
        ensures
            value == self@.book.total_assets(),
    {
        self.accounts.total_assets()
    }

    /// The shares in circulation.
    pub fn total_supply(&self) -> (value: i128)
        ensures
            value == self@.book.supply,
    {
        self.accounts.supply
    }

    /// The shares of an account.
    pub fn balance(&self, account: Address) -> (value: i128)
        requires
            self.wf(),
        ensures
            value == self@.book.balance(account),
    {
        self.accounts.balance(account)
    }

    /// The shares that `amount` of USDC buys, before premium and fee.
    pub fn convert_to_shares(&self, amount: i128) -> (result: Result<i128, VaultError>)
        requires
            self.wf(),
        ensures
            match result {
                Ok(value) => {
                    &&& self@.book.shares_for_fits(amount as int)
                    &&& value == self@.book.shares_for(amount as int)
                },
                Err(error) => {
                    &&& !self@.book.shares_for_fits(amount as int)
                    &&& error == VaultError::Overflow
                },
            },
    {
        match self.accounts.shares_for(amount) {
            Some(value) => Ok(value),
            None => Err(VaultError::Overflow),
        }
    }

    /// The USDC that `shares` are worth.
    pub fn convert_to_assets(&self, shares: i128) -> (result: Result<i128, VaultError>)
        requires
            self.wf(),
        ensures
            match result {
                Ok(value) => {
                    &&& self@.book.assets_for_fits(shares as int)
                    &&& value == self@.book.assets_for(shares as int)
                },
                Err(error) => {
                    &&& !self@.book.assets_for_fits(shares as int)
                    &&& error == VaultError::Overflow
                },
            },
    {
        match self.accounts.assets_for(shares) {
            Some(value) => Ok(value),
            None => Err(VaultError::Overflow),
        }
    }

    /// The part of the assets that stands in projects, in basis points.
    pub fn get_utilization_bps(&self) -> (result: Result<i128, VaultError>)
        requires
            self.wf(),
        ensures
            match result {
                Ok(value) => {
                    &&& self@.book.utilization_fits()
                    &&& value == self@.book.utilization()
                },
                Err(error) => {
                    &&& !self@.book.utilization_fits()
                    &&& error == VaultError::Overflow
                },
            },
    {
        match self.accounts.utilization() {
            Some(value) => Ok(value),
            None => Err(VaultError::Overflow),
        }
    }

    /// The share token as a market sees it.
    pub fn get_hbs_token_info(&self) -> (info: TokenInfo)
        ensures
            info.name@ == "Heliobond Shares"@,
            info.symbol@ == "HBS"@,
            info.decimals == SHARE_DECIMALS,
            info.trading_enabled == self@.settings.trading_enabled,
    {
        TokenInfo {
            name: "Heliobond Shares".to_owned(),
            symbol: "HBS".to_owned(),
            decimals: SHARE_DECIMALS,
            trading_enabled: self.settings.trading_enabled,
        }
    }
}

} // verus!
