//! Handing the vault over to another owner, in two steps.

use vstd::prelude::*;

use crate::admin::with_settings;
use crate::error::VaultError;
use crate::model::{accept_ownership_error, pending_after, transfer_ownership_error};
use crate::types::{Address, Event, Payment, PendingOwner, Receipt, Settings};
use crate::vault::InvestmentVault;

verus! {

impl InvestmentVault {
    /// Offers the ownership to another account, which may accept it up to the given ledger;
    /// zero in its place takes the offer back. `max_live_until` is the last ledger that the
    /// host keeps such an offer for.
    pub fn transfer_ownership(
        &mut self,
        caller: Address,
        new_owner: Address,
        live_until_ledger: u32,
        now: u32,
        max_live_until: u32,
    ) -> (result: Result<Receipt<()>, VaultError>)
        requires
            old(self).wf(),
        ensures
            final(self).wf(),
            match result {
                Ok(receipt) => {
                    &&& transfer_ownership_error(
                        old(self)@,
                        caller,
                        new_owner,
                        live_until_ledger,
                        now,
                        max_live_until,
                    ) is None
                    &&& final(self)@ == with_settings(
                        old(self)@,
                        Settings {
                            pending_owner: pending_after(new_owner, live_until_ledger),
                            ..old(self)@.settings
                        },
                    )
                    &&& receipt.payments@ == Seq::<Payment>::empty()
                    &&& receipt.events@ == seq![
                        Event::OwnershipTransfer {
                            old_owner: caller,
                            new_owner,
                            live_until_ledger,
                        },
                        Event::OwnershipTransferred { old_owner: caller, new_owner },
                    ]
                },
                Err(error) => {
                    &&& transfer_ownership_error(
                        old(self)@,
                        caller,
                        new_owner,
                        live_until_ledger,
                        now,
                        max_live_until,
                    ) == Some(error)
                    &&& final(self)@ == old(self)@
                },
            },
    {
        if caller != self.settings.owner {
            return Err(VaultError::Unauthorized);
        }
        if live_until_ledger == 0 {
            match self.settings.pending_owner {
                None => {
                    return Err(VaultError::NoPendingTransfer);
                },
                Some(pending) => {
                    if pending.account != new_owner {
                        return Err(VaultError::InvalidPendingAccount);
                    }
                },
            }
            self.settings.pending_owner = None;
        } else {
            if live_until_ledger < now || live_until_ledger > max_live_until {
                return Err(VaultError::InvalidLiveUntilLedger);
            }
            self.settings.pending_owner = Some(
                PendingOwner { account: new_owner, live_until_ledger },
            );
        }
        let offered = Event::OwnershipTransfer { old_owner: caller, new_owner, live_until_ledger };
        let announced = Event::OwnershipTransferred { old_owner: caller, new_owner };
        let mut events: Vec<Event> = Vec::new();
        events.push(offered);
        events.push(announced);
        assert(events@ =~= seq![offered, announced]);
        Ok(Receipt { value: (), payments: Vec::new(), events })
    }

    /// Takes up an offer of the ownership.
    pub fn accept_ownership(&mut self, caller: Address, now: u32) -> (result: Result<
        Receipt<()>,
        VaultError,
    >)
        requires
            old(self).wf(),
        ensures
            final(self).wf(),
            match result {
                Ok(receipt) => {
                    &&& accept_ownership_error(old(self)@, caller, now) is None
                    &&& final(self)@ == with_settings(
                        old(self)@,
                        Settings { owner: caller, pending_owner: None, ..old(self)@.settings },
                    )
                    &&& receipt.payments@ == Seq::<Payment>::empty()
                    &&& receipt.events@ == seq![
                        Event::OwnershipTransferCompleted { new_owner: caller },
                    ]
                },
                Err(error) => {
                    &&& accept_ownership_error(old(self)@, caller, now) == Some(error)
                    &&& final(self)@ == old(self)@
                },
            },
    {
        match self.settings.pending_owner {
            None => {
                return Err(VaultError::NoPendingTransfer);
            },
            Some(pending) => {
                if now > pending.live_until_ledger {
                    return Err(VaultError::TransferExpired);
                }
                if caller != pending.account {
                    return Err(VaultError::Unauthorized);
                }
            },
        }
        self.settings.owner = caller;
        self.settings.pending_owner = None;
        let completed = Event::OwnershipTransferCompleted { new_owner: caller };
        let mut events: Vec<Event> = Vec::new();
        events.push(completed);
        assert(events@ =~= seq![completed]);
        Ok(Receipt { value: (), payments: Vec::new(), events })
    }
}

} // verus!
