//! Funding projects: by the owner one at a time, or by the signers in a batch.

use vstd::prelude::*;

use crate::error::VaultError;
use crate::model::{
    after_batch_funding, after_compaction, after_funding, approvals, approved,
    batch_funding_error, each_funding_error, funding_error, funding_event, funding_payment,
    projects_distinct, Vault,
};
use crate::sums::{
    lemma_amount_within_sum, lemma_small_set, lemma_sum_insert, lemma_sum_nonzero, nonzero,
};
use crate::types::{
    Address, Event, FundingRequest, OwnerRequest, Payment, Receipt, RegistryInfo, STATE_VERSION,
};
use crate::vault::InvestmentVault;

verus! {

/// Funding that is not refused keeps what always holds of a vault.
pub proof fn lemma_funding_valid(v: Vault, request: FundingRequest, registry: RegistryInfo)
    requires
        v.valid(),
        funding_error(v, request, registry) is None,
    ensures
        after_funding(v, request, registry).valid(),
        0 <= v.book.investment(request.project_id) <= v.book.invested,
{
    let id = request.project_id as u64;
    lemma_amount_within_sum(v.book.investments, id, id);
    let amount = (v.book.investment(request.project_id) + request.amount) as i128;
    lemma_sum_insert(v.book.investments, id, amount);
}

/// Forgetting empty investments keeps what always holds of a vault.
pub proof fn lemma_compaction_valid(v: Vault)
    requires
        v.valid(),
    ensures
        after_compaction(v).valid(),
        v.book.investments.dom().len() <= u32::MAX,
{
    lemma_sum_nonzero(v.book.investments);
    lemma_small_set(v.book.investments.dom(), u32::MAX as nat);
    assert forall|id: u64| #[trigger]
        nonzero(v.book.investments).dom().contains(id) implies 1 <= id <= u32::MAX && nonzero(
        v.book.investments,
    )[id] >= 0 by {
        assert(v.book.investments.dom().contains(id));
    }
}

/// A batch is refused for the first funding in it that is refused.
proof fn lemma_batch_error(
    v: Vault,
    requests: Seq<FundingRequest>,
    count: int,
    registry: RegistryInfo,
)
    requires
        0 <= count <= requests.len(),
        each_funding_error(v, requests.take(count), registry) is Some,
    ensures
        each_funding_error(v, requests, registry) == each_funding_error(
            v,
            requests.take(count),
            registry,
        ),
    decreases requests.len(),
{
    if count == requests.len() {
        assert(requests.take(count) =~= requests);
    } else {
        assert(requests.drop_last().take(count) =~= requests.take(count));
        lemma_batch_error(v, requests.drop_last(), count, registry);
    }
}

/// Whether a list holds an address.
fn lists(list: &Vec<Address>, count: usize, account: Address) -> (found: bool)
    requires
        count <= list@.len(),
    ensures
        found == list@.take(count as int).contains(account),
{
    let mut i: usize = 0;
    while i < count
        invariant
            i <= count <= list@.len(),
            forall|j: int| 0 <= j < i ==> list@[j] != account,
        decreases count - i,
    {
        if list[i] == account {
            assert(list@.take(count as int)[i as int] == account);
            return true;
        }
        i = i + 1;
    }
    false
}

/// Whether no project is named twice.
fn distinct(requests: &Vec<FundingRequest>) -> (distinct: bool)
    ensures
        distinct == projects_distinct(requests@),
{
    let mut i: usize = 0;
    while i < requests.len()
        invariant
            i <= requests@.len(),
            forall|a: int, b: int|
                0 <= a < b < requests@.len() && a < i ==> (#[trigger] requests@[a]).project_id != (
                #[trigger] requests@[b]).project_id,
        decreases requests@.len() - i,
    {
        let mut j: usize = i + 1;
        while j < requests.len()
            invariant
                i < j <= requests@.len(),
                forall|b: int|
                    i < b < j ==> requests@[i as int].project_id != (
                    #[trigger] requests@[b]).project_id,
            decreases requests@.len() - j,
        {
            if requests[i].project_id == requests[j].project_id {
                assert(requests@[i as int].project_id == requests@[j as int].project_id);
                return false;
            }
            j = j + 1;
        }
        i = i + 1;
    }
    true
}

impl InvestmentVault {
    /// How many different signers are among those who approve.
    fn count_approvals(&self, approving: &Vec<Address>) -> (count: usize)
        ensures
            count == approvals(self@, approving@),
    {
        let ghost signers = self.signers@.to_set();
        let mut count: usize = 0;
        let mut i: usize = 0;
        assert(self.signers@.take(self.signers@.len() as int) =~= self.signers@);
        assert(approving@.take(0).to_set().intersect(signers) =~= Set::<Address>::empty());
        while i < approving.len()
            invariant
                i <= approving@.len(),
                count <= i,
                signers == self.signers@.to_set(),
                self.signers@.take(self.signers@.len() as int) == self.signers@,
                approving@.take(i as int).to_set().intersect(signers).finite(),
                count == approving@.take(i as int).to_set().intersect(signers).len(),
            decreases approving@.len() - i,
        {
            let account: Address = approving[i];
            let ghost before = approving@.take(i as int).to_set();
            let ghost after = approving@.take(i + 1).to_set();
            assert(after == before.insert(account)) by {
                assert(approving@.take(i + 1) =~= approving@.take(i as int).push(account));
                approving@.take(i as int).lemma_push_to_set_commute(account);
            }
            let known = lists(&self.signers, self.signers.len(), account);
            let repeated = lists(approving, i, account);
            if known && !repeated {
                assert(after.intersect(signers) =~= before.intersect(signers).insert(account));
                count = count + 1;
            } else {
                assert(after.intersect(signers) =~= before.intersect(signers));
            }
            i = i + 1;
        }
        assert(approving@.take(i as int) =~= approving@);
        count
    }

    /// Checks a funding and makes it.
    fn fund(&mut self, request: FundingRequest, registry: &RegistryInfo) -> (result: Result<
        (Payment, Event),
        VaultError,
    >)
        requires
            old(self).wf(),
        ensures
            final(self).wf(),
            match result {
                Ok((payment, event)) => {
                    &&& funding_error(old(self)@, request, *registry) is None
                    &&& final(self)@ == after_funding(old(self)@, request, *registry)
                    &&& payment == funding_payment(old(self)@, request, *registry)
                    &&& event == funding_event(request)
                },
                Err(error) => {
                    &&& funding_error(old(self)@, request, *registry) == Some(error)
                    &&& final(self)@ == old(self)@
                },
            },
    {
        let ghost v = self@;
        if self.settings.stored_version != STATE_VERSION {
            return Err(VaultError::StaleState);
        }
        if request.amount <= 0 {
            return Err(VaultError::AmountNotPositive);
        }
        if registry.paused {
            return Err(VaultError::RegistryPaused);
        }
        if request.project_id == 0 || request.project_id as usize > registry.projects.len() {
            return Err(VaultError::InvalidProject);
        }
        let project = registry.projects[request.project_id as usize - 1];
        if project.owner == self.settings.owner || project.owner == self.settings.address {
            return Err(VaultError::SelfFunding);
        }
        if project.credit_quality < self.settings.min_credit_quality {
            return Err(VaultError::CreditQualityBelowThreshold);
        }
        if project.green_impact < self.settings.min_green_impact {
            return Err(VaultError::GreenImpactBelowThreshold);
        }
        if request.amount > self.accounts.liquid - self.accounts.insurance_reserve {
            return Err(VaultError::InsufficientDeployable);
        }
        if project.expected_return as i128 > i128::MAX - self.accounts.total_assets() {
            return Err(VaultError::Overflow);
        }
        proof {
            lemma_funding_valid(v, request, *registry);
        }
        let amount: i128 = self.accounts.investment(request.project_id);
        self.accounts.liquid = self.accounts.liquid - request.amount;
        self.accounts.invested = self.accounts.invested + request.amount;
        self.accounts.expected_returns = self.accounts.expected_returns
            + project.expected_return as i128;
        self.accounts.investments.set(request.project_id as u64, amount + request.amount);
        assert(self@ == after_funding(v, request, *registry));
        Ok(
            (
                Payment {
                    from: self.settings.address,
                    to: project.owner,
                    amount: request.amount,
                },
                Event::ProjectFunded { project_id: request.project_id, amount: request.amount },
            ),
        )
    }

    /// Funds a project that the registry knows, at the owner's request. The insurance reserve
    /// stays in the vault.
    pub fn fund_project(
        &mut self,
        caller: Address,
        request: FundingRequest,
        registry: &RegistryInfo,
    ) -> (result: Result<Receipt<()>, VaultError>)
        requires
            old(self).wf(),
        ensures
            final(self).wf(),
            match result {
                Ok(receipt) => {
                    &&& caller == old(self)@.settings.owner
                    &&& funding_error(old(self)@, request, *registry) is None
                    &&& final(self)@ == after_funding(old(self)@, request, *registry)
                    &&& receipt.payments@ == seq![
                        funding_payment(old(self)@, request, *registry),
                    ]
                    &&& receipt.events@ == seq![funding_event(request)]
                },
                Err(error) => {
                    &&& if caller != old(self)@.settings.owner {
                        error == VaultError::Unauthorized
                    } else {
                        funding_error(old(self)@, request, *registry) == Some(error)
                    }
                    &&& final(self)@ == old(self)@
                },
            },
    {
        if let Err(error) = self.authorize(caller, OwnerRequest::FundProject) {
            return Err(error);
        }
        let (payment, event) = match self.fund(request, registry) {
            Ok(made) => made,
            Err(error) => {
                return Err(error);
            },
        };
        let mut payments: Vec<Payment> = Vec::new();
        payments.push(payment);
        let mut events: Vec<Event> = Vec::new();
        events.push(event);
        assert(payments@ =~= seq![payment]);
        assert(events@ =~= seq![event]);
        Ok(Receipt { value: (), payments, events })
    }

    /// Sets who may approve a batch of fundings, and how many of them have to.
    pub fn set_multisig_admin(
        &mut self,
        caller: Address,
        signers: Vec<Address>,
        approvals_needed: u32,
    ) -> (result: Result<Receipt<()>, VaultError>)
        requires
            old(self).wf(),
        ensures
            final(self).wf(),
            match result {
                Ok(receipt) => {
                    &&& caller == old(self)@.settings.owner
                    &&& final(self)@ == (Vault {
                        signers: signers@.to_set(),
                        approvals_needed: Some(approvals_needed),
                        ..old(self)@
                    })
                    &&& receipt.payments@ == Seq::<Payment>::empty()
                    &&& receipt.events@ == Seq::<Event>::empty()
                },
                Err(error) => {
                    &&& caller != old(self)@.settings.owner
                    &&& error == VaultError::Unauthorized
                    &&& final(self)@ == old(self)@
                },
            },
    {
        if let Err(error) = self.authorize(caller, OwnerRequest::SetMultisigAdmin) {
            return Err(error);
        }
        proof {
            vstd::seq_lib::seq_to_set_is_finite(signers@);
        }
        self.signers = signers;
        self.approvals_needed = Some(approvals_needed);
        Ok(Receipt { value: (), payments: Vec::new(), events: Vec::new() })
    }

    /// Funds several projects, one after another, once enough signers approve. Where one
    /// funding is refused, all are.
    pub fn batch_fund_projects(
        &mut self,
        requests: &Vec<FundingRequest>,
        approving: &Vec<Address>,
        registry: &RegistryInfo,
    ) -> (result: Result<Receipt<()>, VaultError>)
        requires
            old(self).wf(),
        ensures
            final(self).wf(),
            match result {
                Ok(receipt) => {
                    &&& batch_funding_error(old(self)@, requests@, approving@, *registry) is None
                    &&& final(self)@ == after_batch_funding(old(self)@, requests@, *registry)
                    &&& receipt.payments@ == Seq::new(
                        requests@.len(),
                        |i: int| funding_payment(old(self)@, requests@[i], *registry),
                    )
                    &&& receipt.events@ == requests@.map_values(
                        |request: FundingRequest| funding_event(request),
                    )
                },
                Err(error) => {
                    &&& batch_funding_error(old(self)@, requests@, approving@, *registry) == Some(
                        error,
                    )
                    &&& final(self)@ == old(self)@
                },
            },
    {
        let ghost v = self@;
        if self.settings.stored_version != STATE_VERSION {
            return Err(VaultError::StaleState);
        }
        let count: usize = self.count_approvals(approving);
        match self.approvals_needed {
            Some(needed) => {
                if (count as u64) < needed as u64 {
                    return Err(VaultError::InsufficientApprovals);
                }
            },
            None => {
                return Err(VaultError::InsufficientApprovals);
            },
        }
        if !distinct(requests) {
            return Err(VaultError::DuplicateProject);
        }
        let saved = self.accounts.duplicate();
        let mut payments: Vec<Payment> = Vec::new();
        let mut events: Vec<Event> = Vec::new();
        let mut i: usize = 0;
        while i < requests.len()
            invariant
                i <= requests@.len(),
                v == old(self)@,
                v.current(),
                approved(v, approving@),
                projects_distinct(requests@),
                v.valid(),
                saved.wf(),
                saved@ == v.book,
                self.wf(),
                self@ == after_batch_funding(v, requests@.take(i as int), *registry),
                self@.settings == v.settings,
                self@.schedule == v.schedule,
                self@.signers == v.signers,
                self@.approvals_needed == v.approvals_needed,
                self@.emitters == v.emitters,
                each_funding_error(v, requests@.take(i as int), *registry) is None,
                payments@.len() == i,
                forall|j: int|
                    0 <= j < i ==> #[trigger] payments@[j] == funding_payment(
                        v,
                        requests@[j],
                        *registry,
                    ),
                events@.len() == i,
                forall|j: int|
                    0 <= j < i ==> #[trigger] events@[j] == funding_event(requests@[j]),
            decreases requests@.len() - i,
        {
            assert(requests@.take(i + 1).drop_last() =~= requests@.take(i as int));
            match self.fund(requests[i], registry) {
                Ok((payment, event)) => {
                    payments.push(payment);
                    events.push(event);
                },
                Err(error) => {
                    self.accounts = saved;
                    proof {
                        lemma_batch_error(v, requests@, i + 1, *registry);
                    }
                    assert(self@ == v);
                    return Err(error);
                },
            }
            i = i + 1;
        }
        assert(requests@.take(i as int) =~= requests@);
        assert(payments@ =~= Seq::new(
            requests@.len(),
            |i: int| funding_payment(v, requests@[i], *registry),
        ));
        assert(events@ =~= requests@.map_values(|request: FundingRequest| funding_event(request)));
        Ok(Receipt { value: (), payments, events })
    }

    /// What stands in a project; zero where nothing does.
    pub fn get_project_investment(&self, project_id: u32) -> (amount: i128)
        requires
            self.wf(),
        ensures
            amount == self@.book.investment(project_id),
    {
        self.accounts.investment(project_id)
    }

    /// What stands in each of the given projects.
    pub fn get_project_investments_batch(&self, project_ids: &Vec<u32>) -> (amounts: Vec<i128>)
        requires
            self.wf(),
        ensures
            amounts@.len() == project_ids@.len(),
            forall|i: int|
                0 <= i < amounts@.len() ==> #[trigger] amounts@[i] == self@.book.investment(
                    project_ids@[i],
                ),
    {
        let mut amounts: Vec<i128> = Vec::new();
        let mut i: usize = 0;
        while i < project_ids.len()
            invariant
                self.wf(),
                i <= project_ids@.len(),
                amounts@.len() == i,
                forall|j: int|
                    0 <= j < i ==> #[trigger] amounts@[j] == self@.book.investment(project_ids@[j]),
            decreases project_ids@.len() - i,
        {
            amounts.push(self.accounts.investment(project_ids[i]));
            i = i + 1;
        }
        amounts
    }

    /// Every project that has an investment on the books, once, with what stands in it.
    pub fn get_all_project_investments(&self) -> (all: Vec<(u32, i128)>)
        requires
            self.wf(),
        ensures
            all@.len() == self@.book.investments.dom().len(),
            forall|i: int|
                0 <= i < all@.len() ==> self@.book.investments.dom().contains(
                    (#[trigger] all@[i]).0 as u64,
                ) && all@[i].1 == self@.book.investment(all@[i].0),
            forall|i: int, j: int|
                0 <= i < j < all@.len() ==> (#[trigger] all@[i]).0 != (#[trigger] all@[j]).0,
    {
        self.accounts.all_investments()
    }

    /// Forgets the investments that have come down to zero, and says how many there were.
    pub fn compact_storage(&mut self, caller: Address) -> (result: Result<Receipt<u32>, VaultError>)
        requires
            old(self).wf(),
        ensures
            final(self).wf(),
            match result {
                Ok(receipt) => {
                    &&& caller == old(self)@.settings.owner
                    &&& final(self)@ == after_compaction(old(self)@)
                    &&& receipt.value == old(self)@.book.investments.dom().len() - nonzero(
                        old(self)@.book.investments,
                    ).dom().len()
                    &&& receipt.payments@ == Seq::<Payment>::empty()
                    &&& receipt.events@ == Seq::<Event>::empty()
                },
                Err(error) => {
                    &&& caller != old(self)@.settings.owner
                    &&& error == VaultError::Unauthorized
                    &&& final(self)@ == old(self)@
                },
            },
    {
        let ghost v = self@;
        if let Err(error) = self.authorize(caller, OwnerRequest::CompactStorage) {
            return Err(error);
        }
        proof {
            lemma_compaction_valid(v);
        }
        let dropped: usize = self.accounts.investments.drop_zeros();
        assert(self@ == after_compaction(v));
        Ok(Receipt { value: dropped as u32, payments: Vec::new(), events: Vec::new() })
    }
}

} // verus!
