//! Scenarios of a vault, run beside a host with a real asset contract: what the vault's
//! receipts call for is paid there.

use investment_vault::error::VaultError;
use investment_vault::flash::{MockFailingReceiver, MockRepayingReceiver};
use investment_vault::types::{
    Event, FundingRequest, LimitStep, OwnerRequest, Payment, ProjectInfo, Receipt, RegistryInfo,
    MAX_DEPOSIT,
};
use investment_vault::vault::InvestmentVault;
use proptest::strategy::{Strategy, Union};
use proptest::test_runner::TestRunner;
use soroban_sdk::testutils::{Address as _, EnvTestConfig, Ledger as _};
use soroban_sdk::token::{StellarAssetClient, TokenClient};
use soroban_sdk::{Address, BytesN, Env};

struct TestSetup {
    env: Env,
    admin: Address,
    vault: InvestmentVault,
    vault_address: Address,
    usdc_sac: Address,
    registry: Address,
    projects: RegistryInfo,
    directory: Vec<Address>,
    events: Vec<Event>,
}

fn schedule() -> Vec<LimitStep> {
    vec![
        LimitStep { from_bps: 5_000, liquid_bps: 10_000 },
        LimitStep { from_bps: 8_000, liquid_bps: 2_500 },
    ]
}

fn place(directory: &mut Vec<Address>, address: &Address) -> u64 {
    for (i, known) in directory.iter().enumerate() {
        if known == address {
            return i as u64;
        }
    }
    directory.push(address.clone());
    directory.len() as u64 - 1
}

fn host() -> Env {
    let env = Env::new_with_config(EnvTestConfig { capture_snapshot_at_drop: false });
    env.mock_all_auths();
    env
}

fn setup_with(registry_answer: Option<u32>) -> Result<TestSetup, VaultError> {
    let env = host();
    let admin = Address::generate(&env);
    let registry = Address::generate(&env);
    let usdc_admin = Address::generate(&env);
    let usdc_sac = env.register_stellar_asset_contract_v2(usdc_admin.clone()).address();
    let vault_address = Address::generate(&env);
    let mut directory = Vec::new();
    let vault = InvestmentVault::new(
        place(&mut directory, &vault_address),
        place(&mut directory, &admin),
        place(&mut directory, &usdc_sac),
        place(&mut directory, &registry),
        registry_answer,
        10 * MAX_DEPOSIT,
        schedule(),
    )?;
    Ok(TestSetup {
        env,
        admin,
        vault,
        vault_address,
        usdc_sac,
        registry,
        projects: RegistryInfo { paused: false, projects: Vec::new() },
        directory,
        events: Vec::new(),
    })
}

fn setup() -> TestSetup {
    setup_with(Some(0)).unwrap()
}

fn mint_usdc(env: &Env, usdc_sac: &Address, to: &Address, amount: i128) {
    let asset_client = StellarAssetClient::new(env, usdc_sac);
    asset_client.mint(to, &amount);
}

impl TestSetup {
    fn generate(&self) -> Address {
        Address::generate(&self.env)
    }

    /// An account with that much USDC.
    fn investor(&self, amount: i128) -> Address {
        let investor = self.generate();
        mint_usdc(&self.env, &self.usdc_sac, &investor, amount);
        investor
    }

    fn id(&mut self, address: &Address) -> u64 {
        place(&mut self.directory, address)
    }

    fn now(&self) -> u32 {
        self.env.ledger().sequence()
    }

    fn advance(&self, ledgers: u32) {
        self.env.ledger().with_mut(|li| li.sequence_number += ledgers);
    }

    fn usdc(&self, account: &Address) -> i128 {
        TokenClient::new(&self.env, &self.usdc_sac).balance(account)
    }

    /// Pays what the receipt calls for and keeps its events.
    fn run<T>(&mut self, result: Result<Receipt<T>, VaultError>) -> Result<T, VaultError> {
        self.events = Vec::new();
        let receipt = result?;
        let token = TokenClient::new(&self.env, &self.usdc_sac);
        for payment in receipt.payments.iter() {
            token.transfer(
                &self.directory[payment.from as usize],
                &self.directory[payment.to as usize],
                &payment.amount,
            );
        }
        self.events = receipt.events;
        Ok(receipt.value)
    }

    fn try_deposit(&mut self, from: &Address, amount: i128) -> Result<i128, VaultError> {
        let (from, now) = (self.id(from), self.now());
        let result = self.vault.deposit(from, amount, now);
        self.run(result)
    }

    fn deposit(&mut self, from: &Address, amount: i128) -> i128 {
        self.try_deposit(from, amount).unwrap()
    }

    fn try_batch_deposit(
        &mut self,
        deposits: &[(Address, i128)],
    ) -> Result<Vec<i128>, VaultError> {
        let now = self.now();
        let list = deposits.iter().map(|(a, n)| (self.id(a), *n)).collect();
        let result = self.vault.batch_deposit(&list, now);
        self.run(result)
    }

    fn try_withdraw(&mut self, from: &Address, shares: i128) -> Result<i128, VaultError> {
        let (from, now) = (self.id(from), self.now());
        let result = self.vault.withdraw(from, shares, now);
        self.run(result)
    }

    fn withdraw(&mut self, from: &Address, shares: i128) -> i128 {
        self.try_withdraw(from, shares).unwrap()
    }

    fn claim(&mut self) -> i128 {
        let result = self.vault.claim();
        self.run(result).unwrap()
    }

    fn try_transfer(&mut self, from: &Address, to: &Address, n: i128) -> Result<(), VaultError> {
        let (from, to, now) = (self.id(from), self.id(to), self.now());
        let result = self.vault.transfer(from, to, n, now);
        self.run(result)
    }

    fn balance(&mut self, account: &Address) -> i128 {
        let account = self.id(account);
        self.vault.balance(account)
    }

    fn create_project(&mut self, creator: &Address) -> u32 {
        let owner = self.id(creator);
        self.projects.projects.push(ProjectInfo {
            owner,
            credit_quality: 0,
            green_impact: 0,
            expected_return: 0,
        });
        self.projects.projects.len() as u32
    }

    fn new_project(&mut self) -> u32 {
        let creator = self.generate();
        self.create_project(&creator)
    }

    fn update_impact_score(&mut self, project_id: u32, credit: u32, green: u32) {
        let project = &mut self.projects.projects[project_id as usize - 1];
        project.credit_quality = credit;
        project.green_impact = green;
    }

    fn try_fund_project_as(
        &mut self,
        caller: &Address,
        project_id: u32,
        amount: i128,
    ) -> Result<(), VaultError> {
        let caller = self.id(caller);
        let request = FundingRequest { project_id, amount };
        let result = self.vault.fund_project(caller, request, &self.projects);
        self.run(result)
    }

    fn try_fund_project(&mut self, project_id: u32, amount: i128) -> Result<(), VaultError> {
        let admin = self.admin.clone();
        self.try_fund_project_as(&admin, project_id, amount)
    }

    fn fund_project(&mut self, project_id: u32, amount: i128) {
        self.try_fund_project(project_id, amount).unwrap()
    }

    fn set_multisig_admin(&mut self, signers: &[Address], needed: u32) {
        let admin = self.admin_id();
        let list = signers.iter().map(|a| self.id(a)).collect();
        let result = self.vault.set_multisig_admin(admin, list, needed);
        self.run(result).unwrap()
    }

    fn try_batch_fund_projects(
        &mut self,
        requests: &[(u32, i128)],
        approving: &[Address],
    ) -> Result<(), VaultError> {
        let list = requests
            .iter()
            .map(|(project_id, amount)| FundingRequest {
                project_id: *project_id,
                amount: *amount,
            })
            .collect();
        let approving = approving.iter().map(|a| self.id(a)).collect();
        let result = self.vault.batch_fund_projects(&list, &approving, &self.projects);
        self.run(result)
    }

    fn admin_id(&mut self) -> u64 {
        let admin = self.admin.clone();
        self.id(&admin)
    }

    fn set_management_fee(&mut self, bps: u32, recipient: &Address) -> Result<(), VaultError> {
        let (admin, recipient) = (self.admin_id(), self.id(recipient));
        let result = self.vault.set_management_fee(admin, bps, recipient);
        self.run(result)
    }

    fn set_volume_fee_tier(&mut self, threshold: i128, bps: u32) -> Result<(), VaultError> {
        let admin = self.admin_id();
        let result = self.vault.set_volume_fee_tier(admin, threshold, bps);
        self.run(result)
    }

    fn set_funding_thresholds(&mut self, credit: u32, green: u32) -> Result<(), VaultError> {
        let admin = self.admin_id();
        let result = self.vault.set_funding_thresholds(admin, credit, green);
        self.run(result)
    }

    fn enable_secondary_trading(&mut self) {
        let admin = self.admin_id();
        let result = self.vault.enable_secondary_trading(admin);
        self.run(result).unwrap()
    }

    fn pause(&mut self) {
        let admin = self.admin_id();
        let result = self.vault.pause(admin);
        self.run(result).unwrap()
    }

    fn try_transfer_ownership(
        &mut self,
        caller: &Address,
        new_owner: &Address,
        live_until: u32,
    ) -> Result<(), VaultError> {
        let (caller, new_owner, now) = (self.id(caller), self.id(new_owner), self.now());
        let max = self.env.ledger().max_live_until_ledger();
        let result = self.vault.transfer_ownership(caller, new_owner, live_until, now, max);
        self.run(result)
    }
}

// Deposits and conversions

#[test]
fn test_first_deposit_mints_1_to_1_shares() {
    let mut s = setup();
    let amount = 1_000_0000000i128;
    let investor = s.investor(amount);

    let shares = s.deposit(&investor, amount);

    let investable = amount - amount * 50 / 10_000;
    assert_eq!(shares, investable);
    assert_eq!(s.balance(&investor), investable);
    assert_eq!(s.vault.total_supply(), investable);
    assert_eq!(shares, 995_0000000i128);
    assert_eq!(s.balance(&investor), 995_0000000i128);
    assert_eq!(s.vault.total_supply(), 995_0000000i128);
}

#[test]
fn test_vault_with_zero_supply() {
    let mut s = setup();

    let shares = s.vault.convert_to_shares(1_000_0000000i128).unwrap();
    assert_eq!(shares, 1_000_0000000i128);

    let assets = s.vault.convert_to_assets(1_000_0000000i128).unwrap();
    assert_eq!(assets, 0);

    let investor = s.investor(1_000_0000000i128);
    let minted_shares = s.deposit(&investor, 1_000_0000000i128);
    let expected = 1_000_0000000i128 - (1_000_0000000i128 * 50 / 10_000);
    assert_eq!(minted_shares, expected);
}

#[test]
fn test_withdraw_with_zero_supply_panics() {
    let mut s = setup();
    let investor = s.generate();
    assert!(s.try_withdraw(&investor, 10_0000000i128).is_err());
    assert_eq!(
        s.try_withdraw(&investor, 100_0000000i128),
        Err(VaultError::InsufficientShares)
    );
}

#[test]
fn test_zero_supply_edge_cases_are_handled_consistently() {
    let mut s = setup();
    let investor = s.generate();

    assert_eq!(s.vault.total_supply(), 0);
    assert_eq!(s.vault.total_assets(), 0);

    assert_eq!(s.vault.convert_to_assets(500_0000000i128), Ok(0));

    let result = s.try_withdraw(&investor, 10_0000000i128);
    assert!(result.is_err());

    assert_eq!(s.vault.total_supply(), 0);
    assert_eq!(s.vault.total_assets(), 0);
}

#[test]
fn test_deposit_proportional_after_first() {
    let mut s = setup();
    let amount = 1_000_0000000i128;
    let investor1 = s.investor(amount);
    let investor2 = s.investor(amount);

    s.deposit(&investor1, amount);
    let shares2 = s.deposit(&investor2, amount);

    let investable = amount - amount * 50 / 10_000;
    let expected_shares2 = investable * investable / amount;
    assert_eq!(shares2, expected_shares2);
    assert_eq!(shares2, 9_900_250_000);
    mint_usdc(&s.env, &s.usdc_sac, &investor1, 1_000_0000000i128);
    mint_usdc(&s.env, &s.usdc_sac, &investor2, 1_000_0000000i128);

    s.deposit(&investor1, 1_000_0000000i128);
    let shares2 = s.deposit(&investor2, 1_000_0000000i128);

    assert_eq!(shares2, 9_859_040_209i128);
}

#[test]
fn test_withdraw_returns_usdc() {
    let mut s = setup();
    let investor = s.investor(1_000_0000000i128);

    let shares = s.deposit(&investor, 1_000_0000000i128);
    s.advance(1);
    let returned = s.withdraw(&investor, shares);

    assert_eq!(returned, 1_000_0000000i128);
    assert_eq!(s.balance(&investor), 0);
    assert_eq!(s.usdc(&investor), 1_000_0000000i128);
}

#[test]
fn test_total_assets_after_deposit() {
    let mut s = setup();
    let investor = s.investor(500_0000000i128);
    s.deposit(&investor, 500_0000000i128);
    assert_eq!(s.vault.total_assets(), 500_0000000i128);
    assert_eq!(s.usdc(&s.vault_address), 500_0000000i128);
}

#[test]
fn test_batch_deposit_mints_for_each_investor() {
    let mut s = setup();
    let investor1 = s.investor(1_000_0000000i128);
    let investor2 = s.investor(500_0000000i128);

    let minted = s
        .try_batch_deposit(&[
            (investor1.clone(), 1_000_0000000i128),
            (investor2.clone(), 500_0000000i128),
        ])
        .unwrap();

    assert_eq!(minted.len(), 2);
    assert!(minted[0] > 0);
    assert!(minted[1] > 0);
    assert_eq!(s.balance(&investor1), minted[0]);
    assert_eq!(s.balance(&investor2), minted[1]);
}

#[test]
fn test_batch_deposit_empty_list_reverts() {
    let mut s = setup();
    let result = s.try_batch_deposit(&[]);
    assert!(result.is_err(), "batch_deposit() should revert on an empty investor list");
    assert_eq!(result, Err(VaultError::EmptyBatchDeposit));
}

#[test]
fn test_deposit_below_minimum_panics() {
    let mut s = setup();
    let investor = s.investor(10_0000000i128);
    assert_eq!(
        s.try_deposit(&investor, 10_0000000i128),
        Err(VaultError::DepositBelowMinimum)
    );
}

#[test]
fn test_deposit_at_minimum_succeeds() {
    let mut s = setup();
    let investor = s.investor(100_0000000i128);
    let shares = s.deposit(&investor, 100_0000000i128);
    assert!(shares > 0);
}

#[test]
fn test_deposit_rejects_zero_amount() {
    let mut s = setup();
    let investor = s.generate();
    let error = s.try_deposit(&investor, 0i128).unwrap_err();
    assert_eq!(error, VaultError::AmountNotPositive);
    assert_eq!(error.code(), Some(1));
}

#[test]
fn test_deposit_rejects_when_exceeding_max_hbs_supply() {
    let mut s = setup();
    assert!(s.vault.max_hbs_supply() > 0);

    let cap = s.vault.max_hbs_supply();
    let mut hit_cap = false;
    for _ in 0..20 {
        let investor = s.investor(MAX_DEPOSIT);
        let result = s.try_deposit(&investor, MAX_DEPOSIT);
        if result.is_err() {
            assert_eq!(result, Err(VaultError::SupplyCapExceeded));
            hit_cap = true;
            break;
        }
        assert!(s.vault.total_supply() <= cap);
    }
    assert!(hit_cap, "expected a deposit to eventually exceed MAX_HBS_SUPPLY");
    assert!(s.vault.total_supply() <= cap);
}

#[test]
fn test_deposit_blocked_when_vault_paused() {
    let mut s = setup();
    let investor = s.investor(1_000_0000000i128);
    s.pause();
    assert_eq!(s.try_deposit(&investor, 1_000_0000000i128), Err(VaultError::Paused));
}

#[test]
fn test_convert_to_shares_and_assets_roundtrip() {
    let mut s = setup();
    let investor = s.investor(1_000_0000000i128);
    s.deposit(&investor, 1_000_0000000i128);

    let preview_shares = s.vault.convert_to_shares(500_0000000i128).unwrap();
    let preview_assets = s.vault.convert_to_assets(preview_shares).unwrap();

    let diff = (preview_assets - 500_0000000i128).abs();
    assert!(diff <= 1, "roundtrip diff should be <= 1 stroop, got {}", diff);
}

#[test]
fn test_conversion_empty_vault_is_1_to_1() {
    let s = setup();
    for amount in [1i128, 100, 1_0000000, 100_0000000, 1_000_0000000] {
        assert_eq!(s.vault.convert_to_shares(amount), Ok(amount));
        assert_eq!(s.vault.convert_to_assets(amount), Ok(0));
    }
}

#[test]
fn test_conversion_roundtrip_never_favors_withdrawer() {
    let mut s = setup();
    let anchor = s.investor(1_000_0000000i128);
    s.deposit(&anchor, 1_000_0000000i128);

    let test_amounts = [1i128, 3, 7, 1_0000000, 100_0000000, 999_9999999, 1_000_0000000];
    for &amount in test_amounts.iter() {
        let shares = s.vault.convert_to_shares(amount).unwrap();
        let assets = s.vault.convert_to_assets(shares).unwrap();
        assert!(
            assets <= amount,
            "rounding favored withdrawer: amount={} assets={}",
            amount,
            assets
        );
        assert!(
            amount - assets <= 1,
            "roundtrip loss > 1 stroop: amount={} assets={}",
            amount,
            assets
        );
    }
}

#[test]
fn test_conversion_roundtrip_first_deposit_exact() {
    let s = setup();
    for amount in [1i128, 1_0000000, 500_0000000, 1_000_0000000] {
        assert_eq!(s.vault.convert_to_shares(amount), Ok(amount));
    }
}

#[test]
fn test_convert_to_shares_near_i128_max_overflows_visibly() {
    let mut s = setup();
    let seed = 1_000_0000000i128;
    let investor = s.investor(seed * 2);
    s.deposit(&investor, seed);

    let near_max = i128::MAX / 2 + 1;
    assert_eq!(s.vault.convert_to_shares(near_max), Err(VaultError::Overflow));
}

#[test]
fn test_convert_to_shares_near_i128_max_empty_vault_is_one_to_one() {
    let s = setup();
    let near_max = i128::MAX / 2;
    let shares = s.vault.convert_to_shares(near_max).unwrap();
    assert_eq!(shares, near_max, "empty-vault path must be exactly 1:1");
}

#[test]
fn test_vault_arithmetic_fuzz() {
    let amounts = (100_0000000i128..1_000_000_000_0000000i128,
        100_0000000i128..1_000_000_000_0000000i128);
    TestRunner::default()
        .run(&amounts, |(deposit_amount, withdraw_shares)| {
            let mut s = setup();
            let investor = s.investor(deposit_amount);

            let shares = s.deposit(&investor, deposit_amount);

            let assets = s.vault.convert_to_assets(shares).unwrap();
            assert_eq!(assets, deposit_amount);

            let shares_from_assets = s.vault.convert_to_shares(assets).unwrap();
            assert_eq!(shares_from_assets, shares);

            if withdraw_shares <= shares && withdraw_shares >= 100_0000000i128 {
                s.advance(1);
                let withdrawn = s.withdraw(&investor, withdraw_shares);
                assert!(withdrawn <= deposit_amount);
            }
            Ok(())
        })
        .unwrap();
}

#[test]
fn test_deposit_rejects_out_of_range_amounts_fuzz() {
    let amounts = Union::new(vec![
        (1i128..100_0000000i128).boxed(),
        (1_000_000_000_0000001i128..2_000_000_000_0000000i128).boxed(),
    ]);
    TestRunner::default()
        .run(&amounts, |amount| {
            let mut s = setup();
            let investor = s.investor(amount);
            let result = s.try_deposit(&investor, amount);
            assert!(result.is_err());
            Ok(())
        })
        .unwrap();
}

// Fees

#[test]
fn test_zero_fee_parity() {
    let mut s = setup();
    let fee_recipient = s.generate();

    s.set_management_fee(0, &fee_recipient).unwrap();
    assert_eq!(s.vault.get_management_fee_bps(), 0);

    let deposit_amount = 1_000_0000000i128;
    let investor = s.investor(deposit_amount);

    let shares = s.deposit(&investor, deposit_amount);

    let expected_investable = deposit_amount - deposit_amount * 50 / 10_000;
    assert_eq!(shares, expected_investable);

    assert_eq!(s.usdc(&fee_recipient), 0);
}

#[test]
fn test_nonzero_fee_accrual() {
    let mut s = setup();
    let fee_recipient = s.generate();

    s.set_management_fee(200, &fee_recipient).unwrap();
    assert_eq!(s.vault.get_management_fee_bps(), 200);

    let deposit_amount = 1_000_0000000i128;
    let investor = s.investor(deposit_amount);

    s.deposit(&investor, deposit_amount);

    let expected_fee = deposit_amount * 200 / 10_000;
    assert_eq!(s.usdc(&fee_recipient), expected_fee);
}

#[test]
fn test_fee_above_cap_panics() {
    let mut s = setup();
    let fee_recipient = s.generate();
    assert_eq!(s.set_management_fee(501, &fee_recipient), Err(VaultError::FeeAboveCap));
}

#[test]
fn test_management_fee_across_multiple_rate_changes() {
    let mut s = setup();
    let fee_recipient = s.generate();
    let deposit_amount = 1_000_0000000i128;

    s.set_management_fee(100, &fee_recipient).unwrap();
    let investor1 = s.investor(deposit_amount);
    s.deposit(&investor1, deposit_amount);

    let expected_fee_1 = deposit_amount * 100 / 10_000;
    assert_eq!(s.usdc(&fee_recipient), expected_fee_1);

    s.set_management_fee(300, &fee_recipient).unwrap();
    let investor2 = s.investor(deposit_amount);
    s.deposit(&investor2, deposit_amount);

    let expected_fee_2 = deposit_amount * 300 / 10_000;
    let cumulative_after_2 = expected_fee_1 + expected_fee_2;
    assert_eq!(s.usdc(&fee_recipient), cumulative_after_2);

    s.set_management_fee(50, &fee_recipient).unwrap();
    let investor3 = s.investor(deposit_amount);
    s.deposit(&investor3, deposit_amount);

    let expected_fee_3 = deposit_amount * 50 / 10_000;
    let cumulative_after_3 = cumulative_after_2 + expected_fee_3;
    assert_eq!(s.usdc(&fee_recipient), cumulative_after_3);

    s.set_management_fee(0, &fee_recipient).unwrap();
    let investor4 = s.investor(deposit_amount);
    s.deposit(&investor4, deposit_amount);

    assert_eq!(s.usdc(&fee_recipient), cumulative_after_3);
    assert_eq!(s.usdc(&s.vault_address), s.vault.total_assets());
}

#[test]
fn test_volume_fee_tier_applies_discount_for_large_deposits() {
    let mut s = setup();
    let fee_recipient = s.generate();

    s.set_management_fee(200, &fee_recipient).unwrap();

    let threshold = 500_0000000i128;
    s.set_volume_fee_tier(threshold, 50).unwrap();
    assert_eq!(s.vault.get_volume_fee_tier(), (threshold, 50u32));

    let small_deposit = 100_0000000i128;
    let small_investor = s.investor(small_deposit);
    s.deposit(&small_investor, small_deposit);
    let expected_small_fee = small_deposit * 200 / 10_000;
    assert_eq!(s.usdc(&fee_recipient), expected_small_fee);

    let large_deposit = 1_000_0000000i128;
    let large_investor = s.investor(large_deposit);
    s.deposit(&large_investor, large_deposit);
    let expected_large_fee = large_deposit * 50 / 10_000;
    assert_eq!(s.usdc(&fee_recipient), expected_small_fee + expected_large_fee);
}

#[test]
fn test_volume_fee_tier_disabled_reverts_to_flat_rate() {
    let mut s = setup();
    let fee_recipient = s.generate();

    s.set_management_fee(200, &fee_recipient).unwrap();
    s.set_volume_fee_tier(500_0000000i128, 50).unwrap();

    s.set_volume_fee_tier(0i128, 0).unwrap();
    assert_eq!(s.vault.get_volume_fee_tier(), (0i128, 0u32));

    let deposit = 1_000_0000000i128;
    let investor = s.investor(deposit);
    s.deposit(&investor, deposit);

    let expected_fee = deposit * 200 / 10_000;
    assert_eq!(s.usdc(&fee_recipient), expected_fee);
}

#[test]
fn test_volume_fee_tier_is_admin_only() {
    let mut s = setup();
    let stranger = s.generate();
    let stranger = s.id(&stranger);
    let result = s.vault.set_volume_fee_tier(stranger, 500_0000000i128, 50);
    assert_eq!(result, Err(VaultError::Unauthorized));
    assert_eq!(s.vault.get_volume_fee_tier(), (0, 0));
}

// Setting up

#[test]
fn test_initialize() {
    let s = setup();
    assert_eq!(s.vault.state_version(), 1);
    assert_eq!(s.vault.stored_state_version(), 1);
}

#[test]
fn test_vault_constructor_and_registry_reference_initial_state() {
    let mut s = setup();
    assert_eq!(s.projects.projects.len(), 0);

    let (usdc_sac, registry) = (s.usdc_sac.clone(), s.registry.clone());
    assert_eq!(s.vault.accepted_asset(), s.id(&usdc_sac));
    assert_eq!(s.vault.get_registry(), s.id(&registry));
    assert_eq!(s.vault.total_assets(), 0);
    assert_eq!(s.vault.total_supply(), 0);
    assert!(!s.vault.is_trading_enabled());

    let project_id = s.new_project();

    let investor = s.investor(1_000_0000000i128);
    let deposit_shares = s.deposit(&investor, 1_000_0000000i128);
    assert!(deposit_shares > 0);

    s.fund_project(project_id, 100_0000000i128);
    assert!(s.vault.total_assets() > 0);
}

#[test]
fn test_constructor_panics_with_invalid_registry() {
    assert_eq!(setup_with(None).err(), Some(VaultError::InvalidRegistry));
}

#[test]
fn test_get_registry_returns_initial_registry() {
    let mut s = setup();
    let registry = s.registry.clone();
    assert_eq!(s.vault.get_registry(), s.id(&registry));
}

#[test]
fn test_set_registry_updates_registry() {
    let mut s = setup();
    let new_registry = s.generate();
    let (admin, new_registry) = (s.admin_id(), s.id(&new_registry));
    s.vault.set_registry(admin, new_registry, Some(0)).unwrap();
    assert_eq!(s.vault.get_registry(), new_registry);
}

#[test]
fn test_set_registry_validates_new_address() {
    let mut s = setup();
    let invalid = s.generate();
    let (admin, invalid) = (s.admin_id(), s.id(&invalid));
    let before = s.vault.get_registry();
    assert_eq!(
        s.vault.set_registry(admin, invalid, None),
        Err(VaultError::InvalidRegistry)
    );
    assert_eq!(s.vault.get_registry(), before);
}

#[test]
fn test_set_registry_is_admin_only() {
    let mut s = setup();
    let (stranger, new_registry) = (s.generate(), s.generate());
    let (stranger, new_registry) = (s.id(&stranger), s.id(&new_registry));
    assert_eq!(
        s.vault.set_registry(stranger, new_registry, Some(0)),
        Err(VaultError::Unauthorized)
    );
}

#[test]
fn test_vault_state_version() {
    let s = setup();
    assert_eq!(s.vault.state_version(), 1u32);
    assert_eq!(s.vault.stored_state_version(), 1u32);
}

#[test]
fn test_vault_stale_stored_version_blocks_normal_calls() {
    let mut s = setup();
    let investor = s.investor(1_000_0000000i128);
    s.vault.load_stored_version(0);
    assert_eq!(
        s.try_deposit(&investor, 1_000_0000000i128),
        Err(VaultError::StaleState)
    );
}

#[test]
fn test_vault_migrate_state_rejects_wrong_version() {
    let mut s = setup();
    let admin = s.admin_id();
    assert_eq!(s.vault.migrate_state(admin, 0), Err(VaultError::VersionMismatch));
}

// Funding

#[test]
fn test_fund_project_records_investment() {
    let mut s = setup();
    let investor = s.investor(1_000_0000000i128);
    s.deposit(&investor, 1_000_0000000i128);

    assert_eq!(s.vault.total_assets(), 1_000_0000000i128);
}

#[test]
fn test_fund_project_panics_when_fully_depleted() {
    let mut s = setup();
    let investor = s.investor(1_000_0000000i128);
    s.deposit(&investor, 1_000_0000000i128);
    let project_id = s.new_project();

    s.fund_project(project_id, 995_0000000i128);

    assert_eq!(
        s.try_fund_project(project_id, 1_0000000i128),
        Err(VaultError::InsufficientDeployable)
    );
}

#[test]
fn test_fund_project_panics_when_amount_exceeds_available() {
    let mut s = setup();
    let investor = s.investor(500_0000000i128);
    s.deposit(&investor, 500_0000000i128);
    let project_id = s.new_project();

    assert_eq!(
        s.try_fund_project(project_id, 500_0000000i128),
        Err(VaultError::InsufficientDeployable)
    );
}

#[test]
fn test_fund_project_partial_funding_succeeds() {
    let mut s = setup();
    let investor = s.investor(1_000_0000000i128);
    s.deposit(&investor, 1_000_0000000i128);
    let project_id = s.new_project();

    s.fund_project(project_id, 300_0000000i128);
    s.fund_project(project_id, 200_0000000i128);

    assert_eq!(s.vault.total_assets(), 1_000_0000000i128);
}

#[test]
fn test_fund_project_second_call_exhausts_remaining_deployable() {
    let mut s = setup();
    let investor = s.investor(1_000_0000000i128);
    s.deposit(&investor, 1_000_0000000i128);
    let project_id = s.new_project();

    s.fund_project(project_id, 600_0000000i128);

    assert_eq!(
        s.try_fund_project(project_id, 400_0000000i128),
        Err(VaultError::InsufficientDeployable)
    );
    assert_eq!(s.try_fund_project(project_id, 395_0000000i128), Ok(()));
}

#[test]
fn test_funding_thresholds_default_to_zero() {
    let s = setup();
    assert_eq!(s.vault.get_min_credit_quality(), 0u32);
    assert_eq!(s.vault.get_min_green_impact(), 0u32);
}

#[test]
fn test_set_and_get_funding_thresholds() {
    let mut s = setup();
    s.set_funding_thresholds(60, 40).unwrap();
    assert_eq!(s.vault.get_min_credit_quality(), 60u32);
    assert_eq!(s.vault.get_min_green_impact(), 40u32);
}

fn refuses_thresholds(credit: u32, green: u32) {
    let mut s = setup();
    let error = s.set_funding_thresholds(credit, green).unwrap_err();
    assert_eq!(error, VaultError::InvalidThreshold);
    assert_eq!(error.code(), Some(19));
    assert_eq!(s.vault.get_min_credit_quality(), 0);
    assert_eq!(s.vault.get_min_green_impact(), 0);
}

#[test]
fn test_set_funding_thresholds_rejects_credit_above_100() {
    refuses_thresholds(101, 40);
}

#[test]
fn test_set_funding_thresholds_rejects_green_above_100() {
    refuses_thresholds(60, 200);
}

#[test]
fn test_set_funding_thresholds_rejects_both_above_100() {
    refuses_thresholds(101, 101);
}

#[test]
fn test_set_funding_thresholds_rejects_u32_max() {
    refuses_thresholds(u32::MAX, u32::MAX);
}

#[test]
fn test_set_funding_thresholds_accepts_boundary_100() {
    let mut s = setup();
    s.set_funding_thresholds(100, 100).unwrap();
    assert_eq!(s.vault.get_min_credit_quality(), 100u32);
    assert_eq!(s.vault.get_min_green_impact(), 100u32);
}

#[test]
fn test_set_funding_thresholds_accepts_zero() {
    let mut s = setup();
    s.set_funding_thresholds(0, 0).unwrap();
    assert_eq!(s.vault.get_min_credit_quality(), 0u32);
    assert_eq!(s.vault.get_min_green_impact(), 0u32);
}

#[test]
fn test_set_funding_thresholds_is_admin_only() {
    let mut s = setup();
    let stranger = s.generate();
    let stranger = s.id(&stranger);
    assert_eq!(
        s.vault.set_funding_thresholds(stranger, 50, 50),
        Err(VaultError::Unauthorized)
    );
}

#[test]
fn test_fund_project_blocked_below_credit_threshold() {
    let mut s = setup();
    let investor = s.investor(1_000_0000000i128);
    s.deposit(&investor, 1_000_0000000i128);
    let project_id = s.new_project();
    s.set_funding_thresholds(50, 0).unwrap();
    assert_eq!(
        s.try_fund_project(project_id, 100_0000000i128),
        Err(VaultError::CreditQualityBelowThreshold)
    );
}

#[test]
fn test_fund_project_blocked_below_green_threshold() {
    let mut s = setup();
    let investor = s.investor(1_000_0000000i128);
    s.deposit(&investor, 1_000_0000000i128);
    let project_id = s.new_project();
    s.set_funding_thresholds(0, 30).unwrap();
    assert_eq!(
        s.try_fund_project(project_id, 100_0000000i128),
        Err(VaultError::GreenImpactBelowThreshold)
    );
}

#[test]
fn test_fund_project_allowed_when_thresholds_met() {
    let mut s = setup();
    let investor = s.investor(1_000_0000000i128);
    s.deposit(&investor, 1_000_0000000i128);
    let project_id = s.new_project();
    s.update_impact_score(project_id, 70, 80);

    s.set_funding_thresholds(50, 50).unwrap();
    s.fund_project(project_id, 100_0000000i128);
    assert!(s.vault.total_assets() > 0);
}

#[test]
fn test_fund_project_panics_with_zero_project_id() {
    let mut s = setup();
    let investor = s.investor(1_000_0000000i128);
    s.deposit(&investor, 1_000_0000000i128);
    assert_eq!(
        s.try_fund_project(0, 100_0000000i128),
        Err(VaultError::InvalidProject)
    );
}

#[test]
fn test_fund_project_panics_with_out_of_range_project_id() {
    let mut s = setup();
    let investor = s.investor(1_000_0000000i128);
    s.deposit(&investor, 1_000_0000000i128);
    assert_eq!(
        s.try_fund_project(999, 100_0000000i128),
        Err(VaultError::InvalidProject)
    );
}

#[test]
fn test_fund_project_rejects_paused_registry() {
    let mut s = setup();
    let investor = s.investor(1_000_0000000i128);
    s.deposit(&investor, 1_000_0000000i128);
    let project_id = s.new_project();

    s.projects.paused = true;
    assert_eq!(
        s.try_fund_project(project_id, 100_0000000i128),
        Err(VaultError::RegistryPaused)
    );
}

#[test]
fn test_fund_project_succeeds_with_valid_project_id() {
    let mut s = setup();
    let investor = s.investor(1_000_0000000i128);
    s.deposit(&investor, 1_000_0000000i128);
    let project_id = s.new_project();

    s.fund_project(project_id, 100_0000000i128);
    assert!(s.vault.total_assets() > 0);
}

#[test]
fn test_fund_project_rejects_self_funding_by_admin() {
    let mut s = setup();
    let investor = s.investor(1_000_0000000i128);
    s.deposit(&investor, 1_000_0000000i128);
    let admin = s.admin.clone();
    let project_id = s.create_project(&admin);

    assert_eq!(
        s.try_fund_project(project_id, 100_0000000i128),
        Err(VaultError::SelfFunding)
    );
}

#[test]
fn test_fund_project_rejects_zero_amount() {
    let mut s = setup();
    let investor = s.investor(1_000_0000000i128);
    s.deposit(&investor, 1_000_0000000i128);
    let project_id = s.new_project();

    let error = s.try_fund_project(project_id, 0i128).unwrap_err();
    assert_eq!(error, VaultError::AmountNotPositive);
    assert_eq!(error.code(), Some(1));
}

#[test]
fn test_fund_project_rejects_negative_amount() {
    let mut s = setup();
    let investor = s.investor(1_000_0000000i128);
    s.deposit(&investor, 1_000_0000000i128);
    let project_id = s.new_project();

    let error = s.try_fund_project(project_id, -1i128).unwrap_err();
    assert_eq!(error, VaultError::AmountNotPositive);
    assert_eq!(error.code(), Some(1));
}

#[test]
fn test_multisig_batch_fund_projects() {
    let mut s = setup();
    let (signer1, signer2, signer3) = (s.generate(), s.generate(), s.generate());

    s.set_multisig_admin(&[signer1.clone(), signer2.clone(), signer3], 2);
    let investor = s.investor(2_000_0000000i128);
    s.deposit(&investor, 2_000_0000000i128);

    let project1 = s.new_project();
    let project2 = s.new_project();

    s.try_batch_fund_projects(
        &[(project1, 100_0000000i128), (project2, 150_0000000i128)],
        &[signer1, signer2],
    )
    .unwrap();

    assert!(s.vault.total_assets() > 0);
}

#[test]
fn test_multisig_batch_fund_projects_rejects_duplicate_project_ids() {
    let mut s = setup();
    let (signer1, signer2) = (s.generate(), s.generate());

    s.set_multisig_admin(&[signer1.clone(), signer2.clone()], 2);
    let investor = s.investor(2_000_0000000i128);
    s.deposit(&investor, 2_000_0000000i128);

    let project = s.new_project();

    let error = s
        .try_batch_fund_projects(
            &[(project, 100_0000000i128), (project, 150_0000000i128)],
            &[signer1, signer2],
        )
        .unwrap_err();
    assert_eq!(error, VaultError::DuplicateProject);
    assert_eq!(error.code(), Some(40));
}

#[test]
fn test_batch_fund_projects_rolls_back_all_events_and_state_on_later_panic() {
    let mut s = setup();
    let (signer1, signer2) = (s.generate(), s.generate());

    s.set_multisig_admin(&[signer1.clone(), signer2.clone()], 2);
    let investor = s.investor(1_000_0000000i128);
    s.deposit(&investor, 1_000_0000000i128);

    let project1 = s.new_project();
    let project2 = s.new_project();

    let assets_before = s.vault.total_assets();

    let result = s.try_batch_fund_projects(
        &[(project1, 100_0000000i128), (project2, 10_000_0000000i128)],
        &[signer1, signer2],
    );
    assert!(result.is_err());

    assert_eq!(s.vault.get_project_investment(project1), 0);
    assert_eq!(s.vault.total_assets(), assets_before);

    assert!(
        s.events.is_empty(),
        "expected no events to survive the panicking batch call, got {:?}",
        s.events
    );
}

#[test]
fn test_multisig_rejects_insufficient_funding_approvals() {
    let mut s = setup();
    let (signer1, signer2) = (s.generate(), s.generate());
    s.set_multisig_admin(&[signer1.clone(), signer2], 2);

    assert_eq!(
        s.try_batch_fund_projects(&[], &[signer1]),
        Err(VaultError::InsufficientApprovals)
    );
}

#[test]
fn test_compact_storage_removes_zero_project_investment() {
    let mut s = setup();
    let deposit = 1_000_0000000i128;
    let investor = s.investor(deposit);
    s.deposit(&investor, deposit);

    let pid = s.new_project();
    let fund_amount = 500_0000000i128;
    s.fund_project(pid, fund_amount);
    assert_eq!(s.vault.get_project_investment(pid), fund_amount);

    let admin = s.admin_id();
    let removed = s.vault.compact_storage(admin).unwrap().value;
    assert_eq!(removed, 0u32);
}

#[test]
fn test_get_project_investment_zero_for_unfunded() {
    let s = setup();
    assert_eq!(s.vault.get_project_investment(1), 0i128);
    assert_eq!(s.vault.get_project_investment(999), 0i128);
}

#[test]
fn test_get_project_investments_batch_returns_correct_amounts() {
    let mut s = setup();
    let investor = s.investor(5_000_0000000i128);
    s.deposit(&investor, 5_000_0000000i128);

    let pid1 = s.new_project();
    let pid2 = s.new_project();

    let fund1 = 1_000_0000000i128;
    let fund2 = 500_0000000i128;
    s.fund_project(pid1, fund1);
    s.fund_project(pid2, fund2);

    let amounts = s.vault.get_project_investments_batch(&vec![pid1, pid2]);

    assert_eq!(amounts.len(), 2);
    assert_eq!(amounts[0], fund1);
    assert_eq!(amounts[1], fund2);
}

#[test]
fn test_claim_queued_is_idempotent_against_double_claim() {
    let mut s = setup();
    let investor = s.investor(2_000_0000000i128);
    s.deposit(&investor, 2_000_0000000i128);

    let pid = s.new_project();

    let funded = 800_0000000i128;
    s.fund_project(pid, funded);

    let all = s.vault.get_all_project_investments();
    assert_eq!(all.len(), 1);
    let (id, amt) = all[0];
    assert_eq!(id, pid);
    assert_eq!(amt, funded);
}

// Withdrawals

#[test]
fn test_withdraw_fails_when_all_usdc_deployed() {
    let mut s = setup();
    let investor = s.investor(1_000_0000000i128);
    let shares = s.deposit(&investor, 1_000_0000000i128);
    let project_id = s.new_project();
    s.fund_project(project_id, 995_0000000i128);

    assert!(s.try_withdraw(&investor, shares).is_err());
    s.advance(1);
    assert_eq!(
        s.try_withdraw(&investor, shares),
        Err(VaultError::WithdrawalLimitExceeded)
    );
}

#[test]
fn test_full_withdrawal_with_no_investments() {
    let mut s = setup();
    let investor = s.investor(1_000_0000000i128);
    let shares = s.deposit(&investor, 1_000_0000000i128);
    s.advance(1);

    s.withdraw(&investor, shares);

    assert_eq!(s.vault.total_supply(), 0);
    assert_eq!(s.balance(&investor), 0);
}

#[test]
fn test_full_withdrawal_blocked_by_outstanding_investments() {
    let mut s = setup();
    let investor = s.investor(2_000_0000000i128);
    let shares = s.deposit(&investor, 2_000_0000000i128);
    let project_id = s.new_project();
    s.fund_project(project_id, 1_000_0000000i128);

    s.advance(1);
    assert_eq!(
        s.try_withdraw(&investor, shares),
        Err(VaultError::WithdrawalLimitExceeded)
    );
}

#[test]
fn test_withdraw_enqueues_when_insufficient_liquidity() {
    let mut s = setup();
    let deposit_amount = 1_000_0000000i128;
    let investor = s.investor(deposit_amount);
    let shares = s.deposit(&investor, deposit_amount);

    let project_id = s.new_project();
    s.fund_project(project_id, 490_0000000i128);

    s.advance(1);
    let returned = s.withdraw(&investor, shares);

    assert_eq!(returned, 0);
    assert_eq!(s.balance(&investor), 0);
    assert_eq!(s.usdc(&investor), 0);
}

#[test]
fn test_claim_settles_queued_redemption() {
    let mut s = setup();
    let deposit_amount = 1_000_0000000i128;
    let investor1 = s.investor(deposit_amount);
    let shares = s.deposit(&investor1, deposit_amount);

    let project_id = s.new_project();
    s.fund_project(project_id, 490_0000000i128);

    let owed = s.vault.convert_to_assets(shares).unwrap();
    s.advance(1);
    s.withdraw(&investor1, shares);

    let investor2 = s.investor(2_000_0000000i128);
    s.deposit(&investor2, 2_000_0000000i128);

    let paid = s.claim();

    assert_eq!(paid, owed);
    assert_eq!(s.usdc(&investor1), owed);
}

#[test]
fn test_withdraw_below_minimum_panics() {
    let mut s = setup();
    let investor = s.investor(1_000_0000000i128);
    s.deposit(&investor, 1_000_0000000i128);
    s.advance(1);
    assert_eq!(
        s.try_withdraw(&investor, 10_0000000i128),
        Err(VaultError::WithdrawBelowMinimum)
    );
}

#[test]
fn test_withdraw_at_minimum_succeeds() {
    let mut s = setup();
    let investor = s.investor(1_000_0000000i128);
    s.deposit(&investor, 1_000_0000000i128);
    s.advance(1);
    let returned = s.withdraw(&investor, 100_0000000i128);
    assert!(returned > 0);
}

#[test]
fn test_withdraw_rejects_zero_shares() {
    let mut s = setup();
    let investor = s.investor(1_000_0000000i128);
    s.deposit(&investor, 1_000_0000000i128);

    s.advance(1);

    let result = s.try_withdraw(&investor, 0i128);
    assert!(result.is_err(), "withdraw() should reject a zero shares_amount");
    assert_eq!(result, Err(VaultError::SharesNotPositive));
}

#[test]
fn test_withdraw_rejects_below_minimum_shares() {
    let mut s = setup();
    let investor = s.investor(1_000_0000000i128);
    s.deposit(&investor, 1_000_0000000i128);

    s.advance(1);

    let result = s.try_withdraw(&investor, 1i128);
    assert!(result.is_err(), "withdraw() should reject shares_amount below MIN_WITHDRAW");
    assert_eq!(result, Err(VaultError::WithdrawBelowMinimum));
}

#[test]
fn test_concurrent_deposits_and_fund_project() {
    let mut s = setup();

    let investor1 = s.investor(2_000_0000000i128);
    s.deposit(&investor1, 2_000_0000000i128);

    let project_id = s.new_project();
    s.update_impact_score(project_id, 80, 60);

    s.fund_project(project_id, 500_0000000i128);

    let investor2 = s.investor(3_000_0000000i128);
    let shares2 = s.deposit(&investor2, 3_000_0000000i128);

    let shares1 = s.balance(&investor1);
    s.advance(1);
    s.withdraw(&investor1, shares1);

    s.advance(1);
    s.withdraw(&investor2, shares2);

    assert!(s.vault.total_assets() >= 0);
}

#[test]
fn test_withdrawal_rate_limiting_same_ledger() {
    let mut s = setup();
    let investor = s.investor(1_000_0000000i128);
    let shares = s.deposit(&investor, 1_000_0000000i128);

    assert_eq!(s.try_withdraw(&investor, shares), Err(VaultError::DepositLocked));
}

#[test]
fn test_withdrawal_rate_limiting_next_ledger() {
    let mut s = setup();
    let investor = s.investor(1_000_0000000i128);
    let shares = s.deposit(&investor, 1_000_0000000i128);

    s.advance(1);

    let returned = s.withdraw(&investor, shares);
    assert!(returned > 0);
}

#[test]
fn test_withdrawal_rate_limiting_transfer_locked() {
    let mut s = setup();
    let investor1 = s.investor(1_000_0000000i128);
    let investor2 = s.generate();
    let shares = s.deposit(&investor1, 1_000_0000000i128);

    s.advance(1);

    s.try_transfer(&investor1, &investor2, shares).unwrap();
    assert_eq!(s.balance(&investor2), shares);

    assert_eq!(s.try_withdraw(&investor2, shares), Err(VaultError::DepositLocked));
}

#[test]
fn test_withdrawal_window_blocks_early_exit() {
    let mut s = setup();
    let investor = s.investor(1_000_0000000i128);

    s.vault.set_withdrawal_window(5);

    let shares = s.deposit(&investor, 1_000_0000000i128);

    s.advance(2);

    let result = s.try_withdraw(&investor, shares);
    assert!(result.is_err(), "withdraw should be blocked inside the sliding window");
    assert_eq!(result, Err(VaultError::DepositLocked));
}

#[test]
fn test_withdrawal_window_allows_exit_after_window() {
    let mut s = setup();
    let investor = s.investor(1_000_0000000i128);

    s.vault.set_withdrawal_window(5);

    let shares = s.deposit(&investor, 1_000_0000000i128);

    s.advance(5);

    let returned = s.withdraw(&investor, shares);
    assert!(returned > 0, "withdraw should succeed after window expires");
}

#[test]
fn test_get_set_withdrawal_window() {
    let mut s = setup();
    assert_eq!(s.vault.get_withdrawal_window(), 1u32);
    s.vault.set_withdrawal_window(10);
    assert_eq!(s.vault.get_withdrawal_window(), 10u32);
}

#[test]
fn test_transfer_to_vault_address_rejected() {
    let mut s = setup();
    let investor = s.investor(1_000_0000000i128);
    s.deposit(&investor, 1_000_0000000i128);

    let vault_address = s.vault_address.clone();
    assert_eq!(
        s.try_transfer(&investor, &vault_address, 100_0000000i128),
        Err(VaultError::VaultAsHolder)
    );
}

// Trading

#[test]
fn test_trading_disabled_by_default() {
    let s = setup();
    assert!(!s.vault.is_trading_enabled());
}

#[test]
fn test_enable_secondary_trading() {
    let mut s = setup();
    s.enable_secondary_trading();
    assert!(s.vault.is_trading_enabled());
}

#[test]
fn test_get_hbs_token_info_before_trading_enabled() {
    let s = setup();
    let info = s.vault.get_hbs_token_info();
    assert_eq!(info.name, "Heliobond Shares");
    assert_eq!(info.symbol, "HBS");
    assert_eq!(info.decimals, 7u32);
    assert!(!info.trading_enabled);
}

#[test]
fn test_get_hbs_token_info_after_trading_enabled() {
    let mut s = setup();
    s.enable_secondary_trading();
    let info = s.vault.get_hbs_token_info();
    assert!(info.trading_enabled);
}

// Events

#[test]
fn test_deposit_emits_event() {
    let mut s = setup();
    let amount = 1_000_0000000i128;
    let investor = s.investor(amount);

    s.deposit(&investor, amount);

    assert_eq!(
        s.events.len(),
        2,
        "deposit should emit exactly two events (mint + deposit)"
    );
}

#[test]
fn test_withdraw_emits_event() {
    let mut s = setup();
    let investor = s.investor(1_000_0000000i128);
    let shares = s.deposit(&investor, 1_000_0000000i128);
    s.advance(1);

    s.withdraw(&investor, shares);

    assert_eq!(
        s.events.len(),
        2,
        "withdraw should emit exactly two events (burn + withdraw)"
    );
}

#[test]
fn test_fund_project_emits_event() {
    let mut s = setup();
    let investor = s.investor(1_000_0000000i128);
    s.deposit(&investor, 1_000_0000000i128);
    let project_id = s.new_project();
    s.fund_project(project_id, 100_0000000i128);

    assert_eq!(s.events.len(), 1, "fund_project should emit exactly one event");
}

#[test]
fn test_withdraw_queued_emits_event() {
    let mut s = setup();
    let investor = s.investor(1_000_0000000i128);
    let shares = s.deposit(&investor, 1_000_0000000i128);
    let project_id = s.new_project();
    s.fund_project(project_id, 490_0000000i128);

    s.advance(1);
    let returned = s.withdraw(&investor, shares);
    assert_eq!(returned, 0);

    assert_eq!(
        s.events.len(),
        2,
        "queued withdrawal should emit exactly two events (burn + withdraw_queued)"
    );
}

#[test]
fn test_claim_queued_emits_event() {
    let mut s = setup();
    let investor = s.investor(1_000_0000000i128);
    let shares = s.deposit(&investor, 1_000_0000000i128);
    let project_id = s.new_project();
    s.fund_project(project_id, 490_0000000i128);
    s.advance(1);
    s.withdraw(&investor, shares);

    let investor2 = s.investor(2_000_0000000i128);
    s.deposit(&investor2, 2_000_0000000i128);

    s.claim();

    assert!(
        !s.events.is_empty(),
        "claim() should emit at least one event when settling a queued redemption"
    );
}

#[test]
fn test_management_fee_set_emits_event() {
    let mut s = setup();
    let recipient = s.generate();

    s.set_management_fee(200, &recipient).unwrap();

    assert_eq!(s.events.len(), 1, "set_management_fee should emit exactly one event");
}

#[test]
fn test_enable_secondary_trading_emits_event() {
    let mut s = setup();

    s.enable_secondary_trading();

    assert_eq!(
        s.events.len(),
        1,
        "enable_secondary_trading should emit exactly one event"
    );
}

#[test]
fn test_high_utilization_withdrawal_emits_warning_event() {
    let mut s = setup();
    let investor = s.investor(10_000_0000000i128);
    s.deposit(&investor, 10_000_0000000i128);

    let project_id = s.new_project();
    s.fund_project(project_id, 8_000_0000000i128);

    assert!(
        s.vault.get_utilization_bps().unwrap() >= 7_000,
        "utilization should be at or above warning threshold"
    );

    let small_shares = 200_0000000i128;
    s.advance(1);
    s.withdraw(&investor, small_shares);

    assert!(
        s.events.len() >= 2,
        "withdrawal at high utilization should emit utilization warning event"
    );
    assert_eq!(s.events.len(), 3);
    assert_eq!(s.events[1], Event::UtilizationWarning { utilization_bps: 8_000 });
}

#[test]
fn test_set_trusted_emitter_persists_and_emits_event() {
    let mut s = setup();
    let emitter = BytesN::from_array(&s.env, &[3u8; 32]);
    let chain_id = 2u32;
    let admin = s.admin_id();

    let result = s.vault.set_trusted_emitter(admin, chain_id, &emitter, true);
    s.run(result).unwrap();
    assert!(!s.events.is_empty());
    assert!(s.vault.is_trusted_emitter(chain_id, &emitter));

    let result = s.vault.set_trusted_emitter(admin, chain_id, &emitter, false);
    s.run(result).unwrap();
    assert!(!s.vault.is_trusted_emitter(chain_id, &emitter));
}

// Pausing

#[test]
fn test_vault_is_paused_getter_default_false() {
    let s = setup();
    assert!(!s.vault.is_paused());
}

#[test]
fn test_vault_pause_and_unpause() {
    let mut s = setup();
    let admin = s.admin_id();
    s.vault.pause(admin).unwrap();
    assert!(s.vault.is_paused());
    s.vault.unpause(admin).unwrap();
    assert!(!s.vault.is_paused());
}

#[test]
fn test_emergency_admin_can_pause_and_unpause_without_owner() {
    let mut s = setup();
    let emergency_admin = s.generate();
    let (admin, emergency_admin) = (s.admin_id(), s.id(&emergency_admin));

    assert_eq!(s.vault.get_emergency_admin(), None);
    s.vault.set_emergency_admin(admin, Some(emergency_admin)).unwrap();
    assert_eq!(s.vault.get_emergency_admin(), Some(emergency_admin));

    assert!(!s.vault.is_paused());
    s.vault.emergency_pause(emergency_admin).unwrap();
    assert!(s.vault.is_paused());
    s.vault.emergency_unpause(emergency_admin).unwrap();
    assert!(!s.vault.is_paused());
}

#[test]
fn test_emergency_pause_rejects_non_emergency_admin() {
    let mut s = setup();
    let (emergency_admin, stranger) = (s.generate(), s.generate());
    let (admin, emergency_admin, stranger) =
        (s.admin_id(), s.id(&emergency_admin), s.id(&stranger));
    s.vault.set_emergency_admin(admin, Some(emergency_admin)).unwrap();
    assert_eq!(s.vault.emergency_pause(stranger), Err(VaultError::Unauthorized));
    assert!(!s.vault.is_paused());
}

// Ownership

#[test]
fn test_transfer_ownership_emits_event() {
    let mut s = setup();
    let (admin, new_owner) = (s.admin.clone(), s.generate());

    s.try_transfer_ownership(&admin, &new_owner, 1000).unwrap();

    assert_eq!(
        s.events.len(),
        2,
        "transfer_ownership should emit 2 events"
    );
}

#[test]
fn test_transfer_ownership_rejects_non_owner_caller() {
    let mut s = setup();
    let (stranger, new_owner) = (s.generate(), s.generate());
    assert_eq!(
        s.try_transfer_ownership(&stranger, &new_owner, 1000),
        Err(VaultError::Unauthorized)
    );
}

#[test]
fn test_transfer_ownership_cancel_without_pending_panics() {
    let mut s = setup();
    let (admin, new_owner) = (s.admin.clone(), s.generate());
    let error = s.try_transfer_ownership(&admin, &new_owner, 0).unwrap_err();
    assert_eq!(error, VaultError::NoPendingTransfer);
}

#[test]
fn test_transfer_ownership_with_expired_ledger_panics() {
    let mut s = setup();
    let (admin, new_owner) = (s.admin.clone(), s.generate());

    s.advance(10);

    let error = s.try_transfer_ownership(&admin, &new_owner, 1).unwrap_err();
    assert_eq!(error, VaultError::InvalidLiveUntilLedger);
}

#[test]
fn test_transfer_ownership_to_same_owner_succeeds() {
    let mut s = setup();
    let admin = s.admin.clone();

    s.try_transfer_ownership(&admin, &admin, 1000).unwrap();

    assert_eq!(
        s.events.len(),
        2,
        "transfer to self should emit 2 events like any other transfer"
    );
}

#[test]
fn test_all_only_owner_functions_reject_non_admin_caller() {
    let mut s = setup();
    let (stranger, other) = (s.generate(), s.generate());
    let (stranger, other) = (s.id(&stranger), s.id(&other));
    let hash32 = BytesN::from_array(&s.env, &[0u8; 32]);
    let registry = RegistryInfo { paused: false, projects: Vec::new() };
    let request = FundingRequest { project_id: 1, amount: 1 };
    let v = &mut s.vault;

    let results = vec![
        v.migrate_state(stranger, 1).is_err(),
        v.fund_project(stranger, request, &registry).is_err(),
        v.authorize(stranger, OwnerRequest::ReceiveYield).is_err(),
        v.authorize(stranger, OwnerRequest::ClaimInsurance).is_err(),
        v.set_multisig_admin(stranger, vec![other], 1).is_err(),
        v.set_management_fee(stranger, 1, other).is_err(),
        v.enable_secondary_trading(stranger).is_err(),
        v.set_funding_thresholds(stranger, 1, 1).is_err(),
        v.set_registry(stranger, other, Some(0)).is_err(),
        v.authorize(stranger, OwnerRequest::SetBridge).is_err(),
        v.authorize(stranger, OwnerRequest::SetWormholeCore).is_err(),
        v.set_trusted_emitter(stranger, 1, &hash32, true).is_err(),
        v.set_flash_loan_fee(stranger, 1).is_err(),
        v.authorize(stranger, OwnerRequest::SetCarbonOracle).is_err(),
        v.authorize(stranger, OwnerRequest::SetMaxTransactionAmount).is_err(),
        v.authorize(stranger, OwnerRequest::RecordComplianceEvent).is_err(),
        v.authorize(stranger, OwnerRequest::TakeReportingSnapshot).is_err(),
        v.pause(stranger).is_err(),
        v.unpause(stranger).is_err(),
        v.set_emergency_admin(stranger, None).is_err(),
        v.compact_storage(stranger).is_err(),
        v.authorize(stranger, OwnerRequest::Upgrade).is_err(),
        v.set_volume_fee_tier(stranger, 500_0000000i128, 50).is_err(),
    ];

    for (i, rejected) in results.iter().enumerate() {
        assert!(
            *rejected,
            "only_owner function at index {i} did not reject a non-admin caller"
        );
    }
}

// Flash loans

#[test]
fn test_flash_loan_succeeds_with_valid_same_transaction_repayment() {
    let mut s = setup();

    let deposit_amount = 10_000_0000000i128;
    let investor = s.investor(deposit_amount);
    s.deposit(&investor, deposit_amount);

    let initiator = s.generate();
    let (admin, initiator) = (s.admin_id(), s.id(&initiator));

    s.vault.set_flash_loan_fee(admin, 10).unwrap();

    let loan_amount = 1_000_0000000i128;

    let receipt = s
        .vault
        .execute_flash_loan(initiator, &MockRepayingReceiver, loan_amount, &Vec::new())
        .unwrap();
    assert_eq!(receipt.value, 1_0000000i128);

    assert!(
        s.vault.total_assets() >= deposit_amount,
        "vault must retain at least the original deposit after a successful flash loan"
    );
    assert_eq!(s.vault.total_assets(), deposit_amount + 1_0000000i128);
}

#[test]
fn test_flash_loan_fails_without_repayment() {
    let mut s = setup();
    let deposit_amount = 10_000_0000000i128;
    let investor = s.investor(deposit_amount);
    s.deposit(&investor, deposit_amount);

    let initiator = s.generate();
    let initiator = s.id(&initiator);
    assert_eq!(
        s.vault.execute_flash_loan(
            initiator,
            &MockFailingReceiver,
            1_000_0000000i128,
            &Vec::new()
        ),
        Err(VaultError::FlashLoanCallbackFailed)
    );
    assert_eq!(s.vault.total_assets(), deposit_amount);
}

// Payments

#[test]
fn the_vault_holds_what_its_books_call_liquid() {
    let mut s = setup();
    let fee_recipient = s.generate();
    s.set_management_fee(200, &fee_recipient).unwrap();
    let investor1 = s.investor(5_000_0000000i128);
    let investor2 = s.investor(1_000_0000000i128);
    let shares1 = s.deposit(&investor1, 5_000_0000000i128);
    s.deposit(&investor2, 1_000_0000000i128);
    let project = s.new_project();
    s.fund_project(project, 2_000_0000000i128);
    s.advance(1);
    assert_eq!(s.withdraw(&investor1, shares1), 0);
    assert_eq!(s.usdc(&s.vault_address), s.vault.total_assets() - 2_000_0000000i128);
    assert_eq!(s.claim(), 0);
    let investor3 = s.investor(3_000_0000000i128);
    s.deposit(&investor3, 3_000_0000000i128);
    assert_eq!(s.usdc(&s.vault_address), s.vault.total_assets() - 2_000_0000000i128);
    let paid = s.claim();
    assert!(paid > 0);
    assert_eq!(s.usdc(&investor1), paid);
    assert_eq!(s.usdc(&s.vault_address), s.vault.total_assets() - 2_000_0000000i128);
}

#[test]
fn a_fee_to_the_vault_itself_stays_in_it() {
    let mut s = setup();
    let vault_address = s.vault_address.clone();
    s.set_management_fee(500, &vault_address).unwrap();
    let investor = s.investor(1_000_0000000i128);
    assert_eq!(s.deposit(&investor, 1_000_0000000i128), 945_0000000i128);
    assert_eq!(s.vault.total_assets(), 1_000_0000000i128);
    assert_eq!(s.usdc(&vault_address), 1_000_0000000i128);
}

#[test]
fn a_funding_pays_the_project_owner() {
    let mut s = setup();
    let investor = s.investor(1_000_0000000i128);
    s.deposit(&investor, 1_000_0000000i128);
    let creator = s.generate();
    let project = s.create_project(&creator);
    s.fund_project(project, 100_0000000i128);
    assert_eq!(s.usdc(&creator), 100_0000000i128);
    let (vault, owner) = (s.id(&s.vault_address.clone()), s.id(&creator));
    let request = FundingRequest { project_id: project, amount: 5 };
    let admin = s.admin_id();
    let receipt = s.vault.fund_project(admin, request, &s.projects).unwrap();
    assert_eq!(receipt.payments, vec![Payment { from: vault, to: owner, amount: 5 }]);
}
