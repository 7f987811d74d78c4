use bounty_board::{
    Authorization, BountyStatus, Error, FreelanceBountyPlatform, Principal, PrincipalKind, Transfer,
};
use soroban_sdk::address_payload::AddressPayload;
use soroban_sdk::testutils::{Address as _, EnvTestConfig, Ledger as _};
use soroban_sdk::token::{StellarAssetClient, TokenClient};
use soroban_sdk::{Address, BytesN, Env};

fn host() -> Env {
    let env = Env::new_with_config(EnvTestConfig { capture_snapshot_at_drop: false });
    env.mock_all_auths();
    env
}

/// The principal that a host address stands for.
fn principal(address: &Address) -> Principal {
    match address.to_payload().unwrap() {
        AddressPayload::AccountIdPublicKeyEd25519(key) => {
            Principal::new(PrincipalKind::Account, key.to_array())
        }
        AddressPayload::ContractIdHash(hash) => {
            Principal::new(PrincipalKind::Contract, hash.to_array())
        }
    }
}

/// The host address of a principal.
fn address(env: &Env, principal: &Principal) -> Address {
    let key = BytesN::from_array(env, &principal.key);
    match principal.kind {
        PrincipalKind::Account => AddressPayload::AccountIdPublicKeyEd25519(key).to_address(env),
        PrincipalKind::Contract => AddressPayload::ContractIdHash(key).to_address(env),
    }
}

struct World {
    env: Env,
    token: Address,
    custody: Address,
    company: Address,
    developer: Address,
}

/// A host with one token, of which the company holds `funds`.
fn world(funds: i128) -> World {
    let env = host();
    let admin = Address::generate(&env);
    let token = env.register_stellar_asset_contract_v2(admin).address();
    let custody = Address::generate(&env);
    let company = Address::generate(&env);
    let developer = Address::generate(&env);
    if funds > 0 {
        StellarAssetClient::new(&env, &token).mint(&company, &funds);
    }
    World { env, token, custody, company, developer }
}

impl World {
    fn balance(&self, holder: &Address) -> i128 {
        TokenClient::new(&self.env, &self.token).balance(holder)
    }

    fn platform(&self) -> FreelanceBountyPlatform {
        FreelanceBountyPlatform::new(principal(&self.custody))
    }

    /// Asks the token to make `transfer` and says whether it did.
    fn carry_out(&self, transfer: &Transfer) -> bool {
        let token = address(&self.env, &transfer.token);
        let from = address(&self.env, &transfer.from);
        let to = address(&self.env, &transfer.to);
        let outcome = TokenClient::new(&self.env, &token).try_transfer(&from, &to, &transfer.amount);
        matches!(outcome, Ok(Ok(())))
    }

    /// The company creates a bounty: plan, deposit, record.
    fn create(&self, platform: &mut FreelanceBountyPlatform, amount: i128) -> Result<u64, Error> {
        let company = principal(&self.company);
        let auth = Authorization::of(company);
        let deposit = platform.plan_create(&auth, company, amount, principal(&self.token))?;
        assert_eq!(
            deposit,
            Transfer {
                token: principal(&self.token),
                from: company,
                to: principal(&self.custody),
                amount,
            }
        );
        let moved = self.carry_out(&deposit);
        platform.create_bounty(
            &auth,
            company,
            b"Build the indexer".to_vec(),
            b"Index every ledger entry".to_vec(),
            vec![b"rust".to_vec()],
            amount,
            principal(&self.token),
            5_000,
            self.env.ledger().timestamp(),
            moved,
        )
    }

    /// `company` approves a bounty: plan, payout, record.
    fn release(
        &self,
        platform: &mut FreelanceBountyPlatform,
        id: u64,
        company: Principal,
    ) -> Result<(), Error> {
        let auth = Authorization::of(company);
        let payout = platform.plan_release(&auth, id, company)?;
        let moved = self.carry_out(&payout);
        platform.approve_and_release(&auth, id, company, moved)
    }

    /// `company` cancels a bounty: plan, refund, record.
    fn cancel(
        &self,
        platform: &mut FreelanceBountyPlatform,
        id: u64,
        company: Principal,
    ) -> Result<(), Error> {
        let auth = Authorization::of(company);
        let refund = platform.plan_cancel(&auth, id, company)?;
        let moved = self.carry_out(&refund);
        platform.cancel_bounty(&auth, id, company, moved)
    }
}

#[test]
fn end_to_end_release() {
    let w = world(1_000);
    w.env.ledger().set_timestamp(1_234);
    let mut platform = w.platform();
    let company = principal(&w.company);
    let developer = principal(&w.developer);

    let id = w.create(&mut platform, 100).unwrap();
    assert_eq!(id, 1);
    assert_eq!(w.balance(&w.company), 900);
    assert_eq!(w.balance(&w.custody), 100);
    assert_eq!(platform.get_bounty(id).unwrap().created_at, 1_234);

    platform
        .register_developer(
            &Authorization::of(developer),
            developer,
            vec![b"rust".to_vec()],
            b"indexer author".to_vec(),
        )
        .unwrap();
    platform.assign_bounty(&Authorization::of(developer), id, developer).unwrap();
    assert_eq!(platform.get_bounty(id).unwrap().status, BountyStatus::Assigned);
    platform.submit_work(&Authorization::of(developer), id, developer).unwrap();
    assert_eq!(platform.get_bounty(id).unwrap().status, BountyStatus::Submitted);
    assert_eq!(w.balance(&w.custody), 100);

    assert_eq!(w.release(&mut platform, id, company), Ok(()));
    assert_eq!(w.balance(&w.developer), 100);
    assert_eq!(w.balance(&w.custody), 0);
    assert_eq!(w.balance(&w.company), 900);
    assert_eq!(platform.get_bounty(id).unwrap().status, BountyStatus::Completed);
    assert_eq!(platform.get_developer(&developer).unwrap().completed_bounties, 1);

    platform.rate_developer(&Authorization::of(company), id, company, 90).unwrap();
    assert_eq!(platform.get_developer(&developer).unwrap().rating, 90);

    // The funds have left custody once; no second payout or refund is planned.
    assert_eq!(w.release(&mut platform, id, company), Err(Error::InvalidState));
    assert_eq!(w.cancel(&mut platform, id, company), Err(Error::InvalidState));
    assert_eq!(w.balance(&w.developer), 100);
    assert_eq!(w.balance(&w.company), 900);
}

#[test]
fn end_to_end_refund() {
    let w = world(80);
    let mut platform = w.platform();
    let company = principal(&w.company);
    let developer = principal(&w.developer);
    platform
        .register_developer(&Authorization::of(developer), developer, Vec::new(), Vec::new())
        .unwrap();

    let id = w.create(&mut platform, 50).unwrap();
    assert_eq!(w.balance(&w.company), 30);
    assert_eq!(w.balance(&w.custody), 50);

    assert_eq!(w.cancel(&mut platform, id, company), Ok(()));
    assert_eq!(w.balance(&w.company), 80);
    assert_eq!(w.balance(&w.custody), 0);
    assert_eq!(platform.get_bounty(id).unwrap().status, BountyStatus::Cancelled);

    assert_eq!(
        platform.assign_bounty(&Authorization::of(developer), id, developer),
        Err(Error::InvalidState)
    );
    assert_eq!(w.cancel(&mut platform, id, company), Err(Error::InvalidState));
    assert_eq!(w.balance(&w.company), 80);
}

#[test]
fn create_without_funds_records_nothing() {
    let w = world(40);
    let mut platform = w.platform();
    assert_eq!(w.create(&mut platform, 41), Err(Error::TransferFailed));
    assert!(platform.get_bounty(1).is_none());
    assert_eq!(platform.get_company_bounties(&principal(&w.company)), Vec::<u64>::new());
    assert_eq!(w.balance(&w.company), 40);
    assert_eq!(w.balance(&w.custody), 0);

    w.env.ledger().set_timestamp(1_700_000_000);
    assert_eq!(w.create(&mut platform, 40), Ok(1));
    assert_eq!(w.balance(&w.company), 0);
    assert_eq!(w.balance(&w.custody), 40);
    assert_eq!(platform.get_bounty(1).unwrap().created_at, 1_700_000_000);
}

#[test]
fn refused_operations_plan_no_transfer() {
    let w = world(500);
    let mut platform = w.platform();
    let company = principal(&w.company);
    let developer = principal(&w.developer);

    // Without the company's authority no deposit is planned.
    assert_eq!(
        platform.plan_create(&Authorization::of(developer), company, 100, principal(&w.token)),
        Err(Error::Unauthorized)
    );

    let id = w.create(&mut platform, 100).unwrap();
    // Not yet submitted: approval is refused and custody keeps the funds.
    assert_eq!(w.release(&mut platform, id, company), Err(Error::InvalidState));
    // Only the company may cancel.
    assert_eq!(w.cancel(&mut platform, id, developer), Err(Error::Unauthorized));
    assert_eq!(w.balance(&w.custody), 100);
    assert_eq!(w.balance(&w.company), 400);
    assert_eq!(platform.get_bounty(id).unwrap().status, BountyStatus::Open);
}

#[test]
fn payout_fails_when_custody_is_short() {
    let w = world(100);
    let mut platform = w.platform();
    let company = principal(&w.company);
    let developer = principal(&w.developer);
    platform
        .register_developer(&Authorization::of(developer), developer, Vec::new(), Vec::new())
        .unwrap();
    // Recorded as funded, though custody never received the deposit.
    let id = platform
        .create_bounty(
            &Authorization::of(company),
            company,
            b"t".to_vec(),
            b"d".to_vec(),
            Vec::new(),
            100,
            principal(&w.token),
            0,
            0,
            true,
        )
        .unwrap();
    platform.assign_bounty(&Authorization::of(developer), id, developer).unwrap();
    platform.submit_work(&Authorization::of(developer), id, developer).unwrap();

    assert_eq!(w.release(&mut platform, id, company), Err(Error::TransferFailed));
    assert_eq!(platform.get_bounty(id).unwrap().status, BountyStatus::Submitted);
    assert_eq!(platform.get_developer(&developer).unwrap().completed_bounties, 0);
    assert_eq!(w.balance(&w.developer), 0);
}

#[test]
fn a_negative_deposit_is_turned_down_by_the_token() {
    let w = world(100);
    let mut platform = w.platform();
    assert_eq!(w.create(&mut platform, -5), Err(Error::TransferFailed));
    assert_eq!(platform.bounty_counter(), 0);
    assert_eq!(w.balance(&w.company), 100);
}
