use minah::{
    deploy_stablecoin_contract, Address, Config, InvestmentStatus, Minah, MinahError, Stablecoin,
};

const USDC_DECIMALS: u32 = 7;
const TOTAL_SUPPLY: u32 = 4500;
const PRICE: i128 = 1; // in stablecoin units
const MIN_NFTS_TO_MINT: u32 = 10;
const MAX_NFTS_PER_INVESTOR: u32 = 500;

const DISTRIBUTION_INTERVALS: [u64; 10] = [
    60,  // 1 minute
    120, // 2 minutes
    180, // 3 minutes
    240, // 4 minutes
    300, // 5 minutes
    360, // 6 minutes
    420, // 7 minutes
    480, // 8 minutes
    540, // 9 minutes
    600, // 10 minutes
];

// ROI percentages are scaled by 10_000_000 to handle decimal percentages (7 decimal places)
// ROI_PERCENTAGES = [4, 2.67, 2.67, 2.67, 2.67, 2.67, 2.67, 2.67, 2.67, 2.67]
const ROI_PERCENTAGES: [i128; 10] = [
    40_000_000, 26_700_000, 26_700_000, 26_700_000, 26_700_000, 26_700_000, 26_700_000, 26_700_000,
    26_700_000, 26_700_000,
];

/// Hands out addresses that have not been used before, and keeps the time.
struct Env {
    next_id: u64,
    timestamp: u64,
}

impl Env {
    fn new() -> Env {
        Env { next_id: 1, timestamp: 0 }
    }

    fn generate(&mut self) -> Address {
        let address = Address::new(self.next_id);
        self.next_id += 1;
        address
    }
}

fn ok<T>(outcome: Result<T, MinahError>) -> T {
    match outcome {
        Ok(value) => value,
        Err(error) => panic!("{}", error.message()),
    }
}

fn roi_percentages_vec() -> Vec<i128> {
    ROI_PERCENTAGES.to_vec()
}

fn distribution_intervals_vec() -> Vec<u64> {
    DISTRIBUTION_INTERVALS.to_vec()
}

fn create_client(
    env: &mut Env,
    owner: Address,
    stablecoin_address: Address,
    receiver: Address,
    payer: Address,
    price: i128,
    total_supply: u32,
    min_nfts_to_mint: u32,
    max_nfts_per_investor: u32,
    distribution_intervals: Vec<u64>,
    roi_percentages: Vec<i128>,
) -> (Minah, Address) {
    let contract_id = env.generate();
    let config = ok(Config::new(
        price,
        total_supply,
        min_nfts_to_mint,
        max_nfts_per_investor,
        distribution_intervals,
        roi_percentages,
    ));
    let client = Minah::new(contract_id, owner, stablecoin_address, receiver, payer, config);

    (client, contract_id)
}

fn mint_nft(
    client: &mut Minah,
    stablecoin_client: &mut Stablecoin,
    nft_receiver: Address,
    nft_amount: u32,
    owner: Address,
    contract_id: Address,
) {
    // Create An investor before minting
    ok(client.create_investor(owner, nft_receiver));

    // CHECK: Is the investor created successfully?
    let is_investor = client.is_investor(nft_receiver);
    assert!(is_investor);

    // Transfer The Required Stablecoin Amount to the nft receiver so that the minting can proceed
    let nft_price = client.get_nft_price();

    let total_amount = nft_price * (nft_amount as i128) * 10i128.pow(USDC_DECIMALS);

    // Transfer stablecoin to the nft_receiver
    ok(stablecoin_client.transfer(owner, nft_receiver, total_amount));

    // CHECK: balance of nft_receiver should be equal to total_amount
    let nft_receiver_balance = stablecoin_client.balance(nft_receiver);
    assert_eq!(nft_receiver_balance, total_amount);

    // Increase Allowance for the payer to allow the contract to spend stablecoin on behalf of nft_receiver
    ok(stablecoin_client.approve(nft_receiver, contract_id, total_amount, 100));

    let allowance = stablecoin_client.allowance(nft_receiver, contract_id);

    // CHECK: allowance should be equal to total_amount
    assert_eq!(allowance, total_amount);

    // Mint the NFTs
    ok(client.mint(stablecoin_client, nft_receiver, nft_receiver, nft_amount));

    // CHECK: NFT balance of nft_receiver should be
    let nft_balance = client.balance(nft_receiver);

    assert_eq!(nft_balance, nft_amount);
}

/// A contract on the terms above, with its parties and its stablecoin, on
/// which `premint` has been minted to the owner.
struct World {
    env: Env,
    owner: Address,
    receiver: Address,
    payer: Address,
    stablecoin_client: Stablecoin,
    client: Minah,
    contract_id: Address,
}

fn world(premint: i128) -> World {
    let mut env = Env::new();
    let owner = env.generate();
    let stablecoin_address = env.generate();
    let stablecoin_client = ok(deploy_stablecoin_contract(owner, premint));
    let receiver = env.generate();
    let payer = env.generate();

    let (client, contract_id) = create_client(
        &mut env,
        owner,
        stablecoin_address,
        receiver,
        payer,
        PRICE,
        TOTAL_SUPPLY,
        MIN_NFTS_TO_MINT,
        MAX_NFTS_PER_INVESTOR,
        distribution_intervals_vec(),
        roi_percentages_vec(),
    );

    World { env, owner, receiver, payer, stablecoin_client, client, contract_id }
}

#[test]
fn test_nft_metadata() {
    let World { client, .. } = world(1000000);

    // Check NFT metadata
    let name = client.name();
    let symbol = client.symbol();

    assert_eq!(name, String::from("Minah"));
    assert_eq!(symbol, String::from("MNH"));
}

#[test]
fn test_balance_queries_for_non_holders() {
    let World { mut env, client, .. } = world(1000000);

    let random_address = env.generate();

    // Balance should be 0 for non-holders
    assert_eq!(client.balance(random_address), 0);
}

#[test]
fn test_investor_status_for_non_investors() {
    let World { mut env, client, .. } = world(1000000);

    let random_address = env.generate();

    // Should return false for non-investors
    assert!(!client.is_investor(random_address));
}

#[test]
fn test_claimed_amount_for_non_investors() {
    let World { mut env, client, .. } = world(1000000);

    let random_address = env.generate();

    // Should return 0 for non-investors
    assert_eq!(client.see_claimed_amount(random_address), 0);
}

#[test]
fn test_owner_of_nft() {
    let World { mut env, owner, mut stablecoin_client, mut client, contract_id, .. } =
        world(100_000_000 * 10i128.pow(USDC_DECIMALS));

    let investor = env.generate();
    let nft_amount = 10u32;

    mint_nft(&mut client, &mut stablecoin_client, investor, nft_amount, owner, contract_id);

    // Check ownership of minted NFTs
    for i in 0..nft_amount {
        let nft_owner = ok(client.owner_of(i));
        assert_eq!(nft_owner, investor);
    }

    // No unit has been issued beyond those
    assert_eq!(client.owner_of(nft_amount), Err(MinahError::NonExistentToken));
}

#[test]
fn test_approval_for_all() {
    let World { mut env, owner, mut stablecoin_client, mut client, contract_id, .. } =
        world(100_000_000 * 10i128.pow(USDC_DECIMALS));

    let investor = env.generate();
    let operator = env.generate();

    mint_nft(&mut client, &mut stablecoin_client, investor, 10, owner, contract_id);

    // Initially, operator should not be approved
    assert!(!client.is_approved_for_all(investor, operator));

    // Approve operator
    ok(client.approve_for_all(investor, investor, operator, 100));

    // Now operator should be approved
    assert!(client.is_approved_for_all(investor, operator));

    // The approval is for that operator, from that owner
    assert!(!client.is_approved_for_all(operator, investor));
    assert!(!client.is_approved_for_all(investor, contract_id));

    // A grant until ledger 0 takes the approval back
    ok(client.approve_for_all(investor, investor, operator, 0));
    assert!(!client.is_approved_for_all(investor, operator));
}

#[test]
fn test_zero_investors_array_length_initially() {
    let World { client, .. } = world(1000000);

    // Initially, no investors
    assert_eq!(client.get_investors_array_length(), 0);
}

#[test]
fn test_mint_increments_investor_balance() {
    let World { mut env, owner, mut stablecoin_client, mut client, contract_id, .. } =
        world(100_000_000 * 10i128.pow(USDC_DECIMALS));

    let investor = env.generate();

    // Mint first batch
    mint_nft(&mut client, &mut stablecoin_client, investor, 50, owner, contract_id);

    assert_eq!(client.balance(investor), 50);

    // Mint second batch - manually without creating investor again
    let nft_amount = 30u32;
    let nft_price = client.get_nft_price();
    let total_amount = nft_price * (nft_amount as i128) * 10i128.pow(USDC_DECIMALS);

    // Transfer stablecoin to the investor
    ok(stablecoin_client.transfer(owner, investor, total_amount));

    // Approve contract to spend
    ok(stablecoin_client.approve(investor, contract_id, total_amount, 100));

    // Mint the NFTs
    ok(client.mint(&mut stablecoin_client, investor, investor, nft_amount));

    // Balance should be cumulative
    assert_eq!(client.balance(investor), 80);
}

#[test]
fn test_state_progression_through_releases() {
    let World { mut env, owner, mut stablecoin_client, mut client, contract_id, .. } =
        world(100_000_000 * 10i128.pow(6));

    // Initial state
    assert_eq!(client.get_current_state(), InvestmentStatus::BuyingPhase);

    let investor = env.generate();
    mint_nft(&mut client, &mut stablecoin_client, investor, 50, owner, contract_id);

    // Start chronometer changes state
    ok(client.start_chronometer(owner, env.timestamp));
    assert_eq!(client.get_current_state(), InvestmentStatus::BeforeFirstRelease);
}
