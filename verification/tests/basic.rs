use minah::{deploy_stablecoin_contract, Address, Config, Minah, MinahError};

/// Hands out addresses that have not been used before.
struct Env {
    next_id: u64,
    timestamp: u64,
}

impl Env {
    fn new() -> Env {
        Env { next_id: 1, timestamp: 0 }
    }

    fn generate(&mut self) -> Address {
        let address = Address::new(self.next_id);
        self.next_id += 1;
        address
    }
}

fn ok<T>(outcome: Result<T, MinahError>) -> T {
    match outcome {
        Ok(value) => value,
        Err(error) => panic!("{}", error.message()),
    }
}

fn create_client(
    env: &mut Env,
    owner: Address,
    stablecoin_address: Address,
    receiver: Address,
    payer: Address,
) -> Minah {
    let contract_id = env.generate();
    Minah::new(contract_id, owner, stablecoin_address, receiver, payer, Config::standard())
}

#[test]
fn test_hello() {
    let words = Minah::hello(String::from("Dev"));
    assert_eq!(words, vec![String::from("Hello"), String::from("Dev")]);
}

#[test]
fn test_stablecoin_setter_getter() {
    let mut env = Env::new();

    let receiver = env.generate();
    let payer = env.generate();
    let owner = env.generate();
    let stablecoin_address = env.generate();
    let _stablecoin = ok(deploy_stablecoin_contract(owner, 1000000));
    let mut client = create_client(&mut env, owner, stablecoin_address, receiver, payer);

    // Initially, the stablecoin should be set to stablecoin_address
    let initial_stablecoin = client.get_stablecoin();
    assert_eq!(initial_stablecoin, stablecoin_address);

    // Change the stablecoin address
    let new_stablecoin = env.generate();

    ok(client.set_stablecoin(owner, new_stablecoin));

    // Verify that the stablecoin address has been updated
    let updated_stablecoin = client.get_stablecoin();

    assert_eq!(updated_stablecoin, new_stablecoin);
}

#[test]
fn test_receiver_payer_setter_getter() {
    let mut env = Env::new();
    let initial_receiver = env.generate();
    let initial_payer = env.generate();
    let owner = env.generate();
    let stablecoin_address = env.generate();
    let _stablecoin = ok(deploy_stablecoin_contract(owner, 1000000));
    let mut client =
        create_client(&mut env, owner, stablecoin_address, initial_receiver, initial_payer);

    // Initially, the receiver and payer should be set to initial_receiver and initial_payer
    let receiver = client.get_receiver();
    let payer = client.get_payer();
    assert_eq!(receiver, initial_receiver);
    assert_eq!(payer, initial_payer);

    // Change the receiver and payer addresses
    let new_receiver = env.generate();
    let new_payer = env.generate();
    ok(client.set_receiver(owner, new_receiver));
    ok(client.set_payer(owner, new_payer));

    // Verify that the receiver and payer addresses have been updated
    let updated_receiver = client.get_receiver();
    let updated_payer = client.get_payer();
    assert_eq!(updated_receiver, new_receiver);
    assert_eq!(updated_payer, new_payer);
}

#[test]
fn test_investor_creation() {
    let mut env = Env::new();
    let receiver = env.generate();
    let payer = env.generate();
    let owner = env.generate();
    let stablecoin_address = env.generate();
    let _stablecoin = ok(deploy_stablecoin_contract(owner, 1000000));

    let mut client = create_client(&mut env, owner, stablecoin_address, receiver, payer);

    let new_investor = env.generate();
    ok(client.create_investor(owner, new_investor));

    // Check if the investor was created successfully
    let is_investor = client.is_investor(new_investor);
    assert!(is_investor);

    // Check if the investors array length is 1
    let investors_array_length = client.get_investors_array_length();
    assert_eq!(investors_array_length, 1);

    // Check of the claimed amount for the new investor is initialized to 0
    let claimed_amount = client.see_claimed_amount(new_investor);
    assert_eq!(claimed_amount, 0);
}

#[test]
#[should_panic(expected = "INVESTOR_ALREADY_EXISTS")]
fn test_double_investor_creation() {
    let mut env = Env::new();
    let receiver = env.generate();
    let payer = env.generate();
    let owner = env.generate();
    let stablecoin_address = env.generate();
    let _stablecoin = ok(deploy_stablecoin_contract(owner, 1000000));

    let mut client = create_client(&mut env, owner, stablecoin_address, receiver, payer);

    let new_investor = env.generate();
    ok(client.create_investor(owner, new_investor));

    // Check if the investor was created successfully
    let is_investor = client.is_investor(new_investor);
    assert!(is_investor);

    // Attempt to create the same investor again, which should panic
    ok(client.create_investor(owner, new_investor));
}

#[test]
fn basic_test_start_chronometer() {
    let mut env = Env::new();
    let receiver = env.generate();
    let payer = env.generate();
    let owner = env.generate();
    let stablecoin_address = env.generate();
    let _stablecoin = ok(deploy_stablecoin_contract(owner, 1000000));
    let mut client = create_client(&mut env, owner, stablecoin_address, receiver, payer);

    // Initially, the chronometer should not be started
    let is_started = client.is_chronometer_started();
    assert!(!is_started);

    // Start the chronometer
    ok(client.start_chronometer(owner, env.timestamp));

    // Verify that the chronometer has been started
    let is_started = client.is_chronometer_started();
    assert!(is_started);

    // Verify that the start time is set to the current ledger timestamp
    let start_time = client.get_begin_date();
    let current_time = env.timestamp;
    assert_eq!(start_time, current_time);
}

#[test]
fn test_deploy_mock_stablecoin() {
    let mut env = Env::new();

    let owner = env.generate();
    let stablecoin_client = ok(deploy_stablecoin_contract(owner, 1000000));

    // Verify metadata
    let name = stablecoin_client.name();
    let symbol = stablecoin_client.symbol();
    let decimals = stablecoin_client.decimals();

    let expected_name = String::from("USDC Mock Token");
    let expected_symbol = String::from("USDC");
    let expected_decimals = 6u32;

    assert_eq!(name, expected_name);
    assert_eq!(symbol, expected_symbol);
    assert_eq!(decimals, expected_decimals);
}
