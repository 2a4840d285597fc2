use stellhydra_contracts::env::{Address, Env};
use stellhydra_contracts::simple_test::SimpleTest;
use stellhydra_contracts::test_contract::{StellHydraTest, TestError};

fn address(name: &str) -> Address {
    Address::new(name.as_bytes().to_vec())
}

fn env_signed_by(signer: &Address) -> Env {
    let mut env = Env::new(0, 0);
    env.authorize(signer.clone());
    env
}

fn contains(text: &[u8], part: &[u8]) -> bool {
    text.windows(part.len()).any(|w| w == part)
}

#[test]
fn lib_test_initialize() {
    let mut contract = StellHydraTest::new();

    let owner = address("owner");
    let env = env_signed_by(&owner);
    let message = b"Hello StellHydra!".to_vec();

    contract.initialize(&env, owner.clone(), message.clone()).unwrap();

    let data = contract.get_data().unwrap();
    assert_eq!(data.message, message);
    assert_eq!(data.count, 0);
    assert_eq!(data.creator, owner);
}

#[test]
fn test_hello_function() {
    let mut contract = StellHydraTest::new();

    let owner = address("owner");
    let env = env_signed_by(&owner);
    let message = b"Test".to_vec();
    contract.initialize(&env, owner, message).unwrap();

    let name = b"Alice".to_vec();
    let greeting = StellHydraTest::hello(&env, &name);

    assert!(contains(&greeting, &name));
    assert!(contains(&greeting, b"StellHydra"));
    assert_eq!(greeting, b"Hello, Alice! Welcome to StellHydra on Stellar!".to_vec());
}

#[test]
fn test_increment_and_reset() {
    let mut contract = StellHydraTest::new();

    let owner = address("owner");
    let env = env_signed_by(&owner);
    let message = b"Test".to_vec();
    contract.initialize(&env, owner, message).unwrap();

    assert_eq!(contract.increment(&env).unwrap(), 1);
    assert_eq!(contract.increment(&env).unwrap(), 2);
    assert_eq!(contract.get_counter(), 2);

    contract.reset(&env).unwrap();
    assert_eq!(contract.get_counter(), 0);
}

#[test]
fn test_update_message() {
    let mut contract = StellHydraTest::new();

    let owner = address("owner");
    let env = env_signed_by(&owner);
    let initial_message = b"Initial".to_vec();
    contract.initialize(&env, owner, initial_message).unwrap();

    let new_message = b"Updated".to_vec();
    contract.update_message(&env, new_message.clone()).unwrap();

    let data = contract.get_data().unwrap();
    assert_eq!(data.message, new_message);
    assert_eq!(data.count, 1);
}

#[test]
fn uninitialized_contract_holds_nothing() {
    let mut contract = StellHydraTest::new();
    let env = Env::new(5, 6);
    assert_eq!(contract.get_counter(), 0);
    assert_eq!(contract.get_data(), Err(TestError::NotInitialized));
    assert_eq!(contract.get_owner(), Err(TestError::NotInitialized));
    assert_eq!(contract.increment(&env), Err(TestError::NotInitialized));
    assert_eq!(contract.reset(&env), Err(TestError::NotInitialized));
    assert_eq!(contract.update_message(&env, b"x".to_vec()), Err(TestError::NotInitialized));
    assert_eq!(contract.get_counter(), 0);
}

#[test]
fn initialize_once_and_with_authorization() {
    let mut contract = StellHydraTest::new();
    let owner = address("owner");
    let stranger = address("stranger");
    assert_eq!(
        contract.initialize(&env_signed_by(&stranger), owner.clone(), b"m".to_vec()),
        Err(TestError::Unauthorized)
    );
    assert_eq!(contract.get_owner(), Err(TestError::NotInitialized));
    assert_eq!(contract.initialize(&env_signed_by(&owner), owner.clone(), b"m".to_vec()), Ok(()));
    assert_eq!(contract.get_owner(), Ok(owner.clone()));
    assert_eq!(
        contract.initialize(&env_signed_by(&stranger), stranger.clone(), b"n".to_vec()),
        Err(TestError::AlreadyInitialized)
    );
    assert_eq!(contract.get_owner(), Ok(owner));
    assert_eq!(contract.get_data().unwrap().message, b"m".to_vec());
}

#[test]
fn owner_only_operations() {
    let mut contract = StellHydraTest::new();
    let owner = address("owner");
    let stranger = address("stranger");
    let mut env = env_signed_by(&owner);
    env.timestamp = 10;
    contract.initialize(&env, owner.clone(), b"m".to_vec()).unwrap();
    let mut by_stranger = env_signed_by(&stranger);
    by_stranger.timestamp = 20;
    assert_eq!(contract.increment(&by_stranger), Ok(1));
    assert_eq!(contract.get_data().unwrap().timestamp, 20);
    assert_eq!(contract.get_data().unwrap().count, 1);
    assert_eq!(contract.reset(&by_stranger), Err(TestError::Unauthorized));
    assert_eq!(
        contract.update_message(&by_stranger, b"x".to_vec()),
        Err(TestError::Unauthorized)
    );
    assert_eq!(contract.get_counter(), 1);
    assert_eq!(contract.get_data().unwrap().message, b"m".to_vec());
    env.timestamp = 30;
    assert_eq!(contract.update_message(&env, b"x".to_vec()), Ok(()));
    let data = contract.get_data().unwrap();
    assert_eq!((data.message, data.count, data.creator, data.timestamp), (b"x".to_vec(), 2, owner, 30));
    assert_eq!(contract.reset(&env), Ok(()));
    assert_eq!(contract.get_data().unwrap().count, 0);
}

#[test]
fn info_line_writes_decimal_numbers() {
    assert_eq!(
        StellHydraTest::get_info(&Env::new(1700000000, 42)),
        b"StellHydra Test Contract - Ledger: 42, Timestamp: 1700000000".to_vec()
    );
    assert_eq!(
        StellHydraTest::get_info(&Env::new(0, 0)),
        b"StellHydra Test Contract - Ledger: 0, Timestamp: 0".to_vec()
    );
    assert_eq!(
        StellHydraTest::get_info(&Env::new(u64::MAX, u32::MAX)),
        b"StellHydra Test Contract - Ledger: 4294967295, Timestamp: 18446744073709551615".to_vec()
    );
    assert_eq!(
        StellHydraTest::hello(&Env::new(0, 0), &Vec::new()),
        b"Hello, ! Welcome to StellHydra on Stellar!".to_vec()
    );
}

#[test]
fn simple_counter() {
    let mut contract = SimpleTest::new();
    assert_eq!(contract.get_count(), 0);
    assert_eq!(contract.increment(), 1);
    assert_eq!(contract.increment(), 2);
    assert_eq!(contract.get_count(), 2);
    contract.init();
    assert_eq!(contract.get_count(), 0);
    assert_eq!(contract.increment(), 1);
}
