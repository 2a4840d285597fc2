use stellhydra_contracts::env::{Address, Env};
use stellhydra_contracts::escrow::{check_completion, check_refund, StellarEthEscrow};
use stellhydra_contracts::escrow_id::escrow_id_preimage;
use stellhydra_contracts::escrow_types::{
    Error, Escrow, Rejection, TimeLocks, STATUS_COMPLETED, STATUS_LOCKED, STATUS_PENDING,
    STATUS_REFUNDED,
};
use stellhydra_contracts::hashing::{compute_hash_lock, hash_lock_matches, try_compute_hash_lock};

fn address(name: &str) -> Address {
    Address::new(name.as_bytes().to_vec())
}

/// A call at the given time that every listed identity has authorized.
fn env_at(timestamp: u64, signers: &[&Address]) -> Env {
    let mut env = Env::new(timestamp, 0);
    for signer in signers {
        env.authorize((*signer).clone());
    }
    env
}

fn initialized() -> StellarEthEscrow {
    let mut contract = StellarEthEscrow::new();
    contract.initialize();
    contract
}

#[test]
fn test_initialize() {
    let contract = initialized();

    let (counter, pending, locked, completed, refunded) = contract.get_stats();
    assert_eq!(counter, 0);
    assert_eq!(pending, 0);
    assert_eq!(locked, 0);
    assert_eq!(completed, 0);
    assert_eq!(refunded, 0);
}

#[test]
fn test_create_escrow() {
    let mut contract = initialized();

    let maker = address("maker");
    let asset = address("asset");
    let env = env_at(0, &[&maker]);
    let amount = 1000i128;
    let hash_lock = b"test_hash_lock_32_bytes_exactly".to_vec();
    let time_locks = TimeLocks { withdrawal: env.timestamp + 3600, refund: env.timestamp + 7200 };

    let escrow_id = contract
        .create_escrow(&env, maker.clone(), amount, asset.clone(), hash_lock, time_locks)
        .unwrap();
    let escrow = contract.get_escrow(&escrow_id).unwrap();

    assert_eq!(escrow.maker, maker);
    assert_eq!(escrow.amount, amount);
    assert_eq!(escrow.asset, asset);
    assert_eq!(escrow.status, 0);
}

#[test]
fn test_complete_escrow_flow() {
    let mut contract = initialized();

    let maker = address("maker");
    let resolver = address("resolver");
    let asset = address("asset");
    let env = env_at(0, &[&maker, &resolver]);
    let amount = 1000i128;

    let secret = b"my_secret_32_bytes_exactly_here!".to_vec();
    let hash_lock = compute_hash_lock(&secret);

    let time_locks = TimeLocks { withdrawal: env.timestamp + 3600, refund: env.timestamp + 7200 };

    let escrow_id =
        contract.create_escrow(&env, maker, amount, asset, hash_lock, time_locks).unwrap();

    contract.lock_escrow(&env, &escrow_id, &resolver).unwrap();

    let escrow = contract.get_escrow(&escrow_id).unwrap();
    assert_eq!(escrow.status, 1);

    contract.complete_escrow(&env, &escrow_id, secret.clone(), &resolver).unwrap();

    let escrow = contract.get_escrow(&escrow_id).unwrap();
    assert_eq!(escrow.status, 2);
    assert_eq!(escrow.secret, Some(secret));
}

#[test]
fn test_refund_escrow() {
    let mut contract = initialized();

    let maker = address("maker");
    let asset = address("asset");
    let amount = 1000i128;
    let hash_lock = b"test_hash_lock_32_bytes_exactly".to_vec();

    let env = env_at(1000, &[&maker]);

    let time_locks = TimeLocks { withdrawal: 500, refund: env.timestamp + 7200 };

    let escrow_id =
        contract.create_escrow(&env, maker, amount, asset, hash_lock, time_locks).unwrap();

    contract.refund_escrow(&env, &escrow_id).unwrap();

    let escrow = contract.get_escrow(&escrow_id).unwrap();
    assert_eq!(escrow.status, 3);
}

#[test]
fn test_complete_escrow_with_correct_secret() {
    let mut contract = initialized();

    let maker = address("maker");
    let resolver = address("resolver");
    let asset = address("asset");
    let env = env_at(0, &[&maker, &resolver]);
    let amount = 1000i128;

    let secret = b"correct_secret_32_bytes_exactly!".to_vec();
    let hash_lock = compute_hash_lock(&secret);

    let time_locks = TimeLocks { withdrawal: env.timestamp + 3600, refund: env.timestamp + 7200 };

    let escrow_id =
        contract.create_escrow(&env, maker, amount, asset, hash_lock, time_locks).unwrap();
    contract.lock_escrow(&env, &escrow_id, &resolver).unwrap();

    contract.complete_escrow(&env, &escrow_id, secret.clone(), &resolver).unwrap();

    let escrow = contract.get_escrow(&escrow_id).unwrap();
    assert_eq!(escrow.status, 2);
    assert_eq!(escrow.secret, Some(secret));
}

#[test]
fn hash_lock_is_sha256() {
    // SHA-256 of "abc" and of the empty string.
    assert_eq!(
        compute_hash_lock(&b"abc".to_vec()),
        vec![
            186, 120, 22, 191, 143, 1, 207, 234, 65, 65, 64, 222, 93, 174, 34, 35, 176, 3, 97,
            163, 150, 23, 122, 156, 180, 16, 255, 97, 242, 0, 21, 173
        ]
    );
    assert_eq!(
        compute_hash_lock(&Vec::new()),
        vec![
            227, 176, 196, 66, 152, 252, 28, 20, 154, 251, 244, 200, 153, 111, 185, 36, 39, 174,
            65, 228, 100, 155, 147, 76, 164, 149, 153, 27, 120, 82, 184, 85
        ]
    );
}

#[test]
fn hash_lock_of_longest_input() {
    let secret = vec![7u8; 1_000_000];
    assert_eq!(compute_hash_lock(&secret).len(), 32);
}

#[test]
fn id_preimage_is_big_endian() {
    assert_eq!(
        escrow_id_preimage(0x0102030405060708, 0x0a0b0c0d, 0x1112131415161718, -2),
        vec![
            1, 2, 3, 4, 5, 6, 7, 8, 10, 11, 12, 13, 17, 18, 19, 20, 21, 22, 23, 24, 255, 255,
            255, 255, 255, 255, 255, 255, 255, 255, 255, 255, 255, 255, 255, 254
        ]
    );
    assert_eq!(
        escrow_id_preimage(0, 0, 1, 1000),
        vec![
            0, 0, 0, 0, 0, 0, 0, 0, 0, 0, 0, 0, 0, 0, 0, 0, 0, 0, 0, 1, 0, 0, 0, 0, 0, 0, 0, 0,
            0, 0, 0, 0, 0, 0, 3, 232
        ]
    );
    assert_eq!(escrow_id_preimage(u64::MAX, u32::MAX, u64::MAX, -1), vec![255u8; 36]);
    assert_eq!(
        escrow_id_preimage(0, 0, 0, i128::MIN),
        [vec![0u8; 20], vec![128u8], vec![0u8; 15]].concat()
    );
}

#[test]
fn first_id_is_digest_of_preimage() {
    let mut contract = initialized();
    let maker = address("maker");
    let env = env_at(0, &[&maker]);
    let id = contract
        .create_escrow(
            &env,
            maker.clone(),
            1000,
            address("asset"),
            vec![0u8; 32],
            TimeLocks { withdrawal: 10, refund: 20 },
        )
        .unwrap();
    assert_eq!(
        id,
        vec![
            49, 51, 150, 158, 122, 81, 49, 0, 61, 220, 32, 214, 143, 123, 16, 158, 142, 67, 174,
            105, 79, 240, 212, 121, 153, 0, 104, 55, 34, 227, 110, 174
        ]
    );
    assert_eq!(id, compute_hash_lock(&escrow_id_preimage(0, 0, 1, 1000)));
    assert_eq!(contract.get_stats().0, 1);
}

#[test]
fn each_creation_hashes_the_next_counter() {
    let mut contract = initialized();
    let maker = address("maker");
    let env = Env {
        timestamp: 77,
        sequence: 5,
        authorized: vec![maker.clone()],
    };
    let locks = TimeLocks { withdrawal: 100, refund: 200 };
    for counter in 1..=4u64 {
        let id = contract
            .create_escrow(&env, maker.clone(), 9, address("asset"), vec![0u8; 32], locks)
            .unwrap();
        assert_eq!(id, compute_hash_lock(&escrow_id_preimage(77, 5, counter, 9)));
        assert_eq!(contract.get_stats().0, counter);
    }
    // A creation that fails leaves the counter where it was, and the next
    // one hashes the number that follows.
    let _ = contract.create_escrow(&env, maker.clone(), 0, address("asset"), vec![], locks);
    let _ = contract.create_escrow(&Env::new(77, 5), maker.clone(), 9, address("asset"), vec![], locks);
    assert_eq!(contract.get_stats().0, 4);
    let id = contract
        .create_escrow(&env, maker.clone(), 9, address("asset"), vec![0u8; 32], locks)
        .unwrap();
    assert_eq!(id, compute_hash_lock(&escrow_id_preimage(77, 5, 5, 9)));
}

#[test]
fn taken_id_takes_the_counter_back() {
    let mut contract = initialized();
    let maker = address("maker");
    let env = env_at(3, &[&maker]);
    let locks = TimeLocks { withdrawal: 100, refund: 200 };
    // The id that the first creation will derive is taken beforehand.
    let taken = compute_hash_lock(&escrow_id_preimage(3, 0, 2, 8));
    contract
        .create_escrow_with_id(&env, taken.clone(), maker.clone(), 1, address("x"), vec![], locks)
        .unwrap();
    assert_eq!(contract.get_stats(), (1, 1, 0, 0, 0));
    assert_eq!(
        contract.create_escrow(&env, maker.clone(), 8, address("asset"), vec![1], locks),
        Err(Rejection::Failed(Error::EscrowExists))
    );
    assert_eq!(contract.get_stats(), (1, 1, 0, 0, 0));
    assert_eq!(contract.get_escrow(&taken).unwrap().amount, 1);
    // With another amount the same counter gives a free id.
    let id = contract
        .create_escrow(&env, maker.clone(), 7, address("asset"), vec![1], locks)
        .unwrap();
    assert_eq!(id, compute_hash_lock(&escrow_id_preimage(3, 0, 2, 7)));
    assert_eq!(contract.get_stats(), (2, 2, 0, 0, 0));
}

#[test]
fn ids_differ_for_identical_calls() {
    let mut contract = initialized();
    let maker = address("maker");
    let env = env_at(42, &[&maker]);
    let mut ids: Vec<Vec<u8>> = Vec::new();
    for _ in 0..20 {
        let id = contract
            .create_escrow(
                &env,
                maker.clone(),
                1000,
                address("asset"),
                vec![9u8; 32],
                TimeLocks { withdrawal: 100, refund: 200 },
            )
            .unwrap();
        assert_eq!(id.len(), 32);
        assert!(!ids.contains(&id));
        ids.push(id);
    }
    assert_eq!(contract.get_stats(), (20, 20, 0, 0, 0));
}

#[test]
fn create_rejects_amount_that_is_not_positive() {
    let mut contract = initialized();
    let maker = address("maker");
    let env = env_at(0, &[&maker]);
    for amount in [0i128, -1, i128::MIN] {
        let result = contract.create_escrow(
            &env,
            maker.clone(),
            amount,
            address("asset"),
            vec![0u8; 32],
            TimeLocks { withdrawal: 10, refund: 20 },
        );
        assert_eq!(result, Err(Rejection::Failed(Error::InvalidAmount)));
    }
    assert_eq!(contract.get_stats(), (0, 0, 0, 0, 0));
}

#[test]
fn create_needs_the_makers_authorization() {
    let mut contract = initialized();
    let maker = address("maker");
    let env = env_at(0, &[&address("someone else")]);
    let result = contract.create_escrow(
        &env,
        maker,
        5,
        address("asset"),
        vec![0u8; 32],
        TimeLocks { withdrawal: 10, refund: 20 },
    );
    assert_eq!(result, Err(Rejection::Unauthorized));
    assert_eq!(contract.get_stats(), (0, 0, 0, 0, 0));
}

#[test]
fn amount_is_checked_before_authorization() {
    let mut contract = initialized();
    let env = env_at(0, &[]);
    let result = contract.create_escrow(
        &env,
        address("maker"),
        0,
        address("asset"),
        vec![0u8; 32],
        TimeLocks { withdrawal: 10, refund: 20 },
    );
    assert_eq!(result, Err(Rejection::Failed(Error::InvalidAmount)));
}

#[test]
fn create_rejects_an_id_that_is_taken() {
    let mut contract = initialized();
    let maker = address("maker");
    let env = env_at(0, &[&maker]);
    let locks = TimeLocks { withdrawal: 10, refund: 20 };
    let id = vec![5u8; 32];
    assert_eq!(
        contract.create_escrow_with_id(
            &env,
            id.clone(),
            maker.clone(),
            7,
            address("asset"),
            vec![1u8; 32],
            locks
        ),
        Ok(id.clone())
    );
    assert_eq!(
        contract.create_escrow_with_id(
            &env,
            id.clone(),
            maker.clone(),
            8,
            address("other asset"),
            vec![2u8; 32],
            locks
        ),
        Err(Rejection::Failed(Error::EscrowExists))
    );
    // The first record stands as it was, and the counter did not move.
    let kept = contract.get_escrow(&id).unwrap();
    assert_eq!(kept.amount, 7);
    assert_eq!(kept.hash_lock, vec![1u8; 32]);
    assert_eq!(contract.get_stats(), (1, 1, 0, 0, 0));
}

#[test]
fn scenario_create_lock_complete() {
    let mut contract = initialized();
    let maker = address("M");
    let resolver = address("R");
    let asset = address("A");
    let now = 1_700_000_000u64;
    let env = env_at(now, &[&maker, &resolver]);
    let secret = b"s1".to_vec();
    let hash_lock = compute_hash_lock(&secret);
    assert_eq!(
        hash_lock,
        vec![
            232, 188, 22, 60, 130, 238, 225, 135, 51, 40, 140, 125, 74, 198, 54, 219, 58, 109,
            235, 1, 62, 242, 211, 123, 104, 50, 43, 226, 14, 220, 69, 204
        ]
    );

    let id = contract
        .create_escrow(
            &env,
            maker.clone(),
            1000,
            asset.clone(),
            hash_lock.clone(),
            TimeLocks { withdrawal: now + 3600, refund: now + 7200 },
        )
        .unwrap();
    let created = contract.get_escrow(&id).unwrap();
    assert_eq!(
        created,
        Escrow {
            id: id.clone(),
            maker,
            amount: 1000,
            asset,
            hash_lock,
            time_lock: now + 3600,
            status: STATUS_PENDING,
            secret: None,
            created_at: now,
        }
    );

    assert_eq!(contract.lock_escrow(&env, &id, &resolver), Ok(()));
    assert_eq!(contract.get_escrow(&id).unwrap().status, STATUS_LOCKED);

    let later = env_at(now + 3600, &[&resolver]);
    assert_eq!(contract.complete_escrow(&later, &id, secret.clone(), &resolver), Ok(()));
    let done = contract.get_escrow(&id).unwrap();
    assert_eq!(done.status, STATUS_COMPLETED);
    assert_eq!(done.secret, Some(secret.clone()));

    assert_eq!(
        contract.lock_escrow(&later, &id, &resolver),
        Err(Rejection::Failed(Error::InvalidStatus))
    );
    assert_eq!(
        contract.complete_escrow(&later, &id, secret.clone(), &resolver),
        Err(Rejection::Failed(Error::InvalidStatus))
    );
    let still = contract.get_escrow(&id).unwrap();
    assert_eq!(still, done);
}

#[test]
fn scenario_expired_at_creation() {
    let mut contract = initialized();
    let maker = address("M");
    let resolver = address("R");
    let now = 5000u64;
    let env = env_at(now, &[&maker, &resolver]);
    let secret = b"s1".to_vec();
    let id = contract
        .create_escrow(
            &env,
            maker,
            1000,
            address("A"),
            compute_hash_lock(&secret),
            TimeLocks { withdrawal: now - 1, refund: now + 7200 },
        )
        .unwrap();
    contract.lock_escrow(&env, &id, &resolver).unwrap();
    assert_eq!(
        contract.complete_escrow(&env, &id, secret, &resolver),
        Err(Rejection::Failed(Error::TimelockExpired))
    );
    assert_eq!(contract.get_escrow(&id).unwrap().status, STATUS_LOCKED);
    assert_eq!(contract.refund_escrow(&env, &id), Ok(()));
    let refunded = contract.get_escrow(&id).unwrap();
    assert_eq!(refunded.status, STATUS_REFUNDED);
    assert_eq!(refunded.secret, None);
}

#[test]
fn scenario_wrong_secret() {
    let mut contract = initialized();
    let maker = address("M");
    let resolver = address("R");
    let env = env_at(10, &[&maker, &resolver]);
    let id = contract
        .create_escrow(
            &env,
            maker,
            1000,
            address("A"),
            compute_hash_lock(&b"s1".to_vec()),
            TimeLocks { withdrawal: 100, refund: 200 },
        )
        .unwrap();
    contract.lock_escrow(&env, &id, &resolver).unwrap();
    assert_eq!(
        contract.complete_escrow(&env, &id, b"s2".to_vec(), &resolver),
        Err(Rejection::Failed(Error::InvalidSecret))
    );
    let record = contract.get_escrow(&id).unwrap();
    assert_eq!(record.status, STATUS_LOCKED);
    assert_eq!(record.secret, None);
}

#[test]
fn wrong_secret_after_expiry_is_invalid_secret() {
    let mut contract = initialized();
    let maker = address("M");
    let resolver = address("R");
    let env = env_at(500, &[&maker, &resolver]);
    let id = contract
        .create_escrow(
            &env,
            maker,
            1,
            address("A"),
            compute_hash_lock(&b"s1".to_vec()),
            TimeLocks { withdrawal: 100, refund: 200 },
        )
        .unwrap();
    contract.lock_escrow(&env, &id, &resolver).unwrap();
    assert_eq!(
        contract.complete_escrow(&env, &id, b"s2".to_vec(), &resolver),
        Err(Rejection::Failed(Error::InvalidSecret))
    );
}

#[test]
fn complete_needs_a_locked_escrow() {
    let mut contract = initialized();
    let maker = address("M");
    let resolver = address("R");
    let env = env_at(10, &[&maker, &resolver]);
    let secret = b"s1".to_vec();
    let id = contract
        .create_escrow(
            &env,
            maker,
            1,
            address("A"),
            compute_hash_lock(&secret),
            TimeLocks { withdrawal: 100, refund: 200 },
        )
        .unwrap();
    // Still pending: the status is looked at before the secret.
    assert_eq!(
        contract.complete_escrow(&env, &id, secret, &resolver),
        Err(Rejection::Failed(Error::InvalidStatus))
    );
    assert_eq!(
        contract.complete_escrow(&env, &id, b"wrong".to_vec(), &resolver),
        Err(Rejection::Failed(Error::InvalidStatus))
    );
}

#[test]
fn unknown_id_is_not_found() {
    let mut contract = initialized();
    let resolver = address("R");
    let env = env_at(10, &[&resolver]);
    let id = vec![1u8; 32];
    assert_eq!(
        contract.lock_escrow(&env, &id, &resolver),
        Err(Rejection::Failed(Error::EscrowNotFound))
    );
    assert_eq!(
        contract.complete_escrow(&env, &id, b"s".to_vec(), &resolver),
        Err(Rejection::Failed(Error::EscrowNotFound))
    );
    assert_eq!(
        contract.refund_escrow(&env, &id),
        Err(Rejection::Failed(Error::EscrowNotFound))
    );
    assert_eq!(contract.get_escrow(&id), None);
}

#[test]
fn lock_and_complete_need_the_resolvers_authorization() {
    let mut contract = initialized();
    let maker = address("M");
    let resolver = address("R");
    let env = env_at(10, &[&maker]);
    let secret = b"s1".to_vec();
    let id = contract
        .create_escrow(
            &env,
            maker,
            1,
            address("A"),
            compute_hash_lock(&secret),
            TimeLocks { withdrawal: 100, refund: 200 },
        )
        .unwrap();
    assert_eq!(contract.lock_escrow(&env, &id, &resolver), Err(Rejection::Unauthorized));
    // Authorization comes before the lookup.
    assert_eq!(
        contract.lock_escrow(&env, &vec![0u8; 32], &resolver),
        Err(Rejection::Unauthorized)
    );
    assert_eq!(
        contract.complete_escrow(&env, &id, secret, &resolver),
        Err(Rejection::Unauthorized)
    );
    assert_eq!(contract.get_escrow(&id).unwrap().status, STATUS_PENDING);
}

#[test]
fn refund_belongs_to_the_stored_maker() {
    let mut contract = initialized();
    let maker = address("M");
    let resolver = address("R");
    let env = env_at(10, &[&maker]);
    let id = contract
        .create_escrow(
            &env,
            maker.clone(),
            1,
            address("A"),
            vec![0u8; 32],
            TimeLocks { withdrawal: 100, refund: 200 },
        )
        .unwrap();
    let by_resolver = env_at(101, &[&resolver]);
    assert_eq!(contract.refund_escrow(&by_resolver, &id), Err(Rejection::Unauthorized));
    assert_eq!(contract.get_escrow(&id).unwrap().status, STATUS_PENDING);
    // The lookup comes before the authorization.
    assert_eq!(
        contract.refund_escrow(&by_resolver, &vec![0u8; 32]),
        Err(Rejection::Failed(Error::EscrowNotFound))
    );
    let by_maker = env_at(101, &[&maker]);
    assert_eq!(contract.refund_escrow(&by_maker, &id), Ok(()));
}

#[test]
fn time_lock_boundary() {
    let maker = address("M");
    let resolver = address("R");
    let secret = b"s1".to_vec();
    let start = |contract: &mut StellarEthEscrow| -> Vec<u8> {
        let env = env_at(10, &[&maker, &resolver]);
        let id = contract
            .create_escrow(
                &env,
                maker.clone(),
                1,
                address("A"),
                compute_hash_lock(&secret),
                TimeLocks { withdrawal: 100, refund: 200 },
            )
            .unwrap();
        contract.lock_escrow(&env, &id, &resolver).unwrap();
        id
    };
    let at_lock = env_at(100, &[&maker, &resolver]);
    let past_lock = env_at(101, &[&maker, &resolver]);

    // At the time lock itself the secret still completes and refund does not work.
    let mut contract = initialized();
    let id = start(&mut contract);
    assert_eq!(
        contract.refund_escrow(&at_lock, &id),
        Err(Rejection::Failed(Error::TimelockNotExpired))
    );
    assert_eq!(contract.complete_escrow(&at_lock, &id, secret.clone(), &resolver), Ok(()));

    // One second later it is the other way round.
    let mut contract = initialized();
    let id = start(&mut contract);
    assert_eq!(
        contract.complete_escrow(&past_lock, &id, secret.clone(), &resolver),
        Err(Rejection::Failed(Error::TimelockExpired))
    );
    assert_eq!(contract.refund_escrow(&past_lock, &id), Ok(()));
}

#[test]
fn terminal_records_refuse_every_operation() {
    let mut contract = initialized();
    let maker = address("M");
    let resolver = address("R");
    let env = env_at(10, &[&maker, &resolver]);
    let late = env_at(1000, &[&maker, &resolver]);
    let secret = b"s1".to_vec();
    let locks = TimeLocks { withdrawal: 100, refund: 200 };

    let completed = contract
        .create_escrow(&env, maker.clone(), 1, address("A"), compute_hash_lock(&secret), locks)
        .unwrap();
    contract.lock_escrow(&env, &completed, &resolver).unwrap();
    contract.complete_escrow(&env, &completed, secret.clone(), &resolver).unwrap();

    let refunded = contract
        .create_escrow(&env, maker.clone(), 2, address("A"), compute_hash_lock(&secret), locks)
        .unwrap();
    contract.refund_escrow(&late, &refunded).unwrap();

    for id in [&completed, &refunded] {
        let before = contract.get_escrow(id).unwrap();
        for now in [&env, &late] {
            assert_eq!(
                contract.lock_escrow(now, id, &resolver),
                Err(Rejection::Failed(Error::InvalidStatus))
            );
            assert_eq!(
                contract.complete_escrow(now, id, secret.clone(), &resolver),
                Err(Rejection::Failed(Error::InvalidStatus))
            );
            assert_eq!(
                contract.refund_escrow(now, id),
                Err(Rejection::Failed(Error::InvalidStatus))
            );
        }
        assert_eq!(contract.get_escrow(id).unwrap(), before);
    }
    assert_eq!(contract.get_stats(), (2, 0, 0, 1, 1));
}

#[test]
fn stats_add_up_to_the_counter() {
    let mut contract = initialized();
    let maker = address("M");
    let resolver = address("R");
    let env = env_at(10, &[&maker, &resolver]);
    let late = env_at(1000, &[&maker, &resolver]);
    let secret = b"s1".to_vec();
    let locks = TimeLocks { withdrawal: 100, refund: 200 };
    let mut ids = Vec::new();
    for amount in 1..=6i128 {
        ids.push(
            contract
                .create_escrow(
                    &env,
                    maker.clone(),
                    amount,
                    address("A"),
                    compute_hash_lock(&secret),
                    locks,
                )
                .unwrap(),
        );
        let (counter, p, l, c, r) = contract.get_stats();
        assert_eq!(counter, amount as u64);
        assert_eq!((p + l + c + r) as u64, counter);
    }
    contract.lock_escrow(&env, &ids[0], &resolver).unwrap();
    contract.lock_escrow(&env, &ids[1], &resolver).unwrap();
    contract.lock_escrow(&env, &ids[2], &resolver).unwrap();
    contract.complete_escrow(&env, &ids[0], secret.clone(), &resolver).unwrap();
    contract.refund_escrow(&late, &ids[1]).unwrap();
    contract.refund_escrow(&late, &ids[3]).unwrap();
    assert_eq!(contract.get_stats(), (6, 2, 1, 1, 2));
    // A failed call moves nothing.
    let _ = contract.create_escrow(&env, maker.clone(), 0, address("A"), vec![], locks);
    let _ = contract.lock_escrow(&env, &ids[0], &resolver);
    assert_eq!(contract.get_stats(), (6, 2, 1, 1, 2));
}

#[test]
fn escrows_by_maker_come_in_order_of_their_ids() {
    let mut contract = initialized();
    let alice = address("alice");
    let bob = address("bob");
    let env = env_at(10, &[&alice, &bob]);
    let locks = TimeLocks { withdrawal: 100, refund: 200 };
    for (id, maker, amount) in [
        (vec![3u8, 0], &alice, 30i128),
        (vec![1u8], &bob, 10),
        (vec![2u8], &alice, 20),
        (vec![3u8], &alice, 25),
        (vec![0u8, 9, 9], &bob, 5),
    ] {
        contract
            .create_escrow_with_id(&env, id, maker.clone(), amount, address("A"), vec![], locks)
            .unwrap();
    }
    let of_alice: Vec<(Vec<u8>, i128)> = contract
        .get_escrows_by_maker(&alice)
        .into_iter()
        .map(|e| (e.id, e.amount))
        .collect();
    assert_eq!(of_alice, vec![(vec![2u8], 20), (vec![3u8], 25), (vec![3u8, 0], 30)]);
    let of_bob: Vec<Vec<u8>> =
        contract.get_escrows_by_maker(&bob).into_iter().map(|e| e.id).collect();
    assert_eq!(of_bob, vec![vec![0u8, 9, 9], vec![1u8]]);
    assert!(contract.get_escrows_by_maker(&address("carol")).is_empty());
    assert_eq!(contract.get_escrow(&vec![3u8]).unwrap().amount, 25);
    assert_eq!(contract.get_escrow(&vec![3u8, 1]), None);
}

#[test]
fn initialize_wipes_the_contract() {
    let mut contract = initialized();
    let maker = address("M");
    let env = env_at(10, &[&maker]);
    let locks = TimeLocks { withdrawal: 100, refund: 200 };
    let id = contract
        .create_escrow(&env, maker.clone(), 1, address("A"), vec![0u8; 32], locks)
        .unwrap();
    contract.initialize();
    assert_eq!(contract.get_stats(), (0, 0, 0, 0, 0));
    assert_eq!(contract.get_escrow(&id), None);
    // The counter starts again, so the same call derives the same id again.
    let again = contract
        .create_escrow(&env, maker, 1, address("A"), vec![0u8; 32], locks)
        .unwrap();
    assert_eq!(again, id);
}

#[test]
fn completion_and_refund_checks() {
    let record = |status: u32, secret: Option<Vec<u8>>| Escrow {
        id: vec![1],
        maker: address("M"),
        amount: 1,
        asset: address("A"),
        hash_lock: vec![7, 7],
        time_lock: 100,
        status,
        secret,
        created_at: 0,
    };
    let locked = record(STATUS_LOCKED, None);
    assert_eq!(check_completion(&locked, &vec![7, 7], 100), Ok(()));
    assert_eq!(check_completion(&locked, &vec![7, 7], 101), Err(Error::TimelockExpired));
    assert_eq!(check_completion(&locked, &vec![7], 100), Err(Error::InvalidSecret));
    assert_eq!(check_completion(&locked, &vec![7, 8], 101), Err(Error::InvalidSecret));
    for status in [STATUS_PENDING, STATUS_COMPLETED, STATUS_REFUNDED] {
        let other = record(status, None);
        assert_eq!(check_completion(&other, &vec![7, 7], 100), Err(Error::InvalidStatus));
    }
    for status in [STATUS_PENDING, STATUS_LOCKED] {
        let open = record(status, None);
        assert_eq!(check_refund(&open, 101), Ok(()));
        assert_eq!(check_refund(&open, 100), Err(Error::TimelockNotExpired));
    }
    for status in [STATUS_COMPLETED, STATUS_REFUNDED] {
        let closed = record(status, None);
        assert_eq!(check_refund(&closed, 101), Err(Error::InvalidStatus));
        assert_eq!(check_refund(&closed, 0), Err(Error::InvalidStatus));
    }
}

#[test]
fn error_codes() {
    assert_eq!(Error::InvalidAmount.code(), 1);
    assert_eq!(Error::EscrowExists.code(), 2);
    assert_eq!(Error::EscrowNotFound.code(), 3);
    assert_eq!(Error::InvalidStatus.code(), 4);
    assert_eq!(Error::InvalidSecret.code(), 5);
    assert_eq!(Error::TimelockExpired.code(), 6);
    assert_eq!(Error::TimelockNotExpired.code(), 7);
}

#[test]
fn secrets_open_their_hash_locks_only() {
    let lock = compute_hash_lock(&b"s1".to_vec());
    assert!(hash_lock_matches(&b"s1".to_vec(), &lock));
    assert!(!hash_lock_matches(&b"s2".to_vec(), &lock));
    assert!(!hash_lock_matches(&b"s1".to_vec(), &lock[..31].to_vec()));
    assert!(!hash_lock_matches(&lock, &lock));
    assert!(!hash_lock_matches(&Vec::new(), &Vec::new()));
}

#[test]
fn secrets_that_are_too_long_are_not_hashed() {
    assert_eq!(try_compute_hash_lock(&b"abc".to_vec()), Some(compute_hash_lock(&b"abc".to_vec())));
    assert_eq!(try_compute_hash_lock(&vec![1u8; 1_000_000]).map(|d| d.len()), Some(32));
    assert_eq!(try_compute_hash_lock(&vec![1u8; 1_000_001]), None);

    let mut contract = initialized();
    let maker = address("M");
    let resolver = address("R");
    let env = env_at(10, &[&maker, &resolver]);
    let secret = vec![9u8; 1_000_000];
    let id = contract
        .try_create_escrow(
            &env,
            maker,
            1,
            address("A"),
            compute_hash_lock(&secret),
            TimeLocks { withdrawal: 100, refund: 200 },
        )
        .unwrap()
        .unwrap();
    contract.lock_escrow(&env, &id, &resolver).unwrap();
    assert_eq!(contract.try_complete_escrow(&env, &id, vec![9u8; 1_000_001], &resolver), None);
    assert_eq!(contract.get_escrow(&id).unwrap().status, STATUS_LOCKED);
    assert_eq!(
        contract.try_complete_escrow(&env, &id, vec![8u8; 1_000_000], &resolver),
        Some(Err(Rejection::Failed(Error::InvalidSecret)))
    );
    assert_eq!(contract.try_complete_escrow(&env, &id, secret.clone(), &resolver), Some(Ok(())));
    assert_eq!(contract.get_escrow(&id).unwrap().secret, Some(secret));
}
