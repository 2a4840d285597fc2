use stellhydra_contracts::amounts::{checked_difference, checked_mul_div, checked_sum};
use stellhydra_contracts::env::{Address, Env};
use stellhydra_contracts::liquidity_pool::{
    quote_deposit, quote_swap, quote_withdrawal, LiquidityPool, LiquidityPosition, PoolError,
    PoolInfo,
};
use stellhydra_contracts::roots::isqrt;
use stellhydra_contracts::router::{
    execute_route, get_dex_quote, DexInfo, Payment, RouteStep, Router, RouterError, SwapRoute,
};

fn address(name: &str) -> Address {
    Address::new(name.as_bytes().to_vec())
}

fn env_at(timestamp: u64, signers: &[&Address]) -> Env {
    let mut env = Env::new(timestamp, 0);
    for signer in signers {
        env.authorize((*signer).clone());
    }
    env
}

fn pool_with(reserve_a: i128, reserve_b: i128, total_shares: i128, fee_rate: u32) -> PoolInfo {
    PoolInfo {
        token_a: address("A"),
        token_b: address("B"),
        reserve_a,
        reserve_b,
        total_shares,
        fee_rate,
    }
}

#[test]
fn amounts_round_toward_zero() {
    assert_eq!(checked_mul_div(7, 3, 2), Some(10));
    assert_eq!(checked_mul_div(-7, 3, 2), Some(-10));
    assert_eq!(checked_mul_div(7, -3, 2), Some(-10));
    assert_eq!(checked_mul_div(7, 3, -2), Some(-10));
    assert_eq!(checked_mul_div(-7, 3, -2), Some(10));
    assert_eq!(checked_mul_div(0, 5, -3), Some(0));
    assert_eq!(checked_mul_div(1, 1, 0), None);
    assert_eq!(checked_mul_div(i128::MAX, 2, 2), None);
    assert_eq!(checked_mul_div(i128::MIN, 1, -1), None);
    assert_eq!(checked_mul_div(i128::MAX, 1, 1), Some(i128::MAX));
    assert_eq!(checked_sum(i128::MAX, 1), None);
    assert_eq!(checked_sum(i128::MAX, -1), Some(i128::MAX - 1));
    assert_eq!(checked_difference(i128::MIN, 1), None);
    assert_eq!(checked_difference(5, 7), Some(-2));
}

#[test]
fn integer_square_roots() {
    assert_eq!(isqrt(0), 0);
    assert_eq!(isqrt(1), 1);
    assert_eq!(isqrt(3), 1);
    assert_eq!(isqrt(4), 2);
    assert_eq!(isqrt(99), 9);
    assert_eq!(isqrt(100), 10);
    assert_eq!(isqrt(4_000_000), 2000);
    assert_eq!(isqrt(i128::MAX), 13_043_817_825_332_782_212);
    let root: i128 = 13_043_817_825_332_782_212;
    assert_eq!(isqrt(root * root), root);
    assert_eq!(isqrt(root * root - 1), root - 1);
}

#[test]
fn deposit_quotes() {
    // Into an empty pool: what is offered, for the root of the product.
    assert_eq!(quote_deposit(&pool_with(0, 0, 0, 30), 1000, 4000, 0, 0), Ok((1000, 4000, 2000)));
    assert_eq!(quote_deposit(&pool_with(0, 0, 0, 30), 3, 5, 99, 99), Ok((3, 5, 3)));
    assert_eq!(quote_deposit(&pool_with(0, 0, 0, 30), -3, -5, 0, 0), Ok((-3, -5, 3)));
    assert_eq!(quote_deposit(&pool_with(0, 0, 0, 30), -3, 5, 0, 0), Err(PoolError::Arithmetic));
    assert_eq!(
        quote_deposit(&pool_with(0, 0, 0, 30), i128::MAX, 2, 0, 0),
        Err(PoolError::Arithmetic)
    );
    // Into a pool with reserves: in their proportion.
    let pool = pool_with(1000, 4000, 2000, 30);
    assert_eq!(quote_deposit(&pool, 500, 3000, 0, 0), Ok((500, 2000, 1000)));
    assert_eq!(quote_deposit(&pool, 500, 1000, 0, 0), Ok((250, 1000, 500)));
    assert_eq!(quote_deposit(&pool, 500, 2000, 500, 2000), Ok((500, 2000, 1000)));
    assert_eq!(
        quote_deposit(&pool, 500, 3000, 0, 2001),
        Err(PoolError::InsufficientLiquidityAmounts)
    );
    assert_eq!(
        quote_deposit(&pool, 500, 1000, 251, 0),
        Err(PoolError::InsufficientLiquidityAmounts)
    );
    // Shares go by the token that gives fewer.
    assert_eq!(quote_deposit(&pool_with(3, 7, 10, 0), 2, 100, 0, 0), Ok((2, 4, 5)));
    // A reserve of zero under shares cannot be divided by.
    assert_eq!(quote_deposit(&pool_with(0, 4000, 2000, 30), 1, 1, 0, 0), Err(PoolError::Arithmetic));
}

#[test]
fn withdrawal_and_swap_quotes() {
    let pool = pool_with(1600, 5629, 3000, 30);
    assert_eq!(quote_withdrawal(&pool, 1000, 0, 0), Ok((533, 1876)));
    assert_eq!(quote_withdrawal(&pool, 1000, 533, 1876), Ok((533, 1876)));
    assert_eq!(quote_withdrawal(&pool, 1000, 534, 0), Err(PoolError::InsufficientWithdrawal));
    assert_eq!(quote_withdrawal(&pool, 1000, 0, 1877), Err(PoolError::InsufficientWithdrawal));
    assert_eq!(quote_withdrawal(&pool_with(1, 1, 0, 30), 1, 0, 0), Err(PoolError::Arithmetic));

    // 100 in, 0.3 percent fee: 99 count; 99 * 6000 / 1599 = 371.
    assert_eq!(quote_swap(1500, 6000, 30, 100), Some(371));
    assert_eq!(quote_swap(1500, 6000, 0, 100), Some(375));
    assert_eq!(quote_swap(1500, 6000, 10_000, 100), Some(0));
    assert_eq!(quote_swap(1500, 6000, 30, 0), Some(0));
    assert_eq!(quote_swap(0, 6000, 30, 0), None);
    assert_eq!(quote_swap(1500, 6000, 30, i128::MAX), None);
}

fn funded_pool(admin: &Address, user: &Address) -> LiquidityPool {
    let mut pool = LiquidityPool::new();
    pool.initialize(&env_at(0, &[admin]), admin.clone(), address("A"), address("B"), 30).unwrap();
    assert_eq!(pool.add_liquidity(&env_at(0, &[user]), user, 1000, 4000, 0, 0), Ok((1000, 4000, 2000)));
    pool
}

#[test]
fn pool_lifecycle() {
    let admin = address("admin");
    let alice = address("alice");
    let bob = address("bob");
    let mut pool = funded_pool(&admin, &alice);
    assert_eq!(pool.get_pool_info(), Ok(pool_with(1000, 4000, 2000, 30)));
    assert_eq!(
        pool.get_position(&alice),
        Some(LiquidityPosition {
            owner: alice.clone(),
            shares: 2000,
            token_a_deposited: 1000,
            token_b_deposited: 4000
        })
    );
    assert_eq!(pool.get_position(&bob), None);

    let by_bob = env_at(1, &[&bob]);
    assert_eq!(pool.add_liquidity(&by_bob, &bob, 500, 3000, 0, 0), Ok((500, 2000, 1000)));
    assert_eq!(pool.get_pool_info(), Ok(pool_with(1500, 6000, 3000, 30)));
    assert_eq!(
        pool.get_position(&bob),
        Some(LiquidityPosition {
            owner: bob.clone(),
            shares: 1000,
            token_a_deposited: 500,
            token_b_deposited: 2000
        })
    );

    assert_eq!(pool.swap(&by_bob, &bob, &address("A"), 100, 371), Ok(371));
    assert_eq!(pool.get_pool_info(), Ok(pool_with(1600, 5629, 3000, 30)));
    // The other way round: 1000 of B in, 997 count, 997 * 1600 / 6626 = 240.
    assert_eq!(pool.swap(&by_bob, &bob, &address("B"), 1000, 0), Ok(240));
    assert_eq!(pool.get_pool_info(), Ok(pool_with(1360, 6629, 3000, 30)));

    let by_alice = env_at(2, &[&alice]);
    // 500 of 3000 shares: 1360 * 500 / 3000 = 226, 6629 * 500 / 3000 = 1104.
    assert_eq!(pool.remove_liquidity(&by_alice, &alice, 500, 0, 0), Ok((226, 1104)));
    assert_eq!(pool.get_pool_info(), Ok(pool_with(1134, 5525, 2500, 30)));
    // What counts as deposited goes down to three quarters.
    assert_eq!(
        pool.get_position(&alice),
        Some(LiquidityPosition {
            owner: alice.clone(),
            shares: 1500,
            token_a_deposited: 750,
            token_b_deposited: 3000
        })
    );
}

#[test]
fn pool_refusals() {
    let admin = address("admin");
    let alice = address("alice");
    let bob = address("bob");
    let by_alice = env_at(0, &[&alice]);
    let by_bob = env_at(0, &[&bob]);

    let mut empty = LiquidityPool::new();
    assert_eq!(empty.get_pool_info(), Err(PoolError::NotInitialized));
    assert_eq!(empty.add_liquidity(&by_alice, &alice, 1, 1, 0, 0), Err(PoolError::NotInitialized));
    assert_eq!(empty.remove_liquidity(&by_alice, &alice, 1, 0, 0), Err(PoolError::NotInitialized));
    assert_eq!(empty.swap(&by_alice, &alice, &address("A"), 1, 0), Err(PoolError::NotInitialized));
    assert_eq!(
        empty.initialize(&by_alice, admin.clone(), address("A"), address("B"), 30),
        Err(PoolError::Unauthorized)
    );

    let mut pool = funded_pool(&admin, &alice);
    let before = pool.get_pool_info();
    assert_eq!(
        pool.initialize(&env_at(0, &[&admin]), admin.clone(), address("A"), address("B"), 5),
        Err(PoolError::AlreadyInitialized)
    );
    assert_eq!(pool.add_liquidity(&by_bob, &alice, 1, 1, 0, 0), Err(PoolError::Unauthorized));
    assert_eq!(pool.remove_liquidity(&by_bob, &alice, 1, 0, 0), Err(PoolError::Unauthorized));
    assert_eq!(pool.swap(&by_bob, &alice, &address("A"), 1, 0), Err(PoolError::Unauthorized));
    assert_eq!(pool.remove_liquidity(&by_bob, &bob, 1, 0, 0), Err(PoolError::NoPosition));
    assert_eq!(
        pool.remove_liquidity(&by_alice, &alice, 2001, 0, 0),
        Err(PoolError::InsufficientShares)
    );
    assert_eq!(
        pool.remove_liquidity(&by_alice, &alice, 1000, 501, 0),
        Err(PoolError::InsufficientWithdrawal)
    );
    assert_eq!(
        pool.remove_liquidity(&by_alice, &alice, -1000, -9999, -9999),
        Err(PoolError::NegativeAmount)
    );
    // A deposit below the least accepted is told beforehand and not made.
    assert_eq!(
        quote_deposit(&pool.get_pool_info().unwrap(), 500, 3000, 0, 2001),
        Err(PoolError::InsufficientLiquidityAmounts)
    );
    assert_eq!(
        quote_deposit(&pool.get_pool_info().unwrap(), 500, 3000, 0, 2000),
        Ok((500, 2000, 1000))
    );
    assert_eq!(
        pool.add_liquidity(&by_alice, &alice, -500, 3000, -9999, -9999),
        Err(PoolError::NegativeAmount)
    );
    assert_eq!(
        pool.add_liquidity(&by_alice, &alice, i128::MAX, 1, 0, 0),
        Err(PoolError::Arithmetic)
    );
    assert_eq!(pool.swap(&by_alice, &alice, &address("C"), 1, 0), Err(PoolError::InvalidToken));
    assert_eq!(
        pool.swap(&by_alice, &alice, &address("A"), 100, 363),
        Err(PoolError::InsufficientOutput)
    );
    assert_eq!(
        pool.swap(&by_alice, &alice, &address("A"), -100, -9999),
        Err(PoolError::NegativeAmount)
    );
    assert_eq!(
        pool.swap(&by_alice, &alice, &address("A"), i128::MAX, 0),
        Err(PoolError::Arithmetic)
    );
    assert_eq!(pool.get_pool_info(), before);
    assert_eq!(pool.get_position(&alice).unwrap().shares, 2000);
    // 100 in, 99 count; 99 * 4000 / 1099 = 360.
    assert_eq!(pool.swap(&by_alice, &alice, &address("A"), 100, 360), Ok(360));
}

fn router_with(dexes: &[(&str, &str, bool)]) -> (Router, Address) {
    let admin = address("admin");
    let by_admin = env_at(0, &[&admin]);
    let mut router = Router::new();
    router.initialize(&by_admin, admin.clone(), address("oracle")).unwrap();
    for (id, dex, active) in dexes {
        router
            .register_dex(&by_admin, id.as_bytes().to_vec(), address(dex), b"amm".to_vec(), 25)
            .unwrap();
        if !active {
            router.set_dex_status(&by_admin, &id.as_bytes().to_vec(), false).unwrap();
        }
    }
    (router, admin)
}

fn single_step(dex: &str, expected: i128, minimum: i128) -> SwapRoute {
    SwapRoute {
        steps: vec![RouteStep {
            dex: address(dex),
            token_in: address("XLM"),
            token_out: address("USDC"),
            fee_rate: 25,
        }],
        expected_output: expected,
        minimum_output: minimum,
        slippage_tolerance: 300,
    }
}

fn empty_route() -> SwapRoute {
    SwapRoute { steps: vec![], expected_output: 0, minimum_output: 0, slippage_tolerance: 300 }
}

#[test]
fn best_route_goes_through_the_first_active_exchange_by_name() {
    let xlm = address("XLM");
    let usdc = address("USDC");

    let (router, _) = router_with(&[("stellarx", "dex-s", true), ("aqua", "dex-a", true)]);
    // 90 of 100 parts; the least accepted is 97 percent of that.
    assert_eq!(router.find_best_route(&xlm, &usdc, 1000), Ok(single_step("dex-a", 900, 873)));
    assert_eq!(router.get_amounts_out(1000, &xlm, &usdc), Ok(900));
    assert_eq!(router.find_best_route(&xlm, &usdc, 2), Ok(single_step("dex-a", 1, 0)));

    let (router, _) = router_with(&[("stellarx", "dex-s", true), ("aqua", "dex-a", false)]);
    assert_eq!(router.find_best_route(&xlm, &usdc, 1000), Ok(single_step("dex-s", 900, 873)));

    let (router, _) = router_with(&[("stellarx", "dex-s", false), ("aqua", "dex-a", false)]);
    assert_eq!(router.find_best_route(&xlm, &usdc, 1000), Ok(empty_route()));
    assert_eq!(router.find_best_route(&xlm, &usdc, i128::MAX), Ok(empty_route()));

    let (router, _) = router_with(&[("aqua", "dex-a", true)]);
    assert_eq!(router.find_best_route(&xlm, &usdc, 1), Ok(empty_route()));
    assert_eq!(router.find_best_route(&xlm, &usdc, 0), Ok(empty_route()));
    assert_eq!(router.find_best_route(&xlm, &usdc, -1000), Ok(empty_route()));
    assert_eq!(router.find_best_route(&xlm, &usdc, i128::MAX), Err(RouterError::Arithmetic));
    assert_eq!(router.get_amounts_out(i128::MAX, &xlm, &usdc), Err(RouterError::Arithmetic));

    assert_eq!(Router::new().find_best_route(&xlm, &usdc, 1000), Ok(empty_route()));
}

#[test]
fn trade_pays_the_quote() {
    let xlm = address("XLM");
    let usdc = address("USDC");
    let user = address("user");
    let (router, _) = router_with(&[("stellarx", "dex-s", true), ("aqua", "dex-a", true)]);
    let env = env_at(50, &[&user]);

    let (paid, payments) =
        router.swap_exact_tokens_for_tokens(&env, &user, 1000, 900, &xlm, &usdc, 50).unwrap();
    assert_eq!(paid, 900);
    assert_eq!(
        payments,
        vec![
            Payment { token: xlm.clone(), from: user.clone(), to: address("dex-a"), amount: 1000 },
            Payment { token: usdc.clone(), from: address("dex-a"), to: user.clone(), amount: 900 },
        ]
    );

    assert_eq!(
        router.swap_exact_tokens_for_tokens(&env, &user, 1000, 901, &xlm, &usdc, 50),
        Err(RouterError::InsufficientOutput)
    );
    assert_eq!(
        router.swap_exact_tokens_for_tokens(&env, &user, 1000, 900, &xlm, &usdc, 49),
        Err(RouterError::DeadlineExceeded)
    );
    assert_eq!(
        router.swap_exact_tokens_for_tokens(&Env::new(50, 0), &user, 1000, 900, &xlm, &usdc, 49),
        Err(RouterError::Unauthorized)
    );
    assert_eq!(
        router.swap_exact_tokens_for_tokens(&env, &user, 1, 0, &xlm, &usdc, 50),
        Err(RouterError::NoRoute)
    );
    assert_eq!(
        router.swap_exact_tokens_for_tokens(&env, &user, 1, 1, &xlm, &usdc, 50),
        Err(RouterError::InsufficientOutput)
    );
    assert_eq!(
        router.swap_exact_tokens_for_tokens(&env, &user, i128::MAX, 0, &xlm, &usdc, 50),
        Err(RouterError::Arithmetic)
    );
    assert_eq!(
        Router::new().swap_exact_tokens_for_tokens(&env, &user, 1000, 0, &xlm, &usdc, 50),
        Err(RouterError::NoRoute)
    );
}

#[test]
fn routes_of_several_steps() {
    let user = address("user");
    let step = |dex: &str, token_in: &str, token_out: &str| RouteStep {
        dex: address(dex),
        token_in: address(token_in),
        token_out: address(token_out),
        fee_rate: 0,
    };
    let route = SwapRoute {
        steps: vec![step("d1", "XLM", "USDC"), step("d2", "ignored", "EURC")],
        expected_output: 0,
        minimum_output: 0,
        slippage_tolerance: 300,
    };
    let (paid, payments) = execute_route(&user, 1000, &route).unwrap();
    assert_eq!(paid, 810);
    let pay = |token: &str, from: &Address, to: &Address, amount: i128| Payment {
        token: address(token),
        from: from.clone(),
        to: to.clone(),
        amount,
    };
    assert_eq!(
        payments,
        vec![
            pay("XLM", &user, &address("d1"), 1000),
            pay("USDC", &address("d1"), &user, 900),
            pay("USDC", &user, &address("d2"), 900),
            pay("EURC", &address("d2"), &user, 810),
        ]
    );
    assert_eq!(execute_route(&user, -1000, &route), Err(RouterError::NegativeAmount));
    assert_eq!(execute_route(&user, i128::MAX, &route), Err(RouterError::Arithmetic));
    assert_eq!(get_dex_quote(1000), Some(900));
    assert_eq!(get_dex_quote(19), Some(17));
    assert_eq!(get_dex_quote(-19), Some(-17));
    assert_eq!(get_dex_quote(i128::MAX / 90 + 1), None);
}

#[test]
fn router_administration() {
    let admin = address("admin");
    let stranger = address("stranger");
    let by_admin = env_at(0, &[&admin]);
    let by_stranger = env_at(0, &[&stranger]);
    let name = |s: &str| s.as_bytes().to_vec();

    let mut router = Router::new();
    assert_eq!(
        router.register_dex(&by_admin, name("aqua"), address("dex-a"), name("amm"), 1),
        Err(RouterError::NotInitialized)
    );
    assert_eq!(router.set_dex_status(&by_admin, &name("aqua"), true), Err(RouterError::NotInitialized));
    assert_eq!(
        router.initialize(&by_stranger, admin.clone(), address("oracle")),
        Err(RouterError::Unauthorized)
    );
    assert_eq!(router.initialize(&by_admin, admin.clone(), address("oracle")), Ok(()));
    assert_eq!(
        router.initialize(&by_admin, admin.clone(), address("oracle")),
        Err(RouterError::AlreadyInitialized)
    );
    assert!(router.get_dexes().is_empty());

    assert_eq!(
        router.register_dex(&by_stranger, name("aqua"), address("dex-a"), name("amm"), 1),
        Err(RouterError::Unauthorized)
    );
    router.register_dex(&by_admin, name("stellarx"), address("dex-s"), name("book"), 10).unwrap();
    router.register_dex(&by_admin, name("aqua"), address("dex-a"), name("amm"), 20).unwrap();
    assert_eq!(router.set_dex_status(&by_stranger, &name("aqua"), false), Err(RouterError::Unauthorized));
    router.set_dex_status(&by_admin, &name("aqua"), false).unwrap();
    router.set_dex_status(&by_admin, &name("unknown"), false).unwrap();
    let info = |dex: &str, kind: &str, active: bool, fee_rate: u32| DexInfo {
        dex_address: address(dex),
        dex_type: name(kind),
        active,
        fee_rate,
    };
    assert_eq!(
        router.get_dexes(),
        vec![
            (name("stellarx"), info("dex-s", "book", true, 10)),
            (name("aqua"), info("dex-a", "amm", false, 20)),
        ]
    );
    // Registering a name again replaces the exchange and switches it on.
    router.register_dex(&by_admin, name("aqua"), address("dex-a2"), name("amm2"), 30).unwrap();
    assert_eq!(
        router.get_dexes(),
        vec![
            (name("stellarx"), info("dex-s", "book", true, 10)),
            (name("aqua"), info("dex-a2", "amm2", true, 30)),
        ]
    );
}
