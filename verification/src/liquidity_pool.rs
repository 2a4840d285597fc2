//! The liquidity pool: two tokens held in reserve, shares for those who
//! supplied them, and swaps of one token for the other at the price that the
//! reserves give.

use crate::amounts::{
    checked_difference,
    checked_mul_div,
    checked_sum,
    difference,
    fits,
    lemma_part_is_bounded,
    lemma_part_is_not_negative,
    mul_div,
    sum,
};
use crate::env::{Address, Env};
use crate::roots::{floor_sqrt, isqrt};
use crate::search::{first_where, lemma_first_where, lemma_first_where_is};
use vstd::prelude::*;

verus! {

/// Fee rates are counted in parts of this many.
pub const FEE_SCALE: i128 = 10000;

/// The pool's tokens, reserves and shares.
#[derive(Debug, PartialEq, Eq)]
pub struct PoolInfo {
    pub token_a: Address,
    pub token_b: Address,
    pub reserve_a: i128,
    pub reserve_b: i128,
    pub total_shares: i128,
    /// In basis points: 30 is 0.3 percent.
    pub fee_rate: u32,
}

/// What a [`PoolInfo`] holds, as mathematical values.
pub struct PoolInfoView {
    pub token_a: Seq<u8>,
    pub token_b: Seq<u8>,
    pub reserve_a: i128,
    pub reserve_b: i128,
    pub total_shares: i128,
    pub fee_rate: u32,
}

impl View for PoolInfo {
    type V = PoolInfoView;

    open spec fn view(&self) -> PoolInfoView {
        PoolInfoView {
            token_a: self.token_a@,
            token_b: self.token_b@,
            reserve_a: self.reserve_a,
            reserve_b: self.reserve_b,
            total_shares: self.total_shares,
            fee_rate: self.fee_rate,
        }
    }
}

impl Clone for PoolInfo {
    fn clone(&self) -> (copy: PoolInfo)
        ensures
            copy@ == self@,
    {
        PoolInfo {
            token_a: self.token_a.clone(),
            token_b: self.token_b.clone(),
            reserve_a: self.reserve_a,
            reserve_b: self.reserve_b,
            total_shares: self.total_shares,
            fee_rate: self.fee_rate,
        }
    }
}

/// What one supplier holds of the pool.
#[derive(Debug, PartialEq, Eq)]
pub struct LiquidityPosition {
    pub owner: Address,
    pub shares: i128,
    pub token_a_deposited: i128,
    pub token_b_deposited: i128,
}

/// What a [`LiquidityPosition`] holds, as mathematical values.
pub struct PositionView {
    pub owner: Seq<u8>,
    pub shares: i128,
    pub token_a_deposited: i128,
    pub token_b_deposited: i128,
}

impl View for LiquidityPosition {
    type V = PositionView;

    open spec fn view(&self) -> PositionView {
        PositionView {
            owner: self.owner@,
            shares: self.shares,
            token_a_deposited: self.token_a_deposited,
            token_b_deposited: self.token_b_deposited,
        }
    }
}

impl Clone for LiquidityPosition {
    fn clone(&self) -> (copy: LiquidityPosition)
        ensures
            copy@ == self@,
    {
        LiquidityPosition {
            owner: self.owner.clone(),
            shares: self.shares,
            token_a_deposited: self.token_a_deposited,
            token_b_deposited: self.token_b_deposited,
        }
    }
}

/// Why a call was turned away.
#[derive(Clone, Copy, Debug, PartialEq, Eq, Structural)]
pub enum PoolError {
    /// The pool was initialized before.
    AlreadyInitialized,
    /// The pool was not initialized yet.
    NotInitialized,
    /// The identity that had to authorize the call did not.
    Unauthorized,
    /// A deposit would fall below the least that the supplier accepts.
    InsufficientLiquidityAmounts,
    /// The supplier holds no position.
    NoPosition,
    /// The supplier holds fewer shares than are given back.
    InsufficientShares,
    /// A withdrawal would fall below the least that the supplier accepts.
    InsufficientWithdrawal,
    /// The token is neither of the pool's two.
    InvalidToken,
    /// A swap would pay less than the least that the user accepts.
    InsufficientOutput,
    /// A token amount that would have to be moved is negative.
    NegativeAmount,
    /// A number cannot be written down, or a division is by zero.
    Arithmetic,
}

/// The amounts of both tokens that a deposit takes, and the shares that it
/// gives.
pub struct Deposit {
    pub amount_a: i128,
    pub amount_b: i128,
    pub shares: i128,
}

/// What a deposit into `pool` takes and gives.
///
/// Into a pool without shares the deposit takes what is offered and gives
/// the square root of the product of the two amounts, rounded down.
/// Otherwise it takes the offered amount of one token and of the other as
/// much as keeps the reserves in proportion, and gives shares in the
/// proportion of the deposit to the reserves, by the token that gives fewer.
pub open spec fn deposit_quote(
    pool: PoolInfoView,
    amount_a_desired: i128,
    amount_b_desired: i128,
    amount_a_min: i128,
    amount_b_min: i128,
) -> Result<Deposit, PoolError> {
    if pool.total_shares == 0 {
        if !fits(amount_a_desired * amount_b_desired) || amount_a_desired * amount_b_desired < 0 {
            Err(PoolError::Arithmetic)
        } else {
            Ok(
                Deposit {
                    amount_a: amount_a_desired,
                    amount_b: amount_b_desired,
                    shares: floor_sqrt(amount_a_desired * amount_b_desired) as i128,
                },
            )
        }
    } else {
        match mul_div(amount_a_desired, pool.reserve_b, pool.reserve_a) {
            None => Err(PoolError::Arithmetic),
            Some(amount_b_optimal) => {
                let amounts = if amount_b_optimal <= amount_b_desired {
                    Some((amount_a_desired, amount_b_optimal))
                } else {
                    match mul_div(amount_b_desired, pool.reserve_a, pool.reserve_b) {
                        Some(amount_a_optimal) => Some((amount_a_optimal, amount_b_desired)),
                        None => None,
                    }
                };
                match amounts {
                    None => Err(PoolError::Arithmetic),
                    Some((amount_a, amount_b)) => if amount_a < amount_a_min || amount_b
                        < amount_b_min {
                        Err(PoolError::InsufficientLiquidityAmounts)
                    } else {
                        match (
                            mul_div(amount_a, pool.total_shares, pool.reserve_a),
                            mul_div(amount_b, pool.total_shares, pool.reserve_b),
                        ) {
                            (Some(shares_a), Some(shares_b)) => Ok(
                                Deposit {
                                    amount_a,
                                    amount_b,
                                    shares: if shares_a <= shares_b {
                                        shares_a
                                    } else {
                                        shares_b
                                    },
                                },
                            ),
                            _ => Err(PoolError::Arithmetic),
                        }
                    },
                }
            },
        }
    }
}

/// What giving back `liquidity_shares` takes out of `pool`: of each reserve
/// the part that the shares are of all shares, rounded toward zero.
pub open spec fn withdrawal_quote(
    pool: PoolInfoView,
    liquidity_shares: i128,
    amount_a_min: i128,
    amount_b_min: i128,
) -> Result<(i128, i128), PoolError> {
    match (
        mul_div(liquidity_shares, pool.reserve_a, pool.total_shares),
        mul_div(liquidity_shares, pool.reserve_b, pool.total_shares),
    ) {
        (Some(amount_a), Some(amount_b)) => if amount_a < amount_a_min || amount_b
            < amount_b_min {
            Err(PoolError::InsufficientWithdrawal)
        } else {
            Ok((amount_a, amount_b))
        },
        _ => Err(PoolError::Arithmetic),
    }
}

/// What a swap pays for `amount_in`: the amount after the fee, times the
/// reserve that pays, by the reserve that takes and the amount after the fee.
pub open spec fn swap_quote(reserve_in: i128, reserve_out: i128, fee_rate: u32, amount_in: i128)
    -> Option<i128> {
    match mul_div(amount_in, (FEE_SCALE - fee_rate) as i128, FEE_SCALE) {
        None => None,
        Some(amount_in_with_fee) => match sum(reserve_in, amount_in_with_fee) {
            None => None,
            Some(divisor) => mul_div(amount_in_with_fee, reserve_out, divisor),
        },
    }
}

/// The condition of being the position of `owner`.
pub open spec fn is_position_of(owner: Seq<u8>) -> spec_fn(PositionView) -> bool {
    |p: PositionView| p.owner == owner
}

/// What the pool contract holds.
pub struct PoolState {
    pub admin: Option<Seq<u8>>,
    pub pool: Option<PoolInfoView>,
    /// The positions, one for each supplier that ever deposited.
    pub positions: Seq<PositionView>,
}

impl PoolState {
    /// The pool has its administrator and its reserves together or not at
    /// all.
    pub open spec fn wf(self) -> bool {
        self.admin.is_some() == self.pool.is_some()
    }

    /// The position of `owner`, if there is one.
    pub open spec fn position(self, owner: Seq<u8>) -> Option<PositionView> {
        let place = first_where(self.positions, is_position_of(owner));
        if place < self.positions.len() {
            Some(self.positions[place])
        } else {
            None
        }
    }

    /// The positions with `position` in place of its owner's, or added at the
    /// end where the owner had none.
    pub open spec fn with_position(self, position: PositionView) -> Seq<PositionView> {
        let place = first_where(self.positions, is_position_of(position.owner));
        if place < self.positions.len() {
            self.positions.update(place, position)
        } else {
            self.positions.push(position)
        }
    }

    /// Whether a deposit by `user` gets as far as the amounts and these fall
    /// below the least that the user accepts. Such a deposit is not made.
    pub open spec fn deposit_below_minimum(
        self,
        env: Env,
        user: Seq<u8>,
        amount_a_desired: i128,
        amount_b_desired: i128,
        amount_a_min: i128,
        amount_b_min: i128,
    ) -> bool {
        &&& env.authorizes(user)
        &&& self.pool.is_some()
        &&& deposit_quote(
            self.pool.unwrap(),
            amount_a_desired,
            amount_b_desired,
            amount_a_min,
            amount_b_min,
        ) matches Err(PoolError::InsufficientLiquidityAmounts)
    }

    /// What a deposit by `user` returns and leaves behind.
    ///
    /// The call is turned away unless the user authorized it, fails with
    /// `NotInitialized` on a pool that was not initialized, then as
    /// [`deposit_quote`] says, with `NegativeAmount` if an amount to move is
    /// negative, and with `Arithmetic` if a new reserve, the new number of
    /// shares or the new position cannot be written down.
    pub open spec fn add_liquidity(
        self,
        env: Env,
        user: Seq<u8>,
        amount_a_desired: i128,
        amount_b_desired: i128,
        amount_a_min: i128,
        amount_b_min: i128,
    ) -> Result<(PoolState, Deposit), PoolError> {
        if !env.authorizes(user) {
            Err(PoolError::Unauthorized)
        } else if self.pool.is_none() {
            Err(PoolError::NotInitialized)
        } else {
            let pool = self.pool.unwrap();
            match deposit_quote(
                pool,
                amount_a_desired,
                amount_b_desired,
                amount_a_min,
                amount_b_min,
            ) {
                Err(e) => Err(e),
                Ok(deposit) => if deposit.amount_a < 0 || deposit.amount_b < 0 {
                    Err(PoolError::NegativeAmount)
                } else {
                    let held = match self.position(user) {
                        Some(position) => position,
                        None => PositionView {
                            owner: user,
                            shares: 0,
                            token_a_deposited: 0,
                            token_b_deposited: 0,
                        },
                    };
                    match (
                        sum(pool.reserve_a, deposit.amount_a),
                        sum(pool.reserve_b, deposit.amount_b),
                        sum(pool.total_shares, deposit.shares),
                        sum(held.shares, deposit.shares),
                        sum(held.token_a_deposited, deposit.amount_a),
                        sum(held.token_b_deposited, deposit.amount_b),
                    ) {
                        (
                            Some(reserve_a),
                            Some(reserve_b),
                            Some(total_shares),
                            Some(shares),
                            Some(token_a_deposited),
                            Some(token_b_deposited),
                        ) => Ok(
                            (
                                PoolState {
                                    admin: self.admin,
                                    pool: Some(
                                        PoolInfoView { reserve_a, reserve_b, total_shares, ..pool },
                                    ),
                                    positions: self.with_position(
                                        PositionView {
                                            owner: user,
                                            shares,
                                            token_a_deposited,
                                            token_b_deposited,
                                        },
                                    ),
                                },
                                deposit,
                            ),
                        ),
                        _ => Err(PoolError::Arithmetic),
                    }
                },
            }
        }
    }

    /// What giving back shares by `user` returns and leaves behind.
    ///
    /// The call is turned away unless the user authorized it, fails with
    /// `NotInitialized` on a pool that was not initialized, with `NoPosition`
    /// if the user has none, with `InsufficientShares` if the user holds
    /// fewer shares, then as [`withdrawal_quote`] says, with `NegativeAmount`
    /// if an amount to move is negative, and with `Arithmetic` if what is left
    /// cannot be written down. What the position says was deposited goes
    /// down in the proportion of the shares that are left.
    pub open spec fn remove_liquidity(
        self,
        env: Env,
        user: Seq<u8>,
        liquidity_shares: i128,
        amount_a_min: i128,
        amount_b_min: i128,
    ) -> Result<(PoolState, (i128, i128)), PoolError> {
        if !env.authorizes(user) {
            Err(PoolError::Unauthorized)
        } else if self.pool.is_none() {
            Err(PoolError::NotInitialized)
        } else if self.position(user).is_none() {
            Err(PoolError::NoPosition)
        } else if self.position(user).unwrap().shares < liquidity_shares {
            Err(PoolError::InsufficientShares)
        } else {
            let pool = self.pool.unwrap();
            let held = self.position(user).unwrap();
            match withdrawal_quote(pool, liquidity_shares, amount_a_min, amount_b_min) {
                Err(e) => Err(e),
                Ok((amount_a, amount_b)) => if amount_a < 0 || amount_b < 0 {
                    Err(PoolError::NegativeAmount)
                } else {
                    match (
                        difference(pool.reserve_a, amount_a),
                        difference(pool.reserve_b, amount_b),
                        difference(pool.total_shares, liquidity_shares),
                        difference(held.shares, liquidity_shares),
                    ) {
                        (Some(reserve_a), Some(reserve_b), Some(total_shares), Some(shares)) => {
                            match (
                                mul_div(held.token_a_deposited, shares, held.shares),
                                mul_div(held.token_b_deposited, shares, held.shares),
                            ) {
                                (Some(token_a_deposited), Some(token_b_deposited)) => Ok(
                                    (
                                        PoolState {
                                            admin: self.admin,
                                            pool: Some(
                                                PoolInfoView {
                                                    reserve_a,
                                                    reserve_b,
                                                    total_shares,
                                                    ..pool
                                                },
                                            ),
                                            positions: self.with_position(
                                                PositionView {
                                                    owner: user,
                                                    shares,
                                                    token_a_deposited,
                                                    token_b_deposited,
                                                },
                                            ),
                                        },
                                        (amount_a, amount_b),
                                    ),
                                ),
                                _ => Err(PoolError::Arithmetic),
                            }
                        },
                        _ => Err(PoolError::Arithmetic),
                    }
                },
            }
        }
    }

    /// What a swap by `user` returns and leaves behind.
    ///
    /// The call is turned away unless the user authorized it, fails with
    /// `NotInitialized` on a pool that was not initialized, with
    /// `InvalidToken` if the token is neither of the two, with `Arithmetic`
    /// if [`swap_quote`] has no result, with `InsufficientOutput` if it is
    /// below the least accepted, with `NegativeAmount` if an amount to move is
    /// negative, and with `Arithmetic` if a new reserve cannot be written
    /// down.
    pub open spec fn swap(
        self,
        env: Env,
        user: Seq<u8>,
        token_in: Seq<u8>,
        amount_in: i128,
        amount_out_min: i128,
    ) -> Result<(PoolState, i128), PoolError> {
        if !env.authorizes(user) {
            Err(PoolError::Unauthorized)
        } else if self.pool.is_none() {
            Err(PoolError::NotInitialized)
        } else {
            let pool = self.pool.unwrap();
            if token_in != pool.token_a && token_in != pool.token_b {
                Err(PoolError::InvalidToken)
            } else {
                let a_in = token_in == pool.token_a;
                let reserve_in = if a_in {
                    pool.reserve_a
                } else {
                    pool.reserve_b
                };
                let reserve_out = if a_in {
                    pool.reserve_b
                } else {
                    pool.reserve_a
                };
                match swap_quote(reserve_in, reserve_out, pool.fee_rate, amount_in) {
                    None => Err(PoolError::Arithmetic),
                    Some(amount_out) => if amount_out < amount_out_min {
                        Err(PoolError::InsufficientOutput)
                    } else if amount_in < 0 || amount_out < 0 {
                        Err(PoolError::NegativeAmount)
                    } else {
                        match (sum(reserve_in, amount_in), difference(reserve_out, amount_out)) {
                            (Some(new_in), Some(new_out)) => Ok(
                                (
                                    PoolState {
                                        pool: Some(
                                            if a_in {
                                                PoolInfoView {
                                                    reserve_a: new_in,
                                                    reserve_b: new_out,
                                                    ..pool
                                                }
                                            } else {
                                                PoolInfoView {
                                                    reserve_b: new_in,
                                                    reserve_a: new_out,
                                                    ..pool
                                                }
                                            },
                                        ),
                                        ..self
                                    },
                                    amount_out,
                                ),
                            ),
                            _ => Err(PoolError::Arithmetic),
                        }
                    },
                }
            }
        }
    }
}

/// What a deposit into `pool` takes and gives: see [`deposit_quote`].
pub fn quote_deposit(
    pool: &PoolInfo,
    amount_a_desired: i128,
    amount_b_desired: i128,
    amount_a_min: i128,
    amount_b_min: i128,
) -> (result: Result<(i128, i128, i128), PoolError>)
    ensures
        match deposit_quote(pool@, amount_a_desired, amount_b_desired, amount_a_min, amount_b_min) {
            Err(e) => result == Err::<(i128, i128, i128), PoolError>(e),
            Ok(deposit) => result == Ok::<(i128, i128, i128), PoolError>(
                (deposit.amount_a, deposit.amount_b, deposit.shares),
            ),
        },
{
    if pool.total_shares == 0 {
        match amount_a_desired.checked_mul(amount_b_desired) {
            None => Err(PoolError::Arithmetic),
            Some(product) => {
                if product < 0 {
                    Err(PoolError::Arithmetic)
                } else {
                    Ok((amount_a_desired, amount_b_desired, isqrt(product)))
                }
            },
        }
    } else {
        let amount_b_optimal = match checked_mul_div(
            amount_a_desired,
            pool.reserve_b,
            pool.reserve_a,
        ) {
            Some(v) => v,
            None => {
                return Err(PoolError::Arithmetic);
            },
        };
        let (amount_a, amount_b) = if amount_b_optimal <= amount_b_desired {
            (amount_a_desired, amount_b_optimal)
        } else {
            match checked_mul_div(amount_b_desired, pool.reserve_a, pool.reserve_b) {
                Some(amount_a_optimal) => (amount_a_optimal, amount_b_desired),
                None => {
                    return Err(PoolError::Arithmetic);
                },
            }
        };
        if amount_a < amount_a_min || amount_b < amount_b_min {
            return Err(PoolError::InsufficientLiquidityAmounts);
        }
        let shares_a = checked_mul_div(amount_a, pool.total_shares, pool.reserve_a);
        let shares_b = checked_mul_div(amount_b, pool.total_shares, pool.reserve_b);
        match (shares_a, shares_b) {
            (Some(shares_a), Some(shares_b)) => {
                let shares = if shares_a <= shares_b {
                    shares_a
                } else {
                    shares_b
                };
                Ok((amount_a, amount_b, shares))
            },
            _ => Err(PoolError::Arithmetic),
        }
    }
}

/// What giving back shares takes out of `pool`: see [`withdrawal_quote`].
pub fn quote_withdrawal(
    pool: &PoolInfo,
    liquidity_shares: i128,
    amount_a_min: i128,
    amount_b_min: i128,
) -> (result: Result<(i128, i128), PoolError>)
    ensures
        result == withdrawal_quote(pool@, liquidity_shares, amount_a_min, amount_b_min),
{
    let amount_a = checked_mul_div(liquidity_shares, pool.reserve_a, pool.total_shares);
    let amount_b = checked_mul_div(liquidity_shares, pool.reserve_b, pool.total_shares);
    match (amount_a, amount_b) {
        (Some(amount_a), Some(amount_b)) => {
            if amount_a < amount_a_min || amount_b < amount_b_min {
                Err(PoolError::InsufficientWithdrawal)
            } else {
                Ok((amount_a, amount_b))
            }
        },
        _ => Err(PoolError::Arithmetic),
    }
}

/// What a swap pays for `amount_in`: see [`swap_quote`].
pub fn quote_swap(reserve_in: i128, reserve_out: i128, fee_rate: u32, amount_in: i128) -> (result:
    Option<i128>)
    ensures
        result == swap_quote(reserve_in, reserve_out, fee_rate, amount_in),
{
    let after_fee = match checked_mul_div(amount_in, FEE_SCALE - fee_rate as i128, FEE_SCALE) {
        Some(v) => v,
        None => {
            return None;
        },
    };
    match checked_sum(reserve_in, after_fee) {
        None => None,
        Some(divisor) => checked_mul_div(after_fee, reserve_out, divisor),
    }
}

/// The pool contract.
#[derive(Debug)]
pub struct LiquidityPool {
    admin: Option<Address>,
    pool: Option<PoolInfo>,
    positions: Vec<LiquidityPosition>,
}

impl View for LiquidityPool {
    type V = PoolState;

    closed spec fn view(&self) -> PoolState {
        PoolState {
            admin: match self.admin {
                Some(admin) => Some(admin@),
                None => None,
            },
            pool: match self.pool {
                Some(pool) => Some(pool@),
                None => None,
            },
            positions: self.positions@.map_values(|p: LiquidityPosition| p@),
        }
    }
}

impl LiquidityPool {
    /// The invariant of the contract: see [`PoolState::wf`].
    pub open spec fn wf(&self) -> bool {
        self@.wf()
    }

    /// A pool that was not initialized yet.
    pub fn new() -> (contract: LiquidityPool)
        ensures
            contract@ == (PoolState { admin: None, pool: None, positions: Seq::empty() }),
            contract.wf(),
    {
        let contract = LiquidityPool { admin: None, pool: None, positions: Vec::new() };
        assert(contract@.positions =~= Seq::empty());
        contract
    }

    /// The pool that holds the given administrator, reserves and positions,
    /// if administrator and reserves are there together or not at all.
    pub fn restore(
        admin: Option<Address>,
        pool: Option<PoolInfo>,
        positions: Vec<LiquidityPosition>,
    ) -> (contract: Option<LiquidityPool>)
        ensures
            contract.is_some() == (admin.is_some() == pool.is_some()),
            contract matches Some(c) ==> c.wf() && c@ == (PoolState {
                admin: match admin {
                    Some(admin) => Some(admin@),
                    None => None,
                },
                pool: match pool {
                    Some(pool) => Some(pool@),
                    None => None,
                },
                positions: positions@.map_values(|p: LiquidityPosition| p@),
            }),
    {
        if admin.is_some() != pool.is_some() {
            return None;
        }
        Some(LiquidityPool { admin, pool, positions })
    }

    /// Makes `admin` the administrator of an empty pool of the two tokens.
    ///
    /// Fails with `AlreadyInitialized` on an initialized pool, else is turned
    /// away unless `admin` authorized the call.
    pub fn initialize(
        &mut self,
        env: &Env,
        admin: Address,
        token_a: Address,
        token_b: Address,
        fee_rate: u32,
    ) -> (result: Result<(), PoolError>)
        requires
            old(self).wf(),
        ensures
            final(self).wf(),
            old(self)@.admin.is_some() ==> result == Err::<(), PoolError>(
                PoolError::AlreadyInitialized,
            ),
            old(self)@.admin.is_none() && !env.authorizes(admin@) ==> result == Err::<
                (),
                PoolError,
            >(PoolError::Unauthorized),
            old(self)@.admin.is_none() && env.authorizes(admin@) ==> result.is_ok(),
            result.is_err() ==> final(self)@ == old(self)@,
            result.is_ok() ==> final(self)@ == (PoolState {
                admin: Some(admin@),
                pool: Some(
                    PoolInfoView {
                        token_a: token_a@,
                        token_b: token_b@,
                        reserve_a: 0,
                        reserve_b: 0,
                        total_shares: 0,
                        fee_rate,
                    },
                ),
                positions: old(self)@.positions,
            }),
    {
        if self.admin.is_some() {
            return Err(PoolError::AlreadyInitialized);
        }
        if !env.has_authorized(&admin) {
            return Err(PoolError::Unauthorized);
        }
        self.admin = Some(admin);
        self.pool = Some(
            PoolInfo { token_a, token_b, reserve_a: 0, reserve_b: 0, total_shares: 0, fee_rate },
        );
        Ok(())
    }

    /// The first place at which a position of `owner` is kept, or the number
    /// of positions.
    fn find_position(&self, owner: &Address) -> (place: usize)
        ensures
            place == first_where(self@.positions, is_position_of(owner@)),
            place <= self@.positions.len(),
    {
        let mut place: usize = 0;
        while place < self.positions.len() && !(self.positions[place].owner == *owner)
            invariant
                place <= self.positions@.len(),
                forall|j: int|
                    0 <= j < place ==> !is_position_of(owner@)(#[trigger] self@.positions[j]),
            decreases self.positions@.len() - place,
        {
            place += 1;
        }
        proof {
            lemma_first_where_is(self@.positions, is_position_of(owner@), place as int);
        }
        place
    }

    /// Keeps `position` in place of its owner's position, which stands at
    /// `place` if there is one.
    fn put_position(&mut self, place: usize, position: LiquidityPosition)
        requires
            place == first_where(old(self)@.positions, is_position_of(position@.owner)),
            place <= old(self)@.positions.len(),
        ensures
            final(self)@ == (PoolState {
                positions: old(self)@.with_position(position@),
                ..old(self)@
            }),
    {
        let ghost kept = position@;
        if place < self.positions.len() {
            self.positions[place] = position;
            assert(self@.positions =~= old(self)@.positions.update(place as int, kept));
        } else {
            self.positions.push(position);
            assert(self@.positions =~= old(self)@.positions.push(kept));
        }
    }

    /// Deposits both tokens and returns the amounts taken and the shares
    /// given. The user owes the pool the two amounts.
    ///
    /// See [`PoolState::add_liquidity`]. A call that fails changes nothing.
    /// A deposit whose amounts would fall below the least that the user
    /// accepts is not to be made: [`quote_deposit`] tells beforehand.
    pub fn add_liquidity(
        &mut self,
        env: &Env,
        user: &Address,
        amount_a_desired: i128,
        amount_b_desired: i128,
        amount_a_min: i128,
        amount_b_min: i128,
    ) -> (result: Result<(i128, i128, i128), PoolError>)
        requires
            old(self).wf(),
            !old(self)@.deposit_below_minimum(
                *env,
                user@,
                amount_a_desired,
                amount_b_desired,
                amount_a_min,
                amount_b_min,
            ),
        ensures
            final(self).wf(),
            match old(self)@.add_liquidity(
                *env,
                user@,
                amount_a_desired,
                amount_b_desired,
                amount_a_min,
                amount_b_min,
            ) {
                Err(e) => result == Err::<(i128, i128, i128), PoolError>(e)
                    && final(self)@ == old(self)@,
                Ok((state, deposit)) => result == Ok::<(i128, i128, i128), PoolError>(
                    (deposit.amount_a, deposit.amount_b, deposit.shares),
                ) && final(self)@ == state,
            },
    {
        if !env.has_authorized(user) {
            return Err(PoolError::Unauthorized);
        }
        let mut pool = match &self.pool {
            Some(pool) => pool.clone(),
            None => {
                return Err(PoolError::NotInitialized);
            },
        };
        let (amount_a, amount_b, shares) = match quote_deposit(
            &pool,
            amount_a_desired,
            amount_b_desired,
            amount_a_min,
            amount_b_min,
        ) {
            Ok(quote) => quote,
            Err(e) => {
                return Err(e);
            },
        };
        if amount_a < 0 || amount_b < 0 {
            return Err(PoolError::NegativeAmount);
        }
        let place = self.find_position(user);
        let mut position = if place < self.positions.len() {
            self.positions[place].clone()
        } else {
            LiquidityPosition {
                owner: user.clone(),
                shares: 0,
                token_a_deposited: 0,
                token_b_deposited: 0,
            }
        };
        proof {
            lemma_first_where(self@.positions, is_position_of(user@));
        }
        match (
            checked_sum(pool.reserve_a, amount_a),
            checked_sum(pool.reserve_b, amount_b),
            checked_sum(pool.total_shares, shares),
            checked_sum(position.shares, shares),
            checked_sum(position.token_a_deposited, amount_a),
            checked_sum(position.token_b_deposited, amount_b),
        ) {
            (
                Some(reserve_a),
                Some(reserve_b),
                Some(total_shares),
                Some(held),
                Some(token_a_deposited),
                Some(token_b_deposited),
            ) => {
                pool.reserve_a = reserve_a;
                pool.reserve_b = reserve_b;
                pool.total_shares = total_shares;
                position.shares = held;
                position.token_a_deposited = token_a_deposited;
                position.token_b_deposited = token_b_deposited;
                self.pool = Some(pool);
                self.put_position(place, position);
                Ok((amount_a, amount_b, shares))
            },
            _ => Err(PoolError::Arithmetic),
        }
    }

    /// Gives shares back and returns the amounts of both tokens that they
    /// are worth. The pool owes the user the two amounts.
    ///
    /// See [`PoolState::remove_liquidity`]. A call that fails changes
    /// nothing.
    pub fn remove_liquidity(
        &mut self,
        env: &Env,
        user: &Address,
        liquidity_shares: i128,
        amount_a_min: i128,
        amount_b_min: i128,
    ) -> (result: Result<(i128, i128), PoolError>)
        requires
            old(self).wf(),
        ensures
            final(self).wf(),
            match old(self)@.remove_liquidity(
                *env,
                user@,
                liquidity_shares,
                amount_a_min,
                amount_b_min,
            ) {
                Err(e) => result == Err::<(i128, i128), PoolError>(e) && final(self)@ == old(self)@,
                Ok((state, amounts)) => result == Ok::<(i128, i128), PoolError>(amounts)
                    && final(self)@ == state,
            },
    {
        if !env.has_authorized(user) {
            return Err(PoolError::Unauthorized);
        }
        let mut pool = match &self.pool {
            Some(pool) => pool.clone(),
            None => {
                return Err(PoolError::NotInitialized);
            },
        };
        let place = self.find_position(user);
        if place == self.positions.len() {
            return Err(PoolError::NoPosition);
        }
        let mut position = self.positions[place].clone();
        proof {
            lemma_first_where(self@.positions, is_position_of(user@));
        }
        if position.shares < liquidity_shares {
            return Err(PoolError::InsufficientShares);
        }
        let (amount_a, amount_b) = match quote_withdrawal(
            &pool,
            liquidity_shares,
            amount_a_min,
            amount_b_min,
        ) {
            Ok(amounts) => amounts,
            Err(e) => {
                return Err(e);
            },
        };
        if amount_a < 0 || amount_b < 0 {
            return Err(PoolError::NegativeAmount);
        }
        match (
            checked_difference(pool.reserve_a, amount_a),
            checked_difference(pool.reserve_b, amount_b),
            checked_difference(pool.total_shares, liquidity_shares),
            checked_difference(position.shares, liquidity_shares),
        ) {
            (Some(reserve_a), Some(reserve_b), Some(total_shares), Some(left)) => {
                match (
                    checked_mul_div(position.token_a_deposited, left, position.shares),
                    checked_mul_div(position.token_b_deposited, left, position.shares),
                ) {
                    (Some(token_a_deposited), Some(token_b_deposited)) => {
                        pool.reserve_a = reserve_a;
                        pool.reserve_b = reserve_b;
                        pool.total_shares = total_shares;
                        position.shares = left;
                        position.token_a_deposited = token_a_deposited;
                        position.token_b_deposited = token_b_deposited;
                        self.pool = Some(pool);
                        self.put_position(place, position);
                        Ok((amount_a, amount_b))
                    },
                    _ => Err(PoolError::Arithmetic),
                }
            },
            _ => Err(PoolError::Arithmetic),
        }
    }

    /// Swaps `amount_in` of one of the pool's tokens for the other and
    /// returns the amount paid. The user owes the pool the amount put in,
    /// the pool owes the user the amount paid.
    ///
    /// See [`PoolState::swap`]. A call that fails changes nothing.
    pub fn swap(
        &mut self,
        env: &Env,
        user: &Address,
        token_in: &Address,
        amount_in: i128,
        amount_out_min: i128,
    ) -> (result: Result<i128, PoolError>)
        requires
            old(self).wf(),
        ensures
            final(self).wf(),
            match old(self)@.swap(*env, user@, token_in@, amount_in, amount_out_min) {
                Err(e) => result == Err::<i128, PoolError>(e) && final(self)@ == old(self)@,
                Ok((state, amount_out)) => result == Ok::<i128, PoolError>(amount_out)
                    && final(self)@ == state,
            },
    {
        if !env.has_authorized(user) {
            return Err(PoolError::Unauthorized);
        }
        let mut pool = match &self.pool {
            Some(pool) => pool.clone(),
            None => {
                return Err(PoolError::NotInitialized);
            },
        };
        let a_in = *token_in == pool.token_a;
        if !a_in && !(*token_in == pool.token_b) {
            return Err(PoolError::InvalidToken);
        }
        let (reserve_in, reserve_out) = if a_in {
            (pool.reserve_a, pool.reserve_b)
        } else {
            (pool.reserve_b, pool.reserve_a)
        };
        let amount_out = match quote_swap(reserve_in, reserve_out, pool.fee_rate, amount_in) {
            Some(amount_out) => amount_out,
            None => {
                return Err(PoolError::Arithmetic);
            },
        };
        if amount_out < amount_out_min {
            return Err(PoolError::InsufficientOutput);
        }
        if amount_in < 0 || amount_out < 0 {
            return Err(PoolError::NegativeAmount);
        }
        match (checked_sum(reserve_in, amount_in), checked_difference(reserve_out, amount_out)) {
            (Some(new_in), Some(new_out)) => {
                if a_in {
                    pool.reserve_a = new_in;
                    pool.reserve_b = new_out;
                } else {
                    pool.reserve_b = new_in;
                    pool.reserve_a = new_out;
                }
                self.pool = Some(pool);
                Ok(amount_out)
            },
            _ => Err(PoolError::Arithmetic),
        }
    }

    /// A copy of the pool's tokens, reserves and shares, or `NotInitialized`.
    pub fn get_pool_info(&self) -> (result: Result<PoolInfo, PoolError>)
        ensures
            self@.pool.is_none() ==> result == Err::<PoolInfo, PoolError>(
                PoolError::NotInitialized,
            ),
            self@.pool matches Some(pool) ==> result.is_ok() && result.unwrap()@ == pool,
    {
        match &self.pool {
            Some(pool) => Ok(pool.clone()),
            None => Err(PoolError::NotInitialized),
        }
    }

    /// A copy of the position of `user`, if there is one.
    pub fn get_position(&self, user: &Address) -> (found: Option<LiquidityPosition>)
        ensures
            found.is_some() == self@.position(user@).is_some(),
            found matches Some(position) ==> Some(position@) == self@.position(user@),
    {
        let place = self.find_position(user);
        if place < self.positions.len() {
            Some(self.positions[place].clone())
        } else {
            None
        }
    }
}

/// A swap pays no more than the reserve holds: where the reserves and the
/// amount put in are not negative and the fee is no more than the whole, what
/// the swap pays lies between zero and the reserve that pays.
pub proof fn law_swap_within_reserve(
    reserve_in: i128,
    reserve_out: i128,
    fee_rate: u32,
    amount_in: i128,
)
    requires
        0 <= reserve_in,
        0 <= reserve_out,
        0 <= amount_in,
        fee_rate <= FEE_SCALE,
    ensures
        swap_quote(reserve_in, reserve_out, fee_rate, amount_in) matches Some(amount_out) ==> 0
            <= amount_out <= reserve_out,
{
    let kept = (FEE_SCALE - fee_rate) as i128;
    lemma_part_is_not_negative(amount_in, kept, FEE_SCALE);
    if let Some(after_fee) = mul_div(amount_in, kept, FEE_SCALE) {
        if let Some(divisor) = sum(reserve_in, after_fee) {
            if divisor != 0 {
                lemma_part_is_bounded(after_fee, reserve_out, divisor);
            }
        }
    }
}

/// Giving shares back takes no more than the reserves hold: where the
/// reserves are not negative and the shares given back are some of all
/// shares, each amount lies between zero and its reserve.
pub proof fn law_withdrawal_within_reserves(
    pool: PoolInfoView,
    liquidity_shares: i128,
    amount_a_min: i128,
    amount_b_min: i128,
)
    requires
        0 <= pool.reserve_a,
        0 <= pool.reserve_b,
        0 <= liquidity_shares <= pool.total_shares,
    ensures
        withdrawal_quote(pool, liquidity_shares, amount_a_min, amount_b_min) matches Ok(amounts)
            ==> 0 <= amounts.0 <= pool.reserve_a && 0 <= amounts.1 <= pool.reserve_b,
{
    if pool.total_shares > 0 {
        lemma_part_is_bounded(liquidity_shares, pool.reserve_a, pool.total_shares);
        lemma_part_is_bounded(liquidity_shares, pool.reserve_b, pool.total_shares);
    }
}

} // verus!
