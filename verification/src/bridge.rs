//! The bridge: requests to carry tokens to another chain, with their fees,
//! under a configuration that an administrator sets.

use crate::amounts::{checked_mul_div, checked_sum, mul_div, sum};
use crate::bytes::clone_bytes;
use crate::env::{Address, Env};
use vstd::prelude::*;

verus! {

/// A request waits to be taken up.
pub const REQUEST_PENDING: u32 = 0;

/// Fee percentages are counted in parts of this many.
pub const BASIS_POINTS: i128 = 10000;

/// One request to carry tokens to another chain.
#[derive(Debug, PartialEq, Eq)]
pub struct BridgeRequest {
    pub user: Address,
    pub from_token: Address,
    /// The name of the chain to carry to.
    pub to_chain: Vec<u8>,
    /// The receiver on that chain.
    pub to_address: [u8; 32],
    pub amount: i128,
    pub fee: i128,
    /// 0: pending, 1: processing, 2: completed, 3: failed.
    pub status: u32,
    /// The ledger time at which the request was made.
    pub timestamp: u64,
}

/// What a [`BridgeRequest`] holds, as mathematical values.
pub struct BridgeRequestView {
    pub user: Seq<u8>,
    pub from_token: Seq<u8>,
    pub to_chain: Seq<u8>,
    pub to_address: Seq<u8>,
    pub amount: i128,
    pub fee: i128,
    pub status: u32,
    pub timestamp: u64,
}

impl View for BridgeRequest {
    type V = BridgeRequestView;

    open spec fn view(&self) -> BridgeRequestView {
        BridgeRequestView {
            user: self.user@,
            from_token: self.from_token@,
            to_chain: self.to_chain@,
            to_address: self.to_address@,
            amount: self.amount,
            fee: self.fee,
            status: self.status,
            timestamp: self.timestamp,
        }
    }
}

impl Clone for BridgeRequest {
    fn clone(&self) -> (copy: BridgeRequest)
        ensures
            copy@ == self@,
    {
        BridgeRequest {
            user: self.user.clone(),
            from_token: self.from_token.clone(),
            to_chain: clone_bytes(&self.to_chain),
            to_address: self.to_address,
            amount: self.amount,
            fee: self.fee,
            status: self.status,
            timestamp: self.timestamp,
        }
    }
}

/// The settings of the bridge.
#[derive(Debug, PartialEq, Eq)]
pub struct BridgeConfig {
    pub admin: Address,
    pub fee_recipient: Address,
    pub base_fee: i128,
    /// In basis points: 100 is one percent.
    pub fee_percentage: u32,
    pub min_amount: i128,
    pub max_amount: i128,
    pub is_paused: bool,
}

/// What a [`BridgeConfig`] holds, as mathematical values.
pub struct BridgeConfigView {
    pub admin: Seq<u8>,
    pub fee_recipient: Seq<u8>,
    pub base_fee: i128,
    pub fee_percentage: u32,
    pub min_amount: i128,
    pub max_amount: i128,
    pub is_paused: bool,
}

impl View for BridgeConfig {
    type V = BridgeConfigView;

    open spec fn view(&self) -> BridgeConfigView {
        BridgeConfigView {
            admin: self.admin@,
            fee_recipient: self.fee_recipient@,
            base_fee: self.base_fee,
            fee_percentage: self.fee_percentage,
            min_amount: self.min_amount,
            max_amount: self.max_amount,
            is_paused: self.is_paused,
        }
    }
}

impl Clone for BridgeConfig {
    fn clone(&self) -> (copy: BridgeConfig)
        ensures
            copy@ == self@,
    {
        BridgeConfig {
            admin: self.admin.clone(),
            fee_recipient: self.fee_recipient.clone(),
            base_fee: self.base_fee,
            fee_percentage: self.fee_percentage,
            min_amount: self.min_amount,
            max_amount: self.max_amount,
            is_paused: self.is_paused,
        }
    }
}

/// Why a call was turned away.
#[derive(Clone, Copy, Debug, PartialEq, Eq, Structural)]
pub enum BridgeError {
    /// The identity that had to authorize the call did not.
    Unauthorized,
    /// The bridge has no configuration yet.
    NotInitialized,
    /// The bridge is paused.
    Paused,
    /// The amount is below the least or above the greatest that is carried.
    InvalidAmount,
    /// The fee, the amount with the fee, or the number of the request is too
    /// large to be written down.
    Overflow,
}

/// The fee for carrying `amount`: the base fee and the percentage of the
/// amount, rounded toward zero.
pub open spec fn fee_for(config: BridgeConfigView, amount: i128) -> Option<i128> {
    match mul_div(amount, config.fee_percentage as i128, BASIS_POINTS) {
        Some(share) => sum(config.base_fee, share),
        None => None,
    }
}

/// The values of the update where there are any, the old values elsewhere.
pub open spec fn updated_config(
    config: BridgeConfigView,
    fee_recipient: Option<Seq<u8>>,
    base_fee: Option<i128>,
    fee_percentage: Option<u32>,
    min_amount: Option<i128>,
    max_amount: Option<i128>,
    is_paused: Option<bool>,
) -> BridgeConfigView {
    BridgeConfigView {
        admin: config.admin,
        fee_recipient: match fee_recipient {
            Some(v) => v,
            None => config.fee_recipient,
        },
        base_fee: match base_fee {
            Some(v) => v,
            None => config.base_fee,
        },
        fee_percentage: match fee_percentage {
            Some(v) => v,
            None => config.fee_percentage,
        },
        min_amount: match min_amount {
            Some(v) => v,
            None => config.min_amount,
        },
        max_amount: match max_amount {
            Some(v) => v,
            None => config.max_amount,
        },
        is_paused: match is_paused {
            Some(v) => v,
            None => config.is_paused,
        },
    }
}

/// What the bridge holds. The request with the number `n` stands at place
/// `n - 1`; the counter is the number of the request made last.
pub struct BridgeState {
    pub config: Option<BridgeConfigView>,
    pub counter: u64,
    pub requests: Seq<BridgeRequestView>,
}

impl BridgeState {
    /// Every number up to the counter has its request.
    pub open spec fn wf(self) -> bool {
        self.counter <= self.requests.len()
    }

    /// The request with the given number, if there is one.
    pub open spec fn request(self, request_id: u64) -> Option<BridgeRequestView> {
        if 1 <= request_id <= self.requests.len() {
            Some(self.requests[request_id - 1])
        } else {
            None
        }
    }

    /// The requests with the one numbered `request_id` exchanged for
    /// `request`, or with `request` added where that is the next number.
    pub open spec fn with_request(self, request_id: u64, request: BridgeRequestView) -> Seq<
        BridgeRequestView,
    > {
        if request_id <= self.requests.len() {
            self.requests.update(request_id - 1, request)
        } else {
            self.requests.push(request)
        }
    }

    /// Why a request for `amount` by `user` is turned away, if it is: for want
    /// of authorization, of a configuration, while paused, for an amount out
    /// of bounds, or for numbers that cannot be written down, in this order.
    pub open spec fn request_refusal(self, env: Env, user: Seq<u8>, amount: i128) -> Option<
        BridgeError,
    > {
        if !env.authorizes(user) {
            Some(BridgeError::Unauthorized)
        } else if self.config.is_none() {
            Some(BridgeError::NotInitialized)
        } else if self.config.unwrap().is_paused {
            Some(BridgeError::Paused)
        } else if amount < self.config.unwrap().min_amount || amount
            > self.config.unwrap().max_amount {
            Some(BridgeError::InvalidAmount)
        } else if fee_for(self.config.unwrap(), amount).is_none() || sum(
            amount,
            fee_for(self.config.unwrap(), amount).unwrap(),
        ).is_none() || self.counter == u64::MAX {
            Some(BridgeError::Overflow)
        } else {
            None
        }
    }
}

/// The bridge contract.
#[derive(Debug)]
pub struct StellarBridge {
    config: Option<BridgeConfig>,
    counter: u64,
    requests: Vec<BridgeRequest>,
}

impl View for StellarBridge {
    type V = BridgeState;

    closed spec fn view(&self) -> BridgeState {
        BridgeState {
            config: match self.config {
                Some(config) => Some(config@),
                None => None,
            },
            counter: self.counter,
            requests: self.requests@.map_values(|r: BridgeRequest| r@),
        }
    }
}

impl StellarBridge {
    /// The invariant of the contract: see [`BridgeState::wf`].
    pub open spec fn wf(&self) -> bool {
        self@.wf()
    }

    /// A bridge without configuration and without requests.
    pub fn new() -> (contract: StellarBridge)
        ensures
            contract@ == (BridgeState { config: None, counter: 0, requests: Seq::empty() }),
            contract.wf(),
    {
        let contract = StellarBridge { config: None, counter: 0, requests: Vec::new() };
        assert(contract@.requests =~= Seq::empty());
        contract
    }

    /// The bridge that holds the given configuration, counter and requests,
    /// the request with the number `n` at place `n - 1`, if every number up to
    /// the counter has its request.
    pub fn restore(config: Option<BridgeConfig>, counter: u64, requests: Vec<BridgeRequest>) -> (contract:
        Option<StellarBridge>)
        ensures
            contract.is_some() == (counter <= requests@.len()),
            contract matches Some(c) ==> c.wf() && c@ == (BridgeState {
                config: match config {
                    Some(config) => Some(config@),
                    None => None,
                },
                counter,
                requests: requests@.map_values(|r: BridgeRequest| r@),
            }),
    {
        if counter > requests.len() as u64 {
            return None;
        }
        Some(StellarBridge { config, counter, requests })
    }

    /// Copies of all requests, the one with the number `n` at place `n - 1`.
    pub fn requests(&self) -> (requests: Vec<BridgeRequest>)
        ensures
            requests@.map_values(|r: BridgeRequest| r@) == self@.requests,
    {
        let mut requests: Vec<BridgeRequest> = Vec::new();
        let mut i: usize = 0;
        while i < self.requests.len()
            invariant
                i <= self.requests@.len(),
                requests@.map_values(|r: BridgeRequest| r@) == self@.requests.take(i as int),
            decreases self.requests@.len() - i,
        {
            let ghost copied = requests@.map_values(|r: BridgeRequest| r@);
            requests.push(self.requests[i].clone());
            assert(requests@.map_values(|r: BridgeRequest| r@) =~= copied.push(
                self@.requests[i as int],
            ));
            assert(self@.requests.take(i + 1) =~= self@.requests.take(i as int).push(
                self@.requests[i as int],
            ));
            i += 1;
        }
        assert(self@.requests.take(self.requests@.len() as int) =~= self@.requests);
        requests
    }

    /// Sets the configuration, not paused, and the counter to zero. The
    /// requests made before stay; new requests take their numbers over.
    ///
    /// Is turned away unless `admin` authorized the call.
    pub fn initialize(
        &mut self,
        env: &Env,
        admin: Address,
        fee_recipient: Address,
        base_fee: i128,
        fee_percentage: u32,
        min_amount: i128,
        max_amount: i128,
    ) -> (result: Result<(), BridgeError>)
        requires
            old(self).wf(),
        ensures
            final(self).wf(),
            !env.authorizes(admin@) ==> result == Err::<(), BridgeError>(BridgeError::Unauthorized)
                && final(self)@ == old(self)@,
            env.authorizes(admin@) ==> result.is_ok() && final(self)@ == (BridgeState {
                config: Some(
                    BridgeConfigView {
                        admin: admin@,
                        fee_recipient: fee_recipient@,
                        base_fee,
                        fee_percentage,
                        min_amount,
                        max_amount,
                        is_paused: false,
                    },
                ),
                counter: 0,
                requests: old(self)@.requests,
            }),
    {
        if !env.has_authorized(&admin) {
            return Err(BridgeError::Unauthorized);
        }
        self.config = Some(
            BridgeConfig {
                admin,
                fee_recipient,
                base_fee,
                fee_percentage,
                min_amount,
                max_amount,
                is_paused: false,
            },
        );
        self.counter = 0;
        Ok(())
    }

    /// The fee for carrying `amount` under `config`.
    pub fn bridge_fee(config: &BridgeConfig, amount: i128) -> (fee: Option<i128>)
        ensures
            fee == fee_for(config@, amount),
    {
        match checked_mul_div(amount, config.fee_percentage as i128, BASIS_POINTS) {
            Some(share) => checked_sum(config.base_fee, share),
            None => None,
        }
    }

    /// Makes a request to carry `amount` of `from_token` to `to_address` on
    /// `to_chain`, and returns its number, which is the counter after it went
    /// up by one. The user owes the amount and the fee.
    ///
    /// Is turned away as [`BridgeState::request_refusal`] says; then nothing
    /// changes.
    pub fn create_bridge_request(
        &mut self,
        env: &Env,
        user: Address,
        from_token: Address,
        to_chain: Vec<u8>,
        to_address: [u8; 32],
        amount: i128,
    ) -> (result: Result<u64, BridgeError>)
        requires
            old(self).wf(),
        ensures
            final(self).wf(),
            old(self)@.request_refusal(*env, user@, amount) matches Some(e) ==> result == Err::<
                u64,
                BridgeError,
            >(e) && final(self)@ == old(self)@,
            old(self)@.request_refusal(*env, user@, amount).is_none() ==> {
                let request_id = (old(self)@.counter + 1) as u64;
                let request = BridgeRequestView {
                    user: user@,
                    from_token: from_token@,
                    to_chain: to_chain@,
                    to_address: to_address@,
                    amount,
                    fee: fee_for(old(self)@.config.unwrap(), amount).unwrap(),
                    status: REQUEST_PENDING,
                    timestamp: env.timestamp,
                };
                &&& result == Ok::<u64, BridgeError>(request_id)
                &&& final(self)@ == (BridgeState {
                    config: old(self)@.config,
                    counter: request_id,
                    requests: old(self)@.with_request(request_id, request),
                })
                &&& final(self)@.request(request_id) == Some(request)
            },
    {
        if !env.has_authorized(&user) {
            return Err(BridgeError::Unauthorized);
        }
        let fee = match &self.config {
            None => {
                return Err(BridgeError::NotInitialized);
            },
            Some(config) => {
                if config.is_paused {
                    return Err(BridgeError::Paused);
                }
                if amount < config.min_amount || amount > config.max_amount {
                    return Err(BridgeError::InvalidAmount);
                }
                Self::bridge_fee(config, amount)
            },
        };
        let fee = match fee {
            Some(fee) => fee,
            None => {
                return Err(BridgeError::Overflow);
            },
        };
        if checked_sum(amount, fee).is_none() || self.counter == u64::MAX {
            return Err(BridgeError::Overflow);
        }
        let request_id = self.counter + 1;
        let request = BridgeRequest {
            user,
            from_token,
            to_chain,
            to_address,
            amount,
            fee,
            status: REQUEST_PENDING,
            timestamp: env.timestamp,
        };
        let ghost requested = request@;
        if self.counter < self.requests.len() as u64 {
            let place = self.counter as usize;
            self.requests[place] = request;
        } else {
            self.requests.push(request);
        }
        self.counter = request_id;
        assert(self@.requests =~= old(self)@.with_request(request_id, requested));
        Ok(request_id)
    }

    /// A copy of the request with the given number, if there is one.
    pub fn get_bridge_request(&self, request_id: u64) -> (found: Option<BridgeRequest>)
        ensures
            found.is_some() == self@.request(request_id).is_some(),
            found matches Some(request) ==> Some(request@) == self@.request(request_id),
    {
        if request_id >= 1 && request_id - 1 < self.requests.len() as u64 {
            let place = (request_id - 1) as usize;
            Some(self.requests[place].clone())
        } else {
            None
        }
    }

    /// Sets the status of a request. Where no request has the number,
    /// nothing changes and the call still succeeds.
    ///
    /// Fails with `NotInitialized`, else is turned away unless the
    /// administrator authorized the call.
    pub fn update_request_status(
        &mut self,
        env: &Env,
        request_id: u64,
        new_status: u32,
        _tx_hash: Option<[u8; 32]>,
    ) -> (result: Result<(), BridgeError>)
        requires
            old(self).wf(),
        ensures
            final(self).wf(),
            result == old(self).admin_check(*env),
            result.is_err() ==> final(self)@ == old(self)@,
            result.is_ok() ==> final(self)@ == (BridgeState {
                requests: match old(self)@.request(request_id) {
                    Some(request) => old(self)@.requests.update(
                        request_id - 1,
                        BridgeRequestView { status: new_status, ..request },
                    ),
                    None => old(self)@.requests,
                },
                ..old(self)@
            }),
    {
        match self.check_admin(env) {
            Err(e) => {
                return Err(e);
            },
            Ok(_) => {},
        }
        if request_id >= 1 && request_id - 1 < self.requests.len() as u64 {
            let place = (request_id - 1) as usize;
            let mut request = self.requests[place].clone();
            request.status = new_status;
            let ghost changed = request@;
            self.requests[place] = request;
            assert(self@.requests =~= old(self)@.requests.update(request_id - 1, changed));
        }
        Ok(())
    }

    /// Whether a call that only the administrator may make goes ahead:
    /// `NotInitialized` without a configuration, `Unauthorized` unless the
    /// administrator authorized the call.
    pub open spec fn admin_check(&self, env: Env) -> Result<(), BridgeError> {
        match self@.config {
            None => Err(BridgeError::NotInitialized),
            Some(config) => if env.authorizes(config.admin) {
                Ok(())
            } else {
                Err(BridgeError::Unauthorized)
            },
        }
    }

    /// Whether a call that only the administrator may make goes ahead.
    pub fn check_admin(&self, env: &Env) -> (result: Result<(), BridgeError>)
        ensures
            result == self.admin_check(*env),
    {
        match &self.config {
            None => Err(BridgeError::NotInitialized),
            Some(config) => if env.has_authorized(&config.admin) {
                Ok(())
            } else {
                Err(BridgeError::Unauthorized)
            },
        }
    }

    /// A copy of the configuration, or `NotInitialized`.
    pub fn get_config(&self) -> (result: Result<BridgeConfig, BridgeError>)
        ensures
            self@.config.is_none() ==> result == Err::<BridgeConfig, BridgeError>(
                BridgeError::NotInitialized,
            ),
            self@.config matches Some(config) ==> result.is_ok() && result.unwrap()@ == config,
    {
        match &self.config {
            Some(config) => Ok(config.clone()),
            None => Err(BridgeError::NotInitialized),
        }
    }

    /// Changes the settings for which a value is given. The administrator
    /// stays.
    ///
    /// Fails with `NotInitialized`, else is turned away unless the
    /// administrator authorized the call.
    pub fn update_config(
        &mut self,
        env: &Env,
        fee_recipient: Option<Address>,
        base_fee: Option<i128>,
        fee_percentage: Option<u32>,
        min_amount: Option<i128>,
        max_amount: Option<i128>,
        is_paused: Option<bool>,
    ) -> (result: Result<(), BridgeError>)
        ensures
            result == old(self).admin_check(*env),
            result.is_err() ==> final(self)@ == old(self)@,
            result.is_ok() ==> final(self)@ == (BridgeState {
                config: Some(
                    updated_config(
                        old(self)@.config.unwrap(),
                        match fee_recipient {
                            Some(a) => Some(a@),
                            None => None,
                        },
                        base_fee,
                        fee_percentage,
                        min_amount,
                        max_amount,
                        is_paused,
                    ),
                ),
                ..old(self)@
            }),
    {
        match self.check_admin(env) {
            Err(e) => {
                return Err(e);
            },
            Ok(_) => {},
        }
        let mut config = match &self.config {
            Some(config) => config.clone(),
            None => {
                return Err(BridgeError::NotInitialized);
            },
        };
        if let Some(recipient) = fee_recipient {
            config.fee_recipient = recipient;
        }
        if let Some(fee) = base_fee {
            config.base_fee = fee;
        }
        if let Some(percentage) = fee_percentage {
            config.fee_percentage = percentage;
        }
        if let Some(min) = min_amount {
            config.min_amount = min;
        }
        if let Some(max) = max_amount {
            config.max_amount = max;
        }
        if let Some(paused) = is_paused {
            config.is_paused = paused;
        }
        self.config = Some(config);
        Ok(())
    }

    /// The number of the request made last.
    pub fn get_request_count(&self) -> (count: u64)
        ensures
            count == self@.counter,
    {
        self.counter
    }

    /// Whether tokens that the bridge holds may be paid out at once: only
    /// with the administrator's authorization. The payment itself is the
    /// caller's to make.
    pub fn emergency_withdraw(
        &self,
        env: &Env,
        _token: &Address,
        _to: &Address,
        _amount: i128,
    ) -> (result: Result<(), BridgeError>)
        ensures
            result == self.admin_check(*env),
    {
        self.check_admin(env)
    }
}

} // verus!
