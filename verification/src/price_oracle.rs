//! The price oracle: prices for pairs of tokens, written by the oracles that
//! the administrator has admitted.

use crate::bytes::{bytes_eq, clone_bytes};
use crate::env::{Address, Env};
use crate::search::{first_where, lemma_first_where, lemma_first_where_is};
use vstd::prelude::*;

verus! {

/// A price with its scale, its time and its source.
#[derive(Debug, PartialEq, Eq)]
pub struct PriceData {
    pub price: i128,
    pub decimals: u32,
    /// The ledger time at which the price was written.
    pub timestamp: u64,
    pub source: Vec<u8>,
}

/// What a [`PriceData`] holds, as mathematical values.
pub struct PriceDataView {
    pub price: i128,
    pub decimals: u32,
    pub timestamp: u64,
    pub source: Seq<u8>,
}

impl View for PriceData {
    type V = PriceDataView;

    open spec fn view(&self) -> PriceDataView {
        PriceDataView {
            price: self.price,
            decimals: self.decimals,
            timestamp: self.timestamp,
            source: self.source@,
        }
    }
}

impl Clone for PriceData {
    fn clone(&self) -> (copy: PriceData)
        ensures
            copy@ == self@,
    {
        PriceData {
            price: self.price,
            decimals: self.decimals,
            timestamp: self.timestamp,
            source: clone_bytes(&self.source),
        }
    }
}

/// The two tokens of a price: what is priced, and in what.
#[derive(Debug, PartialEq, Eq)]
pub struct TokenPair {
    pub base: Vec<u8>,
    pub quote: Vec<u8>,
}

/// What a [`TokenPair`] holds, as mathematical values.
pub struct TokenPairView {
    pub base: Seq<u8>,
    pub quote: Seq<u8>,
}

impl View for TokenPair {
    type V = TokenPairView;

    open spec fn view(&self) -> TokenPairView {
        TokenPairView { base: self.base@, quote: self.quote@ }
    }
}

/// Why a call was turned away.
#[derive(Clone, Copy, Debug, PartialEq, Eq, Structural)]
pub enum OracleError {
    /// The contract was initialized before.
    AlreadyInitialized,
    /// The contract was not initialized yet.
    NotInitialized,
    /// The identity that had to authorize the call did not.
    Unauthorized,
    /// The caller is no admitted oracle.
    UnauthorizedOracle,
}

/// A price as it is kept, under its pair.
pub struct QuoteView {
    pub pair: TokenPairView,
    pub data: PriceDataView,
}

/// The condition of being the identity `who`.
pub open spec fn is_identity(who: Seq<u8>) -> spec_fn(Seq<u8>) -> bool {
    |a: Seq<u8>| a == who
}

/// The condition of being a price for `pair`.
pub open spec fn is_for(pair: TokenPairView) -> spec_fn(QuoteView) -> bool {
    |q: QuoteView| q.pair == pair
}

/// What the oracle contract holds.
pub struct OracleState {
    pub admin: Option<Seq<u8>>,
    /// The admitted oracles, in the order in which they were admitted.
    pub oracles: Seq<Seq<u8>>,
    /// The prices, one for each pair that was ever priced.
    pub quotes: Seq<QuoteView>,
}

impl OracleState {
    /// No oracle is listed twice.
    pub open spec fn wf(self) -> bool {
        self.oracles.no_duplicates()
    }

    /// Whether `who` is an admitted oracle.
    pub open spec fn admits(self, who: Seq<u8>) -> bool {
        self.oracles.contains(who)
    }

    /// The latest price for the pair, if it was ever priced.
    pub open spec fn price(self, pair: TokenPairView) -> Option<PriceDataView> {
        let place = first_where(self.quotes, is_for(pair));
        if place < self.quotes.len() {
            Some(self.quotes[place].data)
        } else {
            None
        }
    }

    /// Whether a call that only the administrator may make goes ahead.
    pub open spec fn admin_check(self, env: Env) -> Result<(), OracleError> {
        match self.admin {
            None => Err(OracleError::NotInitialized),
            Some(admin) => if env.authorizes(admin) {
                Ok(())
            } else {
                Err(OracleError::Unauthorized)
            },
        }
    }

    /// The quotes with `quote` in place of the price for its pair, or added
    /// at the end where the pair had no price.
    pub open spec fn with_quote(self, quote: QuoteView) -> Seq<QuoteView> {
        let place = first_where(self.quotes, is_for(quote.pair));
        if place < self.quotes.len() {
            self.quotes.update(place, quote)
        } else {
            self.quotes.push(quote)
        }
    }
}

/// A price with its pair.
#[derive(Debug)]
struct Quote {
    pair: TokenPair,
    data: PriceData,
}

impl View for Quote {
    type V = QuoteView;

    closed spec fn view(&self) -> QuoteView {
        QuoteView { pair: self.pair@, data: self.data@ }
    }
}

/// The price oracle contract.
#[derive(Debug)]
pub struct PriceOracle {
    admin: Option<Address>,
    oracles: Vec<Address>,
    quotes: Vec<Quote>,
}

impl View for PriceOracle {
    type V = OracleState;

    closed spec fn view(&self) -> OracleState {
        OracleState {
            admin: match self.admin {
                Some(admin) => Some(admin@),
                None => None,
            },
            oracles: self.oracles@.map_values(|a: Address| a@),
            quotes: self.quotes@.map_values(|q: Quote| q@),
        }
    }
}

impl PriceOracle {
    /// The invariant of the contract: see [`OracleState::wf`].
    pub open spec fn wf(&self) -> bool {
        self@.wf()
    }

    /// A contract that was not initialized yet.
    pub fn new() -> (contract: PriceOracle)
        ensures
            contract@ == (OracleState {
                admin: None,
                oracles: Seq::empty(),
                quotes: Seq::empty(),
            }),
            contract.wf(),
    {
        let contract = PriceOracle { admin: None, oracles: Vec::new(), quotes: Vec::new() };
        assert(contract@.oracles =~= Seq::empty());
        assert(contract@.quotes =~= Seq::empty());
        contract
    }

    /// The contract that holds the given administrator, oracles and prices,
    /// if no oracle is listed twice.
    pub fn restore(
        admin: Option<Address>,
        oracles: Vec<Address>,
        prices: Vec<(TokenPair, PriceData)>,
    ) -> (contract: Option<PriceOracle>)
        ensures
            contract.is_some() == oracles@.map_values(|a: Address| a@).no_duplicates(),
            contract matches Some(c) ==> {
                &&& c.wf()
                &&& c@.admin == match admin {
                    Some(admin) => Some(admin@),
                    None => None,
                }
                &&& c@.oracles == oracles@.map_values(|a: Address| a@)
                &&& c@.quotes.len() == prices@.len()
                &&& forall|i: int|
                    0 <= i < prices@.len() ==> (#[trigger] c@.quotes[i]).pair == prices@[i].0@
                        && c@.quotes[i].data == prices@[i].1@
            },
    {
        let ghost listed = oracles@.map_values(|a: Address| a@);
        let mut i: usize = 0;
        while i < oracles.len()
            invariant
                i <= oracles@.len(),
                listed == oracles@.map_values(|a: Address| a@),
                forall|a: int, b: int| 0 <= a < b < i ==> listed[a] != listed[b],
            decreases oracles@.len() - i,
        {
            let mut j: usize = 0;
            while j < i
                invariant
                    j <= i < oracles@.len(),
                    listed == oracles@.map_values(|a: Address| a@),
                    forall|a: int| 0 <= a < j ==> listed[a] != listed[i as int],
                decreases i - j,
            {
                if oracles[j] == oracles[i] {
                    assert(listed[j as int] == listed[i as int]);
                    return None;
                }
                j += 1;
            }
            i += 1;
        }
        let mut quotes: Vec<Quote> = Vec::new();
        let mut k: usize = 0;
        while k < prices.len()
            invariant
                k <= prices@.len(),
                quotes@.len() == k,
                forall|j: int|
                    0 <= j < k ==> (#[trigger] quotes@[j])@.pair == prices@[j].0@ && quotes@[j]@.data
                        == prices@[j].1@,
            decreases prices@.len() - k,
        {
            quotes.push(
                Quote {
                    pair: TokenPair {
                        base: clone_bytes(&prices[k].0.base),
                        quote: clone_bytes(&prices[k].0.quote),
                    },
                    data: prices[k].1.clone(),
                },
            );
            k += 1;
        }
        Some(PriceOracle { admin, oracles, quotes })
    }

    /// Makes `admin` the administrator, with no oracle admitted.
    ///
    /// Fails with `AlreadyInitialized` on an initialized contract, else is
    /// turned away unless `admin` authorized the call.
    pub fn initialize(&mut self, env: &Env, admin: Address) -> (result: Result<(), OracleError>)
        requires
            old(self).wf(),
        ensures
            final(self).wf(),
            old(self)@.admin.is_some() ==> result == Err::<(), OracleError>(
                OracleError::AlreadyInitialized,
            ),
            old(self)@.admin.is_none() && !env.authorizes(admin@) ==> result == Err::<
                (),
                OracleError,
            >(OracleError::Unauthorized),
            old(self)@.admin.is_none() && env.authorizes(admin@) ==> result.is_ok(),
            result.is_err() ==> final(self)@ == old(self)@,
            result.is_ok() ==> final(self)@ == (OracleState {
                admin: Some(admin@),
                oracles: Seq::empty(),
                quotes: old(self)@.quotes,
            }),
    {
        if self.admin.is_some() {
            return Err(OracleError::AlreadyInitialized);
        }
        if !env.has_authorized(&admin) {
            return Err(OracleError::Unauthorized);
        }
        self.admin = Some(admin);
        self.oracles = Vec::new();
        assert(self@.oracles =~= Seq::empty());
        Ok(())
    }

    /// Whether a call that only the administrator may make goes ahead.
    fn check_admin(&self, env: &Env) -> (result: Result<(), OracleError>)
        ensures
            result == self@.admin_check(*env),
    {
        match &self.admin {
            None => Err(OracleError::NotInitialized),
            Some(admin) => if env.has_authorized(admin) {
                Ok(())
            } else {
                Err(OracleError::Unauthorized)
            },
        }
    }

    /// The first place at which `who` is listed, or the length of the list.
    fn find_oracle(&self, who: &Address) -> (place: usize)
        ensures
            place == first_where(self@.oracles, is_identity(who@)),
            place <= self@.oracles.len(),
            (place < self@.oracles.len()) == self@.admits(who@),
            place < self@.oracles.len() ==> self@.oracles[place as int] == who@,
    {
        let mut place: usize = 0;
        while place < self.oracles.len() && !(self.oracles[place] == *who)
            invariant
                place <= self.oracles@.len(),
                forall|j: int| 0 <= j < place ==> !is_identity(who@)(#[trigger] self@.oracles[j]),
            decreases self.oracles@.len() - place,
        {
            place += 1;
        }
        proof {
            lemma_first_where_is(self@.oracles, is_identity(who@), place as int);
            if place < self.oracles.len() {
                assert(self@.oracles[place as int] == who@);
            }
        }
        place
    }

    /// Admits `oracle`. Admitting an admitted oracle changes nothing.
    ///
    /// Fails with `NotInitialized`, else is turned away unless the
    /// administrator authorized the call.
    pub fn add_oracle(&mut self, env: &Env, oracle: Address) -> (result: Result<(), OracleError>)
        requires
            old(self).wf(),
        ensures
            final(self).wf(),
            result == old(self)@.admin_check(*env),
            result.is_err() ==> final(self)@ == old(self)@,
            result.is_ok() ==> final(self)@ == (OracleState {
                oracles: if old(self)@.admits(oracle@) {
                    old(self)@.oracles
                } else {
                    old(self)@.oracles.push(oracle@)
                },
                ..old(self)@
            }),
            result.is_ok() ==> final(self)@.admits(oracle@),
    {
        match self.check_admin(env) {
            Err(e) => {
                return Err(e);
            },
            Ok(_) => {},
        }
        let place = self.find_oracle(&oracle);
        if place == self.oracles.len() {
            let ghost who = oracle@;
            self.oracles.push(oracle);
            assert(self@.oracles =~= old(self)@.oracles.push(who));
            assert(self@.oracles[place as int] == who);
        }
        Ok(())
    }

    /// Dismisses `oracle`. Dismissing one that is not admitted changes
    /// nothing.
    ///
    /// Fails with `NotInitialized`, else is turned away unless the
    /// administrator authorized the call.
    pub fn remove_oracle(&mut self, env: &Env, oracle: &Address) -> (result: Result<
        (),
        OracleError,
    >)
        requires
            old(self).wf(),
        ensures
            final(self).wf(),
            result == old(self)@.admin_check(*env),
            result.is_err() ==> final(self)@ == old(self)@,
            result.is_ok() ==> final(self)@ == (OracleState {
                oracles: if old(self)@.admits(oracle@) {
                    old(self)@.oracles.remove(first_where(old(self)@.oracles, is_identity(oracle@)))
                } else {
                    old(self)@.oracles
                },
                ..old(self)@
            }),
            result.is_ok() ==> !final(self)@.admits(oracle@),
    {
        match self.check_admin(env) {
            Err(e) => {
                return Err(e);
            },
            Ok(_) => {},
        }
        let place = self.find_oracle(oracle);
        if place < self.oracles.len() {
            let ghost before = self@.oracles;
            self.oracles.remove(place);
            assert(self@.oracles =~= before.remove(place as int));
            assert forall|i: int, j: int|
                0 <= i < self@.oracles.len() && 0 <= j < self@.oracles.len() && i
                    != j implies self@.oracles[i] != self@.oracles[j] by {
                let a = if i < place {
                    i
                } else {
                    i + 1
                };
                let b = if j < place {
                    j
                } else {
                    j + 1
                };
                assert(self@.oracles[i] == before[a] && self@.oracles[j] == before[b]);
            }
            assert forall|i: int| 0 <= i < self@.oracles.len() implies self@.oracles[i]
                != oracle@ by {
                let a = if i < place {
                    i
                } else {
                    i + 1
                };
                assert(self@.oracles[i] == before[a]);
                assert(before[place as int] == oracle@);
            }
        }
        Ok(())
    }

    /// The first place at which a price for the pair is kept, or the number
    /// of prices.
    fn find_quote(&self, base_token: &Vec<u8>, quote_token: &Vec<u8>) -> (place: usize)
        ensures
            place == first_where(
                self@.quotes,
                is_for(TokenPairView { base: base_token@, quote: quote_token@ }),
            ),
            place <= self@.quotes.len(),
    {
        let ghost pair = TokenPairView { base: base_token@, quote: quote_token@ };
        let mut place: usize = 0;
        while place < self.quotes.len() && !(bytes_eq(&self.quotes[place].pair.base, base_token)
            && bytes_eq(&self.quotes[place].pair.quote, quote_token))
            invariant
                place <= self.quotes@.len(),
                pair == (TokenPairView { base: base_token@, quote: quote_token@ }),
                forall|j: int| 0 <= j < place ==> !is_for(pair)(#[trigger] self@.quotes[j]),
            decreases self.quotes@.len() - place,
        {
            place += 1;
        }
        proof {
            lemma_first_where_is(self@.quotes, is_for(pair), place as int);
        }
        place
    }

    /// Writes the price of `base_token` in `quote_token`, with the ledger's
    /// time, in place of the price that the pair had.
    ///
    /// Is turned away unless `oracle` authorized the call, and fails with
    /// `UnauthorizedOracle` unless `oracle` is admitted.
    pub fn update_price(
        &mut self,
        env: &Env,
        oracle: &Address,
        base_token: Vec<u8>,
        quote_token: Vec<u8>,
        price: i128,
        decimals: u32,
        source: Vec<u8>,
    ) -> (result: Result<(), OracleError>)
        requires
            old(self).wf(),
        ensures
            final(self).wf(),
            !env.authorizes(oracle@) ==> result == Err::<(), OracleError>(
                OracleError::Unauthorized,
            ),
            env.authorizes(oracle@) && !old(self)@.admits(oracle@) ==> result == Err::<
                (),
                OracleError,
            >(OracleError::UnauthorizedOracle),
            env.authorizes(oracle@) && old(self)@.admits(oracle@) ==> result.is_ok(),
            result.is_err() ==> final(self)@ == old(self)@,
            result.is_ok() ==> {
                let pair = TokenPairView { base: base_token@, quote: quote_token@ };
                let data = PriceDataView {
                    price,
                    decimals,
                    timestamp: env.timestamp,
                    source: source@,
                };
                &&& final(self)@ == (OracleState {
                    quotes: old(self)@.with_quote(QuoteView { pair, data }),
                    ..old(self)@
                })
                &&& final(self)@.price(pair) == Some(data)
            },
    {
        if !env.has_authorized(oracle) {
            return Err(OracleError::Unauthorized);
        }
        if self.find_oracle(oracle) == self.oracles.len() {
            return Err(OracleError::UnauthorizedOracle);
        }
        let place = self.find_quote(&base_token, &quote_token);
        let quote = Quote {
            pair: TokenPair { base: base_token, quote: quote_token },
            data: PriceData { price, decimals, timestamp: env.timestamp, source },
        };
        let ghost written = quote@;
        proof {
            lemma_first_where(self@.quotes, is_for(written.pair));
        }
        if place < self.quotes.len() {
            self.quotes[place] = quote;
            assert(self@.quotes =~= old(self)@.quotes.update(place as int, written));
        } else {
            self.quotes.push(quote);
            assert(self@.quotes =~= old(self)@.quotes.push(written));
        }
        proof {
            assert forall|j: int| 0 <= j < place implies !is_for(written.pair)(
                #[trigger] self@.quotes[j],
            ) by {
                assert(self@.quotes[j] == old(self)@.quotes[j]);
            }
            assert(self@.quotes[place as int] == written);
            lemma_first_where_is(self@.quotes, is_for(written.pair), place as int);
        }
        Ok(())
    }

    /// A copy of the latest price of `base_token` in `quote_token`, if there
    /// is one.
    pub fn get_price(&self, base_token: &Vec<u8>, quote_token: &Vec<u8>) -> (found: Option<
        PriceData,
    >)
        ensures
            found.is_some() == self@.price(
                TokenPairView { base: base_token@, quote: quote_token@ },
            ).is_some(),
            found matches Some(data) ==> Some(data@) == self@.price(
                TokenPairView { base: base_token@, quote: quote_token@ },
            ),
    {
        let place = self.find_quote(base_token, quote_token);
        if place < self.quotes.len() {
            Some(self.quotes[place].data.clone())
        } else {
            None
        }
    }

    /// The latest price of the pair, unless it is older than `max_staleness`
    /// seconds at the ledger's time.
    ///
    /// The ledger's time is not before the time at which the price was
    /// written.
    pub fn get_price_with_staleness_check(
        &self,
        env: &Env,
        base_token: &Vec<u8>,
        quote_token: &Vec<u8>,
        max_staleness: u64,
    ) -> (found: Option<PriceData>)
        requires
            self@.price(TokenPairView { base: base_token@, quote: quote_token@ }) matches Some(
                data,
            ) ==> data.timestamp <= env.timestamp,
        ensures
            match self@.price(TokenPairView { base: base_token@, quote: quote_token@ }) {
                None => found.is_none(),
                Some(data) => if env.timestamp - data.timestamp > max_staleness {
                    found.is_none()
                } else {
                    found.is_some() && found.unwrap()@ == data
                },
            },
    {
        match self.get_price(base_token, quote_token) {
            None => None,
            Some(data) => {
                if env.timestamp - data.timestamp > max_staleness {
                    None
                } else {
                    Some(data)
                }
            },
        }
    }

    /// Whether `oracle` is admitted.
    pub fn is_oracle_authorized(&self, oracle: &Address) -> (admitted: bool)
        ensures
            admitted == self@.admits(oracle@),
    {
        self.find_oracle(oracle) < self.oracles.len()
    }

    /// The admitted oracles in the order in which they were admitted, each
    /// with the mark `true`.
    pub fn get_oracles(&self) -> (listed: Vec<(Address, bool)>)
        ensures
            listed@.len() == self@.oracles.len(),
            forall|i: int|
                0 <= i < listed@.len() ==> (#[trigger] listed@[i]).0@ == self@.oracles[i]
                    && listed@[i].1,
    {
        let mut listed: Vec<(Address, bool)> = Vec::new();
        let mut i: usize = 0;
        while i < self.oracles.len()
            invariant
                i <= self.oracles@.len(),
                listed@.len() == i,
                forall|j: int|
                    0 <= j < i ==> (#[trigger] listed@[j]).0@ == self@.oracles[j] && listed@[j].1,
            decreases self.oracles@.len() - i,
        {
            listed.push((self.oracles[i].clone(), true));
            i += 1;
        }
        listed
    }
}

} // verus!
