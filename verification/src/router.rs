//! The router: a registry of exchanges, the choice of the exchange that a
//! swap goes through, and the payments that the swap consists of.

use crate::amounts::{checked_mul_div, mul_div};
use crate::bytes::{
    bytes_eq,
    bytes_less,
    clone_bytes,
    lemma_lex_irreflexive,
    lemma_lex_transitive,
    lex_less,
};
use crate::env::{Address, Env};
use crate::search::{first_where, lemma_first_where, lemma_first_where_is};
use vstd::prelude::*;

verus! {

/// The slippage that a route allows for, in basis points.
pub const SLIPPAGE_TOLERANCE: u32 = 300;

/// Of a hundred parts put in, an exchange pays this many.
pub const QUOTE_PARTS: i128 = 90;

/// One swap on one exchange.
#[derive(Debug, PartialEq, Eq)]
pub struct RouteStep {
    pub dex: Address,
    pub token_in: Address,
    pub token_out: Address,
    pub fee_rate: u32,
}

/// What a [`RouteStep`] holds, as mathematical values.
pub struct RouteStepView {
    pub dex: Seq<u8>,
    pub token_in: Seq<u8>,
    pub token_out: Seq<u8>,
    pub fee_rate: u32,
}

impl View for RouteStep {
    type V = RouteStepView;

    open spec fn view(&self) -> RouteStepView {
        RouteStepView {
            dex: self.dex@,
            token_in: self.token_in@,
            token_out: self.token_out@,
            fee_rate: self.fee_rate,
        }
    }
}

/// The swaps that a trade goes through, and what it is expected to pay.
#[derive(Debug, PartialEq, Eq)]
pub struct SwapRoute {
    pub steps: Vec<RouteStep>,
    pub expected_output: i128,
    pub minimum_output: i128,
    /// In basis points.
    pub slippage_tolerance: u32,
}

/// What a [`SwapRoute`] holds, as mathematical values.
pub struct SwapRouteView {
    pub steps: Seq<RouteStepView>,
    pub expected_output: i128,
    pub minimum_output: i128,
    pub slippage_tolerance: u32,
}

impl View for SwapRoute {
    type V = SwapRouteView;

    open spec fn view(&self) -> SwapRouteView {
        SwapRouteView {
            steps: self.steps@.map_values(|s: RouteStep| s@),
            expected_output: self.expected_output,
            minimum_output: self.minimum_output,
            slippage_tolerance: self.slippage_tolerance,
        }
    }
}

/// An exchange as the router knows it.
#[derive(Debug, PartialEq, Eq)]
pub struct DexInfo {
    pub dex_address: Address,
    /// The kind of exchange, by name.
    pub dex_type: Vec<u8>,
    pub active: bool,
    pub fee_rate: u32,
}

/// What a [`DexInfo`] holds, as mathematical values.
pub struct DexInfoView {
    pub dex_address: Seq<u8>,
    pub dex_type: Seq<u8>,
    pub active: bool,
    pub fee_rate: u32,
}

impl View for DexInfo {
    type V = DexInfoView;

    open spec fn view(&self) -> DexInfoView {
        DexInfoView {
            dex_address: self.dex_address@,
            dex_type: self.dex_type@,
            active: self.active,
            fee_rate: self.fee_rate,
        }
    }
}

impl Clone for DexInfo {
    fn clone(&self) -> (copy: DexInfo)
        ensures
            copy@ == self@,
    {
        DexInfo {
            dex_address: self.dex_address.clone(),
            dex_type: clone_bytes(&self.dex_type),
            active: self.active,
            fee_rate: self.fee_rate,
        }
    }
}

/// A payment that a swap consists of: so much of a token from one identity
/// to another.
#[derive(Debug, PartialEq, Eq)]
pub struct Payment {
    pub token: Address,
    pub from: Address,
    pub to: Address,
    pub amount: i128,
}

/// What a [`Payment`] holds, as mathematical values.
pub struct PaymentView {
    pub token: Seq<u8>,
    pub from: Seq<u8>,
    pub to: Seq<u8>,
    pub amount: i128,
}

impl View for Payment {
    type V = PaymentView;

    open spec fn view(&self) -> PaymentView {
        PaymentView { token: self.token@, from: self.from@, to: self.to@, amount: self.amount }
    }
}

/// Why a call was turned away.
#[derive(Clone, Copy, Debug, PartialEq, Eq, Structural)]
pub enum RouterError {
    /// The router was initialized before.
    AlreadyInitialized,
    /// The router was not initialized yet.
    NotInitialized,
    /// The identity that had to authorize the call did not.
    Unauthorized,
    /// The ledger's time is past the deadline of the trade.
    DeadlineExceeded,
    /// The best route is expected to pay less than the least accepted.
    InsufficientOutput,
    /// There is no exchange to go through.
    NoRoute,
    /// The trade paid less than the least accepted.
    SlippageExceeded,
    /// A token amount that would have to be moved is negative.
    NegativeAmount,
    /// A number cannot be written down.
    Arithmetic,
}

/// An exchange under the name by which it was registered.
pub struct DexEntryView {
    pub id: Seq<u8>,
    pub info: DexInfoView,
}

/// The condition of being registered under `id`.
pub open spec fn is_named(id: Seq<u8>) -> spec_fn(DexEntryView) -> bool {
    |e: DexEntryView| e.id == id
}

/// What an exchange pays for `amount_in`: ninety parts of a hundred, rounded
/// toward zero.
pub open spec fn dex_quote(amount_in: i128) -> Option<i128> {
    mul_div(amount_in, QUOTE_PARTS, 100)
}

/// Among the first `n` exchanges, the place of the active one whose name
/// comes first in the order of bytes; of two with the same name, the one
/// that stands first.
pub open spec fn first_choice(dexes: Seq<DexEntryView>, n: int) -> Option<int>
    decreases n,
{
    if n <= 0 {
        None
    } else {
        let earlier = first_choice(dexes, n - 1);
        if !dexes[n - 1].info.active {
            earlier
        } else {
            match earlier {
                None => Some(n - 1),
                Some(best) => if lex_less(dexes[n - 1].id, dexes[best].id) {
                    Some(n - 1)
                } else {
                    Some(best)
                },
            }
        }
    }
}

/// The route without steps, which pays nothing.
pub open spec fn no_route() -> SwapRouteView {
    SwapRouteView {
        steps: Seq::empty(),
        expected_output: 0,
        minimum_output: 0,
        slippage_tolerance: SLIPPAGE_TOLERANCE,
    }
}

/// The best route for a trade over the given exchanges: one step through the
/// active exchange of first choice, if there is one and its quote is
/// positive, else the route without steps. The least that the route is to pay
/// is the quote less the slippage that is allowed for.
pub open spec fn best_route(
    dexes: Seq<DexEntryView>,
    token_in: Seq<u8>,
    token_out: Seq<u8>,
    amount_in: i128,
) -> Result<SwapRouteView, RouterError> {
    match first_choice(dexes, dexes.len() as int) {
        None => Ok(no_route()),
        Some(best) => match dex_quote(amount_in) {
            None => Err(RouterError::Arithmetic),
            Some(quote) => if quote <= 0 {
                Ok(no_route())
            } else {
                match mul_div(quote, (10000 - SLIPPAGE_TOLERANCE) as i128, 10000) {
                    None => Err(RouterError::Arithmetic),
                    Some(minimum_output) => Ok(
                        SwapRouteView {
                            steps: seq![
                                RouteStepView {
                                    dex: dexes[best].info.dex_address,
                                    token_in,
                                    token_out,
                                    fee_rate: dexes[best].info.fee_rate,
                                },
                            ],
                            expected_output: quote,
                            minimum_output,
                            slippage_tolerance: SLIPPAGE_TOLERANCE,
                        },
                    ),
                }
            },
        },
    }
}

/// What going through the first `n` steps of a route pays and which payments
/// it consists of, for a trade that starts with `amount_in` of `token_in`.
/// Each step pays the user the exchange's quote for what the step before
/// paid, in the step's token.
pub open spec fn route_outcome(
    steps: Seq<RouteStepView>,
    n: int,
    user: Seq<u8>,
    token_in: Seq<u8>,
    amount_in: i128,
) -> Result<(i128, Seq<PaymentView>), RouterError>
    decreases n,
{
    if n <= 0 {
        Ok((amount_in, Seq::empty()))
    } else {
        match route_outcome(steps, n - 1, user, token_in, amount_in) {
            Err(e) => Err(e),
            Ok((amount, payments)) => {
                let step = steps[n - 1];
                let token = if n == 1 {
                    token_in
                } else {
                    steps[n - 2].token_out
                };
                match dex_quote(amount) {
                    None => Err(RouterError::Arithmetic),
                    Some(paid) => if amount < 0 || paid < 0 {
                        Err(RouterError::NegativeAmount)
                    } else {
                        Ok(
                            (
                                paid,
                                payments.push(
                                    PaymentView { token, from: user, to: step.dex, amount },
                                ).push(
                                    PaymentView {
                                        token: step.token_out,
                                        from: step.dex,
                                        to: user,
                                        amount: paid,
                                    },
                                ),
                            ),
                        )
                    },
                }
            },
        }
    }
}

/// What a trade returns and which payments it consists of.
///
/// The call is turned away unless the user authorized it, fails with
/// `DeadlineExceeded` past the deadline, as [`best_route`] does, with
/// `InsufficientOutput` if the route is expected to pay less than the least
/// accepted, with `NoRoute` if the route has no step, as [`route_outcome`]
/// does, and with `SlippageExceeded` if the route pays less than the least
/// accepted.
pub open spec fn trade_outcome(
    dexes: Seq<DexEntryView>,
    env: Env,
    user: Seq<u8>,
    amount_in: i128,
    amount_out_min: i128,
    token_in: Seq<u8>,
    token_out: Seq<u8>,
    deadline: u64,
) -> Result<(i128, Seq<PaymentView>), RouterError> {
    if !env.authorizes(user) {
        Err(RouterError::Unauthorized)
    } else if env.timestamp > deadline {
        Err(RouterError::DeadlineExceeded)
    } else {
        match best_route(dexes, token_in, token_out, amount_in) {
            Err(e) => Err(e),
            Ok(route) => if route.expected_output < amount_out_min {
                Err(RouterError::InsufficientOutput)
            } else if route.steps.len() == 0 {
                Err(RouterError::NoRoute)
            } else {
                match route_outcome(
                    route.steps,
                    route.steps.len() as int,
                    user,
                    route.steps[0].token_in,
                    amount_in,
                ) {
                    Err(e) => Err(e),
                    Ok((paid, payments)) => if paid < amount_out_min {
                        Err(RouterError::SlippageExceeded)
                    } else {
                        Ok((paid, payments))
                    },
                }
            },
        }
    }
}

/// The exchange of first choice is active, and no active exchange has a name
/// that comes before its name. Where there is none, no exchange is active.
pub proof fn law_first_choice(dexes: Seq<DexEntryView>, n: int)
    requires
        0 <= n <= dexes.len(),
    ensures
        match first_choice(dexes, n) {
            Some(best) => 0 <= best < n && dexes[best].info.active && forall|j: int|
                0 <= j < n && dexes[j].info.active ==> !lex_less(
                    (#[trigger] dexes[j]).id,
                    dexes[best].id,
                ),
            None => forall|j: int| 0 <= j < n ==> !(#[trigger] dexes[j]).info.active,
        },
    decreases n,
{
    if n > 0 {
        law_first_choice(dexes, n - 1);
        let earlier = first_choice(dexes, n - 1);
        if dexes[n - 1].info.active {
            match earlier {
                None => {
                    lemma_lex_irreflexive(dexes[n - 1].id);
                },
                Some(best) => {
                    if lex_less(dexes[n - 1].id, dexes[best].id) {
                        lemma_lex_irreflexive(dexes[n - 1].id);
                        assert forall|j: int|
                            0 <= j < n && dexes[j].info.active implies !lex_less(
                            (#[trigger] dexes[j]).id,
                            dexes[n - 1].id,
                        ) by {
                            if j < n - 1 && lex_less(dexes[j].id, dexes[n - 1].id) {
                                lemma_lex_transitive(
                                    dexes[j].id,
                                    dexes[n - 1].id,
                                    dexes[best].id,
                                );
                            }
                        }
                    }
                },
            }
        }
    }
}

/// What an exchange pays for `amount_in`.
pub fn get_dex_quote(amount_in: i128) -> (quote: Option<i128>)
    ensures
        quote == dex_quote(amount_in),
{
    checked_mul_div(amount_in, QUOTE_PARTS, 100)
}

/// One swap on one exchange: what it pays, and the two payments that it
/// consists of, added to `payments`.
///
/// Fails with `Arithmetic` if the quote cannot be written down and with
/// `NegativeAmount` if one of the two amounts is negative; `payments` is
/// then as it was.
pub fn execute_dex_swap(
    payments: &mut Vec<Payment>,
    user: &Address,
    dex_address: &Address,
    token_in: &Address,
    token_out: &Address,
    amount_in: i128,
) -> (result: Result<i128, RouterError>)
    ensures
        dex_quote(amount_in).is_none() ==> result == Err::<i128, RouterError>(
            RouterError::Arithmetic,
        ),
        dex_quote(amount_in) matches Some(paid) ==> {
            &&& (amount_in < 0 || paid < 0) ==> result == Err::<i128, RouterError>(
                RouterError::NegativeAmount,
            )
            &&& amount_in >= 0 && paid >= 0 ==> result == Ok::<i128, RouterError>(paid)
        },
        result.is_err() ==> final(payments)@ == old(payments)@,
        result matches Ok(paid) ==> final(payments)@.map_values(|p: Payment| p@) == old(
            payments,
        )@.map_values(|p: Payment| p@).push(
            PaymentView { token: token_in@, from: user@, to: dex_address@, amount: amount_in },
        ).push(PaymentView { token: token_out@, from: dex_address@, to: user@, amount: paid }),
{
    let paid = match get_dex_quote(amount_in) {
        Some(paid) => paid,
        None => {
            return Err(RouterError::Arithmetic);
        },
    };
    if amount_in < 0 || paid < 0 {
        return Err(RouterError::NegativeAmount);
    }
    payments.push(
        Payment {
            token: token_in.clone(),
            from: user.clone(),
            to: dex_address.clone(),
            amount: amount_in,
        },
    );
    payments.push(
        Payment {
            token: token_out.clone(),
            from: dex_address.clone(),
            to: user.clone(),
            amount: paid,
        },
    );
    assert(payments@.map_values(|p: Payment| p@) =~= old(payments)@.map_values(
        |p: Payment| p@,
    ).push(
        PaymentView { token: token_in@, from: user@, to: dex_address@, amount: amount_in },
    ).push(PaymentView { token: token_out@, from: dex_address@, to: user@, amount: paid }));
    Ok(paid)
}

/// Goes through the steps of a route that has at least one: what the route
/// pays, and the payments that it consists of.
pub fn execute_route(user: &Address, amount_in: i128, route: &SwapRoute) -> (result: Result<
    (i128, Vec<Payment>),
    RouterError,
>)
    requires
        route@.steps.len() > 0,
    ensures
        match route_outcome(
            route@.steps,
            route@.steps.len() as int,
            user@,
            route@.steps[0].token_in,
            amount_in,
        ) {
            Err(e) => result == Err::<(i128, Vec<Payment>), RouterError>(e),
            Ok((paid, payments)) => result.is_ok() && result.unwrap().0 == paid
                && result.unwrap().1@.map_values(|p: Payment| p@) == payments,
        },
{
    let mut payments: Vec<Payment> = Vec::new();
    let mut current_amount = amount_in;
    let ghost steps = route@.steps;
    let ghost first_token = steps[0].token_in;
    let mut i: usize = 0;
    assert(payments@.map_values(|p: Payment| p@) =~= Seq::<PaymentView>::empty());
    while i < route.steps.len()
        invariant
            i <= route.steps@.len(),
            steps == route@.steps,
            steps.len() > 0,
            first_token == steps[0].token_in,
            route_outcome(steps, i as int, user@, first_token, amount_in) == Ok::<
                (i128, Seq<PaymentView>),
                RouterError,
            >((current_amount, payments@.map_values(|p: Payment| p@))),
        decreases route.steps@.len() - i,
    {
        let step = &route.steps[i];
        assert(step@ == steps[i as int]);
        let outcome = if i == 0 {
            execute_dex_swap(
                &mut payments,
                user,
                &step.dex,
                &step.token_in,
                &step.token_out,
                current_amount,
            )
        } else {
            assert(route.steps[i - 1]@ == steps[i - 1]);
            execute_dex_swap(
                &mut payments,
                user,
                &step.dex,
                &route.steps[i - 1].token_out,
                &step.token_out,
                current_amount,
            )
        };
        match outcome {
            Err(e) => {
                proof {
                    lemma_route_failure_lasts(
                        steps,
                        i + 1,
                        steps.len() as int,
                        user@,
                        first_token,
                        amount_in,
                    );
                }
                return Err(e);
            },
            Ok(paid) => {
                current_amount = paid;
            },
        }
        i += 1;
    }
    Ok((current_amount, payments))
}

/// A route that fails at a step fails as a whole, in the same way.
proof fn lemma_route_failure_lasts(
    steps: Seq<RouteStepView>,
    n: int,
    m: int,
    user: Seq<u8>,
    token_in: Seq<u8>,
    amount_in: i128,
)
    requires
        0 <= n <= m,
        route_outcome(steps, n, user, token_in, amount_in).is_err(),
    ensures
        route_outcome(steps, m, user, token_in, amount_in) == route_outcome(
            steps,
            n,
            user,
            token_in,
            amount_in,
        ),
    decreases m - n,
{
    if n < m {
        lemma_route_failure_lasts(steps, n, m - 1, user, token_in, amount_in);
    }
}

/// An exchange with the name under which it was registered.
#[derive(Debug)]
struct DexEntry {
    id: Vec<u8>,
    info: DexInfo,
}

impl View for DexEntry {
    type V = DexEntryView;

    closed spec fn view(&self) -> DexEntryView {
        DexEntryView { id: self.id@, info: self.info@ }
    }
}

/// What the router holds.
pub struct RouterState {
    pub admin: Option<Seq<u8>>,
    pub price_oracle: Option<Seq<u8>>,
    /// The exchanges, in the order in which their names were first
    /// registered.
    pub dexes: Seq<DexEntryView>,
}

impl RouterState {
    /// The exchange registered under `id`, if there is one.
    pub open spec fn dex(self, id: Seq<u8>) -> Option<DexInfoView> {
        let place = first_where(self.dexes, is_named(id));
        if place < self.dexes.len() {
            Some(self.dexes[place].info)
        } else {
            None
        }
    }

    /// The exchanges with `entry` in place of the one under its name, or
    /// added at the end where the name was free.
    pub open spec fn with_dex(self, entry: DexEntryView) -> Seq<DexEntryView> {
        let place = first_where(self.dexes, is_named(entry.id));
        if place < self.dexes.len() {
            self.dexes.update(place, entry)
        } else {
            self.dexes.push(entry)
        }
    }

    /// Whether a call that only the administrator may make goes ahead.
    pub open spec fn admin_check(self, env: Env) -> Result<(), RouterError> {
        match self.admin {
            None => Err(RouterError::NotInitialized),
            Some(admin) => if env.authorizes(admin) {
                Ok(())
            } else {
                Err(RouterError::Unauthorized)
            },
        }
    }
}

/// The router contract.
#[derive(Debug)]
pub struct Router {
    admin: Option<Address>,
    price_oracle: Option<Address>,
    dexes: Vec<DexEntry>,
}

impl View for Router {
    type V = RouterState;

    closed spec fn view(&self) -> RouterState {
        RouterState {
            admin: match self.admin {
                Some(admin) => Some(admin@),
                None => None,
            },
            price_oracle: match self.price_oracle {
                Some(oracle) => Some(oracle@),
                None => None,
            },
            dexes: self.dexes@.map_values(|e: DexEntry| e@),
        }
    }
}

impl Router {
    /// A router that was not initialized yet.
    pub fn new() -> (contract: Router)
        ensures
            contract@ == (RouterState { admin: None, price_oracle: None, dexes: Seq::empty() }),
    {
        let contract = Router { admin: None, price_oracle: None, dexes: Vec::new() };
        assert(contract@.dexes =~= Seq::empty());
        contract
    }

    /// The router that holds the given administrator, price oracle and
    /// exchanges, each exchange with its name.
    pub fn restore(
        admin: Option<Address>,
        price_oracle: Option<Address>,
        dexes: Vec<(Vec<u8>, DexInfo)>,
    ) -> (contract: Router)
        ensures
            contract@.admin == match admin {
                Some(admin) => Some(admin@),
                None => None,
            },
            contract@.price_oracle == match price_oracle {
                Some(oracle) => Some(oracle@),
                None => None,
            },
            contract@.dexes.len() == dexes@.len(),
            forall|i: int|
                0 <= i < dexes@.len() ==> (#[trigger] contract@.dexes[i]).id == dexes@[i].0@
                    && contract@.dexes[i].info == dexes@[i].1@,
    {
        let mut entries: Vec<DexEntry> = Vec::new();
        let mut i: usize = 0;
        while i < dexes.len()
            invariant
                i <= dexes@.len(),
                entries@.len() == i,
                forall|j: int|
                    0 <= j < i ==> (#[trigger] entries@[j])@.id == dexes@[j].0@ && entries@[j]@.info
                        == dexes@[j].1@,
            decreases dexes@.len() - i,
        {
            entries.push(DexEntry { id: clone_bytes(&dexes[i].0), info: dexes[i].1.clone() });
            i += 1;
        }
        Router { admin, price_oracle, dexes: entries }
    }

    /// The price oracle that the router was given, if it was initialized.
    pub fn get_price_oracle(&self) -> (oracle: Option<Address>)
        ensures
            oracle.is_some() == self@.price_oracle.is_some(),
            oracle matches Some(o) ==> Some(o@) == self@.price_oracle,
    {
        match &self.price_oracle {
            Some(oracle) => Some(oracle.clone()),
            None => None,
        }
    }

    /// Makes `admin` the administrator of a router without exchanges, and
    /// notes the price oracle.
    ///
    /// Fails with `AlreadyInitialized` on an initialized router, else is
    /// turned away unless `admin` authorized the call.
    pub fn initialize(&mut self, env: &Env, admin: Address, price_oracle: Address) -> (result:
        Result<(), RouterError>)
        ensures
            old(self)@.admin.is_some() ==> result == Err::<(), RouterError>(
                RouterError::AlreadyInitialized,
            ),
            old(self)@.admin.is_none() && !env.authorizes(admin@) ==> result == Err::<
                (),
                RouterError,
            >(RouterError::Unauthorized),
            old(self)@.admin.is_none() && env.authorizes(admin@) ==> result.is_ok(),
            result.is_err() ==> final(self)@ == old(self)@,
            result.is_ok() ==> final(self)@ == (RouterState {
                admin: Some(admin@),
                price_oracle: Some(price_oracle@),
                dexes: Seq::empty(),
            }),
    {
        if self.admin.is_some() {
            return Err(RouterError::AlreadyInitialized);
        }
        if !env.has_authorized(&admin) {
            return Err(RouterError::Unauthorized);
        }
        self.admin = Some(admin);
        self.price_oracle = Some(price_oracle);
        self.dexes = Vec::new();
        assert(self@.dexes =~= Seq::empty());
        Ok(())
    }

    /// Whether a call that only the administrator may make goes ahead.
    fn check_admin(&self, env: &Env) -> (result: Result<(), RouterError>)
        ensures
            result == self@.admin_check(*env),
    {
        match &self.admin {
            None => Err(RouterError::NotInitialized),
            Some(admin) => if env.has_authorized(admin) {
                Ok(())
            } else {
                Err(RouterError::Unauthorized)
            },
        }
    }

    /// The first place at which an exchange is registered under `id`, or the
    /// number of exchanges.
    fn find_dex(&self, id: &Vec<u8>) -> (place: usize)
        ensures
            place == first_where(self@.dexes, is_named(id@)),
            place <= self@.dexes.len(),
    {
        let mut place: usize = 0;
        while place < self.dexes.len() && !bytes_eq(&self.dexes[place].id, id)
            invariant
                place <= self.dexes@.len(),
                forall|j: int| 0 <= j < place ==> !is_named(id@)(#[trigger] self@.dexes[j]),
            decreases self.dexes@.len() - place,
        {
            place += 1;
        }
        proof {
            lemma_first_where_is(self@.dexes, is_named(id@), place as int);
        }
        place
    }

    /// Keeps `entry` in place of the exchange under its name, which stands at
    /// `place` if there is one.
    fn put_dex(&mut self, place: usize, entry: DexEntry)
        requires
            place == first_where(old(self)@.dexes, is_named(entry@.id)),
            place <= old(self)@.dexes.len(),
        ensures
            final(self)@ == (RouterState { dexes: old(self)@.with_dex(entry@), ..old(self)@ }),
    {
        let ghost kept = entry@;
        if place < self.dexes.len() {
            self.dexes[place] = entry;
            assert(self@.dexes =~= old(self)@.dexes.update(place as int, kept));
        } else {
            self.dexes.push(entry);
            assert(self@.dexes =~= old(self)@.dexes.push(kept));
        }
    }

    /// Registers an exchange under `dex_id`, active, in place of the one that
    /// had the name.
    ///
    /// Fails with `NotInitialized`, else is turned away unless the
    /// administrator authorized the call.
    pub fn register_dex(
        &mut self,
        env: &Env,
        dex_id: Vec<u8>,
        dex_address: Address,
        dex_type: Vec<u8>,
        fee_rate: u32,
    ) -> (result: Result<(), RouterError>)
        ensures
            result == old(self)@.admin_check(*env),
            result.is_err() ==> final(self)@ == old(self)@,
            result.is_ok() ==> {
                let info = DexInfoView {
                    dex_address: dex_address@,
                    dex_type: dex_type@,
                    active: true,
                    fee_rate,
                };
                &&& final(self)@ == (RouterState {
                    dexes: old(self)@.with_dex(DexEntryView { id: dex_id@, info }),
                    ..old(self)@
                })
                &&& final(self)@.dex(dex_id@) == Some(info)
            },
    {
        match self.check_admin(env) {
            Err(e) => {
                return Err(e);
            },
            Ok(_) => {},
        }
        let place = self.find_dex(&dex_id);
        let entry = DexEntry {
            id: dex_id,
            info: DexInfo { dex_address, dex_type, active: true, fee_rate },
        };
        let ghost kept = entry@;
        proof {
            lemma_first_where(self@.dexes, is_named(kept.id));
        }
        self.put_dex(place, entry);
        proof {
            assert forall|j: int| 0 <= j < place implies !is_named(kept.id)(
                #[trigger] self@.dexes[j],
            ) by {
                assert(self@.dexes[j] == old(self)@.dexes[j]);
            }
            assert(self@.dexes[place as int] == kept);
            lemma_first_where_is(self@.dexes, is_named(kept.id), place as int);
        }
        Ok(())
    }

    /// Among the exchanges, the place of the active one whose name comes
    /// first.
    fn choose_dex(&self) -> (choice: Option<usize>)
        ensures
            first_choice(self@.dexes, self@.dexes.len() as int) == match choice {
                Some(best) => Some(best as int),
                None => None,
            },
            choice matches Some(best) ==> best < self@.dexes.len(),
    {
        let mut choice: Option<usize> = None;
        let mut i: usize = 0;
        while i < self.dexes.len()
            invariant
                i <= self.dexes@.len(),
                first_choice(self@.dexes, i as int) == match choice {
                    Some(best) => Some(best as int),
                    None => None,
                },
                choice matches Some(best) ==> best < i,
            decreases self.dexes@.len() - i,
        {
            if self.dexes[i].info.active {
                match choice {
                    None => {
                        choice = Some(i);
                    },
                    Some(best) => {
                        if bytes_less(&self.dexes[i].id, &self.dexes[best].id) {
                            choice = Some(i);
                        }
                    },
                }
            }
            i += 1;
        }
        choice
    }

    /// The best route for a trade of `amount_in` of `token_in` for
    /// `token_out`: see [`best_route`].
    pub fn find_best_route(&self, token_in: &Address, token_out: &Address, amount_in: i128) -> (result:
        Result<SwapRoute, RouterError>)
        ensures
            match best_route(self@.dexes, token_in@, token_out@, amount_in) {
                Err(e) => result == Err::<SwapRoute, RouterError>(e),
                Ok(route) => result.is_ok() && result.unwrap()@ == route,
            },
    {
        let empty = SwapRoute {
            steps: Vec::new(),
            expected_output: 0,
            minimum_output: 0,
            slippage_tolerance: SLIPPAGE_TOLERANCE,
        };
        assert(empty@.steps =~= Seq::empty());
        let best = match self.choose_dex() {
            None => {
                return Ok(empty);
            },
            Some(best) => best,
        };
        let quote = match get_dex_quote(amount_in) {
            None => {
                return Err(RouterError::Arithmetic);
            },
            Some(quote) => quote,
        };
        if quote <= 0 {
            return Ok(empty);
        }
        let minimum_output = match checked_mul_div(
            quote,
            10000 - SLIPPAGE_TOLERANCE as i128,
            10000,
        ) {
            None => {
                return Err(RouterError::Arithmetic);
            },
            Some(minimum_output) => minimum_output,
        };
        let info = &self.dexes[best].info;
        let mut steps: Vec<RouteStep> = Vec::new();
        steps.push(
            RouteStep {
                dex: info.dex_address.clone(),
                token_in: token_in.clone(),
                token_out: token_out.clone(),
                fee_rate: info.fee_rate,
            },
        );
        let route = SwapRoute {
            steps,
            expected_output: quote,
            minimum_output,
            slippage_tolerance: SLIPPAGE_TOLERANCE,
        };
        assert(route@.steps =~= seq![
            RouteStepView {
                dex: self@.dexes[best as int].info.dex_address,
                token_in: token_in@,
                token_out: token_out@,
                fee_rate: self@.dexes[best as int].info.fee_rate,
            },
        ]);
        Ok(route)
    }

    /// Trades `amount_in` of `token_in` for `token_out` over the best route,
    /// and returns what the trade pays and the payments that it consists of.
    ///
    /// See [`trade_outcome`]. The router itself keeps nothing of a trade.
    pub fn swap_exact_tokens_for_tokens(
        &self,
        env: &Env,
        user: &Address,
        amount_in: i128,
        amount_out_min: i128,
        token_in: &Address,
        token_out: &Address,
        deadline: u64,
    ) -> (result: Result<(i128, Vec<Payment>), RouterError>)
        ensures
            match trade_outcome(
                self@.dexes,
                *env,
                user@,
                amount_in,
                amount_out_min,
                token_in@,
                token_out@,
                deadline,
            ) {
                Err(e) => result == Err::<(i128, Vec<Payment>), RouterError>(e),
                Ok((paid, payments)) => result.is_ok() && result.unwrap().0 == paid
                    && result.unwrap().1@.map_values(|p: Payment| p@) == payments,
            },
    {
        if !env.has_authorized(user) {
            return Err(RouterError::Unauthorized);
        }
        if env.timestamp > deadline {
            return Err(RouterError::DeadlineExceeded);
        }
        let route = match self.find_best_route(token_in, token_out, amount_in) {
            Err(e) => {
                return Err(e);
            },
            Ok(route) => route,
        };
        if route.expected_output < amount_out_min {
            return Err(RouterError::InsufficientOutput);
        }
        if route.steps.len() == 0 {
            return Err(RouterError::NoRoute);
        }
        let (paid, payments) = match execute_route(user, amount_in, &route) {
            Err(e) => {
                return Err(e);
            },
            Ok(outcome) => outcome,
        };
        if paid < amount_out_min {
            return Err(RouterError::SlippageExceeded);
        }
        Ok((paid, payments))
    }

    /// What the best route for the trade is expected to pay.
    pub fn get_amounts_out(&self, amount_in: i128, token_in: &Address, token_out: &Address) -> (result:
        Result<i128, RouterError>)
        ensures
            match best_route(self@.dexes, token_in@, token_out@, amount_in) {
                Err(e) => result == Err::<i128, RouterError>(e),
                Ok(route) => result == Ok::<i128, RouterError>(route.expected_output),
            },
    {
        match self.find_best_route(token_in, token_out, amount_in) {
            Err(e) => Err(e),
            Ok(route) => Ok(route.expected_output),
        }
    }

    /// The registered exchanges with their names, in the order in which the
    /// names were first registered.
    pub fn get_dexes(&self) -> (listed: Vec<(Vec<u8>, DexInfo)>)
        ensures
            listed@.len() == self@.dexes.len(),
            forall|i: int|
                0 <= i < listed@.len() ==> (#[trigger] listed@[i]).0@ == self@.dexes[i].id
                    && listed@[i].1@ == self@.dexes[i].info,
    {
        let mut listed: Vec<(Vec<u8>, DexInfo)> = Vec::new();
        let mut i: usize = 0;
        while i < self.dexes.len()
            invariant
                i <= self.dexes@.len(),
                listed@.len() == i,
                forall|j: int|
                    0 <= j < i ==> (#[trigger] listed@[j]).0@ == self@.dexes[j].id && listed@[j].1@
                        == self@.dexes[j].info,
            decreases self.dexes@.len() - i,
        {
            listed.push((clone_bytes(&self.dexes[i].id), self.dexes[i].info.clone()));
            i += 1;
        }
        listed
    }

    /// Switches the exchange under `dex_id` on or off. Where no exchange has
    /// the name, nothing changes and the call still succeeds.
    ///
    /// Fails with `NotInitialized`, else is turned away unless the
    /// administrator authorized the call.
    pub fn set_dex_status(&mut self, env: &Env, dex_id: &Vec<u8>, active: bool) -> (result: Result<
        (),
        RouterError,
    >)
        ensures
            result == old(self)@.admin_check(*env),
            result.is_err() ==> final(self)@ == old(self)@,
            result.is_ok() ==> final(self)@ == (RouterState {
                dexes: match old(self)@.dex(dex_id@) {
                    Some(info) => old(self)@.with_dex(
                        DexEntryView { id: dex_id@, info: DexInfoView { active, ..info } },
                    ),
                    None => old(self)@.dexes,
                },
                ..old(self)@
            }),
    {
        match self.check_admin(env) {
            Err(e) => {
                return Err(e);
            },
            Ok(_) => {},
        }
        let place = self.find_dex(dex_id);
        if place < self.dexes.len() {
            let mut info = self.dexes[place].info.clone();
            info.active = active;
            self.put_dex(place, DexEntry { id: clone_bytes(dex_id), info });
        }
        Ok(())
    }
}

} // verus!
