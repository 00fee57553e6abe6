//! The collateral / health-factor / liquidation engine.
//!
//! Per-user collateral and debt ledgers, the health-factor computation that
//! decides solvency, and the operations that mutate the ledgers under a
//! solvency post-condition. Addresses are modelled as `u64` identifiers and
//! amounts as `u128` at base precision.
//!
//! External calls (asset transfers, pegged-token mint and burn, oracle
//! reads) are performed by the caller; their outcomes enter the operations
//! as plain arguments, and every contract states what holds for each
//! outcome. Ledger mutations already applied when a later step fails are
//! not rolled back here: the enclosing execution environment's atomicity is
//! relied upon to undo them.

use crate::arith::{mul_div_sat, sat128};
use crate::oracle::{
    lemma_quote_usd_value_nonneg, quote_token_amount, quote_usd_value, token_amount_from_quote,
    usd_value_from_quote,
};
use crate::params::{
    ADDITIONAL_FEED_PRECISION, LIQUIDATION_BONUS, LIQUIDATION_PRECISION, LIQUIDATION_THRESHOLD,
    MIN_HEALTH_FACTOR, PRECISION,
};
use std::collections::HashMap;
use vstd::prelude::*;

verus! {

broadcast use vstd::std_specs::hash::group_hash_axioms;

/// Observable events, appended in the order they are emitted: a deposit or
/// redemption event is recorded directly after the ledger mutation it
/// reflects, even when a later step of the same operation fails.
#[derive(Clone, Copy, PartialEq, Eq, Structural, Debug)]
pub enum DSCEvent {
    CollateralDeposited { user: u64, token: u64, amount: u128 },
    CollateralRedeemed { redeemed_from: u64, redeemed_to: u64, amount: u128, token: u64 },
}

/// Every failure an engine operation can report.
#[derive(Clone, Copy, PartialEq, Eq, Structural, Debug)]
pub enum DSCEngineError {
    /// A zero amount was passed where a positive one is required.
    NeedsMoreThanZero,
    /// Construction was given token and feed lists of different lengths.
    TokenAddressesAndPriceFeedAddressesMustBeSameLength,
    /// The asset is not registered with a price feed.
    NotAllowedToken,
    /// The external asset transfer reported failure.
    TransferFailed,
    /// The acting user's health factor would end below the minimum; carries
    /// that health factor.
    BreaksHealthFactor(u128),
    /// The external pegged-token mint reported failure.
    MintFailed,
    /// Liquidation was attempted against a healthy position.
    HealthFactorOk,
    /// Liquidation did not strictly improve the target's health factor.
    HealthFactorNotImproved,
    /// A ledger update would underflow or leave the ledger domain.
    ArithmeticFailure,
}

/// A collateral position is keyed by (user, asset), packed into one `u128`.
pub open spec fn position_key(user: u64, token: u64) -> u128 {
    ((user as int) * 0x1_0000_0000_0000_0000 + (token as int)) as u128
}

pub proof fn lemma_position_key_injective(u1: u64, t1: u64, u2: u64, t2: u64)
    requires
        position_key(u1, t1) == position_key(u2, t2),
    ensures
        u1 == u2 && t1 == t2,
{
    assert((u1 as int) * 0x1_0000_0000_0000_0000 + (t1 as int) <= u128::MAX as int)
        by (nonlinear_arith)
        requires
            (u1 as int) <= 0xFFFF_FFFF_FFFF_FFFF,
            (t1 as int) <= 0xFFFF_FFFF_FFFF_FFFF,
    ;
    assert((u2 as int) * 0x1_0000_0000_0000_0000 + (t2 as int) <= u128::MAX as int)
        by (nonlinear_arith)
        requires
            (u2 as int) <= 0xFFFF_FFFF_FFFF_FFFF,
            (t2 as int) <= 0xFFFF_FFFF_FFFF_FFFF,
    ;
    assert(u1 == u2 && t1 == t2) by (nonlinear_arith)
        requires
            (u1 as int) * 0x1_0000_0000_0000_0000 + (t1 as int) == (u2 as int)
                * 0x1_0000_0000_0000_0000 + (t2 as int),
            (t1 as int) < 0x1_0000_0000_0000_0000,
            (t2 as int) < 0x1_0000_0000_0000_0000,
            0 <= t1 as int,
            0 <= t2 as int,
    ;
}

/// The engine's state: the asset registry fixed at construction, the two
/// ledgers, and the ordered event log.
pub struct DSCEngine {
    /// Registered collateral assets, in registration order.
    pub collateral_tokens: Vec<u64>,
    /// Asset to price-feed mapping; a feed of zero means "not allowed".
    pub price_feeds: HashMap<u64, u64>,
    /// Deposited amount per (user, asset) position key.
    pub collateral_deposited: HashMap<u128, u128>,
    /// Minted pegged-token debt per user.
    pub dsc_minted: HashMap<u64, u128>,
    /// Ordered log of emitted events.
    pub events: Vec<DSCEvent>,
}

impl DSCEngine {
    /// Deposited amount of `token` held by `user`; zero for absent positions.
    pub open spec fn collateral_of(self, user: u64, token: u64) -> u128 {
        if self.collateral_deposited@.contains_key(position_key(user, token)) {
            self.collateral_deposited@[position_key(user, token)]
        } else {
            0
        }
    }

    /// Minted debt of `user`; zero for absent positions.
    pub open spec fn debt_of(self, user: u64) -> u128 {
        if self.dsc_minted@.contains_key(user) {
            self.dsc_minted@[user]
        } else {
            0
        }
    }

    /// Registered price feed of `token`; zero when unregistered.
    pub open spec fn feed_of(self, token: u64) -> u64 {
        if self.price_feeds@.contains_key(token) {
            self.price_feeds@[token]
        } else {
            0
        }
    }

    /// An asset is allowed as collateral when it has a non-zero feed.
    pub open spec fn is_allowed(self, token: u64) -> bool {
        self.feed_of(token) != 0
    }

    /// The quote used for registry position `i`: the `i`-th entry of the
    /// price snapshot, a failed read where the snapshot is too short.
    pub open spec fn quote_at(prices: Seq<Option<i128>>, i: int) -> Option<i128> {
        if 0 <= i < prices.len() {
            prices[i]
        } else {
            None
        }
    }

    /// The quote the engine uses for `token`: the snapshot entry at the
    /// first registry position holding `token`.
    pub open spec fn token_quote_from(
        tokens: Seq<u64>,
        prices: Seq<Option<i128>>,
        token: u64,
        i: int,
    ) -> Option<i128>
        decreases tokens.len() - i,
    {
        if i < 0 || i >= tokens.len() {
            None
        } else if tokens[i] == token {
            Self::quote_at(prices, i)
        } else {
            Self::token_quote_from(tokens, prices, token, i + 1)
        }
    }

    pub open spec fn token_quote(self, prices: Seq<Option<i128>>, token: u64) -> Option<i128> {
        Self::token_quote_from(self.collateral_tokens@, prices, token, 0)
    }

    /// Value the engine attributes to `amount` of `token` under `quote`:
    /// zero for an asset without a feed, else the quote valuation.
    pub open spec fn asset_usd_value(
        self,
        token: u64,
        quote: Option<i128>,
        amount: u128,
    ) -> int {
        if self.is_allowed(token) {
            quote_usd_value(quote, amount)
        } else {
            0
        }
    }

    /// Asset amount of `token` worth `usd` under `quote`; zero for an asset
    /// without a feed.
    pub open spec fn asset_token_amount(
        self,
        token: u64,
        quote: Option<i128>,
        usd: u128,
    ) -> int {
        if self.is_allowed(token) {
            quote_token_amount(quote, usd)
        } else {
            0
        }
    }

    /// Summed value of `user`'s positions over the first `n` registry
    /// entries, under the price snapshot `prices`.
    pub open spec fn collateral_value_prefix(
        self,
        user: u64,
        prices: Seq<Option<i128>>,
        n: int,
    ) -> int
        decreases n,
    {
        if n <= 0 {
            0
        } else {
            self.collateral_value_prefix(user, prices, n - 1) + self.asset_usd_value(
                self.collateral_tokens@[n - 1],
                Self::quote_at(prices, n - 1),
                self.collateral_of(user, self.collateral_tokens@[n - 1]),
            )
        }
    }

    /// Total value of `user`'s collateral over the whole registry. A
    /// duplicated registry entry is counted at each of its positions, as
    /// the valuation walks the registry in order.
    pub open spec fn account_collateral_value(
        self,
        user: u64,
        prices: Seq<Option<i128>>,
    ) -> int {
        self.collateral_value_prefix(user, prices, self.collateral_tokens@.len() as int)
    }

    /// Health factor of a position with debt `debt` and collateral value
    /// `collateral_value`: the maximum representable value when there is no
    /// debt, else `collateral_value * threshold / threshold-precision *
    /// base-precision / debt`, with values beyond the ledger domain clamped
    /// to its maximum.
    pub open spec fn health_factor_model(debt: u128, collateral_value: int) -> u128 {
        if debt == 0 {
            u128::MAX
        } else {
            sat128(
                (sat128(collateral_value) as int) * (LIQUIDATION_THRESHOLD as int) / (
                LIQUIDATION_PRECISION as int) * (PRECISION as int) / (debt as int),
            )
        }
    }

    pub open spec fn health_factor_of(self, user: u64, prices: Seq<Option<i128>>) -> u128 {
        Self::health_factor_model(
            self.debt_of(user),
            self.account_collateral_value(user, prices),
        )
    }

    /// The registry read by this state equals the registry read by `other`.
    pub open spec fn same_registry(self, other: Self) -> bool {
        self.collateral_tokens@ == other.collateral_tokens@ && self.price_feeds@
            == other.price_feeds@
    }

    /// Both ledgers, the registry and the event log are unchanged.
    pub open spec fn same_state(self, other: Self) -> bool {
        &&& self.same_registry(other)
        &&& self.collateral_deposited@ == other.collateral_deposited@
        &&& self.dsc_minted@ == other.dsc_minted@
        &&& self.events@ == other.events@
    }
}

/// Collateral valuation only reads the registry and the collateral ledger,
/// so it is unchanged by operations that touch neither.
pub proof fn lemma_collateral_value_same(
    a: DSCEngine,
    b: DSCEngine,
    user: u64,
    prices: Seq<Option<i128>>,
    n: int,
)
    requires
        a.collateral_tokens@ == b.collateral_tokens@,
        a.price_feeds@ == b.price_feeds@,
        a.collateral_deposited@ == b.collateral_deposited@,
    ensures
        a.collateral_value_prefix(user, prices, n) == b.collateral_value_prefix(user, prices, n),
    decreases n,
{
    if n > 0 {
        lemma_collateral_value_same(a, b, user, prices, n - 1);
    }
}

/// Every summand of the collateral valuation is non-negative, and so is any
/// prefix sum.
pub proof fn lemma_collateral_value_prefix_nonneg(
    e: DSCEngine,
    user: u64,
    prices: Seq<Option<i128>>,
    n: int,
)
    ensures
        0 <= e.collateral_value_prefix(user, prices, n),
    decreases n,
{
    if n > 0 {
        lemma_collateral_value_prefix_nonneg(e, user, prices, n - 1);
        lemma_quote_usd_value_nonneg(
            DSCEngine::quote_at(prices, n - 1),
            e.collateral_of(user, e.collateral_tokens@[n - 1]),
        );
    }
}

impl DSCEngine {
    fn position_key_exec(user: u64, token: u64) -> (r: u128)
        ensures
            r == position_key(user, token),
    {
        proof {
            assert((user as int) * 0x1_0000_0000_0000_0000 + (token as int) <= u128::MAX as int)
                by (nonlinear_arith)
                requires
                    (user as int) <= 0xFFFF_FFFF_FFFF_FFFF,
                    (token as int) <= 0xFFFF_FFFF_FFFF_FFFF,
            ;
        }
        (user as u128) * 0x1_0000_0000_0000_0000 + (token as u128)
    }

    /// Builds an engine over the given asset list and its price feeds. The
    /// two lists pair up positionally; a later pair for the same asset
    /// overrides its feed. All parameters are fixed process-wide constants.
    pub fn constructor(token_addresses: Vec<u64>, price_feed_addresses: Vec<u64>) -> (r: Result<
        DSCEngine,
        DSCEngineError,
    >)
        ensures
            token_addresses@.len() != price_feed_addresses@.len() ==> r == Err::<
                DSCEngine,
                DSCEngineError,
            >(DSCEngineError::TokenAddressesAndPriceFeedAddressesMustBeSameLength),
            token_addresses@.len() == price_feed_addresses@.len() ==> (r matches Ok(e)
                && e.collateral_tokens@ == token_addresses@ && e.price_feeds@ == feeds_map(
                token_addresses@,
                price_feed_addresses@,
                token_addresses@.len() as int,
            ) && e.collateral_deposited@ == Map::<u128, u128>::empty() && e.dsc_minted@ == Map::<
                u64,
                u128,
            >::empty() && e.events@ == Seq::<DSCEvent>::empty()),
    {
        if token_addresses.len() != price_feed_addresses.len() {
            return Err(DSCEngineError::TokenAddressesAndPriceFeedAddressesMustBeSameLength);
        }
        let mut price_feeds: HashMap<u64, u64> = HashMap::new();
        let mut i: usize = 0;
        while i < token_addresses.len()
            invariant
                i <= token_addresses@.len(),
                token_addresses@.len() == price_feed_addresses@.len(),
                price_feeds@ == feeds_map(token_addresses@, price_feed_addresses@, i as int),
            decreases token_addresses@.len() - i,
        {
            price_feeds.insert(token_addresses[i], price_feed_addresses[i]);
            i += 1;
        }
        Ok(
            DSCEngine {
                collateral_tokens: token_addresses,
                price_feeds,
                collateral_deposited: HashMap::new(),
                dsc_minted: HashMap::new(),
                events: Vec::new(),
            },
        )
    }

    /// Deposited amount of `token` held by `user`.
    pub fn get_collateral_balance_of_user(&self, user: u64, token: u64) -> (r: u128)
        ensures
            r == self.collateral_of(user, token),
    {
        let key = Self::position_key_exec(user, token);
        match self.collateral_deposited.get(&key) {
            Some(v) => *v,
            None => 0,
        }
    }

    fn get_debt(&self, user: u64) -> (r: u128)
        ensures
            r == self.debt_of(user),
    {
        match self.dsc_minted.get(&user) {
            Some(v) => *v,
            None => 0,
        }
    }

    /// Registered price feed of `token`; zero when unregistered.
    pub fn get_collateral_token_price_feed(&self, token: u64) -> (r: u64)
        ensures
            r == self.feed_of(token),
    {
        match self.price_feeds.get(&token) {
            Some(f) => *f,
            None => 0,
        }
    }

    /// The registered collateral assets, in registration order.
    pub fn get_collateral_tokens(&self) -> (r: Vec<u64>)
        ensures
            r@ == self.collateral_tokens@,
    {
        let mut tokens: Vec<u64> = Vec::new();
        let mut i: usize = 0;
        while i < self.collateral_tokens.len()
            invariant
                i <= self.collateral_tokens@.len(),
                tokens@ == self.collateral_tokens@.subrange(0, i as int),
            decreases self.collateral_tokens@.len() - i,
        {
            tokens.push(self.collateral_tokens[i]);
            i += 1;
        }
        proof {
            assert(tokens@ =~= self.collateral_tokens@);
        }
        tokens
    }

    pub fn get_additional_feed_precision(&self) -> (r: u128)
        ensures
            r == ADDITIONAL_FEED_PRECISION,
    {
        ADDITIONAL_FEED_PRECISION
    }

    pub fn get_precision(&self) -> (r: u128)
        ensures
            r == PRECISION,
    {
        PRECISION
    }

    pub fn get_liquidation_bonus(&self) -> (r: u128)
        ensures
            r == LIQUIDATION_BONUS,
    {
        LIQUIDATION_BONUS
    }

    /// Value of `amount` of `token` under the oracle answer `quote`,
    /// clamped into the ledger domain. Zero when the asset has no feed or
    /// the quote is unusable: a failed oracle read degrades to a zero
    /// valuation rather than an error.
    pub fn get_usd_value(&self, token: u64, amount: u128, quote: Option<i128>) -> (r: u128)
        ensures
            r == sat128(self.asset_usd_value(token, quote, amount)),
    {
        if self.get_collateral_token_price_feed(token) == 0 {
            return 0;
        }
        usd_value_from_quote(quote, amount)
    }

    /// Amount of `token` worth `usd_amount_in_wei` under the oracle answer
    /// `quote`, clamped into the ledger domain; zero when the asset has no
    /// feed or the quote is unusable.
    pub fn get_token_amount_from_usd(
        &self,
        token: u64,
        usd_amount_in_wei: u128,
        quote: Option<i128>,
    ) -> (r: u128)
        ensures
            r == sat128(self.asset_token_amount(token, quote, usd_amount_in_wei)),
    {
        if self.get_collateral_token_price_feed(token) == 0 {
            return 0;
        }
        token_amount_from_quote(quote, usd_amount_in_wei)
    }

    /// Total value of `user`'s collateral under the price snapshot
    /// `prices`, whose entries pair up with the registry positions; a
    /// missing entry counts as a failed oracle read.
    pub fn get_account_collateral_value_in_usd(
        &self,
        user: u64,
        prices: &Vec<Option<i128>>,
    ) -> (r: u128)
        ensures
            r == sat128(self.account_collateral_value(user, prices@)),
    {
        let mut total: u128 = 0;
        let mut i: usize = 0;
        while i < self.collateral_tokens.len()
            invariant
                i <= self.collateral_tokens@.len(),
                total == sat128(self.collateral_value_prefix(user, prices@, i as int)),
            decreases self.collateral_tokens@.len() - i,
        {
            let token = self.collateral_tokens[i];
            let amount = self.get_collateral_balance_of_user(user, token);
            let quote: Option<i128> = if i < prices.len() {
                prices[i]
            } else {
                None
            };
            let value = self.get_usd_value(token, amount, quote);
            proof {
                lemma_collateral_value_prefix_nonneg(*self, user, prices@, i as int);
                lemma_quote_usd_value_nonneg(quote, amount);
            }
            total = crate::arith::sat_add(total, value);
            i += 1;
        }
        total
    }

    fn calculate_health_factor(total_dsc_minted: u128, collateral_value: u128) -> (r: u128)
        ensures
            r == Self::health_factor_model(total_dsc_minted, collateral_value as int),
    {
        if total_dsc_minted == 0 {
            return u128::MAX;
        }
        proof {
            crate::arith::lemma_mul_div_le(
                collateral_value,
                LIQUIDATION_THRESHOLD,
                LIQUIDATION_PRECISION,
            );
        }
        let collateral_adjusted_for_threshold = mul_div_sat(
            collateral_value,
            LIQUIDATION_THRESHOLD,
            LIQUIDATION_PRECISION,
        );
        mul_div_sat(collateral_adjusted_for_threshold, PRECISION, total_dsc_minted)
    }

    fn get_account_info(&self, user: u64, prices: &Vec<Option<i128>>) -> (r: (u128, u128))
        ensures
            r.0 == self.debt_of(user),
            r.1 == sat128(self.account_collateral_value(user, prices@)),
    {
        let total_dsc_minted = self.get_debt(user);
        let collateral_value_in_usd = self.get_account_collateral_value_in_usd(user, prices);
        (total_dsc_minted, collateral_value_in_usd)
    }

    /// Health factor of `user` under the price snapshot `prices`: a pure
    /// read, callable at any ledger state.
    pub fn get_health_factor(&self, user: u64, prices: &Vec<Option<i128>>) -> (r: u128)
        ensures
            r == self.health_factor_of(user, prices@),
    {
        let (total_dsc_minted, collateral_value_in_usd) = self.get_account_info(user, prices);
        proof {
            lemma_collateral_value_prefix_nonneg(
                *self,
                user,
                prices@,
                self.collateral_tokens@.len() as int,
            );
        }
        Self::calculate_health_factor(total_dsc_minted, collateral_value_in_usd)
    }
}

impl DSCEngine {
    /// The failure `deposit_collateral` reports; `None` for success.
    pub open spec fn deposit_error(
        self,
        sender: u64,
        token: u64,
        amount: u128,
        transfer_ok: bool,
    ) -> Option<DSCEngineError> {
        if amount == 0 {
            Some(DSCEngineError::NeedsMoreThanZero)
        } else if !self.is_allowed(token) {
            Some(DSCEngineError::NotAllowedToken)
        } else if (self.collateral_of(sender, token) as int) + (amount as int) > u128::MAX as int {
            Some(DSCEngineError::ArithmeticFailure)
        } else if !transfer_ok {
            Some(DSCEngineError::TransferFailed)
        } else {
            None
        }
    }

    /// A deposit mutates the ledger exactly when its inputs pass
    /// validation, whatever the transfer outcome afterwards.
    pub open spec fn deposit_applies(self, sender: u64, token: u64, amount: u128) -> bool {
        amount != 0 && self.is_allowed(token) && (self.collateral_of(sender, token) as int) + (
        amount as int) <= u128::MAX as int
    }

    /// The failure `mint_dsc` reports; `None` for success. The health
    /// factor is judged on the state after the debt increase.
    pub open spec fn mint_error(
        self,
        sender: u64,
        amount: u128,
        prices: Seq<Option<i128>>,
        mint_ok: bool,
    ) -> Option<DSCEngineError> {
        if amount == 0 {
            Some(DSCEngineError::NeedsMoreThanZero)
        } else if (self.debt_of(sender) as int) + (amount as int) > u128::MAX as int {
            Some(DSCEngineError::ArithmeticFailure)
        } else if !mint_ok {
            Some(DSCEngineError::MintFailed)
        } else {
            let hf = Self::health_factor_model(
                (self.debt_of(sender) + amount) as u128,
                self.account_collateral_value(sender, prices),
            );
            if hf < MIN_HEALTH_FACTOR {
                Some(DSCEngineError::BreaksHealthFactor(hf))
            } else {
                None
            }
        }
    }

    /// A mint mutates the debt ledger exactly when its inputs pass
    /// validation; a later mint failure or broken health factor is reported
    /// without rolling the increase back.
    pub open spec fn mint_applies(self, sender: u64, amount: u128) -> bool {
        amount != 0 && (self.debt_of(sender) as int) + (amount as int) <= u128::MAX as int
    }

    /// Deposits `amount_collateral` of the given asset for `sender`.
    /// `transfer_ok` is the outcome of the external asset transfer into
    /// custody, requested after the ledger increase and the event; a failed
    /// transfer is reported with the increase left in place.
    pub fn deposit_collateral(
        &mut self,
        sender: u64,
        token_collateral_address: u64,
        amount_collateral: u128,
        transfer_ok: bool,
    ) -> (r: Result<(), DSCEngineError>)
        ensures
            final(self).same_registry(*old(self)),
            final(self).dsc_minted@ == old(self).dsc_minted@,
            r == (match old(self).deposit_error(
                sender,
                token_collateral_address,
                amount_collateral,
                transfer_ok,
            ) {
                Some(e) => Err::<(), DSCEngineError>(e),
                None => Ok(()),
            }),
            !old(self).deposit_applies(sender, token_collateral_address, amount_collateral)
                ==> final(self).same_state(*old(self)),
            old(self).deposit_applies(sender, token_collateral_address, amount_collateral) ==> {
                &&& final(self).collateral_deposited@ == old(self).collateral_deposited@.insert(
                    position_key(sender, token_collateral_address),
                    (old(self).collateral_of(sender, token_collateral_address) + amount_collateral)
                        as u128,
                )
                &&& (final(self).collateral_of(sender, token_collateral_address) as int) == (old(self).collateral_of(sender, token_collateral_address) as int) + (amount_collateral
                    as int)
                &&& forall|u: u64, t: u64|
                    !(u == sender && t == token_collateral_address) ==> final(self).collateral_of(
                        u,
                        t,
                    ) == old(self).collateral_of(u, t)
                &&& final(self).events@ == old(self).events@.push(
                    DSCEvent::CollateralDeposited {
                        user: sender,
                        token: token_collateral_address,
                        amount: amount_collateral,
                    },
                )
            },
    {
        if amount_collateral == 0 {
            return Err(DSCEngineError::NeedsMoreThanZero);
        }
        if self.get_collateral_token_price_feed(token_collateral_address) == 0 {
            return Err(DSCEngineError::NotAllowedToken);
        }
        let current = self.get_collateral_balance_of_user(sender, token_collateral_address);
        if amount_collateral > u128::MAX - current {
            return Err(DSCEngineError::ArithmeticFailure);
        }
        let key = Self::position_key_exec(sender, token_collateral_address);
        self.collateral_deposited.insert(key, current + amount_collateral);
        self.events.push(
            DSCEvent::CollateralDeposited {
                user: sender,
                token: token_collateral_address,
                amount: amount_collateral,
            },
        );
        proof {
            assert forall|u: u64, t: u64|
                !(u == sender && t == token_collateral_address) implies self.collateral_of(u, t)
                == old(self).collateral_of(u, t) by {
                if position_key(u, t) == position_key(sender, token_collateral_address) {
                    lemma_position_key_injective(u, t, sender, token_collateral_address);
                }
            }
        }
        if transfer_ok {
            Ok(())
        } else {
            Err(DSCEngineError::TransferFailed)
        }
    }

    /// Mints `amount_dsc_to_mint` of debt for `sender`. `mint_ok` is the
    /// outcome of the external pegged-token mint, requested after the debt
    /// increase; the solvency check follows it, so on failure the debt
    /// ledger (and possibly the external token) already reflect the mint.
    pub fn mint_dsc(
        &mut self,
        sender: u64,
        amount_dsc_to_mint: u128,
        prices: &Vec<Option<i128>>,
        mint_ok: bool,
    ) -> (r: Result<(), DSCEngineError>)
        ensures
            final(self).same_registry(*old(self)),
            final(self).collateral_deposited@ == old(self).collateral_deposited@,
            final(self).events@ == old(self).events@,
            r == (match old(self).mint_error(sender, amount_dsc_to_mint, prices@, mint_ok) {
                Some(e) => Err::<(), DSCEngineError>(e),
                None => Ok(()),
            }),
            !old(self).mint_applies(sender, amount_dsc_to_mint) ==> final(self).same_state(
                *old(self),
            ),
            old(self).mint_applies(sender, amount_dsc_to_mint) ==> {
                &&& final(self).dsc_minted@ == old(self).dsc_minted@.insert(
                    sender,
                    (old(self).debt_of(sender) + amount_dsc_to_mint) as u128,
                )
                &&& (final(self).debt_of(sender) as int) == (old(self).debt_of(sender) as int) + (
                amount_dsc_to_mint as int)
                &&& forall|u: u64|
                    u != sender ==> final(self).debt_of(u) == old(self).debt_of(u)
            },
            r == Ok::<(), DSCEngineError>(()) ==> final(self).health_factor_of(sender, prices@)
                >= MIN_HEALTH_FACTOR,
    {
        if amount_dsc_to_mint == 0 {
            return Err(DSCEngineError::NeedsMoreThanZero);
        }
        let current = self.get_debt(sender);
        if amount_dsc_to_mint > u128::MAX - current {
            return Err(DSCEngineError::ArithmeticFailure);
        }
        self.dsc_minted.insert(sender, current + amount_dsc_to_mint);
        proof {
            lemma_collateral_value_same(
                *old(self),
                *self,
                sender,
                prices@,
                self.collateral_tokens@.len() as int,
            );
        }
        if !mint_ok {
            return Err(DSCEngineError::MintFailed);
        }
        let hf = self.get_health_factor(sender, prices);
        if hf < MIN_HEALTH_FACTOR {
            return Err(DSCEngineError::BreaksHealthFactor(hf));
        }
        Ok(())
    }

    /// Ledger half of a redemption: moves `amount_collateral` of `token`
    /// out of `from`'s position, records the redemption event, and reports
    /// the outcome of the external transfer to `to`. An insufficient
    /// position fails without mutating anything.
    fn redeem_collateral_internal(
        &mut self,
        token_collateral_address: u64,
        amount_collateral: u128,
        from: u64,
        to: u64,
        transfer_ok: bool,
    ) -> (r: Result<(), DSCEngineError>)
        ensures
            final(self).same_registry(*old(self)),
            final(self).dsc_minted@ == old(self).dsc_minted@,
            old(self).collateral_of(from, token_collateral_address) < amount_collateral ==> (r
                == Err::<(), DSCEngineError>(DSCEngineError::ArithmeticFailure) && final(self).same_state(*old(self))),
            old(self).collateral_of(from, token_collateral_address) >= amount_collateral ==> {
                &&& final(self).collateral_deposited@ == old(self).collateral_deposited@.insert(
                    position_key(from, token_collateral_address),
                    (old(self).collateral_of(from, token_collateral_address) - amount_collateral)
                        as u128,
                )
                &&& (final(self).collateral_of(from, token_collateral_address) as int) == (old(self).collateral_of(from, token_collateral_address) as int) - (amount_collateral
                    as int)
                &&& forall|u: u64, t: u64|
                    !(u == from && t == token_collateral_address) ==> final(self).collateral_of(
                        u,
                        t,
                    ) == old(self).collateral_of(u, t)
                &&& final(self).events@ == old(self).events@.push(
                    DSCEvent::CollateralRedeemed {
                        redeemed_from: from,
                        redeemed_to: to,
                        amount: amount_collateral,
                        token: token_collateral_address,
                    },
                )
                &&& r == (if transfer_ok {
                    Ok::<(), DSCEngineError>(())
                } else {
                    Err(DSCEngineError::TransferFailed)
                })
            },
    {
        let current = self.get_collateral_balance_of_user(from, token_collateral_address);
        if current < amount_collateral {
            return Err(DSCEngineError::ArithmeticFailure);
        }
        let key = Self::position_key_exec(from, token_collateral_address);
        self.collateral_deposited.insert(key, current - amount_collateral);
        self.events.push(
            DSCEvent::CollateralRedeemed {
                redeemed_from: from,
                redeemed_to: to,
                amount: amount_collateral,
                token: token_collateral_address,
            },
        );
        proof {
            assert forall|u: u64, t: u64|
                !(u == from && t == token_collateral_address) implies self.collateral_of(u, t)
                == old(self).collateral_of(u, t) by {
                if position_key(u, t) == position_key(from, token_collateral_address) {
                    lemma_position_key_injective(u, t, from, token_collateral_address);
                }
            }
        }
        if transfer_ok {
            Ok(())
        } else {
            Err(DSCEngineError::TransferFailed)
        }
    }

    /// Ledger half of a burn: reduces `on_behalf_of`'s debt. The external
    /// pull of the pegged token from the payer follows the decrease; a
    /// failed pull is a fatal invariant violation, not a recoverable error,
    /// so the mutating path demands `pull_ok` up front.
    fn burn_dsc_internal(&mut self, amount: u128, on_behalf_of: u64, pull_ok: bool) -> (r: Result<
        (),
        DSCEngineError,
    >)
        requires
            old(self).debt_of(on_behalf_of) >= amount ==> pull_ok,
        ensures
            final(self).same_registry(*old(self)),
            final(self).collateral_deposited@ == old(self).collateral_deposited@,
            final(self).events@ == old(self).events@,
            old(self).debt_of(on_behalf_of) < amount ==> (r == Err::<(), DSCEngineError>(
                DSCEngineError::ArithmeticFailure,
            ) && final(self).same_state(*old(self))),
            old(self).debt_of(on_behalf_of) >= amount ==> {
                &&& final(self).dsc_minted@ == old(self).dsc_minted@.insert(
                    on_behalf_of,
                    (old(self).debt_of(on_behalf_of) - amount) as u128,
                )
                &&& (final(self).debt_of(on_behalf_of) as int) == (old(self).debt_of(on_behalf_of)
                    as int) - (amount as int)
                &&& forall|u: u64|
                    u != on_behalf_of ==> final(self).debt_of(u) == old(self).debt_of(u)
                &&& r == Ok::<(), DSCEngineError>(())
            },
    {
        let current = self.get_debt(on_behalf_of);
        if current < amount {
            return Err(DSCEngineError::ArithmeticFailure);
        }
        self.dsc_minted.insert(on_behalf_of, current - amount);
        Ok(())
    }

    /// Redeems `amount_collateral` of the given asset back to `sender`,
    /// then re-checks the health factor: a redemption that would leave the
    /// position insolvent is reported after the collateral has already left
    /// custody. `transfer_ok` is the outcome of the external transfer.
    pub fn redeem_collateral(
        &mut self,
        sender: u64,
        token_collateral_address: u64,
        amount_collateral: u128,
        prices: &Vec<Option<i128>>,
        transfer_ok: bool,
    ) -> (r: Result<(), DSCEngineError>)
        ensures
            final(self).same_registry(*old(self)),
            final(self).dsc_minted@ == old(self).dsc_minted@,
            amount_collateral == 0 ==> (r == Err::<(), DSCEngineError>(
                DSCEngineError::NeedsMoreThanZero,
            ) && final(self).same_state(*old(self))),
            amount_collateral != 0 && old(self).collateral_of(sender, token_collateral_address)
                < amount_collateral ==> (r == Err::<(), DSCEngineError>(
                DSCEngineError::ArithmeticFailure,
            ) && final(self).same_state(*old(self))),
            amount_collateral != 0 && old(self).collateral_of(sender, token_collateral_address)
                >= amount_collateral ==> {
                &&& final(self).collateral_deposited@ == old(self).collateral_deposited@.insert(
                    position_key(sender, token_collateral_address),
                    (old(self).collateral_of(sender, token_collateral_address) - amount_collateral)
                        as u128,
                )
                &&& forall|u: u64, t: u64|
                    !(u == sender && t == token_collateral_address) ==> final(self).collateral_of(
                        u,
                        t,
                    ) == old(self).collateral_of(u, t)
                &&& final(self).events@ == old(self).events@.push(
                    DSCEvent::CollateralRedeemed {
                        redeemed_from: sender,
                        redeemed_to: sender,
                        amount: amount_collateral,
                        token: token_collateral_address,
                    },
                )
                &&& r == (if !transfer_ok {
                    Err::<(), DSCEngineError>(DSCEngineError::TransferFailed)
                } else if final(self).health_factor_of(sender, prices@) < MIN_HEALTH_FACTOR {
                    Err(
                        DSCEngineError::BreaksHealthFactor(
                            final(self).health_factor_of(sender, prices@),
                        ),
                    )
                } else {
                    Ok(())
                })
            },
            r == Ok::<(), DSCEngineError>(()) ==> final(self).health_factor_of(sender, prices@)
                >= MIN_HEALTH_FACTOR,
    {
        if amount_collateral == 0 {
            return Err(DSCEngineError::NeedsMoreThanZero);
        }
        match self.redeem_collateral_internal(
            token_collateral_address,
            amount_collateral,
            sender,
            sender,
            transfer_ok,
        ) {
            Err(e) => {
                return Err(e);
            },
            Ok(()) => {},
        }
        let hf = self.get_health_factor(sender, prices);
        if hf < MIN_HEALTH_FACTOR {
            return Err(DSCEngineError::BreaksHealthFactor(hf));
        }
        Ok(())
    }

    /// Burns `amount` of `sender`'s debt, funded by `sender`. The external
    /// pull of the pegged token follows the ledger decrease; a failed pull
    /// is a fatal invariant violation rather than a recoverable error, so
    /// the mutating path demands `pull_ok`.
    pub fn burn_dsc(&mut self, sender: u64, amount: u128, pull_ok: bool) -> (r: Result<
        (),
        DSCEngineError,
    >)
        requires
            (amount != 0 && old(self).debt_of(sender) >= amount) ==> pull_ok,
        ensures
            final(self).same_registry(*old(self)),
            final(self).collateral_deposited@ == old(self).collateral_deposited@,
            final(self).events@ == old(self).events@,
            amount == 0 ==> (r == Err::<(), DSCEngineError>(DSCEngineError::NeedsMoreThanZero)
                && final(self).same_state(*old(self))),
            amount != 0 && old(self).debt_of(sender) < amount ==> (r == Err::<(), DSCEngineError>(
                DSCEngineError::ArithmeticFailure,
            ) && final(self).same_state(*old(self))),
            amount != 0 && old(self).debt_of(sender) >= amount ==> {
                &&& final(self).dsc_minted@ == old(self).dsc_minted@.insert(
                    sender,
                    (old(self).debt_of(sender) - amount) as u128,
                )
                &&& forall|u: u64| u != sender ==> final(self).debt_of(u) == old(self).debt_of(u)
                &&& r == Ok::<(), DSCEngineError>(())
            },
    {
        if amount == 0 {
            return Err(DSCEngineError::NeedsMoreThanZero);
        }
        self.burn_dsc_internal(amount, sender, pull_ok)
    }
}

impl DSCEngine {
    /// Snapshot quote for `token`: the entry at its first registry
    /// position, a failed read when it is not registered.
    fn token_quote_exec(&self, prices: &Vec<Option<i128>>, token: u64) -> (r: Option<i128>)
        ensures
            r == self.token_quote(prices@, token),
    {
        let mut i: usize = 0;
        while i < self.collateral_tokens.len()
            invariant
                i <= self.collateral_tokens@.len(),
                Self::token_quote_from(self.collateral_tokens@, prices@, token, 0)
                    == Self::token_quote_from(self.collateral_tokens@, prices@, token, i as int),
            decreases self.collateral_tokens@.len() - i,
        {
            if self.collateral_tokens[i] == token {
                if i < prices.len() {
                    return prices[i];
                } else {
                    return None;
                }
            }
            i += 1;
        }
        None
    }

    /// Collateral seized by a liquidation covering `debt_to_cover`: the
    /// converted asset amount plus the liquidation bonus on it.
    pub open spec fn seize_amount(
        self,
        collateral: u64,
        debt_to_cover: u128,
        prices: Seq<Option<i128>>,
    ) -> int {
        let ta = sat128(
            self.asset_token_amount(
                collateral,
                self.token_quote(prices, collateral),
                debt_to_cover,
            ),
        ) as int;
        ta + ta * (LIQUIDATION_BONUS as int) / (LIQUIDATION_PRECISION as int)
    }

    /// Burns `amount_dsc_to_burn` of `sender`'s debt (funded by `sender`),
    /// then redeems `amount_collateral` of the given asset back to
    /// `sender`, then re-checks the health factor. The debt decrease is not
    /// rolled back when a later step fails. `pull_ok` and `transfer_ok` are
    /// the outcomes of the external pegged-token pull and asset transfer; a
    /// failed pull is a fatal invariant violation, so the path that reaches
    /// it demands `pull_ok`.
    pub fn redeem_collateral_for_dsc(
        &mut self,
        sender: u64,
        token_collateral_address: u64,
        amount_collateral: u128,
        amount_dsc_to_burn: u128,
        prices: &Vec<Option<i128>>,
        pull_ok: bool,
        transfer_ok: bool,
    ) -> (r: Result<(), DSCEngineError>)
        requires
            (amount_collateral != 0 && old(self).is_allowed(token_collateral_address) && old(self).debt_of(sender) >= amount_dsc_to_burn) ==> pull_ok,
        ensures
            final(self).same_registry(*old(self)),
            amount_collateral == 0 ==> (r == Err::<(), DSCEngineError>(
                DSCEngineError::NeedsMoreThanZero,
            ) && final(self).same_state(*old(self))),
            amount_collateral != 0 && !old(self).is_allowed(token_collateral_address) ==> (r
                == Err::<(), DSCEngineError>(DSCEngineError::NotAllowedToken) && final(self).same_state(*old(self))),
            amount_collateral != 0 && old(self).is_allowed(token_collateral_address) && old(self).debt_of(sender) < amount_dsc_to_burn ==> (r == Err::<(), DSCEngineError>(
                DSCEngineError::ArithmeticFailure,
            ) && final(self).same_state(*old(self))),
            amount_collateral != 0 && old(self).is_allowed(token_collateral_address) && old(self).debt_of(sender) >= amount_dsc_to_burn ==> {
                &&& final(self).dsc_minted@ == old(self).dsc_minted@.insert(
                    sender,
                    (old(self).debt_of(sender) - amount_dsc_to_burn) as u128,
                )
                &&& forall|u: u64| u != sender ==> final(self).debt_of(u) == old(self).debt_of(u)
                &&& old(self).collateral_of(sender, token_collateral_address) < amount_collateral
                    ==> (r == Err::<(), DSCEngineError>(DSCEngineError::ArithmeticFailure) && final(self).collateral_deposited@ == old(self).collateral_deposited@ && final(self).events@
                    == old(self).events@)
                &&& old(self).collateral_of(sender, token_collateral_address) >= amount_collateral
                    ==> {
                    &&& final(self).collateral_deposited@ == old(self).collateral_deposited@.insert(
                        position_key(sender, token_collateral_address),
                        (old(self).collateral_of(sender, token_collateral_address)
                            - amount_collateral) as u128,
                    )
                    &&& forall|u: u64, t: u64|
                        !(u == sender && t == token_collateral_address) ==> final(self).collateral_of(u, t) == old(self).collateral_of(u, t)
                    &&& final(self).events@ == old(self).events@.push(
                        DSCEvent::CollateralRedeemed {
                            redeemed_from: sender,
                            redeemed_to: sender,
                            amount: amount_collateral,
                            token: token_collateral_address,
                        },
                    )
                    &&& r == (if !transfer_ok {
                        Err::<(), DSCEngineError>(DSCEngineError::TransferFailed)
                    } else if final(self).health_factor_of(sender, prices@)
                        < MIN_HEALTH_FACTOR {
                        Err(
                            DSCEngineError::BreaksHealthFactor(
                                final(self).health_factor_of(sender, prices@),
                            ),
                        )
                    } else {
                        Ok(())
                    })
                }
            },
            r == Ok::<(), DSCEngineError>(()) ==> final(self).health_factor_of(sender, prices@)
                >= MIN_HEALTH_FACTOR,
    {
        if amount_collateral == 0 {
            return Err(DSCEngineError::NeedsMoreThanZero);
        }
        if self.get_collateral_token_price_feed(token_collateral_address) == 0 {
            return Err(DSCEngineError::NotAllowedToken);
        }
        match self.burn_dsc_internal(amount_dsc_to_burn, sender, pull_ok) {
            Err(e) => {
                return Err(e);
            },
            Ok(()) => {},
        }
        match self.redeem_collateral_internal(
            token_collateral_address,
            amount_collateral,
            sender,
            sender,
            transfer_ok,
        ) {
            Err(e) => {
                return Err(e);
            },
            Ok(()) => {},
        }
        let hf = self.get_health_factor(sender, prices);
        if hf < MIN_HEALTH_FACTOR {
            return Err(DSCEngineError::BreaksHealthFactor(hf));
        }
        Ok(())
    }

    /// Liquidates part of `user`'s position: permitted only against an
    /// unhealthy position, seizes the converted collateral plus the bonus
    /// for `sender`, burns `debt_to_cover` of `user`'s debt funded by
    /// `sender`, and fails unless the target's health factor strictly
    /// improved and the liquidator stayed solvent. Ledger effects of the
    /// earlier steps are not rolled back when a later check fails.
    pub fn liquidate(
        &mut self,
        sender: u64,
        collateral: u64,
        user: u64,
        debt_to_cover: u128,
        prices: &Vec<Option<i128>>,
        pull_ok: bool,
        transfer_ok: bool,
    ) -> (r: Result<(), DSCEngineError>)
        requires
            (debt_to_cover != 0 && old(self).health_factor_of(user, prices@) < MIN_HEALTH_FACTOR
                && old(self).seize_amount(collateral, debt_to_cover, prices@) <= u128::MAX as int
                && (old(self).collateral_of(user, collateral) as int) >= old(self).seize_amount(
                collateral,
                debt_to_cover,
                prices@,
            ) && transfer_ok && old(self).debt_of(user) >= debt_to_cover) ==> pull_ok,
        ensures
            final(self).same_registry(*old(self)),
            debt_to_cover == 0 ==> (r == Err::<(), DSCEngineError>(
                DSCEngineError::NeedsMoreThanZero,
            ) && final(self).same_state(*old(self))),
            debt_to_cover != 0 && old(self).health_factor_of(user, prices@) >= MIN_HEALTH_FACTOR
                ==> (r == Err::<(), DSCEngineError>(DSCEngineError::HealthFactorOk) && final(self).same_state(*old(self))),
            debt_to_cover != 0 && old(self).health_factor_of(user, prices@) < MIN_HEALTH_FACTOR
                && old(self).seize_amount(collateral, debt_to_cover, prices@) > u128::MAX as int
                ==> (r == Err::<(), DSCEngineError>(DSCEngineError::ArithmeticFailure) && final(self).same_state(*old(self))),
            debt_to_cover != 0 && old(self).health_factor_of(user, prices@) < MIN_HEALTH_FACTOR
                && old(self).seize_amount(collateral, debt_to_cover, prices@) <= u128::MAX as int
                && (old(self).collateral_of(user, collateral) as int) < old(self).seize_amount(
                collateral,
                debt_to_cover,
                prices@,
            ) ==> (r == Err::<(), DSCEngineError>(DSCEngineError::ArithmeticFailure) && final(self).same_state(*old(self))),
            debt_to_cover != 0 && old(self).health_factor_of(user, prices@) < MIN_HEALTH_FACTOR
                && old(self).seize_amount(collateral, debt_to_cover, prices@) <= u128::MAX as int
                && (old(self).collateral_of(user, collateral) as int) >= old(self).seize_amount(
                collateral,
                debt_to_cover,
                prices@,
            ) ==> {
                &&& final(self).collateral_deposited@ == old(self).collateral_deposited@.insert(
                    position_key(user, collateral),
                    ((old(self).collateral_of(user, collateral) as int) - old(self).seize_amount(
                        collateral,
                        debt_to_cover,
                        prices@,
                    )) as u128,
                )
                &&& forall|u: u64, t: u64|
                    !(u == user && t == collateral) ==> final(self).collateral_of(u, t) == old(self).collateral_of(u, t)
                &&& final(self).events@ == old(self).events@.push(
                    DSCEvent::CollateralRedeemed {
                        redeemed_from: user,
                        redeemed_to: sender,
                        amount: old(self).seize_amount(collateral, debt_to_cover, prices@) as u128,
                        token: collateral,
                    },
                )
                &&& !transfer_ok ==> (r == Err::<(), DSCEngineError>(
                    DSCEngineError::TransferFailed,
                ) && final(self).dsc_minted@ == old(self).dsc_minted@)
                &&& transfer_ok && old(self).debt_of(user) < debt_to_cover ==> (r == Err::<
                    (),
                    DSCEngineError,
                >(DSCEngineError::ArithmeticFailure) && final(self).dsc_minted@ == old(self).dsc_minted@)
                &&& transfer_ok && old(self).debt_of(user) >= debt_to_cover ==> {
                    &&& final(self).dsc_minted@ == old(self).dsc_minted@.insert(
                        user,
                        (old(self).debt_of(user) - debt_to_cover) as u128,
                    )
                    &&& forall|u: u64| u != user ==> final(self).debt_of(u) == old(self).debt_of(u)
                    &&& r == (if final(self).health_factor_of(user, prices@) <= old(self).health_factor_of(user, prices@) {
                        Err::<(), DSCEngineError>(DSCEngineError::HealthFactorNotImproved)
                    } else if final(self).health_factor_of(sender, prices@)
                        < MIN_HEALTH_FACTOR {
                        Err(
                            DSCEngineError::BreaksHealthFactor(
                                final(self).health_factor_of(sender, prices@),
                            ),
                        )
                    } else {
                        Ok(())
                    })
                }
            },
            r == Ok::<(), DSCEngineError>(()) ==> final(self).health_factor_of(user, prices@)
                > old(self).health_factor_of(user, prices@),
            r == Ok::<(), DSCEngineError>(()) ==> final(self).health_factor_of(sender, prices@)
                >= MIN_HEALTH_FACTOR,
    {
        if debt_to_cover == 0 {
            return Err(DSCEngineError::NeedsMoreThanZero);
        }
        let starting_user_health_factor = self.get_health_factor(user, prices);
        if starting_user_health_factor >= MIN_HEALTH_FACTOR {
            return Err(DSCEngineError::HealthFactorOk);
        }
        let quote = self.token_quote_exec(prices, collateral);
        let token_amount_from_debt_covered = self.get_token_amount_from_usd(
            collateral,
            debt_to_cover,
            quote,
        );
        proof {
            crate::arith::lemma_mul_div_le(
                token_amount_from_debt_covered,
                LIQUIDATION_BONUS,
                LIQUIDATION_PRECISION,
            );
        }
        let bonus_collateral = mul_div_sat(
            token_amount_from_debt_covered,
            LIQUIDATION_BONUS,
            LIQUIDATION_PRECISION,
        );
        if bonus_collateral > u128::MAX - token_amount_from_debt_covered {
            return Err(DSCEngineError::ArithmeticFailure);
        }
        let total_collateral_to_redeem = token_amount_from_debt_covered + bonus_collateral;
        match self.redeem_collateral_internal(
            collateral,
            total_collateral_to_redeem,
            user,
            sender,
            transfer_ok,
        ) {
            Err(e) => {
                return Err(e);
            },
            Ok(()) => {},
        }
        match self.burn_dsc_internal(debt_to_cover, user, pull_ok) {
            Err(e) => {
                return Err(e);
            },
            Ok(()) => {},
        }
        let ending_user_health_factor = self.get_health_factor(user, prices);
        if ending_user_health_factor <= starting_user_health_factor {
            return Err(DSCEngineError::HealthFactorNotImproved);
        }
        let liquidator_health_factor = self.get_health_factor(sender, prices);
        if liquidator_health_factor < MIN_HEALTH_FACTOR {
            return Err(DSCEngineError::BreaksHealthFactor(liquidator_health_factor));
        }
        Ok(())
    }

    /// Composes a deposit with a mint. With `strict_deposit` the composed
    /// call stops on a deposit failure; without it the deposit's error is
    /// discarded and the mint is attempted regardless.
    pub fn deposit_collateral_and_mint_dsc(
        &mut self,
        sender: u64,
        token_collateral_address: u64,
        amount_collateral: u128,
        amount_dsc_to_mint: u128,
        prices: &Vec<Option<i128>>,
        strict_deposit: bool,
        transfer_ok: bool,
        mint_ok: bool,
    ) -> (r: Result<(), DSCEngineError>)
        ensures
            final(self).same_registry(*old(self)),
            old(self).deposit_applies(sender, token_collateral_address, amount_collateral) ==> {
                &&& final(self).collateral_deposited@ == old(self).collateral_deposited@.insert(
                    position_key(sender, token_collateral_address),
                    (old(self).collateral_of(sender, token_collateral_address) + amount_collateral)
                        as u128,
                )
                &&& final(self).events@ == old(self).events@.push(
                    DSCEvent::CollateralDeposited {
                        user: sender,
                        token: token_collateral_address,
                        amount: amount_collateral,
                    },
                )
            },
            !old(self).deposit_applies(sender, token_collateral_address, amount_collateral) ==> (
            final(self).collateral_deposited@ == old(self).collateral_deposited@ && final(self).events@ == old(self).events@),
            strict_deposit && old(self).deposit_error(
                sender,
                token_collateral_address,
                amount_collateral,
                transfer_ok,
            ) is Some ==> (final(self).dsc_minted@ == old(self).dsc_minted@ && r == Err::<
                (),
                DSCEngineError,
            >(
                old(self).deposit_error(
                    sender,
                    token_collateral_address,
                    amount_collateral,
                    transfer_ok,
                )->0,
            )),
            !(strict_deposit && old(self).deposit_error(
                sender,
                token_collateral_address,
                amount_collateral,
                transfer_ok,
            ) is Some) ==> {
                &&& old(self).mint_applies(sender, amount_dsc_to_mint) ==> final(self).dsc_minted@
                    == old(self).dsc_minted@.insert(
                    sender,
                    (old(self).debt_of(sender) + amount_dsc_to_mint) as u128,
                )
                &&& !old(self).mint_applies(sender, amount_dsc_to_mint) ==> final(self).dsc_minted@
                    == old(self).dsc_minted@
                &&& r == (if amount_dsc_to_mint == 0 {
                    Err::<(), DSCEngineError>(DSCEngineError::NeedsMoreThanZero)
                } else if (old(self).debt_of(sender) as int) + (amount_dsc_to_mint as int)
                    > u128::MAX as int {
                    Err(DSCEngineError::ArithmeticFailure)
                } else if !mint_ok {
                    Err(DSCEngineError::MintFailed)
                } else if final(self).health_factor_of(sender, prices@) < MIN_HEALTH_FACTOR {
                    Err(
                        DSCEngineError::BreaksHealthFactor(
                            final(self).health_factor_of(sender, prices@),
                        ),
                    )
                } else {
                    Ok(())
                })
            },
            r == Ok::<(), DSCEngineError>(()) ==> final(self).health_factor_of(sender, prices@)
                >= MIN_HEALTH_FACTOR,
    {
        let deposit_result = self.deposit_collateral(
            sender,
            token_collateral_address,
            amount_collateral,
            transfer_ok,
        );
        if strict_deposit {
            match deposit_result {
                Err(e) => {
                    return Err(e);
                },
                Ok(()) => {},
            }
        }
        let ghost mid = *self;
        let r = self.mint_dsc(sender, amount_dsc_to_mint, prices, mint_ok);
        proof {
            lemma_collateral_value_same(
                mid,
                *self,
                sender,
                prices@,
                self.collateral_tokens@.len() as int,
            );
        }
        r
    }
}

/// With the registry fixed, collateral valuation is monotone in the
/// user's position amounts.
pub proof fn lemma_collateral_value_monotone(
    pre: DSCEngine,
    post: DSCEngine,
    user: u64,
    prices: Seq<Option<i128>>,
    n: int,
)
    requires
        pre.collateral_tokens@ == post.collateral_tokens@,
        pre.price_feeds@ == post.price_feeds@,
        forall|t: u64| pre.collateral_of(user, t) <= post.collateral_of(user, t),
    ensures
        pre.collateral_value_prefix(user, prices, n) <= post.collateral_value_prefix(
            user,
            prices,
            n,
        ),
    decreases n,
{
    if n > 0 {
        lemma_collateral_value_monotone(pre, post, user, prices, n - 1);
        let t = pre.collateral_tokens@[n - 1];
        crate::oracle::lemma_usd_value_monotone(
            DSCEngine::quote_at(prices, n - 1),
            pre.collateral_of(user, t),
            post.collateral_of(user, t),
        );
    }
}

/// With the debt fixed, the health factor is monotone in the collateral
/// value.
pub proof fn lemma_health_factor_monotone(debt: u128, cv1: int, cv2: int)
    requires
        cv1 <= cv2,
    ensures
        DSCEngine::health_factor_model(debt, cv1) <= DSCEngine::health_factor_model(debt, cv2),
{
    if debt != 0 {
        let s1 = sat128(cv1) as int;
        let s2 = sat128(cv2) as int;
        vstd::arithmetic::mul::lemma_mul_inequality(s1, s2, LIQUIDATION_THRESHOLD as int);
        vstd::arithmetic::div_mod::lemma_div_is_ordered(
            s1 * (LIQUIDATION_THRESHOLD as int),
            s2 * (LIQUIDATION_THRESHOLD as int),
            LIQUIDATION_PRECISION as int,
        );
        let a1 = s1 * (LIQUIDATION_THRESHOLD as int) / (LIQUIDATION_PRECISION as int);
        let a2 = s2 * (LIQUIDATION_THRESHOLD as int) / (LIQUIDATION_PRECISION as int);
        vstd::arithmetic::mul::lemma_mul_inequality(a1, a2, PRECISION as int);
        vstd::arithmetic::div_mod::lemma_div_is_ordered(
            a1 * (PRECISION as int),
            a2 * (PRECISION as int),
            debt as int,
        );
    }
}

/// Law: a deposit never lowers the depositor's health factor, which is why
/// deposits carry no solvency gate of their own.
pub proof fn lemma_deposit_preserves_solvency(
    pre: DSCEngine,
    post: DSCEngine,
    sender: u64,
    token: u64,
    amount: u128,
    prices: Seq<Option<i128>>,
)
    requires
        pre.deposit_applies(sender, token, amount),
        post.collateral_tokens@ == pre.collateral_tokens@,
        post.price_feeds@ == pre.price_feeds@,
        post.dsc_minted@ == pre.dsc_minted@,
        post.collateral_deposited@ == pre.collateral_deposited@.insert(
            position_key(sender, token),
            (pre.collateral_of(sender, token) + amount) as u128,
        ),
    ensures
        post.health_factor_of(sender, prices) >= pre.health_factor_of(sender, prices),
{
    assert forall|t: u64| pre.collateral_of(sender, t) <= post.collateral_of(sender, t) by {
        if position_key(sender, t) == position_key(sender, token) {
            lemma_position_key_injective(sender, t, sender, token);
        }
    }
    lemma_collateral_value_monotone(
        pre,
        post,
        sender,
        prices,
        pre.collateral_tokens@.len() as int,
    );
    lemma_health_factor_monotone(
        pre.debt_of(sender),
        pre.account_collateral_value(sender, prices),
        post.account_collateral_value(sender, prices),
    );
}

/// Law: a mint succeeds only when the acting user's health factor, judged
/// on the state after the debt increase, still meets the minimum.
pub proof fn lemma_mint_guards_solvency(
    e: DSCEngine,
    sender: u64,
    amount: u128,
    prices: Seq<Option<i128>>,
    mint_ok: bool,
)
    ensures
        e.mint_error(sender, amount, prices, mint_ok) is None ==> e.mint_applies(sender, amount)
            && DSCEngine::health_factor_model(
            (e.debt_of(sender) + amount) as u128,
            e.account_collateral_value(sender, prices),
        ) >= MIN_HEALTH_FACTOR,
{
}

/// The asset-to-feed map built by registering the first `n` (asset, feed)
/// pairs in order; a later pair for the same asset overrides.
pub open spec fn feeds_map(tokens: Seq<u64>, feeds: Seq<u64>, n: int) -> Map<u64, u64>
    decreases n,
{
    if n <= 0 {
        Map::empty()
    } else {
        feeds_map(tokens, feeds, n - 1).insert(tokens[n - 1], feeds[n - 1])
    }
}

} // verus!
