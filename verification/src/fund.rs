//! The treasury itself: configured collaborator addresses, the portfolios,
//! and the shared price-resolution state, with the thin CRUD operations
//! over portfolios. Price resolution and rebalancing live in their own
//! modules as further `impl` blocks of [`KalePensionFund`].

use vstd::prelude::*;

use crate::accounts::PortfolioBook;
use crate::mock_oracle::MockOracleContract;
use crate::model::StateModel;
use crate::model::empty_model;
use crate::model::fits_i128;
use crate::model::model_wf;
use crate::model::portfolio_wf;
use crate::table::SymTable;
use crate::types::Address;
use crate::types::CachedPrice;
use crate::types::Error;
use crate::types::Portfolio;
use crate::types::PricePoint;

verus! {

/// The multi-asset treasury. All collaborator effects — storage, clock,
/// oracle, exchange — enter through method arguments; the struct holds the
/// complete persistent state.
pub struct KalePensionFund {
    pub kale_token: Option<Address>,
    pub usdc_token: Option<Address>,
    pub btc_token: Option<Address>,
    pub reflector_oracle: Option<Address>,
    pub soroswap_router: Option<Address>,
    pub mock_oracle: Option<MockOracleContract>,
    pub portfolios: PortfolioBook,
    pub cache: SymTable<CachedPrice>,
    pub history: SymTable<Vec<PricePoint>>,
    pub health: Option<crate::types::OracleHealth>,
}

impl View for KalePensionFund {
    type V = StateModel;

    open spec fn view(&self) -> StateModel {
        StateModel {
            kale_token: self.kale_token,
            usdc_token: self.usdc_token,
            btc_token: self.btc_token,
            reflector_oracle: self.reflector_oracle,
            soroswap_router: self.soroswap_router,
            mock_prices: match self.mock_oracle {
                Some(o) => Some(o@),
                None => None,
            },
            portfolios: self.portfolios@,
            cache: self.cache@,
            history: Map::new(
                |k: Seq<u8>| self.history@.contains_key(k),
                |k: Seq<u8>| self.history@[k]@,
            ),
            health: self.health,
        }
    }
}

/// A fresh, empty portfolio with the conservative default risk level.
pub open spec fn zero_portfolio(user: Address) -> Portfolio {
    Portfolio { user, kale_balance: 0, usdc_balance: 0, btc_balance: 0, risk_level: 1 }
}

/// The three token addresses a withdrawal needs.
pub open spec fn tokens_configured(m: StateModel) -> bool {
    m.kale_token is Some && m.usdc_token is Some && m.btc_token is Some
}

/// What a deposit does: a non-positive amount or a missing token
/// configuration leaves the state untouched; otherwise the user's portfolio
/// (created zeroed on first deposit) grows by `amount`.
pub open spec fn deposit_step(m: StateModel, user: Address, amount: i128) -> StateModel {
    if amount <= 0 {
        m
    } else if m.kale_token is None {
        m
    } else {
        let p0 = if m.portfolios.contains_key(user) {
            m.portfolios[user]
        } else {
            zero_portfolio(user)
        };
        let p1 = Portfolio { kale_balance: (p0.kale_balance + amount) as i128, ..p0 };
        StateModel { portfolios: m.portfolios.insert(user, p1), ..m }
    }
}

/// What `set_risk` does and reports: an out-of-range level is ignored
/// without error; a missing portfolio is fatal; otherwise only the risk
/// level changes.
pub open spec fn set_risk_step(m: StateModel, user: Address, level: u32) -> (StateModel, Result<
    (),
    Error,
>) {
    if level < 1 || level > 3 {
        (m, Ok(()))
    } else if !m.portfolios.contains_key(user) {
        (m, Err(Error::PortfolioNotFound))
    } else {
        let p1 = Portfolio { risk_level: level, ..m.portfolios[user] };
        (StateModel { portfolios: m.portfolios.insert(user, p1), ..m }, Ok(()))
    }
}

/// What a withdrawal does: with no portfolio or no token configuration it
/// is a no-op; otherwise the portfolio is deleted (the host pays the
/// balances out before deleting).
pub open spec fn withdraw_step(m: StateModel, user: Address) -> StateModel {
    if !m.portfolios.contains_key(user) {
        m
    } else if !tokens_configured(m) {
        m
    } else {
        StateModel { portfolios: m.portfolios.remove(user), ..m }
    }
}

/// What `get_portfolio` answers: the stored record, or a zeroed default.
pub open spec fn portfolio_or_default(m: StateModel, user: Address) -> Portfolio {
    if m.portfolios.contains_key(user) {
        m.portfolios[user]
    } else {
        zero_portfolio(user)
    }
}

impl KalePensionFund {
    /// Structural well-formedness: distinct store keys and the model
    /// invariant.
    pub open spec fn wf(&self) -> bool {
        &&& self.portfolios.wf()
        &&& self.cache.wf()
        &&& self.history.wf()
        &&& match self.mock_oracle {
            Some(o) => o.wf(),
            None => true,
        }
        &&& model_wf(self@)
    }

    /// A freshly deployed treasury: nothing configured, nothing stored.
    pub fn new() -> (f: Self)
        ensures
            f.wf(),
            f@ == empty_model(),
    {
        let f = KalePensionFund {
            kale_token: None,
            usdc_token: None,
            btc_token: None,
            reflector_oracle: None,
            soroswap_router: None,
            mock_oracle: None,
            portfolios: PortfolioBook::new(),
            cache: SymTable::new(),
            history: SymTable::new(),
            health: None,
        };
        proof {
            assert(f@.history =~= Map::<Seq<u8>, Seq<PricePoint>>::empty());
            assert(f@ =~= empty_model());
        }
        f
    }

    /// Wire the collaborator addresses. The caller's identity check happens
    /// at the host boundary before this is reached.
    pub fn initialize(
        &mut self,
        _admin: Address,
        kale_token: Address,
        usdc_token: Address,
        btc_token: Address,
        reflector_oracle: Address,
        soroswap_router: Address,
    )
        requires
            old(self).wf(),
        ensures
            final(self).wf(),
            final(self)@ == (StateModel {
                kale_token: Some(kale_token),
                usdc_token: Some(usdc_token),
                btc_token: Some(btc_token),
                reflector_oracle: Some(reflector_oracle),
                soroswap_router: Some(soroswap_router),
                ..old(self)@
            }),
    {
        self.kale_token = Some(kale_token);
        self.usdc_token = Some(usdc_token);
        self.btc_token = Some(btc_token);
        self.reflector_oracle = Some(reflector_oracle);
        self.soroswap_router = Some(soroswap_router);
        proof {
            assert(self@ =~= (StateModel {
                kale_token: Some(kale_token),
                usdc_token: Some(usdc_token),
                btc_token: Some(btc_token),
                reflector_oracle: Some(reflector_oracle),
                soroswap_router: Some(soroswap_router),
                ..old(self)@
            }));
        }
    }

    /// Register the test oracle the resolution chain may fall back to.
    pub fn set_mock_oracle(&mut self, oracle: MockOracleContract)
        requires
            old(self).wf(),
            oracle.wf(),
        ensures
            final(self).wf(),
            final(self)@ == (StateModel { mock_prices: Some(oracle@), ..old(self)@ }),
    {
        let ghost target = StateModel { mock_prices: Some(oracle@), ..old(self)@ };
        self.mock_oracle = Some(oracle);
        proof {
            assert(self@ =~= target);
        }
    }

    /// Credit a deposit of the volatile token. The host transfers the
    /// tokens before recording it here.
    pub fn deposit(&mut self, user: Address, amount: i128)
        requires
            old(self).wf(),
            fits_i128(portfolio_or_default(old(self)@, user).kale_balance + amount),
        ensures
            final(self).wf(),
            final(self)@ == deposit_step(old(self)@, user, amount),
    {
        if amount <= 0 {
            return ;
        }
        if self.kale_token.is_none() {
            return ;
        }
        let p0 = match self.portfolios.get(user) {
            Some(p) => p,
            None => Portfolio {
                user,
                kale_balance: 0,
                usdc_balance: 0,
                btc_balance: 0,
                risk_level: 1,
            },
        };
        let p1 = Portfolio { kale_balance: p0.kale_balance + amount, ..p0 };
        self.portfolios.put(p1);
        proof {
            assert(self@ =~= deposit_step(old(self)@, user, amount));
            assert(portfolio_wf(user, p1));
        }
    }

    /// Set the user's declared risk profile.
    pub fn set_risk(&mut self, user: Address, level: u32) -> (r: Result<(), Error>)
        requires
            old(self).wf(),
        ensures
            final(self).wf(),
            final(self)@ == set_risk_step(old(self)@, user, level).0,
            r == set_risk_step(old(self)@, user, level).1,
    {
        if level < 1 || level > 3 {
            return Ok(());
        }
        let p0 = match self.portfolios.get(user) {
            Some(p) => p,
            None => {
                return Err(Error::PortfolioNotFound);
            },
        };
        let p1 = Portfolio { risk_level: level, ..p0 };
        self.portfolios.put(p1);
        proof {
            assert(self@ =~= set_risk_step(old(self)@, user, level).0);
            assert(portfolio_wf(user, p1));
        }
        Ok(())
    }

    /// Delete the user's portfolio after the host has paid the balances
    /// out. A missing portfolio or configuration is absorbed as a no-op.
    pub fn withdraw(&mut self, user: Address)
        requires
            old(self).wf(),
        ensures
            final(self).wf(),
            final(self)@ == withdraw_step(old(self)@, user),
    {
        if self.portfolios.get(user).is_none() {
            return ;
        }
        if self.kale_token.is_none() || self.usdc_token.is_none() || self.btc_token.is_none() {
            return ;
        }
        self.portfolios.remove(user);
        proof {
            assert(self@ =~= withdraw_step(old(self)@, user));
        }
    }

    /// The user's holdings, or a zeroed default when none exist.
    pub fn get_portfolio(&self, user: Address) -> (p: Portfolio)
        requires
            self.wf(),
        ensures
            p == portfolio_or_default(self@, user),
    {
        match self.portfolios.get(user) {
            Some(p) => p,
            None => Portfolio {
                user,
                kale_balance: 0,
                usdc_balance: 0,
                btc_balance: 0,
                risk_level: 1,
            },
        }
    }

    /// Whether the token addresses are wired, and which.
    pub fn debug_contract_status(&self) -> (r: (
        bool,
        Option<Address>,
        Option<Address>,
        Option<Address>,
    ))
        ensures
            r.0 == tokens_configured(self@),
            r.1 == self@.kale_token,
            r.2 == self@.usdc_token,
            r.3 == self@.btc_token,
    {
        let is_initialized = self.kale_token.is_some() && self.usdc_token.is_some()
            && self.btc_token.is_some();
        (is_initialized, self.kale_token, self.usdc_token, self.btc_token)
    }
}

} // verus!
