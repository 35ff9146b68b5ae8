//! A multi-asset treasury core: a resilient price-resolution engine (cache,
//! circuit breaker, bounded price history, static fallback table) and a
//! rebalancing engine that moves a user's holdings toward the target
//! allocation of their declared risk profile.
//!
//! The library is a deterministic state machine over plain values. Everything
//! the surrounding host does for it — persistent storage, the upstream oracle,
//! the exchange router, the ledger clock — enters through explicit arguments:
//! the current time, the oracle's answer (if it was consulted), and the
//! outcome of each submitted trade leg. Every public operation is specified
//! against a mathematical model of the state and proved to follow it.

pub mod accounts;
pub mod fund;
pub mod history;
pub mod laws;
pub mod mock_oracle;
pub mod model;
pub mod pairs;
pub mod rebalance;
pub mod resolver;
pub mod table;
pub mod types;

pub use fund::KalePensionFund;
pub use mock_oracle::MockOracleContract;
pub use rebalance::AssetKind;
pub use rebalance::RebalancePlan;
pub use rebalance::SwapOutcome;
pub use rebalance::TradeLeg;
pub use types::Address;
pub use types::Asset;
pub use types::CachedPrice;
pub use types::Error;
pub use types::OracleHealth;
pub use types::Portfolio;
pub use types::PriceData;
pub use types::PricePoint;
pub use types::PriceSource;
pub use types::Symbol;
