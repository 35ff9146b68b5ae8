//! Core data types of the treasury: identities, trading-pair symbols, price
//! records, the oracle health record, portfolios, and the error taxonomy.

use vstd::prelude::*;

verus! {

/// An opaque on-ledger identity (a user, a token contract, an oracle or a
/// router). The core only ever compares identities and passes them through,
/// so a plain numeric handle carries everything it reads.
#[derive(Clone, Copy, PartialEq, Eq, Structural, Debug, Hash)]
pub struct Address {
    pub id: u64,
}

/// A short symbolic name: a trading pair such as `KALE_USD`, or a bare asset
/// name such as `BTC`. Held as its byte text; the view is the byte sequence.
#[derive(Clone, Debug)]
pub struct Symbol {
    pub text: Vec<u8>,
}

impl View for Symbol {
    type V = Seq<u8>;

    open spec fn view(&self) -> Seq<u8> {
        self.text@
    }
}

impl Symbol {
    pub fn new(text: Vec<u8>) -> (s: Symbol)
        ensures
            s@ == text@,
    {
        Symbol { text }
    }

    /// A fresh symbol with the same text.
    pub fn duplicate(&self) -> (s: Symbol)
        ensures
            s@ == self@,
    {
        let mut text: Vec<u8> = Vec::new();
        let mut i: usize = 0;
        while i < self.text.len()
            invariant
                i <= self.text.len(),
                text@ == self.text@.take(i as int),
            decreases self.text.len() - i,
        {
            text.push(self.text[i]);
            i = i + 1;
        }
        proof {
            assert(text@ =~= self.text@);
        }
        Symbol { text }
    }
}

/// Whether two symbols carry the same text.
pub fn sym_eq(a: &Symbol, b: &Symbol) -> (r: bool)
    ensures
        r == (a@ == b@),
{
    if a.text.len() != b.text.len() {
        return false;
    }
    let mut i: usize = 0;
    while i < a.text.len()
        invariant
            i <= a.text.len(),
            a.text.len() == b.text.len(),
            forall|j: int| 0 <= j < i ==> a.text@[j] == b.text@[j],
        decreases a.text.len() - i,
    {
        if a.text[i] != b.text[i] {
            return false;
        }
        i = i + 1;
    }
    proof {
        assert(a@ =~= b@);
    }
    true
}

/// A price quotation as the upstream oracle reports it.
#[derive(Clone, Copy, PartialEq, Eq, Structural, Debug)]
pub struct PriceData {
    pub price: i128,
    pub timestamp: u64,
}

/// An asset as the upstream oracle addresses it: either an on-ledger token
/// contract or an external symbol.
#[derive(Clone, Debug)]
pub enum Asset {
    Stellar(Address),
    Other(Symbol),
}

/// Where a resolved price came from.
#[derive(Clone, Copy, PartialEq, Eq, Structural, Debug)]
pub enum PriceSource {
    Oracle,
    Fallback,
    Cache,
}

/// The last resolved price of a pair, tagged with the resolution time and
/// its provenance.
#[derive(Clone, Copy, PartialEq, Eq, Structural, Debug)]
pub struct CachedPrice {
    pub price: i128,
    pub timestamp: u64,
    pub source: PriceSource,
}

/// One point of a pair's price history.
#[derive(Clone, Copy, PartialEq, Eq, Structural, Debug)]
pub struct PricePoint {
    pub timestamp: u64,
    pub price: i128,
}

/// The circuit breaker's record of upstream oracle health.
#[derive(Clone, Copy, PartialEq, Eq, Structural, Debug)]
pub struct OracleHealth {
    pub consecutive_failures: u32,
    pub last_success_timestamp: u64,
    pub is_circuit_open: bool,
}

/// A user's holdings and declared risk profile. Balances are non-negative
/// fixed-point integers with 7 decimal places.
#[derive(Clone, Copy, PartialEq, Eq, Structural, Debug)]
pub struct Portfolio {
    pub user: Address,
    pub kale_balance: i128,
    pub usdc_balance: i128,
    pub btc_balance: i128,
    pub risk_level: u32,
}

/// A fatal condition reported to the caller. Invalid inputs (a non-positive
/// deposit, an out-of-range risk level) are absorbed as no-ops and are *not*
/// errors; oracle and exchange failures are absorbed by the resolution chain
/// and the estimate fallback.
#[derive(Clone, Copy, PartialEq, Eq, Structural, Debug)]
pub enum Error {
    /// A required collaborator address was never configured.
    NotInitialized,
    /// The operation needs an existing portfolio and the user has none.
    PortfolioNotFound,
    /// A stored risk level is outside {1, 2, 3}; defended against even
    /// though risk-level validation should make it unreachable.
    InvalidRiskLevel,
}

} // verus!
