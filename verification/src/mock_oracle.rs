//! A deterministic test oracle: a settable price list that answers price
//! queries with the ledger's current time as the quotation timestamp.

use vstd::prelude::*;

use crate::model::MOCK_FALLBACK_TIMESTAMP;
use crate::pairs::kale_symbol;
use crate::pairs::kale_text;
use crate::table::SymTable;
use crate::types::Asset;
use crate::types::PriceData;
use crate::types::Symbol;

verus! {

/// The symbol a quotation request resolves to: an external asset keeps its
/// own symbol; an on-ledger token is answered as the volatile token.
pub open spec fn mock_asset_sym(a: Asset) -> Seq<u8> {
    match a {
        Asset::Other(s) => s@,
        Asset::Stellar(_) => kale_text(),
    }
}

/// What the mock oracle answers: the stored price, stamped with `now`, or
/// the fixed early timestamp while the ledger clock still reads zero.
pub open spec fn mock_lastprice(table: Map<Seq<u8>, i128>, sym: Seq<u8>, now: u64) -> Option<
    PriceData,
> {
    if table.contains_key(sym) {
        Some(
            PriceData {
                price: table[sym],
                timestamp: if now == 0 {
                    MOCK_FALLBACK_TIMESTAMP
                } else {
                    now
                },
            },
        )
    } else {
        None
    }
}

/// The settable oracle used in test environments and as the secondary data
/// source of the resolution chain.
pub struct MockOracleContract {
    pub prices: SymTable<i128>,
}

impl View for MockOracleContract {
    type V = Map<Seq<u8>, i128>;

    open spec fn view(&self) -> Map<Seq<u8>, i128> {
        self.prices@
    }
}

impl MockOracleContract {
    pub open spec fn wf(&self) -> bool {
        self.prices.wf()
    }

    pub fn new() -> (o: Self)
        ensures
            o.wf(),
            o@ == Map::<Seq<u8>, i128>::empty(),
    {
        MockOracleContract { prices: SymTable::new() }
    }

    /// Record the price the oracle will answer for `asset`.
    pub fn set_price(&mut self, asset: Symbol, price: i128)
        requires
            old(self).wf(),
        ensures
            final(self).wf(),
            final(self)@ == old(self)@.insert(asset@, price),
    {
        self.prices.put(asset, price);
    }

    /// The latest quotation for `asset`, if one was recorded.
    pub fn lastprice(&self, asset: &Asset, now: u64) -> (r: Option<PriceData>)
        requires
            self.wf(),
        ensures
            r == mock_lastprice(self@, mock_asset_sym(*asset), now),
    {
        let sym = match asset {
            Asset::Other(s) => s.duplicate(),
            Asset::Stellar(_) => kale_symbol(),
        };
        match self.prices.get(&sym) {
            Some(price) => {
                let timestamp = if now == 0 {
                    MOCK_FALLBACK_TIMESTAMP
                } else {
                    now
                };
                Some(PriceData { price: *price, timestamp })
            },
            None => None,
        }
    }
}

} // verus!
