//! The state of a run of the indexer.

use vstd::prelude::*;
use crate::brc20_ticker::{TickerRegistry, TickerView};
use crate::brc20_tx::{InvalidBrc20TxMap, InvalidTxView};

verus! {

/// The deployed tickers and the rejected inscriptions of a run. Every
/// validator works on this one value.
pub struct Brc20Index {
    pub tickers: TickerRegistry,
    pub invalid_tx_map: InvalidBrc20TxMap,
}

impl Brc20Index {
    pub open spec fn wf(&self) -> bool {
        &&& self.tickers.wf()
        &&& self.invalid_tx_map.wf()
    }

    /// An index without tickers and without rejected inscriptions.
    pub fn new() -> (r: Self)
        ensures
            r.wf(),
            r.tickers@ == Map::<Seq<char>, TickerView>::empty(),
            r.invalid_tx_map@ == Map::<Seq<char>, InvalidTxView>::empty(),
    {
        Brc20Index { tickers: TickerRegistry::new(), invalid_tx_map: InvalidBrc20TxMap::new() }
    }
}

} // verus!
