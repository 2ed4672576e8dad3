//! Deployed tickers and the registry that holds them.

use vstd::prelude::*;
use crate::mint::{Brc20MintTx, MintTxView};
use crate::table::{keys_distinct, StringTable};

verus! {

/// A deployed ticker: the parameters of its deploy, which never change, and
/// what has been minted of it so far.
pub struct Brc20Ticker {
    tick: String,
    max_supply: u128,
    limit: u128,
    decimals: u8,
    total_minted: u128,
    mints: Vec<Brc20MintTx>,
}

/// A [`Brc20Ticker`] as plain values.
pub struct TickerView {
    pub tick: Seq<char>,
    pub max_supply: u128,
    pub limit: u128,
    pub decimals: u8,
    pub total_minted: u128,
    pub mints: Seq<MintTxView>,
}

/// The sum of the amounts credited by a list of mints.
pub open spec fn credited_sum(mints: Seq<MintTxView>) -> nat
    decreases mints.len(),
{
    if mints.len() == 0 {
        0
    } else {
        credited_sum(mints.drop_last()) + mints.last().amount as nat
    }
}

/// The mint records of the ticker are accepted mints of this ticker; what
/// they credit adds up to the total minted, which is within the maximum
/// supply.
pub open spec fn ticker_sound(t: TickerView) -> bool {
    &&& t.total_minted <= t.max_supply
    &&& t.total_minted == credited_sum(t.mints)
    &&& forall|i: int|
        0 <= i < t.mints.len() ==> (#[trigger] t.mints[i]).is_valid && t.mints[i].mint.tick
            == t.tick
}

/// The ticker after one more accepted mint.
pub open spec fn ticker_with_mint(t: TickerView, mint: MintTxView) -> TickerView {
    TickerView {
        total_minted: (t.total_minted + mint.amount) as u128,
        mints: t.mints.push(mint),
        ..t
    }
}

pub proof fn lemma_credited_sum_push(mints: Seq<MintTxView>, mint: MintTxView)
    ensures
        credited_sum(mints.push(mint)) == credited_sum(mints) + mint.amount,
{
    assert(mints.push(mint).drop_last() =~= mints);
}

/// The first mints of a list credit no more than the whole list.
pub proof fn lemma_credited_sum_prefix(mints: Seq<MintTxView>, n: int)
    requires
        0 <= n <= mints.len(),
    ensures
        credited_sum(mints.take(n)) <= credited_sum(mints),
    decreases mints.len() - n,
{
    if n < mints.len() {
        assert(mints.take(n + 1).drop_last() =~= mints.take(n));
        lemma_credited_sum_prefix(mints, n + 1);
    } else {
        assert(mints.take(n) =~= mints);
    }
}

/// An accepted mint that fits under the maximum supply keeps a ticker sound.
pub proof fn lemma_ticker_with_mint_sound(t: TickerView, mint: MintTxView)
    requires
        ticker_sound(t),
        mint.is_valid,
        mint.mint.tick == t.tick,
        t.total_minted + mint.amount <= t.max_supply,
    ensures
        ticker_sound(ticker_with_mint(t, mint)),
{
    lemma_credited_sum_push(t.mints, mint);
}

impl View for Brc20Ticker {
    type V = TickerView;

    closed spec fn view(&self) -> TickerView {
        TickerView {
            tick: self.tick@,
            max_supply: self.max_supply,
            limit: self.limit,
            decimals: self.decimals,
            total_minted: self.total_minted,
            mints: Seq::new(self.mints.len() as nat, |i: int| self.mints[i]@),
        }
    }
}

impl Brc20Ticker {
    pub open spec fn wf(&self) -> bool {
        ticker_sound(self@)
    }

    /// A ticker as its deploy declares it, with nothing minted.
    pub fn new(tick: String, max_supply: u128, limit: u128, decimals: u8) -> (r: Self)
        ensures
            r.wf(),
            r@ == (TickerView {
                tick: tick@,
                max_supply,
                limit,
                decimals,
                total_minted: 0,
                mints: Seq::empty(),
            }),
    {
        let r = Brc20Ticker { tick, max_supply, limit, decimals, total_minted: 0, mints: Vec::new() };
        assert(r@.mints =~= Seq::<MintTxView>::empty());
        r
    }

    pub fn get_tick(&self) -> (r: &String)
        ensures
            r@ == self@.tick,
    {
        &self.tick
    }

    pub fn get_max_supply(&self) -> (r: u128)
        ensures
            r == self@.max_supply,
    {
        self.max_supply
    }

    pub fn get_limit(&self) -> (r: u128)
        ensures
            r == self@.limit,
    {
        self.limit
    }

    pub fn get_decimals(&self) -> (r: u8)
        ensures
            r == self@.decimals,
    {
        self.decimals
    }

    /// What has been minted so far.
    pub fn get_total_supply(&self) -> (r: u128)
        ensures
            r == self@.total_minted,
    {
        self.total_minted
    }

    /// The number of accepted mints.
    pub fn mint_count(&self) -> (n: usize)
        ensures
            n == self@.mints.len(),
    {
        self.mints.len()
    }

    /// The accepted mint at position `i`, in the order of acceptance.
    pub fn mint_at(&self, i: usize) -> (r: &Brc20MintTx)
        requires
            i < self@.mints.len(),
        ensures
            r@ == self@.mints[i as int],
    {
        &self.mints[i]
    }

    /// Records an accepted mint and adds what it credits to the total.
    pub fn add_mint(&mut self, mint_tx: Brc20MintTx)
        requires
            old(self).wf(),
            mint_tx@.is_valid,
            mint_tx@.mint.tick == old(self)@.tick,
            old(self)@.total_minted + mint_tx@.amount <= old(self)@.max_supply,
        ensures
            final(self).wf(),
            final(self)@ == ticker_with_mint(old(self)@, mint_tx@),
    {
        proof {
            lemma_ticker_with_mint_sound(self@, mint_tx@);
        }
        self.total_minted = self.total_minted + mint_tx.get_amount();
        self.mints.push(mint_tx);
        assert(self@.mints =~= old(self)@.mints.push(mint_tx@));
    }

    /// The total minted, computed anew from the mint records. It is the
    /// total that was kept while the mints were accepted.
    pub fn recompute_total_minted(&self) -> (r: u128)
        requires
            self.wf(),
        ensures
            r == credited_sum(self@.mints),
            r == self@.total_minted,
    {
        let mut sum: u128 = 0;
        let mut i: usize = 0;
        while i < self.mints.len()
            invariant
                i <= self.mints.len(),
                self.wf(),
                sum == credited_sum(self@.mints.take(i as int)),
            decreases self.mints.len() - i,
        {
            proof {
                assert(self@.mints.take(i + 1).drop_last() =~= self@.mints.take(i as int));
                lemma_credited_sum_prefix(self@.mints, i + 1);
            }
            sum = sum + self.mints[i].get_amount();
            i = i + 1;
        }
        assert(self@.mints.take(i as int) =~= self@.mints);
        sum
    }
}

/// Why a ticker was not registered.
#[derive(Debug, Clone, Copy, PartialEq, Eq, Structural)]
pub enum RegistryError {
    /// A ticker with this symbol is deployed already.
    TickerExists,
}

/// The deployed tickers by symbol.
pub struct TickerRegistry {
    table: StringTable<Brc20Ticker>,
}

/// Every ticker of the registry is sound and is filed under its symbol.
pub open spec fn registry_sound(m: Map<Seq<char>, TickerView>) -> bool {
    forall|k: Seq<char>| #[trigger] m.contains_key(k) ==> ticker_sound(m[k]) && m[k].tick == k
}

impl TickerRegistry {
    pub closed spec fn wf(&self) -> bool {
        &&& self.table.wf()
        &&& forall|k: Seq<char>| #[trigger]
            self.table@.contains_key(k) ==> self.table@[k].wf() && self.table@[k]@.tick == k
    }

    /// The tickers by symbol.
    pub closed spec fn view(&self) -> Map<Seq<char>, TickerView> {
        Map::new(|k: Seq<char>| self.table@.contains_key(k), |k: Seq<char>| self.table@[k]@)
    }

    /// The symbols in the order of registration.
    pub closed spec fn symbols(&self) -> Seq<Seq<char>> {
        self.table.keys()
    }

    /// Of every ticker in a registry no more is minted than its maximum
    /// supply, and its total is what its mint records credit.
    pub proof fn lemma_sound(&self)
        requires
            self.wf(),
        ensures
            registry_sound(self@),
            keys_distinct(self.symbols()),
            forall|k: Seq<char>| self@.contains_key(k) <==> self.symbols().contains(k),
    {
        self.table.lemma_keys();
    }

    pub fn new() -> (r: Self)
        ensures
            r.wf(),
            r@ == Map::<Seq<char>, TickerView>::empty(),
            r.symbols() == Seq::<Seq<char>>::empty(),
    {
        let r = TickerRegistry { table: StringTable::new() };
        assert(r@ =~= Map::<Seq<char>, TickerView>::empty());
        r
    }

    /// The number of tickers.
    pub fn len(&self) -> (n: usize)
        ensures
            n == self.symbols().len(),
    {
        self.table.len()
    }

    pub fn contains(&self, tick: &str) -> (r: bool)
        ensures
            r == self@.contains_key(tick@),
    {
        self.table.contains_key(tick)
    }

    /// The ticker with the symbol `tick`, if it is deployed.
    pub fn get(&self, tick: &str) -> (r: Option<&Brc20Ticker>)
        requires
            self.wf(),
        ensures
            r.is_some() == self@.contains_key(tick@),
            r matches Some(t) ==> t@ == self@[tick@] && t.wf(),
    {
        self.table.get(tick)
    }

    /// The ticker at position `i` of the order of registration.
    pub fn ticker_at(&self, i: usize) -> (r: &Brc20Ticker)
        requires
            self.wf(),
            i < self.symbols().len(),
        ensures
            self@.contains_key(self.symbols()[i as int]),
            r@ == self@[self.symbols()[i as int]],
            r.wf(),
    {
        self.table.value_at(i)
    }

    /// Registers a newly deployed ticker. A symbol is deployed once: where
    /// the registry holds the symbol already, it is left as it was.
    pub fn register(&mut self, ticker: Brc20Ticker) -> (r: Result<(), RegistryError>)
        requires
            old(self).wf(),
            ticker.wf(),
        ensures
            final(self).wf(),
            r.is_ok() == !old(self)@.contains_key(ticker@.tick),
            r.is_ok() ==> final(self)@ == old(self)@.insert(ticker@.tick, ticker@)
                && final(self).symbols() == old(self).symbols().push(ticker@.tick),
            r.is_err() ==> final(self)@ == old(self)@ && final(self).symbols() == old(
                self,
            ).symbols(),
    {
        if self.table.contains_key(ticker.get_tick().as_str()) {
            Err(RegistryError::TickerExists)
        } else {
            let key: String = ticker.get_tick().clone();
            self.table.insert(key, ticker);
            assert(self@ =~= old(self)@.insert(ticker@.tick, ticker@));
            Ok(())
        }
    }

    /// Records an accepted mint with its ticker.
    pub fn record_mint(&mut self, mint_tx: Brc20MintTx)
        requires
            old(self).wf(),
            mint_tx@.is_valid,
            old(self)@.contains_key(mint_tx@.mint.tick),
            old(self)@[mint_tx@.mint.tick].total_minted + mint_tx@.amount <= old(
                self,
            )@[mint_tx@.mint.tick].max_supply,
        ensures
            final(self).wf(),
            final(self)@ == old(self)@.insert(
                mint_tx@.mint.tick,
                ticker_with_mint(old(self)@[mint_tx@.mint.tick], mint_tx@),
            ),
            final(self).symbols() == old(self).symbols(),
    {
        let ghost tick: Seq<char> = mint_tx@.mint.tick;
        let ticker: &mut Brc20Ticker = self.table.get_mut(mint_tx.get_mint().tick.as_str()).unwrap();
        ticker.add_mint(mint_tx);
        assert(self@ =~= old(self)@.insert(tick, ticker_with_mint(old(self)@[tick], mint_tx@)));
    }
}

} // verus!
