//! The materialized balances of all addresses, kept up to date entry by entry
//! or rebuilt from the whole history of entries.

use vstd::prelude::*;
use crate::table::StringTable;
use crate::user_balance::{
    balance_after, consistent, representable, zero_balance, Balance, BalanceError, EntryView,
    UserBalance, UserBalanceEntry, UserBalanceView,
};

verus! {

/// An address and a ticker symbol.
pub type Holding = (Seq<char>, Seq<char>);

/// The balances of a holding in a ledger; zero where no entry has touched it.
pub open spec fn balance_of(m: Map<Holding, Balance>, h: Holding) -> Balance {
    if m.contains_key(h) {
        m[h]
    } else {
        zero_balance()
    }
}

/// The balances of the holding of `e` once `e` is applied.
pub open spec fn entry_result(m: Map<Holding, Balance>, e: EntryView) -> Balance {
    balance_after(balance_of(m, (e.address, e.tick)), e.entry_type, e.amount as int)
}

/// The ledger after one entry: the holding of the entry, created with zero
/// balances if it is new, has the entry applied. `None` where a balance
/// would not fit in a signed 128-bit integer.
pub open spec fn ledger_step(m: Map<Holding, Balance>, e: EntryView) -> Option<
    Map<Holding, Balance>,
> {
    if representable(entry_result(m, e)) {
        Some(m.insert((e.address, e.tick), entry_result(m, e)))
    } else {
        None
    }
}

/// The ledger that a history of entries leaves, starting from no balances at
/// all. `None` where some entry of the history cannot be applied.
pub open spec fn replay(entries: Seq<EntryView>) -> Option<Map<Holding, Balance>>
    decreases entries.len(),
{
    if entries.len() == 0 {
        Some(Map::empty())
    } else {
        match replay(entries.drop_last()) {
            Some(m) => ledger_step(m, entries.last()),
            None => None,
        }
    }
}

/// The ledger after the entries are applied to `start` one by one, first to
/// last.
pub open spec fn apply_all(start: Option<Map<Holding, Balance>>, entries: Seq<EntryView>) -> Option<
    Map<Holding, Balance>,
>
    decreases entries.len(),
{
    if entries.len() == 0 {
        start
    } else {
        match start {
            Some(m) => apply_all(ledger_step(m, entries[0]), entries.drop_first()),
            None => None,
        }
    }
}

/// The entries of a vector as plain values.
pub open spec fn entry_views(entries: Seq<UserBalanceEntry>) -> Seq<EntryView> {
    Seq::new(entries.len(), |i: int| entries[i]@)
}

/// The holding that a materialized balance belongs to.
pub open spec fn holding_of(b: UserBalanceView) -> Holding {
    (b.address, b.tick)
}

/// Every holding of the ledger has consistent balances.
pub open spec fn all_consistent(m: Map<Holding, Balance>) -> bool {
    forall|h: Holding| m.contains_key(h) ==> consistent(#[trigger] m[h])
}

/// The holdings of a ledger after one entry that was applied: the holding of
/// the entry comes last if it is new.
pub open spec fn holdings_step(holdings: Seq<Holding>, e: EntryView) -> Seq<Holding> {
    if holdings.contains((e.address, e.tick)) {
        holdings
    } else {
        holdings.push((e.address, e.tick))
    }
}

/// The holdings that a history of entries touches, each once, in the order
/// in which the history first touches them.
pub open spec fn replay_holdings(entries: Seq<EntryView>) -> Seq<Holding>
    decreases entries.len(),
{
    if entries.len() == 0 {
        Seq::empty()
    } else {
        holdings_step(replay_holdings(entries.drop_last()), entries.last())
    }
}

/// No holding stands at two places of `holdings`.
pub open spec fn holdings_distinct(holdings: Seq<Holding>) -> bool {
    forall|i: int, j: int|
        0 <= i < holdings.len() && 0 <= j < holdings.len() && i != j ==> holdings[i]
            != holdings[j]
}

/// The balances of every address in every ticker that an entry has touched.
///
/// The balances are kept in the order in which entries first touched them; a
/// table from address to ticker to position finds them.
pub struct BalanceLedger {
    rows: Vec<UserBalance>,
    index: StringTable<StringTable<usize>>,
}

impl BalanceLedger {
    /// The index finds every balance under its own address and ticker, and
    /// every balance is consistent.
    pub closed spec fn wf(&self) -> bool {
        &&& self.index.wf()
        &&& forall|a: Seq<char>| #[trigger] self.index@.contains_key(a) ==> self.index@[a].wf()
        &&& forall|a: Seq<char>, t: Seq<char>|
            self.index@.contains_key(a) && #[trigger] self.index@[a]@.contains_key(t) ==> {
                &&& self.index@[a]@[t] < self.rows.len()
                &&& self.rows[self.index@[a]@[t] as int]@.address == a
                &&& self.rows[self.index@[a]@[t] as int]@.tick == t
            }
        &&& forall|i: int|
            0 <= i < self.rows.len() ==> {
                &&& self.index@.contains_key((#[trigger] self.rows[i])@.address)
                &&& self.index@[self.rows[i]@.address]@.contains_key(self.rows[i]@.tick)
                &&& self.index@[self.rows[i]@.address]@[self.rows[i]@.tick] == i
                &&& self.rows[i].wf()
            }
    }

    /// The balances by address and ticker.
    pub closed spec fn view(&self) -> Map<Holding, Balance> {
        Map::new(
            |h: Holding| self.index@.contains_key(h.0) && self.index@[h.0]@.contains_key(h.1),
            |h: Holding| self.rows[self.index@[h.0]@[h.1] as int]@.balance,
        )
    }

    /// The holdings of the ledger in the order in which entries first touched
    /// them.
    pub closed spec fn holdings(&self) -> Seq<Holding> {
        Seq::new(self.rows.len() as nat, |i: int| holding_of(self.rows[i]@))
    }

    /// The holdings are distinct and are exactly those that have balances.
    pub proof fn lemma_holdings(&self)
        requires
            self.wf(),
        ensures
            holdings_distinct(self.holdings()),
            forall|h: Holding| self@.contains_key(h) <==> self.holdings().contains(h),
    {
        let hs = self.holdings();
        assert forall|h: Holding| self@.contains_key(h) implies hs.contains(h) by {
            let i = self.index@[h.0]@[h.1] as int;
            assert(hs[i] == h);
        }
        assert forall|h: Holding| hs.contains(h) implies self@.contains_key(h) by {
            let i = choose|i: int| 0 <= i < hs.len() && hs[i] == h;
            assert(self.rows[i].wf());
        }
        assert forall|i: int, j: int|
            0 <= i < hs.len() && 0 <= j < hs.len() && i != j implies hs[i] != hs[j] by {
            assert(self.rows[i].wf());
            assert(self.rows[j].wf());
        }
    }

    /// In every holding the overall balance is the sum of the available and
    /// the transferable balance.
    pub proof fn lemma_consistent(&self)
        requires
            self.wf(),
        ensures
            all_consistent(self@),
    {
        assert forall|h: Holding| self@.contains_key(h) implies consistent(#[trigger] self@[h]) by {
            assert(self.index@[h.0]@.contains_key(h.1));
            let i = self.index@[h.0]@[h.1] as int;
            assert(self.rows[i].wf());
        }
    }

    pub fn new() -> (r: Self)
        ensures
            r.wf(),
            r@ == Map::<Holding, Balance>::empty(),
            r.holdings() == Seq::<Holding>::empty(),
    {
        let r = BalanceLedger { rows: Vec::new(), index: StringTable::new() };
        assert(r@ =~= Map::<Holding, Balance>::empty());
        assert(r.holdings() =~= Seq::<Holding>::empty());
        r
    }

    /// The position of the balances of `address` in `tick`.
    fn find(&self, address: &str, tick: &str) -> (r: Option<usize>)
        requires
            self.wf(),
        ensures
            r.is_some() == self@.contains_key((address@, tick@)),
            r matches Some(i) ==> {
                &&& i < self.rows.len()
                &&& self.index@.contains_key(address@)
                &&& self.index@[address@]@.contains_key(tick@)
                &&& self.index@[address@]@[tick@] == i
                &&& holding_of(self.rows[i as int]@) == (address@, tick@)
                &&& self.rows[i as int]@.balance == self@[(address@, tick@)]
                &&& self.rows[i as int].wf()
            },
    {
        match self.index.get(address) {
            Some(of_address) => {
                match of_address.get(tick) {
                    Some(i) => {
                        assert(self.index@[address@]@.contains_key(tick@));
                        Some(*i)
                    },
                    None => None,
                }
            },
            None => None,
        }
    }

    /// The balances of `address` in `tick`, if an entry has touched them.
    pub fn get(&self, address: &str, tick: &str) -> (r: Option<&UserBalance>)
        requires
            self.wf(),
        ensures
            r.is_some() == self@.contains_key((address@, tick@)),
            r matches Some(b) ==> {
                &&& b@.address == address@
                &&& b@.tick == tick@
                &&& b@.balance == self@[(address@, tick@)]
                &&& b.wf()
            },
    {
        match self.find(address, tick) {
            Some(i) => Some(&self.rows[i]),
            None => None,
        }
    }

    /// All materialized balances: one row for each holding of the ledger, in
    /// the order in which entries first touched the holdings.
    pub fn balances(&self) -> (rows: Vec<UserBalance>)
        requires
            self.wf(),
        ensures
            rows.len() == self.holdings().len(),
            forall|i: int|
                0 <= i < rows.len() ==> {
                    &&& holding_of((#[trigger] rows[i])@) == self.holdings()[i]
                    &&& self@.contains_key(self.holdings()[i])
                    &&& rows[i]@.balance == self@[self.holdings()[i]]
                    &&& rows[i].wf()
                },
    {
        let mut rows: Vec<UserBalance> = Vec::new();
        let mut i: usize = 0;
        while i < self.rows.len()
            invariant
                self.wf(),
                i <= self.rows.len(),
                rows.len() == i,
                forall|k: int| 0 <= k < i ==> (#[trigger] rows[k]) == self.rows[k],
            decreases self.rows.len() - i,
        {
            rows.push(self.rows[i].clone());
            i = i + 1;
        }
        proof {
            assert forall|k: int| 0 <= k < rows.len() implies {
                &&& holding_of((#[trigger] rows[k])@) == self.holdings()[k]
                &&& self@.contains_key(self.holdings()[k])
                &&& rows[k]@.balance == self@[self.holdings()[k]]
                &&& rows[k].wf()
            } by {
                assert(self.rows[k].wf());
            }
        }
        rows
    }

    /// Applies one entry to the balances of its address in its ticker, which
    /// start at zero if no entry has touched them before. Where a balance
    /// would leave the range of a signed 128-bit integer, the ledger is left
    /// as it was.
    pub fn apply_entry(&mut self, entry: &UserBalanceEntry) -> (r: Result<(), BalanceError>)
        requires
            old(self).wf(),
        ensures
            final(self).wf(),
            match ledger_step(old(self)@, entry@) {
                Some(m) => {
                    &&& r.is_ok()
                    &&& final(self)@ == m
                    &&& final(self).holdings() == holdings_step(old(self).holdings(), entry@)
                },
                None => {
                    &&& r.is_err()
                    &&& final(self)@ == old(self)@
                    &&& final(self).holdings() == old(self).holdings()
                },
            },
    {
        let ghost a: Seq<char> = entry.address@;
        let ghost t: Seq<char> = entry.tick@;
        let ghost before: Map<Holding, Balance> = self@;
        proof {
            self.lemma_holdings();
        }
        match self.find(entry.address.as_str(), entry.tick.as_str()) {
            Some(i) => {
                let r = self.rows[i].apply(entry.entry_type, entry.amount);
                proof {
                    assert forall|k: int| 0 <= k < self.rows.len() implies {
                        &&& self.index@.contains_key((#[trigger] self.rows[k])@.address)
                        &&& self.index@[self.rows[k]@.address]@.contains_key(self.rows[k]@.tick)
                        &&& self.index@[self.rows[k]@.address]@[self.rows[k]@.tick] == k
                        &&& self.rows[k].wf()
                    } by {
                        assert(old(self).rows[k].wf());
                    }
                    assert(self.holdings() =~= old(self).holdings());
                    if r.is_ok() {
                        assert(self@ =~= before.insert((a, t), entry_result(before, entry@)));
                    } else {
                        assert(self@ =~= before);
                    }
                }
                r
            },
            None => {
                let mut balance = UserBalance::new(entry.address.clone(), entry.tick.clone());
                match balance.apply(entry.entry_type, entry.amount) {
                    Ok(()) => {
                        let n: usize = self.rows.len();
                        self.rows.push(balance);
                        if self.index.contains_key(entry.address.as_str()) {
                            let of_address: &mut StringTable<usize> = self.index.get_mut(
                                entry.address.as_str(),
                            ).unwrap();
                            of_address.insert(entry.tick.clone(), n);
                        } else {
                            let mut of_address: StringTable<usize> = StringTable::new();
                            of_address.insert(entry.tick.clone(), n);
                            self.index.insert(entry.address.clone(), of_address);
                        }
                        proof {
                            assert(self.index@[a]@.contains_key(t));
                            assert forall|x: Seq<char>, y: Seq<char>|
                                self.index@.contains_key(x) && #[trigger] self.index@[x]@.contains_key(
                                    y,
                                ) implies {
                                &&& self.index@[x]@[y] < self.rows.len()
                                &&& self.rows[self.index@[x]@[y] as int]@.address == x
                                &&& self.rows[self.index@[x]@[y] as int]@.tick == y
                            } by {
                                if x != a || y != t {
                                    assert(old(self).index@.contains_key(x));
                                    assert(old(self).index@[x]@.contains_key(y));
                                }
                            }
                            assert forall|k: int| 0 <= k < self.rows.len() implies {
                                &&& self.index@.contains_key((#[trigger] self.rows[k])@.address)
                                &&& self.index@[self.rows[k]@.address]@.contains_key(
                                    self.rows[k]@.tick,
                                )
                                &&& self.index@[self.rows[k]@.address]@[self.rows[k]@.tick] == k
                                &&& self.rows[k].wf()
                            } by {
                                if k < n {
                                    assert(old(self).rows[k].wf());
                                }
                            }
                            assert(self@ =~= before.insert((a, t), entry_result(before, entry@)));
                            assert(self.holdings() =~= old(self).holdings().push((a, t)));
                        }
                        Ok(())
                    },
                    Err(e) => Err(e),
                }
            },
        }
    }

    /// The ledger that the history `entries` leaves when it is applied, first
    /// entry to last, to a ledger without balances. It is a function of the
    /// history alone, so rebuilding twice from one history gives the same
    /// balances in the same order.
    pub fn rebuild(entries: &Vec<UserBalanceEntry>) -> (r: Result<BalanceLedger, BalanceError>)
        ensures
            match replay(entry_views(entries@)) {
                Some(m) => {
                    &&& r matches Ok(ledger)
                    &&& ledger.wf()
                    &&& ledger@ == m
                    &&& ledger.holdings() == replay_holdings(entry_views(entries@))
                },
                None => r.is_err(),
            },
    {
        let ghost views: Seq<EntryView> = entry_views(entries@);
        let mut ledger = BalanceLedger::new();
        let mut i: usize = 0;
        while i < entries.len()
            invariant
                i <= entries.len(),
                views == entry_views(entries@),
                ledger.wf(),
                replay(views.take(i as int)) == Some(ledger@),
                ledger.holdings() == replay_holdings(views.take(i as int)),
            decreases entries.len() - i,
        {
            proof {
                assert(views.take(i + 1).drop_last() =~= views.take(i as int));
                assert(views.take(i + 1).last() == entries[i as int]@);
            }
            match ledger.apply_entry(&entries[i]) {
                Ok(()) => {},
                Err(e) => {
                    proof {
                        lemma_replay_prefix_fails(views, i + 1);
                    }
                    return Err(e);
                },
            }
            i = i + 1;
        }
        assert(views.take(i as int) =~= views);
        Ok(ledger)
    }
}

/// One more entry keeps every holding consistent.
pub proof fn lemma_ledger_step_consistent(m: Map<Holding, Balance>, e: EntryView)
    requires
        all_consistent(m),
    ensures
        ledger_step(m, e) matches Some(after) ==> all_consistent(after),
{
}

/// After any sequence of entries every holding is consistent: its overall
/// balance is the sum of its available and its transferable balance.
pub proof fn lemma_apply_all_consistent(start: Map<Holding, Balance>, entries: Seq<EntryView>)
    requires
        all_consistent(start),
    ensures
        apply_all(Some(start), entries) matches Some(after) ==> all_consistent(after),
    decreases entries.len(),
{
    if entries.len() != 0 {
        lemma_ledger_step_consistent(start, entries[0]);
        match ledger_step(start, entries[0]) {
            Some(next) => {
                lemma_apply_all_consistent(next, entries.drop_first());
            },
            None => {
                lemma_apply_all_none(entries.drop_first());
            },
        }
    }
}

/// Nothing is applied to a ledger that has failed.
pub proof fn lemma_apply_all_none(entries: Seq<EntryView>)
    ensures
        apply_all(None, entries).is_none(),
{
}

/// Applying a history and then one more entry is applying the history with
/// that entry at its end.
pub proof fn lemma_apply_all_push(
    start: Option<Map<Holding, Balance>>,
    entries: Seq<EntryView>,
    e: EntryView,
)
    ensures
        apply_all(start, entries.push(e)) == match apply_all(start, entries) {
            Some(m) => ledger_step(m, e),
            None => None,
        },
    decreases entries.len(),
{
    let longer = entries.push(e);
    match start {
        Some(m) => {
            if entries.len() == 0 {
                assert(longer.drop_first() =~= Seq::<EntryView>::empty());
                assert(longer[0] == e);
                assert(apply_all(ledger_step(m, e), longer.drop_first()) == ledger_step(m, e));
                assert(apply_all(start, longer) == ledger_step(m, e));
            } else {
                assert(longer[0] == entries[0]);
                assert(longer.drop_first() =~= entries.drop_first().push(e));
                lemma_apply_all_push(ledger_step(m, entries[0]), entries.drop_first(), e);
                assert(apply_all(start, longer) == apply_all(
                    ledger_step(m, entries[0]),
                    longer.drop_first(),
                ));
            }
        },
        None => {
            lemma_apply_all_none(entries);
            lemma_apply_all_none(longer);
        },
    }
}

/// Rebuilding from a history gives what applying its entries one by one to
/// an empty ledger gives.
pub proof fn lemma_replay_is_incremental(entries: Seq<EntryView>)
    ensures
        replay(entries) == apply_all(Some(Map::<Holding, Balance>::empty()), entries),
    decreases entries.len(),
{
    if entries.len() != 0 {
        let shorter = entries.drop_last();
        lemma_replay_is_incremental(shorter);
        lemma_apply_all_push(Some(Map::<Holding, Balance>::empty()), shorter, entries.last());
        assert(shorter.push(entries.last()) =~= entries);
    }
}

/// A ledger rebuilt from a history, brought up to date entry by entry with
/// what came after, is the ledger rebuilt from the longer history.
pub proof fn lemma_rebuild_then_apply(history: Seq<EntryView>, later: Seq<EntryView>)
    ensures
        replay(history + later) == apply_all(replay(history), later),
    decreases later.len(),
{
    if later.len() == 0 {
        assert(history + later =~= history);
    } else {
        let shorter = later.drop_last();
        lemma_rebuild_then_apply(history, shorter);
        assert((history + later).drop_last() =~= history + shorter);
        assert((history + later).last() == later.last());
        lemma_apply_all_push(replay(history), shorter, later.last());
        assert(shorter.push(later.last()) =~= later);
    }
}

/// The holdings that a history touches are distinct, and they are those that
/// have balances in the ledger rebuilt from it.
pub proof fn lemma_replay_holdings(entries: Seq<EntryView>)
    ensures
        holdings_distinct(replay_holdings(entries)),
        replay(entries) matches Some(m) ==> forall|h: Holding|
            m.contains_key(h) <==> replay_holdings(entries).contains(h),
    decreases entries.len(),
{
    if entries.len() != 0 {
        let shorter = entries.drop_last();
        let e = entries.last();
        let h0: Holding = (e.address, e.tick);
        lemma_replay_holdings(shorter);
        let hs = replay_holdings(shorter);
        let after = replay_holdings(entries);
        if !hs.contains(h0) {
            assert forall|i: int, j: int|
                0 <= i < after.len() && 0 <= j < after.len() && i != j implies after[i]
                != after[j] by {
                if i < hs.len() {
                    assert(hs[i] == after[i]);
                }
                if j < hs.len() {
                    assert(hs[j] == after[j]);
                }
            }
        }
        match replay(entries) {
            Some(m) => {
                let before = replay(shorter)->0;
                assert forall|h: Holding| m.contains_key(h) <==> after.contains(h) by {
                    if after.contains(h) {
                        let i = choose|i: int| 0 <= i < after.len() && after[i] == h;
                        if i < hs.len() {
                            assert(hs[i] == h);
                        }
                    }
                    if m.contains_key(h) {
                        if h == h0 {
                            if hs.contains(h0) {
                            } else {
                                assert(after[hs.len() as int] == h0);
                            }
                        } else {
                            assert(before.contains_key(h));
                            let i = choose|i: int| 0 <= i < hs.len() && hs[i] == h;
                            assert(after[i] == h);
                        }
                    }
                }
            },
            None => {},
        }
    }
}

/// Two ledgers rebuilt from one history hold the same balances.
pub proof fn lemma_rebuild_repeatable(
    entries: Seq<EntryView>,
    first: Map<Holding, Balance>,
    second: Map<Holding, Balance>,
)
    requires
        replay(entries) == Some(first),
        replay(entries) == Some(second),
    ensures
        first == second,
{
}

/// In a ledger rebuilt from any history every holding is consistent.
pub proof fn lemma_replay_consistent(entries: Seq<EntryView>)
    ensures
        replay(entries) matches Some(m) ==> all_consistent(m),
{
    lemma_replay_is_incremental(entries);
    lemma_apply_all_consistent(Map::<Holding, Balance>::empty(), entries);
}

/// A history of which a beginning cannot be applied cannot be applied.
pub proof fn lemma_replay_prefix_fails(entries: Seq<EntryView>, n: int)
    requires
        0 <= n <= entries.len(),
        replay(entries.take(n)).is_none(),
    ensures
        replay(entries).is_none(),
    decreases entries.len() - n,
{
    if n < entries.len() {
        assert(entries.take(n + 1).drop_last() =~= entries.take(n));
        lemma_replay_prefix_fails(entries, n + 1);
    } else {
        assert(entries.take(n) =~= entries);
    }
}

} // verus!
