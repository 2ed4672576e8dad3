//! Reconciliation: the total minted of a ticker, computed anew from the
//! records of accepted mints, to be held against the total that was kept
//! while the mints were accepted.

use vstd::prelude::*;
use crate::brc20_ticker::{credited_sum, ticker_sound, Brc20Ticker, TickerView};
use crate::inscription::same_text;
use crate::mint::{record_of, MintRecord, MintRecordView, MintTxView};

verus! {

/// The mint records of a vector as plain values.
pub open spec fn record_views(records: Seq<MintRecord>) -> Seq<MintRecordView> {
    Seq::new(records.len(), |i: int| records[i]@)
}

/// The records of a list of mints.
pub open spec fn records_of(mints: Seq<MintTxView>) -> Seq<MintRecordView> {
    Seq::new(mints.len(), |i: int| record_of(mints[i]))
}

/// What a mint record credits to the ticker `tick`: its amount if it is a
/// mint of that ticker, and nothing otherwise.
pub open spec fn credit_to(tick: Seq<char>, record: MintRecordView) -> nat {
    if record.tick == tick {
        record.amount as nat
    } else {
        0
    }
}

/// What the records of mints of the ticker `tick` among `records` credit
/// together. These are the amounts credited, which for the last mints of a
/// ticker may be less than the amounts asked for.
pub open spec fn credited_to(tick: Seq<char>, records: Seq<MintRecordView>) -> nat
    decreases records.len(),
{
    if records.len() == 0 {
        0
    } else {
        credited_to(tick, records.drop_last()) + credit_to(tick, records.last())
    }
}

/// The first records of a list credit no more than the whole list.
pub proof fn lemma_credited_to_prefix(tick: Seq<char>, records: Seq<MintRecordView>, n: int)
    requires
        0 <= n <= records.len(),
    ensures
        credited_to(tick, records.take(n)) <= credited_to(tick, records),
    decreases records.len() - n,
{
    if n < records.len() {
        assert(records.take(n + 1).drop_last() =~= records.take(n));
        lemma_credited_to_prefix(tick, records, n + 1);
    } else {
        assert(records.take(n) =~= records);
    }
}

/// The total kept with a ticker is what the records of its mints credit to
/// it.
pub proof fn lemma_total_is_credited(t: TickerView)
    requires
        ticker_sound(t),
    ensures
        credited_to(t.tick, records_of(t.mints)) == t.total_minted,
{
    lemma_credited_to_is_sum(t.tick, t.mints);
}

/// Where every mint of a list is a mint of the ticker, what their records
/// credit to it is the sum of their amounts.
pub proof fn lemma_credited_to_is_sum(tick: Seq<char>, mints: Seq<MintTxView>)
    requires
        forall|i: int| 0 <= i < mints.len() ==> (#[trigger] mints[i]).mint.tick == tick,
    ensures
        credited_to(tick, records_of(mints)) == credited_sum(mints),
    decreases mints.len(),
{
    if mints.len() != 0 {
        let shorter = mints.drop_last();
        assert forall|i: int| 0 <= i < shorter.len() implies (#[trigger] shorter[i]).mint.tick
            == tick by {
            assert(shorter[i] == mints[i]);
        }
        lemma_credited_to_is_sum(tick, shorter);
        assert(mints.last() == mints[mints.len() - 1]);
        assert(records_of(mints).drop_last() =~= records_of(shorter));
    }
}

/// The total minted of the ticker `tick` as the mint records give it: the
/// sum of what its mints were credited with. `None` where the sum does not
/// fit in 128 bits.
pub fn total_credited(tick: &str, records: &Vec<MintRecord>) -> (r: Option<u128>)
    ensures
        match r {
            Some(total) => total == credited_to(tick@, record_views(records@)),
            None => credited_to(tick@, record_views(records@)) > u128::MAX,
        },
{
    let ghost views: Seq<MintRecordView> = record_views(records@);
    let mut total: u128 = 0;
    let mut i: usize = 0;
    while i < records.len()
        invariant
            i <= records.len(),
            views == record_views(records@),
            total == credited_to(tick@, views.take(i as int)),
        decreases records.len() - i,
    {
        proof {
            assert(views.take(i + 1).drop_last() =~= views.take(i as int));
            assert(views.take(i + 1).last() == records[i as int]@);
        }
        let record: &MintRecord = &records[i];
        if same_text(record.tick.as_str(), tick) {
            match total.checked_add(record.amount) {
                Some(sum) => {
                    total = sum;
                },
                None => {
                    proof {
                        lemma_credited_to_prefix(tick@, views, i + 1);
                    }
                    return None;
                },
            }
        }
        i = i + 1;
    }
    assert(views.take(i as int) =~= views);
    Some(total)
}

/// Whether the total kept with `ticker` is what the mint records credit to
/// it.
pub fn total_matches(ticker: &Brc20Ticker, records: &Vec<MintRecord>) -> (r: bool)
    ensures
        r == (credited_to(ticker@.tick, record_views(records@)) == ticker@.total_minted),
{
    match total_credited(ticker.get_tick().as_str(), records) {
        Some(total) => total == ticker.get_total_supply(),
        None => false,
    }
}

} // verus!
