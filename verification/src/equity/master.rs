//! The per-ticker orchestrator: one strategy runner per ticker, fed bars in
//! strictly increasing timestamp order.
//!
//! Each ticker has a logical clock of its own. A bar that is not newer than
//! the last bar of its ticker is rejected and changes nothing; bars of
//! different tickers may interleave freely.

use crate::backtest::context::TickerContext;
use crate::types::ohlcv::Row;
use vstd::prelude::*;

verus! {

/// Errors that can occur during equity tracking.
#[derive(Debug)]
pub enum EquityTrackerError {
    /// A bar was not newer than the last bar of its ticker.
    TimestampOrderViolation { ticker: String, current: i64, previous: i64 },
}

/// What consumes the bars of one ticker.
pub trait StrategyRunner: Sized {
    /// The runner's internal state is consistent.
    spec fn wf(&self) -> bool;

    /// Whether the runner takes a bar stamped `timestamp`.
    spec fn spec_accepts(&self, timestamp: i64) -> bool;

    /// `next` is this runner after it has taken `row`.
    spec fn spec_fed(&self, next: &Self, row: Row) -> bool;

    /// `other` is a runner of the same configuration that has seen no bar.
    spec fn spec_cleared(&self, other: &Self) -> bool;

    /// Takes a bar. Afterwards the runner takes every bar that is not stamped
    /// earlier than this one.
    fn update(&mut self, row: &Row)
        requires
            old(self).wf(),
            old(self).spec_accepts(row.timestamp),
        ensures
            final(self).wf(),
            old(self).spec_fed(final(self), *row),
            forall|t: i64| t >= row.timestamp ==> #[trigger] final(self).spec_accepts(t),
    ;

    /// A runner of the same configuration that has seen no bar. It takes any
    /// bar.
    fn fresh(&self) -> (r: Self)
        requires
            self.wf(),
        ensures
            r.wf(),
            self.spec_cleared(&r),
            forall|t: i64| #[trigger] r.spec_accepts(t),
    ;
}

impl StrategyRunner for TickerContext {
    open spec fn wf(&self) -> bool {
        TickerContext::wf(self)
    }

    open spec fn spec_accepts(&self, timestamp: i64) -> bool {
        TickerContext::spec_accepts(self, timestamp)
    }

    open spec fn spec_fed(&self, next: &Self, row: Row) -> bool {
        TickerContext::spec_fed(self, next, row)
    }

    open spec fn spec_cleared(&self, other: &Self) -> bool {
        TickerContext::spec_cleared(self, other)
    }

    fn update(&mut self, row: &Row) {
        TickerContext::update(self, row);
        proof {
            assert forall|t: i64| t >= row.timestamp implies #[trigger] TickerContext::spec_accepts(
                self,
                t,
            ) by {
                assert forall|i: int| 0 <= i < self.indicators@.len() implies (
                #[trigger] self.indicators@[i]).1.spec_accepts(t) by {
                    assert(self.indicators@[i].1.spec_accepts_from(row.timestamp));
                }
            }
        }
    }

    fn fresh(&self) -> (r: Self) {
        let mut indicators: Vec<(String, crate::indicators::indicator::Indicator)> = Vec::new();
        let n: usize = self.indicators.len();
        let mut i: usize = 0;
        while i < n
            invariant
                n == self.indicators@.len(),
                i <= n,
                TickerContext::wf(self),
                indicators@.len() == i,
                forall|k: int| 0 <= k < i ==> (#[trigger] indicators@[k]).0@ == self.indicators@[k].0@,
                forall|k: int|
                    0 <= k < i ==> self.indicators@[k].1.spec_cleared(
                        &(#[trigger] indicators@[k]).1,
                    ),
                forall|k: int| 0 <= k < i ==> (#[trigger] indicators@[k]).1.wf(),
                forall|k: int, t: i64| 0 <= k < i ==> #[trigger] indicators@[k].1.spec_accepts(t),
            decreases n - i,
        {
            let name: String = self.indicators[i].0.clone();
            let indicator = self.indicators[i].1.fresh();
            indicators.push((name, indicator));
            i = i + 1;
        }
        let r = TickerContext { ticker: self.ticker.clone(), indicators, latest_row: None };
        proof {
            assert forall|a: int, b: int| 0 <= a < b < r.indicators@.len() implies (
            #[trigger] r.indicators@[a]).0@ != (#[trigger] r.indicators@[b]).0@ by {
                assert(self.indicators@[a].0@ != self.indicators@[b].0@);
            }
        }
        r
    }
}

/// Data tracked for a single ticker.
pub struct TickerData<R: StrategyRunner> {
    /// The strategy runner of this ticker.
    pub strategy: R,
    /// Last timestamp processed.
    pub last_timestamp: Option<i64>,
}

impl<R: StrategyRunner> TickerData<R> {
    /// The runner is consistent and takes every bar newer than the last one.
    pub open spec fn wf(&self) -> bool {
        &&& self.strategy.wf()
        &&& match self.last_timestamp {
            Some(last) => forall|t: i64| t > last ==> #[trigger] self.strategy.spec_accepts(t),
            None => forall|t: i64| #[trigger] self.strategy.spec_accepts(t),
        }
    }

    /// Whether a bar stamped `timestamp` is rejected: it is not newer than
    /// the last bar.
    pub open spec fn spec_rejects(&self, timestamp: i64) -> bool {
        match self.last_timestamp {
            Some(last) => timestamp <= last,
            None => false,
        }
    }

    pub fn new(strategy: R) -> (r: Self)
        requires
            strategy.wf(),
            forall|t: i64| #[trigger] strategy.spec_accepts(t),
        ensures
            r.wf(),
            r.strategy == strategy,
            r.last_timestamp.is_none(),
    {
        TickerData { strategy, last_timestamp: None }
    }

    /// Feeds a bar to the runner, unless the bar is not newer than the last
    /// one: then the bar is rejected and nothing changes.
    pub fn update(&mut self, row: &Row) -> (r: Result<(), EquityTrackerError>)
        requires
            old(self).wf(),
        ensures
            old(self).spec_rejects(row.timestamp) ==> *final(self) == *old(self) && (
            r matches Err(EquityTrackerError::TimestampOrderViolation { ticker, current, previous })
                && ticker@ == row.ticker@ && current == row.timestamp && Some(previous) == old(self).last_timestamp),
            !old(self).spec_rejects(row.timestamp) ==> r.is_ok() && final(self).wf() && final(self).last_timestamp == Some(row.timestamp) && old(self).strategy.spec_fed(
                &final(self).strategy,
                *row,
            ),
    {
        if let Some(prev_ts) = self.last_timestamp {
            if row.timestamp <= prev_ts {
                return Err(
                    EquityTrackerError::TimestampOrderViolation {
                        ticker: row.ticker.clone(),
                        current: row.timestamp,
                        previous: prev_ts,
                    },
                );
            }
        }
        self.strategy.update(row);
        self.last_timestamp = Some(row.timestamp);
        Ok(())
    }
}

/// The master data storage: the runner and the clock of every ticker.
pub struct EquityTracker<R: StrategyRunner> {
    /// Ticker symbol and data, in the order in which the tickers were first
    /// seen.
    tickers: Vec<(String, TickerData<R>)>,
    /// The runner from which the runner of each new ticker is made.
    factory: R,
}

/// `i` is the first index of `ticker`.
pub open spec fn is_ticker_index<R: StrategyRunner>(
    tickers: Seq<(String, TickerData<R>)>,
    ticker: Seq<char>,
    i: int,
) -> bool {
    &&& 0 <= i < tickers.len()
    &&& tickers[i].0@ == ticker
    &&& forall|j: int| 0 <= j < i ==> (#[trigger] tickers[j]).0@ != ticker
}

impl<R: StrategyRunner> EquityTracker<R> {
    /// The tracked tickers with their data.
    pub closed spec fn spec_entries(&self) -> Seq<(String, TickerData<R>)> {
        self.tickers@
    }

    /// The runner from which new runners are made.
    pub closed spec fn spec_factory(&self) -> R {
        self.factory
    }

    /// Whether `ticker` is tracked.
    pub open spec fn spec_has_ticker(&self, ticker: Seq<char>) -> bool {
        exists|i: int| is_ticker_index(self.spec_entries(), ticker, i)
    }

    /// The data of `ticker`.
    pub open spec fn spec_data(&self, ticker: Seq<char>) -> TickerData<R>
        recommends
            self.spec_has_ticker(ticker),
    {
        self.spec_entries()[choose|i: int| is_ticker_index(self.spec_entries(), ticker, i)].1
    }

    /// The timestamp of the last bar that was accepted for `ticker`.
    pub open spec fn spec_last_timestamp(&self, ticker: Seq<char>) -> Option<i64> {
        if self.spec_has_ticker(ticker) {
            self.spec_data(ticker).last_timestamp
        } else {
            None
        }
    }

    /// Whether a bar is rejected: its ticker has seen a bar that is not older.
    pub open spec fn spec_rejects(&self, row: Row) -> bool {
        match self.spec_last_timestamp(row.ticker@) {
            Some(last) => row.timestamp <= last,
            None => false,
        }
    }

    /// The runner of the ticker of `row` in `next` is the runner that this
    /// tracker had for the ticker, or a new runner made from the factory if
    /// the ticker is new, after it has taken `row`.
    pub open spec fn spec_took(&self, next: &Self, row: Row) -> bool {
        if self.spec_has_ticker(row.ticker@) {
            self.spec_data(row.ticker@).strategy.spec_fed(
                &next.spec_data(row.ticker@).strategy,
                row,
            )
        } else {
            exists|made: R|
                #![auto]
                self.spec_factory().spec_cleared(&made) && made.spec_fed(
                    &next.spec_data(row.ticker@).strategy,
                    row,
                )
        }
    }

    /// Every ticker occurs once, and the data of every ticker is consistent.
    pub open spec fn wf(&self) -> bool {
        &&& self.spec_factory().wf()
        &&& forall|i: int|
            0 <= i < self.spec_entries().len() ==> (#[trigger] self.spec_entries()[i]).1.wf()
        &&& forall|i: int, j: int|
            0 <= i < j < self.spec_entries().len() ==> (#[trigger] self.spec_entries()[i]).0@ != (
            #[trigger] self.spec_entries()[j]).0@
    }

    /// Create a new equity tracker that makes the runner of each ticker from
    /// `factory`.
    pub fn new(factory: R) -> (r: Self)
        requires
            factory.wf(),
        ensures
            r.wf(),
            r.spec_entries().len() == 0,
            r.spec_factory() == factory,
    {
        EquityTracker { tickers: Vec::new(), factory }
    }

    /// The index of `ticker` among the tracked tickers.
    fn find(&self, ticker: &String) -> (r: Option<usize>)
        ensures
            match r {
                Some(i) => is_ticker_index(self.tickers@, ticker@, i as int),
                None => forall|j: int|
                    0 <= j < self.tickers@.len() ==> (#[trigger] self.tickers@[j]).0@ != ticker@,
            },
    {
        let n: usize = self.tickers.len();
        let mut i: usize = 0;
        while i < n
            invariant
                n == self.tickers@.len(),
                i <= n,
                forall|j: int| 0 <= j < i ==> (#[trigger] self.tickers@[j]).0@ != ticker@,
            decreases n - i,
        {
            if self.tickers[i].0 == *ticker {
                return Some(i);
            }
            i = i + 1;
        }
        None
    }

    /// Process a single bar.
    ///
    /// A bar whose ticker has already seen a bar that is not older is
    /// rejected, and the tracker stays exactly as it was. Otherwise the bar
    /// goes to the runner of its ticker, which is created on the first bar of
    /// the ticker; the data of every other ticker stays as it was.
    #[verifier::rlimit(50)]
    pub fn process_row(&mut self, row: &Row) -> (r: Result<(), EquityTrackerError>)
        requires
            old(self).wf(),
        ensures
            final(self).wf(),
            final(self).spec_factory() == old(self).spec_factory(),
            old(self).spec_rejects(*row) ==> *final(self) == *old(self) && (
            r matches Err(EquityTrackerError::TimestampOrderViolation { ticker, current, previous })
                && ticker@ == row.ticker@ && current == row.timestamp && Some(previous) == old(self).spec_last_timestamp(row.ticker@)),
            !old(self).spec_rejects(*row) ==> {
                &&& r.is_ok()
                &&& final(self).spec_last_timestamp(row.ticker@) == Some(row.timestamp)
                &&& old(self).spec_took(final(self), *row)
                &&& final(self).spec_entries().len() == old(self).spec_entries().len() + (if old(self).spec_has_ticker(row.ticker@) {
                    0int
                } else {
                    1int
                })
                &&& forall|i: int|
                    0 <= i < old(self).spec_entries().len() ==> (
                    #[trigger] final(self).spec_entries()[i]).0@ == old(self).spec_entries()[i].0@
                        && (old(self).spec_entries()[i].0@ != row.ticker@ ==> final(self).spec_entries()[i] == old(self).spec_entries()[i])
            },
    {
        let found: Option<usize> = self.find(&row.ticker);
        let index: usize = match found {
            Some(i) => {
                proof {
                    lemma_ticker_index_unique(self.tickers@, row.ticker@, i as int);
                }
                if let Some(prev_ts) = self.tickers[i].1.last_timestamp {
                    if row.timestamp <= prev_ts {
                        return Err(
                            EquityTrackerError::TimestampOrderViolation {
                                ticker: row.ticker.clone(),
                                current: row.timestamp,
                                previous: prev_ts,
                            },
                        );
                    }
                }
                i
            },
            None => {
                let strategy: R = self.factory.fresh();
                let data = TickerData::new(strategy);
                self.tickers.push((row.ticker.clone(), data));
                proof {
                    let i = (self.tickers@.len() - 1) as int;
                    assert forall|k: int| 0 <= k < i implies (#[trigger] self.tickers@[k])
                        == old(self).tickers@[k] by {}
                    assert(!old(self).spec_has_ticker(row.ticker@)) by {
                        if old(self).spec_has_ticker(row.ticker@) {
                            let k = choose|k: int|
                                is_ticker_index(old(self).spec_entries(), row.ticker@, k);
                            assert(old(self).tickers@[k].0@ != row.ticker@);
                        }
                    }
                    assert(is_ticker_index(self.tickers@, row.ticker@, i));
                    lemma_ticker_index_unique(self.tickers@, row.ticker@, i);
                }
                self.tickers.len() - 1
            },
        };
        let ghost before = self.tickers@;
        assert(!before[index as int].1.spec_rejects(row.timestamp));
        assert(!old(self).spec_rejects(*row));
        let r = self.tickers[index].1.update(row);
        proof {
            assert forall|k: int| 0 <= k < before.len() && k != index implies self.tickers@[k]
                == before[k] by {}
            assert(self.tickers@[index as int].0 == before[index as int].0);
            assert(is_ticker_index(self.tickers@, row.ticker@, index as int)) by {
                assert forall|j: int| 0 <= j < index implies (#[trigger] self.tickers@[j]).0@
                    != row.ticker@ by {
                    assert(self.tickers@[j] == before[j]);
                }
            }
            lemma_ticker_index_unique(self.tickers@, row.ticker@, index as int);
            assert forall|i: int, j: int| 0 <= i < j < self.tickers@.len() implies (
            #[trigger] self.tickers@[i]).0@ != (#[trigger] self.tickers@[j]).0@ by {
                assert(before[i].0@ != before[j].0@);
            }
        }
        r
    }

    /// Check if a ticker is being tracked.
    pub fn has_ticker(&self, ticker: &str) -> (r: bool)
        ensures
            r == self.spec_has_ticker(ticker@),
    {
        let key: String = ticker.to_owned();
        match self.find(&key) {
            Some(i) => {
                proof {
                    assert(key@ == ticker@);
                    assert(is_ticker_index(self.spec_entries(), ticker@, i as int));
                }
                true
            },
            None => {
                proof {
                    if self.spec_has_ticker(ticker@) {
                        let k = choose|k: int| is_ticker_index(self.spec_entries(), ticker@, k);
                        assert(self.tickers@[k].0@ != ticker@);
                    }
                }
                false
            },
        }
    }

    /// The number of tickers being tracked.
    pub fn ticker_count(&self) -> (r: usize)
        ensures
            r == self.spec_entries().len(),
    {
        self.tickers.len()
    }

    /// All ticker symbols being tracked, in the order in which they were
    /// first seen.
    pub fn tickers(&self) -> (r: Vec<String>)
        ensures
            r@.len() == self.spec_entries().len(),
            forall|i: int| 0 <= i < r@.len() ==> (#[trigger] r@[i])@ == self.spec_entries()[i].0@,
    {
        let mut out: Vec<String> = Vec::new();
        let n: usize = self.tickers.len();
        let mut i: usize = 0;
        while i < n
            invariant
                n == self.tickers@.len(),
                i <= n,
                out@.len() == i,
                forall|k: int| 0 <= k < i ==> (#[trigger] out@[k])@ == self.tickers@[k].0@,
            decreases n - i,
        {
            out.push(self.tickers[i].0.clone());
            i = i + 1;
        }
        out
    }

    /// The last processed timestamp for a ticker.
    pub fn last_timestamp(&self, ticker: &str) -> (r: Option<i64>)
        ensures
            r == self.spec_last_timestamp(ticker@),
    {
        let key: String = ticker.to_owned();
        match self.find(&key) {
            Some(i) => {
                proof {
                    lemma_ticker_index_unique(self.tickers@, ticker@, i as int);
                }
                self.tickers[i].1.last_timestamp
            },
            None => {
                proof {
                    if self.spec_has_ticker(ticker@) {
                        let k = choose|k: int| is_ticker_index(self.spec_entries(), ticker@, k);
                        assert(self.tickers@[k].0@ != ticker@);
                    }
                }
                None
            },
        }
    }
}

/// A ticker has one first index only.
pub proof fn lemma_ticker_index_unique<R: StrategyRunner>(
    tickers: Seq<(String, TickerData<R>)>,
    ticker: Seq<char>,
    i: int,
)
    requires
        is_ticker_index(tickers, ticker, i),
    ensures
        (choose|k: int| is_ticker_index(tickers, ticker, k)) == i,
        exists|k: int| is_ticker_index(tickers, ticker, k),
{
    let k = choose|k: int| is_ticker_index(tickers, ticker, k);
    if k < i {
        assert(tickers[k].0@ != ticker);
    }
    if i < k {
        assert(tickers[i].0@ != ticker);
    }
}

} // verus!
