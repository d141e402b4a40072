//! The engine that takes one bar at a time through indicators, strategy,
//! orders and portfolio.

use crate::backtest::context::TickerContext;
use crate::backtest::context::spec_values;
use crate::backtest::portfolio::{
    lemma_submit_changes_the_queue_only, logs_view, spec_scan, spec_submit, Portfolio,
    PortfolioView, ScanResult,
};
use crate::backtest::signal::Signal;
use crate::config::Config;
use crate::equity::master::EquityTrackerError;
use crate::strategy::Strategy;
use crate::types::log::{values_view, IndicatorValues, TradeLog};
use crate::types::ohlcv::Row;
use vstd::prelude::*;

verus! {

/// A backtest: the context and the strategy instance of every ticker, the
/// portfolio, and the trade logs so far.
pub struct BacktestEngine<S: Strategy> {
    /// The context of each ticker, in the order in which the tickers were
    /// first seen.
    pub tickers: Vec<TickerContext>,
    pub portfolio: Portfolio,
    /// The strategy from which the instance of each new ticker is made.
    pub strategy_factory: S,
    /// The strategy instance of each ticker, in the order of `tickers`.
    pub strategies: Vec<S>,
    pub trade_logs: Vec<TradeLog>,
}

/// `i` is the first index of a context for `ticker`.
pub open spec fn is_context_index(tickers: Seq<TickerContext>, ticker: Seq<char>, i: int) -> bool {
    &&& 0 <= i < tickers.len()
    &&& tickers[i].ticker@ == ticker
    &&& forall|j: int| 0 <= j < i ==> (#[trigger] tickers[j]).ticker@ != ticker
}

/// The context takes every bar that is newer than its latest bar.
pub open spec fn context_ready(context: TickerContext) -> bool {
    &&& context.wf()
    &&& match context.latest_row {
        Some(latest) => forall|t: i64| t > latest.timestamp ==> #[trigger] context.spec_accepts(t),
        None => forall|t: i64| #[trigger] context.spec_accepts(t),
    }
}

/// What the portfolio and the new trade logs are after a bar for which the
/// strategy gave `signals` under the name `strategy_name`: the signals are
/// processed with the close and the timestamp of the bar and the values of
/// the fed indicators, then the queue is checked against the bar.
pub open spec fn pipeline(
    portfolio: PortfolioView,
    fed: TickerContext,
    row: Row,
    signals: Seq<Signal>,
    strategy_name: Seq<char>,
    ids: Seq<Seq<char>>,
) -> ScanResult {
    let submitted = spec_submit(
        portfolio,
        signals,
        row.close,
        row.timestamp,
        spec_values(fed.indicators@),
        strategy_name,
    );
    spec_scan(submitted, submitted.pending_orders, row, ids)
}

impl<S: Strategy> BacktestEngine<S> {
    /// Every ticker has one context and one strategy instance, every context
    /// is ready for the next bar of its ticker, and the portfolio holds at
    /// most one open position per ticker.
    pub open spec fn wf(&self) -> bool {
        &&& self.tickers@.len() == self.strategies@.len()
        &&& self.portfolio.wf()
        &&& forall|i: int| 0 <= i < self.tickers@.len() ==> context_ready(#[trigger] self.tickers@[i])
        &&& forall|i: int, j: int|
            0 <= i < j < self.tickers@.len() ==> (#[trigger] self.tickers@[i]).ticker@ != (
            #[trigger] self.tickers@[j]).ticker@
    }

    /// Whether `ticker` has been seen.
    pub open spec fn spec_has_ticker(&self, ticker: Seq<char>) -> bool {
        exists|i: int| is_context_index(self.tickers@, ticker, i)
    }

    /// The timestamp of the last bar that was accepted for `ticker`.
    pub open spec fn spec_last_timestamp(&self, ticker: Seq<char>) -> Option<i64> {
        if self.spec_has_ticker(ticker) {
            match self.tickers@[choose|i: int| is_context_index(self.tickers@, ticker, i)].latest_row {
                Some(latest) => Some(latest.timestamp),
                None => None,
            }
        } else {
            None
        }
    }

    /// Whether a bar is rejected: its ticker has seen a bar that is not older.
    pub open spec fn spec_rejects(&self, row: Row) -> bool {
        match self.spec_last_timestamp(row.ticker@) {
            Some(last) => row.timestamp <= last,
            None => false,
        }
    }

    /// `context` and `strategy` are what a bar of `ticker` meets: the context
    /// and the strategy instance that the engine holds for the ticker, or,
    /// for a ticker that has not been seen, a new instance of the strategy
    /// and the context that it has set up from an empty one.
    pub open spec fn spec_started(
        &self,
        ticker: Seq<char>,
        context: TickerContext,
        strategy: S,
    ) -> bool {
        if self.spec_has_ticker(ticker) {
            let i = choose|i: int| is_context_index(self.tickers@, ticker, i);
            &&& i < self.strategies@.len()
            &&& context == self.tickers@[i]
            &&& strategy == self.strategies@[i]
        } else {
            &&& self.strategy_factory.spec_fresh(&strategy)
            &&& exists|blank: TickerContext|
                {
                    &&& blank.ticker@ == ticker
                    &&& blank.indicators@.len() == 0
                    &&& blank.latest_row.is_none()
                    &&& #[trigger] strategy.spec_setup(blank, context)
                }
        }
    }

    /// `next` is this engine after the bar `row` went through the pipeline
    /// at place `i`: the indicators of `context` took the bar, `strategy`
    /// gave `signals` for the fed context, the portfolio processed the
    /// signals under the name `name` of the strategy and checked its queue
    /// against the bar, and the logs of the trades were appended. `ids` are
    /// the identifiers of the positions that were opened.
    pub open spec fn spec_processed(
        &self,
        next: &Self,
        row: Row,
        i: int,
        context: TickerContext,
        strategy: S,
        signals: Seq<Signal>,
        name: Seq<char>,
        ids: Seq<Seq<char>>,
    ) -> bool {
        let result = pipeline(self.portfolio@, next.tickers@[i], row, signals, name, ids);
        &&& is_context_index(next.tickers@, row.ticker@, i)
        &&& next.strategies@[i].spec_named(name)
        &&& i < next.strategies@.len()
        &&& self.spec_started(row.ticker@, context, strategy)
        &&& context.spec_fed(&next.tickers@[i], row)
        &&& strategy.spec_generated(&next.strategies@[i], next.tickers@[i], signals)
        &&& next.portfolio@ == result.state
        &&& logs_view(next.trade_logs@) == logs_view(self.trade_logs@) + result.logs
    }

    /// An engine without tickers, with a new portfolio for `config`.
    pub fn new(config: Config, strategy_factory: S) -> (r: Self)
        ensures
            r.wf(),
            r.tickers@.len() == 0,
            r.trade_logs@.len() == 0,
            r.portfolio@ == Portfolio::new_view(config),
            r.strategy_factory == strategy_factory,
    {
        BacktestEngine {
            tickers: Vec::new(),
            portfolio: Portfolio::new(&config),
            strategy_factory,
            strategies: Vec::new(),
            trade_logs: Vec::new(),
        }
    }

    /// The index of the context of `ticker`.
    fn find(&self, ticker: &String) -> (r: Option<usize>)
        ensures
            match r {
                Some(i) => is_context_index(self.tickers@, ticker@, i as int),
                None => forall|j: int|
                    0 <= j < self.tickers@.len() ==> (#[trigger] self.tickers@[j]).ticker@
                        != ticker@,
            },
    {
        let n: usize = self.tickers.len();
        let mut i: usize = 0;
        while i < n
            invariant
                n == self.tickers@.len(),
                i <= n,
                forall|j: int| 0 <= j < i ==> (#[trigger] self.tickers@[j]).ticker@ != ticker@,
            decreases n - i,
        {
            if self.tickers[i].ticker == *ticker {
                return Some(i);
            }
            i = i + 1;
        }
        None
    }

    /// Takes one bar through the whole pipeline.
    ///
    /// A bar whose ticker has already seen a bar that is not older is
    /// rejected: the engine stays exactly as it was, and no trade is logged.
    /// Otherwise the indicators of the ticker take the bar, the strategy of
    /// the ticker gives its signals to the portfolio, the pending orders are
    /// checked against the bar, and the logs of the executed trades are
    /// appended. The contexts of the other tickers stay as they were.
    #[verifier::rlimit(50)]
    pub fn process_row(&mut self, row: &Row) -> (r: Result<(), EquityTrackerError>)
        requires
            old(self).wf(),
        ensures
            final(self).wf(),
            old(self).spec_rejects(*row) ==> *final(self) == *old(self) && (
            r matches Err(EquityTrackerError::TimestampOrderViolation { ticker, current, previous })
                && ticker@ == row.ticker@ && current == row.timestamp && Some(previous) == old(self).spec_last_timestamp(row.ticker@)),
            !old(self).spec_rejects(*row) ==> {
                &&& r.is_ok()
                &&& final(self).spec_last_timestamp(row.ticker@) == Some(row.timestamp)
                &&& final(self).trade_logs@.len() >= old(self).trade_logs@.len()
                &&& forall|i: int|
                    0 <= i < old(self).trade_logs@.len() ==> (#[trigger] final(self).trade_logs@[i])
                        == old(self).trade_logs@[i]
                &&& final(self).strategy_factory == old(self).strategy_factory
                &&& forall|j: int|
                    0 <= j < old(self).strategies@.len() && old(self).tickers@[j].ticker@
                        != row.ticker@ ==> #[trigger] final(self).strategies@[j] == old(self).strategies@[j]
                &&& exists|
                    i: int,
                    context: TickerContext,
                    strategy: S,
                    signals: Seq<Signal>,
                    name: Seq<char>,
                    ids: Seq<Seq<char>>,
                |
                    #[trigger] old(self).spec_processed(
                        final(self),
                        *row,
                        i,
                        context,
                        strategy,
                        signals,
                        name,
                        ids,
                    )
                &&& final(self).tickers@.len() == old(self).tickers@.len() + (if old(self).spec_has_ticker(row.ticker@) {
                    0int
                } else {
                    1int
                })
                &&& forall|i: int|
                    0 <= i < old(self).tickers@.len() ==> (#[trigger] final(self).tickers@[i]).ticker
                        == old(self).tickers@[i].ticker && (old(self).tickers@[i].ticker@
                        != row.ticker@ ==> final(self).tickers@[i] == old(self).tickers@[i])
                &&& forall|i: int|
                    is_context_index(old(self).tickers@, row.ticker@, i) ==> old(self).tickers@[i].spec_fed(&(#[trigger] final(self).tickers@[i]), *row)
            },
    {
        let found: Option<usize> = self.find(&row.ticker);
        let index: usize = match found {
            Some(i) => {
                proof {
                    lemma_context_index_unique(self.tickers@, row.ticker@, i as int);
                }
                if let Some(latest) = &self.tickers[i].latest_row {
                    if row.timestamp <= latest.timestamp {
                        return Err(
                            EquityTrackerError::TimestampOrderViolation {
                                ticker: row.ticker.clone(),
                                current: row.timestamp,
                                previous: latest.timestamp,
                            },
                        );
                    }
                }
                i
            },
            None => {
                let mut context = TickerContext::new(row.ticker.clone());
                let ghost blank = context;
                let strategy: S = self.strategy_factory.fresh();
                strategy.setup(&mut context);
                proof {
                    assert(strategy.spec_setup(blank, context));
                }
                self.tickers.push(context);
                self.strategies.push(strategy);
                proof {
                    let i = (self.tickers@.len() - 1) as int;
                    assert forall|k: int| 0 <= k < i implies (#[trigger] self.tickers@[k])
                        == old(self).tickers@[k] by {}
                    assert(!old(self).spec_has_ticker(row.ticker@)) by {
                        if old(self).spec_has_ticker(row.ticker@) {
                            let k = choose|k: int|
                                is_context_index(old(self).tickers@, row.ticker@, k);
                            assert(old(self).tickers@[k].ticker@ != row.ticker@);
                        }
                    }
                    assert(is_context_index(self.tickers@, row.ticker@, i));
                    lemma_context_index_unique(self.tickers@, row.ticker@, i);
                }
                self.tickers.len() - 1
            },
        };
        assert(!old(self).spec_rejects(*row));
        let ghost context0 = self.tickers@[index as int];
        let ghost strategy0 = self.strategies@[index as int];
        let ghost strategies0 = self.strategies@;
        assert(old(self).spec_started(row.ticker@, context0, strategy0));
        assert(forall|j: int|
            0 <= j < old(self).strategies@.len() ==> #[trigger] strategies0[j] == old(self).strategies@[j]);
        self.portfolio.update_prices(row.ticker.as_str(), row.close);
        let ghost before = self.tickers@;
        assert(context_ready(before[index as int]));
        assert(before[index as int].spec_accepts(row.timestamp));
        self.tickers[index].update(row);
        proof {
            assert forall|k: int| 0 <= k < before.len() && k != index implies self.tickers@[k]
                == before[k] by {}
            assert(is_context_index(self.tickers@, row.ticker@, index as int)) by {
                assert forall|j: int| 0 <= j < index implies (#[trigger] self.tickers@[j]).ticker@
                    != row.ticker@ by {
                    assert(self.tickers@[j] == before[j]);
                }
            }
            lemma_context_index_unique(self.tickers@, row.ticker@, index as int);
            assert forall|i: int, j: int| 0 <= i < j < self.tickers@.len() implies (
            #[trigger] self.tickers@[i]).ticker@ != (#[trigger] self.tickers@[j]).ticker@ by {
                assert(before[i].ticker@ != before[j].ticker@);
            }
            let updated = self.tickers@[index as int];
            assert(context_ready(updated)) by {
                assert forall|t: i64| t > row.timestamp implies #[trigger] updated.spec_accepts(
                    t,
                ) by {
                    assert forall|i: int| 0 <= i < updated.indicators@.len() implies (
                    #[trigger] updated.indicators@[i]).1.spec_accepts(t) by {
                        assert(updated.indicators@[i].1.spec_accepts_from(row.timestamp));
                    }
                }
            }
            assert forall|i: int| 0 <= i < self.tickers@.len() implies context_ready(
                #[trigger] self.tickers@[i],
            ) by {
                if i != index {
                    assert(self.tickers@[i] == before[i]);
                }
            }
        }
        let ghost fed = self.tickers;
        let ghost portfolio0 = self.portfolio@;
        let ghost logs0 = self.trade_logs@;
        let signals: Vec<Signal> = self.strategies[index].generate_signals(&self.tickers[index]);
        let indicator_values: IndicatorValues = self.tickers[index].get_indicator_values();
        proof {
            assert forall|j: int| 0 <= j < strategies0.len() && j != index implies (
            #[trigger] self.strategies@[j]) == strategies0[j] by {}
        }
        let strategy_name: String = self.strategies[index].name().to_owned();
        let ghost name = strategy_name@;
        self.portfolio.process_signals(
            &signals,
            row.close,
            row.timestamp,
            &indicator_values,
            strategy_name.as_str(),
        );
        let ghost submitted = self.portfolio@;
        proof {
            lemma_submit_changes_the_queue_only(
                portfolio0,
                signals@,
                row.close,
                row.timestamp,
                values_view(indicator_values@),
                name,
            );
        }
        assert(self.tickers == fed);
        let mut logs: Vec<TradeLog> = self.portfolio.check_orders(row);
        let ghost scanned = logs@;
        self.trade_logs.append(&mut logs);
        proof {
            let ids = choose|ids: Seq<Seq<char>>|
                {
                    &&& ids.len() == submitted.pending_orders.len()
                    &&& (ScanResult { state: self.portfolio@, logs: logs_view(scanned) })
                        == #[trigger] spec_scan(submitted, submitted.pending_orders, *row, ids)
                };
            assert(logs_view(self.trade_logs@) =~= logs_view(logs0) + logs_view(scanned));
            let result = pipeline(
                old(self).portfolio@,
                self.tickers@[index as int],
                *row,
                signals@,
                name,
                ids,
            );
            assert(result == spec_scan(submitted, submitted.pending_orders, *row, ids));
            assert(old(self).spec_processed(
                self,
                *row,
                index as int,
                context0,
                strategy0,
                signals@,
                name,
                ids,
            ));
            assert forall|j: int|
                0 <= j < old(self).strategies@.len() && old(self).tickers@[j].ticker@
                    != row.ticker@ implies #[trigger] self.strategies@[j] == old(self).strategies@[j] by {
                assert(self.tickers@[j].ticker == old(self).tickers@[j].ticker);
            }
        }
        Ok(())
    }
}

/// A ticker has one first context only.
pub proof fn lemma_context_index_unique(tickers: Seq<TickerContext>, ticker: Seq<char>, i: int)
    requires
        is_context_index(tickers, ticker, i),
    ensures
        (choose|k: int| is_context_index(tickers, ticker, k)) == i,
        exists|k: int| is_context_index(tickers, ticker, k),
{
    let k = choose|k: int| is_context_index(tickers, ticker, k);
    if k < i {
        assert(tickers[k].ticker@ != ticker);
    }
    if i < k {
        assert(tickers[i].ticker@ != ticker);
    }
}

} // verus!
