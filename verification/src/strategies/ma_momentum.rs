//! A strategy that trades the crossing of two moving averages.

use crate::backtest::context::{registered, TickerContext};
use crate::backtest::signal::{Signal, SignalType};
use crate::indicators::fields::CommonField;
use crate::indicators::indicator::Indicator;
use crate::indicators::indicators::MovingAverage;
use crate::indicators::trackers::Entry;
use crate::indicators::window::Window;
use crate::position::order::OrderType;
use crate::strategy::Strategy;
use vstd::prelude::*;

verus! {

/// Buys when the 30-minute average of the typical price crosses above the
/// 60-minute average, and sells when it crosses below.
pub struct MaMomentumStrategy {
    /// The fast average at the previous bar.
    pub prev_ma30: Option<i64>,
    /// The slow average at the previous bar.
    pub prev_ma60: Option<i64>,
}

/// `indicator` is a moving average of `field` over `window` that holds no
/// data yet.
pub open spec fn is_new_average(indicator: Indicator, window: Window, field: CommonField) -> bool {
    &&& indicator matches Indicator::MovingAverage(average)
    &&& average.wf()
    &&& average.spec_window() == window
    &&& average.spec_field() == field
    &&& average@ == Seq::<Entry>::empty()
}

/// `after` holds the indicators of `before` with two more registered: first
/// a new average of the typical price over 30 minutes under the name
/// "ma30", then one over 60 minutes under the name "ma60".
pub open spec fn spec_set_up(
    before: Seq<(String, Indicator)>,
    after: Seq<(String, Indicator)>,
) -> bool {
    exists|between: Seq<(String, Indicator)>, fast: Indicator, slow: Indicator|
        #![trigger registered(before, between, "ma30"@, fast), registered(between, after, "ma60"@, slow)]
        {
            &&& is_new_average(fast, Window::Minutes(30), CommonField::Typical)
            &&& is_new_average(slow, Window::Minutes(60), CommonField::Typical)
            &&& registered(before, between, "ma30"@, fast)
            &&& registered(between, after, "ma60"@, slow)
        }
}

/// The order that a crossing calls for: a buy when the fast value was at or
/// below the slow value and is now above it, a sell when it was at or above
/// and is now below; nothing while any of the four values is missing.
pub open spec fn spec_crossover(
    fast: Option<i64>,
    slow: Option<i64>,
    prev_fast: Option<i64>,
    prev_slow: Option<i64>,
) -> Option<OrderType> {
    match (fast, slow, prev_fast, prev_slow) {
        (Some(f), Some(s), Some(pf), Some(ps)) => if f > s && pf <= ps {
            Some(OrderType::MarketBuy())
        } else if f < s && pf >= ps {
            Some(OrderType::MarketSell())
        } else {
            None
        },
        _ => None,
    }
}

/// The order that a crossing calls for.
pub fn crossover(
    fast: Option<i64>,
    slow: Option<i64>,
    prev_fast: Option<i64>,
    prev_slow: Option<i64>,
) -> (r: Option<OrderType>)
    ensures
        r == spec_crossover(fast, slow, prev_fast, prev_slow),
{
    match (fast, slow, prev_fast, prev_slow) {
        (Some(f), Some(s), Some(pf), Some(ps)) => {
            if f > s && pf <= ps {
                Some(OrderType::MarketBuy())
            } else if f < s && pf >= ps {
                Some(OrderType::MarketSell())
            } else {
                None
            }
        },
        _ => None,
    }
}

impl MaMomentumStrategy {
    pub fn new() -> (r: Self)
        ensures
            r.prev_ma30.is_none(),
            r.prev_ma60.is_none(),
    {
        MaMomentumStrategy { prev_ma30: None, prev_ma60: None }
    }

    /// What `decide` returns for a crossing: one trigger signal for the
    /// ticker, or nothing.
    pub open spec fn spec_signals(
        signals: Seq<Signal>,
        ticker: Seq<char>,
        crossing: Option<OrderType>,
    ) -> bool {
        match crossing {
            Some(order_type) => signals.len() == 1 && signals[0].ticker@ == ticker
                && signals[0].signal_type == SignalType::Trigger(order_type),
            None => signals.len() == 0,
        }
    }

    /// The signals for the current averages of `context`, and the averages
    /// remembered for the next bar.
    pub fn decide(&mut self, context: &TickerContext) -> (signals: Vec<Signal>)
        requires
            context.wf(),
        ensures
            final(self).prev_ma30 == context.spec_indicator("ma30"@),
            final(self).prev_ma60 == context.spec_indicator("ma60"@),
            Self::spec_signals(
                signals@,
                context.ticker@,
                spec_crossover(
                    context.spec_indicator("ma30"@),
                    context.spec_indicator("ma60"@),
                    old(self).prev_ma30,
                    old(self).prev_ma60,
                ),
            ),
    {
        let mut signals: Vec<Signal> = Vec::new();
        let ma30_curr: Option<i64> = context.get_indicator("ma30");
        let ma60_curr: Option<i64> = context.get_indicator("ma60");
        match crossover(ma30_curr, ma60_curr, self.prev_ma30, self.prev_ma60) {
            Some(order_type) => {
                signals.push(Signal::new_trigger(context.ticker.clone(), order_type));
            },
            None => {},
        }
        self.prev_ma30 = ma30_curr;
        self.prev_ma60 = ma60_curr;
        signals
    }
}

impl Strategy for MaMomentumStrategy {
    /// The two averages are registered, "ma30" first.
    open spec fn spec_setup(&self, before: TickerContext, after: TickerContext) -> bool {
        spec_set_up(before.indicators@, after.indicators@)
    }

    /// The strategy signals the crossing of the current averages of the
    /// context against the averages that it remembers, and then remembers
    /// the current ones.
    open spec fn spec_generated(
        &self,
        next: &Self,
        context: TickerContext,
        signals: Seq<Signal>,
    ) -> bool {
        &&& next.prev_ma30 == context.spec_indicator("ma30"@)
        &&& next.prev_ma60 == context.spec_indicator("ma60"@)
        &&& Self::spec_signals(
            signals,
            context.ticker@,
            spec_crossover(
                context.spec_indicator("ma30"@),
                context.spec_indicator("ma60"@),
                self.prev_ma30,
                self.prev_ma60,
            ),
        )
    }

    open spec fn spec_named(&self, name: Seq<char>) -> bool {
        name == "MA Momentum"@
    }

    /// A new instance remembers no averages.
    open spec fn spec_fresh(&self, made: &Self) -> bool {
        made.prev_ma30.is_none() && made.prev_ma60.is_none()
    }

    fn name(&self) -> (r: &str)
        ensures
            r@ == "MA Momentum"@,
    {
        "MA Momentum"
    }

    /// Registers the fast average under "ma30" and the slow average under
    /// "ma60", both of the typical price and both without data.
    fn setup(&self, context: &mut TickerContext)
        ensures
            spec_set_up(old(context).indicators@, final(context).indicators@),
    {
        let fast = Indicator::MovingAverage(
            MovingAverage::new(Window::Minutes(30), CommonField::Typical),
        );
        let ghost fast_added = fast;
        context.add_indicator("ma30", fast);
        proof {
            assert forall|t: i64| #[trigger] context.spec_accepts(t) by {
                lemma_accepts_after_add(*old(context), *context, t);
            }
        }
        let ghost mid = *context;
        let slow = Indicator::MovingAverage(
            MovingAverage::new(Window::Minutes(60), CommonField::Typical),
        );
        let ghost slow_added = slow;
        context.add_indicator("ma60", slow);
        proof {
            assert forall|t: i64| #[trigger] context.spec_accepts(t) by {
                lemma_accepts_after_add(mid, *context, t);
            }
            assert(registered(old(context).indicators@, mid.indicators@, "ma30"@, fast_added));
            assert(registered(mid.indicators@, context.indicators@, "ma60"@, slow_added));
        }
    }

    fn generate_signals(&mut self, context: &TickerContext) -> (signals: Vec<Signal>)
        ensures
            final(self).prev_ma30 == context.spec_indicator("ma30"@),
            final(self).prev_ma60 == context.spec_indicator("ma60"@),
            Self::spec_signals(
                signals@,
                context.ticker@,
                spec_crossover(
                    context.spec_indicator("ma30"@),
                    context.spec_indicator("ma60"@),
                    old(self).prev_ma30,
                    old(self).prev_ma60,
                ),
            ),
    {
        self.decide(context)
    }

    fn fresh(&self) -> (r: Self)
        ensures
            r.prev_ma30.is_none(),
            r.prev_ma60.is_none(),
    {
        MaMomentumStrategy::new()
    }
}

/// A context whose indicators are those of a context that takes the bar
/// `t`, with or without one more moving average, takes the bar `t`.
proof fn lemma_accepts_after_add(before: TickerContext, after: TickerContext, t: i64)
    requires
        before.spec_accepts(t),
        forall|i: int|
            0 <= i < after.indicators@.len() ==> (#[trigger] after.indicators@[i]).1 is MovingAverage
                || (i < before.indicators@.len() && after.indicators@[i] == before.indicators@[i]),
    ensures
        after.spec_accepts(t),
{
    assert forall|i: int| 0 <= i < after.indicators@.len() implies (
    #[trigger] after.indicators@[i]).1.spec_accepts(t) by {
        if !(after.indicators@[i].1 is MovingAverage) {
            assert(before.indicators@[i].1.spec_accepts(t));
        }
    }
}

/// Factory function for the engine.
pub fn create_ma_momentum() -> (r: MaMomentumStrategy)
    ensures
        r.prev_ma30.is_none(),
        r.prev_ma60.is_none(),
{
    MaMomentumStrategy::new()
}

} // verus!
