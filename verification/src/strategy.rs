//! The interface of a trading strategy.

use crate::backtest::context::TickerContext;
use crate::backtest::signal::Signal;
use vstd::prelude::*;

verus! {

/// A trading strategy: it names the indicators that it needs, and turns the
/// state of a ticker into signals. The engine keeps one instance per ticker.
///
/// What a strategy does is its own: it says so in the four relations below,
/// and its methods are held to them. The engine states what it does with a
/// bar in terms of these relations. A strategy that leaves a relation as it
/// is given here says nothing of that method.
pub trait Strategy: Sized {
    /// `after` is the context `before` with the indicators registered that
    /// this strategy needs.
    open spec fn spec_setup(&self, before: TickerContext, after: TickerContext) -> bool {
        true
    }

    /// `signals` are the signals that this strategy gives for `context`, and
    /// `next` is the strategy after it has given them.
    open spec fn spec_generated(
        &self,
        next: &Self,
        context: TickerContext,
        signals: Seq<Signal>,
    ) -> bool {
        true
    }

    /// `name` is the name of the strategy.
    open spec fn spec_named(&self, name: Seq<char>) -> bool {
        true
    }

    /// `made` is an instance of this strategy in its initial state.
    open spec fn spec_fresh(&self, made: &Self) -> bool {
        true
    }

    /// Registers the indicators that this strategy needs in the context of a
    /// ticker that has seen no bar. The context stays consistent, keeps its
    /// ticker, and takes any bar afterwards.
    fn setup(&self, context: &mut TickerContext)
        requires
            old(context).wf(),
            old(context).latest_row.is_none(),
            forall|t: i64| #[trigger] old(context).spec_accepts(t),
        ensures
            final(context).wf(),
            final(context).ticker == old(context).ticker,
            final(context).latest_row.is_none(),
            forall|t: i64| #[trigger] final(context).spec_accepts(t),
            self.spec_setup(*old(context), *final(context)),
    ;

    /// Generates trading signals from the current context.
    fn generate_signals(&mut self, context: &TickerContext) -> (signals: Vec<Signal>)
        requires
            context.wf(),
        ensures
            old(self).spec_generated(final(self), *context, signals@),
    ;

    /// Human-readable name.
    fn name(&self) -> (r: &str)
        ensures
            self.spec_named(r@),
    ;

    /// A new instance of this strategy in its initial state.
    fn fresh(&self) -> (r: Self)
        ensures
            self.spec_fresh(&r),
    ;
}

} // verus!
