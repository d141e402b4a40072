//! A book of positions with their entry rules.

use crate::events::event::Event;
use crate::fixed::{clamp_i64, saturate};
use crate::position::entry::EntryStrategy;
use crate::position::position::{spec_pnl_at, Position, PositionState};
use crate::position::side::Side;
use vstd::prelude::*;

verus! {

/// Actions that can result from processing a bar.
pub enum PositionAction {
    Entry { position_id: String, ticker: String, side: Side, size: i64, price: i64, timestamp: i64 },
    Exit { position_id: String, ticker: String, price: i64, timestamp: i64, pnl: i64 },
}

/// Holds all positions, open and closed, the entry rules, and the account
/// value that sizing works from.
pub struct PositionManager<E: Event> {
    /// All positions (both open and closed).
    pub positions: Vec<Position>,
    /// Entry strategies.
    pub entry_strategies: Vec<EntryStrategy<E>>,
    /// Position ID counter.
    pub next_position_id: usize,
    /// Current account value (for sizing calculations).
    pub account_value: i64,
}

/// The positions of `positions` that are in `state`, in their order.
pub open spec fn in_state(positions: Seq<Position>, state: PositionState) -> Seq<Position>
    decreases positions.len(),
{
    if positions.len() == 0 {
        Seq::empty()
    } else {
        let rest = in_state(positions.drop_last(), state);
        if positions.last().state == state {
            rest.push(positions.last())
        } else {
            rest
        }
    }
}

/// The positions behind a sequence of references.
pub open spec fn positions_of(refs: Seq<&Position>) -> Seq<Position> {
    Seq::new(refs.len(), |i: int| *refs[i])
}

/// The price quoted for `ticker`: the first quote under that name.
pub open spec fn quoted(prices: Seq<(String, i64)>, ticker: Seq<char>) -> Option<i64>
    decreases prices.len(),
{
    if prices.len() == 0 {
        None
    } else if prices[0].0@ == ticker {
        Some(prices[0].1)
    } else {
        quoted(prices.drop_first(), ticker)
    }
}

/// The sum of the realized profits and losses of the closed positions.
pub open spec fn realized_total(positions: Seq<Position>) -> int
    decreases positions.len(),
{
    if positions.len() == 0 {
        0
    } else {
        realized_total(positions.drop_last()) + (if positions.last().state
            == PositionState::Closed {
            match positions.last().spec_pnl() {
                Some(pnl) => pnl as int,
                None => 0,
            }
        } else {
            0
        })
    }
}

/// The sum of the profits and losses of the open positions at the quoted
/// prices; a position without a quote counts as zero.
pub open spec fn unrealized_total(positions: Seq<Position>, prices: Seq<(String, i64)>) -> int
    decreases positions.len(),
{
    if positions.len() == 0 {
        0
    } else {
        let p = positions.last();
        unrealized_total(positions.drop_last(), prices) + (if p.state == PositionState::Open {
            match quoted(prices, p.ticker@) {
                Some(price) => spec_pnl_at(p.side, p.size, p.entry_price, price) as int,
                None => 0,
            }
        } else {
            0
        })
    }
}

/// A total over `n` positions lies within `n` times the range of a profit.
pub proof fn lemma_totals_bounds(positions: Seq<Position>, prices: Seq<(String, i64)>)
    ensures
        positions.len() * i64::MIN <= realized_total(positions) <= positions.len() * i64::MAX,
        positions.len() * i64::MIN <= unrealized_total(positions, prices) <= positions.len()
            * i64::MAX,
    decreases positions.len(),
{
    if positions.len() > 0 {
        lemma_totals_bounds(positions.drop_last(), prices);
        let n = positions.len() as int;
        assert((n - 1) * i64::MIN + i64::MIN == n * i64::MIN) by (nonlinear_arith);
        assert((n - 1) * i64::MAX + i64::MAX == n * i64::MAX) by (nonlinear_arith);
    }
}

/// The price quoted for `ticker`.
pub fn quote(prices: &Vec<(String, i64)>, ticker: &String) -> (r: Option<i64>)
    ensures
        r == quoted(prices@, ticker@),
{
    let n: usize = prices.len();
    let mut i: usize = 0;
    assert(prices@.skip(0) =~= prices@);
    while i < n
        invariant
            n == prices@.len(),
            i <= n,
            quoted(prices@, ticker@) == quoted(prices@.skip(i as int), ticker@),
        decreases n - i,
    {
        proof {
            assert(prices@.skip(i as int)[0] == prices@[i as int]);
            assert(prices@.skip(i as int).drop_first() =~= prices@.skip(i + 1));
        }
        if prices[i].0 == *ticker {
            return Some(prices[i].1);
        }
        i = i + 1;
    }
    assert(prices@.skip(n as int).len() == 0);
    None
}

impl<E: Event> PositionManager<E> {
    /// Create a new position manager.
    pub fn new(initial_account_value: i64) -> (r: Self)
        ensures
            r.positions@.len() == 0,
            r.entry_strategies@.len() == 0,
            r.next_position_id == 0,
            r.account_value == initial_account_value,
    {
        PositionManager {
            positions: Vec::new(),
            entry_strategies: Vec::new(),
            next_position_id: 0,
            account_value: initial_account_value,
        }
    }

    /// Add an entry strategy.
    pub fn add_entry_strategy(&mut self, strategy: EntryStrategy<E>)
        ensures
            final(self).entry_strategies@ == old(self).entry_strategies@.push(strategy),
            final(self).positions == old(self).positions,
            final(self).next_position_id == old(self).next_position_id,
            final(self).account_value == old(self).account_value,
    {
        self.entry_strategies.push(strategy);
    }

    /// The positions that are in `state`.
    fn positions_in(&self, state: PositionState) -> (r: Vec<&Position>)
        ensures
            positions_of(r@) == in_state(self.positions@, state),
    {
        let mut out: Vec<&Position> = Vec::new();
        let n: usize = self.positions.len();
        let mut i: usize = 0;
        proof {
            assert(self.positions@.take(0) =~= Seq::<Position>::empty());
            assert(positions_of(out@) =~= Seq::<Position>::empty());
        }
        while i < n
            invariant
                n == self.positions@.len(),
                i <= n,
                positions_of(out@) == in_state(self.positions@.take(i as int), state),
            decreases n - i,
        {
            let ghost before = out@;
            proof {
                assert(self.positions@.take(i + 1).drop_last() =~= self.positions@.take(i as int));
                assert(self.positions@.take(i + 1).last() == self.positions@[i as int]);
            }
            let position: &Position = &self.positions[i];
            if position.state == state {
                out.push(position);
                assert(positions_of(out@) =~= positions_of(before).push(*position));
            }
            i = i + 1;
        }
        assert(self.positions@.take(n as int) =~= self.positions@);
        out
    }

    /// Get all open positions.
    pub fn open_positions(&self) -> (r: Vec<&Position>)
        ensures
            positions_of(r@) == in_state(self.positions@, PositionState::Open),
    {
        self.positions_in(PositionState::Open)
    }

    /// Get all closed positions.
    pub fn closed_positions(&self) -> (r: Vec<&Position>)
        ensures
            positions_of(r@) == in_state(self.positions@, PositionState::Closed),
    {
        self.positions_in(PositionState::Closed)
    }

    /// Get the first position with the identifier `id`.
    pub fn get_position(&self, id: &str) -> (r: Option<&Position>)
        ensures
            match r {
                Some(p) => exists|i: int|
                    0 <= i < self.positions@.len() && *p == #[trigger] self.positions@[i] && p.id@
                        == id@ && forall|j: int| 0 <= j < i ==> self.positions@[j].id@ != id@,
                None => forall|i: int|
                    0 <= i < self.positions@.len() ==> (#[trigger] self.positions@[i]).id@ != id@,
            },
    {
        let key: String = id.to_owned();
        let n: usize = self.positions.len();
        let mut i: usize = 0;
        while i < n
            invariant
                n == self.positions@.len(),
                i <= n,
                key@ == id@,
                forall|j: int| 0 <= j < i ==> (#[trigger] self.positions@[j]).id@ != id@,
            decreases n - i,
        {
            if self.positions[i].id == key {
                return Some(&self.positions[i]);
            }
            i = i + 1;
        }
        None
    }

    /// Update account value (e.g., after P&L calculations).
    pub fn update_account_value(&mut self, new_value: i64)
        ensures
            final(self).account_value == new_value,
            final(self).positions == old(self).positions,
            final(self).entry_strategies == old(self).entry_strategies,
            final(self).next_position_id == old(self).next_position_id,
    {
        self.account_value = new_value;
    }

    /// Total unrealized P&L across all open positions at the given prices,
    /// saturating.
    pub fn total_unrealized_pnl(&self, current_prices: &Vec<(String, i64)>) -> (r: i64)
        ensures
            r == clamp_i64(unrealized_total(self.positions@, current_prices@)),
    {
        let n: usize = self.positions.len();
        let mut acc: i128 = 0;
        let mut i: usize = 0;
        while i < n
            invariant
                n == self.positions@.len(),
                i <= n,
                acc == unrealized_total(self.positions@.take(i as int), current_prices@),
            decreases n - i,
        {
            proof {
                assert(self.positions@.take(i + 1).drop_last() =~= self.positions@.take(i as int));
                assert(self.positions@.take(i + 1).last() == self.positions@[i as int]);
                lemma_totals_bounds(self.positions@.take(i + 1), current_prices@);
                assert(i128::MIN <= (i + 1) * i64::MIN && (i + 1) * i64::MAX <= i128::MAX)
                    by (nonlinear_arith)
                    requires
                        0 <= i < usize::MAX,
                ;
            }
            let position: &Position = &self.positions[i];
            if position.state == PositionState::Open {
                match quote(current_prices, &position.ticker) {
                    Some(price) => {
                        acc = acc + position.unrealized_pnl(price) as i128;
                    },
                    None => {},
                }
            }
            i = i + 1;
        }
        assert(self.positions@.take(n as int) =~= self.positions@);
        saturate(acc)
    }

    /// Total realized P&L from closed positions, saturating.
    pub fn total_realized_pnl(&self) -> (r: i64)
        ensures
            r == clamp_i64(realized_total(self.positions@)),
    {
        let n: usize = self.positions.len();
        let mut acc: i128 = 0;
        let mut i: usize = 0;
        while i < n
            invariant
                n == self.positions@.len(),
                i <= n,
                acc == realized_total(self.positions@.take(i as int)),
            decreases n - i,
        {
            proof {
                assert(self.positions@.take(i + 1).drop_last() =~= self.positions@.take(i as int));
                assert(self.positions@.take(i + 1).last() == self.positions@[i as int]);
                lemma_totals_bounds(self.positions@.take(i + 1), Seq::empty());
                assert(i128::MIN <= (i + 1) * i64::MIN && (i + 1) * i64::MAX <= i128::MAX)
                    by (nonlinear_arith)
                    requires
                        0 <= i < usize::MAX,
                ;
            }
            let position: &Position = &self.positions[i];
            if position.state == PositionState::Closed {
                match position.pnl() {
                    Some(pnl) => {
                        acc = acc + pnl as i128;
                    },
                    None => {},
                }
            }
            i = i + 1;
        }
        assert(self.positions@.take(n as int) =~= self.positions@);
        saturate(acc)
    }
}

} // verus!
