//! The indicators of one ticker.

use crate::indicators::indicator::Indicator;
use crate::types::log::IndicatorValues;
use crate::types::ohlcv::Row;
use vstd::prelude::*;

verus! {

/// Context for a single ticker, holding its latest bar and its indicators by
/// name.
pub struct TickerContext {
    pub ticker: String,
    /// Named indicators, in the order in which their names were first added.
    pub indicators: Vec<(String, Indicator)>,
    pub latest_row: Option<Row>,
}

/// Whether an indicator is registered under `name`.
pub open spec fn has_name(indicators: Seq<(String, Indicator)>, name: Seq<char>) -> bool {
    exists|i: int| 0 <= i < indicators.len() && (#[trigger] indicators[i]).0@ == name
}

/// `i` is the first index of an indicator registered under `name`.
pub open spec fn is_name_index(indicators: Seq<(String, Indicator)>, name: Seq<char>, i: int) -> bool {
    &&& 0 <= i < indicators.len()
    &&& indicators[i].0@ == name
    &&& forall|j: int| 0 <= j < i ==> (#[trigger] indicators[j]).0@ != name
}

/// `after` is `before` with `indicator` registered under `name`: in the place
/// of the indicator that had the name, or at the end if none had it.
pub open spec fn registered(
    before: Seq<(String, Indicator)>,
    after: Seq<(String, Indicator)>,
    name: Seq<char>,
    indicator: Indicator,
) -> bool {
    if has_name(before, name) {
        let i = choose|i: int| is_name_index(before, name, i);
        &&& after.len() == before.len()
        &&& after[i].0@ == name
        &&& after[i].1 == indicator
        &&& forall|j: int| 0 <= j < before.len() && j != i ==> #[trigger] after[j] == before[j]
    } else {
        &&& after.len() == before.len() + 1
        &&& after.last().0@ == name
        &&& after.last().1 == indicator
        &&& forall|j: int| 0 <= j < before.len() ==> #[trigger] after[j] == before[j]
    }
}

/// A name has one first index only.
pub proof fn lemma_name_index_unique(indicators: Seq<(String, Indicator)>, name: Seq<char>, i: int)
    requires
        is_name_index(indicators, name, i),
    ensures
        has_name(indicators, name),
        (choose|k: int| is_name_index(indicators, name, k)) == i,
{
    let k = choose|k: int| is_name_index(indicators, name, k);
    if k < i {
        assert(indicators[k].0@ != name);
    }
    if i < k {
        assert(indicators[i].0@ != name);
    }
}

/// The name and value of every indicator that has a value, in order.
pub open spec fn spec_values(indicators: Seq<(String, Indicator)>) -> Seq<(Seq<char>, i64)>
    decreases indicators.len(),
{
    if indicators.len() == 0 {
        Seq::empty()
    } else {
        let before = spec_values(indicators.drop_last());
        match indicators.last().1.spec_value() {
            Some(value) => before.push((indicators.last().0@, value)),
            None => before,
        }
    }
}

impl TickerContext {
    /// Every indicator is well-formed and no name is used twice.
    pub open spec fn wf(&self) -> bool {
        &&& forall|i: int| 0 <= i < self.indicators@.len() ==> (#[trigger] self.indicators@[i]).1.wf()
        &&& forall|i: int, j: int|
            0 <= i < j < self.indicators@.len() ==> (#[trigger] self.indicators@[i]).0@ != (
            #[trigger] self.indicators@[j]).0@
    }

    /// Whether every indicator takes a bar stamped `timestamp`.
    pub open spec fn spec_accepts(&self, timestamp: i64) -> bool {
        forall|i: int|
            0 <= i < self.indicators@.len() ==> (#[trigger] self.indicators@[i]).1.spec_accepts(
                timestamp,
            )
    }

    /// Whether every indicator takes every bar stamped `timestamp` or later.
    pub open spec fn spec_accepts_from(&self, timestamp: i64) -> bool {
        forall|i: int|
            0 <= i < self.indicators@.len() ==> (
            #[trigger] self.indicators@[i]).1.spec_accepts_from(timestamp)
    }

    /// `next` is this context after every one of its indicators has taken
    /// `row`.
    pub open spec fn spec_fed(&self, next: &TickerContext, row: Row) -> bool {
        &&& next.ticker == self.ticker
        &&& next.latest_row == Some(row)
        &&& next.indicators@.len() == self.indicators@.len()
        &&& forall|k: int|
            0 <= k < self.indicators@.len() ==> (#[trigger] next.indicators@[k]).0
                == self.indicators@[k].0 && self.indicators@[k].1.spec_fed(
                &next.indicators@[k].1,
                row,
            )
    }

    /// `other` has the ticker of this context and, under the same names,
    /// indicators of the same kinds and configurations without data.
    pub open spec fn spec_cleared(&self, other: &TickerContext) -> bool {
        &&& other.ticker@ == self.ticker@
        &&& other.latest_row.is_none()
        &&& other.indicators@.len() == self.indicators@.len()
        &&& forall|k: int|
            0 <= k < self.indicators@.len() ==> (#[trigger] other.indicators@[k]).0@
                == self.indicators@[k].0@ && self.indicators@[k].1.spec_cleared(
                &other.indicators@[k].1,
            )
    }

    /// The value of the indicator registered under `name`; `None` if there is
    /// no such indicator or it is not ready.
    pub open spec fn spec_indicator(&self, name: Seq<char>) -> Option<i64> {
        if has_name(self.indicators@, name) {
            self.indicators@[choose|i: int| is_name_index(self.indicators@, name, i)].1.spec_value()
        } else {
            None
        }
    }

    pub fn new(ticker: String) -> (r: Self)
        ensures
            r.wf(),
            r.ticker == ticker,
            r.indicators@.len() == 0,
            r.latest_row.is_none(),
    {
        TickerContext { ticker, indicators: Vec::new(), latest_row: None }
    }

    /// The index of the indicator registered under `name`.
    pub fn find_indicator(&self, name: &str) -> (r: Option<usize>)
        ensures
            match r {
                Some(i) => is_name_index(self.indicators@, name@, i as int),
                None => !has_name(self.indicators@, name@),
            },
    {
        let key: String = name.to_owned();
        let n: usize = self.indicators.len();
        let mut i: usize = 0;
        while i < n
            invariant
                n == self.indicators@.len(),
                i <= n,
                key@ == name@,
                forall|j: int| 0 <= j < i ==> (#[trigger] self.indicators@[j]).0@ != name@,
            decreases n - i,
        {
            if self.indicators[i].0 == key {
                return Some(i);
            }
            i = i + 1;
        }
        None
    }

    /// Registers `indicator` under `name`, in place of the indicator that had
    /// that name if there was one.
    #[verifier::rlimit(50)]
    pub fn add_indicator(&mut self, name: &str, indicator: Indicator)
        requires
            old(self).wf(),
            indicator.wf(),
        ensures
            final(self).wf(),
            final(self).ticker == old(self).ticker,
            final(self).latest_row == old(self).latest_row,
            registered(old(self).indicators@, final(self).indicators@, name@, indicator),
    {
        match self.find_indicator(name) {
            Some(index) => {
                proof {
                    lemma_name_index_unique(self.indicators@, name@, index as int);
                }
                let _ = self.indicators.remove(index);
                self.indicators.insert(index, (name.to_owned(), indicator));
                assert forall|i: int, j: int|
                    0 <= i < j < self.indicators@.len() implies (#[trigger] self.indicators@[i]).0@
                    != (#[trigger] self.indicators@[j]).0@ by {
                    if i != index && j != index {
                        assert(self.indicators@[i] == old(self).indicators@[i]);
                        assert(self.indicators@[j] == old(self).indicators@[j]);
                    } else if i == index {
                        assert(self.indicators@[j] == old(self).indicators@[j]);
                        assert(old(self).indicators@[i].0@ != old(self).indicators@[j].0@);
                    } else {
                        assert(self.indicators@[i] == old(self).indicators@[i]);
                        assert(old(self).indicators@[i].0@ != old(self).indicators@[j].0@);
                    }
                }
                assert forall|i: int| 0 <= i < self.indicators@.len() implies (
                #[trigger] self.indicators@[i]).1.wf() by {
                    if i != index {
                        assert(self.indicators@[i] == old(self).indicators@[i]);
                    }
                }
            },
            None => {
                self.indicators.push((name.to_owned(), indicator));
                assert forall|i: int, j: int|
                    0 <= i < j < self.indicators@.len() implies (#[trigger] self.indicators@[i]).0@
                    != (#[trigger] self.indicators@[j]).0@ by {
                    assert(self.indicators@[i] == old(self).indicators@[i]);
                    if j < old(self).indicators@.len() {
                        assert(self.indicators@[j] == old(self).indicators@[j]);
                    }
                }
                assert forall|i: int| 0 <= i < self.indicators@.len() implies (
                #[trigger] self.indicators@[i]).1.wf() by {
                    if i < old(self).indicators@.len() {
                        assert(self.indicators@[i] == old(self).indicators@[i]);
                    }
                }
            },
        }
    }

    /// Feeds `row` to every indicator and remembers it as the latest bar.
    #[verifier::rlimit(50)]
    pub fn update(&mut self, row: &Row)
        requires
            old(self).wf(),
            old(self).spec_accepts(row.timestamp),
        ensures
            final(self).wf(),
            final(self).spec_accepts_from(row.timestamp),
            old(self).spec_fed(final(self), *row),
    {
        let n: usize = self.indicators.len();
        let mut i: usize = 0;
        while i < n
            invariant
                n == self.indicators@.len(),
                n == old(self).indicators@.len(),
                i <= n,
                self.ticker == old(self).ticker,
                forall|k: int| 0 <= k < n ==> (#[trigger] self.indicators@[k]).0 == old(self).indicators@[k].0,
                forall|k: int| 0 <= k < n ==> (#[trigger] self.indicators@[k]).1.wf(),
                forall|k: int|
                    i <= k < n ==> (#[trigger] self.indicators@[k]) == old(self).indicators@[k],
                forall|k: int|
                    i <= k < n ==> (#[trigger] self.indicators@[k]).1.spec_accepts(row.timestamp),
                forall|k: int|
                    0 <= k < i ==> (#[trigger] self.indicators@[k]).1.spec_accepts_from(
                        row.timestamp,
                    ),
                forall|k: int|
                    0 <= k < i ==> old(self).indicators@[k].1.spec_fed(
                        &(#[trigger] self.indicators@[k]).1,
                        *row,
                    ),
            decreases n - i,
        {
            let ghost before = self.indicators@;
            self.indicators[i].1.update(row);
            proof {
                assert forall|k: int| 0 <= k < n && k != i implies self.indicators@[k]
                    == before[k] by {}
            }
            i = i + 1;
        }
        proof {
            assert forall|a: int, b: int| 0 <= a < b < self.indicators@.len() implies (
            #[trigger] self.indicators@[a]).0@ != (#[trigger] self.indicators@[b]).0@ by {
                assert(old(self).indicators@[a].0@ != old(self).indicators@[b].0@);
            }
        }
        self.latest_row = Some(row.duplicate());
    }

    /// The current value of the indicator registered under `name`.
    pub fn get_indicator(&self, name: &str) -> (r: Option<i64>)
        requires
            self.wf(),
        ensures
            r == self.spec_indicator(name@),
    {
        match self.find_indicator(name) {
            Some(index) => {
                proof {
                    lemma_name_index_unique(self.indicators@, name@, index as int);
                }
                self.indicators[index].1.get()
            },
            None => None,
        }
    }

    /// A mutable reference to the indicator registered under `name`.
    pub fn get_indicator_mut(&mut self, name: &str) -> (r: Option<&mut Indicator>)
        ensures
            match r {
                Some(indicator) => exists|i: int|
                    {
                        &&& is_name_index(old(self).indicators@, name@, i)
                        &&& *indicator == (#[trigger] old(self).indicators@[i]).1
                        &&& final(self).indicators@ == old(self).indicators@.update(
                            i,
                            (old(self).indicators@[i].0, *final(indicator)),
                        )
                        &&& final(self).ticker == old(self).ticker
                        &&& final(self).latest_row == old(self).latest_row
                    },
                None => !has_name(old(self).indicators@, name@) && *final(self) == *old(self),
            },
    {
        match self.find_indicator(name) {
            Some(index) => Some(&mut self.indicators[index].1),
            None => None,
        }
    }

    /// The name and value of every indicator that is ready.
    pub fn get_indicator_values(&self) -> (r: IndicatorValues)
        requires
            self.wf(),
        ensures
            crate::types::log::values_view(r@) == spec_values(self.indicators@),
    {
        let mut out: Vec<(String, i64)> = Vec::new();
        let n: usize = self.indicators.len();
        let mut i: usize = 0;
        proof {
            assert(self.indicators@.take(0) =~= Seq::empty());
            assert(crate::types::log::values_view(out@) =~= Seq::empty());
        }
        while i < n
            invariant
                n == self.indicators@.len(),
                i <= n,
                self.wf(),
                crate::types::log::values_view(out@) == spec_values(self.indicators@.take(i as int)),
            decreases n - i,
        {
            let ghost before = out@;
            proof {
                assert(self.indicators@.take(i + 1).drop_last() =~= self.indicators@.take(i as int));
                assert(self.indicators@.take(i + 1).last() == self.indicators@[i as int]);
            }
            match self.indicators[i].1.get() {
                Some(value) => {
                    let name: String = self.indicators[i].0.clone();
                    out.push((name, value));
                    assert(crate::types::log::values_view(out@) =~= crate::types::log::values_view(
                        before,
                    ).push((self.indicators@[i as int].0@, value)));
                },
                None => {},
            }
            i = i + 1;
        }
        assert(self.indicators@.take(n as int) =~= self.indicators@);
        out
    }
}

} // verus!
