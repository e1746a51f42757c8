//! One back-tested trade: the bars it may use, and how and when it is closed.
use vstd::prelude::*;

use super::bars::{
    lemma_ascending_unique, lemma_strictly_ascending_time_ordered, sort_bars, strictly_ascending,
    Bar,
};
use super::execution::{Execution, ExecutionView, Status};
use super::strategy_config::{fees_ok, spec_fees, StrategyConfig};
use crate::calendar::{holding_end, spec_holding_end};

verus! {

/// Why a trade could not be opened, closed or reported.
#[derive(Debug, Clone, Copy, PartialEq, Eq, Structural)]
pub enum CaseError {
    /// No bar to average the entry price over: no bar falls in the holding
    /// window, or the entry period is zero.
    EntryPrice,
    /// No bar at which the maximum holding period ends: the case has no bars,
    /// or the exit period is zero.
    MaxHoldingBar,
    /// No bar after the exit time to average the exit price over.
    ExitPrice,
    /// The signals do not hold one flag per bar of the case.
    SignalShape,
    /// The case has no bars.
    NoBars,
}

/// Per-bar signals of a case, one flag per bar in the order of the case's
/// bars: whether the trade's performance at that bar reaches the take-profit
/// level, and whether it falls to the stop-loss level.
#[derive(Debug)]
pub struct Signals {
    pub take_profit_hit: Vec<bool>,
    pub stop_loss_hit: Vec<bool>,
}

/// One trade to back-test: the bars it may use, in time order, and its
/// settings.
#[derive(Debug)]
pub struct StrategyCase {
    pub bar_data: Vec<Bar>,
    pub strategy_config: StrategyConfig,
}

// ---------------------------------------------------------------------------
// The bars a trade may use

/// The exclusive time bounds of the bars a trade may use: after its start and
/// before the end of its holding window; no bounds for a trade without start.
pub open spec fn window_bounds(sc: StrategyConfig) -> Option<(i64, i64)> {
    match sc.datetime {
        Some(start) => Some((start, spec_holding_end(start, sc.max_holding_days).unwrap())),
        None => None,
    }
}

/// The holding window of a trade with a start can be represented.
pub open spec fn holding_end_ok(sc: StrategyConfig) -> bool {
    sc.datetime matches Some(start) ==> spec_holding_end(start, sc.max_holding_days) is Some
}

pub open spec fn in_window(t: i64, bounds: Option<(i64, i64)>) -> bool {
    match bounds {
        Some((lo, hi)) => lo < t && t < hi,
        None => true,
    }
}

/// `w` holds exactly the rows of the table with timestamps `ts` that fall in
/// the bounds, in ascending order of timestamp, and of row where timestamps
/// are equal.
pub open spec fn is_window(ts: Seq<i64>, bounds: Option<(i64, i64)>, w: Seq<Bar>) -> bool {
    &&& strictly_ascending(w)
    &&& forall|i: int|
        0 <= i < w.len() ==> {
            &&& (#[trigger] w[i]).row < ts.len()
            &&& w[i].timestamp == ts[w[i].row as int]
            &&& in_window(w[i].timestamp, bounds)
        }
    &&& forall|r: int|
        0 <= r < ts.len() && in_window(#[trigger] ts[r], bounds) ==> w.contains(
            (Bar { timestamp: ts[r], row: r as usize }),
        )
}

/// The bars of the table with timestamps `ts` that fall in the bounds, in
/// order (there is exactly one such sequence: `law_window_unique`).
pub open spec fn window_of(ts: Seq<i64>, bounds: Option<(i64, i64)>) -> Seq<Bar> {
    choose|w: Seq<Bar>| is_window(ts, bounds, w)
}

/// A trade can be opened: its entry period is positive and some bar falls in
/// its holding window.
pub open spec fn case_opens(ts: Seq<i64>, sc: StrategyConfig) -> bool {
    &&& sc.period_twap_in > 0
    &&& exists|r: int| 0 <= r < ts.len() && in_window(#[trigger] ts[r], window_bounds(sc))
}

// ---------------------------------------------------------------------------
// How a trade is closed

/// The position of the first raised flag.
pub open spec fn first_hit(flags: Seq<bool>) -> Option<int> {
    if exists|i: int| 0 <= i < flags.len() && #[trigger] flags[i] && (forall|j: int| 0 <= j < i ==> !flags[j]) {
        Some(
            choose|i: int|
                0 <= i < flags.len() && #[trigger] flags[i] && (forall|j: int| 0 <= j < i ==> !flags[j]),
        )
    } else {
        None
    }
}

/// The time of the first bar whose flag is raised, or `fallback` if none is.
pub open spec fn hit_time(bars: Seq<Bar>, flags: Seq<bool>, fallback: i64) -> i64 {
    match first_hit(flags) {
        Some(i) => bars[i].timestamp,
        None => fallback,
    }
}

/// The position of the bar at which the maximum holding period ends: the first
/// of the last `k` bars (the first bar if there are fewer).
pub open spec fn max_holding_index(n: int, k: int) -> int {
    if k >= n {
        0
    } else {
        n - k
    }
}

pub open spec fn min3(a: i64, b: i64, c: i64) -> i64 {
    if a <= b && a <= c {
        a
    } else if b <= c {
        b
    } else {
        c
    }
}

/// Why a trade closes, given the maximum-holding, take-profit and stop-loss
/// times: at the earliest of them, the maximum holding period first, then the
/// take profit, on ties.
pub open spec fn exit_status(mh: i64, tp: i64, sl: i64) -> Status {
    let t = min3(mh, tp, sl);
    if t == mh {
        Status::MaxHolding
    } else if t == tp {
        Status::TakeProfit
    } else {
        Status::StopLoss
    }
}

/// The bars that come after time `t`, in order.
pub open spec fn bars_after(bars: Seq<Bar>, t: i64) -> Seq<Bar>
    decreases bars.len(),
{
    if bars.len() == 0 {
        Seq::empty()
    } else {
        let rest = bars_after(bars.drop_last(), t);
        if bars.last().timestamp > t {
            rest.push(bars.last())
        } else {
            rest
        }
    }
}

pub open spec fn rows_of(bars: Seq<Bar>) -> Seq<usize> {
    bars.map_values(|b: Bar| b.row)
}

/// The rows the exit price is averaged over: those of the first `k` bars after
/// time `t`.
pub open spec fn exit_rows(bars: Seq<Bar>, t: i64, k: int) -> Seq<usize> {
    let after = bars_after(bars, t);
    rows_of(after.take(if k < after.len() { k } else { after.len() as int }))
}

/// The rows of the exit price of a trade closed at time `t`, with an exit
/// period of `k` bars, whatever closed it: `ExitPrice` where there is none.
pub open spec fn spec_exit_price_rows(bars: Seq<Bar>, t: i64, k: int) -> Result<
    Seq<usize>,
    CaseError,
> {
    if exit_rows(bars, t, k).len() == 0 {
        Err(CaseError::ExitPrice)
    } else {
        Ok(exit_rows(bars, t, k))
    }
}

pub open spec fn exit_result(r: Result<Vec<usize>, CaseError>) -> Result<Seq<usize>, CaseError> {
    match r {
        Ok(rows) => Ok(rows@),
        Err(e) => Err(e),
    }
}

/// The rows the entry price is averaged over: those of the first `k` bars.
pub open spec fn entry_rows(bars: Seq<Bar>, k: int) -> Seq<usize> {
    rows_of(bars.take(if k < bars.len() { k } else { bars.len() as int }))
}

/// How a trade on `bars` is unwound, with an exit period of `k` bars and the
/// given take-profit and stop-loss flags: the exit time, the rows of the exit
/// price and the status.
pub open spec fn spec_unwind(bars: Seq<Bar>, k: int, tp: Seq<bool>, sl: Seq<bool>) -> Result<
    (i64, Seq<usize>, Status),
    CaseError,
> {
    if k == 0 || bars.len() == 0 {
        Err(CaseError::MaxHoldingBar)
    } else {
        let mh = bars[max_holding_index(bars.len() as int, k)].timestamp;
        let tpt = hit_time(bars, tp, mh);
        let slt = hit_time(bars, sl, mh);
        let t = min3(mh, tpt, slt);
        let rows = exit_rows(bars, t, k);
        if rows.len() == 0 {
            Err(CaseError::ExitPrice)
        } else {
            Ok((t, rows, exit_status(mh, tpt, slt)))
        }
    }
}

/// The execution of a trade with at least one bar: entered over its first
/// bars; closed as `spec_unwind` says, or reported as `StatusError` at time 0
/// with no exit rows where the trade cannot be unwound.
pub open spec fn spec_execution(
    bars: Seq<Bar>,
    sc: StrategyConfig,
    tp: Seq<bool>,
    sl: Seq<bool>,
) -> ExecutionView {
    let (t, rows, status) = match spec_unwind(bars, sc.period_twap_out as int, tp, sl) {
        Ok(u) => u,
        Err(_) => (0i64, Seq::empty(), Status::StatusError),
    };
    ExecutionView {
        entry_rows: entry_rows(bars, sc.period_twap_in as int),
        exit_rows: rows,
        fees_bps: spec_fees(sc.side, sc.trading_costs_bps) as i32,
        status,
        datetime_in: bars[0].timestamp,
        datetime_out: t,
        side: sc.side,
    }
}

/// The outcome of running a case with the given signals.
pub open spec fn spec_run_case(bars: Seq<Bar>, sc: StrategyConfig, signals: Signals) -> Result<
    ExecutionView,
    CaseError,
> {
    if signals.take_profit_hit@.len() != bars.len() || signals.stop_loss_hit@.len() != bars.len() {
        Err(CaseError::SignalShape)
    } else if bars.len() == 0 {
        Err(CaseError::NoBars)
    } else {
        Ok(spec_execution(bars, sc, signals.take_profit_hit@, signals.stop_loss_hit@))
    }
}

// ---------------------------------------------------------------------------
// Lemmas

/// There is one window only.
pub proof fn law_window_unique(ts: Seq<i64>, bounds: Option<(i64, i64)>, w1: Seq<Bar>, w2: Seq<Bar>)
    requires
        is_window(ts, bounds, w1),
        is_window(ts, bounds, w2),
    ensures
        w1 == w2,
{
    assert forall|x: Bar| w1.contains(x) <==> w2.contains(x) by {
        if w1.contains(x) {
            let i = choose|i: int| 0 <= i < w1.len() && w1[i] == x;
            assert(w1[i].row < ts.len());
            let r = x.row as int;
            assert(in_window(ts[r], bounds));
        }
        if w2.contains(x) {
            let i = choose|i: int| 0 <= i < w2.len() && w2[i] == x;
            assert(w2[i].row < ts.len());
            let r = x.row as int;
            assert(in_window(ts[r], bounds));
        }
    }
    lemma_ascending_unique(w1, w2);
}

pub proof fn lemma_window_of(ts: Seq<i64>, bounds: Option<(i64, i64)>, w: Seq<Bar>)
    requires
        is_window(ts, bounds, w),
    ensures
        window_of(ts, bounds) == w,
{
    let c = window_of(ts, bounds);
    assert(is_window(ts, bounds, c));
    law_window_unique(ts, bounds, c, w);
}

proof fn lemma_bars_after_step(bars: Seq<Bar>, t: i64, i: int)
    requires
        0 <= i < bars.len(),
    ensures
        bars_after(bars.take(i + 1), t) == (if bars[i].timestamp > t {
            bars_after(bars.take(i), t).push(bars[i])
        } else {
            bars_after(bars.take(i), t)
        }),
{
    assert(bars.take(i + 1).drop_last() =~= bars.take(i));
    assert(bars.take(i + 1).last() == bars[i]);
}

/// The bars after `t` are bars of the sequence, with timestamps after `t`.
proof fn lemma_bars_after(bars: Seq<Bar>, t: i64)
    ensures
        forall|j: int|
            0 <= j < bars_after(bars, t).len() ==> bars.contains(#[trigger] bars_after(bars, t)[j])
                && bars_after(bars, t)[j].timestamp > t,
    decreases bars.len(),
{
    if bars.len() > 0 {
        lemma_bars_after(bars.drop_last(), t);
        let rest = bars_after(bars.drop_last(), t);
        assert forall|j: int| 0 <= j < bars_after(bars, t).len() implies bars.contains(
            #[trigger] bars_after(bars, t)[j],
        ) && bars_after(bars, t)[j].timestamp > t by {
            if j < rest.len() {
                let x = rest[j];
                assert(bars.drop_last().contains(x));
                let p = choose|p: int| 0 <= p < bars.len() - 1 && bars.drop_last()[p] == x;
                assert(bars[p] == x);
            } else {
                assert(bars[bars.len() - 1] == bars.last());
            }
        }
    }
}

proof fn lemma_first_hit_found(flags: Seq<bool>, i: int)
    requires
        0 <= i < flags.len(),
        flags[i],
        forall|j: int| 0 <= j < i ==> !flags[j],
    ensures
        first_hit(flags) == Some(i),
{
    let c = choose|c: int|
        0 <= c < flags.len() && #[trigger] flags[c] && (forall|j: int| 0 <= j < c ==> !flags[j]);
    if c < i {
        assert(!flags[c]);
    }
    if c > i {
        assert(!flags[i]);
    }
}

proof fn lemma_hit_has_first(flags: Seq<bool>, i: int)
    requires
        0 <= i < flags.len(),
        flags[i],
    ensures
        first_hit(flags) is Some,
    decreases i,
{
    if exists|j: int| 0 <= j < i && #[trigger] flags[j] {
        let j = choose|j: int| 0 <= j < i && #[trigger] flags[j];
        lemma_hit_has_first(flags, j);
    } else {
        lemma_first_hit_found(flags, i);
    }
}

/// The first raised flag is a raised flag with none before it, and there is
/// one exactly when some flag is raised.
pub proof fn law_first_hit(flags: Seq<bool>)
    ensures
        first_hit(flags) is None <==> forall|i: int| 0 <= i < flags.len() ==> !#[trigger] flags[i],
        first_hit(flags) matches Some(i) ==> {
            &&& 0 <= i < flags.len()
            &&& flags[i]
            &&& forall|j: int| 0 <= j < i ==> !flags[j]
        },
{
    if exists|i: int| 0 <= i < flags.len() && #[trigger] flags[i] {
        let i = choose|i: int| 0 <= i < flags.len() && #[trigger] flags[i];
        lemma_hit_has_first(flags, i);
    }
}

// ---------------------------------------------------------------------------
// Executable parts

fn first_hit_index(flags: &Vec<bool>) -> (r: Option<usize>)
    ensures
        match r {
            Some(i) => first_hit(flags@) == Some(i as int) && i < flags.len(),
            None => first_hit(flags@) is None,
        },
{
    let mut i: usize = 0;
    while i < flags.len()
        invariant
            i <= flags.len(),
            forall|j: int| 0 <= j < i ==> !flags@[j],
        decreases flags.len() - i,
    {
        if flags[i] {
            proof {
                lemma_first_hit_found(flags@, i as int);
            }
            return Some(i);
        }
        i = i + 1;
    }
    None
}

fn rows_of_prefix(bars: &Vec<Bar>, k: usize) -> (r: Vec<usize>)
    ensures
        r@ == entry_rows(bars@, k as int),
{
    let m = if k < bars.len() {
        k
    } else {
        bars.len()
    };
    let mut out: Vec<usize> = Vec::new();
    for i in 0..m
        invariant
            m <= bars.len(),
            m == (if k < bars.len() { k as int } else { bars.len() as int }),
            out@ == rows_of(bars@.take(i as int)),
    {
        proof {
            assert(bars@.take(i + 1) =~= bars@.take(i as int).push(bars@[i as int]));
            assert(rows_of(bars@.take(i as int).push(bars@[i as int])) =~= rows_of(
                bars@.take(i as int),
            ).push(bars@[i as int].row));
        }
        out.push(bars[i].row);
    }
    proof {
        assert(bars@.take(m as int) =~= bars@.take(if k < bars.len() { k as int } else { bars.len() as int }));
    }
    out
}

fn rows_after(bars: &Vec<Bar>, t: i64, k: usize) -> (r: Vec<usize>)
    ensures
        r@ == exit_rows(bars@, t, k as int),
{
    let mut out: Vec<usize> = Vec::new();
    for i in 0..bars.len()
        invariant
            ({
                let after = bars_after(bars@.take(i as int), t);
                out@ == rows_of(
                    after.take(if k < after.len() { k as int } else { after.len() as int }),
                )
            }),
    {
        let ghost before = bars_after(bars@.take(i as int), t);
        proof {
            lemma_bars_after_step(bars@, t, i as int);
        }
        if bars[i].timestamp > t && out.len() < k {
            proof {
                assert(before.push(bars@[i as int]).take(before.len() + 1 as int) =~= before.take(
                    before.len() as int,
                ).push(bars@[i as int]));
                assert(rows_of(before.take(before.len() as int).push(bars@[i as int])) =~= rows_of(
                    before.take(before.len() as int),
                ).push(bars@[i as int].row));
            }
            out.push(bars[i].row);
        } else if bars[i].timestamp > t {
            proof {
                assert(before.push(bars@[i as int]).take(k as int) =~= before.take(k as int));
            }
        }
    }
    proof {
        assert(bars@.take(bars.len() as int) =~= bars@);
    }
    out
}

impl StrategyCase {
    /// Opens a trade on the table whose row `i` has timestamp `data[i]`: its
    /// bars are the rows after its start and before the end of its holding
    /// window (all rows for a trade without start), in time order.
    ///
    /// Fails with `EntryPrice` where no bar falls in the window or the entry
    /// period is zero, as there is then no entry price.
    pub fn new(data: &Vec<i64>, sc: StrategyConfig) -> (r: Result<StrategyCase, CaseError>)
        requires
            holding_end_ok(sc),
            fees_ok(sc),
        ensures
            match r {
                Ok(case) => {
                    &&& case_opens(data@, sc)
                    &&& case.strategy_config == sc
                    &&& is_window(data@, window_bounds(sc), case.bar_data@)
                    &&& case.bar_data@ == window_of(data@, window_bounds(sc))
                    &&& case.bar_data@.len() > 0
                    &&& sc.datetime matches Some(start) ==> forall|i: int|
                        0 <= i < case.bar_data@.len() ==> start < (#[trigger] case.bar_data@[i]).timestamp
                            < start + (sc.max_holding_days + 1) * 86400
                },
                Err(e) => !case_opens(data@, sc) && e == CaseError::EntryPrice,
            },
    {
        let bounds: Option<(i64, i64)> = match sc.datetime {
            Some(start) => {
                let end = holding_end(start, sc.max_holding_days);
                Some((start, end.unwrap()))
            },
            None => None,
        };
        assert(bounds == window_bounds(sc));
        let mut picked: Vec<Bar> = Vec::new();
        for r in 0..data.len()
            invariant
                bounds == window_bounds(sc),
                forall|i: int, j: int|
                    0 <= i < j < picked.len() ==> (#[trigger] picked@[i]).row < (#[trigger] picked@[j]).row,
                forall|i: int|
                    0 <= i < picked.len() ==> {
                        &&& (#[trigger] picked@[i]).row < r
                        &&& picked@[i].timestamp == data@[picked@[i].row as int]
                        &&& in_window(picked@[i].timestamp, bounds)
                    },
                forall|q: int|
                    0 <= q < r && in_window(#[trigger] data@[q], bounds) ==> picked@.contains(
                        (Bar { timestamp: data@[q], row: q as usize }),
                    ),
        {
            let t = data[r];
            let keep = match bounds {
                Some((lo, hi)) => lo < t && t < hi,
                None => true,
            };
            if keep {
                let ghost old_picked = picked@;
                picked.push(Bar { timestamp: t, row: r });
                proof {
                    assert forall|q: int|
                        0 <= q < r + 1 && in_window(#[trigger] data@[q], bounds) implies picked@.contains(
                        (Bar { timestamp: data@[q], row: q as usize }),
                    ) by {
                        if q < r {
                            let b = Bar { timestamp: data@[q], row: q as usize };
                            let p = choose|p: int| 0 <= p < old_picked.len() && old_picked[p] == b;
                            assert(picked@[p] == b);
                        } else {
                            assert(picked@[picked@.len() - 1] == Bar { timestamp: data@[q], row: q as usize });
                        }
                    }
                }
            }
        }
        proof {
            assert forall|i: int, j: int| 0 <= i < picked.len() && 0 <= j < picked.len() && i != j implies picked@[i]
                != picked@[j] by {
                if i < j {
                    assert(picked@[i].row < picked@[j].row);
                } else {
                    assert(picked@[j].row < picked@[i].row);
                }
            }
        }
        let ghost unsorted = picked@;
        let bars = sort_bars(picked);
        proof {
            assert forall|i: int| 0 <= i < bars@.len() implies {
                &&& (#[trigger] bars@[i]).row < data.len()
                &&& bars@[i].timestamp == data@[bars@[i].row as int]
                &&& in_window(bars@[i].timestamp, bounds)
            } by {
                assert(unsorted.contains(bars@[i]));
            }
            assert(is_window(data@, bounds, bars@));
            lemma_window_of(data@, bounds, bars@);
        }
        if bars.len() == 0 || sc.period_twap_in == 0 {
            proof {
                if sc.period_twap_in > 0 {
                    if exists|q: int| 0 <= q < data.len() && in_window(#[trigger] data@[q], bounds) {
                        let q = choose|q: int| 0 <= q < data.len() && in_window(#[trigger] data@[q], bounds);
                        assert(bars@.contains(Bar { timestamp: data@[q], row: q as usize }));
                    }
                }
            }
            return Err(CaseError::EntryPrice);
        }
        proof {
            let b0 = bars@[0];
            assert(in_window(data@[b0.row as int], bounds));
        }
        Ok(StrategyCase { bar_data: bars, strategy_config: sc })
    }

    /// Unwinds the trade given its per-bar signals: closes it at the earliest
    /// of the end of the maximum holding period (the first of the last
    /// `period_twap_out` bars), the first take-profit bar and the first
    /// stop-loss bar, and names the bars its exit price is averaged over.
    pub fn unwind(&self, signals: &Signals) -> (r: Result<(i64, Vec<usize>, Status), CaseError>)
        requires
            signals.take_profit_hit@.len() == self.bar_data@.len(),
            signals.stop_loss_hit@.len() == self.bar_data@.len(),
        ensures
            match r {
                Ok((t, rows, status)) => spec_unwind(
                    self.bar_data@,
                    self.strategy_config.period_twap_out as int,
                    signals.take_profit_hit@,
                    signals.stop_loss_hit@,
                ) == Ok::<(i64, Seq<usize>, Status), CaseError>((t, rows@, status)),
                Err(e) => spec_unwind(
                    self.bar_data@,
                    self.strategy_config.period_twap_out as int,
                    signals.take_profit_hit@,
                    signals.stop_loss_hit@,
                ) == Err::<(i64, Seq<usize>, Status), CaseError>(e),
            },
    {
        let bars = &self.bar_data;
        let n = bars.len();
        let twap_out = self.strategy_config.period_twap_out;
        if twap_out == 0 || n == 0 {
            return Err(CaseError::MaxHoldingBar);
        }
        let mh_index = if twap_out >= n {
            0
        } else {
            n - twap_out
        };
        let mh_dt = bars[mh_index].timestamp;
        let tp_dt = match first_hit_index(&signals.take_profit_hit) {
            Some(i) => bars[i].timestamp,
            None => mh_dt,
        };
        let sl_dt = match first_hit_index(&signals.stop_loss_hit) {
            Some(i) => bars[i].timestamp,
            None => mh_dt,
        };
        let mut unwind_dt = mh_dt;
        if tp_dt < unwind_dt {
            unwind_dt = tp_dt;
        }
        if sl_dt < unwind_dt {
            unwind_dt = sl_dt;
        }
        assert(unwind_dt == min3(mh_dt, tp_dt, sl_dt));
        let status = if unwind_dt == mh_dt {
            Status::MaxHolding
        } else if unwind_dt == tp_dt {
            Status::TakeProfit
        } else {
            Status::StopLoss
        };
        let rows = if unwind_dt == mh_dt {
            self.max_holding_period(unwind_dt)
        } else if unwind_dt == tp_dt {
            self.take_profit(unwind_dt)
        } else {
            self.stop_loss(unwind_dt)
        };
        match rows {
            Ok(rows) => Ok((unwind_dt, rows, status)),
            Err(e) => Err(e),
        }
    }

    /// The rows of the exit price of a trade closed at time `unwind_dt`: those
    /// of the first `period_twap_out` bars after it; `ExitPrice` where there
    /// is none.
    fn exit_price_rows(&self, unwind_dt: i64) -> (r: Result<Vec<usize>, CaseError>)
        ensures
            exit_result(r) == spec_exit_price_rows(
                self.bar_data@,
                unwind_dt,
                self.strategy_config.period_twap_out as int,
            ),
    {
        let rows = rows_after(&self.bar_data, unwind_dt, self.strategy_config.period_twap_out);
        if rows.len() == 0 {
            Err(CaseError::ExitPrice)
        } else {
            Ok(rows)
        }
    }

    /// The exit rows of a trade closed for its maximum holding period.
    fn max_holding_period(&self, unwind_dt: i64) -> (r: Result<Vec<usize>, CaseError>)
        ensures
            exit_result(r) == spec_exit_price_rows(
                self.bar_data@,
                unwind_dt,
                self.strategy_config.period_twap_out as int,
            ),
    {
        self.exit_price_rows(unwind_dt)
    }

    /// The exit rows of a trade closed by its take profit.
    fn take_profit(&self, unwind_dt: i64) -> (r: Result<Vec<usize>, CaseError>)
        ensures
            exit_result(r) == spec_exit_price_rows(
                self.bar_data@,
                unwind_dt,
                self.strategy_config.period_twap_out as int,
            ),
    {
        self.exit_price_rows(unwind_dt)
    }

    /// The exit rows of a trade closed by its stop loss.
    fn stop_loss(&self, unwind_dt: i64) -> (r: Result<Vec<usize>, CaseError>)
        ensures
            exit_result(r) == spec_exit_price_rows(
                self.bar_data@,
                unwind_dt,
                self.strategy_config.period_twap_out as int,
            ),
    {
        self.exit_price_rows(unwind_dt)
    }

    /// The execution of the trade: entered at its first bar, exited as
    /// `unwind` says, or reported as `StatusError` at time 0 where it cannot
    /// be unwound.
    fn get_execution(&self, unwind_dt: i64, unwind_rows: Vec<usize>, status: Status) -> (r: Result<
        Execution,
        CaseError,
    >)
        requires
            fees_ok(self.strategy_config),
        ensures
            match r {
                Ok(e) => self.bar_data@.len() > 0 && e@ == (ExecutionView {
                    entry_rows: entry_rows(self.bar_data@, self.strategy_config.period_twap_in as int),
                    exit_rows: unwind_rows@,
                    fees_bps: spec_fees(self.strategy_config.side, self.strategy_config.trading_costs_bps) as i32,
                    status,
                    datetime_in: self.bar_data@[0].timestamp,
                    datetime_out: unwind_dt,
                    side: self.strategy_config.side,
                }),
                Err(e) => self.bar_data@.len() == 0 && e == CaseError::NoBars,
            },
    {
        if self.bar_data.len() == 0 {
            return Err(CaseError::NoBars);
        }
        let side = self.strategy_config.side;
        let datetime_in = self.bar_data[0].timestamp;
        let entry = rows_of_prefix(&self.bar_data, self.strategy_config.period_twap_in);
        let fees = self.strategy_config.fees();
        Ok(Execution::new(entry, unwind_rows, fees, status, datetime_in, unwind_dt, side))
    }

    /// Runs the trade with its per-bar signals. Fails with `SignalShape`
    /// where the signals do not hold one flag per bar, and with `NoBars` where
    /// the case has no bars.
    pub fn run(&self, signals: &Signals) -> (r: Result<Execution, CaseError>)
        requires
            fees_ok(self.strategy_config),
        ensures
            match r {
                Ok(e) => spec_run_case(self.bar_data@, self.strategy_config, *signals) == Ok::<
                    ExecutionView,
                    CaseError,
                >(e@),
                Err(e) => spec_run_case(self.bar_data@, self.strategy_config, *signals) == Err::<
                    ExecutionView,
                    CaseError,
                >(e),
            },
    {
        if signals.take_profit_hit.len() != self.bar_data.len() || signals.stop_loss_hit.len()
            != self.bar_data.len() {
            return Err(CaseError::SignalShape);
        }
        let (unwind_dt, unwind_rows, status) = match self.unwind(signals) {
            Ok((a, b, c)) => (a, b, c),
            Err(_) => (0, Vec::new(), Status::StatusError),
        };
        self.get_execution(unwind_dt, unwind_rows, status)
    }
}

// ---------------------------------------------------------------------------
// Laws

/// A trade never closes before it opens, nor after the end of its maximum
/// holding period: on bars in ascending order, as `StrategyCase::new` makes
/// them, the exit time of a closed trade lies between the time of its first
/// bar and the time of its maximum-holding bar.
pub proof fn law_exit_within_holding_period(
    bars: Seq<Bar>,
    sc: StrategyConfig,
    tp: Seq<bool>,
    sl: Seq<bool>,
)
    requires
        strictly_ascending(bars),
        bars.len() > 0,
        tp.len() == bars.len(),
        sl.len() == bars.len(),
    ensures
        ({
            let e = spec_execution(bars, sc, tp, sl);
            e.status != Status::StatusError ==> {
                &&& e.datetime_in <= e.datetime_out
                &&& e.datetime_out <= bars[max_holding_index(
                    bars.len() as int,
                    sc.period_twap_out as int,
                )].timestamp
            }
        }),
{
    lemma_strictly_ascending_time_ordered(bars);
    let k = sc.period_twap_out as int;
    if k > 0 {
        let mh = bars[max_holding_index(bars.len() as int, k)].timestamp;
        assert(bars[0].timestamp <= mh);
        if let Some(i) = first_hit(tp) {
            assert(bars[0].timestamp <= bars[i].timestamp);
        }
        if let Some(i) = first_hit(sl) {
            assert(bars[0].timestamp <= bars[i].timestamp);
        }
    }
}

/// A trade's exit price is averaged over at most `period_twap_out` bars, all
/// bars of the trade strictly after its exit time: exit row `j` is the row of
/// the bar at position `pos[j]`.
pub proof fn law_exit_rows_after_exit(
    bars: Seq<Bar>,
    sc: StrategyConfig,
    tp: Seq<bool>,
    sl: Seq<bool>,
    e: ExecutionView,
) -> (pos: Seq<int>)
    requires
        bars.len() > 0,
        e == spec_execution(bars, sc, tp, sl),
    ensures
        e.exit_rows.len() <= sc.period_twap_out,
        pos.len() == e.exit_rows.len(),
        forall|j: int|
            0 <= j < pos.len() ==> {
                &&& 0 <= #[trigger] pos[j] < bars.len()
                &&& bars[pos[j]].row == e.exit_rows[j]
                &&& bars[pos[j]].timestamp > e.datetime_out
            },
{
    let k = sc.period_twap_out as int;
    if spec_unwind(bars, k, tp, sl) is Ok {
        let u = spec_unwind(bars, k, tp, sl)->Ok_0;
        let mh = bars[max_holding_index(bars.len() as int, k)].timestamp;
        let t = min3(mh, hit_time(bars, tp, mh), hit_time(bars, sl, mh));
        let after = bars_after(bars, t);
        lemma_bars_after(bars, t);
        let m = if k < after.len() { k } else { after.len() as int };
        assert(u.1 == rows_of(after.take(m)));
        assert(e.exit_rows == u.1);
        assert(e.datetime_out == t);
        assert(after.take(m).len() == m);
        assert(rows_of(after.take(m)).len() == m);
        let pos = Seq::new(m as nat, |j: int| choose|i: int| 0 <= i < bars.len() && bars[i] == after[j]);
        assert forall|j: int| 0 <= j < pos.len() implies {
            &&& 0 <= #[trigger] pos[j] < bars.len()
            &&& bars[pos[j]].row == e.exit_rows[j]
            &&& bars[pos[j]].timestamp > e.datetime_out
        } by {
            let x = after[j];
            assert(bars.contains(x));
        }
        pos
    } else {
        assert(e.exit_rows.len() == 0);
        Seq::empty()
    }
}

/// Without any take-profit or stop-loss signal, a closed trade is closed for
/// its maximum holding period, at the time of its maximum-holding bar.
pub proof fn law_no_signal_max_holding(bars: Seq<Bar>, sc: StrategyConfig, tp: Seq<bool>, sl: Seq<bool>)
    requires
        bars.len() > 0,
        forall|i: int| 0 <= i < tp.len() ==> !tp[i],
        forall|i: int| 0 <= i < sl.len() ==> !sl[i],
    ensures
        ({
            let e = spec_execution(bars, sc, tp, sl);
            e.status != Status::StatusError ==> {
                &&& e.status == Status::MaxHolding
                &&& e.datetime_out == bars[max_holding_index(
                    bars.len() as int,
                    sc.period_twap_out as int,
                )].timestamp
            }
        }),
{
}

/// A trade enters and exits inside its holding window: the entry time, and
/// the exit time of a trade that is closed, are times of bars of the window.
pub proof fn law_trade_inside_window(
    ts: Seq<i64>,
    sc: StrategyConfig,
    w: Seq<Bar>,
    tp: Seq<bool>,
    sl: Seq<bool>,
)
    requires
        is_window(ts, window_bounds(sc), w),
        w.len() > 0,
        tp.len() == w.len(),
        sl.len() == w.len(),
    ensures
        ({
            let e = spec_execution(w, sc, tp, sl);
            &&& in_window(e.datetime_in, window_bounds(sc))
            &&& e.status != Status::StatusError ==> in_window(e.datetime_out, window_bounds(sc))
        }),
{
    assert(in_window(w[0].timestamp, window_bounds(sc)));
    let k = sc.period_twap_out as int;
    if k > 0 {
        let mh_i = max_holding_index(w.len() as int, k);
        assert(in_window(w[mh_i].timestamp, window_bounds(sc)));
        if let Some(i) = first_hit(tp) {
            assert(in_window(w[i].timestamp, window_bounds(sc)));
        }
        if let Some(i) = first_hit(sl) {
            assert(in_window(w[i].timestamp, window_bounds(sc)));
        }
    }
}

/// A trade that cannot be unwound is still reported: as `StatusError`, exited
/// at time 0 over no rows; otherwise the execution is closed as `spec_unwind`
/// says, with a status other than `StatusError`. Either way it is entered over
/// its first bars at the time of its first bar.
pub proof fn law_unwind_recorded(bars: Seq<Bar>, sc: StrategyConfig, tp: Seq<bool>, sl: Seq<bool>)
    requires
        bars.len() > 0,
    ensures
        ({
            let e = spec_execution(bars, sc, tp, sl);
            &&& e.datetime_in == bars[0].timestamp
            &&& e.entry_rows == entry_rows(bars, sc.period_twap_in as int)
            &&& e.side == sc.side
            &&& match spec_unwind(bars, sc.period_twap_out as int, tp, sl) {
                Ok((t, rows, status)) => {
                    &&& e.datetime_out == t
                    &&& e.exit_rows == rows
                    &&& e.status == status
                    &&& status != Status::StatusError
                },
                Err(_) => {
                    &&& e.datetime_out == 0
                    &&& e.exit_rows.len() == 0
                    &&& e.status == Status::StatusError
                },
            }
        }),
{
}

/// The positions of the bars after `t`: `bars_after` keeps, in order, every
/// bar later than `t` and no other.
proof fn lemma_bars_after_positions(bars: Seq<Bar>, t: i64) -> (pos: Seq<int>)
    ensures
        pos.len() == bars_after(bars, t).len(),
        forall|j: int|
            0 <= j < pos.len() ==> 0 <= #[trigger] pos[j] < bars.len() && bars[pos[j]]
                == bars_after(bars, t)[j] && bars[pos[j]].timestamp > t,
        forall|a: int, b: int| 0 <= a < b < pos.len() ==> #[trigger] pos[a] < #[trigger] pos[b],
        forall|q: int| 0 <= q < bars.len() && #[trigger] bars[q].timestamp > t ==> pos.contains(q),
    decreases bars.len(),
{
    if bars.len() == 0 {
        Seq::empty()
    } else {
        let rest = lemma_bars_after_positions(bars.drop_last(), t);
        let n = bars.len() as int;
        assert forall|q: int| 0 <= q < n - 1 implies #[trigger] bars.drop_last()[q] == bars[q] by {}
        if bars.last().timestamp > t {
            let pos = rest.push(n - 1);
            assert forall|q: int| 0 <= q < n && #[trigger] bars[q].timestamp > t implies pos.contains(q) by {
                if q < n - 1 {
                    assert(bars.drop_last()[q].timestamp > t);
                    let j = choose|j: int| 0 <= j < rest.len() && rest[j] == q;
                    assert(pos[j] == q);
                } else {
                    assert(pos[rest.len() as int] == q);
                }
            }
            pos
        } else {
            assert forall|q: int| 0 <= q < n && #[trigger] bars[q].timestamp > t implies rest.contains(q) by {
                if q < n - 1 {
                    assert(bars.drop_last()[q].timestamp > t);
                }
            }
            rest
        }
    }
}

/// The exit price of a trade is averaged over the first bars after its exit
/// time, in order, no bar skipped: exit row `j` is the row of bar `pos[j]`,
/// positions rise, each such bar is later than the exit time, there are at
/// most `k` of them and at least one, and every bar later than the exit time
/// is among them if fewer than `k` were taken, or if it comes before the last
/// one taken.
pub proof fn law_exit_rows_first_after(bars: Seq<Bar>, k: int, tp: Seq<bool>, sl: Seq<bool>) -> (pos:
    Seq<int>)
    requires
        0 <= k,
    ensures
        spec_unwind(bars, k, tp, sl) matches Ok((t, rows, _status)) ==> {
            &&& pos.len() == rows.len()
            &&& 0 < rows.len() <= k
            &&& forall|j: int|
                0 <= j < pos.len() ==> 0 <= #[trigger] pos[j] < bars.len() && bars[pos[j]].row
                    == rows[j] && bars[pos[j]].timestamp > t
            &&& forall|a: int, b: int| 0 <= a < b < pos.len() ==> #[trigger] pos[a] < #[trigger] pos[b]
            &&& forall|q: int|
                0 <= q < bars.len() && #[trigger] bars[q].timestamp > t && (rows.len() < k || q
                    < pos[pos.len() - 1]) ==> pos.contains(q)
        },
{
    if spec_unwind(bars, k, tp, sl) is Ok {
        let mh = bars[max_holding_index(bars.len() as int, k)].timestamp;
        let t = min3(mh, hit_time(bars, tp, mh), hit_time(bars, sl, mh));
        let after = bars_after(bars, t);
        let all = lemma_bars_after_positions(bars, t);
        let m = if k < after.len() { k } else { after.len() as int };
        let rows = spec_unwind(bars, k, tp, sl)->Ok_0.1;
        assert(rows == rows_of(after.take(m)));
        assert(after.take(m).len() == m);
        assert(rows.len() == m);
        let pos = all.take(m);
        assert forall|j: int| 0 <= j < pos.len() implies 0 <= #[trigger] pos[j] < bars.len()
            && bars[pos[j]].row == rows[j] && bars[pos[j]].timestamp > t by {
            assert(all[j] == pos[j]);
            assert(rows[j] == after.take(m)[j].row);
        }
        assert forall|a: int, b: int| 0 <= a < b < pos.len() implies #[trigger] pos[a] < #[trigger] pos[b] by {
            assert(all[a] < all[b]);
        }
        assert forall|q: int|
            0 <= q < bars.len() && #[trigger] bars[q].timestamp > t && (rows.len() < k || q < pos[pos.len()
                - 1]) implies pos.contains(q) by {
            assert(all.contains(q));
            let j = choose|j: int| 0 <= j < all.len() && all[j] == q;
            if j >= m {
                if rows.len() >= k {
                    if j > m - 1 {
                        assert(all[m - 1] < all[j]);
                    }
                }
            }
            assert(j < m);
            assert(pos[j] == q);
        }
        pos
    } else {
        Seq::empty()
    }
}

/// When and why a trade closes. With `mhi` the max-holding bar (the first of
/// the last `k` bars, or the first bar), a trade that is closed closes at
/// the time of some bar `src`; no later than the max-holding bar, the first
/// take-profit bar or the first stop-loss bar; for its maximum holding period
/// exactly when that is the max-holding bar's time; at the first take-profit
/// bar when closed by take profit; and at the first stop-loss bar, strictly
/// before the max-holding bar and the first take-profit bar, when closed by
/// stop loss.
pub proof fn law_exit_time_earliest(bars: Seq<Bar>, k: int, tp: Seq<bool>, sl: Seq<bool>) -> (src: int)
    requires
        0 <= k,
        tp.len() == bars.len(),
        sl.len() == bars.len(),
    ensures
        spec_unwind(bars, k, tp, sl) matches Ok((t, _rows, status)) ==> {
            let mhi = if k >= bars.len() { 0 } else { bars.len() - k };
            &&& 0 <= mhi < bars.len()
            &&& t <= bars[mhi].timestamp
            &&& forall|i: int|
                0 <= i < bars.len() && #[trigger] tp[i] && (forall|j: int| 0 <= j < i ==> !tp[j]) ==> t
                    <= bars[i].timestamp
            &&& forall|i: int|
                0 <= i < bars.len() && #[trigger] sl[i] && (forall|j: int| 0 <= j < i ==> !sl[j]) ==> t
                    <= bars[i].timestamp
            &&& 0 <= src < bars.len()
            &&& bars[src].timestamp == t
            &&& status != Status::StatusError
            &&& (status == Status::MaxHolding <==> t == bars[mhi].timestamp)
            &&& status == Status::TakeProfit ==> tp[src] && forall|j: int| 0 <= j < src ==> !tp[j]
            &&& status == Status::StopLoss ==> {
                &&& sl[src]
                &&& forall|j: int| 0 <= j < src ==> !sl[j]
                &&& forall|i: int|
                    0 <= i < bars.len() && #[trigger] tp[i] && (forall|j: int| 0 <= j < i ==> !tp[j])
                        ==> t < bars[i].timestamp
            }
        },
{
    if spec_unwind(bars, k, tp, sl) is Ok {
        let n = bars.len() as int;
        let mhi = max_holding_index(n, k);
        let mh = bars[mhi].timestamp;
        law_first_hit(tp);
        law_first_hit(sl);
        let tpt = hit_time(bars, tp, mh);
        let slt = hit_time(bars, sl, mh);
        let t = min3(mh, tpt, slt);
        let status = exit_status(mh, tpt, slt);
        assert forall|i: int|
            0 <= i < n && #[trigger] tp[i] && (forall|j: int| 0 <= j < i ==> !tp[j]) implies tpt
                == bars[i].timestamp by {
            let f = first_hit(tp)->Some_0;
            if f < i {
                assert(!tp[f]);
            }
            if i < f {
                assert(!tp[i]);
            }
        }
        assert forall|i: int|
            0 <= i < n && #[trigger] sl[i] && (forall|j: int| 0 <= j < i ==> !sl[j]) implies slt
                == bars[i].timestamp by {
            let f = first_hit(sl)->Some_0;
            if f < i {
                assert(!sl[f]);
            }
            if i < f {
                assert(!sl[i]);
            }
        }
        if t == mh {
            mhi
        } else if t == tpt {
            first_hit(tp)->Some_0
        } else {
            first_hit(sl)->Some_0
        }
    } else {
        0
    }
}

/// When a trade cannot be unwound: with no exit period or no bars there is no
/// max-holding bar; otherwise there is no exit price only where no bar is
/// later than the max-holding bar, the first take-profit bar or the first
/// stop-loss bar.
pub proof fn law_unwind_errors(bars: Seq<Bar>, k: int, tp: Seq<bool>, sl: Seq<bool>)
    requires
        0 <= k,
        tp.len() == bars.len(),
        sl.len() == bars.len(),
    ensures
        (spec_unwind(bars, k, tp, sl) == Err::<(i64, Seq<usize>, Status), CaseError>(
            CaseError::MaxHoldingBar,
        )) <==> (k == 0 || bars.len() == 0),
        spec_unwind(bars, k, tp, sl) is Err ==> spec_unwind(bars, k, tp, sl)->Err_0
            == CaseError::MaxHoldingBar || spec_unwind(bars, k, tp, sl)->Err_0 == CaseError::ExitPrice,
        spec_unwind(bars, k, tp, sl) == Err::<(i64, Seq<usize>, Status), CaseError>(
            CaseError::ExitPrice,
        ) ==> {
            let mhi = if k >= bars.len() { 0 } else { bars.len() - k };
            forall|q: int|
                0 <= q < bars.len() ==> {
                    &&& #[trigger] bars[q].timestamp <= bars[mhi].timestamp
                    &&& forall|i: int|
                        0 <= i < bars.len() && #[trigger] tp[i] && (forall|j: int| 0 <= j < i ==> !tp[j])
                            ==> bars[q].timestamp <= bars[i].timestamp
                    &&& forall|i: int|
                        0 <= i < bars.len() && #[trigger] sl[i] && (forall|j: int| 0 <= j < i ==> !sl[j])
                            ==> bars[q].timestamp <= bars[i].timestamp
                }
        },
{
    if k > 0 && bars.len() > 0 && spec_unwind(bars, k, tp, sl) is Err {
        let n = bars.len() as int;
        let mhi = max_holding_index(n, k);
        let mh = bars[mhi].timestamp;
        law_first_hit(tp);
        law_first_hit(sl);
        let tpt = hit_time(bars, tp, mh);
        let slt = hit_time(bars, sl, mh);
        let t = min3(mh, tpt, slt);
        let after = bars_after(bars, t);
        let all = lemma_bars_after_positions(bars, t);
        assert(exit_rows(bars, t, k).len() == 0);
        assert(after.take(if k < after.len() { k } else { after.len() as int }).len() == 0);
        assert(after.len() == 0);
        assert forall|q: int| 0 <= q < n implies #[trigger] bars[q].timestamp <= t by {
            if bars[q].timestamp > t {
                assert(all.contains(q));
            }
        }
        assert forall|i: int|
            0 <= i < n && #[trigger] tp[i] && (forall|j: int| 0 <= j < i ==> !tp[j]) implies tpt
                == bars[i].timestamp by {
            let f = first_hit(tp)->Some_0;
            if f < i {
                assert(!tp[f]);
            }
            if i < f {
                assert(!tp[i]);
            }
        }
        assert forall|i: int|
            0 <= i < n && #[trigger] sl[i] && (forall|j: int| 0 <= j < i ==> !sl[j]) implies slt
                == bars[i].timestamp by {
            let f = first_hit(sl)->Some_0;
            if f < i {
                assert(!sl[f]);
            }
            if i < f {
                assert(!sl[i]);
            }
        }
    }
}

} // verus!
