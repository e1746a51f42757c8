//! A back-test over many trade settings on one price table.
use vstd::prelude::*;

use super::execution::{side_label, status_label, Execution, ExecutionView};
use super::bars::Bar;
use super::execution::Status;
use super::strategy_case::{
    case_opens, holding_end_ok, in_window, is_window, law_trade_inside_window, lemma_window_of,
    spec_run_case, window_bounds, window_of, Signals, StrategyCase,
};
use super::strategy_config::{fees_ok, StrategyConfig};

verus! {

/// A back-test: the timestamps of the rows of a price table, and the settings
/// of the trades to run on it.
#[derive(Debug)]
pub struct Strategy {
    bar_data: Vec<i64>,
    strategy_configs: Vec<StrategyConfig>,
}

/// The columns of a table of executions that hold no price.
#[derive(Debug)]
pub struct ExecutionColumns {
    pub status: Vec<String>,
    pub datetime_in: Vec<i64>,
    pub datetime_out: Vec<i64>,
    pub side: Vec<String>,
}

/// The execution that the trade with settings `sc` yields, if any. A trade
/// yields none where it cannot be opened, and where its signals do not fit
/// its bars.
pub open spec fn config_outcome(ts: Seq<i64>, sc: StrategyConfig, signals: Signals) -> Option<
    ExecutionView,
> {
    if case_opens(ts, sc) {
        match spec_run_case(window_of(ts, window_bounds(sc)), sc, signals) {
            Ok(e) => Some(e),
            Err(_) => None,
        }
    } else {
        None
    }
}

/// The executions of the first `k` trades, in order, each with its signals.
pub open spec fn spec_run(
    ts: Seq<i64>,
    configs: Seq<StrategyConfig>,
    signals: Seq<Signals>,
    k: nat,
) -> Seq<ExecutionView>
    decreases k,
{
    if k == 0 {
        Seq::empty()
    } else {
        let prev = spec_run(ts, configs, signals, (k - 1) as nat);
        match config_outcome(ts, configs[k - 1], signals[k - 1]) {
            Some(e) => prev.push(e),
            None => prev,
        }
    }
}

pub open spec fn views(executions: Seq<Execution>) -> Seq<ExecutionView> {
    executions.map_values(|e: Execution| e@)
}

impl Strategy {
    /// The timestamps of the rows of the price table.
    pub closed spec fn bar_timestamps(&self) -> Seq<i64> {
        self.bar_data@
    }

    /// The settings of the trades.
    pub closed spec fn configs(&self) -> Seq<StrategyConfig> {
        self.strategy_configs@
    }

    pub fn new(bar_data: Vec<i64>, strategy_configs: Vec<StrategyConfig>) -> (r: Strategy)
        ensures
            r.bar_timestamps() == bar_data@,
            r.configs() == strategy_configs@,
    {
        Strategy { bar_data, strategy_configs }
    }

    /// Runs every trade, the `k`-th with `signals[k]`, and collects the
    /// executions of those that can be opened and run, in order.
    pub fn run(&self, signals: &Vec<Signals>) -> (r: Vec<Execution>)
        requires
            signals.len() == self.configs().len(),
            forall|k: int|
                0 <= k < self.configs().len() ==> holding_end_ok(#[trigger] self.configs()[k])
                    && fees_ok(self.configs()[k]),
        ensures
            views(r@) == spec_run(
                self.bar_timestamps(),
                self.configs(),
                signals@,
                self.configs().len(),
            ),
    {
        let mut executions: Vec<Execution> = Vec::new();
        let n = self.strategy_configs.len();
        for k in 0..n
            invariant
                n == self.strategy_configs.len(),
                signals.len() == n,
                forall|j: int|
                    0 <= j < n ==> holding_end_ok(#[trigger] self.strategy_configs@[j])
                        && fees_ok(self.strategy_configs@[j]),
                views(executions@) == spec_run(
                    self.bar_data@,
                    self.strategy_configs@,
                    signals@,
                    k as nat,
                ),
        {
            let ghost prev = executions@;
            let strategy_config = self.strategy_configs[k];
            match StrategyCase::new(&self.bar_data, strategy_config) {
                Ok(case) => {
                    match case.run(&signals[k]) {
                        Ok(e) => {
                            executions.push(e);
                            proof {
                                assert(views(executions@) =~= views(prev).push(e@));
                            }
                        },
                        Err(_) => {},
                    }
                },
                Err(_) => {},
            }
        }
        executions
    }

    /// The status, entry time, exit time and side columns of a table of
    /// executions, one row per execution, in order.
    pub fn concat(executions: &Vec<Execution>) -> (r: ExecutionColumns)
        ensures
            r.status.len() == executions.len(),
            r.datetime_in.len() == executions.len(),
            r.datetime_out.len() == executions.len(),
            r.side.len() == executions.len(),
            forall|i: int|
                0 <= i < executions.len() ==> {
                    &&& (#[trigger] r.status[i])@ == status_label(executions[i].status)
                    &&& r.datetime_in[i] == executions[i].datetime_in
                    &&& r.datetime_out[i] == executions[i].datetime_out
                    &&& r.side[i]@ == side_label(executions[i].side)
                },
    {
        let mut status: Vec<String> = Vec::new();
        let mut datetime_in: Vec<i64> = Vec::new();
        let mut datetime_out: Vec<i64> = Vec::new();
        let mut side: Vec<String> = Vec::new();
        let mut i: usize = 0;
        while i < executions.len()
            invariant
                i <= executions.len(),
                status.len() == i,
                datetime_in.len() == i,
                datetime_out.len() == i,
                side.len() == i,
                forall|j: int| 0 <= j < i ==> (#[trigger] status[j])@ == status_label(executions[j].status),
                forall|j: int| 0 <= j < i ==> #[trigger] datetime_in[j] == executions[j].datetime_in,
                forall|j: int| 0 <= j < i ==> #[trigger] datetime_out[j] == executions[j].datetime_out,
                forall|j: int| 0 <= j < i ==> (#[trigger] side[j])@ == side_label(executions[j].side),
            decreases executions.len() - i,
        {
            let exec = &executions[i];
            let st: String = exec.status.label().to_owned();
            let si: String = exec.side.label().to_owned();
            assert(st@ == status_label(exec.status));
            assert(si@ == side_label(exec.side));
            let ghost old_status = status@;
            let ghost old_side = side@;
            status.push(st);
            datetime_in.push(exec.datetime_in);
            datetime_out.push(exec.datetime_out);
            side.push(si);
            proof {
                assert forall|j: int| 0 <= j < i + 1 implies (#[trigger] status[j])@ == status_label(
                    executions[j].status,
                ) by {
                    if j < i {
                        assert(status@[j] == old_status[j]);
                    }
                }
                assert forall|j: int| 0 <= j < i + 1 implies (#[trigger] side[j])@ == side_label(
                    executions[j].side,
                ) by {
                    if j < i {
                        assert(side@[j] == old_side[j]);
                    }
                }
            }
            i = i + 1;
        }
        ExecutionColumns { status, datetime_in, datetime_out, side }
    }
}

/// A back-test yields at most one execution per trade.
pub proof fn law_run_at_most_one_per_config(
    ts: Seq<i64>,
    configs: Seq<StrategyConfig>,
    signals: Seq<Signals>,
    k: nat,
)
    ensures
        spec_run(ts, configs, signals, k).len() <= k,
    decreases k,
{
    if k > 0 {
        law_run_at_most_one_per_config(ts, configs, signals, (k - 1) as nat);
    }
}

/// Trades with identical settings and signals give identical executions: a
/// back-test of `k` copies of one trade yields either nothing or `k` copies
/// of that trade's execution.
pub proof fn law_run_uniform(
    ts: Seq<i64>,
    configs: Seq<StrategyConfig>,
    signals: Seq<Signals>,
    sc: StrategyConfig,
    sig: Signals,
    k: nat,
)
    requires
        k <= configs.len(),
        k <= signals.len(),
        forall|i: int| 0 <= i < k ==> #[trigger] configs[i] == sc,
        forall|i: int| 0 <= i < k ==> #[trigger] signals[i] == sig,
    ensures
        config_outcome(ts, sc, sig) is None ==> spec_run(ts, configs, signals, k).len() == 0,
        config_outcome(ts, sc, sig) matches Some(e) ==> spec_run(ts, configs, signals, k) == Seq::new(
            k,
            |_i: int| e,
        ),
    decreases k,
{
    if k > 0 {
        law_run_uniform(ts, configs, signals, sc, sig, (k - 1) as nat);
        assert(configs[k - 1] == sc);
        assert(signals[k - 1] == sig);
        if let Some(e) = config_outcome(ts, sc, sig) {
            assert(spec_run(ts, configs, signals, k) =~= Seq::new(k, |_i: int| e));
        }
    }
}

/// Each trade of a back-test runs on its own: the executions of a back-test
/// are those of its first `j` trades followed by those of a back-test of the
/// remaining trades alone, whatever trades come before them.
pub proof fn law_run_split(
    ts: Seq<i64>,
    configs: Seq<StrategyConfig>,
    signals: Seq<Signals>,
    j: nat,
    k: nat,
)
    requires
        j <= k,
        k <= configs.len(),
        k <= signals.len(),
    ensures
        spec_run(ts, configs, signals, k) == spec_run(ts, configs, signals, j) + spec_run(
            ts,
            configs.skip(j as int),
            signals.skip(j as int),
            (k - j) as nat,
        ),
    decreases k,
{
    if k == j {
        assert(spec_run(ts, configs, signals, j) + spec_run(
            ts,
            configs.skip(j as int),
            signals.skip(j as int),
            0,
        ) =~= spec_run(ts, configs, signals, j));
    } else {
        law_run_split(ts, configs, signals, j, (k - 1) as nat);
        let a = spec_run(ts, configs, signals, j);
        let b = spec_run(ts, configs.skip(j as int), signals.skip(j as int), (k - 1 - j) as nat);
        assert(configs.skip(j as int)[k - 1 - j] == configs[k - 1]);
        assert(signals.skip(j as int)[k - 1 - j] == signals[k - 1]);
        match config_outcome(ts, configs[k - 1], signals[k - 1]) {
            Some(e) => {
                assert((a + b).push(e) =~= a + b.push(e));
            },
            None => {},
        }
    }
}

/// A trade run alone yields its execution exactly when it opens and runs: the
/// trade is opened on the bars of its own window, and entered and, unless it
/// cannot be unwound, exited inside that window.
pub proof fn law_run_single(ts: Seq<i64>, sc: StrategyConfig, sig: Signals, w: Seq<Bar>)
    requires
        is_window(ts, window_bounds(sc), w),
    ensures
        spec_run(ts, seq![sc], seq![sig], 1).len() <= 1,
        spec_run(ts, seq![sc], seq![sig], 1).len() == 1 <==> (case_opens(ts, sc)
            && sig.take_profit_hit@.len() == w.len() && sig.stop_loss_hit@.len() == w.len()),
        spec_run(ts, seq![sc], seq![sig], 1).len() == 1 ==> {
            let e = spec_run(ts, seq![sc], seq![sig], 1)[0];
            &&& e.datetime_in == w[0].timestamp
            &&& in_window(e.datetime_in, window_bounds(sc))
            &&& e.status != Status::StatusError ==> in_window(e.datetime_out, window_bounds(sc))
            &&& e.side == sc.side
        },
{
    lemma_window_of(ts, window_bounds(sc), w);
    assert(spec_run(ts, seq![sc], seq![sig], 0).len() == 0);
    if case_opens(ts, sc) {
        let r = choose|r: int| 0 <= r < ts.len() && in_window(#[trigger] ts[r], window_bounds(sc));
        assert(w.contains(Bar { timestamp: ts[r], row: r as usize }));
        if sig.take_profit_hit@.len() == w.len() && sig.stop_loss_hit@.len() == w.len() {
            law_trade_inside_window(ts, sc, w, sig.take_profit_hit@, sig.stop_loss_hit@);
        }
    }
}

} // verus!
