use vstd::prelude::*;

verus! {

/// Why a trade was closed.
#[derive(Debug, Clone, Copy, PartialEq, Eq, Structural)]
pub enum Status {
    TakeProfit,
    StopLoss,
    MaxHolding,
    StatusError,
}

/// Direction of a trade.
#[derive(Debug, Clone, Copy, PartialEq, Eq, Structural)]
pub enum Side {
    Buy,
    Sell,
}

/// The name under which a status is reported.
pub open spec fn status_label(s: Status) -> Seq<char> {
    match s {
        Status::TakeProfit => "TakeProfit"@,
        Status::StopLoss => "StopLoss"@,
        Status::MaxHolding => "MaxHolding"@,
        Status::StatusError => "StatusError"@,
    }
}

/// The name under which a side is reported.
pub open spec fn side_label(s: Side) -> Seq<char> {
    match s {
        Side::Buy => "Buy"@,
        Side::Sell => "Sell"@,
    }
}

impl Status {
    /// The name under which this status is reported.
    pub fn label(&self) -> (r: &'static str)
        ensures
            r@ == status_label(*self),
    {
        match self {
            Status::TakeProfit => "TakeProfit",
            Status::StopLoss => "StopLoss",
            Status::MaxHolding => "MaxHolding",
            Status::StatusError => "StatusError",
        }
    }
}

impl Side {
    /// The name under which this side is reported.
    pub fn label(&self) -> (r: &'static str)
        ensures
            r@ == side_label(*self),
    {
        match self {
            Side::Buy => "Buy",
            Side::Sell => "Sell",
        }
    }
}

/// A closed trade.
///
/// Prices are not held here but what they are computed from: with a fee rate
/// of `fees_bps / 10000`, the entry price is the mean close of the rows in
/// `entry_rows` times one plus the fee rate, and the exit price is the mean,
/// over the rows in `exit_rows`, of the close times one minus the fee rate
/// (zero for `StatusError`). Rows are positions in the price table the bars
/// were taken from.
#[derive(Debug)]
pub struct Execution {
    pub entry_rows: Vec<usize>,
    pub exit_rows: Vec<usize>,
    pub fees_bps: i32,
    pub status: Status,
    pub datetime_in: i64,
    pub datetime_out: i64,
    pub side: Side,
}

/// Mathematical model of an [`Execution`].
pub struct ExecutionView {
    pub entry_rows: Seq<usize>,
    pub exit_rows: Seq<usize>,
    pub fees_bps: i32,
    pub status: Status,
    pub datetime_in: i64,
    pub datetime_out: i64,
    pub side: Side,
}

impl View for Execution {
    type V = ExecutionView;

    open spec fn view(&self) -> ExecutionView {
        ExecutionView {
            entry_rows: self.entry_rows@,
            exit_rows: self.exit_rows@,
            fees_bps: self.fees_bps,
            status: self.status,
            datetime_in: self.datetime_in,
            datetime_out: self.datetime_out,
            side: self.side,
        }
    }
}

impl Execution {
    pub fn new(
        entry_rows: Vec<usize>,
        exit_rows: Vec<usize>,
        fees_bps: i32,
        status: Status,
        datetime_in: i64,
        datetime_out: i64,
        side: Side,
    ) -> (r: Execution)
        ensures
            r@ == (ExecutionView {
                entry_rows: entry_rows@,
                exit_rows: exit_rows@,
                fees_bps,
                status,
                datetime_in,
                datetime_out,
                side,
            }),
    {
        Execution { entry_rows, exit_rows, fees_bps, status, datetime_in, datetime_out, side }
    }
}

} // verus!
