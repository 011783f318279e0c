//! The input and output records: aggregated trades and range bars.

use crate::fixed_point::FixedPoint;
use vstd::prelude::*;

verus! {

/// One aggregated market trade, as delivered by exchange archives.
///
/// Trades are expected to arrive in non-decreasing `timestamp` order; the
/// processor assumes but does not enforce that ordering.
#[derive(Clone, Copy, Debug, PartialEq, Eq, Structural)]
pub struct AggTrade {
    /// Identifier of this aggregate trade.
    pub agg_trade_id: i64,
    /// Execution price.
    pub price: FixedPoint,
    /// Executed base-asset quantity.
    pub volume: FixedPoint,
    /// Identifier of the first micro-trade this record aggregates.
    pub first_trade_id: i64,
    /// Identifier of the last micro-trade this record aggregates.
    pub last_trade_id: i64,
    /// Event time in milliseconds since the epoch.
    pub timestamp: i64,
    /// True when the buyer was the passive (maker) side, so the aggressive
    /// side was a seller.
    pub is_buyer_maker: bool,
}

impl AggTrade {
    /// Quote turnover of this trade: price times volume on the raw scaled
    /// magnitudes (so the result carries a scale of `10^16`).
    pub open spec fn spec_turnover(self) -> int {
        self.price.0 * self.volume.0
    }

    /// Executable turnover, widened to `i128` so it cannot overflow.
    pub fn turnover(&self) -> (r: i128)
        ensures
            r == self.spec_turnover(),
    {
        proof {
            assert(i128::MIN <= self.price.0 * self.volume.0 <= i128::MAX) by (nonlinear_arith)
                requires
                    i64::MIN <= self.price.0 <= i64::MAX,
                    i64::MIN <= self.volume.0 <= i64::MAX,
            ;
        }
        (self.price.0 as i128) * (self.volume.0 as i128)
    }

    /// A trade the processor accepts: strictly positive price and volume.
    pub open spec fn spec_is_valid(self) -> bool {
        self.price.0 > 0 && self.volume.0 > 0
    }

    /// Executable validity check.
    pub fn is_valid(&self) -> (r: bool)
        ensures
            r == self.spec_is_valid(),
    {
        self.price.0 > 0 && self.volume.0 > 0
    }
}

/// One completed (or still-open) range bar.
///
/// A bar opens at the first trade seen while no bar is open and closes with
/// the first trade whose price reaches one of the thresholds frozen at the
/// bar's open.
#[derive(Clone, Copy, Debug, PartialEq, Eq, Structural)]
pub struct RangeBar {
    /// Timestamp of the opening trade, milliseconds.
    pub open_time: i64,
    /// Timestamp of the most recent trade, milliseconds.
    pub close_time: i64,
    /// Price of the opening trade.
    pub open: FixedPoint,
    /// Highest trade price seen.
    pub high: FixedPoint,
    /// Lowest trade price seen.
    pub low: FixedPoint,
    /// Price of the most recent trade.
    pub close: FixedPoint,
    /// Accumulated base-asset volume.
    pub volume: FixedPoint,
    /// Accumulated quote turnover (scale `10^16`), widened to avoid overflow.
    pub turnover: i128,
    /// Number of trades applied to this bar.
    pub trade_count: i64,
    /// `agg_trade_id` of the opening trade.
    pub first_id: i64,
    /// `agg_trade_id` of the most recent trade.
    pub last_id: i64,
    /// Volume from trades where the aggressive side bought.
    pub buy_volume: FixedPoint,
    /// Volume from trades where the aggressive side sold.
    pub sell_volume: FixedPoint,
    /// Number of trades where the aggressive side bought.
    pub buy_trade_count: i64,
    /// Number of trades where the aggressive side sold.
    pub sell_trade_count: i64,
    /// Volume-weighted average price: turnover divided by volume.
    pub vwap: FixedPoint,
    /// Turnover from trades where the aggressive side bought.
    pub buy_turnover: i128,
    /// Turnover from trades where the aggressive side sold.
    pub sell_turnover: i128,
}

/// The mathematical shadow of a [`RangeBar`]: the same fields over
/// unbounded integers, for use in specifications.
pub ghost struct BarModel {
    pub open_time: int,
    pub close_time: int,
    pub open: int,
    pub high: int,
    pub low: int,
    pub close: int,
    pub volume: int,
    pub turnover: int,
    pub trade_count: int,
    pub first_id: int,
    pub last_id: int,
    pub buy_volume: int,
    pub sell_volume: int,
    pub buy_trade_count: int,
    pub sell_trade_count: int,
    pub vwap: int,
    pub buy_turnover: int,
    pub sell_turnover: int,
}

impl View for RangeBar {
    type V = BarModel;

    open spec fn view(&self) -> BarModel {
        BarModel {
            open_time: self.open_time as int,
            close_time: self.close_time as int,
            open: self.open.0 as int,
            high: self.high.0 as int,
            low: self.low.0 as int,
            close: self.close.0 as int,
            volume: self.volume.0 as int,
            turnover: self.turnover as int,
            trade_count: self.trade_count as int,
            first_id: self.first_id as int,
            last_id: self.last_id as int,
            buy_volume: self.buy_volume.0 as int,
            sell_volume: self.sell_volume.0 as int,
            buy_trade_count: self.buy_trade_count as int,
            sell_trade_count: self.sell_trade_count as int,
            vwap: self.vwap.0 as int,
            buy_turnover: self.buy_turnover as int,
            sell_turnover: self.sell_turnover as int,
        }
    }
}

/// The record-level invariants that hold of every bar the processor
/// produces from valid, time-ordered trades.
pub open spec fn bar_well_formed(b: BarModel) -> bool {
    &&& b.high >= b.open && b.high >= b.close
    &&& b.low <= b.open && b.low <= b.close
    &&& b.buy_volume + b.sell_volume == b.volume
    &&& b.buy_trade_count + b.sell_trade_count == b.trade_count
    &&& b.buy_turnover + b.sell_turnover == b.turnover
    &&& b.trade_count >= 1
    &&& b.close_time >= b.open_time
}

} // verus!
