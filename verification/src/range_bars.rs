//! The range bar construction state machine.
//!
//! A processor consumes an ordered stream of trades. The first trade opens a
//! bar at its price; the two breach thresholds are computed from that opening
//! price once and never again (non-lookahead bias). Every later trade updates
//! the open bar, and the first trade whose price reaches or crosses a frozen
//! threshold closes the bar and immediately opens the next bar at its own
//! price, so the breaching trade is both the closing trade of one bar and the
//! opening trade of the next.
//!
//! The whole construction is specified by the pure transition function
//! [`step_model`] and its fold [`process_model`]; the executable processor is
//! proved to compute exactly that fold, which is what makes splitting a
//! stream into batches harmless (see [`lemma_chunk_invariance`]).

use crate::fixed_point::FixedPoint;
use crate::types::{AggTrade, BarModel, RangeBar, bar_well_formed};
use vstd::arithmetic::div_mod::*;
use vstd::prelude::*;

verus! {

/// The denominator of the threshold ratio: a `threshold_bps` parameter of
/// `8000` means a move of `8000 / 1_000_000 = 0.8%` closes a bar.
pub const THRESHOLD_DENOMINATOR: u32 = 1_000_000;

/// The price move, in raw scaled units, that closes a bar opened at `open`.
pub open spec fn threshold_delta(open: int, threshold_bps: int) -> int {
    open * threshold_bps / 1_000_000
}

/// The frozen upper breach threshold of a bar opened at `open`.
pub open spec fn upper_threshold(open: int, threshold_bps: int) -> int {
    open + threshold_delta(open, threshold_bps)
}

/// The frozen lower breach threshold of a bar opened at `open`.
pub open spec fn lower_threshold(open: int, threshold_bps: int) -> int {
    open - threshold_delta(open, threshold_bps)
}

/// Does a trade at `price` close a bar opened at `open`? Reaching either
/// frozen threshold is enough (breach is inclusive).
pub open spec fn breaches(price: int, open: int, threshold_bps: int) -> bool {
    price >= upper_threshold(open, threshold_bps) || price <= lower_threshold(
        open,
        threshold_bps,
    )
}

/// The bar seeded by a single trade: open, high, low and close all at the
/// trade's price.
pub open spec fn seed_bar(t: AggTrade) -> BarModel {
    BarModel {
        open_time: t.timestamp as int,
        close_time: t.timestamp as int,
        open: t.price.0 as int,
        high: t.price.0 as int,
        low: t.price.0 as int,
        close: t.price.0 as int,
        volume: t.volume.0 as int,
        turnover: t.spec_turnover(),
        trade_count: 1,
        first_id: t.agg_trade_id as int,
        last_id: t.agg_trade_id as int,
        buy_volume: if t.is_buyer_maker {
            0
        } else {
            t.volume.0 as int
        },
        sell_volume: if t.is_buyer_maker {
            t.volume.0 as int
        } else {
            0
        },
        buy_trade_count: if t.is_buyer_maker {
            0
        } else {
            1
        },
        sell_trade_count: if t.is_buyer_maker {
            1
        } else {
            0
        },
        vwap: if t.volume.0 > 0 {
            t.spec_turnover() / t.volume.0 as int
        } else {
            t.price.0 as int
        },
        buy_turnover: if t.is_buyer_maker {
            0
        } else {
            t.spec_turnover()
        },
        sell_turnover: if t.is_buyer_maker {
            t.spec_turnover()
        } else {
            0
        },
    }
}

/// A bar after one more trade: close price, extremes, accumulators and the
/// maker-side splits are updated; the open and the times of the opening
/// trade stay as they are.
pub open spec fn apply_trade(b: BarModel, t: AggTrade) -> BarModel {
    let volume = b.volume + t.volume.0;
    let turnover = b.turnover + t.spec_turnover();
    BarModel {
        open_time: b.open_time,
        close_time: t.timestamp as int,
        open: b.open,
        high: if t.price.0 > b.high {
            t.price.0 as int
        } else {
            b.high
        },
        low: if t.price.0 < b.low {
            t.price.0 as int
        } else {
            b.low
        },
        close: t.price.0 as int,
        volume: volume,
        turnover: turnover,
        trade_count: b.trade_count + 1,
        first_id: b.first_id,
        last_id: t.agg_trade_id as int,
        buy_volume: b.buy_volume + if t.is_buyer_maker {
            0int
        } else {
            t.volume.0 as int
        },
        sell_volume: b.sell_volume + if t.is_buyer_maker {
            t.volume.0 as int
        } else {
            0int
        },
        buy_trade_count: b.buy_trade_count + if t.is_buyer_maker {
            0int
        } else {
            1int
        },
        sell_trade_count: b.sell_trade_count + if t.is_buyer_maker {
            1int
        } else {
            0int
        },
        vwap: if volume > 0 {
            turnover / volume
        } else {
            b.open
        },
        buy_turnover: b.buy_turnover + if t.is_buyer_maker {
            0int
        } else {
            t.spec_turnover()
        },
        sell_turnover: b.sell_turnover + if t.is_buyer_maker {
            t.spec_turnover()
        } else {
            0int
        },
    }
}

/// One transition of the state machine: the open bar (if any) and the bars
/// completed by this trade.
///
/// With no bar open, the trade seeds one. Otherwise the bar is updated with
/// the trade first; then the trade's own price is compared against the
/// thresholds frozen at the bar's open, and on a breach the updated bar is
/// emitted and a new bar is seeded from the same trade.
pub open spec fn step_model(cur: Option<BarModel>, t: AggTrade, threshold_bps: int) -> (
    Option<BarModel>,
    Seq<BarModel>,
) {
    match cur {
        None => (Some(seed_bar(t)), Seq::<BarModel>::empty()),
        Some(b) => {
            let updated = apply_trade(b, t);
            if breaches(t.price.0 as int, b.open, threshold_bps) {
                (Some(seed_bar(t)), seq![updated])
            } else {
                (Some(updated), Seq::<BarModel>::empty())
            }
        },
    }
}

/// The fold of [`step_model`] over a whole trade sequence: the final open
/// bar and all bars completed along the way, in order.
pub open spec fn process_model(
    cur: Option<BarModel>,
    trades: Seq<AggTrade>,
    threshold_bps: int,
) -> (Option<BarModel>, Seq<BarModel>)
    decreases trades.len(),
{
    if trades.len() == 0 {
        (cur, Seq::<BarModel>::empty())
    } else {
        let first = step_model(cur, trades[0], threshold_bps);
        let rest = process_model(first.0, trades.drop_first(), threshold_bps);
        (rest.0, first.1 + rest.1)
    }
}

/// Do all of a bar's accumulator fields fit the machine integers that store
/// them? The prices and times of a bar always fit, since they are copied from
/// trade fields; the sums and the volume-weighted average are the fields a
/// long enough stream could overflow.
pub open spec fn bar_in_range(b: BarModel) -> bool {
    &&& 0 < b.low <= b.open <= b.high <= i64::MAX
    &&& b.low <= b.close <= b.high
    &&& 0 <= b.volume <= i64::MAX
    &&& 0 <= b.buy_volume <= i64::MAX
    &&& 0 <= b.sell_volume <= i64::MAX
    &&& 0 <= b.turnover <= i128::MAX
    &&& 0 <= b.buy_turnover <= i128::MAX
    &&& 0 <= b.sell_turnover <= i128::MAX
    &&& 1 <= b.trade_count <= i64::MAX
    &&& 0 <= b.buy_trade_count <= i64::MAX
    &&& 0 <= b.sell_trade_count <= i64::MAX
    &&& 0 <= b.vwap <= i64::MAX
}

/// Does every bar built while folding the trades stay within machine range?
/// This is the one machine-limit precondition of the processor: it always
/// holds in practice (an `i64` volume accumulator outlasts centuries of
/// trading), but an `i64` has to be allowed to run out somewhere.
pub open spec fn process_in_range(
    cur: Option<BarModel>,
    trades: Seq<AggTrade>,
    threshold_bps: int,
) -> bool
    decreases trades.len(),
{
    if trades.len() == 0 {
        true
    } else {
        let first = step_model(cur, trades[0], threshold_bps);
        &&& (first.0 matches Some(b) ==> bar_in_range(b))
        &&& (forall|k: int| 0 <= k < first.1.len() ==> bar_in_range(#[trigger] first.1[k]))
        &&& process_in_range(first.0, trades.drop_first(), threshold_bps)
    }
}

/// Are all trades of the sequence acceptable to the processor?
pub open spec fn all_trades_valid(trades: Seq<AggTrade>) -> bool {
    forall|k: int| 0 <= k < trades.len() ==> (#[trigger] trades[k]).spec_is_valid()
}

/// Index of the first invalid trade, or the length if all are valid.
pub open spec fn first_invalid_index(trades: Seq<AggTrade>) -> int
    decreases trades.len(),
{
    if trades.len() == 0 {
        0
    } else if !trades[0].spec_is_valid() {
        0
    } else {
        1 + first_invalid_index(trades.drop_first())
    }
}

/// `first_invalid_index` really is the index of the first invalid trade.
pub proof fn lemma_first_invalid_index(trades: Seq<AggTrade>)
    ensures
        0 <= first_invalid_index(trades) <= trades.len(),
        first_invalid_index(trades) < trades.len() ==> !trades[first_invalid_index(
            trades,
        )].spec_is_valid(),
        forall|j: int|
            0 <= j < first_invalid_index(trades) ==> (#[trigger] trades[j]).spec_is_valid(),
        first_invalid_index(trades) == trades.len() <==> all_trades_valid(trades),
    decreases trades.len(),
{
    if trades.len() == 0 {
    } else if !trades[0].spec_is_valid() {
    } else {
        lemma_first_invalid_index(trades.drop_first());
        assert forall|j: int| 0 <= j < first_invalid_index(trades) implies (
        #[trigger] trades[j]).spec_is_valid() by {
            if j > 0 {
                assert(trades.drop_first()[j - 1] == trades[j]);
            }
        }
        if first_invalid_index(trades) < trades.len() {
            assert(trades.drop_first()[first_invalid_index(trades.drop_first())]
                == trades[first_invalid_index(trades)]);
        }
        if first_invalid_index(trades) == trades.len() {
            assert forall|k: int| 0 <= k < trades.len() implies (
            #[trigger] trades[k]).spec_is_valid() by {
                if k > 0 {
                    assert(trades.drop_first()[k - 1] == trades[k]);
                }
            }
        }
        if all_trades_valid(trades) {
            assert forall|k: int|
                0 <= k < trades.drop_first().len() implies (
            #[trigger] trades.drop_first()[k]).spec_is_valid() by {
                assert(trades.drop_first()[k] == trades[k + 1]);
            }
        }
    }
}

/// Rejection of a batch by [`RangeBarProcessor::process_trades`].
#[derive(Clone, Copy, Debug, PartialEq, Eq, Structural)]
pub enum ProcessingError {
    /// A trade had a non-positive price or volume; the batch was rejected
    /// before any state changed. Carries the offending trade's identifier.
    InvalidTrade { agg_trade_id: i64 },
}

/// The mathematical state of a processor: its configured threshold and the
/// currently open bar, if any.
pub ghost struct ProcessorModel {
    pub threshold_bps: int,
    pub current: Option<BarModel>,
}

/// The core range bar processor: one open bar and a frozen threshold
/// parameter. [`Self::process_trades`] folds [`step_model`] over its input.
pub struct RangeBarProcessor {
    threshold_bps: u32,
    current: Option<RangeBar>,
}

impl View for RangeBarProcessor {
    type V = ProcessorModel;

    closed spec fn view(&self) -> ProcessorModel {
        ProcessorModel {
            threshold_bps: self.threshold_bps as int,
            current: match self.current {
                None => None,
                Some(b) => Some(b@),
            },
        }
    }
}


/// The views of a vector of bars.
pub open spec fn bars_view(bars: Seq<RangeBar>) -> Seq<BarModel> {
    bars.map_values(|b: RangeBar| b@)
}

/// Folding a concatenation is folding the first part, then the second from
/// the state the first part left behind: the completed bars concatenate.
///
/// This is the chunk invariance law: processing a stream in one call yields
/// exactly the bars of processing any split of it in consecutive calls with
/// carried-over state, and the same still-open bar.
pub proof fn lemma_chunk_invariance(
    cur: Option<BarModel>,
    a: Seq<AggTrade>,
    b: Seq<AggTrade>,
    threshold_bps: int,
)
    ensures
        process_model(cur, a + b, threshold_bps).0 == process_model(
            process_model(cur, a, threshold_bps).0,
            b,
            threshold_bps,
        ).0,
        process_model(cur, a + b, threshold_bps).1 == process_model(cur, a, threshold_bps).1
            + process_model(process_model(cur, a, threshold_bps).0, b, threshold_bps).1,
    decreases a.len(),
{
    if a.len() == 0 {
        assert(a + b =~= b);
        assert(process_model(cur, a, threshold_bps).1 + process_model(
            cur,
            b,
            threshold_bps,
        ).1 =~= process_model(cur, b, threshold_bps).1);
    } else {
        let st = step_model(cur, a[0], threshold_bps);
        assert((a + b)[0] == a[0]);
        assert((a + b).drop_first() =~= a.drop_first() + b);
        lemma_chunk_invariance(st.0, a.drop_first(), b, threshold_bps);
        let m1 = process_model(st.0, a.drop_first(), threshold_bps);
        let m2 = process_model(m1.0, b, threshold_bps);
        assert(st.1 + (m1.1 + m2.1) =~= (st.1 + m1.1) + m2.1);
    }
}

/// The same decomposition for the in-range condition.
pub proof fn lemma_process_in_range_append(
    cur: Option<BarModel>,
    a: Seq<AggTrade>,
    b: Seq<AggTrade>,
    threshold_bps: int,
)
    ensures
        process_in_range(cur, a + b, threshold_bps) <==> (process_in_range(cur, a, threshold_bps)
            && process_in_range(process_model(cur, a, threshold_bps).0, b, threshold_bps)),
    decreases a.len(),
{
    if a.len() == 0 {
        assert(a + b =~= b);
    } else {
        let st = step_model(cur, a[0], threshold_bps);
        assert((a + b)[0] == a[0]);
        assert((a + b).drop_first() =~= a.drop_first() + b);
        lemma_process_in_range_append(st.0, a.drop_first(), b, threshold_bps);
    }
}

/// Build the bar a single trade seeds. Its volume-weighted average price is
/// the trade's own price.
fn make_seed_bar(t: &AggTrade) -> (r: RangeBar)
    requires
        t.spec_is_valid(),
    ensures
        r@ == seed_bar(*t),
{
    let turnover = t.turnover();
    proof {
        lemma_div_multiples_vanish(t.price.0 as int, t.volume.0 as int);
    }
    let vwap = (turnover / (t.volume.0 as i128)) as i64;
    RangeBar {
        open_time: t.timestamp,
        close_time: t.timestamp,
        open: t.price,
        high: t.price,
        low: t.price,
        close: t.price,
        volume: t.volume,
        turnover,
        trade_count: 1,
        first_id: t.agg_trade_id,
        last_id: t.agg_trade_id,
        buy_volume: if t.is_buyer_maker {
            FixedPoint(0)
        } else {
            t.volume
        },
        sell_volume: if t.is_buyer_maker {
            t.volume
        } else {
            FixedPoint(0)
        },
        buy_trade_count: if t.is_buyer_maker {
            0
        } else {
            1
        },
        sell_trade_count: if t.is_buyer_maker {
            1
        } else {
            0
        },
        vwap: FixedPoint(vwap),
        buy_turnover: if t.is_buyer_maker {
            0
        } else {
            turnover
        },
        sell_turnover: if t.is_buyer_maker {
            turnover
        } else {
            0
        },
    }
}

/// Update an open bar with one more trade.
fn update_bar(b: &RangeBar, t: &AggTrade) -> (r: RangeBar)
    requires
        t.spec_is_valid(),
        bar_in_range(apply_trade(b@, *t)),
    ensures
        r@ == apply_trade(b@, *t),
{
    let trade_turnover = t.turnover();
    let volume = b.volume.0 + t.volume.0;
    let turnover = b.turnover + trade_turnover;
    let vwap: i64 = if volume > 0 {
        (turnover / (volume as i128)) as i64
    } else {
        b.open.0
    };
    RangeBar {
        open_time: b.open_time,
        close_time: t.timestamp,
        open: b.open,
        high: if t.price.0 > b.high.0 {
            t.price
        } else {
            b.high
        },
        low: if t.price.0 < b.low.0 {
            t.price
        } else {
            b.low
        },
        close: t.price,
        volume: FixedPoint(volume),
        turnover,
        trade_count: b.trade_count + 1,
        first_id: b.first_id,
        last_id: t.agg_trade_id,
        buy_volume: if t.is_buyer_maker {
            b.buy_volume
        } else {
            FixedPoint(b.buy_volume.0 + t.volume.0)
        },
        sell_volume: if t.is_buyer_maker {
            FixedPoint(b.sell_volume.0 + t.volume.0)
        } else {
            b.sell_volume
        },
        buy_trade_count: if t.is_buyer_maker {
            b.buy_trade_count
        } else {
            b.buy_trade_count + 1
        },
        sell_trade_count: if t.is_buyer_maker {
            b.sell_trade_count + 1
        } else {
            b.sell_trade_count
        },
        vwap: FixedPoint(vwap),
        buy_turnover: if t.is_buyer_maker {
            b.buy_turnover
        } else {
            b.buy_turnover + trade_turnover
        },
        sell_turnover: if t.is_buyer_maker {
            b.sell_turnover + trade_turnover
        } else {
            b.sell_turnover
        },
    }
}

/// Compare a trade price against the thresholds frozen at `open`.
pub(crate) fn check_breach(price: i64, open: i64, threshold_bps: u32) -> (r: bool)
    requires
        0 < open,
    ensures
        r == breaches(price as int, open as int, threshold_bps as int),
{
    let open_wide = open as i128;
    proof {
        assert(open_wide * (threshold_bps as i128) <= 0x7fff_ffff_ffff_ffff * 0xffff_ffff
            && open_wide * (threshold_bps as i128) >= 0) by (nonlinear_arith)
            requires
                0 < open_wide <= 0x7fff_ffff_ffff_ffff,
                0 <= threshold_bps <= 0xffff_ffff,
        ;
    }
    let delta = open_wide * (threshold_bps as i128) / 1_000_000;
    let upper = open_wide + delta;
    let lower = open_wide - delta;
    let p = price as i128;
    p >= upper || p <= lower
}

impl RangeBarProcessor {
    /// A fresh processor with no open bar. The move that closes a bar is
    /// `threshold_bps / 1_000_000` of the bar's opening price.
    pub fn new(threshold_bps: u32) -> (r: RangeBarProcessor)
        ensures
            r@.threshold_bps == threshold_bps,
            r@.current is None,
    {
        RangeBarProcessor { threshold_bps, current: None }
    }

    /// The configured threshold parameter.
    pub fn threshold_bps(&self) -> (r: u32)
        ensures
            r == self@.threshold_bps,
    {
        self.threshold_bps
    }

    /// The still-open bar, if any, without closing it.
    pub fn get_incomplete_bar(&self) -> (r: Option<RangeBar>)
        ensures
            match r {
                None => self@.current is None,
                Some(b) => self@.current == Some(b@),
            },
    {
        self.current
    }

    /// Process an ordered batch of trades and return the bars completed by
    /// it, carrying the still-open bar across calls.
    ///
    /// If any trade has a non-positive price or volume the whole batch is
    /// rejected, the state does not change, and the error names the first
    /// such trade. Otherwise the result and the new state are exactly the
    /// fold of [`step_model`] over the batch.
    pub fn process_trades(&mut self, trades: &[AggTrade]) -> (r: Result<
        Vec<RangeBar>,
        ProcessingError,
    >)
        requires
            all_trades_valid(trades@) ==> process_in_range(
                old(self)@.current,
                trades@,
                old(self)@.threshold_bps,
            ),
        ensures
            final(self)@.threshold_bps == old(self)@.threshold_bps,
            match r {
                Ok(bars) => {
                    &&& all_trades_valid(trades@)
                    &&& final(self)@.current == process_model(
                        old(self)@.current,
                        trades@,
                        old(self)@.threshold_bps,
                    ).0
                    &&& bars_view(bars@) == process_model(
                        old(self)@.current,
                        trades@,
                        old(self)@.threshold_bps,
                    ).1
                },
                Err(e) => {
                    &&& !all_trades_valid(trades@)
                    &&& *final(self) == *old(self)
                    &&& e == (ProcessingError::InvalidTrade {
                        agg_trade_id: trades@[first_invalid_index(trades@)].agg_trade_id,
                    })
                },
            },
    {
        let n = trades.len();
        let mut j: usize = 0;
        while j < n
            invariant
                0 <= j <= n == trades@.len(),
                forall|k: int| 0 <= k < j ==> (#[trigger] trades@[k]).spec_is_valid(),
            decreases n - j,
        {
            if !trades[j].is_valid() {
                proof {
                    lemma_first_invalid_index(trades@);
                    if first_invalid_index(trades@) < j {
                        assert(trades@[first_invalid_index(trades@)].spec_is_valid());
                    }
                }
                return Err(ProcessingError::InvalidTrade { agg_trade_id: trades[j].agg_trade_id });
            }
            j = j + 1;
        }
        proof {
            assert(all_trades_valid(trades@));
        }
        let ghost initial = self@.current;
        let ghost bps = self@.threshold_bps;
        let mut bars: Vec<RangeBar> = Vec::new();
        let mut i: usize = 0;
        proof {
            assert(trades@.skip(0) =~= trades@);
            assert(trades@.take(0) =~= Seq::<AggTrade>::empty());
        }
        while i < n
            invariant
                0 <= i <= n == trades@.len(),
                all_trades_valid(trades@),
                self@.threshold_bps == bps,
                self@.current == process_model(initial, trades@.take(i as int), bps).0,
                bars_view(bars@) == process_model(initial, trades@.take(i as int), bps).1,
                process_in_range(self@.current, trades@.skip(i as int), bps),
            decreases n - i,
        {
            let t = &trades[i];
            let ghost pre = self@.current;
            let ghost suffix = trades@.skip(i as int);
            proof {
                assert(suffix[0] == trades@[i as int]);
                assert(suffix.drop_first() =~= trades@.skip(i as int + 1));
                assert(trades@[i as int].spec_is_valid());
            }
            let cur = self.current;
            match cur {
                None => {
                    self.current = Some(make_seed_bar(t));
                },
                Some(b) => {
                    proof {
                        let st = step_model(pre, trades@[i as int], bps);
                        if breaches(trades@[i as int].price.0 as int, b@.open, bps) {
                            assert(st.1[0] == apply_trade(b@, trades@[i as int]));
                            assert(bar_in_range(apply_trade(b@, trades@[i as int])));
                        } else {
                            assert(st.0 == Some(apply_trade(b@, trades@[i as int])));
                            assert(bar_in_range(apply_trade(b@, trades@[i as int])));
                        }
                        assert(b@.open > 0);
                    }
                    let updated = update_bar(&b, t);
                    if check_breach(t.price.0, b.open.0, self.threshold_bps) {
                        bars.push(updated);
                        self.current = Some(make_seed_bar(t));
                    } else {
                        self.current = Some(updated);
                    }
                },
            }
            proof {
                let st = step_model(pre, trades@[i as int], bps);
                assert(self@.current == st.0);
                assert(trades@.take(i as int + 1) =~= trades@.take(i as int) + seq![
                    trades@[i as int],
                ]);
                lemma_chunk_invariance(initial, trades@.take(i as int), seq![trades@[i as int]], bps);
                assert(seq![trades@[i as int]].drop_first() =~= Seq::<AggTrade>::empty());
                reveal_with_fuel(process_model, 2);
                assert(seq![trades@[i as int]][0] == trades@[i as int]);
                assert(process_model(pre, seq![trades@[i as int]], bps).0 == st.0);
                assert(process_model(pre, seq![trades@[i as int]], bps).1 =~= st.1);
                assert(bars_view(bars@) =~= process_model(initial, trades@.take(i as int + 1), bps).1);
            }
            i = i + 1;
        }
        proof {
            assert(trades@.take(n as int) =~= trades@);
        }
        Ok(bars)
    }
}


/// Are the trades in non-decreasing timestamp order? This is the ordering
/// contract the processor assumes of its callers.
pub open spec fn timestamps_ordered(trades: Seq<AggTrade>) -> bool {
    forall|i: int, j: int|
        0 <= i < j < trades.len() ==> (#[trigger] trades[i]).timestamp <= (
        #[trigger] trades[j]).timestamp
}

/// Threshold freezing: updating a bar with any further trade leaves its open
/// price — and hence both breach thresholds computed from it — unchanged.
/// A bar's closing condition depends only on information known at its open.
pub proof fn lemma_thresholds_frozen(b: BarModel, t: AggTrade, threshold_bps: int)
    ensures
        apply_trade(b, t).open == b.open,
        upper_threshold(apply_trade(b, t).open, threshold_bps) == upper_threshold(
            b.open,
            threshold_bps,
        ),
        lower_threshold(apply_trade(b, t).open, threshold_bps) == lower_threshold(
            b.open,
            threshold_bps,
        ),
{
}

/// Breach inclusivity: a trade whose price reaches a frozen threshold is the
/// closing trade of the bar it completes — the bar's close, close time and
/// last identifier are the trade's own — and the same trade immediately
/// opens the next bar at its price and time.
pub proof fn lemma_breach_inclusive(b: BarModel, t: AggTrade, threshold_bps: int)
    requires
        breaches(t.price.0 as int, b.open, threshold_bps),
    ensures
        step_model(Some(b), t, threshold_bps).1 == seq![apply_trade(b, t)],
        step_model(Some(b), t, threshold_bps).0 == Some(seed_bar(t)),
        apply_trade(b, t).close == t.price.0,
        apply_trade(b, t).close_time == t.timestamp,
        apply_trade(b, t).last_id == t.agg_trade_id,
        seed_bar(t).open == t.price.0,
        seed_bar(t).open_time == t.timestamp,
        seed_bar(t).first_id == t.agg_trade_id,
{
}

/// A bar seeded from a single trade satisfies the record invariants.
proof fn lemma_seed_well_formed(t: AggTrade)
    ensures
        bar_well_formed(seed_bar(t)),
{
}

/// Updating a well-formed bar with a trade that does not precede the bar's
/// last trade keeps the record invariants.
proof fn lemma_apply_well_formed(b: BarModel, t: AggTrade)
    requires
        bar_well_formed(b),
        b.close_time <= t.timestamp,
    ensures
        bar_well_formed(apply_trade(b, t)),
        apply_trade(b, t).close_time == t.timestamp,
{
}

/// OHLC containment and per-bar volume conservation: every bar produced from
/// trades in timestamp order — and the bar still open at the end —
/// satisfies the record invariants: `high >= max(open, close)`,
/// `low <= min(open, close)`, `buy_volume + sell_volume == volume`,
/// `trade_count >= 1` and `close_time >= open_time`.
pub proof fn lemma_bars_well_formed(cur: Option<BarModel>, trades: Seq<AggTrade>, threshold_bps: int)
    requires
        timestamps_ordered(trades),
        cur matches Some(b) ==> bar_well_formed(b) && (trades.len() > 0 ==> b.close_time
            <= trades[0].timestamp),
    ensures
        forall|k: int|
            0 <= k < process_model(cur, trades, threshold_bps).1.len() ==> bar_well_formed(
                #[trigger] process_model(cur, trades, threshold_bps).1[k],
            ),
        process_model(cur, trades, threshold_bps).0 matches Some(b2) ==> bar_well_formed(b2),
        trades.len() > 0 ==> (process_model(cur, trades, threshold_bps).0 matches Some(b2)
            && b2.close_time == trades.last().timestamp),
    decreases trades.len(),
{
    if trades.len() == 0 {
    } else {
        let t0 = trades[0];
        let st = step_model(cur, t0, threshold_bps);
        lemma_seed_well_formed(t0);
        if cur is Some {
            lemma_apply_well_formed(cur->0, t0);
        }
        let rest = trades.drop_first();
        assert(timestamps_ordered(rest)) by {
            assert forall|i: int, j: int| 0 <= i < j < rest.len() implies (
            #[trigger] rest[i]).timestamp <= (#[trigger] rest[j]).timestamp by {
                assert(rest[i] == trades[i + 1] && rest[j] == trades[j + 1]);
            }
        }
        assert(st.0 matches Some(nb) ==> nb.close_time == t0.timestamp);
        assert(rest.len() > 0 ==> t0.timestamp <= rest[0].timestamp) by {
            if rest.len() > 0 {
                assert(rest[0] == trades[1]);
            }
        }
        lemma_bars_well_formed(st.0, rest, threshold_bps);
        let pm = process_model(cur, trades, threshold_bps);
        let pmr = process_model(st.0, rest, threshold_bps);
        assert forall|k: int| 0 <= k < pm.1.len() implies bar_well_formed(#[trigger] pm.1[k]) by {
            if k < st.1.len() {
                assert(pm.1[k] == st.1[k]);
            } else {
                assert(pm.1[k] == pmr.1[k - st.1.len()]);
            }
        }
        if rest.len() > 0 {
            assert(trades.last() == rest.last());
        }
    }
}

/// Total volume of a sequence of bars.
pub open spec fn bars_volume(bars: Seq<BarModel>) -> int
    decreases bars.len(),
{
    if bars.len() == 0 {
        0
    } else {
        bars[0].volume + bars_volume(bars.drop_first())
    }
}

/// Total volume of a sequence of trades.
pub open spec fn trades_volume(trades: Seq<AggTrade>) -> int
    decreases trades.len(),
{
    if trades.len() == 0 {
        0
    } else {
        trades[0].volume.0 + trades_volume(trades.drop_first())
    }
}

/// Volume of the open bar, or zero when none is open.
pub open spec fn open_volume(cur: Option<BarModel>) -> int {
    match cur {
        None => 0,
        Some(b) => b.volume,
    }
}

/// Total volume of the trades that close one bar and open the next. Such a
/// trade belongs to both bars by breach inclusivity, so its volume is
/// counted once in each.
pub open spec fn reseed_volume(cur: Option<BarModel>, trades: Seq<AggTrade>, threshold_bps: int) -> int
    decreases trades.len(),
{
    if trades.len() == 0 {
        0
    } else {
        let here = match cur {
            None => 0int,
            Some(b) => if breaches(trades[0].price.0 as int, b.open, threshold_bps) {
                trades[0].volume.0 as int
            } else {
                0int
            },
        };
        here + reseed_volume(step_model(cur, trades[0], threshold_bps).0, trades.drop_first(), threshold_bps)
    }
}

/// Volume conservation: the volume of all completed bars plus the open bar
/// equals the volume that went in — the initial open bar plus every trade —
/// plus the volume of the breach trades, which open the next bar as well as
/// closing one and therefore appear in two bars. In a run without a breach
/// the last summand is zero and the books balance exactly.
pub proof fn lemma_volume_conservation(cur: Option<BarModel>, trades: Seq<AggTrade>, threshold_bps: int)
    ensures
        bars_volume(process_model(cur, trades, threshold_bps).1) + open_volume(
            process_model(cur, trades, threshold_bps).0,
        ) == open_volume(cur) + trades_volume(trades) + reseed_volume(cur, trades, threshold_bps),
    decreases trades.len(),
{
    if trades.len() == 0 {
    } else {
        let t0 = trades[0];
        let st = step_model(cur, t0, threshold_bps);
        lemma_volume_conservation(st.0, trades.drop_first(), threshold_bps);
        let pmr = process_model(st.0, trades.drop_first(), threshold_bps);
        if cur is Some && breaches(t0.price.0 as int, cur->0.open, threshold_bps) {
            assert(st.1 + pmr.1 =~= seq![apply_trade(cur->0, t0)] + pmr.1);
            assert((seq![apply_trade(cur->0, t0)] + pmr.1).drop_first() =~= pmr.1);
        } else {
            assert(st.1 + pmr.1 =~= pmr.1);
        }
    }
}

/// In a run where no trade breaches — so no trade is counted in two bars —
/// the books balance exactly: completed bars plus the open bar hold
/// precisely the volume of the initial bar and the trades.
pub proof fn lemma_volume_conservation_exact(
    cur: Option<BarModel>,
    trades: Seq<AggTrade>,
    threshold_bps: int,
)
    requires
        reseed_volume(cur, trades, threshold_bps) == 0,
    ensures
        bars_volume(process_model(cur, trades, threshold_bps).1) + open_volume(
            process_model(cur, trades, threshold_bps).0,
        ) == open_volume(cur) + trades_volume(trades),
{
    lemma_volume_conservation(cur, trades, threshold_bps);
}

/// The mathematical state of an accumulating processor: the core state plus
/// the bars completed so far and not yet drained.
pub ghost struct ExportModel {
    pub threshold_bps: int,
    pub current: Option<BarModel>,
    pub completed: Seq<BarModel>,
}

/// A range bar processor that accumulates completed bars across calls, for
/// feeding one continuous stream in batches (day files, CSV chunks) and
/// draining the completed bars when convenient.
pub struct ExportRangeBarProcessor {
    inner: RangeBarProcessor,
    completed: Vec<RangeBar>,
}

impl View for ExportRangeBarProcessor {
    type V = ExportModel;

    closed spec fn view(&self) -> ExportModel {
        ExportModel {
            threshold_bps: self.inner@.threshold_bps,
            current: self.inner@.current,
            completed: bars_view(self.completed@),
        }
    }
}

impl ExportRangeBarProcessor {
    /// A fresh accumulating processor with no open bar and nothing completed.
    pub fn new(threshold_bps: u32) -> (r: ExportRangeBarProcessor)
        ensures
            r@.threshold_bps == threshold_bps,
            r@.current is None,
            r@.completed == Seq::<BarModel>::empty(),
    {
        let r = ExportRangeBarProcessor { inner: RangeBarProcessor::new(threshold_bps), completed: Vec::new() };
        proof {
            assert(bars_view(r.completed@) =~= Seq::<BarModel>::empty());
        }
        r
    }

    /// Feed one more batch of an ordered stream, keeping the open bar and the
    /// completed bars across calls. The batch must already be validated:
    /// every trade has positive price and volume.
    pub fn process_trades_continuously(&mut self, trades: &[AggTrade])
        requires
            all_trades_valid(trades@),
            process_in_range(old(self)@.current, trades@, old(self)@.threshold_bps),
        ensures
            final(self)@.threshold_bps == old(self)@.threshold_bps,
            final(self)@.current == process_model(
                old(self)@.current,
                trades@,
                old(self)@.threshold_bps,
            ).0,
            final(self)@.completed == old(self)@.completed + process_model(
                old(self)@.current,
                trades@,
                old(self)@.threshold_bps,
            ).1,
    {
        let result = self.inner.process_trades(trades);
        match result {
            Ok(mut bars) => {
                let ghost pre = self.completed@;
                let ghost new = bars@;
                self.completed.append(&mut bars);
                proof {
                    assert(bars_view(pre + new) =~= bars_view(pre) + bars_view(new));
                }
            },
            Err(_) => {
                proof {
                    lemma_first_invalid_index(trades@);
                }
            },
        }
    }

    /// Remove and return all bars completed so far, oldest first, leaving the
    /// open bar in place.
    pub fn get_all_completed_bars(&mut self) -> (r: Vec<RangeBar>)
        ensures
            bars_view(r@) == old(self)@.completed,
            final(self)@.completed == Seq::<BarModel>::empty(),
            final(self)@.current == old(self)@.current,
            final(self)@.threshold_bps == old(self)@.threshold_bps,
    {
        let mut drained: Vec<RangeBar> = Vec::new();
        core::mem::swap(&mut drained, &mut self.completed);
        proof {
            assert(bars_view(Seq::<RangeBar>::empty()) =~= Seq::<BarModel>::empty());
        }
        drained
    }

    /// The still-open bar, if any, without closing it. At the end of a stream
    /// this bar is not discarded; the caller decides whether to include it.
    pub fn get_incomplete_bar(&self) -> (r: Option<RangeBar>)
        ensures
            match r {
                None => self@.current is None,
                Some(b) => self@.current == Some(b@),
            },
    {
        self.inner.get_incomplete_bar()
    }

    /// Feed one batch and drain everything completed so far in one call:
    /// what was already accumulated, followed by the bars this batch
    /// completed.
    pub fn process_trades(&mut self, trades: &[AggTrade]) -> (r: Vec<RangeBar>)
        requires
            all_trades_valid(trades@),
            process_in_range(old(self)@.current, trades@, old(self)@.threshold_bps),
        ensures
            final(self)@.threshold_bps == old(self)@.threshold_bps,
            final(self)@.current == process_model(
                old(self)@.current,
                trades@,
                old(self)@.threshold_bps,
            ).0,
            final(self)@.completed == Seq::<BarModel>::empty(),
            bars_view(r@) == old(self)@.completed + process_model(
                old(self)@.current,
                trades@,
                old(self)@.threshold_bps,
            ).1,
    {
        self.process_trades_continuously(trades);
        self.get_all_completed_bars()
    }
}

} // verus!
