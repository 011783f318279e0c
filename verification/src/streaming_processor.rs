//! Bounded-memory streaming wrapper around the range bar processor.
//!
//! The wrapper holds two size-bounded queues — pending trades in, completed
//! bars out — and a circuit breaker, so an unbounded trade history can be
//! processed without unbounded growth or silent data loss. Every decision
//! (accept, reject with backpressure, trip the breaker) is made here and is
//! verified; an embedder supplies what a library cannot: the clock, the
//! blocking or awaiting between retries, and the tasks that call
//! [`StreamingProcessor::submit`], [`StreamingProcessor::process_next`] and
//! [`StreamingProcessor::next_bar`] in a loop.
//!
//! Backpressure is a hard guarantee: [`StreamingProcessor::submit`] never
//! grows the trade queue past its capacity — a full queue fails the call with
//! [`StreamingError::Timeout`] instead — and a completed bar is only handed
//! to the bar queue when there is room, otherwise the trade stays pending.

use crate::range_bars::{
    all_trades_valid, bar_in_range, breaches, check_breach, process_in_range, step_model,
    RangeBarProcessor,
};
use crate::types::{AggTrade, BarModel, RangeBar};
use vstd::prelude::*;

verus! {

/// Configuration of the streaming wrapper. All bounds are counts of records,
/// not bytes; all times are milliseconds.
#[derive(Clone, Copy, Debug, PartialEq, Eq, Structural)]
pub struct StreamingProcessorConfig {
    /// Capacity of the queue of pending trades.
    pub trade_queue_capacity: usize,
    /// Capacity of the queue of completed bars awaiting consumption.
    pub bar_queue_capacity: usize,
    /// How long an embedder should let an enqueue block before treating it
    /// as failed; advisory to the embedder, unused by the decisions here.
    pub enqueue_timeout_ms: u64,
    /// Failures within one window that trip the circuit breaker.
    pub circuit_breaker_threshold: u32,
    /// Length of the rolling failure-counting window.
    pub circuit_breaker_window_ms: u64,
    /// Trial submissions a half-open breaker lets through before closing again.
    pub half_open_trial_count: u32,
}

impl Default for StreamingProcessorConfig {
    /// Bounded defaults: five thousand pending trades, one hundred pending
    /// bars, a one-second enqueue timeout, and a breaker that trips after
    /// ten failures within a minute and closes after three good trials.
    fn default() -> (r: StreamingProcessorConfig)
        ensures
            r.trade_queue_capacity == 5000,
            r.bar_queue_capacity == 100,
            r.enqueue_timeout_ms == 1000,
            r.circuit_breaker_threshold == 10,
            r.circuit_breaker_window_ms == 60_000,
            r.half_open_trial_count == 3,
    {
        StreamingProcessorConfig {
            trade_queue_capacity: 5000,
            bar_queue_capacity: 100,
            enqueue_timeout_ms: 1000,
            circuit_breaker_threshold: 10,
            circuit_breaker_window_ms: 60_000,
            half_open_trial_count: 3,
        }
    }
}

/// Circuit breaker states: `Closed` passes work, `Open` rejects everything
/// until its window elapses or it is reset, `HalfOpen` lets through a trial
/// trickle and closes on success or reopens on failure.
#[derive(Clone, Copy, Debug, PartialEq, Eq, Structural)]
pub enum CircuitState {
    Closed,
    Open,
    HalfOpen,
}

/// Failures surfaced by the streaming wrapper.
#[derive(Clone, Copy, Debug, PartialEq, Eq, Structural)]
pub enum StreamingError {
    /// A bounded queue was full: backpressure. Recoverable; retry after
    /// draining.
    Timeout,
    /// The circuit breaker has tripped; everything is rejected until the
    /// window elapses or [`StreamingProcessor::reset_circuit`] is called.
    CircuitOpen,
    /// The wrapper was closed; no further work is accepted.
    ChannelClosed,
    /// The trade had a non-positive price or volume and was rejected.
    InvalidTrade { agg_trade_id: i64 },
}

/// Running counters, updated as work flows through.
#[derive(Clone, Copy, Debug, PartialEq, Eq, Structural)]
pub struct StreamingMetrics {
    /// Trades accepted into the trade queue.
    pub trades_submitted: u64,
    /// Trades taken off the queue and applied to the bar state.
    pub trades_processed: u64,
    /// Completed bars handed to the bar queue.
    pub bars_emitted: u64,
    /// Rejected submissions: invalid trades and full-queue timeouts.
    pub failures: u64,
}

/// A point-in-time snapshot of the wrapper, for operators.
#[derive(Clone, Copy, Debug, PartialEq, Eq, Structural)]
pub struct MetricsSummary {
    pub trades_submitted: u64,
    pub trades_processed: u64,
    pub bars_emitted: u64,
    pub failures: u64,
    pub trade_queue_len: usize,
    pub bar_queue_len: usize,
    pub circuit_state: CircuitState,
}

/// The mathematical state of the circuit breaker.
pub ghost struct BreakerModel {
    pub state: CircuitState,
    pub failures_in_window: int,
    pub window_start_ms: int,
    pub half_open_successes: int,
}

/// Has the breaker's rolling window elapsed at time `now_ms`?
pub open spec fn window_elapsed(b: BreakerModel, config: StreamingProcessorConfig, now_ms: int) -> bool {
    now_ms >= b.window_start_ms + config.circuit_breaker_window_ms
}

/// The breaker consulted before work: an open breaker whose window has
/// elapsed moves to half-open with a fresh trial count; otherwise it stays
/// as it is. Work passes unless the breaker stays open.
pub open spec fn breaker_gate(b: BreakerModel, config: StreamingProcessorConfig, now_ms: int) -> (
    BreakerModel,
    bool,
) {
    if b.state == CircuitState::Open {
        if window_elapsed(b, config, now_ms) {
            (
                BreakerModel {
                    state: CircuitState::HalfOpen,
                    half_open_successes: 0,
                    ..b
                },
                true,
            )
        } else {
            (b, false)
        }
    } else {
        (b, true)
    }
}

/// The breaker after a failure at time `now_ms`: a half-open breaker trips
/// immediately; otherwise the failure is counted in the rolling window (a
/// stale window restarts at one) and reaching the threshold trips the
/// breaker with a fresh window.
pub open spec fn breaker_fail(b: BreakerModel, config: StreamingProcessorConfig, now_ms: int) -> BreakerModel {
    if b.state == CircuitState::HalfOpen {
        BreakerModel {
            state: CircuitState::Open,
            failures_in_window: 0,
            window_start_ms: now_ms,
            half_open_successes: 0,
        }
    } else {
        let failures = if window_elapsed(b, config, now_ms) {
            1int
        } else if b.failures_in_window < u32::MAX {
            b.failures_in_window + 1
        } else {
            b.failures_in_window
        };
        let window_start = if window_elapsed(b, config, now_ms) {
            now_ms
        } else {
            b.window_start_ms
        };
        if failures >= config.circuit_breaker_threshold {
            BreakerModel {
                state: CircuitState::Open,
                failures_in_window: 0,
                window_start_ms: now_ms,
                half_open_successes: 0,
            }
        } else {
            BreakerModel {
                state: b.state,
                failures_in_window: failures,
                window_start_ms: window_start,
                half_open_successes: b.half_open_successes,
            }
        }
    }
}

/// The breaker after a successful submission: a half-open breaker counts the
/// trial and closes once enough trials succeeded; a closed breaker is
/// unchanged.
pub open spec fn breaker_succeed(b: BreakerModel, config: StreamingProcessorConfig) -> BreakerModel {
    if b.state == CircuitState::HalfOpen {
        if b.half_open_successes + 1 >= config.half_open_trial_count {
            BreakerModel {
                state: CircuitState::Closed,
                failures_in_window: 0,
                window_start_ms: b.window_start_ms,
                half_open_successes: 0,
            }
        } else {
            BreakerModel {
                half_open_successes: b.half_open_successes + 1,
                ..b
            }
        }
    } else {
        b
    }
}

/// A counter bumped by one, saturating at the top of its range.
pub open spec fn bumped(x: u64) -> u64 {
    if x < u64::MAX {
        (x + 1) as u64
    } else {
        x
    }
}

/// The mathematical state of the streaming wrapper.
pub ghost struct StreamingModel {
    pub config: StreamingProcessorConfig,
    pub threshold_bps: int,
    pub current: Option<BarModel>,
    pub trade_queue: Seq<AggTrade>,
    pub bar_queue: Seq<BarModel>,
    pub breaker: BreakerModel,
    pub closed: bool,
    pub metrics: StreamingMetrics,
}

/// The bounded-memory streaming wrapper: a bounded queue of pending trades,
/// the core bar state, and a bounded queue of completed bars, guarded by a
/// circuit breaker.
pub struct StreamingProcessor {
    config: StreamingProcessorConfig,
    processor: RangeBarProcessor,
    trade_queue: Vec<AggTrade>,
    bar_queue: Vec<RangeBar>,
    circuit: CircuitState,
    failures_in_window: u32,
    window_start_ms: u64,
    half_open_successes: u32,
    closed: bool,
    metrics: StreamingMetrics,
}

impl View for StreamingProcessor {
    type V = StreamingModel;

    closed spec fn view(&self) -> StreamingModel {
        StreamingModel {
            config: self.config,
            threshold_bps: self.processor@.threshold_bps,
            current: self.processor@.current,
            trade_queue: self.trade_queue@,
            bar_queue: self.bar_queue@.map_values(|b: RangeBar| b@),
            breaker: BreakerModel {
                state: self.circuit,
                failures_in_window: self.failures_in_window as int,
                window_start_ms: self.window_start_ms as int,
                half_open_successes: self.half_open_successes as int,
            },
            closed: self.closed,
            metrics: self.metrics,
        }
    }
}

impl StreamingProcessor {
    /// The structural invariant: both queues respect their capacities and
    /// only validated trades are ever pending.
    pub open spec fn wf(&self) -> bool {
        &&& self@.trade_queue.len() <= self@.config.trade_queue_capacity
        &&& self@.bar_queue.len() <= self@.config.bar_queue_capacity
        &&& all_trades_valid(self@.trade_queue)
    }

    /// A fresh wrapper: empty queues, closed breaker, zero counters. The
    /// breach threshold ratio of the bars is `threshold_bps / 1_000_000`.
    pub fn new(threshold_bps: u32, config: StreamingProcessorConfig) -> (r: StreamingProcessor)
        ensures
            r.wf(),
            r@.config == config,
            r@.threshold_bps == threshold_bps,
            r@.current is None,
            r@.trade_queue == Seq::<AggTrade>::empty(),
            r@.bar_queue == Seq::<BarModel>::empty(),
            r@.breaker.state == CircuitState::Closed,
            r@.breaker.failures_in_window == 0,
            r@.breaker.window_start_ms == 0,
            r@.breaker.half_open_successes == 0,
            !r@.closed,
            r@.metrics == (StreamingMetrics {
                trades_submitted: 0,
                trades_processed: 0,
                bars_emitted: 0,
                failures: 0,
            }),
    {
        let r = StreamingProcessor {
            config,
            processor: RangeBarProcessor::new(threshold_bps),
            trade_queue: Vec::new(),
            bar_queue: Vec::new(),
            circuit: CircuitState::Closed,
            failures_in_window: 0,
            window_start_ms: 0,
            half_open_successes: 0,
            closed: false,
            metrics: StreamingMetrics {
                trades_submitted: 0,
                trades_processed: 0,
                bars_emitted: 0,
                failures: 0,
            },
        };
        proof {
            assert(r@.bar_queue =~= Seq::<BarModel>::empty());
        }
        r
    }

    /// Apply the failure transition to the breaker fields and count the
    /// failure in the metrics.
    fn note_failure(&mut self, now_ms: u64)
        ensures
            final(self)@ == (StreamingModel {
                breaker: breaker_fail(old(self)@.breaker, old(self)@.config, now_ms as int),
                metrics: StreamingMetrics {
                    failures: bumped(old(self)@.metrics.failures),
                    ..old(self)@.metrics
                },
                ..old(self)@
            }),
    {
        if self.metrics.failures < u64::MAX {
            self.metrics.failures = self.metrics.failures + 1;
        }
        if self.circuit == CircuitState::HalfOpen {
            self.circuit = CircuitState::Open;
            self.failures_in_window = 0;
            self.window_start_ms = now_ms;
            self.half_open_successes = 0;
        } else {
            let elapsed = now_ms >= self.window_start_ms && now_ms - self.window_start_ms
                >= self.config.circuit_breaker_window_ms;
            if elapsed {
                self.failures_in_window = 1;
                self.window_start_ms = now_ms;
            } else if self.failures_in_window < u32::MAX {
                self.failures_in_window = self.failures_in_window + 1;
            }
            if self.failures_in_window >= self.config.circuit_breaker_threshold {
                self.circuit = CircuitState::Open;
                self.failures_in_window = 0;
                self.window_start_ms = now_ms;
                self.half_open_successes = 0;
            }
        }
    }

    /// Offer one trade to the wrapper at (wall-clock) time `now_ms`.
    ///
    /// A closed wrapper rejects with `ChannelClosed`; a tripped breaker whose
    /// window has not elapsed rejects with `CircuitOpen`; an invalid trade is
    /// rejected with `InvalidTrade` and counted as a failure; a full trade
    /// queue rejects with `Timeout` and counts as a failure — the queue never
    /// grows past its capacity. Otherwise the trade is appended to the
    /// pending queue.
    pub fn submit(&mut self, trade: AggTrade, now_ms: u64) -> (r: Result<(), StreamingError>)
        requires
            old(self).wf(),
        ensures
            final(self).wf(),
            final(self)@.config == old(self)@.config,
            final(self)@.threshold_bps == old(self)@.threshold_bps,
            final(self)@.current == old(self)@.current,
            final(self)@.bar_queue == old(self)@.bar_queue,
            final(self)@.closed == old(self)@.closed,
            final(self)@.trade_queue.len() <= old(self)@.config.trade_queue_capacity,
            ({
                let o = old(self)@;
                let f = final(self)@;
                let gate = breaker_gate(o.breaker, o.config, now_ms as int);
                if o.closed {
                    r == Err::<(), StreamingError>(StreamingError::ChannelClosed) && f == o
                } else if !gate.1 {
                    r == Err::<(), StreamingError>(StreamingError::CircuitOpen) && f == o
                } else if !trade.spec_is_valid() {
                    &&& r == Err::<(), StreamingError>(StreamingError::InvalidTrade {
                        agg_trade_id: trade.agg_trade_id,
                    })
                    &&& f.trade_queue == o.trade_queue
                    &&& f.breaker == breaker_fail(gate.0, o.config, now_ms as int)
                    &&& f.metrics == (StreamingMetrics {
                        failures: bumped(o.metrics.failures),
                        ..o.metrics
                    })
                } else if o.trade_queue.len() >= o.config.trade_queue_capacity {
                    &&& r == Err::<(), StreamingError>(StreamingError::Timeout)
                    &&& f.trade_queue == o.trade_queue
                    &&& f.breaker == breaker_fail(gate.0, o.config, now_ms as int)
                    &&& f.metrics == (StreamingMetrics {
                        failures: bumped(o.metrics.failures),
                        ..o.metrics
                    })
                } else {
                    &&& r == Ok::<(), StreamingError>(())
                    &&& f.trade_queue == o.trade_queue.push(trade)
                    &&& f.breaker == breaker_succeed(gate.0, o.config)
                    &&& f.metrics == (StreamingMetrics {
                        trades_submitted: bumped(o.metrics.trades_submitted),
                        ..o.metrics
                    })
                }
            }),
    {
        if self.closed {
            return Err(StreamingError::ChannelClosed);
        }
        if self.circuit == CircuitState::Open {
            let elapsed = now_ms >= self.window_start_ms && now_ms - self.window_start_ms
                >= self.config.circuit_breaker_window_ms;
            if elapsed {
                self.circuit = CircuitState::HalfOpen;
                self.half_open_successes = 0;
            } else {
                return Err(StreamingError::CircuitOpen);
            }
        }
        if !trade.is_valid() {
            self.note_failure(now_ms);
            return Err(StreamingError::InvalidTrade { agg_trade_id: trade.agg_trade_id });
        }
        if self.trade_queue.len() >= self.config.trade_queue_capacity {
            self.note_failure(now_ms);
            return Err(StreamingError::Timeout);
        }
        self.trade_queue.push(trade);
        if self.metrics.trades_submitted < u64::MAX {
            self.metrics.trades_submitted = self.metrics.trades_submitted + 1;
        }
        if self.circuit == CircuitState::HalfOpen {
            if (self.half_open_successes as u64) + 1 >= (self.config.half_open_trial_count as u64) {
                self.circuit = CircuitState::Closed;
                self.failures_in_window = 0;
                self.half_open_successes = 0;
            } else {
                self.half_open_successes = self.half_open_successes + 1;
            }
        }
        Ok(())
    }
}


impl StreamingProcessor {
    /// Take one pending trade off the queue and run it through the bar
    /// state.
    ///
    /// Returns `Ok(false)` when no trade is pending. When the trade
    /// completes a bar but the bar queue is full, nothing changes and the
    /// call fails with `Timeout`: the completed bar blocks on hand-off
    /// rather than being buffered past the bound. Otherwise the trade is
    /// consumed, the bar state advances by exactly one step of the
    /// transition function, and a completed bar, if any, is appended to the
    /// bar queue.
    pub fn process_next(&mut self) -> (r: Result<bool, StreamingError>)
        requires
            old(self).wf(),
            old(self)@.trade_queue.len() > 0 ==> ({
                let st = step_model(
                    old(self)@.current,
                    old(self)@.trade_queue[0],
                    old(self)@.threshold_bps,
                );
                &&& (st.0 matches Some(b) ==> bar_in_range(b))
                &&& (forall|k: int| 0 <= k < st.1.len() ==> bar_in_range(#[trigger] st.1[k]))
            }),
        ensures
            final(self).wf(),
            final(self)@.config == old(self)@.config,
            final(self)@.threshold_bps == old(self)@.threshold_bps,
            final(self)@.breaker == old(self)@.breaker,
            final(self)@.closed == old(self)@.closed,
            ({
                let o = old(self)@;
                let f = final(self)@;
                if o.trade_queue.len() == 0 {
                    r == Ok::<bool, StreamingError>(false) && f == o
                } else {
                    let st = step_model(o.current, o.trade_queue[0], o.threshold_bps);
                    if st.1.len() + o.bar_queue.len() > o.config.bar_queue_capacity {
                        r == Err::<bool, StreamingError>(StreamingError::Timeout) && f == o
                    } else {
                        &&& r == Ok::<bool, StreamingError>(true)
                        &&& f.trade_queue == o.trade_queue.drop_first()
                        &&& f.current == st.0
                        &&& f.bar_queue == o.bar_queue + st.1
                        &&& f.metrics == (StreamingMetrics {
                            trades_processed: bumped(o.metrics.trades_processed),
                            bars_emitted: if st.1.len() > 0 {
                                bumped(o.metrics.bars_emitted)
                            } else {
                                o.metrics.bars_emitted
                            },
                            ..o.metrics
                        })
                    }
                }
            }),
    {
        if self.trade_queue.len() == 0 {
            return Ok(false);
        }
        let ghost o = self@;
        let ghost st = step_model(o.current, o.trade_queue[0], o.threshold_bps);
        let trade = self.trade_queue[0];
        proof {
            if o.current is Some {
                let b = o.current->0;
                if breaches(o.trade_queue[0].price.0 as int, b.open, o.threshold_bps) {
                    assert(bar_in_range(st.1[0]));
                } else {
                    assert(st.0 matches Some(u) && bar_in_range(u));
                }
            }
        }
        let completes = match self.processor.get_incomplete_bar() {
            None => false,
            Some(b) => check_breach(trade.price.0, b.open.0, self.processor.threshold_bps()),
        };
        if completes && self.bar_queue.len() >= self.config.bar_queue_capacity {
            return Err(StreamingError::Timeout);
        }
        let trade = self.trade_queue.remove(0);
        proof {
            assert(o.trade_queue.subrange(1, o.trade_queue.len() as int)
                =~= o.trade_queue.drop_first());
            assert(trade == o.trade_queue[0]);
            assert(trade.spec_is_valid());
            assert(process_in_range(o.current, seq![trade], o.threshold_bps)) by {
                reveal_with_fuel(process_in_range, 2);
                assert(seq![trade].drop_first() =~= Seq::<AggTrade>::empty());
            }
            assert(all_trades_valid(seq![trade])) by {
                assert(seq![trade][0] == trade);
            }
        }
        let one = [trade];
        proof {
            assert(one@ =~= seq![trade]);
        }
        let result = self.processor.process_trades(&one);
        match result {
            Ok(bars) => {
                let ghost emitted = bars@;
                proof {
                    reveal_with_fuel(crate::range_bars::process_model, 2);
                    assert(seq![trade].drop_first() =~= Seq::<AggTrade>::empty());
                    assert(crate::range_bars::process_model(o.current, seq![trade], o.threshold_bps).1
                        =~= st.1);
                    assert(crate::range_bars::bars_view(bars@) == st.1);
                }
                let mut k: usize = 0;
                let n = bars.len();
                while k < n
                    invariant
                        0 <= k <= n == emitted.len(),
                        crate::range_bars::bars_view(emitted) == st.1,
                        self@.bar_queue == o.bar_queue + st.1.take(k as int),
                        self@.config == o.config,
                        self@.threshold_bps == old(self)@.threshold_bps,
                        self@.current == st.0,
                        self@.trade_queue == o.trade_queue.drop_first(),
                        self@.breaker == o.breaker,
                        self@.closed == o.closed,
                        self@.metrics == o.metrics,
                        st.1.len() + o.bar_queue.len() <= o.config.bar_queue_capacity,
                        bars@ == emitted,
                    decreases n - k,
                {
                    let bar = bars[k];
                    self.bar_queue.push(bar);
                    proof {
                        assert(bar@ == st.1[k as int]);
                        assert(o.bar_queue + st.1.take(k as int) + seq![bar@]
                            =~= o.bar_queue + st.1.take(k as int + 1));
                    }
                    k = k + 1;
                }
                proof {
                    assert(st.1.take(st.1.len() as int) =~= st.1);
                }
                if self.metrics.trades_processed < u64::MAX {
                    self.metrics.trades_processed = self.metrics.trades_processed + 1;
                }
                if n > 0 {
                    if self.metrics.bars_emitted < u64::MAX {
                        self.metrics.bars_emitted = self.metrics.bars_emitted + 1;
                    }
                }
                Ok(true)
            },
            Err(_) => {
                proof {
                    assert(false);
                }
                Err(StreamingError::Timeout)
            },
        }
    }

    /// Remove and return the oldest completed bar, if one is waiting.
    /// An embedder that must block until a bar arrives loops over this and
    /// [`Self::process_next`].
    pub fn next_bar(&mut self) -> (r: Option<RangeBar>)
        requires
            old(self).wf(),
        ensures
            final(self).wf(),
            ({
                let o = old(self)@;
                let f = final(self)@;
                if o.bar_queue.len() == 0 {
                    r is None && f == o
                } else {
                    &&& r matches Some(b) && b@ == o.bar_queue[0]
                    &&& f == (StreamingModel { bar_queue: o.bar_queue.drop_first(), ..o })
                }
            }),
    {
        if self.bar_queue.len() == 0 {
            return None;
        }
        let bar = self.bar_queue.remove(0);
        proof {
            assert(self@.bar_queue =~= old(self)@.bar_queue.drop_first());
        }
        Some(bar)
    }

    /// A snapshot of the running counters, queue occupancies and breaker
    /// state.
    pub fn metrics_snapshot(&self) -> (r: MetricsSummary)
        ensures
            r.trades_submitted == self@.metrics.trades_submitted,
            r.trades_processed == self@.metrics.trades_processed,
            r.bars_emitted == self@.metrics.bars_emitted,
            r.failures == self@.metrics.failures,
            r.trade_queue_len == self@.trade_queue.len(),
            r.bar_queue_len == self@.bar_queue.len(),
            r.circuit_state == self@.breaker.state,
    {
        MetricsSummary {
            trades_submitted: self.metrics.trades_submitted,
            trades_processed: self.metrics.trades_processed,
            bars_emitted: self.metrics.bars_emitted,
            failures: self.metrics.failures,
            trade_queue_len: self.trade_queue.len(),
            bar_queue_len: self.bar_queue.len(),
            circuit_state: self.circuit,
        }
    }

    /// Stop accepting new trades. Pending trades and bars stay queued so the
    /// embedder can drain in-flight work before terminating.
    pub fn close(&mut self)
        requires
            old(self).wf(),
        ensures
            final(self).wf(),
            final(self)@ == (StreamingModel { closed: true, ..old(self)@ }),
    {
        self.closed = true;
    }

    /// Has the wrapper been closed?
    pub fn is_closed(&self) -> (r: bool)
        ensures
            r == self@.closed,
    {
        self.closed
    }

    /// The breaker's current state.
    pub fn circuit_state(&self) -> (r: CircuitState)
        ensures
            r == self@.breaker.state,
    {
        self.circuit
    }

    /// Explicitly reset a tripped breaker to `Closed` with a clean window.
    pub fn reset_circuit(&mut self)
        requires
            old(self).wf(),
        ensures
            final(self).wf(),
            final(self)@ == (StreamingModel {
                breaker: BreakerModel {
                    state: CircuitState::Closed,
                    failures_in_window: 0,
                    window_start_ms: old(self)@.breaker.window_start_ms,
                    half_open_successes: 0,
                },
                ..old(self)@
            }),
    {
        self.circuit = CircuitState::Closed;
        self.failures_in_window = 0;
        self.half_open_successes = 0;
    }

    /// The still-open bar of the underlying processor, if any.
    pub fn peek_incomplete_bar(&self) -> (r: Option<RangeBar>)
        ensures
            match r {
                None => self@.current is None,
                Some(b) => self@.current == Some(b@),
            },
    {
        self.processor.get_incomplete_bar()
    }
}

} // verus!
