//! The bounded-memory streaming wrapper: backpressure, circuit breaking and
//! the producer/consumer flow.

use rangebar::fixed_point::FixedPoint;
use rangebar::streaming_processor::{
    CircuitState, StreamingError, StreamingProcessor, StreamingProcessorConfig,
};
use rangebar::types::AggTrade;

fn trade(id: i64, price: &str, volume: &str, timestamp: i64) -> AggTrade {
    AggTrade {
        agg_trade_id: id,
        price: FixedPoint::from_str(price).unwrap(),
        volume: FixedPoint::from_str(volume).unwrap(),
        first_trade_id: id,
        last_trade_id: id,
        timestamp,
        is_buyer_maker: false,
    }
}

fn small_config() -> StreamingProcessorConfig {
    StreamingProcessorConfig {
        trade_queue_capacity: 4,
        bar_queue_capacity: 2,
        enqueue_timeout_ms: 10,
        circuit_breaker_threshold: 3,
        circuit_breaker_window_ms: 1_000,
        half_open_trial_count: 2,
    }
}

#[test]
fn default_config_is_bounded() {
    let config = StreamingProcessorConfig::default();
    assert_eq!(config.trade_queue_capacity, 5000);
    assert_eq!(config.bar_queue_capacity, 100);
    assert_eq!(config.enqueue_timeout_ms, 1000);
    assert_eq!(config.circuit_breaker_threshold, 10);
    assert_eq!(config.circuit_breaker_window_ms, 60_000);
    assert_eq!(config.half_open_trial_count, 3);
}

/// Submitting faster than the consumer drains must fail with `Timeout`
/// rather than grow the queue past its capacity.
#[test]
fn submit_backpressure_bounds_memory() {
    let mut streaming = StreamingProcessor::new(8000, small_config());
    for i in 0..4 {
        assert_eq!(
            streaming.submit(trade(i, "50000.0", "1.0", 1000 + i), 0),
            Ok(())
        );
    }
    // the queue is full: the fifth submission times out instead of growing it
    assert_eq!(
        streaming.submit(trade(5, "50000.0", "1.0", 1005), 0),
        Err(StreamingError::Timeout)
    );
    let metrics = streaming.metrics_snapshot();
    assert_eq!(metrics.trade_queue_len, 4);
    assert_eq!(metrics.trades_submitted, 4);
    assert_eq!(metrics.failures, 1);

    // draining one pending trade makes room for exactly one more
    assert_eq!(streaming.process_next(), Ok(true));
    assert_eq!(streaming.submit(trade(6, "50001.0", "1.0", 1006), 0), Ok(()));
    assert_eq!(
        streaming.submit(trade(7, "50002.0", "1.0", 1007), 0),
        Err(StreamingError::Timeout)
    );
    assert_eq!(streaming.metrics_snapshot().trade_queue_len, 4);
}

#[test]
fn invalid_trade_is_rejected_and_counted() {
    let mut streaming = StreamingProcessor::new(8000, small_config());
    let mut bad = trade(1, "50000.0", "1.0", 1000);
    bad.volume = FixedPoint(0);
    assert_eq!(
        streaming.submit(bad, 0),
        Err(StreamingError::InvalidTrade { agg_trade_id: 1 })
    );
    assert_eq!(streaming.metrics_snapshot().failures, 1);
    assert_eq!(streaming.metrics_snapshot().trade_queue_len, 0);
}

#[test]
fn circuit_breaker_trips_after_threshold_failures() {
    let mut streaming = StreamingProcessor::new(8000, small_config());
    let mut bad = trade(1, "50000.0", "1.0", 1000);
    bad.price = FixedPoint(0);
    for _ in 0..3 {
        let result = streaming.submit(bad, 10);
        assert_eq!(
            result,
            Err(StreamingError::InvalidTrade { agg_trade_id: 1 })
        );
    }
    assert_eq!(streaming.circuit_state(), CircuitState::Open);
    // tripped: even a good trade is rejected fast
    assert_eq!(
        streaming.submit(trade(2, "50000.0", "1.0", 1002), 11),
        Err(StreamingError::CircuitOpen)
    );

    // once the window elapses the breaker is probationary and lets a
    // trial through; enough good trials close it again
    assert_eq!(streaming.submit(trade(3, "50000.0", "1.0", 1003), 2_000), Ok(()));
    assert_eq!(streaming.circuit_state(), CircuitState::HalfOpen);
    assert_eq!(streaming.submit(trade(4, "50000.0", "1.0", 1004), 2_001), Ok(()));
    assert_eq!(streaming.circuit_state(), CircuitState::Closed);
}

#[test]
fn half_open_failure_reopens_breaker() {
    let mut streaming = StreamingProcessor::new(8000, small_config());
    let mut bad = trade(1, "50000.0", "1.0", 1000);
    bad.price = FixedPoint(0);
    for _ in 0..3 {
        let _ = streaming.submit(bad, 10);
    }
    assert_eq!(streaming.circuit_state(), CircuitState::Open);
    // window elapses, the breaker goes half-open, and the trial fails
    assert_eq!(
        streaming.submit(bad, 2_000),
        Err(StreamingError::InvalidTrade { agg_trade_id: 1 })
    );
    assert_eq!(streaming.circuit_state(), CircuitState::Open);

    // an explicit reset clears it immediately
    streaming.reset_circuit();
    assert_eq!(streaming.circuit_state(), CircuitState::Closed);
    assert_eq!(streaming.submit(trade(2, "50000.0", "1.0", 2001), 2_001), Ok(()));
}

#[test]
fn closed_wrapper_rejects_submissions() {
    let mut streaming = StreamingProcessor::new(8000, small_config());
    assert!(!streaming.is_closed());
    streaming.close();
    assert!(streaming.is_closed());
    assert_eq!(
        streaming.submit(trade(1, "50000.0", "1.0", 1000), 0),
        Err(StreamingError::ChannelClosed)
    );
}

/// The streaming pipeline yields the same bars as the batch processor, and
/// full bar queues exert backpressure on processing.
#[test]
fn pipeline_produces_batch_results_with_bounded_bar_queue() {
    let prices = [
        "50000.0", "50500.0", "50100.0", "50600.0", "50090.0", "50700.0", "50080.0",
    ];
    // batch reference
    let mut batch = rangebar::range_bars::RangeBarProcessor::new(8000);
    let trades: Vec<AggTrade> = prices
        .iter()
        .enumerate()
        .map(|(i, p)| trade(i as i64, p, "1.0", 1_000 + i as i64))
        .collect();
    let expected = batch.process_trades(&trades).unwrap();
    assert!(expected.len() >= 3);

    let mut streaming = StreamingProcessor::new(8000, small_config());
    let mut produced = Vec::new();
    let mut pending = trades.clone().into_iter();
    let mut next = pending.next();
    let mut now = 0u64;
    loop {
        now += 1;
        if let Some(t) = next {
            match streaming.submit(t, now) {
                Ok(()) => {
                    next = pending.next();
                }
                Err(StreamingError::Timeout) => {
                    // backpressure: drain a bar and retry the same trade
                    next = Some(t);
                }
                Err(e) => panic!("unexpected submission failure: {:?}", e),
            }
        }
        match streaming.process_next() {
            Ok(true) => {}
            Ok(false) => {
                if next.is_none() {
                    break;
                }
            }
            Err(StreamingError::Timeout) => {
                // bar queue full: the consumer must drain first
                while let Some(bar) = streaming.next_bar() {
                    produced.push(bar);
                }
            }
            Err(e) => panic!("unexpected processing failure: {:?}", e),
        }
        assert!(streaming.metrics_snapshot().trade_queue_len <= 4);
        assert!(streaming.metrics_snapshot().bar_queue_len <= 2);
    }
    while let Some(bar) = streaming.next_bar() {
        produced.push(bar);
    }
    assert_eq!(produced, expected);
    let metrics = streaming.metrics_snapshot();
    assert_eq!(metrics.trades_processed, trades.len() as u64);
    assert_eq!(metrics.bars_emitted, expected.len() as u64);
    // the still-open bar is exposed, not dropped
    assert!(streaming.peek_incomplete_bar().is_some());
}
