//! The range bar state machine: scenarios, invariants and batch behavior.

use rangebar::fixed_point::FixedPoint;
use rangebar::range_bars::{ExportRangeBarProcessor, ProcessingError, RangeBarProcessor};
use rangebar::types::{AggTrade, RangeBar};

fn trade(id: i64, price: &str, volume: &str, timestamp: i64) -> AggTrade {
    AggTrade {
        agg_trade_id: id,
        price: FixedPoint::from_str(price).unwrap(),
        volume: FixedPoint::from_str(volume).unwrap(),
        first_trade_id: id,
        last_trade_id: id,
        timestamp,
        is_buyer_maker: false,
    }
}

fn trade_maker(id: i64, price: &str, volume: &str, timestamp: i64, maker: bool) -> AggTrade {
    AggTrade {
        is_buyer_maker: maker,
        ..trade(id, price, volume, timestamp)
    }
}

/// The record invariants every produced bar must satisfy.
fn assert_bar_invariants(bar: &RangeBar) {
    assert!(bar.high.0 >= bar.open.0.max(bar.close.0));
    assert!(bar.low.0 <= bar.open.0.min(bar.close.0));
    assert_eq!(bar.buy_volume.0 + bar.sell_volume.0, bar.volume.0);
    assert_eq!(bar.buy_trade_count + bar.sell_trade_count, bar.trade_count);
    assert_eq!(bar.buy_turnover + bar.sell_turnover, bar.turnover);
    assert!(bar.trade_count >= 1);
    assert!(bar.close_time >= bar.open_time);
}

#[test]
fn empty_input_yields_no_bars() {
    let mut processor = RangeBarProcessor::new(8000);
    let bars = processor.process_trades(&[]).unwrap();
    assert!(bars.is_empty());
    assert!(processor.get_incomplete_bar().is_none());
}

#[test]
fn single_trade_opens_incomplete_bar() {
    let mut processor = RangeBarProcessor::new(8000);
    let bars = processor
        .process_trades(&[trade(1, "50000.0", "1.5", 1000)])
        .unwrap();
    assert!(bars.is_empty());
    let open = processor.get_incomplete_bar().unwrap();
    assert_eq!(open.open.0, 5_000_000_000_000);
    assert_eq!(open.high, open.low);
    assert_eq!(open.open, open.close);
    assert_eq!(open.volume.0, 150_000_000);
    assert_eq!(open.trade_count, 1);
    assert_bar_invariants(&open);
}

#[test]
fn invalid_trade_rejects_batch_and_leaves_state() {
    let mut processor = RangeBarProcessor::new(8000);
    processor
        .process_trades(&[trade(1, "50000.0", "1.0", 1000)])
        .unwrap();
    let before = processor.get_incomplete_bar().unwrap();

    let mut bad = trade(7, "50100.0", "1.0", 2000);
    bad.volume = FixedPoint(0);
    let result = processor.process_trades(&[trade(2, "50050.0", "1.0", 1500), bad]);
    assert_eq!(
        result,
        Err(ProcessingError::InvalidTrade { agg_trade_id: 7 })
    );
    // the whole batch was rejected: not even the valid leading trade applied
    assert_eq!(processor.get_incomplete_bar().unwrap(), before);

    let mut negative_price = trade(9, "50100.0", "1.0", 2000);
    negative_price.price = FixedPoint(-1);
    let result = processor.process_trades(&[negative_price]);
    assert_eq!(
        result,
        Err(ProcessingError::InvalidTrade { agg_trade_id: 9 })
    );
}

/// Scenario: a 0.001% threshold and three real tick prices. The second
/// trade breaches up, the third breaches the bar opened at the second.
#[test]
fn scenario_small_threshold_real_ticks() {
    let mut processor = RangeBarProcessor::new(10);
    let trades = [
        trade(1, "50014.00859087", "0.12019569", 1756710002083),
        trade(2, "50163.87750994", "1.01283708", 1756710005113),
        trade(3, "50032.44128269", "0.69397094", 1756710008770),
    ];
    let bars = processor.process_trades(&trades).unwrap();
    assert_eq!(bars.len(), 2);

    assert_eq!(bars[0].open.0, 5_001_400_859_087);
    assert_eq!(bars[0].high.0, 5_016_387_750_994);
    assert_eq!(bars[0].low.0, 5_001_400_859_087);
    assert_eq!(bars[0].close.0, 5_016_387_750_994);
    assert_eq!(bars[0].trade_count, 2);

    assert_eq!(bars[1].open.0, 5_016_387_750_994);
    assert_eq!(bars[1].high.0, 5_016_387_750_994);
    assert_eq!(bars[1].low.0, 5_003_244_128_269);
    assert_eq!(bars[1].close.0, 5_003_244_128_269);
    assert_eq!(bars[1].trade_count, 2);

    let open = processor.get_incomplete_bar().unwrap();
    assert_eq!(open.open.0, 5_003_244_128_269);
    assert_eq!(open.trade_count, 1);
    for bar in &bars {
        assert_bar_invariants(bar);
    }
}

/// Scenario: a bar opened at 50750.0 with a 0.8% threshold freezes its
/// thresholds at exactly 51156.0 and 50344.0: prices strictly inside leave
/// the bar open, the exact threshold prices close it.
#[test]
fn scenario_frozen_thresholds_at_exact_prices() {
    // upper threshold reached exactly
    let mut processor = RangeBarProcessor::new(8000);
    let bars = processor
        .process_trades(&[
            trade(1, "50750.0", "1.0", 1000),
            trade(2, "51155.99999999", "1.0", 2000),
            trade(3, "51156.0", "1.0", 3000),
        ])
        .unwrap();
    assert_eq!(bars.len(), 1);
    assert_eq!(bars[0].close.0, 5_115_600_000_000);
    assert_eq!(bars[0].trade_count, 3);

    // lower threshold reached exactly
    let mut processor = RangeBarProcessor::new(8000);
    let bars = processor
        .process_trades(&[
            trade(1, "50750.0", "1.0", 1000),
            trade(2, "50344.00000001", "1.0", 2000),
            trade(3, "50344.0", "1.0", 3000),
        ])
        .unwrap();
    assert_eq!(bars.len(), 1);
    assert_eq!(bars[0].close.0, 5_034_400_000_000);
}

/// Scenario: three rising trades with a 0.8% threshold close exactly one
/// bar; the third trade breaches the upper threshold.
#[test]
fn scenario_single_upper_breach() {
    let mut processor = RangeBarProcessor::new(8000);
    let trades = [
        trade(1, "50000.0", "1.0", 1000),
        trade(2, "50200.0", "1.0", 2000),
        trade(3, "50500.0", "1.0", 3000),
    ];
    let bars = processor.process_trades(&trades).unwrap();
    assert_eq!(bars.len(), 1);
    assert_eq!(bars[0].open.0, 5_000_000_000_000);
    assert_eq!(bars[0].high.0, 5_050_000_000_000);
    assert_eq!(bars[0].low.0, 5_000_000_000_000);
    assert_eq!(bars[0].close.0, 5_050_000_000_000);
    assert_eq!(bars[0].trade_count, 3);
    // the breaching trade also opened the next bar
    let open = processor.get_incomplete_bar().unwrap();
    assert_eq!(open.open.0, 5_050_000_000_000);
    assert_eq!(open.first_id, 3);
}

/// Scenario: an up-move breach followed by two down-move breaches. Each
/// breaching trade closes one bar and opens the next at its own price, so
/// this stream completes three bars.
#[test]
fn scenario_up_then_down_breaches() {
    let mut processor = RangeBarProcessor::new(8000);
    let trades = [
        trade(1, "50750.0", "1.0", 1000),
        trade(2, "50800.0", "1.0", 2000),
        trade(3, "51200.0", "1.0", 3000),
        trade(4, "50750.0", "1.0", 4000),
        trade(5, "50200.0", "1.0", 5000),
    ];
    let bars = processor.process_trades(&trades).unwrap();
    // bar 1: opened 50750, upper threshold 51156, closed by 51200;
    // bar 2: opened 51200, lower threshold 50790.4, closed by 50750;
    // bar 3: opened 50750, lower threshold 50344, closed by 50200.
    assert_eq!(bars.len(), 3);
    assert_eq!(bars[0].open.0, 5_075_000_000_000);
    assert_eq!(bars[0].close.0, 5_120_000_000_000);
    assert_eq!(bars[1].open.0, 5_120_000_000_000);
    assert_eq!(bars[1].close.0, 5_075_000_000_000);
    assert_eq!(bars[2].open.0, 5_075_000_000_000);
    assert_eq!(bars[2].close.0, 5_020_000_000_000);
    for bar in &bars {
        assert_bar_invariants(bar);
    }
}

/// Thresholds are frozen at the bar's open: later trades shift neither.
#[test]
fn thresholds_do_not_follow_later_trades() {
    // if thresholds were recomputed from the latest price, the drift to
    // 50399 would move the upper threshold out of reach of 50400
    let mut processor = RangeBarProcessor::new(8000);
    let trades = [
        trade(1, "50000.0", "1.0", 1000),
        trade(2, "50399.0", "1.0", 2000),
        trade(3, "50399.5", "1.0", 3000),
        trade(4, "50400.0", "1.0", 4000), // exactly 0.8% above the open
    ];
    let bars = processor.process_trades(&trades).unwrap();
    assert_eq!(bars.len(), 1);
    assert_eq!(bars[0].close.0, 5_040_000_000_000);
    assert_eq!(bars[0].trade_count, 4);
}

/// Chunk invariance: processing a stream in one call and in split batches
/// with carried-over state yields identical completed bars and the same
/// still-open bar.
#[test]
fn chunked_processing_matches_single_call() {
    let mut prices: Vec<String> = Vec::new();
    for i in 0..100u32 {
        // a deterministic walk with repeated up and down swings
        let step = (i % 17) as i64 * 40 - 300;
        let price = 50_000 + (i as i64) * 13 + step * 7;
        prices.push(format!("{}.25", price));
    }
    let trades: Vec<AggTrade> = prices
        .iter()
        .enumerate()
        .map(|(i, p)| trade(i as i64, p, "1.5", 1_000 + i as i64))
        .collect();

    let mut whole = RangeBarProcessor::new(2000);
    let bars_whole = whole.process_trades(&trades).unwrap();

    let mut split = RangeBarProcessor::new(2000);
    let mut bars_split = split.process_trades(&trades[..40]).unwrap();
    bars_split.extend(split.process_trades(&trades[40..]).unwrap());

    assert_eq!(bars_whole, bars_split);
    assert_eq!(whole.get_incomplete_bar(), split.get_incomplete_bar());
}

/// Volume conservation: each bar balances its maker split, and the total
/// volume of all bars equals the trade volume plus one extra count of each
/// breaching trade (which opens the next bar as well as closing one).
#[test]
fn volume_conservation_with_breach_accounting() {
    let mut processor = RangeBarProcessor::new(8000);
    let trades = [
        trade_maker(1, "50000.0", "1.0", 1000, false),
        trade_maker(2, "50200.0", "2.0", 2000, true),
        trade_maker(3, "50500.0", "4.0", 3000, false), // breaches up
        trade_maker(4, "50600.0", "8.0", 4000, true),
    ];
    let bars = processor.process_trades(&trades).unwrap();
    assert_eq!(bars.len(), 1);
    assert_eq!(bars[0].volume.0, 7 * 100_000_000);
    assert_eq!(bars[0].buy_volume.0, 5 * 100_000_000);
    assert_eq!(bars[0].sell_volume.0, 2 * 100_000_000);
    assert_eq!(bars[0].buy_trade_count, 2);
    assert_eq!(bars[0].sell_trade_count, 1);

    let open = processor.get_incomplete_bar().unwrap();
    // trade 3 is in both the completed bar and the bar it opened
    assert_eq!(open.volume.0, (4 + 8) * 100_000_000);
    let trade_volume: i64 = trades.iter().map(|t| t.volume.0).sum();
    let reseed_volume = 4 * 100_000_000;
    assert_eq!(
        bars[0].volume.0 + open.volume.0,
        trade_volume + reseed_volume
    );
}

#[test]
fn vwap_is_turnover_over_volume() {
    let mut processor = RangeBarProcessor::new(8000);
    let trades = [
        trade(1, "100.0", "1.0", 1000),
        trade(2, "100.5", "3.0", 2000),
    ];
    processor.process_trades(&trades).unwrap();
    let open = processor.get_incomplete_bar().unwrap();
    // (100 * 1 + 100.5 * 3) / 4 = 100.375
    assert_eq!(open.vwap.0, 10_037_500_000);
    assert_eq!(
        open.turnover,
        100 * 100_000_000i128 * 100_000_000i128
            + 1_005 * 10_000_000i128 * 3 * 100_000_000i128
    );
}

#[test]
fn export_processor_accumulates_and_drains() {
    let trades1 = [
        trade(1, "50000.0", "1.0", 1000),
        trade(2, "50500.0", "1.0", 2000), // breach up
    ];
    let trades2 = [
        trade(3, "50090.0", "1.0", 3000), // breach down from 50500
        trade(4, "50150.0", "1.0", 4000),
    ];
    let mut export = ExportRangeBarProcessor::new(8000);
    export.process_trades_continuously(&trades1);
    export.process_trades_continuously(&trades2);
    let bars = export.get_all_completed_bars();
    assert_eq!(bars.len(), 2);
    assert_eq!(bars[0].close.0, 5_050_000_000_000);
    assert_eq!(bars[1].close.0, 5_009_000_000_000);
    // drained: nothing left, but the open bar stays
    assert!(export.get_all_completed_bars().is_empty());
    let open = export.get_incomplete_bar().unwrap();
    assert_eq!(open.open.0, 5_009_000_000_000);
    assert_eq!(open.trade_count, 2);

    // process_trades drains what was accumulated plus the new bars
    let mut export = ExportRangeBarProcessor::new(8000);
    let first = export.process_trades(&trades1);
    assert_eq!(first.len(), 1);
    let second = export.process_trades(&trades2);
    assert_eq!(second.len(), 1);
}
