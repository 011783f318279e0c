//! Range bar construction for cryptocurrency tick data.
//!
//! A range bar is an OHLCV aggregate that closes when price moves by a fixed
//! percentage from the bar's own opening price, rather than after a fixed time
//! interval. The closing thresholds are frozen at the bar's open, so a bar's
//! closing decision never depends on information unavailable at its opening
//! instant (no lookahead bias).
//!
//! The crate provides:
//! - [`fixed_point::FixedPoint`]: exact scaled-integer decimals for prices
//!   and volumes;
//! - [`types::AggTrade`] and [`types::RangeBar`]: the input and output records;
//! - [`range_bars::RangeBarProcessor`]: the core state machine that turns an
//!   ordered trade stream into completed range bars;
//! - [`streaming_processor::StreamingProcessor`]: a bounded-memory wrapper
//!   with backpressure and a circuit breaker for continuous input.

use vstd::prelude::*;

pub mod fixed_point;
pub mod gpu;
pub mod range_bars;
pub mod streaming_processor;
pub mod tier1;
pub mod types;

pub use fixed_point::FixedPoint;
pub use range_bars::{ExportRangeBarProcessor, ProcessingError, RangeBarProcessor};
pub use types::{AggTrade, RangeBar};
pub use gpu::{get_gpu_info, is_gpu_available};
pub use tier1::{get_tier1_symbols, get_tier1_usdt_pairs, is_tier1_symbol};
pub use streaming_processor::{
    CircuitState, MetricsSummary, StreamingError, StreamingMetrics, StreamingProcessor,
    StreamingProcessorConfig,
};

verus! {

/// Version of the library.
pub const VERSION: &'static str = "0.1.0";

/// Name of the library.
pub const NAME: &'static str = "rangebar";

/// One-line description of the library.
pub const DESCRIPTION: &'static str = "verified non-lookahead range bar construction";

/// Library initialization hook; embedders configure logging and metrics here.
pub fn init() {
}

} // verus!
