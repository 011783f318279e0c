//! The library's top-level surface: constants, symbol lists and the
//! acceleration probes.

use rangebar::gpu::{
    get_gpu_diagnostics, get_gpu_info, is_gpu_available, is_gpu_functional, MAX_TIER1_SYMBOLS,
    MAX_TRADES_PER_SYMBOL,
};
use rangebar::tier1::{get_tier1_symbols, get_tier1_usdt_pairs, is_tier1_symbol};
use rangebar::{DESCRIPTION, NAME, VERSION};

#[test]
fn test_version() {
    assert!(!VERSION.is_empty());
    assert!(!NAME.is_empty());
    assert!(!DESCRIPTION.is_empty());
}

#[test]
fn test_constants() {
    assert_eq!(MAX_TIER1_SYMBOLS, 18);
    assert_eq!(MAX_TRADES_PER_SYMBOL, 10000);
}

#[test]
fn test_tier1_symbol_verification() {
    // Verify our test symbols are actually Tier-1
    let test_symbols = ["BTC", "ETH", "SOL", "ADA", "AVAX"];

    for symbol in &test_symbols {
        assert!(
            is_tier1_symbol(symbol),
            "Symbol {} should be Tier-1",
            symbol
        );
    }
}

#[test]
fn tier1_rejects_unknown_symbols() {
    assert!(!is_tier1_symbol("SHIB"));
    assert!(!is_tier1_symbol("DOGECOIN"));
    assert!(!is_tier1_symbol(""));
    assert!(!is_tier1_symbol("btc"));
}

#[test]
fn tier1_symbol_lists_are_consistent() {
    let symbols = get_tier1_symbols();
    assert_eq!(symbols.len(), 18);
    for symbol in &symbols {
        assert!(is_tier1_symbol(symbol));
    }
    let pairs = get_tier1_usdt_pairs();
    assert_eq!(pairs.len(), 18);
    assert_eq!(pairs[0], "BTCUSDT");
    for (symbol, pair) in symbols.iter().zip(pairs.iter()) {
        assert_eq!(*pair, format!("{}USDT", symbol));
    }
}

#[test]
fn test_gpu_diagnostics() {
    let diagnostics = get_gpu_diagnostics();
    assert!(!diagnostics.is_empty());
    println!("GPU Diagnostics:\n{}", diagnostics);
}

#[test]
fn gpu_probes_report_no_device() {
    assert!(!is_gpu_available());
    assert!(!is_gpu_functional());
    assert!(!get_gpu_info().is_empty());
    assert!(rangebar::gpu::detect_gpu_device().is_none());
}

#[test]
fn test_atomic_threshold_calculation() {
    println!("🧪 ATOMIC TEST: Threshold calculation precision");

    // Exact values from our range bar implementation
    let open_price = 50750.0f32;
    let threshold_bps = 8000u32;

    // CPU calculation (reference)
    let cpu_multiplier = (threshold_bps as f32) / 1_000_000.0;
    let cpu_upper = open_price * (1.0 + cpu_multiplier);
    let cpu_lower = open_price * (1.0 - cpu_multiplier);

    println!("   Open: {:.6}", open_price);
    println!("   BPS: {}", threshold_bps);
    println!("   CPU Multiplier: {:.9}", cpu_multiplier);
    println!("   CPU Upper: {:.6}", cpu_upper);
    println!("   CPU Lower: {:.6}", cpu_lower);

    // Expected exact values
    let expected_upper = 51156.0f32;
    let expected_lower = 50344.0f32;

    println!("   Expected Upper: {:.6}", expected_upper);
    println!("   Expected Lower: {:.6}", expected_lower);

    // Verify calculations match exactly
    assert!(
        (cpu_upper - expected_upper).abs() < 0.001,
        "Upper threshold calculation mismatch"
    );
    assert!(
        (cpu_lower - expected_lower).abs() < 0.001,
        "Lower threshold calculation mismatch"
    );

    println!("   ✅ THRESHOLD CALCULATION VERIFIED");
}

#[test]
fn library_initializes() {
    rangebar::init();
}
