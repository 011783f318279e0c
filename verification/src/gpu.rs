//! Detection hooks for an optional GPU-accelerated processing backend.
//!
//! The reference state machine in [`crate::range_bars`] is the authoritative
//! implementation. An accelerated tensor backend is a performance experiment
//! that lives outside this library; this build carries none, so every probe
//! here reports that no device is available, and callers fall back to the
//! reference path.

use vstd::prelude::*;
use vstd::string::StringExecFns;

verus! {

/// Most symbols a multi-symbol batch may hold.
pub const MAX_TIER1_SYMBOLS: usize = 18;

/// Most trades per symbol in one batch.
pub const MAX_TRADES_PER_SYMBOL: usize = 10000;

/// The graphics APIs an accelerated backend could sit on.
#[derive(Clone, Copy, Debug, PartialEq, Eq, Structural)]
pub enum GpuBackend {
    Metal,
    Vulkan,
    Dx12,
}

/// Failures of GPU device handling.
#[derive(Clone, Debug, PartialEq, Eq)]
pub enum GpuError {
    NoDeviceAvailable,
    InitializationFailed { message: String },
    ComputationError { message: String },
}

/// Failures of GPU bar construction. Without an accelerated backend in the
/// build, the only value is `NotAvailable`.
#[derive(Clone, Copy, Debug, PartialEq, Eq, Structural)]
pub enum GpuProcessingError {
    NotAvailable,
}

/// Failures of multi-symbol GPU processing. Without an accelerated backend
/// in the build, the only value is `NotAvailable`.
#[derive(Clone, Copy, Debug, PartialEq, Eq, Structural)]
pub enum MultiSymbolGpuError {
    NotAvailable,
}

/// Failures of GPU benchmarking.
#[derive(Clone, Debug, PartialEq, Eq)]
pub enum BenchmarkError {
    GpuError { message: String },
    ProcessingError { message: String },
    SetupError { message: String },
    GpuNotAvailable,
}

/// Probe for a GPU device. This build has no accelerated backend, so there
/// is never one.
pub fn detect_gpu_device() -> (r: Option<()>)
    ensures
        r is None,
{
    None
}

/// Is a GPU available for processing? Never, in this build.
pub fn is_gpu_available() -> (r: bool)
    ensures
        !r,
{
    false
}

/// Is GPU acceleration available and functional? Never, in this build.
pub fn is_gpu_functional() -> (r: bool)
    ensures
        !r,
{
    false
}

/// A short description of the GPU device for diagnostics.
pub fn get_gpu_info() -> (r: String)
    ensures
        r@ == "no GPU acceleration in this build"@,
{
    "no GPU acceleration in this build".to_owned()
}

/// Detailed GPU diagnostics. Never empty.
pub fn get_gpu_diagnostics() -> (r: String)
    ensures
        r@ == "no GPU acceleration in this build: the reference processor handles all work"@,
        r@.len() > 0,
{
    proof {
        reveal_strlit("no GPU acceleration in this build: the reference processor handles all work");
    }
    "no GPU acceleration in this build: the reference processor handles all work".to_owned()
}

} // verus!
