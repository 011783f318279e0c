//! Tier-1 cryptocurrency symbols: the base assets listed across all of the
//! major exchange's futures markets, which the multi-symbol tooling accepts.

use vstd::prelude::*;
use vstd::string::StringExecFns;
use vstd::string::StringSliceAdditionalSpecFns;
use vstd::utf8::encode_utf8_decode_utf8;

verus! {

/// How many Tier-1 symbols there are.
pub const TIER1_SYMBOL_COUNT: usize = 18;

/// Is `s` the name of a Tier-1 base asset?
pub open spec fn spec_is_tier1(s: Seq<char>) -> bool {
    ||| s == "BTC"@
    ||| s == "ETH"@
    ||| s == "BNB"@
    ||| s == "SOL"@
    ||| s == "XRP"@
    ||| s == "ADA"@
    ||| s == "AVAX"@
    ||| s == "DOGE"@
    ||| s == "DOT"@
    ||| s == "LINK"@
    ||| s == "LTC"@
    ||| s == "BCH"@
    ||| s == "UNI"@
    ||| s == "ATOM"@
    ||| s == "FIL"@
    ||| s == "NEAR"@
    ||| s == "APT"@
    ||| s == "ARB"@
}

/// The Tier-1 symbols in their canonical order.
pub open spec fn spec_tier1_symbols() -> Seq<Seq<char>> {
    seq![
        "BTC"@,
        "ETH"@,
        "BNB"@,
        "SOL"@,
        "XRP"@,
        "ADA"@,
        "AVAX"@,
        "DOGE"@,
        "DOT"@,
        "LINK"@,
        "LTC"@,
        "BCH"@,
        "UNI"@,
        "ATOM"@,
        "FIL"@,
        "NEAR"@,
        "APT"@,
        "ARB"@,
    ]
}

/// Exact string equality, decided byte by byte. UTF-8 encoding is injective,
/// so equal bytes mean equal character sequences.
fn str_eq(a: &str, b: &str) -> (r: bool)
    ensures
        r == (a@ == b@),
{
    proof {
        encode_utf8_decode_utf8(a@);
        encode_utf8_decode_utf8(b@);
    }
    let ab = a.as_bytes();
    let bb = b.as_bytes();
    if ab.len() != bb.len() {
        return false;
    }
    let n = ab.len();
    let mut i: usize = 0;
    while i < n
        invariant
            0 <= i <= n == ab@.len() == bb@.len(),
            ab@ == a.spec_bytes(),
            bb@ == b.spec_bytes(),
            forall|j: int| 0 <= j < i ==> ab@[j] == bb@[j],
        decreases n - i,
    {
        if ab[i] != bb[i] {
            proof {
                encode_utf8_decode_utf8(a@);
                encode_utf8_decode_utf8(b@);
            }
            return false;
        }
        i = i + 1;
    }
    proof {
        assert(ab@ =~= bb@);
        encode_utf8_decode_utf8(a@);
        encode_utf8_decode_utf8(b@);
    }
    true
}

/// Is the base symbol Tier-1? `is_tier1_symbol("BTC")` holds;
/// `is_tier1_symbol("SHIB")` does not.
pub fn is_tier1_symbol(symbol: &str) -> (r: bool)
    ensures
        r == spec_is_tier1(symbol@),
{
    str_eq(symbol, "BTC") || str_eq(symbol, "ETH") || str_eq(symbol, "BNB") || str_eq(
        symbol,
        "SOL",
    ) || str_eq(symbol, "XRP") || str_eq(symbol, "ADA") || str_eq(symbol, "AVAX") || str_eq(
        symbol,
        "DOGE",
    ) || str_eq(symbol, "DOT") || str_eq(symbol, "LINK") || str_eq(symbol, "LTC") || str_eq(
        symbol,
        "BCH",
    ) || str_eq(symbol, "UNI") || str_eq(symbol, "ATOM") || str_eq(symbol, "FIL") || str_eq(
        symbol,
        "NEAR",
    ) || str_eq(symbol, "APT") || str_eq(symbol, "ARB")
}

/// All Tier-1 base symbols, in canonical order.
pub fn get_tier1_symbols() -> (r: Vec<String>)
    ensures
        r@.len() == spec_tier1_symbols().len(),
        forall|k: int| 0 <= k < r@.len() ==> (#[trigger] r@[k])@ == spec_tier1_symbols()[k],
{
    let mut symbols: Vec<String> = Vec::new();
    symbols.push("BTC".to_owned());
    symbols.push("ETH".to_owned());
    symbols.push("BNB".to_owned());
    symbols.push("SOL".to_owned());
    symbols.push("XRP".to_owned());
    symbols.push("ADA".to_owned());
    symbols.push("AVAX".to_owned());
    symbols.push("DOGE".to_owned());
    symbols.push("DOT".to_owned());
    symbols.push("LINK".to_owned());
    symbols.push("LTC".to_owned());
    symbols.push("BCH".to_owned());
    symbols.push("UNI".to_owned());
    symbols.push("ATOM".to_owned());
    symbols.push("FIL".to_owned());
    symbols.push("NEAR".to_owned());
    symbols.push("APT".to_owned());
    symbols.push("ARB".to_owned());
    symbols
}

/// All Tier-1 symbols as USDT-quoted pair names, in canonical order:
/// `"BTCUSDT"`, `"ETHUSDT"`, and so on.
pub fn get_tier1_usdt_pairs() -> (r: Vec<String>)
    ensures
        r@.len() == spec_tier1_symbols().len(),
        forall|k: int|
            0 <= k < r@.len() ==> (#[trigger] r@[k])@ == spec_tier1_symbols()[k] + "USDT"@,
{
    let base = get_tier1_symbols();
    let mut pairs: Vec<String> = Vec::new();
    let n = base.len();
    let mut i: usize = 0;
    while i < n
        invariant
            0 <= i <= n == base@.len(),
            n == spec_tier1_symbols().len(),
            forall|k: int| 0 <= k < n ==> (#[trigger] base@[k])@ == spec_tier1_symbols()[k],
            pairs@.len() == i,
            forall|k: int|
                0 <= k < i ==> (#[trigger] pairs@[k])@ == spec_tier1_symbols()[k] + "USDT"@,
        decreases n - i,
    {
        let mut pair = base[i].clone();
        pair.append("USDT");
        pairs.push(pair);
        i = i + 1;
    }
    pairs
}

} // verus!
