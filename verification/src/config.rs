//! Tunables of the pools and the reading of the configured low watermark.

use vstd::prelude::*;
use vstd::string::StringSliceAdditionalSpecFns;

verus! {

/// Number of static workers when none is configured.
pub const DEFAULT_LOW_WATERMARK: u64 = 2;

/// Milliseconds between two ticks of the load sampler.
pub const TICK_INTERVAL_MS: u64 = 200;

/// Number of samples the rolling window holds.
pub const WINDOW_LEN: usize = 61;

/// Milliseconds a static worker waits for a task before it parks.
pub const THREAD_RECV_TIMEOUT_MS: u64 = 100;

/// Ticks a parked dynamic worker stays idle before it leaves.
pub const IDLE_DEADLINE_TICKS: u64 = 5;

/// The soft cap on dynamic workers is this many times the low watermark.
pub const SOFT_CAP_FACTOR: u64 = 10;

/// The percentile of the window that the scaler provisions for.
pub const LOAD_PERCENTILE: u64 = 95;

/// The byte of the ASCII digit `0`.
pub const ASCII_ZERO: u8 = 48;

/// The byte of the ASCII digit `9`.
pub const ASCII_NINE: u8 = 57;

/// The byte of the ASCII plus sign.
pub const ASCII_PLUS: u8 = 43;

/// Whether `b` is an ASCII decimal digit.
pub open spec fn is_digit(b: u8) -> bool {
    ASCII_ZERO <= b <= ASCII_NINE
}

/// Whether every byte of `s` is an ASCII decimal digit.
pub open spec fn all_digits(s: Seq<u8>) -> bool {
    forall|i: int| 0 <= i < s.len() ==> is_digit(#[trigger] s[i])
}

/// The number that the digits `s` denote in base ten, most significant first.
pub open spec fn decimal_value(s: Seq<u8>) -> nat
    decreases s.len(),
{
    if s.len() == 0 {
        0
    } else {
        decimal_value(s.drop_last()) * 10 + (s.last() - ASCII_ZERO) as nat
    }
}

/// The bytes of `s` after an optional leading plus sign.
pub open spec fn unsigned_part(s: Seq<u8>) -> Seq<u8> {
    if s.len() > 0 && s[0] == ASCII_PLUS {
        s.skip(1)
    } else {
        s
    }
}

/// The value of a configured watermark: an optional plus sign, then one or
/// more decimal digits whose value fits in 64 bits. Anything else has no value.
pub open spec fn decimal_u64(s: Seq<u8>) -> Option<u64> {
    let digits = unsigned_part(s);
    if digits.len() > 0 && all_digits(digits) && decimal_value(digits) <= u64::MAX {
        Some(decimal_value(digits) as u64)
    } else {
        None
    }
}

/// A prefix of a digit string denotes no more than the whole string.
pub proof fn lemma_decimal_prefix(s: Seq<u8>, n: int)
    requires
        0 <= n <= s.len(),
        all_digits(s),
    ensures
        decimal_value(s.take(n)) <= decimal_value(s),
    decreases s.len() - n,
{
    if n == s.len() {
        assert(s.take(n) =~= s);
    } else {
        lemma_decimal_prefix(s, n + 1);
        let t = s.take(n + 1);
        assert(t.drop_last() =~= s.take(n));
    }
}

/// Reads a low watermark from its configured text.
pub fn parse_low_watermark(text: &str) -> (r: Option<u64>)
    ensures
        r == decimal_u64(text.spec_bytes()),
{
    let bytes = text.as_bytes();
    let n = bytes.len();
    let start: usize = if n > 0 && bytes[0] == ASCII_PLUS {
        1
    } else {
        0
    };
    if start == n {
        return None;
    }
    let ghost digits = unsigned_part(bytes@);
    let mut value: u64 = 0;
    let mut i: usize = start;
    while i < n
        invariant
            start <= i <= n,
            n == bytes@.len(),
            bytes@ == text.spec_bytes(),
            digits == bytes@.skip(start as int),
            digits == unsigned_part(bytes@),
            all_digits(digits.take(i - start)),
            value == decimal_value(digits.take(i - start)),
        decreases n - i,
    {
        let b = bytes[i];
        if b < ASCII_ZERO || b > ASCII_NINE {
            assert(!is_digit(digits[i - start]));
            return None;
        }
        let d: u64 = (b - ASCII_ZERO) as u64;
        let ghost next = digits.take(i - start + 1);
        assert(next.drop_last() =~= digits.take(i - start));
        assert(all_digits(next)) by {
            assert forall|j: int| 0 <= j < next.len() implies is_digit(#[trigger] next[j]) by {
                if j < i - start {
                    assert(next[j] == digits.take(i - start)[j]);
                }
            }
        }
        if value > (u64::MAX - d) / 10 {
            proof {
                if all_digits(digits) {
                    lemma_decimal_prefix(digits, i - start + 1);
                }
            }
            return None;
        }
        value = value * 10 + d;
        i += 1;
    }
    assert(digits.take(i - start) =~= digits);
    Some(value)
}

/// The low watermark of a pool: the configured number, or the default
/// where nothing is configured. A configured text that is no number is a
/// misconfiguration and is not taken: `parse_low_watermark` tells.
pub fn low_watermark(configured: Option<&str>) -> (watermark: u64)
    requires
        configured matches Some(text) ==> decimal_u64(text.spec_bytes()) is Some,
    ensures
        watermark == match configured {
            Some(text) => decimal_u64(text.spec_bytes())->0,
            None => DEFAULT_LOW_WATERMARK,
        },
{
    match configured {
        Some(text) => parse_low_watermark(text).unwrap(),
        None => DEFAULT_LOW_WATERMARK,
    }
}

} // verus!
