//! The computing parts of the outbound fetchers: reducing fee-rate estimates
//! to three tiers and reading a gas price out of a JSON-RPC style body.
use vstd::prelude::*;
use vstd::relations::{sorted_by, total_ordering};
use vstd::seq_lib::lemma_sorted_unique;
use vstd::string::*;

verus! {

/// Why a fetch produced no value.
#[derive(Debug)]
pub enum FetchError {
    /// The source could not be reached.
    Network(String),
    /// The response did not have the expected shape.
    Parse(String),
}

/// Ascending order on fee rates.
pub open spec fn rate_leq() -> spec_fn(u64, u64) -> bool {
    |a: u64, b: u64| a <= b
}

/// Tiers of an ascending sequence: `(low, middle, high)`.
pub open spec fn tiers_of_sorted(s: Seq<u64>) -> Option<(u64, u64, u64)> {
    if s.len() == 0 {
        None
    } else if s.len() == 1 {
        Some((s[0], s[0], s[0]))
    } else if s.len() == 2 {
        Some((s[0], s[0], s[1]))
    } else {
        Some((s[0], s[(s.len() / 2) as int], s[s.len() - 1]))
    }
}

/// The tiers of an unordered collection of fee rates: those of its ascending arrangement.
pub open spec fn fee_tiers_of(rates: Seq<u64>) -> Option<(u64, u64, u64)> {
    tiers_of_sorted(rates.sort_by(rate_leq()))
}

proof fn lemma_rate_leq_total()
    ensures
        total_ordering(rate_leq()),
{
}

/// Relies on `slice::sort_unstable`: the slice ends up in ascending order
/// and holds the same elements.
#[verifier::external_body]
fn sort_ascending(v: &mut Vec<u64>)
    ensures
        sorted_by(final(v)@, rate_leq()),
        final(v)@.to_multiset() == old(v)@.to_multiset(),
{
    v.sort_unstable();
}

/// Reduces fee-rate estimates to `(low, middle, high)`: the minimum, the element
/// at index `len / 2` of the ascending arrangement, and the maximum; one rate
/// gives it three times, two rates give `(lower, lower, higher)`. No rate is an error.
pub fn fee_tiers(rates: Vec<u64>) -> (r: Result<(u64, u64, u64), FetchError>)
    ensures
        match fee_tiers_of(rates@) {
            Some(t) => r == Ok::<(u64, u64, u64), FetchError>(t),
            None => r matches Err(FetchError::Parse(_)),
        },
{
    let ghost original = rates@;
    let mut sorted = rates;
    sort_ascending(&mut sorted);
    proof {
        lemma_rate_leq_total();
        original.lemma_sort_by_ensures(rate_leq());
        lemma_sorted_unique(sorted@, original.sort_by(rate_leq()), rate_leq());
    }
    let n = sorted.len();
    if n == 0 {
        Err(FetchError::Parse(String::from_str("no feerate provided")))
    } else if n == 1 {
        Ok((sorted[0], sorted[0], sorted[0]))
    } else if n == 2 {
        Ok((sorted[0], sorted[0], sorted[1]))
    } else {
        Ok((sorted[0], sorted[n / 2], sorted[n - 1]))
    }
}

/// The value of a hexadecimal digit, in either case.
pub open spec fn hex_digit(c: char) -> Option<nat> {
    if '0' <= c && c <= '9' {
        Some((c as nat - '0' as nat) as nat)
    } else if 'a' <= c && c <= 'f' {
        Some((c as nat - 'a' as nat + 10) as nat)
    } else if 'A' <= c && c <= 'F' {
        Some((c as nat - 'A' as nat + 10) as nat)
    } else {
        None
    }
}

pub open spec fn all_hex(s: Seq<char>) -> bool {
    forall|i: int| 0 <= i < s.len() ==> (#[trigger] hex_digit(s[i])) is Some
}

/// The number that a string of hexadecimal digits writes, most significant first.
pub open spec fn hex_nat(s: Seq<char>) -> nat
    decreases s.len(),
{
    if s.len() == 0 {
        0
    } else {
        hex_nat(s.drop_last()) * 16 + hex_digit(s.last()).unwrap_or(0)
    }
}

/// Digits of an unsigned number: an optional leading `+` is dropped.
pub open spec fn unsigned_digits(s: Seq<char>) -> Seq<char> {
    if s.len() > 0 && s[0] == '+' {
        s.subrange(1, s.len() as int)
    } else {
        s
    }
}

/// A `u64` written in base 16: an optional `+`, then one or more hex digits,
/// whose value fits in 64 bits.
pub open spec fn hex_u64_of(s: Seq<char>) -> Option<u64> {
    let d = unsigned_digits(s);
    if d.len() > 0 && all_hex(d) && hex_nat(d) <= u64::MAX {
        Some(hex_nat(d) as u64)
    } else {
        None
    }
}

/// Drops every leading repetition of `0x`.
pub open spec fn strip_hex_prefixes(s: Seq<char>) -> Seq<char>
    decreases s.len(),
{
    if s.len() >= 2 && s[0] == '0' && s[1] == 'x' {
        strip_hex_prefixes(s.subrange(2, s.len() as int))
    } else {
        s
    }
}

/// A gas-price quantity: `0x` prefixes dropped, then base 16.
pub open spec fn gas_quantity_of(s: Seq<char>) -> Option<u64> {
    hex_u64_of(strip_hex_prefixes(s))
}

fn hex_digit_value(c: char) -> (r: Option<u64>)
    ensures
        r is None <==> hex_digit(c) is None,
        r is Some ==> hex_digit(c) == Some(r->Some_0 as nat) && r->Some_0 < 16,
{
    if '0' <= c && c <= '9' {
        Some((c as u64) - ('0' as u64))
    } else if 'a' <= c && c <= 'f' {
        Some((c as u64) - ('a' as u64) + 10)
    } else if 'A' <= c && c <= 'F' {
        Some((c as u64) - ('A' as u64) + 10)
    } else {
        None
    }
}

/// Index of the first character after the leading `0x` prefixes.
fn hex_prefix_end(s: &str) -> (start: usize)
    ensures
        start <= s@.len(),
        strip_hex_prefixes(s@) == s@.subrange(start as int, s@.len() as int),
{
    let n = s.unicode_len();
    let mut start: usize = 0;
    assert(s@.subrange(0, n as int) =~= s@);
    while n - start >= 2 && s.get_char(start) == '0' && s.get_char(start + 1) == 'x'
        invariant
            n == s@.len(),
            start <= n,
            strip_hex_prefixes(s@) == strip_hex_prefixes(s@.subrange(start as int, n as int)),
        decreases n - start,
    {
        let ghost rest = s@.subrange(start as int, n as int);
        assert(rest.subrange(2, rest.len() as int) =~= s@.subrange(start + 2, n as int));
        start = start + 2;
    }
    start
}

/// Reads the hex digits `s[start..]` after an optional `+`.
fn parse_hex_from(s: &str, start: usize) -> (r: Result<u64, FetchError>)
    requires
        start <= s@.len(),
    ensures
        match hex_u64_of(s@.subrange(start as int, s@.len() as int)) {
            Some(v) => r == Ok::<u64, FetchError>(v),
            None => r matches Err(FetchError::Parse(_)),
        },
{
    let n = s.unicode_len();
    let ghost t = s@.subrange(start as int, n as int);
    let mut first = start;
    if first < n && s.get_char(first) == '+' {
        first = first + 1;
    }
    let ghost d = s@.subrange(first as int, n as int);
    assert(unsigned_digits(t) =~= d);
    if first >= n {
        return Err(FetchError::Parse(String::from_str("empty quantity")));
    }
    let mut acc: u64 = 0;
    let mut overflow = false;
    let mut i: usize = first;
    while i < n
        invariant
            n == s@.len(),
            first <= i <= n,
            d == s@.subrange(first as int, n as int),
            t == s@.subrange(start as int, n as int),
            unsigned_digits(t) == d,
            all_hex(d.subrange(0, i - first)),
            !overflow ==> acc as nat == hex_nat(d.subrange(0, i - first)),
            overflow ==> hex_nat(d.subrange(0, i - first)) > u64::MAX,
        decreases n - i,
    {
        let c = s.get_char(i);
        let ghost k = i - first;
        assert(d[k] == c);
        let digit = match hex_digit_value(c) {
            Some(v) => v,
            None => {
                assert(!all_hex(d));
                return Err(FetchError::Parse(String::from_str("invalid hex digit")));
            },
        };
        assert(d.subrange(0, k + 1).drop_last() =~= d.subrange(0, k));
        assert(d.subrange(0, k + 1).last() == c);
        assert(all_hex(d.subrange(0, k + 1))) by {
            assert forall|j: int| 0 <= j < k + 1 implies (#[trigger] hex_digit(
                d.subrange(0, k + 1)[j],
            )) is Some by {
                if j < k {
                    assert(d.subrange(0, k + 1)[j] == d.subrange(0, k)[j]);
                }
            }
        }
        if !overflow {
            if acc <= (u64::MAX - digit) / 16 {
                assert(acc * 16 + digit <= u64::MAX) by (nonlinear_arith)
                    requires
                        acc <= (u64::MAX - digit) / 16,
                        digit <= 15,
                ;
                acc = acc * 16 + digit;
            } else {
                assert(acc * 16 + digit > u64::MAX) by (nonlinear_arith)
                    requires
                        acc > (u64::MAX - digit) / 16,
                        digit <= 15,
                ;
                overflow = true;
            }
        }
        i = i + 1;
    }
    assert(d.subrange(0, i - first) =~= d);
    if overflow {
        Err(FetchError::Parse(String::from_str("quantity out of range")))
    } else {
        Ok(acc)
    }
}

/// Reads a gas-price quantity such as `0x3b9aca00`: leading `0x` prefixes are
/// dropped, the rest is a `u64` in base 16 (an optional `+`, then hex digits).
pub fn parse_gas_quantity(s: &str) -> (r: Result<u64, FetchError>)
    ensures
        match gas_quantity_of(s@) {
            Some(v) => r == Ok::<u64, FetchError>(v),
            None => r matches Err(FetchError::Parse(_)),
        },
{
    let start = hex_prefix_end(s);
    parse_hex_from(s, start)
}

/// What `serde_json` finds in `body`, read as a JSON document, at member `key`
/// when that member is a string.
pub uninterp spec fn json_str_member(body: Seq<char>, key: Seq<char>) -> Option<Seq<char>>;

/// Relies on `serde_json::from_str` into a `serde_json::Value`, then
/// `Value::get` and `Value::as_str`: the string at member `key` of the
/// document, if `body` parses and that member is a string.
#[verifier::external_body]
fn json_string_member(body: &str, key: &str) -> (r: Option<String>)
    ensures
        r is Some <==> json_str_member(body@, key@) is Some,
        r is Some ==> json_str_member(body@, key@) == Some(r->Some_0@),
{
    match serde_json::from_str::<serde_json::Value>(body) {
        Ok(v) => v.get(key).and_then(serde_json::Value::as_str).map(str::to_string),
        Err(_) => None,
    }
}

/// The gas price that a JSON-RPC style body reports under `result`.
pub open spec fn gas_price_of(body: Seq<char>) -> Option<u64> {
    match json_str_member(body, "result"@) {
        Some(q) => gas_quantity_of(q),
        None => None,
    }
}

/// Reads the gas price out of a body such as `{"result":"0x3b9aca00"}`.
pub fn parse_gas_price(body: &str) -> (r: Result<u64, FetchError>)
    ensures
        match gas_price_of(body@) {
            Some(v) => r == Ok::<u64, FetchError>(v),
            None => r matches Err(FetchError::Parse(_)),
        },
{
    proof {
        reveal_strlit("result");
    }
    match json_string_member(body, "result") {
        Some(q) => parse_gas_quantity(q.as_str()),
        None => Err(FetchError::Parse(String::from_str("do not find field `result`"))),
    }
}

} // verus!
