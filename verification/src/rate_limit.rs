//! Reading the rate-limit and retry-after headers of a response.

use reqwest::header::HeaderMap;
use vstd::prelude::*;
use vstd::slice::slice_subrange;

use crate::delay::Delay;
use crate::delay::NANOS_PER_SEC;
use crate::error::OpenAiRateLimitHeaders;
use crate::error::RateLimitSnapshot;
use crate::text::all_ascii;
use crate::text::ascii_text;
use crate::text::ascii_to_string;
use crate::text::option_text;

verus! {

/// `reqwest::header::HeaderMap`: the headers of a message. What it holds
/// is named by [`header_values`].
#[verifier::external_type_specification]
#[verifier::external_body]
#[verifier::reject_recursive_types(T)]
pub struct ExHeaderMap<T>(reqwest::header::HeaderMap<T>);

/// `reqwest::header::HeaderValue`: the value of one header, which a header
/// map is made of by default.
#[verifier::external_type_specification]
#[verifier::external_body]
pub struct ExHeaderValue(reqwest::header::HeaderValue);

/// What a header map holds: under each header name, written in lower case,
/// the bytes of the first value stored for that name.
pub uninterp spec fn header_values(headers: HeaderMap) -> Map<Seq<char>, Seq<u8>>;

/// The characters a header name is made of.
pub open spec fn is_header_name_char(c: char) -> bool {
    let u = c as u32;
    ||| 0x30 <= u <= 0x39
    ||| 0x41 <= u <= 0x5A
    ||| 0x61 <= u <= 0x7A
    ||| c == '!'
    ||| c == '#'
    ||| c == '$'
    ||| c == '%'
    ||| c == '&'
    ||| c == '\''
    ||| c == '*'
    ||| c == '+'
    ||| c == '-'
    ||| c == '.'
    ||| c == '^'
    ||| c == '_'
    ||| c == '`'
    ||| c == '|'
    ||| c == '~'
}

/// `c` in lower case where it is an ASCII capital, else `c`.
pub open spec fn lower_case(c: char) -> char {
    let u = c as u32;
    if 0x41 <= u <= 0x5A {
        ((u + 32) as u32) as char
    } else {
        c
    }
}

/// The name under which a lookup for `name` searches: `name` in lower case,
/// where it is a header name of at most 65535 characters.
pub open spec fn header_key(name: Seq<char>) -> Option<Seq<char>> {
    if 0 < name.len() <= 65535 && (forall|i: int|
        0 <= i < name.len() ==> is_header_name_char(#[trigger] name[i])) {
        Some(Seq::new(name.len(), |i: int| lower_case(name[i])))
    } else {
        None
    }
}

/// The bytes of the first value stored for `name`, if there is one.
pub open spec fn header_lookup(values: Map<Seq<char>, Seq<u8>>, name: Seq<char>) -> Option<
    Seq<u8>,
> {
    match header_key(name) {
        Some(key) => if values.contains_key(key) {
            Some(values[key])
        } else {
            None
        },
        None => None,
    }
}

/// A byte that a header value may show as text: printable ASCII or a tab.
pub open spec fn is_visible_ascii(b: u8) -> bool {
    32 <= b < 127 || b == 9
}

/// Whether every byte shows as text.
pub open spec fn all_visible_ascii(bytes: Seq<u8>) -> bool {
    forall|i: int| 0 <= i < bytes.len() ==> is_visible_ascii(#[trigger] bytes[i])
}

/// The value stored for `name`, where it reads as text.
pub open spec fn header_text(values: Map<Seq<char>, Seq<u8>>, name: Seq<char>) -> Option<
    Seq<u8>,
> {
    match header_lookup(values, name) {
        Some(bytes) => if all_visible_ascii(bytes) {
            Some(bytes)
        } else {
            None
        },
        None => None,
    }
}

/// A space or a tab.
pub open spec fn is_blank(b: u8) -> bool {
    b == 32 || b == 9
}

/// `s` without the spaces and tabs it begins with.
pub open spec fn strip_leading_blanks(s: Seq<u8>) -> Seq<u8>
    decreases s.len(),
{
    if s.len() > 0 && is_blank(s[0]) {
        strip_leading_blanks(s.drop_first())
    } else {
        s
    }
}

/// `s` without the spaces and tabs it ends with.
pub open spec fn strip_trailing_blanks(s: Seq<u8>) -> Seq<u8>
    decreases s.len(),
{
    if s.len() > 0 && is_blank(s.last()) {
        strip_trailing_blanks(s.drop_last())
    } else {
        s
    }
}

/// `s` without the spaces and tabs at either end.
pub open spec fn strip_blanks(s: Seq<u8>) -> Seq<u8> {
    strip_trailing_blanks(strip_leading_blanks(s))
}

/// A decimal digit.
pub open spec fn is_digit(b: u8) -> bool {
    48 <= b <= 57
}

/// Whether every byte is a decimal digit.
pub open spec fn all_digits(s: Seq<u8>) -> bool {
    forall|i: int| 0 <= i < s.len() ==> is_digit(#[trigger] s[i])
}

/// The number that a run of decimal digits writes.
pub open spec fn digits_value(s: Seq<u8>) -> nat
    decreases s.len(),
{
    if s.len() == 0 {
        0
    } else {
        digits_value(s.drop_last()) * 10 + (s.last() - 48) as nat
    }
}

/// `s` without the plus sign it may begin with.
pub open spec fn without_plus(s: Seq<u8>) -> Seq<u8> {
    if s.len() > 0 && s[0] == 43 {
        s.drop_first()
    } else {
        s
    }
}

/// The number that `s` writes in decimal: an optional plus sign, then one or
/// more digits and nothing else.
pub open spec fn decimal_value(s: Seq<u8>) -> Option<nat> {
    let digits = without_plus(s);
    if digits.len() > 0 && all_digits(digits) {
        Some(digits_value(digits))
    } else {
        None
    }
}

/// The number that `s` writes in decimal, where it is at most `max`.
pub open spec fn bounded_decimal(s: Seq<u8>, max: nat) -> Option<nat> {
    match decimal_value(s) {
        Some(n) => if n <= max {
            Some(n)
        } else {
            None
        },
        None => None,
    }
}

/// The count that the header `name` carries, where it is one that fits `u32`.
pub open spec fn header_count(values: Map<Seq<char>, Seq<u8>>, name: Seq<char>) -> Option<u32> {
    match header_text(values, name) {
        Some(bytes) => match bounded_decimal(bytes, u32::MAX as nat) {
            Some(n) => Some(n as u32),
            None => None,
        },
        None => None,
    }
}

/// The whole seconds that the `retry-after` header asks for, where the
/// header is present and reads, without the blanks around it, as a count
/// that fits `u64`. A header that is absent or malformed asks for nothing.
pub open spec fn retry_after_count(values: Map<Seq<char>, Seq<u8>>) -> Option<nat> {
    match header_text(values, "retry-after"@) {
        Some(bytes) => bounded_decimal(strip_blanks(bytes), u64::MAX as nat),
        None => None,
    }
}

/// The whole seconds to wait on account of the `retry-after` header: what
/// it asks for, and none where it asks for nothing.
pub open spec fn retry_after_secs(values: Map<Seq<char>, Seq<u8>>) -> nat {
    match retry_after_count(values) {
        Some(n) => n,
        None => 0,
    }
}

/// The wait that the service asked for, in nanoseconds, where its
/// `retry-after` header asks for one.
pub open spec fn retry_after_hint(values: Map<Seq<char>, Seq<u8>>) -> Option<nat> {
    match retry_after_count(values) {
        Some(n) => Some(n * NANOS_PER_SEC as nat),
        None => None,
    }
}

/// Calls `HeaderMap::get` with a name given as text and hands out the bytes
/// of the value found: the first value stored under the name in lower case,
/// nothing where the name is no header name or the map holds none for it.
#[verifier::external_body]
pub(crate) fn header_first_value(headers: &HeaderMap, name: &str) -> (r: Option<Vec<u8>>)
    ensures
        match header_lookup(header_values(*headers), name@) {
            Some(bytes) => r matches Some(v) && v@ == bytes,
            None => r is None,
        },
{
    headers.get(name).map(|value| value.as_bytes().to_vec())
}

/// Whether every byte shows as text.
pub fn is_visible_text(bytes: &[u8]) -> (b: bool)
    ensures
        b == all_visible_ascii(bytes@),
{
    let mut i: usize = 0;
    while i < bytes.len()
        invariant
            i <= bytes.len(),
            all_visible_ascii(bytes@.take(i as int)),
        decreases bytes.len() - i,
    {
        let b: u8 = bytes[i];
        if !((32 <= b && b < 127) || b == 9) {
            return false;
        }
        proof {
            assert forall|k: int| 0 <= k < i + 1 implies is_visible_ascii(
                #[trigger] bytes@.take(i + 1)[k],
            ) by {
                if k < i {
                    assert(bytes@.take(i as int)[k] == bytes@[k]);
                }
            }
        }
        i = i + 1;
    }
    proof {
        assert(bytes@.take(i as int) =~= bytes@);
    }
    true
}

/// The bytes without the spaces and tabs at either end.
pub fn trim_blanks<'a>(bytes: &'a [u8]) -> (r: &'a [u8])
    ensures
        r@ == strip_blanks(bytes@),
{
    let n: usize = bytes.len();
    let mut lo: usize = 0;
    proof {
        assert(bytes@.skip(0) =~= bytes@);
    }
    while lo < n && (bytes[lo] == 32 || bytes[lo] == 9)
        invariant
            lo <= n,
            n == bytes.len(),
            strip_leading_blanks(bytes@) == strip_leading_blanks(bytes@.skip(lo as int)),
        decreases n - lo,
    {
        proof {
            assert(bytes@.skip(lo as int).drop_first() =~= bytes@.skip(lo + 1));
        }
        lo = lo + 1;
    }
    let mut hi: usize = n;
    proof {
        assert(bytes@.skip(lo as int) =~= bytes@.subrange(lo as int, n as int));
    }
    while hi > lo && (bytes[hi - 1] == 32 || bytes[hi - 1] == 9)
        invariant
            lo <= hi <= n,
            n == bytes.len(),
            strip_blanks(bytes@) == strip_trailing_blanks(bytes@.subrange(lo as int, hi as int)),
        decreases hi,
    {
        proof {
            assert(bytes@.subrange(lo as int, hi as int).drop_last() =~= bytes@.subrange(
                lo as int,
                hi - 1,
            ));
        }
        hi = hi - 1;
    }
    slice_subrange(bytes, lo, hi)
}

/// Reads a decimal count of at most `max`: an optional plus sign, then one
/// or more digits and nothing else.
pub fn parse_decimal(bytes: &[u8], max: u64) -> (r: Option<u64>)
    ensures
        match bounded_decimal(bytes@, max as nat) {
            Some(n) => r == Some(n as u64),
            None => r is None,
        },
{
    let n: usize = bytes.len();
    let start: usize = if n > 0 && bytes[0] == 43 {
        1
    } else {
        0
    };
    if start == n {
        return None;
    }
    let ghost digits = without_plus(bytes@);
    proof {
        assert(digits =~= bytes@.subrange(start as int, n as int));
    }
    let mut value: u64 = 0;
    let mut too_large: bool = false;
    let mut i: usize = start;
    while i < n
        invariant
            start <= i <= n,
            n == bytes.len(),
            digits == bytes@.subrange(start as int, n as int),
            digits == without_plus(bytes@),
            all_digits(digits.take(i - start)),
            !too_large ==> value == digits_value(digits.take(i - start)) && value <= max,
            too_large ==> digits_value(digits.take(i - start)) > max,
        decreases n - i,
    {
        let b: u8 = bytes[i];
        if b < 48 || b > 57 {
            proof {
                assert(digits[i - start] == b);
                assert(!is_digit(digits[i - start]));
                assert(!all_digits(digits));
            }
            return None;
        }
        let d: u64 = (b - 48) as u64;
        proof {
            let longer = digits.take(i - start + 1);
            assert(longer.drop_last() =~= digits.take(i - start));
            assert(longer.last() == b);
            assert forall|k: int| 0 <= k < longer.len() implies is_digit(#[trigger] longer[k]) by {
                if k < i - start {
                    assert(digits.take(i - start)[k] == longer[k]);
                }
            }
        }
        if !too_large {
            if d > max || value > (max - d) / 10 {
                too_large = true;
            } else {
                value = value * 10 + d;
            }
        }
        i = i + 1;
    }
    proof {
        assert(digits.take(n - start) =~= digits);
    }
    if too_large {
        None
    } else {
        Some(value)
    }
}

/// The value of the header `name` as a count that fits `u32`; nothing where
/// the header is absent or is no such count.
pub fn header_u32(headers: &HeaderMap, name: &str) -> (r: Option<u32>)
    ensures
        r == header_count(header_values(*headers), name@),
{
    match header_first_value(headers, name) {
        Some(value) => {
            if !is_visible_text(value.as_slice()) {
                return None;
            }
            match parse_decimal(value.as_slice(), 0xFFFF_FFFF) {
                Some(n) => Some(n as u32),
                None => None,
            }
        },
        None => None,
    }
}

/// The value of the header `name` as text; nothing where the header is
/// absent or does not read as text.
pub fn header_string(headers: &HeaderMap, name: &str) -> (r: Option<String>)
    ensures
        option_text(r) == match header_text(header_values(*headers), name@) {
            Some(bytes) => Some(ascii_text(bytes)),
            None => None,
        },
{
    match header_first_value(headers, name) {
        Some(value) => {
            if !is_visible_text(value.as_slice()) {
                return None;
            }
            proof {
                assert(all_ascii(value@)) by {
                    assert forall|i: int| 0 <= i < value@.len() implies #[trigger] value@[i]
                        < 128 by {
                        assert(is_visible_ascii(value@[i]));
                    }
                }
            }
            Some(ascii_to_string(value.as_slice()))
        },
        None => None,
    }
}

/// The wait that the `retry-after` header asks for, in whole seconds;
/// nothing where the header is absent or malformed. A header that reads
/// zero asks for a wait of no length.
pub fn retry_after(headers: &HeaderMap) -> (wait: Option<Delay>)
    ensures
        option_nanos(wait) == retry_after_hint(header_values(*headers)),
{
    match header_first_value(headers, "retry-after") {
        Some(value) => {
            if !is_visible_text(value.as_slice()) {
                return None;
            }
            match parse_decimal(trim_blanks(value.as_slice()), 0xFFFF_FFFF_FFFF_FFFF) {
                Some(secs) => Some(Delay::from_secs(secs)),
                None => None,
            }
        },
        None => None,
    }
}

/// The delay to wait on account of the `retry-after` header, in whole
/// seconds; the empty delay where the header is absent or malformed.
pub fn parse_retry_after_seconds(headers: &HeaderMap) -> (d: Delay)
    ensures
        d@ == retry_after_secs(header_values(*headers)) * NANOS_PER_SEC as nat,
{
    match retry_after(headers) {
        Some(wait) => wait,
        None => Delay::from_secs(0),
    }
}

/// The value of the header `name` as text, where it reads as text.
pub open spec fn header_words(values: Map<Seq<char>, Seq<u8>>, name: Seq<char>) -> Option<
    Seq<char>,
> {
    match header_text(values, name) {
        Some(bytes) => Some(ascii_text(bytes)),
        None => None,
    }
}

/// What the rate-limit headers say, field by field; a header that is absent
/// or malformed leaves its field empty.
pub open spec fn rate_limit_snapshot(values: Map<Seq<char>, Seq<u8>>) -> RateLimitSnapshot {
    RateLimitSnapshot {
        limit_requests: header_count(values, "x-ratelimit-limit-requests"@),
        remaining_requests: header_count(values, "x-ratelimit-remaining-requests"@),
        reset_requests: header_words(values, "x-ratelimit-reset-requests"@),
        limit_tokens: header_count(values, "x-ratelimit-limit-tokens"@),
        remaining_tokens: header_count(values, "x-ratelimit-remaining-tokens"@),
        reset_tokens: header_words(values, "x-ratelimit-reset-tokens"@),
    }
}

/// The best reset indicator at hand: that for requests, else that for tokens.
pub open spec fn reset_indicator(snapshot: RateLimitSnapshot) -> Option<Seq<char>> {
    match snapshot.reset_requests {
        Some(reset) => Some(reset),
        None => snapshot.reset_tokens,
    }
}

/// The span that an optional delay holds.
pub open spec fn option_nanos(delay: Option<Delay>) -> Option<nat> {
    match delay {
        Some(d) => Some(d@),
        None => None,
    }
}

/// Reads everything that a response says about rate limits: the wait it
/// asks for, the best reset indicator, and the snapshot of all six fields.
pub fn extract_rate_limit_info(headers: &HeaderMap) -> (r: (
    Option<Delay>,
    Option<String>,
    OpenAiRateLimitHeaders,
))
    ensures
        option_nanos(r.0) == retry_after_hint(header_values(*headers)),
        option_text(r.1) == reset_indicator(rate_limit_snapshot(header_values(*headers))),
        r.2@ == rate_limit_snapshot(header_values(*headers)),
{
    let wait: Option<Delay> = retry_after(headers);
    let info = OpenAiRateLimitHeaders {
        limit_requests: header_u32(headers, "x-ratelimit-limit-requests"),
        remaining_requests: header_u32(headers, "x-ratelimit-remaining-requests"),
        reset_requests: header_string(headers, "x-ratelimit-reset-requests"),
        limit_tokens: header_u32(headers, "x-ratelimit-limit-tokens"),
        remaining_tokens: header_u32(headers, "x-ratelimit-remaining-tokens"),
        reset_tokens: header_string(headers, "x-ratelimit-reset-tokens"),
    };
    let reset_at: Option<String> = match &info.reset_requests {
        Some(reset) => Some(reset.clone()),
        None => match &info.reset_tokens {
            Some(reset) => Some(reset.clone()),
            None => None,
        },
    };
    (wait, reset_at, info)
}

/// How loudly a rate-limit report is to be logged.
#[derive(Debug, Clone, Copy, PartialEq, Eq)]
pub enum LogLevel {
    Warn,
    Debug,
}

/// A report on the rate-limit headroom of one response, ready to be logged.
#[derive(Debug, Clone, Copy, PartialEq, Eq)]
pub struct RateLimitReport {
    pub level: LogLevel,
    pub remaining_requests: u32,
    pub limit_requests: u32,
    pub remaining_tokens: u32,
    pub limit_tokens: u32,
}

/// Whether `remaining` is at most `floor`, or at most a twentieth of a
/// limit that is known.
pub open spec fn headroom_is_tight(remaining: u32, limit: u32, floor: u32) -> bool {
    remaining <= floor || (limit > 0 && remaining * 20 <= limit)
}

/// The report that the headers `values` call for. A count that is missing
/// reads as unlimited where it is a remainder, as unknown (zero) where it is
/// a limit.
pub open spec fn rate_limit_report(values: Map<Seq<char>, Seq<u8>>) -> RateLimitReport {
    let snapshot = rate_limit_snapshot(values);
    let remaining_requests = match snapshot.remaining_requests {
        Some(n) => n,
        None => u32::MAX,
    };
    let remaining_tokens = match snapshot.remaining_tokens {
        Some(n) => n,
        None => u32::MAX,
    };
    let limit_requests = match snapshot.limit_requests {
        Some(n) => n,
        None => 0u32,
    };
    let limit_tokens = match snapshot.limit_tokens {
        Some(n) => n,
        None => 0u32,
    };
    RateLimitReport {
        level: if headroom_is_tight(remaining_requests, limit_requests, 2) || headroom_is_tight(
            remaining_tokens,
            limit_tokens,
            128,
        ) {
            LogLevel::Warn
        } else {
            LogLevel::Debug
        },
        remaining_requests,
        limit_requests,
        remaining_tokens,
        limit_tokens,
    }
}

/// Exec form of [`headroom_is_tight`].
fn is_tight(remaining: u32, limit: u32, floor: u32) -> (b: bool)
    ensures
        b == headroom_is_tight(remaining, limit, floor),
{
    let wide: u64 = remaining as u64;
    remaining <= floor || (limit > 0 && wide * 20 <= limit as u64)
}

/// Decides how the rate-limit headroom of a response is to be logged: as a
/// warning where requests or tokens run short, else for debugging. Nothing
/// is written here; the caller hands the report to its log.
pub fn log_rate_limit_tight(headers: &HeaderMap) -> (report: RateLimitReport)
    ensures
        report == rate_limit_report(header_values(*headers)),
{
    let remaining_requests: u32 = match header_u32(headers, "x-ratelimit-remaining-requests") {
        Some(n) => n,
        None => 0xFFFF_FFFF,
    };
    let remaining_tokens: u32 = match header_u32(headers, "x-ratelimit-remaining-tokens") {
        Some(n) => n,
        None => 0xFFFF_FFFF,
    };
    let limit_requests: u32 = match header_u32(headers, "x-ratelimit-limit-requests") {
        Some(n) => n,
        None => 0,
    };
    let limit_tokens: u32 = match header_u32(headers, "x-ratelimit-limit-tokens") {
        Some(n) => n,
        None => 0,
    };
    let tight: bool = is_tight(remaining_requests, limit_requests, 2) || is_tight(
        remaining_tokens,
        limit_tokens,
        128,
    );
    RateLimitReport {
        level: if tight {
            LogLevel::Warn
        } else {
            LogLevel::Debug
        },
        remaining_requests,
        limit_requests,
        remaining_tokens,
        limit_tokens,
    }
}

} // verus!
