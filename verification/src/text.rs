//! Text helpers shared by the header reader, the frame decoder and the event
//! interpreter: decoding bytes as UTF-8, trimming, prefixes, and decimal
//! numerals.

use vstd::prelude::*;
use vstd::string::StringExecFns;
use vstd::utf8::*;

verus! {

/// `std::str::Utf8Error`: why bytes are not UTF-8. It is carried through
/// unopened.
#[verifier::external_type_specification]
#[verifier::external_body]
pub struct ExUtf8Error(std::str::Utf8Error);

/// The characters that count as white space: those with the Unicode property
/// `White_Space`.
pub open spec fn is_whitespace(c: char) -> bool {
    let u = c as u32;
    ||| 0x09 <= u <= 0x0D
    ||| u == 0x20
    ||| u == 0x85
    ||| u == 0xA0
    ||| u == 0x1680
    ||| 0x2000 <= u <= 0x200A
    ||| u == 0x2028
    ||| u == 0x2029
    ||| u == 0x202F
    ||| u == 0x205F
    ||| u == 0x3000
}

/// `s` without the white space it begins with.
pub open spec fn trim_start(s: Seq<char>) -> Seq<char>
    decreases s.len(),
{
    if s.len() > 0 && is_whitespace(s[0]) {
        trim_start(s.drop_first())
    } else {
        s
    }
}

/// `s` without the white space it ends with.
pub open spec fn trim_end(s: Seq<char>) -> Seq<char>
    decreases s.len(),
{
    if s.len() > 0 && is_whitespace(s.last()) {
        trim_end(s.drop_last())
    } else {
        s
    }
}

/// `s` without the white space at either end.
pub open spec fn trimmed(s: Seq<char>) -> Seq<char> {
    trim_end(trim_start(s))
}

/// Whether `s` begins with `prefix`.
pub open spec fn starts_with(s: Seq<char>, prefix: Seq<char>) -> bool {
    prefix.len() <= s.len() && s.subrange(0, prefix.len() as int) == prefix
}

/// The text whose characters are the given bytes, one character per byte.
pub open spec fn ascii_text(bytes: Seq<u8>) -> Seq<char> {
    Seq::new(bytes.len(), |i: int| bytes[i] as char)
}

/// Whether every byte is below 128.
pub open spec fn all_ascii(bytes: Seq<u8>) -> bool {
    forall|i: int| 0 <= i < bytes.len() ==> #[trigger] bytes[i] < 128
}

/// The text that an optional string holds.
pub open spec fn option_text(o: Option<String>) -> Option<Seq<char>> {
    match o {
        Some(s) => Some(s@),
        None => None,
    }
}

/// The decimal numeral of `n`, without sign or leading zeros.
pub open spec fn decimal_numeral(n: nat) -> Seq<u8>
    decreases n,
{
    if n < 10 {
        seq![(48 + n) as u8]
    } else {
        decimal_numeral(n / 10).push((48 + n % 10) as u8)
    }
}

/// Bytes below 128 are valid UTF-8 and decode to themselves.
pub proof fn lemma_ascii_is_utf8(bytes: Seq<u8>)
    requires
        all_ascii(bytes),
    ensures
        valid_utf8(bytes),
        decode_utf8(bytes) == ascii_text(bytes),
{
    let chars = ascii_text(bytes);
    assert(is_ascii_chars(chars)) by {
        assert forall|i: int| 0 <= i < chars.len() implies '\0' <= #[trigger] chars[i]
            <= '\u{7f}' by {
            assert(bytes[i] < 128);
        }
    }
    is_ascii_chars_encode_utf8(chars);
    assert(encode_utf8(chars) =~= bytes) by {
        assert forall|i: int| 0 <= i < bytes.len() implies encode_utf8(chars)[i] == bytes[i] by {
            assert(bytes[i] < 128);
            assert(chars[i] as u8 == encode_utf8(chars)[i]);
        }
    }
    encode_utf8_valid_utf8(chars);
    encode_utf8_decode_utf8(chars);
}

/// The error with which the UTF-8 decoder refuses bytes that are not
/// UTF-8.
pub uninterp spec fn utf8_failure(bytes: Seq<u8>) -> std::str::Utf8Error;

/// Calls `std::str::from_utf8`: the bytes as text where they are valid
/// UTF-8; where they are not, the decoder's error, which depends on the
/// bytes alone.
#[verifier::external_body]
pub(crate) fn utf8_text<'a>(bytes: &'a [u8]) -> (r: Result<&'a str, std::str::Utf8Error>)
    ensures
        r matches Ok(s) ==> valid_utf8(bytes@) && s@ == decode_utf8(bytes@),
        r matches Err(e) ==> !valid_utf8(bytes@) && e == utf8_failure(bytes@),
{
    std::str::from_utf8(bytes)
}

/// Calls `str::trim`: the text without the white space at either end.
#[verifier::external_body]
pub(crate) fn trim_text<'a>(s: &'a str) -> (r: &'a str)
    ensures
        r@ == trimmed(s@),
{
    s.trim()
}

/// Calls `str::strip_prefix`: what follows the prefix where the text begins
/// with it, nothing where it does not.
#[verifier::external_body]
pub(crate) fn strip_text_prefix<'a>(s: &'a str, prefix: &str) -> (r: Option<&'a str>)
    ensures
        r matches Some(rest) ==> starts_with(s@, prefix@) && rest@ == s@.skip(prefix@.len() as int),
        r is None ==> !starts_with(s@, prefix@),
{
    s.strip_prefix(prefix)
}

/// The text made of the given bytes, each below 128.
pub(crate) fn ascii_to_string(bytes: &[u8]) -> (s: String)
    requires
        all_ascii(bytes@),
    ensures
        s@ == ascii_text(bytes@),
{
    proof {
        lemma_ascii_is_utf8(bytes@);
    }
    match utf8_text(bytes) {
        Ok(text) => text.to_owned(),
        Err(_) => String::new(),
    }
}

/// The decimal numeral of `n` as text.
pub fn decimal_string(n: usize) -> (s: String)
    ensures
        s@ == ascii_text(decimal_numeral(n as nat)),
{
    let mut digits: Vec<u8> = Vec::new();
    let mut rest: usize = n;
    // The digits are found from the right; `digits` holds them reversed.
    while rest >= 10
        invariant
            decimal_numeral(n as nat) == decimal_numeral(rest as nat) + digits@.reverse(),
            forall|i: int| 0 <= i < digits.len() ==> 48 <= #[trigger] digits[i] <= 57,
        decreases rest,
    {
        let digit: u8 = (rest % 10) as u8 + 48;
        proof {
            let tail = digits@.reverse();
            assert(decimal_numeral(rest as nat) == decimal_numeral((rest / 10) as nat).push(
                digit,
            ));
            assert(digits@.push(digit).reverse() =~= seq![digit] + tail);
            assert(decimal_numeral((rest / 10) as nat).push(digit) + tail =~= decimal_numeral(
                (rest / 10) as nat,
            ) + (seq![digit] + tail));
        }
        digits.push(digit);
        rest = rest / 10;
    }
    let last: u8 = rest as u8 + 48;
    let mut out: Vec<u8> = Vec::new();
    out.push(last);
    let mut i: usize = digits.len();
    while i > 0
        invariant
            i <= digits.len(),
            out@ == seq![last] + digits@.reverse().subrange(0, digits.len() - i),
            48 <= last <= 57,
            forall|k: int| 0 <= k < digits.len() ==> 48 <= #[trigger] digits[k] <= 57,
        decreases i,
    {
        i = i - 1;
        out.push(digits[i]);
        proof {
            let rev = digits@.reverse();
            assert(rev[digits.len() - 1 - i] == digits[i as int]);
            assert(rev.subrange(0, digits.len() - i) =~= rev.subrange(0, digits.len() - i - 1).push(
                digits[i as int],
            ));
        }
    }
    proof {
        assert(digits@.reverse().subrange(0, digits.len() as int) =~= digits@.reverse());
        assert(decimal_numeral(rest as nat) =~= seq![last]);
        assert(out@ == decimal_numeral(n as nat));
        assert(all_ascii(out@)) by {
            assert forall|k: int| 0 <= k < out.len() implies #[trigger] out[k] < 128 by {
                if k > 0 {
                    assert(out[k] == digits@.reverse()[k - 1]);
                }
            }
        }
    }
    ascii_to_string(out.as_slice())
}

/// `head` followed by `tail`.
pub fn concat_text(head: &str, tail: &str) -> (s: String)
    ensures
        s@ == head@ + tail@,
{
    let mut out: String = head.to_owned();
    out.append(tail);
    out
}

} // verus!
