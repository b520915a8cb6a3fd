//! Conversions between raw bytes and strings.
use vstd::prelude::*;
use vstd::string::*;
use vstd::utf8::*;

verus! {

/// What `String::from_utf8_lossy` makes of a byte sequence.
pub uninterp spec fn lossy_of(b: Seq<u8>) -> Seq<char>;

/// Relies on `String::from_utf8_lossy`: each invalid sequence becomes U+FFFD;
/// valid UTF-8 input is decoded unchanged.
#[verifier::external_body]
pub(crate) fn lossy_string(b: &[u8]) -> (r: String)
    ensures
        r@ == lossy_of(b@),
        valid_utf8(b@) ==> encode_utf8(r@) == b@,
{
    String::from_utf8_lossy(b).into_owned()
}

/// Relies on `std::str::from_utf8`: it accepts exactly the valid UTF-8
/// sequences, which then decode to the returned characters.
#[verifier::external_body]
pub(crate) fn utf8_str(b: &[u8]) -> (r: Option<String>)
    ensures
        r is Some <==> valid_utf8(b@),
        r is Some ==> r->0@ == decode_utf8(b@),
{
    match std::str::from_utf8(b) {
        Ok(s) => Some(s.to_string()),
        Err(_) => None,
    }
}

/// What `str::to_lowercase` makes of a string.
pub uninterp spec fn lower_of(s: Seq<char>) -> Seq<char>;

/// Relies on `str::to_lowercase`: the result depends on the characters alone;
/// each character maps to at least one, so only the empty string maps to the
/// empty string.
#[verifier::external_body]
pub(crate) fn to_lower(s: &str) -> (r: String)
    ensures
        r@ == lower_of(s@),
        s@.len() == 0 ==> r@.len() == 0,
        s@.len() > 0 ==> r@.len() > 0,
{
    s.to_lowercase()
}

/// Relies on `char::to_string`: the one-character string.
#[verifier::external_body]
pub(crate) fn char_string(ch: char) -> (r: String)
    ensures
        r@ == seq![ch],
{
    ch.to_string()
}

/// `a`, the decimal digits of `n`, then `b`, as text.
pub(crate) fn with_number(a: &str, n: usize, b: &str) -> (r: String)
    ensures
        r@ == lossy_of(a.spec_bytes() + crate::render::decimal(n as nat) + b.spec_bytes()),
{
    let mut bytes: Vec<u8> = Vec::new();
    bytes.extend_from_slice(a.as_bytes());
    let digits = crate::render::usize_digits(n);
    bytes.extend_from_slice(digits.as_slice());
    bytes.extend_from_slice(b.as_bytes());
    proof {
        assert(bytes@ =~= a.spec_bytes() + crate::render::decimal(n as nat) + b.spec_bytes());
    }
    lossy_string(bytes.as_slice())
}

} // verus!
