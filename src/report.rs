//! What a report to the remote endpoint carries, and how its answer is judged.
use vstd::prelude::*;
use crate::config::TrackerConfig;
use crate::iface::InterfaceSnapshot;
use reqwest::header::{HeaderValue, InvalidHeaderValue};

verus! {

/// Name of the header that carries the token.
pub const CREDENTIAL_HEADER: &'static str = "Credential";

/// Bound on one report request, in seconds.
pub const REPORT_TIMEOUT_SECS: u64 = 10;

/// Why a report was not acknowledged.
#[derive(Clone, Copy, Debug, PartialEq, Eq, Structural)]
pub enum ReportError {
    /// The endpoint could not be reached: DNS, connection, TLS or timeout.
    Transport,
    /// The endpoint answered with a status outside 200..=299.
    Status(u16),
    /// The token holds a character that a header value cannot carry.
    InvalidCredential,
}

#[verifier::external_type_specification]
#[verifier::external_body]
pub struct ExHeaderValue(HeaderValue);

#[verifier::external_type_specification]
#[verifier::external_body]
pub struct ExInvalidHeaderValue(InvalidHeaderValue);

/// Whether a character can stand in a header value: a tab, or any character
/// from the space up except DEL (every byte of a non-ASCII character is at
/// least 0x80, which header values accept).
pub open spec fn header_char_ok(c: char) -> bool {
    (c as u32 >= 32 && c as u32 != 127) || c == '\t'
}

/// Whether every character of a text can stand in a header value.
pub open spec fn valid_header_text(s: Seq<char>) -> bool {
    forall|i: int| 0 <= i < s.len() ==> header_char_ok(#[trigger] s[i])
}

/// Relies on http's `HeaderValue::from_str` (re-exported by reqwest): it
/// checks each byte of the text, accepting a tab or a byte of at least 32
/// other than 127, and fails on any other.
pub assume_specification[ HeaderValue::from_str ](src: &str) -> (r: Result<
    HeaderValue,
    InvalidHeaderValue,
>)
    ensures
        r is Ok <==> valid_header_text(src@),
;

/// Relies on http's `HeaderValue::set_sensitive`, which only sets the flag
/// that keeps the value out of debug output.
pub assume_specification[ HeaderValue::set_sensitive ](v: &mut HeaderValue, val: bool);

/// One report, ready to be posted: the body is the address text alone and
/// the token travels in the credential header.
pub struct ReportRequest {
    pub url: String,
    pub token: String,
    pub body: Vec<u8>,
}

/// ASCII decimal digits of `n`, without leading zeros.
pub open spec fn decimal(n: nat) -> Seq<u8>
    decreases n,
{
    if n < 10 {
        seq![(48 + n) as u8]
    } else {
        decimal(n / 10).push((48 + n % 10) as u8)
    }
}

/// Dotted-decimal text of an IPv4 address, most significant byte first.
pub open spec fn ipv4_text(a: u32) -> Seq<u8> {
    decimal(((a >> 24u32) as u8) as nat) + seq![46u8] + decimal(((a >> 16u32) as u8) as nat)
        + seq![46u8] + decimal(((a >> 8u32) as u8) as nat) + seq![46u8] + decimal((a as u8) as nat)
}

/// Append the decimal digits of one byte.
fn push_decimal(out: &mut Vec<u8>, n: u8)
    ensures
        final(out)@ == old(out)@ + decimal(n as nat),
{
    let ghost start = out@;
    let ones = n % 10;
    let tens = (n / 10) % 10;
    let hundreds = n / 100;
    if n >= 100 {
        assert(n / 10 / 10 == n / 100);
        assert(decimal((n / 100) as nat) == seq![(48 + hundreds) as u8]);
        assert(decimal((n / 10) as nat) == seq![(48 + hundreds) as u8].push((48 + tens) as u8));
        out.push(48 + hundreds);
        out.push(48 + tens);
        out.push(48 + ones);
        assert(out@ == start + decimal(n as nat));
    } else if n >= 10 {
        assert(decimal((n / 10) as nat) == seq![(48 + tens) as u8]);
        out.push(48 + tens);
        out.push(48 + ones);
        assert(out@ == start + decimal(n as nat));
    } else {
        out.push(48 + ones);
        assert(out@ == start + decimal(n as nat));
    }
}

/// Dotted-decimal text of an IPv4 address, as bytes.
pub fn ipv4_text_bytes(a: u32) -> (r: Vec<u8>)
    ensures
        r@ == ipv4_text(a),
{
    let mut out: Vec<u8> = Vec::new();
    push_decimal(&mut out, (a >> 24u32) as u8);
    out.push(46);
    push_decimal(&mut out, (a >> 16u32) as u8);
    out.push(46);
    push_decimal(&mut out, (a >> 8u32) as u8);
    out.push(46);
    push_decimal(&mut out, a as u8);
    assert(out@ == ipv4_text(a));
    out
}

/// The report of a snapshot under a configuration: posted to the configured
/// URL, with the configured token, and the address text as the whole body.
pub fn report_request(snapshot: &InterfaceSnapshot, config: &TrackerConfig) -> (r: ReportRequest)
    ensures
        r.url == config.report_url,
        r.token == config.token,
        r.body@ == ipv4_text(snapshot.address),
{
    ReportRequest {
        url: config.report_url.clone(),
        token: config.token.clone(),
        body: ipv4_text_bytes(snapshot.address),
    }
}

/// The value of the credential header for a token, marked sensitive so that
/// transport tracing leaves it out; refused when the token holds a character
/// that a header value cannot carry.
pub fn credential_header_value(token: &str) -> (r: Result<HeaderValue, ReportError>)
    ensures
        r is Ok <==> valid_header_text(token@),
        r is Err ==> r == Err::<HeaderValue, ReportError>(ReportError::InvalidCredential),
{
    match HeaderValue::from_str(token) {
        Ok(mut value) => {
            value.set_sensitive(true);
            Ok(value)
        },
        Err(_) => Err(ReportError::InvalidCredential),
    }
}

/// Judge the HTTP status of the endpoint's answer: any 2xx is success.
pub fn classify_status(status: u16) -> (r: Result<(), ReportError>)
    ensures
        r is Ok <==> 200 <= status <= 299,
        r is Err ==> r == Err::<(), ReportError>(ReportError::Status(status)),
{
    if 200 <= status && status <= 299 {
        Ok(())
    } else {
        Err(ReportError::Status(status))
    }
}

} // verus!
