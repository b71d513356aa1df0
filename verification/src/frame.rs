//! Entropy sources and the frame-capture error taxonomy.
//!
//! A source is a stream URL plus the extra request headers it needs. The
//! catalog is merged out of per-file load outcomes, a failed file never
//! aborting the rest; header pairs are checked as a whole before any request
//! carries them, so a bad pair fails the call with nothing applied.

use std::str::FromStr;
use vstd::prelude::*;

verus! {

/// Why a source description file was skipped: its content did not parse,
/// or it could not be read. Both carry the underlying message.
#[derive(Debug)]
pub enum SourceError {
    Parse(String),
    Io(String),
}

/// Why capturing bytes from a source failed.
#[derive(Debug)]
pub enum CaptureError {
    /// Transport failure or non-decodable body, with the transport's message.
    Request(String),
    /// An empty playlist or invalid response was received from the server.
    InvalidResponse,
    /// No usable source: every source description failed to load.
    SourceError(SourceError),
    /// A configured header name is not valid HTTP header syntax.
    InvalidHeaderName(String),
    /// A configured header value is not valid HTTP header syntax.
    InvalidHeaderValue(String),
}

/// One configured entropy source: its URL and the headers sent with both
/// fetches. An absent header map in a description file reads as no headers.
pub struct Source {
    pub source: String,
    pub headers: Vec<(String, String)>,
}

/// The catalog obtained from a sequence of per-file load outcomes: every
/// successfully parsed file contributes its sources in order, a failed file
/// contributes nothing.
pub open spec fn spec_merged(outcomes: Seq<Option<Vec<Source>>>) -> Seq<Source>
    decreases outcomes.len(),
{
    if outcomes.len() == 0 {
        Seq::empty()
    } else {
        (match outcomes[0] {
            Option::Some(v) => v@,
            Option::None => Seq::empty(),
        }) + spec_merged(outcomes.drop_first())
    }
}

/// Merge per-file load outcomes into one catalog, skipping failed files.
pub fn merge_loaded(outcomes: Vec<Option<Vec<Source>>>) -> (r: Vec<Source>)
    ensures
        r@ == spec_merged(outcomes@),
{
    let ghost orig = outcomes@;
    let mut rest = outcomes;
    let mut result: Vec<Source> = Vec::new();
    while rest.len() > 0
        invariant
            spec_merged(orig) == result@ + spec_merged(rest@),
        decreases rest@.len(),
    {
        let ghost before = rest@;
        let first = rest.remove(0);
        proof {
            assert(rest@ =~= before.drop_first());
        }
        match first {
            Some(mut v) => {
                result.append(&mut v);
            },
            None => {},
        }
    }
    proof {
        assert(result@ =~= result@ + spec_merged(rest@));
    }
    result
}

/// Whether a string is acceptable as an HTTP header name. Decided by the
/// HTTP implementation; a function of the string alone.
pub uninterp spec fn valid_header_name(s: Seq<char>) -> bool;

/// Whether a string is acceptable as an HTTP header value. Decided by the
/// HTTP implementation; a function of the string alone.
pub uninterp spec fn valid_header_value(s: Seq<char>) -> bool;

/// Relies on reqwest::header::HeaderName::from_str, which accepts exactly
/// the valid header names and depends on its input alone.
#[verifier::external_body]
fn header_name_ok(name: &str) -> (r: bool)
    ensures
        r == valid_header_name(name@),
{
    reqwest::header::HeaderName::from_str(name).is_ok()
}

/// Relies on reqwest::header::HeaderValue::from_str, which accepts exactly
/// the valid header values and depends on its input alone.
#[verifier::external_body]
fn header_value_ok(value: &str) -> (r: bool)
    ensures
        r == valid_header_value(value@),
{
    reqwest::header::HeaderValue::from_str(value).is_ok()
}

/// Both halves of a header pair parse as valid HTTP header syntax.
pub open spec fn spec_pair_valid(p: (String, String)) -> bool {
    valid_header_name(p.0@) && valid_header_value(p.1@)
}

/// Every configured header pair is valid.
pub open spec fn spec_headers_valid(hs: Seq<(String, String)>) -> bool {
    forall|k: int| 0 <= k < hs.len() ==> spec_pair_valid(#[trigger] hs[k])
}

/// `k` is the first invalid pair.
pub open spec fn spec_first_bad(hs: Seq<(String, String)>, k: int) -> bool {
    &&& 0 <= k < hs.len()
    &&& !spec_pair_valid(hs[k])
    &&& forall|m: int| 0 <= m < k ==> spec_pair_valid(#[trigger] hs[m])
}

/// The error an invalid pair produces: its name when the name is bad, else
/// its value.
pub open spec fn spec_bad_pair_error(p: (String, String)) -> CaptureError {
    if !valid_header_name(p.0@) {
        CaptureError::InvalidHeaderName(p.0)
    } else {
        CaptureError::InvalidHeaderValue(p.1)
    }
}

/// Check every configured header pair before a request carries any of them:
/// the whole set is accepted, or the first bad pair fails the call and no
/// header is applied.
pub fn validate_headers(headers: &Vec<(String, String)>) -> (r: Result<(), CaptureError>)
    ensures
        r is Ok <==> spec_headers_valid(headers@),
        r is Err ==> exists|k: int|
            #[trigger] spec_first_bad(headers@, k) && r->Err_0 == spec_bad_pair_error(headers@[k]),
{
    let n = headers.len();
    let mut i: usize = 0;
    while i < n
        invariant
            i <= n,
            n == headers@.len(),
            forall|m: int| 0 <= m < i ==> spec_pair_valid(#[trigger] headers@[m]),
        decreases n - i,
    {
        if !header_name_ok(headers[i].0.as_str()) {
            proof {
                assert(spec_first_bad(headers@, i as int));
            }
            return Err(CaptureError::InvalidHeaderName(headers[i].0.clone()));
        }
        if !header_value_ok(headers[i].1.as_str()) {
            proof {
                assert(spec_first_bad(headers@, i as int));
            }
            return Err(CaptureError::InvalidHeaderValue(headers[i].1.clone()));
        }
        i += 1;
    }
    Ok(())
}

} // verus!
