//! The computing half of signal extraction from an inbound
//! request: the presence check on the request marker header, the
//! search for the `datastar` query parameter and its
//! percent-decoding, and the typed lookup of a signal in a decoded
//! name-to-payload mapping. Reading the request itself and decoding
//! JSON belong to the surrounding host code, which hands this
//! module plain values.

use vstd::prelude::*;

use crate::signal::{last_value, SignalSelector};
use crate::text::{lemma_find_char_bounds, spec_find_char};

verus! {

/// A typed bundle of signals decoded from one request.
pub struct Signals<T>(pub T);

/// Why a request yields no signals.
#[derive(Debug, Clone, PartialEq)]
pub enum SignalRejection {
    /// The request marker header is absent or not `true`.
    MissingDatastarHeader,
    /// The request's payload is not the JSON expected of it.
    InvalidJson(String),
    /// The decoded mapping lacks the named signal.
    MissingSignal(String),
}

/// The presence check on the request marker: only a header value
/// of exactly `true` lets extraction proceed.
pub fn check_datastar_header(value: Option<&str>) -> (r: Result<(), SignalRejection>)
    ensures
        r is Ok <==> (value matches Option::Some(v) && v@ == "true"@),
        r is Err ==> r->Err_0 == SignalRejection::MissingDatastarHeader,
{
    match value {
        Option::Some(v) => {
            if crate::text::str_eq(v, "true") {
                Result::Ok(())
            } else {
                Result::Err(SignalRejection::MissingDatastarHeader)
            }
        },
        Option::None => Result::Err(SignalRejection::MissingDatastarHeader),
    }
}

pub open spec fn datastar_key() -> Seq<char> {
    seq!['d', 'a', 't', 'a', 's', 't', 'a', 'r']
}

/// The raw value of the first `datastar` query parameter: the
/// query splits into pairs at `&`, a pair without `=` is passed
/// over, and the first pair whose key is `datastar` yields its
/// value text.
pub open spec fn spec_datastar_param(q: Seq<char>, i: int) -> Option<Seq<char>>
    decreases q.len() - i,
    via spec_datastar_param_decreases
{
    if i < 0 || i > q.len() {
        Option::None
    } else {
        let e = spec_find_char(q, i, '&');
        let eq = spec_find_char(q, i, '=');
        if eq < e && q.subrange(i, eq) == datastar_key() {
            Option::Some(q.subrange(eq + 1, e))
        } else if e >= q.len() {
            Option::None
        } else {
            spec_datastar_param(q, e + 1)
        }
    }
}

#[via_fn]
proof fn spec_datastar_param_decreases(q: Seq<char>, i: int) {
    if 0 <= i <= q.len() {
        lemma_find_char_bounds(q, i, '&');
    }
}

/// Find the raw `datastar` parameter of a query string.
pub fn datastar_param(query: &str) -> (r: Option<String>)
    ensures
        match r {
            Option::Some(v) => spec_datastar_param(query@, 0) == Option::Some(v@),
            Option::None => spec_datastar_param(query@, 0) is None,
        },
{
    let n = query.unicode_len();
    let mut i: usize = 0;
    loop
        invariant
            i <= n,
            n == query@.len(),
            spec_datastar_param(query@, 0) == spec_datastar_param(query@, i as int),
        decreases n - i,
    {
        let e = crate::text::find_char(query, i, '&');
        let eq = crate::text::find_char(query, i, '=');
        if eq < e {
            let key = query.substring_char(i, eq);
            proof {
                assert(key@ =~= query@.subrange(i as int, eq as int));
                reveal_strlit("datastar");
                assert("datastar"@ =~= datastar_key());
            }
            if crate::text::str_eq(key, "datastar") {
                let value = query.substring_char(eq + 1, e);
                proof {
                    assert(value@ =~= query@.subrange((eq + 1) as int, e as int));
                }
                return Option::Some(value.to_owned());
            }
        }
        if e >= n {
            return Option::None;
        }
        i = e + 1;
    }
}

/// The percent-decoded form of a text, or nothing where the
/// decoded bytes are not text; it depends on the characters alone.
pub uninterp spec fn url_decoded_of(s: Seq<char>) -> Option<Seq<char>>;

/// Relies on urlencoding's `decode`: pure percent-decoding of the
/// input, assuming UTF-8. It succeeds exactly where the decoded
/// bytes are valid text; the error carried out is the message of
/// the UTF-8 failure.
#[verifier::external_body]
fn url_decode(s: &str) -> (r: Result<String, String>)
    ensures
        match r {
            Result::Ok(d) => url_decoded_of(s@) == Option::Some(d@),
            Result::Err(_) => url_decoded_of(s@) is None,
        },
{
    match urlencoding::decode(s) {
        Ok(decoded) => Ok(decoded.into_owned()),
        Err(e) => Err(e.to_string()),
    }
}

/// The serialized signal mapping of a request's query string: the
/// percent-decoded value of its `datastar` parameter. It succeeds
/// exactly where the parameter is present and decodes; a query
/// without the parameter is invalid, as is a value whose decoded
/// bytes are not text.
pub fn datastar_json_from_query(query: &str) -> (r: Result<String, SignalRejection>)
    ensures
        r is Ok <==> (spec_datastar_param(query@, 0) matches Option::Some(raw) && url_decoded_of(
            raw,
        ) is Some),
        match r {
            Result::Ok(d) => spec_datastar_param(query@, 0) matches Option::Some(raw)
                && url_decoded_of(raw) == Option::Some(d@),
            Result::Err(e) => e is InvalidJson && (spec_datastar_param(query@, 0) is None
                ==> e->InvalidJson_0@ == "Missing datastar query parameter"@),
        },
{
    match datastar_param(query) {
        Option::None => Result::Err(
            SignalRejection::InvalidJson("Missing datastar query parameter".to_owned()),
        ),
        Option::Some(raw) => match url_decode(raw.as_str()) {
            Result::Ok(d) => Result::Ok(d),
            Result::Err(m) => Result::Err(SignalRejection::InvalidJson(m)),
        },
    }
}

/// Look one signal up in a decoded name-to-payload mapping: its
/// payload under the selector's canonical name, or the missing-
/// signal rejection naming what was asked for.
pub fn from_signal_map<'a>(
    signals: &'a Vec<(String, serde_json::Value)>,
    selector: &SignalSelector,
) -> (r: Result<&'a serde_json::Value, SignalRejection>)
    ensures
        match r {
            Result::Ok(v) => last_value(signals@, selector.name@) == Option::Some(*v),
            Result::Err(e) => last_value(signals@, selector.name@) is None && (e
                matches SignalRejection::MissingSignal(n) && n@ == selector.name@),
        },
{
    match crate::signal::signals_from_map(signals, selector) {
        Option::Some(v) => Result::Ok(v),
        Option::None => Result::Err(SignalRejection::MissingSignal(selector.name.clone())),
    }
}

} // verus!
