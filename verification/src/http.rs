//! The request executor's logic: the query parameters of a calendars request,
//! the `WWW-Authenticate` challenge parser, and the classification of an HTTP
//! response into success, structured API error, or unhandled status. The HTTP
//! call itself happens outside; this module turns its plain outcome — status,
//! header, body — into one of the modeled results.

use vstd::prelude::*;
use vstd::string::StrSliceExecFns;
use vstd::string::StringExecFns;

use crate::json::{json_parse, parse_json, Json};
use crate::model::{spec_error_of, spec_tempo_of, Error, TempoCalendars};
use crate::strutil::{
    find_char_from, find_first, lemma_find_first_at, lemma_find_first_none,
    lemma_find_first_props, str_eq, trim_range, trim_spaces,
};
use crate::time::{format_timestamp, spec_format_timestamp, Timestamp};
use crate::ApiError;

verus! {

/// The view of an optional string.
pub open spec fn opt_string_view(o: Option<String>) -> Option<Seq<char>> {
    match o {
        Some(s) => Some(s@),
        None => None,
    }
}

/// One `key=value` token applied to the scan state: `error` and
/// `error_description` overwrite their slot, anything else changes nothing.
/// The token is trimmed of spaces before the split at its first `=`.
pub open spec fn apply_part(
    acc: (Option<Seq<char>>, Option<Seq<char>>),
    part: Seq<char>,
) -> (Option<Seq<char>>, Option<Seq<char>>) {
    let p = trim_spaces(part);
    match find_first(p, '=') {
        Some(i) => if 0 <= i < p.len() {
            let k = p.take(i);
            let v = p.skip(i + 1);
            if k == "error"@ {
                (Some(v), acc.1)
            } else if k == "error_description"@ {
                (acc.0, Some(v))
            } else {
                acc
            }
        } else {
            acc
        },
        None => acc,
    }
}

/// Two scan states merged, the later one winning slot by slot.
pub open spec fn combine(
    a: (Option<Seq<char>>, Option<Seq<char>>),
    b: (Option<Seq<char>>, Option<Seq<char>>),
) -> (Option<Seq<char>>, Option<Seq<char>>) {
    (
        if b.0 is Some {
            b.0
        } else {
            a.0
        },
        if b.1 is Some {
            b.1
        } else {
            a.1
        },
    )
}

/// The scan of a whole challenge: the semicolon-separated tokens applied left
/// to right, the last assignment of each key winning.
pub open spec fn scan_params(s: Seq<char>) -> (Option<Seq<char>>, Option<Seq<char>>)
    decreases s.len(),
{
    match find_first(s, ';') {
        Some(i) => if 0 <= i < s.len() {
            combine(apply_part((None, None), s.take(i)), scan_params(s.skip(i + 1)))
        } else {
            (None, None)
        },
        None => apply_part((None, None), s),
    }
}

/// The `error` and `error_description` values of a `WWW-Authenticate`
/// challenge, when both are present.
pub open spec fn spec_www_authenticate(s: Seq<char>) -> Option<(Seq<char>, Seq<char>)> {
    match scan_params(s) {
        (Some(e), Some(d)) => Some((e, d)),
        _ => None,
    }
}

/// Applying a token to a state is merging the token's own effect onto it.
proof fn lemma_apply_part_combine(acc: (Option<Seq<char>>, Option<Seq<char>>), part: Seq<char>)
    ensures
        apply_part(acc, part) == combine(acc, apply_part((None, None), part)),
{
}

/// Merging is associative.
proof fn lemma_combine_assoc(
    a: (Option<Seq<char>>, Option<Seq<char>>),
    b: (Option<Seq<char>>, Option<Seq<char>>),
    c: (Option<Seq<char>>, Option<Seq<char>>),
)
    ensures
        combine(a, combine(b, c)) == combine(combine(a, b), c),
{
}

/// Applies the token standing between `from` and `to` of `value` to the scan
/// state.
fn apply_segment(value: &str, from: usize, to: usize, acc: (Option<String>, Option<String>)) -> (r:
    (Option<String>, Option<String>))
    requires
        from <= to <= value@.len(),
        value@.len() <= usize::MAX,
    ensures
        (opt_string_view(r.0), opt_string_view(r.1)) == apply_part(
            (opt_string_view(acc.0), opt_string_view(acc.1)),
            value@.subrange(from as int, to as int),
        ),
{
    let ghost part = value@.subrange(from as int, to as int);
    let (lo, hi) = trim_range(value, from, to);
    let ghost p = value@.subrange(lo as int, hi as int);
    match find_char_from(value, lo, '=') {
        Some(j) if j < hi => {
            proof {
                lemma_find_first_props(value@.skip(lo as int), '=');
                let fi = find_first(value@.skip(lo as int), '=').unwrap();
                assert(j == lo + fi);
                assert(p[j - lo] == value@[j as int]);
                assert forall|k: int| 0 <= k < j - lo implies p[k] != '=' by {
                    assert(p[k] == value@.skip(lo as int)[k]);
                }
                lemma_find_first_at(p, '=', j - lo);
            }
            let v = value.substring_char(j + 1, hi).to_owned();
            proof {
                assert(v@ =~= p.skip(j - lo + 1));
                assert(value@.subrange(lo as int, j as int) =~= p.take(j - lo));
            }
            if str_eq(value.substring_char(lo, j), "error") {
                (Some(v), acc.1)
            } else if str_eq(value.substring_char(lo, j), "error_description") {
                (acc.0, Some(v))
            } else {
                acc
            }
        },
        _ => {
            proof {
                lemma_find_first_props(value@.skip(lo as int), '=');
                assert forall|k: int| 0 <= k < p.len() implies p[k] != '=' by {
                    assert(p[k] == value@.skip(lo as int)[k]);
                }
                lemma_find_first_none(p, '=');
            }
            acc
        },
    }
}

/// Parses a `WWW-Authenticate` challenge of semicolon-separated `key=value`
/// tokens into its `error` and `error_description` values; absent either, the
/// challenge is unusable and the result is `None`.
pub fn parse_www_authenticate(value: &str) -> (r: Option<(String, String)>)
    ensures
        match r {
            Some(pair) => spec_www_authenticate(value@) == Some((pair.0@, pair.1@)),
            None => spec_www_authenticate(value@) is None,
        },
{
    let len = value.unicode_len();
    let mut acc: (Option<String>, Option<String>) = (None, None);
    let mut p: usize = 0;
    let mut done = false;
    proof {
        assert(value@.skip(0) =~= value@);
    }
    while !done
        invariant
            p <= len,
            len == value@.len(),
            !done ==> combine(
                (opt_string_view(acc.0), opt_string_view(acc.1)),
                scan_params(value@.skip(p as int)),
            ) == scan_params(value@),
            done ==> (opt_string_view(acc.0), opt_string_view(acc.1)) == scan_params(value@),
        decreases len - p + (if done {
            0int
        } else {
            1int
        }),
    {
        let ghost acc0 = (opt_string_view(acc.0), opt_string_view(acc.1));
        let ghost rest = value@.skip(p as int);
        match find_char_from(value, p, ';') {
            Some(j) => {
                proof {
                    let fi = find_first(rest, ';').unwrap();
                    assert(rest.take(j - p) =~= value@.subrange(p as int, j as int));
                    assert(rest.skip(j - p + 1) =~= value@.skip(j + 1));
                    lemma_apply_part_combine(acc0, value@.subrange(p as int, j as int));
                    lemma_combine_assoc(
                        acc0,
                        apply_part((None, None), value@.subrange(p as int, j as int)),
                        scan_params(value@.skip(j + 1)),
                    );
                }
                acc = apply_segment(value, p, j, acc);
                p = j + 1;
            },
            None => {
                proof {
                    assert(rest =~= value@.subrange(p as int, len as int));
                    lemma_apply_part_combine(acc0, value@.subrange(p as int, len as int));
                }
                acc = apply_segment(value, p, len, acc);
                done = true;
            },
        }
    }
    match acc {
        (Some(e), Some(d)) => Some((e, d)),
        _ => None,
    }
}

/// One classified HTTP outcome: the parsed success payload, a typed failure,
/// or a status outside the modeled space, which the caller must treat as
/// fatal.
#[derive(Debug)]
pub enum Classified {
    Success(Json),
    Failure(ApiError),
    Unhandled(u16),
}

/// What the classification of a response must be, case by case: a 401 turns
/// its challenge (or, unusable, the raw body) into a bad request; any other
/// 4xx or 5xx carries the structured error payload of its body; a 2xx carries
/// the parsed body; anything else is unhandled.
pub open spec fn spec_classified(
    status: u16,
    header: Option<Seq<char>>,
    body: Seq<char>,
    r: Classified,
) -> bool {
    if status == 401 {
        match header {
            Some(h) => match spec_www_authenticate(h) {
                Some(pair) => r matches Classified::Failure(ApiError::BadRequest {
                    description,
                    code,
                }) && code@ == pair.0 && description@ == pair.1,
                None => r matches Classified::Failure(ApiError::BadRequest { description, code })
                    && description@ == body && code@ == Seq::<char>::empty(),
            },
            None => r matches Classified::Failure(ApiError::BadRequest { description, code })
                && description@ == body && code@ == Seq::<char>::empty(),
        }
    } else if 400 <= status <= 599 {
        match json_parse(body) {
            Some(j) => match spec_error_of(j) {
                Some(e) => r matches Classified::Failure(ApiError::BadRequest {
                    description,
                    code,
                }) && code@ == e.error && description@ == e.error_description,
                None => r == Classified::Failure(ApiError::SerdeJson),
            },
            None => r == Classified::Failure(ApiError::SerdeJson),
        }
    } else if 200 <= status <= 299 {
        match json_parse(body) {
            Some(j) => r == Classified::Success(j),
            None => r == Classified::Failure(ApiError::SerdeJson),
        }
    } else {
        r == Classified::Unhandled(status)
    }
}

/// Classifies one HTTP response by its status code, its `WWW-Authenticate`
/// header when one came, and its body text.
pub fn classify_response(status: u16, www_authenticate: Option<&str>, body: &str) -> (r: Classified)
    ensures
        spec_classified(
            status,
            match www_authenticate {
                Some(h) => Some(h@),
                None => None,
            },
            body@,
            r,
        ),
{
    if status == 401 {
        let challenge = match www_authenticate {
            Some(h) => parse_www_authenticate(h),
            None => None,
        };
        match challenge {
            Some((code, description)) => Classified::Failure(
                ApiError::BadRequest { description, code },
            ),
            None => Classified::Failure(
                ApiError::BadRequest { description: body.to_owned(), code: String::new() },
            ),
        }
    } else if 400 <= status && status <= 599 {
        match parse_json(body) {
            Some(j) => match Error::from_json(&j) {
                Some(e) => Classified::Failure(
                    ApiError::BadRequest { description: e.error_description, code: e.error },
                ),
                None => Classified::Failure(ApiError::SerdeJson),
            },
            None => Classified::Failure(ApiError::SerdeJson),
        }
    } else if 200 <= status && status <= 299 {
        match parse_json(body) {
            Some(j) => Classified::Success(j),
            None => Classified::Failure(ApiError::SerdeJson),
        }
    } else {
        Classified::Unhandled(status)
    }
}

/// The calendars held by a parsed success payload, or the decoding error when
/// the payload is not the calendars shape.
pub fn calendars_of_json(v: &Json) -> (r: Result<TempoCalendars, ApiError>)
    ensures
        match r {
            Ok(tc) => spec_tempo_of(*v) == Some(tc@),
            Err(e) => e == ApiError::SerdeJson && spec_tempo_of(*v) is None,
        },
{
    match TempoCalendars::from_json(v) {
        Some(tc) => Ok(tc),
        None => Err(ApiError::SerdeJson),
    }
}

/// Parses a whole response body into the normalized calendars: the body must
/// be valid JSON of the calendars shape, and every failure is the decoding
/// error.
pub fn calendars_from_body(body: &str) -> (r: Result<TempoCalendars, ApiError>)
    ensures
        match r {
            Ok(tc) => json_parse(body@) matches Some(j) && spec_tempo_of(j) == Some(tc@),
            Err(e) => e == ApiError::SerdeJson && match json_parse(body@) {
                Some(j) => spec_tempo_of(j) is None,
                None => true,
            },
        },
{
    match parse_json(body) {
        Some(j) => calendars_of_json(&j),
        None => Err(ApiError::SerdeJson),
    }
}

/// The query parameters of a calendars request: each supplied date formatted
/// in the wire format, and the fallback flag as a boolean word, in this fixed
/// order.
pub open spec fn spec_query_params(
    start_date: Option<Timestamp>,
    end_date: Option<Timestamp>,
    fallback: Option<bool>,
) -> Seq<(Seq<char>, Seq<char>)> {
    let q0 = Seq::<(Seq<char>, Seq<char>)>::empty();
    let q1 = match start_date {
        Some(t) => q0.push(("start_date"@, spec_format_timestamp(t))),
        None => q0,
    };
    let q2 = match end_date {
        Some(t) => q1.push(("end_date"@, spec_format_timestamp(t))),
        None => q1,
    };
    match fallback {
        Some(b) => q2.push(
            (
                "fallback_status"@,
                if b {
                    "true"@
                } else {
                    "false"@
                },
            ),
        ),
        None => q2,
    }
}

/// Builds the query parameters of a calendars request. Supplying no date asks
/// the server for next-day data; the fallback flag is passed through opaque.
pub fn build_calendars_query(
    start_date: Option<Timestamp>,
    end_date: Option<Timestamp>,
    fallback: Option<bool>,
) -> (q: Vec<(String, String)>)
    requires
        start_date matches Some(t) ==> t.wf(),
        end_date matches Some(t) ==> t.wf(),
    ensures
        q@.map_values(|p: (String, String)| (p.0@, p.1@)) == spec_query_params(
            start_date,
            end_date,
            fallback,
        ),
{
    let mut q: Vec<(String, String)> = Vec::new();
    proof {
        assert(q@.map_values(|p: (String, String)| (p.0@, p.1@)) =~= Seq::<
            (Seq<char>, Seq<char>),
        >::empty());
    }
    if let Some(t) = start_date {
        let ghost before = q@.map_values(|p: (String, String)| (p.0@, p.1@));
        q.push((String::from_str("start_date"), format_timestamp(&t)));
        proof {
            assert(q@.map_values(|p: (String, String)| (p.0@, p.1@)) =~= before.push(
                ("start_date"@, spec_format_timestamp(t)),
            ));
        }
    }
    if let Some(t) = end_date {
        let ghost before = q@.map_values(|p: (String, String)| (p.0@, p.1@));
        q.push((String::from_str("end_date"), format_timestamp(&t)));
        proof {
            assert(q@.map_values(|p: (String, String)| (p.0@, p.1@)) =~= before.push(
                ("end_date"@, spec_format_timestamp(t)),
            ));
        }
    }
    if let Some(b) = fallback {
        let ghost before = q@.map_values(|p: (String, String)| (p.0@, p.1@));
        let word = if b {
            String::from_str("true")
        } else {
            String::from_str("false")
        };
        let ghost wordview = word@;
        q.push((String::from_str("fallback_status"), word));
        proof {
            assert(q@.map_values(|p: (String, String)| (p.0@, p.1@)) =~= before.push(
                ("fallback_status"@, wordview),
            ));
        }
    }
    q
}

} // verus!
