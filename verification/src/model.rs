//! The calendar domain model: day colors, calendar values, calendars, and the
//! normalized top-level response, with the verified parsers that read them out
//! of a [`Json`] value and the two derived views.
//!
//! The server sends the `tempo_like_calendars` field as a bare object when it
//! returns one calendar and as an array when it returns several; parsing
//! normalizes both shapes into one ordered sequence.

use vstd::prelude::*;


use crate::json::{json_lookup, spec_lookup, Json};
use crate::strutil::str_eq;
use crate::time::{parse_timestamp, spec_parse_timestamp, Timestamp};

verus! {

/// A day's tariff color. On the wire it is an uppercase token; displayed, a
/// lowercase word.
#[derive(Debug, Clone, Copy, PartialEq, Eq, Structural)]
pub enum TempoColor {
    Blue,
    White,
    Red,
}

impl TempoColor {
    /// The lowercase display word of the color.
    pub open spec fn spec_display(self) -> Seq<char> {
        match self {
            TempoColor::Blue => "blue"@,
            TempoColor::White => "white"@,
            TempoColor::Red => "red"@,
        }
    }

    /// Lowercase display form: `"blue"`, `"white"` or `"red"`.
    pub fn display_str(&self) -> (r: &'static str)
        ensures
            r@ == self.spec_display(),
    {
        match self {
            TempoColor::Blue => "blue",
            TempoColor::White => "white",
            TempoColor::Red => "red",
        }
    }
}

/// The color named by a wire token; only the exact uppercase tokens are
/// accepted.
pub open spec fn spec_color_of_text(s: Seq<char>) -> Option<TempoColor> {
    if s == "BLUE"@ {
        Some(TempoColor::Blue)
    } else if s == "WHITE"@ {
        Some(TempoColor::White)
    } else if s == "RED"@ {
        Some(TempoColor::Red)
    } else {
        None
    }
}

/// Parses a wire color token.
pub fn color_of_text(s: &str) -> (r: Option<TempoColor>)
    ensures
        r == spec_color_of_text(s@),
{
    if str_eq(s, "BLUE") {
        Some(TempoColor::Blue)
    } else if str_eq(s, "WHITE") {
        Some(TempoColor::White)
    } else if str_eq(s, "RED") {
        Some(TempoColor::Red)
    } else {
        None
    }
}

/// One day-long period and its color. The optional `fallback` flag is kept
/// opaque: the server does not document its meaning.
#[derive(Debug, Clone, Copy, PartialEq, Eq)]
pub struct CalendarValue {
    pub start_date: Timestamp,
    pub end_date: Timestamp,
    pub updated_date: Timestamp,
    pub value: TempoColor,
    pub fallback: Option<bool>,
}

/// A set of consecutive days sharing a reporting period. The server sends the
/// values ordered most recent first; the order is kept, never re-sorted.
#[derive(Debug, Clone, PartialEq, Eq)]
pub struct Calendar {
    pub start_date: Timestamp,
    pub end_date: Timestamp,
    pub values: Vec<CalendarValue>,
}

/// The mathematical value of a [`Calendar`].
pub ghost struct CalendarModel {
    pub start_date: Timestamp,
    pub end_date: Timestamp,
    pub values: Seq<CalendarValue>,
}

impl View for Calendar {
    type V = CalendarModel;

    open spec fn view(&self) -> CalendarModel {
        CalendarModel { start_date: self.start_date, end_date: self.end_date, values: self.values@ }
    }
}

/// The normalized top-level response: an ordered sequence of calendars,
/// whether the server sent one object or an array.
#[derive(Debug, Clone, PartialEq, Eq)]
pub struct TempoCalendars {
    pub tempo_like_calendars: Vec<Calendar>,
}

impl View for TempoCalendars {
    type V = Seq<CalendarModel>;

    open spec fn view(&self) -> Seq<CalendarModel> {
        self.tempo_like_calendars@.map_values(|c: Calendar| c@)
    }
}

/// The server's structured error payload.
#[derive(Debug, Clone, PartialEq, Eq)]
pub struct Error {
    pub error: String,
    pub error_description: String,
    pub error_uri: String,
    pub error_details: Vec<(String, String)>,
}

/// The mathematical value of an [`Error`].
pub ghost struct ErrorModel {
    pub error: Seq<char>,
    pub error_description: Seq<char>,
    pub error_uri: Seq<char>,
    pub error_details: Seq<(Seq<char>, Seq<char>)>,
}

impl View for Error {
    type V = ErrorModel;

    open spec fn view(&self) -> ErrorModel {
        ErrorModel {
            error: self.error@,
            error_description: self.error_description@,
            error_uri: self.error_uri@,
            error_details: self.error_details@.map_values(
                |p: (String, String)| (p.0@, p.1@),
            ),
        }
    }
}

/// The timestamp under field `key`, when the field is a well-formed timestamp
/// text.
pub open spec fn spec_field_timestamp(fields: Seq<(String, Json)>, key: Seq<char>) -> Option<
    Timestamp,
> {
    match spec_lookup(fields, key) {
        Some(Json::Text(s)) => spec_parse_timestamp(s@),
        _ => None,
    }
}

/// The color under field `key`, when the field is a wire color token.
pub open spec fn spec_field_color(fields: Seq<(String, Json)>, key: Seq<char>) -> Option<
    TempoColor,
> {
    match spec_lookup(fields, key) {
        Some(Json::Text(s)) => spec_color_of_text(s@),
        _ => None,
    }
}

/// The optional `fallback` flag: absent or null is no flag, a boolean is the
/// flag, anything else is a shape error.
pub open spec fn spec_field_fallback(fields: Seq<(String, Json)>) -> Option<Option<bool>> {
    match spec_lookup(fields, "fallback"@) {
        None => Some(None),
        Some(Json::Null) => Some(None),
        Some(Json::Bool(b)) => Some(Some(b)),
        Some(_) => None,
    }
}

/// The calendar value held by the fields of a JSON object.
pub open spec fn spec_value_of_fields(fields: Seq<(String, Json)>) -> Option<CalendarValue> {
    let sd = spec_field_timestamp(fields, "start_date"@);
    let ed = spec_field_timestamp(fields, "end_date"@);
    let ud = spec_field_timestamp(fields, "updated_date"@);
    let col = spec_field_color(fields, "value"@);
    let fb = spec_field_fallback(fields);
    if sd is Some && ed is Some && ud is Some && col is Some && fb is Some {
        Some(
            CalendarValue {
                start_date: sd.unwrap(),
                end_date: ed.unwrap(),
                updated_date: ud.unwrap(),
                value: col.unwrap(),
                fallback: fb.unwrap(),
            },
        )
    } else {
        None
    }
}

/// The calendar value held by a JSON value, which must be an object.
pub open spec fn spec_value_of(v: Json) -> Option<CalendarValue> {
    match v {
        Json::Object(fields) => spec_value_of_fields(fields@),
        _ => None,
    }
}

/// The calendar values held by a JSON array, all of them or none.
pub open spec fn spec_values_list(elems: Seq<Json>) -> Option<Seq<CalendarValue>>
    decreases elems.len(),
{
    if elems.len() == 0 {
        Some(Seq::empty())
    } else {
        match (spec_value_of(elems[0]), spec_values_list(elems.drop_first())) {
            (Some(v), Some(rest)) => Some(seq![v] + rest),
            _ => None,
        }
    }
}

/// The calendar held by a JSON value, which must be an object with two
/// timestamps and a `values` array.
pub open spec fn spec_calendar_of(v: Json) -> Option<CalendarModel> {
    match v {
        Json::Object(fields) => {
            let sd = spec_field_timestamp(fields@, "start_date"@);
            let ed = spec_field_timestamp(fields@, "end_date"@);
            let vals = match spec_lookup(fields@, "values"@) {
                Some(Json::Array(a)) => spec_values_list(a@),
                _ => None,
            };
            if sd is Some && ed is Some && vals is Some {
                Some(
                    CalendarModel {
                        start_date: sd.unwrap(),
                        end_date: ed.unwrap(),
                        values: vals.unwrap(),
                    },
                )
            } else {
                None
            }
        },
        _ => None,
    }
}

/// The calendars held by a JSON array, all of them or none.
pub open spec fn spec_calendars_list(elems: Seq<Json>) -> Option<Seq<CalendarModel>>
    decreases elems.len(),
{
    if elems.len() == 0 {
        Some(Seq::empty())
    } else {
        match (spec_calendar_of(elems[0]), spec_calendars_list(elems.drop_first())) {
            (Some(c), Some(rest)) => Some(seq![c] + rest),
            _ => None,
        }
    }
}

/// The normalized calendar sequence held by a JSON value: a bare object
/// becomes a one-element sequence, an array passes through in order, anything
/// else is a shape error.
pub open spec fn spec_calendar_list_of(v: Json) -> Option<Seq<CalendarModel>> {
    match v {
        Json::Object(_) => match spec_calendar_of(v) {
            Some(c) => Some(seq![c]),
            None => None,
        },
        Json::Array(a) => spec_calendars_list(a@),
        _ => None,
    }
}

/// The calendar sequence held by a whole response body: an object whose
/// `tempo_like_calendars` field holds the calendars in either shape.
pub open spec fn spec_tempo_of(v: Json) -> Option<Seq<CalendarModel>> {
    match v {
        Json::Object(fields) => match spec_lookup(fields@, "tempo_like_calendars"@) {
            Some(inner) => spec_calendar_list_of(inner),
            None => None,
        },
        _ => None,
    }
}

/// Normalizing a bare object and normalizing a one-element array around the
/// same object yield the same calendar sequence: the response shape is
/// invisible downstream.
pub proof fn lemma_shape_invariance(obj: Json, arr: Json)
    requires
        obj is Object,
        arr is Array,
        arr->Array_0@ == seq![obj],
    ensures
        spec_calendar_list_of(arr) == spec_calendar_list_of(obj),
{
    let elems = arr->Array_0@;
    assert(elems[0] == obj);
    assert(elems.drop_first() =~= Seq::<Json>::empty());
    assert(spec_calendars_list(Seq::<Json>::empty()) == Some(Seq::<CalendarModel>::empty()));
    match spec_calendar_of(obj) {
        Some(c) => {
            assert(spec_calendars_list(elems) == Some(seq![c] + Seq::<CalendarModel>::empty()));
            assert(seq![c] + Seq::<CalendarModel>::empty() =~= seq![c]);
        },
        None => {},
    }
}

/// The timestamp under field `key` of `fields`, if it is one.
fn field_timestamp(fields: &Vec<(String, Json)>, key: &str) -> (r: Option<Timestamp>)
    ensures
        r == spec_field_timestamp(fields@, key@),
{
    match json_lookup(fields, key) {
        Some(Json::Text(s)) => parse_timestamp(s.as_str()),
        _ => None,
    }
}

/// The color under field `key` of `fields`, if it is one.
fn field_color(fields: &Vec<(String, Json)>, key: &str) -> (r: Option<TempoColor>)
    ensures
        r == spec_field_color(fields@, key@),
{
    match json_lookup(fields, key) {
        Some(Json::Text(s)) => color_of_text(s.as_str()),
        _ => None,
    }
}

/// The optional `fallback` flag of `fields`.
fn field_fallback(fields: &Vec<(String, Json)>) -> (r: Option<Option<bool>>)
    ensures
        r == spec_field_fallback(fields@),
{
    match json_lookup(fields, "fallback") {
        None => Some(None),
        Some(Json::Null) => Some(None),
        Some(Json::Bool(b)) => Some(Some(*b)),
        Some(_) => None,
    }
}

/// Parses one calendar value out of a JSON value.
pub fn value_from_json(v: &Json) -> (r: Option<CalendarValue>)
    ensures
        r == spec_value_of(*v),
{
    let fields = match v {
        Json::Object(fields) => fields,
        _ => { return None },
    };
    let sd = field_timestamp(fields, "start_date");
    let ed = field_timestamp(fields, "end_date");
    let ud = field_timestamp(fields, "updated_date");
    let col = field_color(fields, "value");
    let fb = field_fallback(fields);
    match (sd, ed, ud, col, fb) {
        (Some(sd), Some(ed), Some(ud), Some(col), Some(fb)) => Some(
            CalendarValue {
                start_date: sd,
                end_date: ed,
                updated_date: ud,
                value: col,
                fallback: fb,
            },
        ),
        _ => None,
    }
}

/// Parses every calendar value of a JSON array, in order.
fn values_from_json(elems: &Vec<Json>) -> (r: Option<Vec<CalendarValue>>)
    ensures
        match r {
            Some(out) => spec_values_list(elems@) == Some(out@),
            None => spec_values_list(elems@) is None,
        },
{
    let mut out: Vec<CalendarValue> = Vec::new();
    let mut i: usize = 0;
    proof {
        assert(elems@.skip(0) =~= elems@);
    }
    while i < elems.len()
        invariant
            0 <= i <= elems@.len(),
            out@.len() == i,
            spec_values_list(elems@) == match spec_values_list(elems@.skip(i as int)) {
                Some(rest) => Some(out@ + rest),
                None => None::<Seq<CalendarValue>>,
            },
        decreases elems@.len() - i,
    {
        proof {
            assert(elems@.skip(i as int)[0] == elems@[i as int]);
            assert(elems@.skip(i as int).drop_first() =~= elems@.skip(i + 1));
        }
        match value_from_json(&elems[i]) {
            Some(v) => {
                out.push(v);
                proof {
                    match spec_values_list(elems@.skip(i + 1)) {
                        Some(rest) => {
                            assert(out@ + rest =~= out@.drop_last() + (seq![v] + rest));
                        },
                        None => {},
                    }
                }
                i += 1;
            },
            None => { return None },
        }
    }
    proof {
        assert(elems@.skip(i as int) =~= Seq::<Json>::empty());
        assert(out@ + Seq::<CalendarValue>::empty() =~= out@);
    }
    Some(out)
}

/// Parses one calendar out of a JSON value.
pub fn calendar_from_json(v: &Json) -> (r: Option<Calendar>)
    ensures
        match r {
            Some(c) => spec_calendar_of(*v) == Some(c@),
            None => spec_calendar_of(*v) is None,
        },
{
    let fields = match v {
        Json::Object(fields) => fields,
        _ => { return None },
    };
    let sd = field_timestamp(fields, "start_date");
    let ed = field_timestamp(fields, "end_date");
    let vals = match json_lookup(fields, "values") {
        Some(Json::Array(a)) => values_from_json(a),
        _ => None,
    };
    match (sd, ed, vals) {
        (Some(sd), Some(ed), Some(vals)) => Some(
            Calendar { start_date: sd, end_date: ed, values: vals },
        ),
        _ => None,
    }
}

/// Parses the calendar list out of a JSON value of either shape: a bare
/// object yields one calendar, an array yields them all in order.
pub fn calendar_list_from_json(v: &Json) -> (r: Option<Vec<Calendar>>)
    ensures
        match r {
            Some(out) => spec_calendar_list_of(*v) == Some(
                out@.map_values(|c: Calendar| c@),
            ),
            None => spec_calendar_list_of(*v) is None,
        },
{
    match v {
        Json::Object(_) => {
            match calendar_from_json(v) {
                Some(c) => {
                    let mut out: Vec<Calendar> = Vec::new();
                    let ghost cm = c@;
                    out.push(c);
                    proof {
                        assert(out@.map_values(|c: Calendar| c@) =~= seq![cm]);
                    }
                    Some(out)
                },
                None => None,
            }
        },
        Json::Array(a) => {
            let mut out: Vec<Calendar> = Vec::new();
            let mut i: usize = 0;
            proof {
                assert(a@.skip(0) =~= a@);
                assert(out@.map_values(|c: Calendar| c@) =~= Seq::<CalendarModel>::empty());
            }
            while i < a.len()
                invariant
                    0 <= i <= a@.len(),
                    out@.len() == i,
                    spec_calendar_list_of(*v) == spec_calendars_list(a@),
                    spec_calendars_list(a@) == match spec_calendars_list(a@.skip(i as int)) {
                        Some(rest) => Some(out@.map_values(|c: Calendar| c@) + rest),
                        None => None::<Seq<CalendarModel>>,
                    },
                decreases a@.len() - i,
            {
                proof {
                    assert(a@.skip(i as int)[0] == a@[i as int]);
                    assert(a@.skip(i as int).drop_first() =~= a@.skip(i + 1));
                }
                match calendar_from_json(&a[i]) {
                    Some(c) => {
                        let ghost cm = c@;
                        out.push(c);
                        proof {
                            assert(out@.drop_last().map_values(|c: Calendar| c@).push(cm)
                                =~= out@.map_values(|c: Calendar| c@));
                            match spec_calendars_list(a@.skip(i + 1)) {
                                Some(rest) => {
                                    assert(out@.map_values(|c: Calendar| c@) + rest
                                        =~= out@.drop_last().map_values(|c: Calendar| c@) + (
                                    seq![cm] + rest));
                                },
                                None => {},
                            }
                        }
                        i += 1;
                    },
                    None => {
                        proof {
                            assert(spec_calendars_list(a@.skip(i as int)) is None);
                        }
                        return None
                    },
                }
            }
            proof {
                assert(a@.skip(i as int) =~= Seq::<Json>::empty());
                assert(out@.map_values(|c: Calendar| c@) + Seq::<CalendarModel>::empty()
                    =~= out@.map_values(|c: Calendar| c@));
            }
            Some(out)
        },
        _ => None,
    }
}

impl TempoCalendars {
    /// Parses the whole normalized response out of a JSON value.
    pub fn from_json(v: &Json) -> (r: Option<TempoCalendars>)
        ensures
            match r {
                Some(tc) => spec_tempo_of(*v) == Some(tc@),
                None => spec_tempo_of(*v) is None,
            },
    {
        let fields = match v {
            Json::Object(fields) => fields,
            _ => { return None },
        };
        match json_lookup(fields, "tempo_like_calendars") {
            Some(inner) => match calendar_list_from_json(inner) {
                Some(cals) => Some(TempoCalendars { tempo_like_calendars: cals }),
                None => None,
            },
            None => None,
        }
    }

    /// First value of the first calendar: the next-day datum, or absent when
    /// either sequence is empty.
    pub fn unwrap_first_day_value(&self) -> (r: Option<&CalendarValue>)
        ensures
            match r {
                Some(v) => self@.len() > 0 && self@[0].values.len() > 0 && *v
                    == self@[0].values[0],
                None => self@.len() == 0 || self@[0].values.len() == 0,
            },
    {
        if self.tempo_like_calendars.len() == 0 {
            return None;
        }
        let cal = &self.tempo_like_calendars[0];
        if cal.values.len() == 0 {
            return None;
        }
        Some(&cal.values[0])
    }

    /// Every calendar value across every calendar, outer order first, each
    /// calendar's own order inside.
    pub fn unwrap_days_values(&self) -> (r: Vec<CalendarValue>)
        ensures
            r@ == self@.map_values(|c: CalendarModel| c.values).flatten(),
    {
        broadcast use vstd::seq::Seq::group_seq_flatten;

        let cals = &self.tempo_like_calendars;
        let mut out: Vec<CalendarValue> = Vec::new();
        let mut i: usize = 0;
        proof {
            assert(cals@.take(0).map_values(|c: Calendar| c@).map_values(
                |c: CalendarModel| c.values,
            ) =~= Seq::<Seq<CalendarValue>>::empty());
            assert(out@ =~= Seq::<Seq<CalendarValue>>::empty().flatten());
        }
        while i < cals.len()
            invariant
                0 <= i <= cals@.len(),
                out@ == cals@.take(i as int).map_values(|c: Calendar| c@).map_values(
                    |c: CalendarModel| c.values,
                ).flatten(),
            decreases cals@.len() - i,
        {
            let ghost prev = out@;
            let vals = &cals[i].values;
            let mut j: usize = 0;
            while j < vals.len()
                invariant
                    0 <= j <= vals@.len(),
                    out@ == prev + vals@.take(j as int),
                decreases vals@.len() - j,
            {
                out.push(vals[j]);
                proof {
                    assert(prev + vals@.take(j + 1) =~= (prev + vals@.take(j as int)).push(
                        vals@[j as int],
                    ));
                }
                j += 1;
            }
            proof {
                let before = cals@.take(i as int).map_values(|c: Calendar| c@).map_values(
                    |c: CalendarModel| c.values,
                );
                let next = cals@.take(i + 1).map_values(|c: Calendar| c@).map_values(
                    |c: CalendarModel| c.values,
                );
                assert(next =~= before.push(cals@[i as int].values@));
                assert(vals@.take(j as int) =~= cals@[i as int].values@);
                before.lemma_flatten_push(cals@[i as int].values@);
                assert(next.flatten() == before.flatten() + cals@[i as int].values@);
            }
            i += 1;
        }
        proof {
            assert(cals@.take(i as int) =~= cals@);
            assert(self@.map_values(|c: CalendarModel| c.values) == cals@.map_values(
                |c: Calendar| c@,
            ).map_values(|c: CalendarModel| c.values));
        }
        out
    }
}

/// The length of the flattened day sequence is the sum of the calendars'
/// value counts.
pub open spec fn sum_of_value_counts(s: Seq<CalendarModel>) -> int
    decreases s.len(),
{
    if s.len() == 0 {
        0
    } else {
        s[0].values.len() + sum_of_value_counts(s.drop_first())
    }
}

/// The flattened day sequence of `n` calendars holding `k1 ... kn` values has
/// exactly `k1 + ... + kn` elements.
pub proof fn lemma_days_values_count(s: Seq<CalendarModel>)
    ensures
        s.map_values(|c: CalendarModel| c.values).flatten().len() == sum_of_value_counts(s),
    decreases s.len(),
{
    let mapped = s.map_values(|c: CalendarModel| c.values);
    if s.len() == 0 {
        assert(mapped =~= Seq::<Seq<CalendarValue>>::empty());
    } else {
        lemma_days_values_count(s.drop_first());
        assert(mapped.drop_first() =~= s.drop_first().map_values(|c: CalendarModel| c.values));
        assert(mapped.flatten() == mapped.first() + mapped.drop_first().flatten());
    }
}

/// Parses the error payload out of the fields of a JSON object: the mapping
/// under `error_details`, all values strings.
fn details_from_json(elems: &Vec<(String, Json)>) -> (r: Option<Vec<(String, String)>>)
    ensures
        match r {
            Some(out) => spec_details_list(elems@) == Some(
                out@.map_values(|p: (String, String)| (p.0@, p.1@)),
            ),
            None => spec_details_list(elems@) is None,
        },
{
    let mut out: Vec<(String, String)> = Vec::new();
    let mut i: usize = 0;
    proof {
        assert(elems@.skip(0) =~= elems@);
        assert(out@.map_values(|p: (String, String)| (p.0@, p.1@)) =~= Seq::<
            (Seq<char>, Seq<char>),
        >::empty());
    }
    while i < elems.len()
        invariant
            0 <= i <= elems@.len(),
            out@.len() == i,
            spec_details_list(elems@) == match spec_details_list(elems@.skip(i as int)) {
                Some(rest) => Some(out@.map_values(|p: (String, String)| (p.0@, p.1@)) + rest),
                None => None::<Seq<(Seq<char>, Seq<char>)>>,
            },
        decreases elems@.len() - i,
    {
        proof {
            assert(elems@.skip(i as int)[0] == elems@[i as int]);
            assert(elems@.skip(i as int).drop_first() =~= elems@.skip(i + 1));
        }
        let key = elems[i].0.clone();
        match &elems[i].1 {
            Json::Text(s) => {
                let ghost pm = (key@, s@);
                out.push((key, s.clone()));
                proof {
                    assert(out@.drop_last().map_values(|p: (String, String)| (p.0@, p.1@)).push(pm)
                        =~= out@.map_values(|p: (String, String)| (p.0@, p.1@)));
                    match spec_details_list(elems@.skip(i + 1)) {
                        Some(rest) => {
                            assert(out@.map_values(|p: (String, String)| (p.0@, p.1@)) + rest
                                =~= out@.drop_last().map_values(
                                |p: (String, String)| (p.0@, p.1@)) + (seq![pm] + rest));
                        },
                        None => {},
                    }
                }
                i += 1;
            },
            _ => { return None },
        }
    }
    proof {
        assert(elems@.skip(i as int) =~= Seq::<(String, Json)>::empty());
        assert(out@.map_values(|p: (String, String)| (p.0@, p.1@)) + Seq::<
            (Seq<char>, Seq<char>),
        >::empty() =~= out@.map_values(|p: (String, String)| (p.0@, p.1@)));
    }
    Some(out)
}

/// The detail pairs held by the fields of a JSON object, all values strings.
pub open spec fn spec_details_list(elems: Seq<(String, Json)>) -> Option<
    Seq<(Seq<char>, Seq<char>)>,
>
    decreases elems.len(),
{
    if elems.len() == 0 {
        Some(Seq::empty())
    } else {
        match (elems[0].1, spec_details_list(elems.drop_first())) {
            (Json::Text(s), Some(rest)) => Some(seq![(elems[0].0@, s@)] + rest),
            _ => None,
        }
    }
}

/// The string under field `key`, when the field is a string.
pub open spec fn spec_field_text(fields: Seq<(String, Json)>, key: Seq<char>) -> Option<Seq<char>> {
    match spec_lookup(fields, key) {
        Some(Json::Text(s)) => Some(s@),
        _ => None,
    }
}

/// The error payload held by a JSON value: an object with the four fields
/// `error`, `error_description`, `error_uri` and `error_details`, the last an
/// object of strings.
pub open spec fn spec_error_of(v: Json) -> Option<ErrorModel> {
    match v {
        Json::Object(fields) => {
            let e = spec_field_text(fields@, "error"@);
            let d = spec_field_text(fields@, "error_description"@);
            let u = spec_field_text(fields@, "error_uri"@);
            let det = match spec_lookup(fields@, "error_details"@) {
                Some(Json::Object(inner)) => spec_details_list(inner@),
                _ => None,
            };
            if e is Some && d is Some && u is Some && det is Some {
                Some(
                    ErrorModel {
                        error: e.unwrap(),
                        error_description: d.unwrap(),
                        error_uri: u.unwrap(),
                        error_details: det.unwrap(),
                    },
                )
            } else {
                None
            }
        },
        _ => None,
    }
}

/// The string under field `key` of `fields`, if it is one.
fn field_text(fields: &Vec<(String, Json)>, key: &str) -> (r: Option<String>)
    ensures
        match r {
            Some(s) => spec_field_text(fields@, key@) == Some(s@),
            None => spec_field_text(fields@, key@) is None,
        },
{
    match json_lookup(fields, key) {
        Some(Json::Text(s)) => Some(s.clone()),
        _ => None,
    }
}

impl Error {
    /// Parses the structured error payload out of a JSON value.
    pub fn from_json(v: &Json) -> (r: Option<Error>)
        ensures
            match r {
                Some(e) => spec_error_of(*v) == Some(e@),
                None => spec_error_of(*v) is None,
            },
    {
        let fields = match v {
            Json::Object(fields) => fields,
            _ => { return None },
        };
        let e = field_text(fields, "error");
        let d = field_text(fields, "error_description");
        let u = field_text(fields, "error_uri");
        let det = match json_lookup(fields, "error_details") {
            Some(Json::Object(inner)) => details_from_json(inner),
            _ => None,
        };
        match (e, d, u, det) {
            (Some(e), Some(d), Some(u), Some(det)) => Some(
                Error { error: e, error_description: d, error_uri: u, error_details: det },
            ),
            _ => None,
        }
    }
}

} // verus!
