use vstd::prelude::*;
use vstd::string::*;

use crate::fields::{text_eq, FieldMap, Fields};

verus! {

// ---------------------------------------------------------------------------
// Numbers as JSON writes them: -?(0|[1-9][0-9]*)(\.[0-9]+)?([eE][+-]?[0-9]+)?
// recognised by a small automaton whose states are
//   0 start, 1 after the sign, 2 a lone zero, 3 integer digits, 4 after the
//   point, 5 fraction digits, 6 after the exponent mark, 7 after the exponent
//   sign, 8 exponent digits, 9 rejected.
// ---------------------------------------------------------------------------

pub open spec fn is_digit(c: char) -> bool {
    '0' <= c <= '9'
}

pub open spec fn number_step(st: u8, c: char) -> u8 {
    if st == 0 {
        if c == '-' { 1 } else if c == '0' { 2 } else if is_digit(c) { 3 } else { 9 }
    } else if st == 1 {
        if c == '0' { 2 } else if is_digit(c) { 3 } else { 9 }
    } else if st == 2 {
        if c == '.' { 4 } else if c == 'e' || c == 'E' { 6 } else { 9 }
    } else if st == 3 {
        if is_digit(c) { 3 } else if c == '.' { 4 } else if c == 'e' || c == 'E' { 6 } else { 9 }
    } else if st == 4 || st == 5 {
        if is_digit(c) { 5 } else if st == 5 && (c == 'e' || c == 'E') { 6 } else { 9 }
    } else if st == 6 {
        if c == '+' || c == '-' { 7 } else if is_digit(c) { 8 } else { 9 }
    } else if st == 7 || st == 8 {
        if is_digit(c) { 8 } else { 9 }
    } else {
        9
    }
}

/// The state of the number automaton after reading `s`.
pub open spec fn number_state(s: Seq<char>) -> u8
    decreases s.len(),
{
    if s.len() == 0 {
        0
    } else {
        number_step(number_state(s.drop_last()), s.last())
    }
}

/// `s` is a number in the form JSON writes it.
pub open spec fn is_json_number(s: Seq<char>) -> bool {
    let st = number_state(s);
    st == 2 || st == 3 || st == 5 || st == 8
}

fn next_number_state(st: u8, c: char) -> (r: u8)
    ensures
        r == number_step(st, c),
{
    let digit = '0' <= c && c <= '9';
    let exp = c == 'e' || c == 'E';
    if st == 0 {
        if c == '-' { 1 } else if c == '0' { 2 } else if digit { 3 } else { 9 }
    } else if st == 1 {
        if c == '0' { 2 } else if digit { 3 } else { 9 }
    } else if st == 2 {
        if c == '.' { 4 } else if exp { 6 } else { 9 }
    } else if st == 3 {
        if digit { 3 } else if c == '.' { 4 } else if exp { 6 } else { 9 }
    } else if st == 4 || st == 5 {
        if digit { 5 } else if st == 5 && exp { 6 } else { 9 }
    } else if st == 6 {
        if c == '+' || c == '-' { 7 } else if digit { 8 } else { 9 }
    } else if st == 7 || st == 8 {
        if digit { 8 } else { 9 }
    } else {
        9
    }
}

/// Whether `s` is a JSON number.
pub fn is_number_text(s: &str) -> (r: bool)
    ensures
        r == is_json_number(s@),
{
    let n = s.unicode_len();
    let mut st: u8 = 0;
    let mut i: usize = 0;
    while i < n
        invariant
            i <= n,
            n == s@.len(),
            st == number_state(s@.subrange(0, i as int)),
        decreases n - i,
    {
        let c = s.get_char(i);
        st = next_number_state(st, c);
        proof {
            let next = s@.subrange(0, i + 1);
            assert(next.drop_last() =~= s@.subrange(0, i as int));
        }
        i = i + 1;
    }
    assert(s@.subrange(0, n as int) =~= s@);
    st == 2 || st == 3 || st == 5 || st == 8
}

// ---------------------------------------------------------------------------
// Override values
// ---------------------------------------------------------------------------

/// A value given on the command line, read as the JSON scalar it spells.
#[derive(Debug, Clone)]
pub enum Scalar {
    Bool(bool),
    /// A number, kept as its JSON text.
    Number(String),
    Text(String),
}

pub ghost enum ScalarView {
    Bool(bool),
    Number(Seq<char>),
    Text(Seq<char>),
}

impl View for Scalar {
    type V = ScalarView;

    open spec fn view(&self) -> ScalarView {
        match self {
            Scalar::Bool(b) => ScalarView::Bool(*b),
            Scalar::Number(t) => ScalarView::Number(t@),
            Scalar::Text(t) => ScalarView::Text(t@),
        }
    }
}

/// The reading of an override value: a boolean literal, else a number, else
/// the text itself. A quoted `"true"` is text with its quotes.
pub open spec fn parsed_scalar(s: Seq<char>) -> ScalarView {
    if s == "true"@ {
        ScalarView::Bool(true)
    } else if s == "false"@ {
        ScalarView::Bool(false)
    } else if is_json_number(s) {
        ScalarView::Number(s)
    } else {
        ScalarView::Text(s)
    }
}

/// What `serde_json::to_string` makes of a string: the quoted, escaped
/// JSON string literal.
pub uninterp spec fn json_string_literal(s: Seq<char>) -> Seq<char>;

/// The compact JSON text of a scalar.
pub open spec fn scalar_json(v: ScalarView) -> Seq<char> {
    match v {
        ScalarView::Bool(b) => if b { "true"@ } else { "false"@ },
        ScalarView::Number(t) => t,
        ScalarView::Text(t) => json_string_literal(t),
    }
}

/// Relies on `serde_json::to_string` on a `str`, which cannot fail.
#[verifier::external_body]
fn quote_json_string(s: &str) -> (r: String)
    ensures
        r@ == json_string_literal(s@),
{
    serde_json::to_string(s).unwrap()
}

/// Reads an override value as a boolean, a number or text, in that order.
pub fn parse_scalar(s: &str) -> (r: Scalar)
    ensures
        r@ == parsed_scalar(s@),
{
    if text_eq(s, "true") {
        Scalar::Bool(true)
    } else if text_eq(s, "false") {
        Scalar::Bool(false)
    } else if is_number_text(s) {
        Scalar::Number(s.to_owned())
    } else {
        Scalar::Text(s.to_owned())
    }
}

impl Scalar {
    /// The compact JSON text of this value.
    pub fn to_json(&self) -> (r: String)
        ensures
            r@ == scalar_json(self@),
    {
        match self {
            Scalar::Bool(b) => {
                if *b {
                    String::from_str("true")
                } else {
                    String::from_str("false")
                }
            },
            Scalar::Number(t) => t.clone(),
            Scalar::Text(t) => quote_json_string(t.as_str()),
        }
    }
}

// ---------------------------------------------------------------------------
// Objects as text
// ---------------------------------------------------------------------------

/// What `serde_json::to_string` writes for the object with these fields,
/// each value read by `serde_json::from_str`; `None` where one of them fails.
pub uninterp spec fn compact_object_json(fields: Fields) -> Option<Seq<char>>;

/// As `compact_object_json`, with `serde_json::to_string_pretty`.
pub uninterp spec fn pretty_object_json(fields: Fields) -> Option<Seq<char>>;

/// What `serde_urlencoded::to_string` writes for the object with these
/// fields, each value read by `serde_json::from_str`; `None` where one of
/// them fails.
pub uninterp spec fn form_object_text(fields: Fields) -> Option<Seq<char>>;

/// What `serde_json::from_str` reads from a text: `None` where it is no
/// JSON; else the fields (each value as compact JSON text) where it is an
/// object, or `None` within where it is another value.
pub uninterp spec fn parsed_json_fields(s: Seq<char>) -> Option<Option<Fields>>;

/// What `serde_json::from_str` then `serde_json::to_string_pretty` make of a
/// text; `None` where either fails.
pub uninterp spec fn pretty_json_text(s: Seq<char>) -> Option<Seq<char>>;

/// Relies on `serde_json::from_str` for each value and on
/// `serde_json::to_string` for the object they make.
#[verifier::external_body]
fn encode_compact(fields: &Vec<(String, String)>) -> (r: Option<String>)
    ensures
        r is Some <==> compact_object_json(fields.deep_view()) is Some,
        r is Some ==> compact_object_json(fields.deep_view()) == Some(r->0@),
{
    let object = fields
        .iter()
        .map(|(k, v)| serde_json::from_str(v).map(|v| (k.clone(), v)))
        .collect::<Result<serde_json::Map<String, serde_json::Value>, _>>()
        .ok()?;
    serde_json::to_string(&object).ok()
}

/// Relies on `serde_json::from_str` for each value and on
/// `serde_json::to_string_pretty` for the object they make.
#[verifier::external_body]
fn encode_pretty(fields: &Vec<(String, String)>) -> (r: Option<String>)
    ensures
        r is Some <==> pretty_object_json(fields.deep_view()) is Some,
        r is Some ==> pretty_object_json(fields.deep_view()) == Some(r->0@),
{
    let object = fields
        .iter()
        .map(|(k, v)| serde_json::from_str(v).map(|v| (k.clone(), v)))
        .collect::<Result<serde_json::Map<String, serde_json::Value>, _>>()
        .ok()?;
    serde_json::to_string_pretty(&object).ok()
}

/// Relies on `serde_json::from_str` for each value and on
/// `serde_urlencoded::to_string` for the object they make.
#[verifier::external_body]
fn encode_form(fields: &Vec<(String, String)>) -> (r: Option<String>)
    ensures
        r is Some <==> form_object_text(fields.deep_view()) is Some,
        r is Some ==> form_object_text(fields.deep_view()) == Some(r->0@),
{
    let object = fields
        .iter()
        .map(|(k, v)| serde_json::from_str(v).map(|v| (k.clone(), v)))
        .collect::<Result<serde_json::Map<String, serde_json::Value>, _>>()
        .ok()?;
    serde_urlencoded::to_string(&object).ok()
}

/// Relies on `serde_json::from_str`, and on `Value::to_string` for the
/// compact text of each value of an object.
#[verifier::external_body]
pub(crate) fn decode_fields(s: &str) -> (r: Option<Option<Vec<(String, String)>>>)
    ensures
        r is Some <==> parsed_json_fields(s@) is Some,
        r is Some ==> (r->0 is Some <==> parsed_json_fields(s@)->0 is Some),
        r is Some && r->0 is Some ==> parsed_json_fields(s@) == Some(Some(r->0->0.deep_view())),
{
    let value: serde_json::Value = serde_json::from_str(s).ok()?;
    Some(value.as_object().map(|m| m.iter().map(|(k, v)| (k.clone(), v.to_string())).collect()))
}

/// Relies on `serde_json::from_str` and `serde_json::to_string_pretty`.
#[verifier::external_body]
pub(crate) fn reformat_pretty(s: &str) -> (r: Option<String>)
    ensures
        r is Some <==> pretty_json_text(s@) is Some,
        r is Some ==> pretty_json_text(s@) == Some(r->0@),
{
    let value: serde_json::Value = serde_json::from_str(s).ok()?;
    serde_json::to_string_pretty(&value).ok()
}

impl FieldMap {
    /// The object as compact JSON.
    pub fn to_compact_json(&self) -> (r: Option<String>)
        ensures
            r is Some <==> compact_object_json(self@) is Some,
            r is Some ==> compact_object_json(self@) == Some(r->0@),
    {
        encode_compact(self.fields())
    }

    /// The object as indented JSON.
    pub fn to_pretty_json(&self) -> (r: Option<String>)
        ensures
            r is Some <==> pretty_object_json(self@) is Some,
            r is Some ==> pretty_object_json(self@) == Some(r->0@),
    {
        encode_pretty(self.fields())
    }

    /// The object as an `application/x-www-form-urlencoded` text.
    pub fn to_form(&self) -> (r: Option<String>)
        ensures
            r is Some <==> form_object_text(self@) is Some,
            r is Some ==> form_object_text(self@) == Some(r->0@),
    {
        encode_form(self.fields())
    }
}

} // verus!
