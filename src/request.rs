use vstd::prelude::*;
use vstd::string::*;

use crate::fields::{
    field_value, keys_unique, lemma_with_field, text_eq, with_field, FieldMap, Fields,
};
use crate::params::ExtraArgs;
use crate::json::{parse_scalar, parsed_scalar, scalar_json, compact_object_json, form_object_text};

use reqwest::header::{HeaderMap, HeaderName, HeaderValue, CONTENT_TYPE};

verus! {

// ---------------------------------------------------------------------------
// Headers
// ---------------------------------------------------------------------------

/// What `HeaderName::from_bytes` makes of a name: its normal, lower case
/// form, or `None` where the name is not a valid header name.
pub uninterp spec fn header_name_of(s: Seq<char>) -> Option<Seq<char>>;

/// A character that a header value may hold: a tab, or any character from
/// the space on but DEL.
pub open spec fn header_value_char(c: char) -> bool {
    c == '\t' || (c as u32 >= 32 && c as u32 != 127)
}

pub open spec fn valid_header_value(s: Seq<char>) -> bool {
    forall|i: int| 0 <= i < s.len() ==> header_value_char(#[trigger] s[i])
}

/// A character that `HeaderValue::to_str` reads: a tab, or visible ASCII.
pub open spec fn visible_ascii_char(c: char) -> bool {
    c == '\t' || (32 <= (c as u32) && (c as u32) < 127)
}

pub open spec fn visible_ascii(s: Seq<char>) -> bool {
    forall|i: int| 0 <= i < s.len() ==> visible_ascii_char(#[trigger] s[i])
}

#[verifier::external_type_specification]
#[verifier::external_body]
pub struct ExHeaderValue(HeaderValue);

#[verifier::external_type_specification]
#[verifier::external_body]
#[verifier::reject_recursive_types(T)]
pub struct ExHeaderMap<T>(HeaderMap<T>);

/// What a header map holds: each name, in normal form, with its first value.
pub uninterp spec fn header_map_entries(m: HeaderMap) -> Map<Seq<char>, Seq<char>>;

/// The number of names a map may hold before an insertion could exceed the
/// capacity of a `HeaderMap`.
pub const MAX_HEADER_NAMES: usize = 16384;

/// The map without any header.
pub open spec fn no_headers() -> Map<Seq<char>, Seq<char>> {
    Map::empty()
}

/// Relies on `HeaderMap::new`.
#[verifier::external_body]
fn new_header_map() -> (r: HeaderMap)
    ensures
        header_map_entries(r) == no_headers(),
{
    HeaderMap::new()
}

/// Relies on the `Clone` of `HeaderMap`.
#[verifier::external_body]
fn clone_header_map(m: &HeaderMap) -> (r: HeaderMap)
    ensures
        header_map_entries(r) == header_map_entries(*m),
{
    m.clone()
}

/// Relies on `HeaderMap::keys_len`: the number of names.
#[verifier::external_body]
fn header_count(m: &HeaderMap) -> (r: usize)
    ensures
        r == header_map_entries(*m).dom().len(),
{
    m.keys_len()
}

/// Relies on `HeaderName::from_bytes`, `HeaderValue::from_str` and
/// `HeaderMap::insert`, which replaces every value the name had.
#[verifier::external_body]
fn insert_header(m: &mut HeaderMap, name: &str, value: &str) -> (r: Result<(), MergeError>)
    requires
        header_map_entries(*old(m)).dom().len() < MAX_HEADER_NAMES,
    ensures
        match header_name_of(name@) {
            None => r == Err::<(), MergeError>(MergeError::InvalidHeaderName)
                && header_map_entries(*final(m)) == header_map_entries(*old(m)),
            Some(n) => if valid_header_value(value@) {
                r is Ok && header_map_entries(*final(m)) == header_map_entries(*old(m)).insert(n, value@)
            } else {
                r == Err::<(), MergeError>(MergeError::InvalidHeaderValue)
                    && header_map_entries(*final(m)) == header_map_entries(*old(m))
            },
        },
{
    let n = HeaderName::from_bytes(name.as_bytes()).map_err(|_| MergeError::InvalidHeaderName)?;
    let v = HeaderValue::from_str(value).map_err(|_| MergeError::InvalidHeaderValue)?;
    m.insert(n, v);
    Ok(())
}

/// Relies on `HeaderMap::contains_key` with `header::CONTENT_TYPE`.
#[verifier::external_body]
fn has_content_type(m: &HeaderMap) -> (r: bool)
    ensures
        r == header_map_entries(*m).contains_key("content-type"@),
{
    m.contains_key(CONTENT_TYPE)
}

/// Relies on `HeaderMap::get` with `header::CONTENT_TYPE`, which gives the
/// first value, and `HeaderValue::to_str`, which reads visible ASCII only.
#[verifier::external_body]
fn content_type_text(m: &HeaderMap) -> (r: Option<String>)
    ensures
        match header_map_entries(*m).get("content-type"@) {
            Some(v) => if visible_ascii(v) { r is Some && r->0@ == v } else { r is None },
            None => r is None,
        },
{
    m.get(CONTENT_TYPE).and_then(|v| v.to_str().ok()).map(|v| v.to_owned())
}

/// Relies on `HeaderValue::from_str` and `HeaderMap::insert` with
/// `header::CONTENT_TYPE`.
#[verifier::external_body]
fn set_content_type(m: &mut HeaderMap, value: &str)
    requires
        valid_header_value(value@),
        header_map_entries(*old(m)).dom().len() < MAX_HEADER_NAMES,
    ensures
        header_map_entries(*final(m)) == header_map_entries(*old(m)).insert("content-type"@, value@),
{
    if let Ok(v) = HeaderValue::from_str(value) {
        m.insert(CONTENT_TYPE, v);
    }
}

// ---------------------------------------------------------------------------
// Content types
// ---------------------------------------------------------------------------

/// What `Mime::from_str` then `Mime::essence_str` make of a content type:
/// the type and subtype without parameters, or `None` where it does not parse.
pub uninterp spec fn mime_essence(s: Seq<char>) -> Option<Seq<char>>;

/// Relies on `Mime::from_str` and `Mime::essence_str`.
#[verifier::external_body]
fn content_type_essence(s: &str) -> (r: Option<String>)
    ensures
        r is Some <==> mime_essence(s@) is Some,
        r is Some ==> mime_essence(s@) == Some(r->0@),
{
    s.parse::<mime::Mime>().ok().map(|m| m.essence_str().to_owned())
}

/// The encodings a request body can be written in.
#[derive(Debug, Clone, Copy, PartialEq, Eq, Structural)]
pub enum ContentKind {
    Json,
    FormUrlEncoded,
    MultipartFormData,
    Unsupported,
}

/// The encoding that a `Content-Type` value names, parameters aside.
pub open spec fn content_kind(s: Seq<char>) -> ContentKind {
    match mime_essence(s) {
        Some(e) => if e == "application/json"@ {
            ContentKind::Json
        } else if e == "application/x-www-form-urlencoded"@ {
            ContentKind::FormUrlEncoded
        } else if e == "multipart/form-data"@ {
            ContentKind::MultipartFormData
        } else {
            ContentKind::Unsupported
        },
        None => ContentKind::Unsupported,
    }
}

impl ContentKind {
    /// Classifies a `Content-Type` value.
    pub fn of(s: &str) -> (r: ContentKind)
        ensures
            r == content_kind(s@),
    {
        match content_type_essence(s) {
            Some(e) => {
                if text_eq(e.as_str(), "application/json") {
                    ContentKind::Json
                } else if text_eq(e.as_str(), "application/x-www-form-urlencoded") {
                    ContentKind::FormUrlEncoded
                } else if text_eq(e.as_str(), "multipart/form-data") {
                    ContentKind::MultipartFormData
                } else {
                    ContentKind::Unsupported
                }
            },
            None => ContentKind::Unsupported,
        }
    }
}

// ---------------------------------------------------------------------------
// Merging a template with overrides
// ---------------------------------------------------------------------------

/// Why a request could not be built.
#[derive(Debug, Clone, Copy, PartialEq, Eq, Structural)]
pub enum MergeError {
    InvalidHeaderName,
    InvalidHeaderValue,
    UnsupportedContentType,
    /// The body could not be written in the encoding of its content type.
    UnencodableBody,
    /// More header names than a header map takes.
    TooManyHeaders,
}

/// The headers of `acc` with each header of `hs` set in turn, its name in
/// normal form; the first invalid name or value ends it.
pub open spec fn header_entries(acc: Map<Seq<char>, Seq<char>>, hs: Fields) -> Result<Map<Seq<char>, Seq<char>>, MergeError>
    decreases hs.len(),
{
    if hs.len() == 0 {
        Ok(acc)
    } else {
        match header_entries(acc, hs.drop_last()) {
            Err(e) => Err(e),
            Ok(a) => if a.dom().len() >= MAX_HEADER_NAMES {
                Err(MergeError::TooManyHeaders)
            } else {
                match header_name_of(hs.last().0) {
                    None => Err(MergeError::InvalidHeaderName),
                    Some(n) => if valid_header_value(hs.last().1) {
                        Ok(a.insert(n, hs.last().1))
                    } else {
                        Err(MergeError::InvalidHeaderValue)
                    },
                }
            },
        }
    }
}

/// `acc` with each override of `ovs` set in turn, its value read as a scalar
/// and written as JSON.
pub open spec fn override_fields(acc: Fields, ovs: Fields) -> Fields
    decreases ovs.len(),
{
    if ovs.len() == 0 {
        acc
    } else {
        with_field(override_fields(acc, ovs.drop_last()), ovs.last().0, scalar_json(parsed_scalar(ovs.last().1)))
    }
}

/// The headers with `content-type: application/json` where no content type is set.
pub open spec fn with_default_content_type(h: Map<Seq<char>, Seq<char>>) -> Map<Seq<char>, Seq<char>> {
    if h.contains_key("content-type"@) {
        h
    } else {
        h.insert("content-type"@, "application/json"@)
    }
}

/// The encoding that the content type of `h` names; where none is set, JSON.
pub open spec fn request_content_kind(h: Map<Seq<char>, Seq<char>>) -> ContentKind {
    if h.contains_key("content-type"@) {
        if visible_ascii(h["content-type"@]) {
            content_kind(h["content-type"@])
        } else {
            ContentKind::Unsupported
        }
    } else {
        ContentKind::Json
    }
}

/// The body written in the encoding `kind`.
pub open spec fn encoded_body(kind: ContentKind, body: Fields) -> Result<Seq<char>, MergeError> {
    match kind {
        ContentKind::Json => match compact_object_json(body) {
            Some(t) => Ok(t),
            None => Err(MergeError::UnencodableBody),
        },
        ContentKind::FormUrlEncoded | ContentKind::MultipartFormData => match form_object_text(body) {
            Some(t) => Ok(t),
            None => Err(MergeError::UnencodableBody),
        },
        ContentKind::Unsupported => Err(MergeError::UnsupportedContentType),
    }
}

pub ghost struct MergedView {
    pub headers: Map<Seq<char>, Seq<char>>,
    pub query: Fields,
    pub body: Seq<char>,
}

/// The request that a template (its headers, query and body) and the
/// overrides of headers, query and body make.
pub open spec fn merged(
    headers: Map<Seq<char>, Seq<char>>,
    query: Fields,
    body: Fields,
    header_args: Fields,
    query_args: Fields,
    body_args: Fields,
) -> Result<MergedView, MergeError> {
    match header_entries(headers, header_args) {
        Err(e) => Err(e),
        Ok(h1) => if !h1.contains_key("content-type"@) && h1.dom().len() >= MAX_HEADER_NAMES {
            Err(MergeError::TooManyHeaders)
        } else {
            let h = with_default_content_type(h1);
            let q = override_fields(query, query_args);
            let b = override_fields(body, body_args);
            match encoded_body(request_content_kind(h1), b) {
                Ok(t) => Ok(MergedView { headers: h, query: q, body: t }),
                Err(e) => Err(e),
            }
        },
    }
}

/// Sets each header of `hs` in `acc`, in order.
fn apply_headers(acc: &mut HeaderMap, hs: &Vec<(String, String)>) -> (r: Result<(), MergeError>)
    ensures
        match header_entries(header_map_entries(*old(acc)), hs.deep_view()) {
            Ok(h) => r is Ok && header_map_entries(*final(acc)) == h,
            Err(e) => r == Err::<(), MergeError>(e),
        },
{
    let ghost start = header_map_entries(*acc);
    let n = hs.len();
    let mut i: usize = 0;
    while i < n
        invariant
            i <= n,
            n == hs.len(),
            start == header_map_entries(*old(acc)),
            header_entries(start, hs.deep_view().subrange(0, i as int)) == Ok::<Map<Seq<char>, Seq<char>>, MergeError>(
                header_map_entries(*acc),
            ),
        decreases n - i,
    {
        let ghost prefix = hs.deep_view().subrange(0, i + 1);
        proof {
            assert(prefix.drop_last() =~= hs.deep_view().subrange(0, i as int));
            assert(prefix.last() == (hs[i as int].0@, hs[i as int].1@));
        }
        if header_count(acc) >= MAX_HEADER_NAMES {
            proof {
                lemma_header_error_persists(start, hs.deep_view(), i as int + 1);
            }
            return Err(MergeError::TooManyHeaders);
        }
        match insert_header(acc, hs[i].0.as_str(), hs[i].1.as_str()) {
            Ok(()) => {},
            Err(e) => {
                proof {
                    lemma_header_error_persists(start, hs.deep_view(), i as int + 1);
                }
                return Err(e);
            },
        }
        i = i + 1;
    }
    assert(hs.deep_view().subrange(0, n as int) =~= hs.deep_view());
    Ok(())
}

/// Once a header fails, the headers after it change nothing.
proof fn lemma_header_error_persists(acc: Map<Seq<char>, Seq<char>>, hs: Fields, k: int)
    requires
        0 <= k <= hs.len(),
        header_entries(acc, hs.subrange(0, k)) is Err,
    ensures
        header_entries(acc, hs) == header_entries(acc, hs.subrange(0, k)),
    decreases hs.len() - k,
{
    if k < hs.len() {
        let next = hs.subrange(0, k + 1);
        assert(next.drop_last() =~= hs.subrange(0, k));
        lemma_header_error_persists(acc, hs, k + 1);
    } else {
        assert(hs.subrange(0, k) =~= hs);
    }
}

/// Sets each override of `ovs` in `acc`, in order, its value read as a scalar.
fn apply_overrides(acc: &mut FieldMap, ovs: &Vec<(String, String)>)
    ensures
        final(acc)@ == override_fields(old(acc)@, ovs.deep_view()),
{
    let ghost start = acc@;
    let n = ovs.len();
    let mut i: usize = 0;
    while i < n
        invariant
            i <= n,
            n == ovs.len(),
            start == old(acc)@,
            acc@ == override_fields(start, ovs.deep_view().subrange(0, i as int)),
        decreases n - i,
    {
        let value = parse_scalar(ovs[i].1.as_str()).to_json();
        acc.set(ovs[i].0.clone(), value);
        proof {
            let prefix = ovs.deep_view().subrange(0, i + 1);
            assert(prefix.drop_last() =~= ovs.deep_view().subrange(0, i as int));
        }
        i = i + 1;
    }
    assert(ovs.deep_view().subrange(0, n as int) =~= ovs.deep_view());
}

/// A stored request: its method, its URL without query, its query
/// parameters, headers and body.
#[derive(Debug)]
pub struct RequestProfile {
    pub method: String,
    pub url: String,
    /// The query parameters, as the fields of a JSON object.
    pub params: Option<FieldMap>,
    pub headers: HeaderMap,
    /// The body, as the fields of a JSON object.
    pub body: Option<FieldMap>,
}

/// The fields of an object that may be absent, which then counts as empty.
pub open spec fn fields_or_empty(o: Option<FieldMap>) -> Fields {
    match o {
        Some(m) => m@,
        None => Seq::empty(),
    }
}

/// The parts of a request that a template and overrides make.
#[derive(Debug)]
pub struct MergedRequest {
    pub headers: HeaderMap,
    pub query: FieldMap,
    /// The body, written in the encoding of the content type.
    pub body: String,
}

impl View for MergedRequest {
    type V = MergedView;

    open spec fn view(&self) -> MergedView {
        MergedView { headers: header_map_entries(self.headers), query: self.query@, body: self.body@ }
    }
}

/// `r` is what merging `p` with `args` returns.
pub open spec fn merge_returns(p: &RequestProfile, args: &ExtraArgs, r: &Result<MergedRequest, MergeError>) -> bool {
    match p.merged_with(args) {
        Ok(m) => r is Ok && r->Ok_0@ == m,
        Err(e) => *r == Err::<MergedRequest, MergeError>(e),
    }
}

impl RequestProfile {
    /// What `merge` makes of this template and `args`.
    pub open spec fn merged_with(&self, args: &ExtraArgs) -> Result<MergedView, MergeError> {
        merged(
            header_map_entries(self.headers),
            fields_or_empty(self.params),
            fields_or_empty(self.body),
            args.headers@,
            args.query@,
            args.body@,
        )
    }

    /// Applies the overrides to copies of the template's headers, query and
    /// body, and writes the body in the encoding of the content type.
    pub fn merge(&self, args: &ExtraArgs) -> (r: Result<MergedRequest, MergeError>)
        ensures
            merge_returns(self, args, &r),
    {
        let mut headers = clone_header_map(&self.headers);
        apply_headers(&mut headers, args.headers.pairs())?;
        let mut query = match &self.params {
            Some(p) => p.cloned(),
            None => FieldMap::new(),
        };
        let mut body = match &self.body {
            Some(b) => b.cloned(),
            None => FieldMap::new(),
        };
        apply_overrides(&mut query, args.query.pairs());
        apply_overrides(&mut body, args.body.pairs());
        let content_type = if has_content_type(&headers) {
            match content_type_text(&headers) {
                Some(v) => ContentKind::of(v.as_str()),
                None => ContentKind::Unsupported,
            }
        } else {
            if header_count(&headers) >= MAX_HEADER_NAMES {
                return Err(MergeError::TooManyHeaders);
            }
            proof {
                reveal_strlit("application/json");
            }
            set_content_type(&mut headers, "application/json");
            ContentKind::Json
        };
        let text = match content_type {
            ContentKind::Json => body.to_compact_json(),
            ContentKind::FormUrlEncoded | ContentKind::MultipartFormData => body.to_form(),
            ContentKind::Unsupported => {
                return Err(MergeError::UnsupportedContentType);
            },
        };
        match text {
            Some(t) => Ok(MergedRequest { headers, query, body: t }),
            None => Err(MergeError::UnencodableBody),
        }
    }
}

// ---------------------------------------------------------------------------
// Templates from a URL
// ---------------------------------------------------------------------------

/// What `Url::parse` makes of a text: the URL without its query, written out
/// again, and the decoded pairs of its query in order; `None` where the text
/// is no URL.
pub uninterp spec fn url_parts(s: Seq<char>) -> Option<(Seq<char>, Fields)>;

/// Relies on `Url::parse`, `Url::query_pairs`, `Url::set_query` and the
/// `Display` of `Url`.
#[verifier::external_body]
fn split_url(s: &str) -> (r: Option<(String, Vec<(String, String)>)>)
    ensures
        r is Some <==> url_parts(s@) is Some,
        r is Some ==> url_parts(s@) == Some(((r->0).0@, (r->0).1.deep_view())),
{
    let mut url = url::Url::parse(s).ok()?;
    let pairs = url.query_pairs().map(|(k, v)| (k.into_owned(), v.into_owned())).collect();
    url.set_query(None);
    Some((url.to_string(), pairs))
}

/// A text that is no URL.
#[derive(Debug, Clone, Copy, PartialEq, Eq, Structural)]
pub struct InvalidUrl;

impl RequestProfile {
    /// A `GET` template for a URL: its query becomes the template's query
    /// parameters, each value read as a scalar; the URL keeps no query.
    pub fn from_url(s: &str) -> (r: Result<RequestProfile, InvalidUrl>)
        ensures
            r is Ok <==> url_parts(s@) is Some,
            r is Ok ==> {
                let (base, pairs) = url_parts(s@)->0;
                let q = override_fields(Seq::empty(), pairs);
                let p = r->Ok_0;
                &&& p.method@ == "GET"@
                &&& p.url@ == base
                &&& (q.len() == 0 ==> p.params is None)
                &&& (q.len() > 0 ==> p.params is Some && p.params->0@ == q)
                &&& header_map_entries(p.headers) == no_headers()
                &&& p.body is None
            },
    {
        let (url, pairs) = match split_url(s) {
            Some(parts) => parts,
            None => {
                return Err(InvalidUrl);
            },
        };
        let mut params = FieldMap::new();
        apply_overrides(&mut params, &pairs);
        let params = if params.fields().len() == 0 {
            None
        } else {
            Some(params)
        };
        Ok(RequestProfile {
            method: String::from_str("GET"),
            url,
            params,
            headers: new_header_map(),
            body: None,
        })
    }
}

impl std::str::FromStr for RequestProfile {
    type Err = InvalidUrl;

    fn from_str(s: &str) -> Result<RequestProfile, InvalidUrl> {
        RequestProfile::from_url(s)
    }
}

// ---------------------------------------------------------------------------
// Laws of merging
// ---------------------------------------------------------------------------

/// Merging is a function of the template and the overrides: two merges of
/// the same inputs return the same request, or the same error.
pub proof fn lemma_merge_deterministic(
    p: &RequestProfile,
    args: &ExtraArgs,
    r1: &Result<MergedRequest, MergeError>,
    r2: &Result<MergedRequest, MergeError>,
)
    requires
        merge_returns(p, args, r1),
        merge_returns(p, args, r2),
    ensures
        r1 is Ok <==> r2 is Ok,
        r1 is Ok ==> r1->Ok_0@ == r2->Ok_0@,
        r1 is Err ==> r1->Err_0 == r2->Err_0,
{
}

/// Overrides keep the keys of an object unique.
pub proof fn lemma_override_fields_unique(base: Fields, ovs: Fields)
    requires
        keys_unique(base),
    ensures
        keys_unique(override_fields(base, ovs)),
    decreases ovs.len(),
{
    if ovs.len() > 0 {
        lemma_override_fields_unique(base, ovs.drop_last());
        lemma_with_field(override_fields(base, ovs.drop_last()), ovs.last().0, scalar_json(parsed_scalar(ovs.last().1)));
    }
}

/// The last override of a field leaves it holding that override's value,
/// read as a scalar and written as JSON, whatever the template held.
pub proof fn lemma_override_sets_field(base: Fields, ovs: Fields, i: int)
    requires
        keys_unique(base),
        0 <= i < ovs.len(),
        forall|j: int| i < j < ovs.len() ==> ovs[j].0 != ovs[i].0,
    ensures
        field_value(override_fields(base, ovs), ovs[i].0) == Some(scalar_json(parsed_scalar(ovs[i].1))),
    decreases ovs.len(),
{
    let prev = ovs.drop_last();
    lemma_override_fields_unique(base, prev);
    lemma_with_field(override_fields(base, prev), ovs.last().0, scalar_json(parsed_scalar(ovs.last().1)));
    if i < ovs.len() - 1 {
        assert forall|j: int| i < j < prev.len() implies prev[j].0 != prev[i].0 by {
            assert(prev[j] == ovs[j]);
        }
        lemma_override_sets_field(base, prev, i);
        assert(ovs.last().0 != ovs[i].0);
        assert(prev[i] == ovs[i]);
    }
}

/// A body override of a field reaches the merged request: the body that is
/// encoded holds, for that field, the value of its last override read as a
/// scalar, whatever the template's body held.
pub proof fn lemma_body_override_wins(p: &RequestProfile, args: &ExtraArgs, i: int)
    requires
        keys_unique(fields_or_empty(p.body)),
        0 <= i < args.body@.len(),
        forall|j: int| i < j < args.body@.len() ==> args.body@[j].0 != args.body@[i].0,
    ensures
        field_value(override_fields(fields_or_empty(p.body), args.body@), args.body@[i].0)
            == Some(scalar_json(parsed_scalar(args.body@[i].1))),
{
    lemma_override_sets_field(fields_or_empty(p.body), args.body@, i);
}

/// Where no header names a content type after the overrides, the merged
/// request carries `content-type: application/json` and its body is the
/// compact JSON text of the body object.
pub proof fn lemma_default_content_type(p: &RequestProfile, args: &ExtraArgs)
    requires
        header_entries(header_map_entries(p.headers), args.headers@) is Ok,
        !header_entries(header_map_entries(p.headers), args.headers@)->Ok_0.contains_key("content-type"@),
    ensures
        match p.merged_with(args) {
            Ok(m) => m.headers.contains_key("content-type"@) && m.headers["content-type"@] == "application/json"@
                && compact_object_json(override_fields(fields_or_empty(p.body), args.body@)) == Some(m.body),
            Err(e) => e == MergeError::TooManyHeaders || (e == MergeError::UnencodableBody
                && compact_object_json(override_fields(fields_or_empty(p.body), args.body@)) is None),
        },
{
}

} // verus!
