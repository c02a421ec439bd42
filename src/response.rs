use vstd::prelude::*;
use vstd::string::*;
use vstd::utf8::*;

use crate::fields::{with_fields, FieldMap, Fields};
use crate::json::{parsed_json_fields, pretty_json_text, pretty_object_json, decode_fields, reformat_pretty};
use crate::request::{content_kind, ContentKind};

verus! {

/// Which parts of a response a comparison leaves out.
#[derive(Debug, Clone)]
pub struct ResponseProfile {
    /// Header names, matched without regard to ASCII case.
    pub skip_headers: Vec<String>,
    /// Top-level fields of a JSON body.
    pub skip_body: Vec<String>,
}

impl ResponseProfile {
    pub fn new(skip_headers: Vec<String>, skip_body: Vec<String>) -> (r: ResponseProfile)
        ensures
            r.skip_headers@ == skip_headers@,
            r.skip_body@ == skip_body@,
    {
        ResponseProfile { skip_headers, skip_body }
    }
}

/// Why a response could not be made into text.
#[derive(Debug, Clone, Copy, PartialEq, Eq, Structural)]
pub enum NormalizeError {
    /// The body is not UTF-8.
    Decode,
    /// The body is not the JSON its content type announces.
    Parse,
}

// ---------------------------------------------------------------------------
// Text helpers
// ---------------------------------------------------------------------------

/// Two characters that are equal once ASCII upper case is made lower case.
pub open spec fn same_ignoring_ascii_case(a: char, b: char) -> bool {
    ||| a == b
    ||| ('A' <= a <= 'Z' && a as u32 + 32 == b as u32)
    ||| ('A' <= b <= 'Z' && b as u32 + 32 == a as u32)
}

pub open spec fn text_eq_ignoring_ascii_case(a: Seq<char>, b: Seq<char>) -> bool {
    &&& a.len() == b.len()
    &&& forall|i: int| 0 <= i < a.len() ==> same_ignoring_ascii_case(#[trigger] a[i], b[i])
}

/// Compares two texts without regard to ASCII case.
pub fn eq_ignore_ascii_case(a: &str, b: &str) -> (r: bool)
    ensures
        r == text_eq_ignoring_ascii_case(a@, b@),
{
    let n = a.unicode_len();
    if n != b.unicode_len() {
        return false;
    }
    let mut i: usize = 0;
    while i < n
        invariant
            i <= n,
            n == a@.len(),
            n == b@.len(),
            forall|j: int| 0 <= j < i ==> same_ignoring_ascii_case(#[trigger] a@[j], b@[j]),
        decreases n - i,
    {
        let x = a.get_char(i);
        let y = b.get_char(i);
        let same = x == y || ('A' <= x && x <= 'Z' && (x as u32) + 32 == y as u32) || ('A' <= y && y
            <= 'Z' && (y as u32) + 32 == x as u32);
        if !same {
            return false;
        }
        i = i + 1;
    }
    true
}

/// Relies on `String::from_utf8`, which accepts exactly valid UTF-8 and
/// decodes it.
#[verifier::external_body]
fn decode_utf8_text(bytes: &Vec<u8>) -> (r: Option<String>)
    ensures
        r is Some <==> valid_utf8(bytes@),
        r is Some ==> r->0@ == decode_utf8(bytes@),
{
    String::from_utf8(bytes.clone()).ok()
}

// ---------------------------------------------------------------------------
// The header block
// ---------------------------------------------------------------------------

/// `name` is one of `skip`, ASCII case aside.
pub open spec fn is_skipped(name: Seq<char>, skip: Seq<Seq<char>>) -> bool {
    exists|j: int| 0 <= j < skip.len() && text_eq_ignoring_ascii_case(name, #[trigger] skip[j])
}

/// The headers that are not skipped, in order.
pub open spec fn kept_headers(hs: Fields, skip: Seq<Seq<char>>) -> Fields
    decreases hs.len(),
{
    if hs.len() == 0 {
        Seq::empty()
    } else {
        let rest = kept_headers(hs.drop_last(), skip);
        if is_skipped(hs.last().0, skip) {
            rest
        } else {
            rest.push(hs.last())
        }
    }
}

/// One `name: value` line for each header.
pub open spec fn header_lines(hs: Fields) -> Seq<char>
    decreases hs.len(),
{
    if hs.len() == 0 {
        Seq::empty()
    } else {
        header_lines(hs.drop_last()) + hs.last().0 + ": "@ + hs.last().1 + "\n"@
    }
}

/// The status line, the headers that are kept, and a blank line.
pub open spec fn header_block(version: Seq<char>, status: Seq<char>, hs: Fields, skip: Seq<Seq<char>>) -> Seq<char> {
    version + " "@ + status + "\r\n"@ + header_lines(kept_headers(hs, skip)) + "\n"@
}

fn is_skipped_name(name: &str, skip: &Vec<String>) -> (r: bool)
    ensures
        r == is_skipped(name@, skip.deep_view()),
{
    let n = skip.len();
    let mut j: usize = 0;
    while j < n
        invariant
            j <= n,
            n == skip.len(),
            forall|k: int| 0 <= k < j ==> !text_eq_ignoring_ascii_case(name@, #[trigger] skip.deep_view()[k]),
        decreases n - j,
    {
        if eq_ignore_ascii_case(name, skip[j].as_str()) {
            assert(text_eq_ignoring_ascii_case(name@, skip.deep_view()[j as int]));
            return true;
        }
        j = j + 1;
    }
    false
}

/// The value of the first header named `name`, ASCII case aside.
pub open spec fn first_header(hs: Fields, name: Seq<char>) -> Option<Seq<char>>
    decreases hs.len(),
{
    if hs.len() == 0 {
        None
    } else {
        match first_header(hs.drop_last(), name) {
            Some(v) => Some(v),
            None => if text_eq_ignoring_ascii_case(hs.last().0, name) {
                Some(hs.last().1)
            } else {
                None
            },
        }
    }
}

/// A header found in a prefix of the headers is the one found in all of them.
proof fn lemma_first_header_extends(hs: Fields, name: Seq<char>, k: int)
    requires
        0 <= k <= hs.len(),
        first_header(hs.subrange(0, k), name) is Some,
    ensures
        first_header(hs, name) == first_header(hs.subrange(0, k), name),
    decreases hs.len() - k,
{
    if k < hs.len() {
        let next = hs.subrange(0, k + 1);
        assert(next.drop_last() =~= hs.subrange(0, k));
        lemma_first_header_extends(hs, name, k + 1);
    } else {
        assert(hs.subrange(0, k) =~= hs);
    }
}

/// `s` without each field of `ks`.
pub open spec fn without_fields(s: Fields, ks: Seq<Seq<char>>) -> Fields
    decreases ks.len(),
{
    if ks.len() == 0 {
        s
    } else {
        crate::fields::without_field(without_fields(s, ks.drop_last()), ks.last())
    }
}

/// The indented JSON text of a body without the top-level fields of `skip`;
/// a body that is not an object is only indented.
pub open spec fn filtered_json(s: Seq<char>, skip: Seq<Seq<char>>) -> Result<Seq<char>, NormalizeError> {
    match parsed_json_fields(s) {
        None => Err(NormalizeError::Parse),
        Some(None) => match pretty_json_text(s) {
            Some(t) => Ok(t),
            None => Err(NormalizeError::Parse),
        },
        Some(Some(f)) => match pretty_object_json(without_fields(with_fields(Seq::empty(), f), skip)) {
            Some(t) => Ok(t),
            None => Err(NormalizeError::Parse),
        },
    }
}

/// Removes the top-level fields `skip_body` from a JSON text and indents it.
pub fn filter_json(text: &str, skip_body: &Vec<String>) -> (r: Result<String, NormalizeError>)
    ensures
        match filtered_json(text@, skip_body.deep_view()) {
            Ok(t) => r is Ok && r->Ok_0@ == t,
            Err(e) => r == Err::<String, NormalizeError>(e),
        },
{
    match decode_fields(text) {
        None => Err(NormalizeError::Parse),
        Some(None) => match reformat_pretty(text) {
            Some(t) => Ok(t),
            None => Err(NormalizeError::Parse),
        },
        Some(Some(pairs)) => {
            let mut object = FieldMap::from_pairs(pairs);
            let ghost start = object@;
            let n = skip_body.len();
            let mut i: usize = 0;
            while i < n
                invariant
                    i <= n,
                    n == skip_body.len(),
                    object@ == without_fields(start, skip_body.deep_view().subrange(0, i as int)),
                decreases n - i,
            {
                object.remove(skip_body[i].as_str());
                proof {
                    let prefix = skip_body.deep_view().subrange(0, i + 1);
                    assert(prefix.drop_last() =~= skip_body.deep_view().subrange(0, i as int));
                }
                i = i + 1;
            }
            assert(skip_body.deep_view().subrange(0, n as int) =~= skip_body.deep_view());
            match object.to_pretty_json() {
                Some(t) => Ok(t),
                None => Err(NormalizeError::Parse),
            }
        },
    }
}

/// A response as the transport delivered it.
#[derive(Debug, Clone)]
pub struct ResponseExt {
    /// The protocol version, such as `HTTP/1.1`.
    pub version: String,
    /// The status code and reason, such as `200 OK`.
    pub status: String,
    pub headers: Vec<(String, String)>,
    pub body: Vec<u8>,
}

/// The text that stands for a response: without a profile, its body as it
/// is; with one, the header block, then the body, filtered and indented
/// where it is JSON.
pub open spec fn normalized(
    version: Seq<char>,
    status: Seq<char>,
    hs: Fields,
    body: Seq<u8>,
    profile: Option<(Seq<Seq<char>>, Seq<Seq<char>>)>,
) -> Result<Seq<char>, NormalizeError> {
    if !valid_utf8(body) {
        Err(NormalizeError::Decode)
    } else {
        let text = decode_utf8(body);
        match profile {
            None => Ok(text),
            Some((skip_headers, skip_body)) => {
                let head = header_block(version, status, hs, skip_headers);
                let is_json = match first_header(hs, "content-type"@) {
                    Some(v) => content_kind(v) == ContentKind::Json,
                    None => false,
                };
                if is_json {
                    match filtered_json(text, skip_body) {
                        Ok(t) => Ok(head + t),
                        Err(e) => Err(e),
                    }
                } else {
                    Ok(head + text)
                }
            },
        }
    }
}

/// The header names and body fields that a profile skips.
pub open spec fn skip_lists(profile: Option<ResponseProfile>) -> Option<(Seq<Seq<char>>, Seq<Seq<char>>)> {
    match profile {
        Some(p) => Some((p.skip_headers.deep_view(), p.skip_body.deep_view())),
        None => None,
    }
}

impl ResponseExt {
    /// What `get_text` makes of this response under `profile`.
    pub open spec fn text_under(&self, profile: Option<ResponseProfile>) -> Result<Seq<char>, NormalizeError> {
        normalized(self.version@, self.status@, self.headers.deep_view(), self.body@, skip_lists(profile))
    }

    /// The status line, each header not in `skip_headers` as `name: value`,
    /// and a blank line.
    pub fn get_headers(&self, skip_headers: &Vec<String>) -> (r: String)
        ensures
            r@ == header_block(self.version@, self.status@, self.headers.deep_view(), skip_headers.deep_view()),
    {
        let ghost hs = self.headers.deep_view();
        let ghost skip = skip_headers.deep_view();
        let mut out = self.version.clone();
        out.append(" ");
        out.append(self.status.as_str());
        out.append("\r\n");
        let ghost head = out@;
        let n = self.headers.len();
        let mut i: usize = 0;
        while i < n
            invariant
                i <= n,
                n == hs.len(),
                hs == self.headers.deep_view(),
                skip == skip_headers.deep_view(),
                out@ == head + header_lines(kept_headers(hs.subrange(0, i as int), skip)),
            decreases n - i,
        {
            proof {
                let prefix = hs.subrange(0, i + 1);
                assert(prefix.drop_last() =~= hs.subrange(0, i as int));
                assert(prefix.last() == hs[i as int]);
            }
            if !is_skipped_name(self.headers[i].0.as_str(), skip_headers) {
                out.append(self.headers[i].0.as_str());
                out.append(": ");
                out.append(self.headers[i].1.as_str());
                out.append("\n");
                proof {
                    let prefix = hs.subrange(0, i + 1);
                    let kept = kept_headers(prefix, skip);
                    assert(kept == kept_headers(hs.subrange(0, i as int), skip).push(hs[i as int]));
                    assert(kept.drop_last() =~= kept_headers(hs.subrange(0, i as int), skip));
                    assert(out@ =~= head + header_lines(kept));
                }
            }
            i = i + 1;
        }
        assert(hs.subrange(0, n as int) =~= hs);
        out.append("\n");
        out
    }

    /// The value of the first `content-type` header, ASCII case aside.
    fn content_type(&self) -> (r: Option<&String>)
        ensures
            r is None <==> first_header(self.headers.deep_view(), "content-type"@) is None,
            r is Some ==> first_header(self.headers.deep_view(), "content-type"@) == Some(r->0@),
    {
        let ghost hs = self.headers.deep_view();
        let n = self.headers.len();
        let mut i: usize = 0;
        while i < n
            invariant
                i <= n,
                n == hs.len(),
                hs == self.headers.deep_view(),
                first_header(hs.subrange(0, i as int), "content-type"@) is None,
            decreases n - i,
        {
            let ghost prefix = hs.subrange(0, i + 1);
            proof {
                assert(prefix.drop_last() =~= hs.subrange(0, i as int));
                assert(prefix.last() == hs[i as int]);
            }
            if eq_ignore_ascii_case(self.headers[i].0.as_str(), "content-type") {
                proof {
                    lemma_first_header_extends(hs, "content-type"@, i + 1);
                }
                return Some(&self.headers[i].1);
            }
            i = i + 1;
        }
        assert(hs.subrange(0, n as int) =~= hs);
        None
    }

    /// The text that stands for this response under `profile`.
    pub fn get_text(&self, profile: &Option<ResponseProfile>) -> (r: Result<String, NormalizeError>)
        ensures
            match self.text_under(*profile) {
                Ok(t) => r is Ok && r->Ok_0@ == t,
                Err(e) => r == Err::<String, NormalizeError>(e),
            },
    {
        let text = match decode_utf8_text(&self.body) {
            Some(t) => t,
            None => {
                return Err(NormalizeError::Decode);
            },
        };
        match profile {
            None => Ok(text),
            Some(p) => {
                let mut out = self.get_headers(&p.skip_headers);
                let is_json = match self.content_type() {
                    Some(v) => match ContentKind::of(v.as_str()) {
                        ContentKind::Json => true,
                        _ => false,
                    },
                    None => false,
                };
                if is_json {
                    let filtered = filter_json(text.as_str(), &p.skip_body)?;
                    out.append(filtered.as_str());
                } else {
                    out.append(text.as_str());
                }
                Ok(out)
            },
        }
    }
}

/// No header that the profile skips is kept, whatever the case of its name;
/// each header kept is one of the response's.
pub proof fn lemma_skipped_headers_absent(hs: Fields, skip: Seq<Seq<char>>)
    ensures
        forall|i: int| 0 <= i < kept_headers(hs, skip).len() ==> !is_skipped(#[trigger] kept_headers(hs, skip)[i].0, skip),
        forall|i: int| 0 <= i < kept_headers(hs, skip).len() ==> hs.contains(#[trigger] kept_headers(hs, skip)[i]),
    decreases hs.len(),
{
    if hs.len() > 0 {
        let prev = hs.drop_last();
        lemma_skipped_headers_absent(prev, skip);
        let kept = kept_headers(hs, skip);
        let kprev = kept_headers(prev, skip);
        assert forall|i: int| 0 <= i < kept.len() implies hs.contains(#[trigger] kept[i]) by {
            if i < kprev.len() {
                assert(kept[i] == kprev[i]);
                assert(prev.contains(kprev[i]));
                let j = choose|j: int| 0 <= j < prev.len() && prev[j] == kprev[i];
                assert(hs[j] == prev[j]);
            } else {
                assert(kept[i] == hs[hs.len() - 1]);
            }
        }
    }
}

/// Filtering a JSON object leaves none of the skipped keys and keeps every
/// other key it had.
pub proof fn lemma_skipped_fields_absent(s: Fields, skip: Seq<Seq<char>>)
    requires
        crate::fields::keys_unique(s),
    ensures
        crate::fields::keys_unique(without_fields(s, skip)),
        forall|j: int| 0 <= j < skip.len() ==> !crate::fields::has_key(without_fields(s, skip), #[trigger] skip[j]),
        forall|k: Seq<char>| !skip.contains(k) ==> (#[trigger] crate::fields::has_key(without_fields(s, skip), k)
            <==> crate::fields::has_key(s, k)),
    decreases skip.len(),
{
    if skip.len() > 0 {
        let prev = skip.drop_last();
        lemma_skipped_fields_absent(s, prev);
        let before = without_fields(s, prev);
        crate::fields::lemma_without_field(before, skip.last());
        assert forall|j: int| 0 <= j < skip.len() implies !crate::fields::has_key(without_fields(s, skip), #[trigger] skip[j]) by {
            if j < skip.len() - 1 {
                assert(prev[j] == skip[j]);
                if skip[j] != skip.last() {
                    assert(!crate::fields::has_key(before, prev[j]));
                }
            }
        }
        assert forall|k: Seq<char>| !skip.contains(k) implies (#[trigger] crate::fields::has_key(without_fields(s, skip), k)
            <==> crate::fields::has_key(s, k)) by {
            assert(k != skip.last()) by {
                if k == skip.last() {
                    assert(skip[skip.len() - 1] == k);
                }
            }
            assert(!prev.contains(k)) by {
                if prev.contains(k) {
                    let j = choose|j: int| 0 <= j < prev.len() && prev[j] == k;
                    assert(skip[j] == k);
                }
            }
        }
    }
}

} // verus!
