use reqwest::header::{HeaderMap, HeaderName, HeaderValue};
use zdiff::{
    diff_text, parse_scalar, ChangeTag, CompareError, ContentKind, DiffProfile, DiffStyle,
    ExtraArgs, FieldMap, KeyVal, KeyValType, KeyValue, Leg, MergeError, MergedRequest, NormalizeError,
    Parameter, RequestProfile, ResponseExt, ResponseProfile, Scalar,
};

fn pairs(items: &[(&str, &str)]) -> Vec<(String, String)> {
    items.iter().map(|(k, v)| (k.to_string(), v.to_string())).collect()
}

fn no_args() -> ExtraArgs {
    ExtraArgs {
        headers: Parameter::new(vec![]),
        query: Parameter::new(vec![]),
        body: Parameter::new(vec![]),
    }
}

fn header_map(headers: &[(&str, &str)]) -> HeaderMap {
    let mut map = HeaderMap::new();
    for (k, v) in headers {
        map.insert(HeaderName::from_bytes(k.as_bytes()).unwrap(), HeaderValue::from_str(v).unwrap());
    }
    map
}

fn header<'a>(m: &'a MergedRequest, name: &str) -> Option<&'a str> {
    m.headers.get(name).map(|v| v.to_str().unwrap())
}

fn template(headers: &[(&str, &str)], body: &[(&str, &str)]) -> RequestProfile {
    RequestProfile {
        method: "GET".to_string(),
        url: "https://example.com/api".to_string(),
        params: None,
        headers: header_map(headers),
        body: Some(FieldMap::from_pairs(pairs(body))),
    }
}

fn json_response(body: &str) -> ResponseExt {
    ResponseExt {
        version: "HTTP/1.1".to_string(),
        status: "200 OK".to_string(),
        headers: pairs(&[("content-type", "application/json; charset=utf-8"), ("date", "Mon, 01 Jan 2024")]),
        body: body.as_bytes().to_vec(),
    }
}

#[test]
fn key_value_from_str() {
    let s = "a=b";

    let kv: KeyValue = s.parse().unwrap();
    assert_eq!(
        kv,
        KeyValue {
            key: "a".to_owned(),
            value: "b".to_owned(),
        }
    )
}

#[test]
fn key_value_trims_and_splits_at_first_equals() {
    let kv = KeyValue::parse("  key = a=b ").unwrap();
    assert_eq!(kv.key, "key");
    assert_eq!(kv.value, "a=b");
}

#[test]
fn key_value_without_equals_is_rejected() {
    let e = KeyValue::parse("novalue").unwrap_err();
    assert_eq!(e.input, "novalue");
}

#[test]
fn key_val_prefix_names_target() {
    let h = KeyVal::parse("%X-Token=abc").unwrap();
    assert_eq!(h.key_type, KeyValType::Header);
    assert_eq!(h.key, "X-Token");
    let b = KeyVal::parse("@name=joe").unwrap();
    assert_eq!(b.key_type, KeyValType::Body);
    assert_eq!(b.key, "name");
    let q = KeyVal::parse("page=2").unwrap();
    assert_eq!(q.key_type, KeyValType::Query);
    assert_eq!(q.key, "page");
}

#[test]
fn extra_args_sorted_by_target() {
    let args = ExtraArgs::from_key_vals(vec![
        KeyVal::parse("a=1").unwrap(),
        KeyVal::parse("%h=2").unwrap(),
        KeyVal::parse("@b=3").unwrap(),
        KeyVal::parse("c=4").unwrap(),
    ]);
    assert_eq!(args.query.pairs(), &pairs(&[("a", "1"), ("c", "4")]));
    assert_eq!(args.headers.pairs(), &pairs(&[("h", "2")]));
    assert_eq!(args.body.pairs(), &pairs(&[("b", "3")]));
}

#[test]
fn scalars_are_read_in_order() {
    assert!(matches!(parse_scalar("true"), Scalar::Bool(true)));
    assert!(matches!(parse_scalar("false"), Scalar::Bool(false)));
    assert!(matches!(parse_scalar("42"), Scalar::Number(ref t) if t == "42"));
    assert!(matches!(parse_scalar("-1.5e3"), Scalar::Number(ref t) if t == "-1.5e3"));
    assert!(matches!(parse_scalar("007"), Scalar::Text(ref t) if t == "007"));
    assert!(matches!(parse_scalar("abc"), Scalar::Text(ref t) if t == "abc"));
    assert!(matches!(parse_scalar("\"true\""), Scalar::Text(ref t) if t == "\"true\""));
}

#[test]
fn scalar_json_text() {
    assert_eq!(parse_scalar("true").to_json(), "true");
    assert_eq!(parse_scalar("12").to_json(), "12");
    assert_eq!(parse_scalar("a\"b").to_json(), "\"a\\\"b\"");
}

#[test]
fn field_map_set_replaces_and_remove_drops() {
    let mut m = FieldMap::new();
    m.set("a".to_string(), "1".to_string());
    m.set("b".to_string(), "2".to_string());
    m.set("a".to_string(), "3".to_string());
    assert_eq!(m.fields(), &pairs(&[("a", "3"), ("b", "2")]));
    m.remove("a");
    assert_eq!(m.fields(), &pairs(&[("b", "2")]));
    assert_eq!(m.get("b").map(|s| s.as_str()), Some("2"));
    assert!(m.get("a").is_none());
}

#[test]
fn merge_twice_gives_same_request() {
    let t = template(&[("X-Env", "test")], &[("a", "1")]);
    let args = ExtraArgs {
        headers: Parameter::new(pairs(&[("X-Trace", "on")])),
        query: Parameter::new(pairs(&[("page", "2")])),
        body: Parameter::new(pairs(&[("a", "5")])),
    };
    let m1 = t.merge(&args).unwrap();
    let m2 = t.merge(&args).unwrap();
    assert_eq!(m1.body, m2.body);
    assert_eq!(m1.headers, m2.headers);
    assert_eq!(m1.query.fields(), m2.query.fields());
}

#[test]
fn body_override_replaces_template_value() {
    let t = template(&[], &[("a", "1"), ("name", "\"x\"")]);
    let args = ExtraArgs {
        headers: Parameter::new(vec![]),
        query: Parameter::new(vec![]),
        body: Parameter::new(pairs(&[("a", "true"), ("n", "7"), ("name", "joe")])),
    };
    let m = t.merge(&args).unwrap();
    assert_eq!(m.body, "{\"a\":true,\"n\":7,\"name\":\"joe\"}");
}

#[test]
fn content_type_defaults_to_json() {
    let t = template(&[], &[("id", "1")]);
    let m = t.merge(&no_args()).unwrap();
    assert_eq!(header(&m, "content-type"), Some("application/json"));
    assert_eq!(m.body, "{\"id\":1}");
}

#[test]
fn header_names_are_normalised() {
    let t = template(&[("X-Env", "a")], &[]);
    let args = ExtraArgs {
        headers: Parameter::new(pairs(&[("x-env", "b")])),
        query: Parameter::new(vec![]),
        body: Parameter::new(vec![]),
    };
    let m = t.merge(&args).unwrap();
    assert_eq!(header(&m, "x-env"), Some("b"));
    assert_eq!(m.headers.get_all("x-env").iter().count(), 1);
    assert_eq!(m.headers.keys_len(), 2);
}

#[test]
fn form_content_type_encodes_form() {
    let t = template(&[("Content-Type", "application/x-www-form-urlencoded")], &[("a", "1"), ("b", "\"x y\"")]);
    let m = t.merge(&no_args()).unwrap();
    assert_eq!(m.body, "a=1&b=x+y");
}

#[test]
fn unsupported_content_type_is_an_error() {
    let t = template(&[("content-type", "text/plain")], &[]);
    assert_eq!(t.merge(&no_args()).unwrap_err(), MergeError::UnsupportedContentType);
}

#[test]
fn invalid_header_value_is_an_error() {
    let t = template(&[], &[]);
    let args = ExtraArgs {
        headers: Parameter::new(pairs(&[("x-a", "line\nbreak")])),
        query: Parameter::new(vec![]),
        body: Parameter::new(vec![]),
    };
    assert_eq!(t.merge(&args).unwrap_err(), MergeError::InvalidHeaderValue);
}

#[test]
fn invalid_header_name_is_an_error() {
    let t = template(&[], &[]);
    let args = ExtraArgs {
        headers: Parameter::new(pairs(&[("bad name", "x")])),
        query: Parameter::new(vec![]),
        body: Parameter::new(vec![]),
    };
    assert_eq!(t.merge(&args).unwrap_err(), MergeError::InvalidHeaderName);
}

#[test]
fn unencodable_form_body_is_an_error() {
    let t = template(&[("content-type", "multipart/form-data")], &[("a", "{\"b\":1}")]);
    assert_eq!(t.merge(&no_args()).unwrap_err(), MergeError::UnencodableBody);
}

#[test]
fn content_kind_ignores_parameters() {
    assert_eq!(ContentKind::of("application/json; charset=utf-8"), ContentKind::Json);
    assert_eq!(ContentKind::of("multipart/form-data"), ContentKind::MultipartFormData);
    assert_eq!(ContentKind::of("text/html"), ContentKind::Unsupported);
    assert_eq!(ContentKind::of("not a type"), ContentKind::Unsupported);
}

#[test]
fn skipped_header_is_dropped_whatever_its_case() {
    let res = json_response("{}");
    for skip in ["Date", "date", "DATE"] {
        let profile = Some(ResponseProfile::new(vec![skip.to_string()], vec![]));
        let text = res.get_text(&profile).unwrap();
        assert!(!text.lines().any(|l| l.to_ascii_lowercase().starts_with("date:")));
        assert!(text.contains("content-type: application/json; charset=utf-8\n"));
    }
}

#[test]
fn skipped_body_field_is_removed() {
    let res = json_response("{\"token\":\"x\",\"id\":1}");
    let profile = Some(ResponseProfile::new(vec![], vec!["token".to_string()]));
    let text = res.get_text(&profile).unwrap();
    assert!(text.contains("\"id\""));
    assert!(!text.contains("token"));
    assert_eq!(
        text,
        "HTTP/1.1 200 OK\r\ncontent-type: application/json; charset=utf-8\ndate: Mon, 01 Jan 2024\n\n{\n  \"id\": 1\n}"
    );
}

#[test]
fn json_that_is_no_object_is_indented() {
    let res = json_response("[1,2]");
    let profile = Some(ResponseProfile::new(vec!["date".to_string()], vec!["x".to_string()]));
    let text = res.get_text(&profile).unwrap();
    assert_eq!(text, "HTTP/1.1 200 OK\r\ncontent-type: application/json; charset=utf-8\n\n[\n  1,\n  2\n]");
}

#[test]
fn raw_mode_keeps_body_verbatim() {
    let res = json_response("{\"b\":1,  \"a\":2}");
    assert_eq!(res.get_text(&None).unwrap(), "{\"b\":1,  \"a\":2}");
}

#[test]
fn non_json_body_is_appended_unfiltered() {
    let res = ResponseExt {
        version: "HTTP/2.0".to_string(),
        status: "404 Not Found".to_string(),
        headers: pairs(&[("Content-Type", "text/plain")]),
        body: b"token: x".to_vec(),
    };
    let profile = Some(ResponseProfile::new(vec![], vec!["token".to_string()]));
    assert_eq!(
        res.get_text(&profile).unwrap(),
        "HTTP/2.0 404 Not Found\r\nContent-Type: text/plain\n\ntoken: x"
    );
}

#[test]
fn non_utf8_body_is_a_decode_error() {
    let mut res = json_response("{}");
    res.body = vec![0xff, 0xfe];
    assert_eq!(res.get_text(&None).unwrap_err(), NormalizeError::Decode);
}

#[test]
fn malformed_json_is_a_parse_error() {
    let res = json_response("{\"a\":");
    let profile = Some(ResponseProfile::new(vec![], vec![]));
    assert_eq!(res.get_text(&profile).unwrap_err(), NormalizeError::Parse);
}

#[test]
fn identical_texts_have_no_changes() {
    let text = "a\nb\nc\n";
    let out = diff_text(text, text);
    assert!(!out.lines().any(|l| l.contains("|-") || l.contains("|+")));
    for group in zdiff::diff_changes(text, text) {
        for change in group {
            assert_eq!(change.tag, ChangeTag::Equal);
        }
    }
}

#[test]
fn one_changed_line() {
    let out = diff_text("a\nb\nc\n", "a\nx\nc\n");
    assert_eq!(out, "1   1    | a\n2        |-b\n    2    |+x\n3   3    | c\n");
    let groups = zdiff::diff_changes("a\nb\nc\n", "a\nx\nc\n");
    let changes: Vec<_> = groups.iter().flatten().collect();
    let deletes: Vec<_> = changes.iter().filter(|c| c.tag == ChangeTag::Delete).collect();
    let inserts: Vec<_> = changes.iter().filter(|c| c.tag == ChangeTag::Insert).collect();
    assert_eq!(deletes.len(), 1);
    assert_eq!(inserts.len(), 1);
    assert_eq!(deletes[0].old_index, Some(1));
    assert_eq!(inserts[0].new_index, Some(1));
}

#[test]
fn missing_final_newline_is_closed() {
    let out = diff_text("a", "b");
    assert_eq!(out, "1        |-a\n    1    |+b\n");
}

#[test]
fn distant_changes_make_two_hunks() {
    let old: String = (1..=20).map(|i| format!("{}\n", i)).collect();
    let new: String = (1..=20)
        .map(|i| match i {
            2 => "two\n".to_string(),
            19 => "nineteen\n".to_string(),
            _ => format!("{}\n", i),
        })
        .collect();
    let out = diff_text(&old, &new);
    let divider = format!("{}\n", "-".repeat(80));
    assert_eq!(out.matches(&divider).count(), 1);
    assert!(out.contains("19       |-19\n"));
}

#[test]
fn styled_rendering_paints_pieces() {
    let mut style = DiffStyle::plain();
    style.delete.sign.open = "<".to_string();
    style.delete.sign.close = ">".to_string();
    let out = zdiff::diff_text_styled("a\n", "", &style);
    assert_eq!(out, "1        |<->a\n");
}

#[test]
fn url_template_takes_query_as_params() {
    let r = RequestProfile::from_url("https://a/x?n=1&flag=true&s=hi").unwrap();
    assert_eq!(r.method, "GET");
    assert_eq!(r.url, "https://a/x");
    let params = r.params.unwrap();
    assert_eq!(params.fields(), &pairs(&[("n", "1"), ("flag", "true"), ("s", "\"hi\"")]));
    assert!(r.body.is_none());
    assert!(r.headers.is_empty());
    assert!(RequestProfile::from_url("https://a/x").unwrap().params.is_none());
    assert!(RequestProfile::from_url("not a url").is_err());
}

#[test]
fn shared_override_reaches_both_requests() {
    let req1: RequestProfile = "https://a/x?n=1".parse().unwrap();
    let req2: RequestProfile = "https://a/x?n=1".parse().unwrap();
    let profile = DiffProfile::new(req1, req2, Some(ResponseProfile::new(vec!["date".to_string()], vec![])));
    let args = ExtraArgs {
        headers: Parameter::new(vec![]),
        query: Parameter::new(pairs(&[("n", "2")])),
        body: Parameter::new(vec![]),
    };
    let (m1, m2) = profile.requests(&args).unwrap();
    assert_eq!(m1.query.get("n").map(|s| s.as_str()), Some("2"));
    assert_eq!(m2.query.get("n").map(|s| s.as_str()), Some("2"));
    let res = json_response("{\"n\":2}");
    let out = profile.diff_responses(&res, &res.clone(), &DiffStyle::plain()).unwrap();
    assert_eq!(out, "");
}

#[test]
fn comparison_names_failing_leg() {
    let bad = template(&[("content-type", "text/plain")], &[]);
    let good = template(&[], &[]);
    let profile = DiffProfile::new(good, bad, None);
    assert!(matches!(
        profile.requests(&no_args()),
        Err(CompareError::Merge(Leg::Second, MergeError::UnsupportedContentType))
    ));
    let mut broken = json_response("{}");
    broken.body = vec![0xc3];
    let ok = json_response("{}");
    assert!(matches!(
        profile.diff_responses(&broken, &ok, &DiffStyle::plain()),
        Err(CompareError::Normalize(Leg::First, NormalizeError::Decode))
    ));
}

#[test]
fn long_line_numbers_widen_column() {
    let old: String = (1..=1200).map(|i| format!("{}\n", i)).collect();
    let new = old.replace("1100\n", "x\n");
    let out = diff_text(&old, &new);
    assert!(out.contains("1100     |-1100\n"));
    assert!(out.contains("10971097 | 1097\n"));
}

#[test]
fn run_args_give_config_path_and_overrides() {
    let run = zdiff::RunArgs {
        profile: "todo".to_string(),
        query: vec![KeyValue::parse("a=1").unwrap()],
        header: vec![KeyValue::parse("x-k=v").unwrap()],
        body: vec![KeyValue::parse("b=2").unwrap(), KeyValue::parse("c=3").unwrap()],
        config: None,
    };
    assert_eq!(run.config_path(), "./zdiff.yml");
    let args = run.extra_args();
    assert_eq!(args.query.pairs(), &pairs(&[("a", "1")]));
    assert_eq!(args.headers.pairs(), &pairs(&[("x-k", "v")]));
    assert_eq!(args.body.pairs(), &pairs(&[("b", "2"), ("c", "3")]));
    let given = zdiff::RunArgs { config: Some("other.yml".to_string()), ..run };
    assert_eq!(given.config_path(), "other.yml");
}
