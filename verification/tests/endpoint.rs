use ruma_api_schema::compile::compile;
use ruma_api_schema::description::{RawDescription, RawItem, RawSection};
use ruma_api_schema::dispatch::{receive, Failure};
use ruma_api_schema::error::{
    CompileError, DecodeError, Key, ParseError, SectionKind, ValidationError,
};
use ruma_api_schema::json::RawJson;
use ruma_api_schema::classify::{classify, count_roles, RoleCounts};
use ruma_api_schema::marshal::{
    check_fits, check_valid, decode_request_parts, decode_response_parts, encode_request_parts,
    encode_response_parts,
};
use ruma_api_schema::schema::{ParsedField, Tag};
use ruma_api_schema::value::Payload;
use ruma_api_schema::schema::{
    Authentication, Block, EndpointDefinition, Location, Method, Precedence, Version, Which,
};
use ruma_api_schema::set_room_account_data::{description, endpoint, Request, Response};
use ruma_api_schema::template::{PathTemplate, Segment};
use ruma_api_schema::value::{FieldValue, Pair, WireRequest, WireResponse};
use ruma_api_schema::wire::{
    decode_request, decode_response, encode_request, encode_request_checked, encode_response,
    encode_response_checked, lookups_agree, same_bytes,
};
use ruma_api_schema::json::Member;

fn metadata(paths: &[(&str, &str)]) -> RawSection {
    let mut items = vec![
        RawItem::entry("description", "Does something."),
        RawItem::entry("method", "GET"),
        RawItem::entry("name", "some_endpoint"),
    ];
    for (key, path) in paths {
        items.push(RawItem::entry(key, path));
    }
    items.push(RawItem::entry("rate_limited", "false"));
    items.push(RawItem::entry("authentication", "None"));
    items.push(RawItem::entry("introduced", "1.0"));
    RawSection::new("metadata", items)
}

fn describe(paths: &[(&str, &str)], request: Vec<RawItem>, response: Vec<RawItem>) -> RawDescription {
    RawDescription {
        sections: vec![
            metadata(paths),
            RawSection::new("request", request),
            RawSection::new("response", response),
        ],
    }
}

fn must_compile(desc: &RawDescription) -> EndpointDefinition {
    match compile(desc) {
        Ok(def) => def,
        Err(e) => panic!("does not compile: {:?}", e),
    }
}

fn json(text: &str) -> RawJson {
    RawJson::parse(text).expect("valid JSON")
}

fn text(value: &FieldValue) -> String {
    match value {
        FieldValue::Text(t) => t.clone(),
        other => panic!("no text: {:?}", other),
    }
}

fn bytes(value: &FieldValue) -> Vec<u8> {
    match value {
        FieldValue::Json(j) => j.to_bytes(),
        other => panic!("no JSON: {:?}", other),
    }
}

fn some_endpoint() -> EndpointDefinition {
    must_compile(&describe(
        &[("stable_path", "/_matrix/some/endpoint/:baz")],
        vec![
            RawItem::entry("foo", "String"),
            RawItem::tagged("header", "content_type", "ContentType"),
            RawItem::tagged("query", "bar", "String"),
            RawItem::tagged("path", "baz", "String"),
            RawItem::entry("note", "Option<String>"),
            RawItem::tagged("query", "limit", "Option<u32>"),
        ],
        vec![
            RawItem::tagged("header", "content_type", "ContentType"),
            RawItem::entry("value", "String"),
            RawItem::entry("extra", "Option<String>"),
        ],
    ))
}

#[test]
fn template_segments() {
    let t = PathTemplate::parse("/user/{a}/rooms/:b/x");
    assert_eq!(t.segments.len(), 6);
    assert!(matches!(&t.segments[0], Segment::Literal(s) if s.is_empty()));
    assert!(matches!(&t.segments[1], Segment::Literal(s) if s == "user"));
    assert!(matches!(&t.segments[2], Segment::Variable(s) if s == "a"));
    assert!(matches!(&t.segments[3], Segment::Literal(s) if s == "rooms"));
    assert!(matches!(&t.segments[4], Segment::Variable(s) if s == "b"));
    assert!(matches!(&t.segments[5], Segment::Literal(s) if s == "x"));
    assert_eq!(t.variables(), vec!["a".to_string(), "b".to_string()]);
}

#[test]
fn template_pieces_that_are_no_variables() {
    let t = PathTemplate::parse("/:/{}/{1a}/:a-b/{a/");
    assert_eq!(t.variables(), Vec::<String>::new());
    assert!(matches!(&t.segments[1], Segment::Literal(s) if s == ":"));
    assert!(matches!(&t.segments[2], Segment::Literal(s) if s == "{}"));
    assert!(matches!(&t.segments[3], Segment::Literal(s) if s == "{1a}"));
    assert!(matches!(&t.segments[4], Segment::Literal(s) if s == ":a-b"));
    assert!(matches!(&t.segments[5], Segment::Literal(s) if s == "{a"));
    assert!(matches!(&t.segments[6], Segment::Literal(s) if s.is_empty()));
}

#[test]
fn template_render_and_capture() {
    let t = PathTemplate::parse("/user/{a}/rooms/{b}");
    let path = t.render(&vec!["x".to_string(), "y z".to_string()]);
    assert_eq!(path, "/user/x/rooms/y z");
    assert_eq!(t.capture(&path), Some(vec!["x".to_string(), "y z".to_string()]));
    assert_eq!(t.capture("/user/x/room/y"), None);
    assert_eq!(t.capture("/user/x/rooms"), None);
    assert_eq!(t.capture("/user/x/rooms/y/"), None);
    assert_eq!(t.capture("/user//rooms/"), Some(vec![String::new(), String::new()]));
}

#[test]
fn path_arity_two_fields_bound_in_order() {
    let def = must_compile(&describe(
        &[("stable_path", "/user/{a}/rooms/{b}")],
        vec![
            RawItem::tagged("path", "a", "String"),
            RawItem::tagged("path", "b", "String"),
        ],
        vec![],
    ));
    let values = vec![FieldValue::Text("1".into()), FieldValue::Text("2".into())];
    assert!(check_fits(def.request_fields(), &values));
    let wire = encode_request(&def, Precedence::StableFirst, &values);
    assert_eq!(wire.path, "/user/1/rooms/2");
    assert_eq!(wire.body, None);
}

#[test]
fn path_arity_mismatch_is_rejected() {
    let one = describe(
        &[("stable_path", "/user/{a}/rooms/{b}")],
        vec![RawItem::tagged("path", "a", "String")],
        vec![],
    );
    match compile(&one) {
        Err(CompileError::Validation {
            endpoint,
            error: ValidationError::TemplateMismatch { template, variables, fields },
        }) => {
            assert_eq!(endpoint, "some_endpoint");
            assert_eq!(template, Which::Stable);
            assert_eq!(variables, 2);
            assert_eq!(fields, 1);
        }
        other => panic!("unexpected: {:?}", other),
    }
    let three = describe(
        &[("legacy_path", "/user/{a}/rooms/{b}"), ("stable_path", "/user/{a}/rooms/{b}/{c}")],
        vec![
            RawItem::tagged("path", "a", "String"),
            RawItem::tagged("path", "b", "String"),
            RawItem::tagged("path", "c", "String"),
        ],
        vec![],
    );
    match compile(&three) {
        Err(CompileError::Validation {
            endpoint,
            error: ValidationError::TemplateMismatch { template, variables, fields },
        }) => {
            assert_eq!(endpoint, "some_endpoint");
            assert_eq!(template, Which::Legacy);
            assert_eq!(variables, 2);
            assert_eq!(fields, 3);
        }
        other => panic!("unexpected: {:?}", other),
    }
}

#[test]
fn path_variable_out_of_order_is_unbound() {
    let desc = describe(
        &[("stable_path", "/user/{a}/rooms/{b}")],
        vec![
            RawItem::tagged("path", "b", "String"),
            RawItem::tagged("path", "a", "String"),
        ],
        vec![],
    );
    match compile(&desc) {
        Err(CompileError::Validation {
            endpoint,
            error: ValidationError::UnboundPathVariable { template, position, variable },
        }) => {
            assert_eq!(endpoint, "some_endpoint");
            assert_eq!(template, Which::Stable);
            assert_eq!(position, 0);
            assert_eq!(variable, "a");
        }
        other => panic!("unexpected: {:?}", other),
    }
}

#[test]
fn body_conflict_is_rejected() {
    let desc = describe(
        &[("stable_path", "/x")],
        vec![
            RawItem::entry("name", "String"),
            RawItem::tagged("body", "file", "Vec<u8>"),
        ],
        vec![],
    );
    match compile(&desc) {
        Err(CompileError::Validation {
            endpoint,
            error: ValidationError::BodyConflict { block, whole, member },
        }) => {
            assert_eq!(endpoint, "some_endpoint");
            assert_eq!(block, Block::Request);
            assert_eq!(whole, "file");
            assert_eq!(member, "name");
        }
        other => panic!("unexpected: {:?}", other),
    }
    let desc = describe(
        &[("stable_path", "/x")],
        vec![],
        vec![
            RawItem::tagged("body", "file", "Vec<u8>"),
            RawItem::entry("name", "String"),
        ],
    );
    match compile(&desc) {
        Err(CompileError::Validation {
            endpoint,
            error: ValidationError::BodyConflict { block, whole, member },
        }) => {
            assert_eq!(endpoint, "some_endpoint");
            assert_eq!(block, Block::Response);
            assert_eq!(whole, "file");
            assert_eq!(member, "name");
        }
        other => panic!("unexpected: {:?}", other),
    }
}

#[test]
fn two_whole_bodies_are_rejected() {
    let desc = describe(
        &[("stable_path", "/x")],
        vec![
            RawItem::tagged("body", "first", "A"),
            RawItem::entry("name", "String"),
            RawItem::tagged("body", "second", "B"),
        ],
        vec![],
    );
    match compile(&desc) {
        Err(CompileError::Validation {
            endpoint,
            error: ValidationError::DuplicateNewtypeBody { block, first, second },
        }) => {
            assert_eq!(endpoint, "some_endpoint");
            assert_eq!(block, Block::Request);
            assert_eq!(first, "first");
            assert_eq!(second, "second");
        }
        other => panic!("unexpected: {:?}", other),
    }
}

fn parse_error(desc: &RawDescription) -> ParseError {
    match compile(desc) {
        Err(CompileError::Parse(e)) => e,
        other => panic!("unexpected: {:?}", other),
    }
}

#[test]
fn sections_at_fault() {
    let mut desc = describe(&[("stable_path", "/x")], vec![], vec![]);
    desc.sections.push(RawSection::new("extras", vec![]));
    assert_eq!(parse_error(&desc), ParseError::UnknownSection(3));
    let mut desc = describe(&[("stable_path", "/x")], vec![], vec![]);
    desc.sections.push(RawSection::new("request", vec![]));
    assert_eq!(parse_error(&desc), ParseError::DuplicateSection(3));
    let mut desc = describe(&[("stable_path", "/x")], vec![], vec![]);
    desc.sections.remove(2);
    assert_eq!(parse_error(&desc), ParseError::MissingSection(SectionKind::Response));
    desc.sections.remove(1);
    assert_eq!(parse_error(&desc), ParseError::MissingSection(SectionKind::Request));
    desc.sections.remove(0);
    assert_eq!(parse_error(&desc), ParseError::MissingSection(SectionKind::Metadata));
    let mut desc = describe(&[("stable_path", "/x")], vec![], vec![]);
    desc.sections.push(RawSection::new("error", vec![]));
    assert_eq!(parse_error(&desc), ParseError::MalformedError);
}

fn with_entry(key: &str, value: &str) -> RawDescription {
    let mut desc = describe(&[("stable_path", "/x")], vec![], vec![]);
    for item in desc.sections[0].items.iter_mut() {
        if item.name == key {
            item.value = value.to_string();
        }
    }
    desc
}

fn without_entry(key: &str) -> RawDescription {
    let mut desc = describe(&[("stable_path", "/x")], vec![], vec![]);
    desc.sections[0].items.retain(|item| item.name != key);
    desc
}

#[test]
fn metadata_at_fault() {
    assert_eq!(parse_error(&with_entry("method", "FETCH")), ParseError::InvalidValue(Key::Method));
    assert_eq!(
        parse_error(&with_entry("rate_limited", "yes")),
        ParseError::InvalidValue(Key::RateLimited)
    );
    assert_eq!(
        parse_error(&with_entry("authentication", "Password")),
        ParseError::InvalidValue(Key::Authentication)
    );
    for bad in ["1", "1.", ".1", "1.0.0", "256.0", "1.x", "", "0001.0"] {
        assert_eq!(
            parse_error(&with_entry("introduced", bad)),
            ParseError::InvalidValue(Key::Introduced),
            "{}",
            bad
        );
    }
    assert_eq!(parse_error(&without_entry("description")), ParseError::MissingKey(Key::Description));
    assert_eq!(parse_error(&without_entry("method")), ParseError::MissingKey(Key::Method));
    assert_eq!(parse_error(&without_entry("name")), ParseError::MissingKey(Key::Name));
    assert_eq!(parse_error(&without_entry("stable_path")), ParseError::MissingKey(Key::StablePath));
    assert_eq!(
        parse_error(&without_entry("rate_limited")),
        ParseError::MissingKey(Key::RateLimited)
    );
    assert_eq!(
        parse_error(&without_entry("authentication")),
        ParseError::MissingKey(Key::Authentication)
    );
    assert_eq!(parse_error(&without_entry("introduced")), ParseError::MissingKey(Key::Introduced));
    let mut desc = describe(&[("stable_path", "/x")], vec![], vec![]);
    desc.sections[0].items.push(RawItem::entry("colour", "red"));
    assert_eq!(parse_error(&desc), ParseError::UnknownKey(7));
    let mut desc = describe(&[("stable_path", "/x")], vec![], vec![]);
    desc.sections[0].items.push(RawItem::entry("name", "again"));
    assert_eq!(parse_error(&desc), ParseError::DuplicateKey(7));
    let mut desc = describe(&[("stable_path", "/x")], vec![], vec![]);
    desc.sections[0].items.push(RawItem::entry("deprecated", "soon"));
    assert_eq!(parse_error(&desc), ParseError::InvalidValue(Key::Deprecated));
    let mut desc = describe(&[("stable_path", "/x")], vec![], vec![]);
    desc.sections[0].items.push(RawItem::entry("removed", "1.300"));
    assert_eq!(parse_error(&desc), ParseError::InvalidValue(Key::Removed));
}

#[test]
fn fields_at_fault() {
    let cases: Vec<(RawItem, Block)> = vec![
        (RawItem::entry("1abc", "String"), Block::Request),
        (RawItem::entry("", "String"), Block::Request),
        (RawItem::entry("name", ""), Block::Request),
        (RawItem::tagged("cookie", "name", "String"), Block::Request),
        (RawItem::tagged("path", "name", "String"), Block::Response),
        (RawItem::tagged("query", "name", "String"), Block::Response),
    ];
    for (item, block) in cases {
        let (request, response) = match block {
            Block::Request => (vec![RawItem::entry("ok", "u8"), item], vec![]),
            Block::Response => (vec![], vec![RawItem::entry("ok", "u8"), item]),
        };
        let desc = describe(&[("stable_path", "/x")], request, response);
        assert_eq!(parse_error(&desc), ParseError::MalformedField(block, 1));
    }
    let mut two = RawItem::tagged("path", "name", "String");
    two.attrs.push("query".to_string());
    let desc = describe(&[("stable_path", "/x")], vec![two], vec![]);
    assert_eq!(parse_error(&desc), ParseError::MalformedField(Block::Request, 0));
    let desc = describe(
        &[("stable_path", "/x")],
        vec![
            RawItem::entry("a", "u8"),
            RawItem::entry("b", "u8"),
            RawItem::tagged("query", "a", "u8"),
        ],
        vec![],
    );
    assert_eq!(parse_error(&desc), ParseError::DuplicateField(Block::Request, 2));
}

#[test]
fn metadata_is_carried() {
    let mut desc = describe(
        &[("legacy_path", "/r0/x"), ("stable_path", "/v3/x")],
        vec![],
        vec![],
    );
    desc.sections[0].items.push(RawItem::entry("deprecated", "1.2"));
    desc.sections[0].items.push(RawItem::entry("removed", "2.11"));
    desc.sections.push(RawSection::new("error", vec![RawItem::entry("", "crate::Error")]));
    let def = must_compile(&desc);
    let m = def.metadata();
    assert_eq!(m.description, "Does something.");
    assert_eq!(m.method, Method::Get);
    assert_eq!(m.name, "some_endpoint");
    assert_eq!(m.legacy_path.as_deref(), Some("/r0/x"));
    assert_eq!(m.stable_path.as_deref(), Some("/v3/x"));
    assert!(!m.rate_limited);
    assert_eq!(m.authentication, Authentication::NoAuthentication);
    assert_eq!(m.introduced, Version { major: 1, minor: 0 });
    assert_eq!(m.deprecated, Some(Version { major: 1, minor: 2 }));
    assert_eq!(m.removed, Some(Version { major: 2, minor: 11 }));
    assert_eq!(def.error_type().as_deref(), Some("crate::Error"));
    let none = vec![];
    assert_eq!(encode_request(&def, Precedence::StableFirst, &none).path, "/v3/x");
    assert_eq!(encode_request(&def, Precedence::LegacyFirst, &none).path, "/r0/x");
}

#[test]
fn roles_are_assigned() {
    let def = some_endpoint();
    let fields = def.request_fields();
    let roles: Vec<(&str, Location, bool)> =
        fields.iter().map(|f| (f.name.as_str(), f.location, f.required)).collect();
    assert_eq!(
        roles,
        vec![
            ("foo", Location::BodyMember, true),
            ("content_type", Location::Header, true),
            ("bar", Location::Query, true),
            ("baz", Location::Path, true),
            ("note", Location::BodyMember, false),
            ("limit", Location::Query, false),
        ]
    );
}

fn some_request() -> Vec<FieldValue> {
    vec![
        FieldValue::Json(json("\"hello\"")),
        FieldValue::Text("application/json".into()),
        FieldValue::Text("b a r".into()),
        FieldValue::Text("seg".into()),
        FieldValue::Absent,
        FieldValue::Text("10".into()),
    ]
}

fn same_values(a: &[FieldValue], b: &[FieldValue]) -> bool {
    a.len() == b.len()
        && a.iter().zip(b.iter()).all(|(x, y)| match (x, y) {
            (FieldValue::Absent, FieldValue::Absent) => true,
            (FieldValue::Text(s), FieldValue::Text(t)) => s == t,
            (FieldValue::Json(s), FieldValue::Json(t)) => s.to_bytes() == t.to_bytes(),
            _ => false,
        })
}

#[test]
fn request_is_encoded() {
    let def = some_endpoint();
    let values = some_request();
    assert!(check_fits(def.request_fields(), &values));
    let wire = encode_request(&def, Precedence::StableFirst, &values);
    assert_eq!(wire.method, Method::Get);
    assert_eq!(wire.path, "/_matrix/some/endpoint/seg");
    let query: Vec<(&str, &str)> =
        wire.query.iter().map(|p| (p.name.as_str(), p.value.as_str())).collect();
    assert_eq!(query, vec![("bar", "b a r"), ("limit", "10")]);
    let headers: Vec<(&str, &str)> =
        wire.headers.iter().map(|p| (p.name.as_str(), p.value.as_str())).collect();
    assert_eq!(headers, vec![("content_type", "application/json")]);
    assert_eq!(wire.body, Some(b"{\"foo\":\"hello\"}".to_vec()));
}

#[test]
fn request_round_trip() {
    let def = some_endpoint();
    let values = some_request();
    let wire = encode_request(&def, Precedence::StableFirst, &values);
    let back = decode_request(&def, Precedence::StableFirst, &wire).expect("decodes");
    assert!(same_values(&values, &back));
}

#[test]
fn response_round_trip() {
    let def = some_endpoint();
    let values = vec![
        FieldValue::Text("text/plain".into()),
        FieldValue::Json(json("[1, 2]")),
        FieldValue::Json(json("null")),
    ];
    assert!(check_fits(def.response_fields(), &values));
    let wire = encode_response(&def, &values);
    assert_eq!(wire.status, 200);
    assert_eq!(wire.body, Some(b"{\"value\":[1, 2],\"extra\":null}".to_vec()));
    let back = decode_response(&def, &wire).expect("decodes");
    assert!(same_values(&values, &back));
}

#[test]
fn absent_member_is_omitted_and_read_as_absent() {
    let def = some_endpoint();
    let values = vec![
        FieldValue::Text("text/plain".into()),
        FieldValue::Json(json("1")),
        FieldValue::Absent,
    ];
    let wire = encode_response(&def, &values);
    assert_eq!(wire.body, Some(b"{\"value\":1}".to_vec()));
    let back = decode_response(&def, &wire).expect("decodes");
    assert!(matches!(back[2], FieldValue::Absent));
    assert!(same_values(&values, &back));
}

#[test]
fn values_that_do_not_fit() {
    let def = some_endpoint();
    let mut values = some_request();
    values[0] = FieldValue::Absent;
    assert!(!check_fits(def.request_fields(), &values));
    let mut values = some_request();
    values[3] = FieldValue::Json(json("1"));
    assert!(!check_fits(def.request_fields(), &values));
    let mut values = some_request();
    values.pop();
    assert!(!check_fits(def.request_fields(), &values));
    let mut values = some_request();
    values[5] = FieldValue::Absent;
    assert!(check_fits(def.request_fields(), &values));
}

fn wire_request(path: &str, query: &[(&str, &str)], headers: &[(&str, &str)], body: Option<&str>) -> WireRequest {
    let pairs = |ps: &[(&str, &str)]| {
        ps.iter().map(|(n, v)| Pair { name: n.to_string(), value: v.to_string() }).collect()
    };
    WireRequest {
        method: Method::Get,
        path: path.to_string(),
        query: pairs(query),
        headers: pairs(headers),
        body: body.map(|b| b.as_bytes().to_vec()),
    }
}

#[test]
fn decode_errors() {
    let def = some_endpoint();
    let prec = Precedence::StableFirst;
    let good_q = [("bar", "x")];
    let good_h = [("content_type", "t")];
    let good_b = Some("{\"foo\": 1}");
    let path = "/_matrix/some/endpoint/v";
    assert!(decode_request(&def, prec, &wire_request(path, &good_q, &good_h, good_b)).is_ok());
    assert!(matches!(
        decode_request(&def, prec, &wire_request("/_matrix/some/v", &good_q, &good_h, good_b)),
        Err(DecodeError::PathMismatch)
    ));
    assert!(matches!(
        decode_request(&def, prec, &wire_request(path, &good_q, &good_h, None)),
        Err(DecodeError::InvalidBody)
    ));
    assert!(matches!(
        decode_request(&def, prec, &wire_request(path, &good_q, &good_h, Some("[1]"))),
        Err(DecodeError::InvalidBody)
    ));
    assert!(matches!(
        decode_request(&def, prec, &wire_request(path, &good_q, &good_h, Some("{\"foo\": "))),
        Err(DecodeError::InvalidBody)
    ));
    assert!(matches!(
        decode_request(&def, prec, &wire_request(path, &[], &good_h, good_b)),
        Err(DecodeError::MissingQuery(n)) if n == "bar"
    ));
    assert!(matches!(
        decode_request(&def, prec, &wire_request(path, &good_q, &[], good_b)),
        Err(DecodeError::MissingHeader(n)) if n == "content_type"
    ));
    assert!(matches!(
        decode_request(&def, prec, &wire_request(path, &good_q, &good_h, Some("{\"note\": 1}"))),
        Err(DecodeError::MissingMember(n)) if n == "foo"
    ));
}

#[test]
fn decode_takes_values_from_the_wire() {
    let def = some_endpoint();
    let wire = wire_request(
        "/_matrix/some/endpoint/v",
        &[("bar", "first"), ("other", "o"), ("bar", "last")],
        &[("content_type", "t")],
        Some(" { \"unknown\": true, \"foo\" : {\"a\": [1, 2]} } "),
    );
    let values = decode_request(&def, Precedence::StableFirst, &wire).expect("decodes");
    assert_eq!(bytes(&values[0]), b"{\"a\": [1, 2]}".to_vec());
    assert_eq!(text(&values[1]), "t");
    assert_eq!(text(&values[2]), "last");
    assert_eq!(text(&values[3]), "v");
    assert!(matches!(values[4], FieldValue::Absent));
    assert!(matches!(values[5], FieldValue::Absent));
}

#[test]
fn error_status_goes_to_the_error_decoder() {
    let mut desc = describe(&[("stable_path", "/x")], vec![], vec![RawItem::entry("value", "u8")]);
    desc.sections.push(RawSection::new("error", vec![RawItem::entry("", "crate::Error")]));
    let def = must_compile(&desc);
    let response = |status: u16, body: Option<&str>| WireResponse {
        status,
        headers: vec![],
        body: body.map(|b| b.as_bytes().to_vec()),
    };
    match receive(&def, &response(404, Some("{\"errcode\":\"M_NOT_FOUND\"}"))) {
        Err(Failure::Domain(e)) => {
            assert_eq!(e.status, 404);
            assert_eq!(e.error_type.as_deref(), Some("crate::Error"));
            assert_eq!(e.payload.to_bytes(), b"{\"errcode\":\"M_NOT_FOUND\"}".to_vec());
        }
        other => panic!("unexpected: {:?}", other),
    }
    match receive(&def, &response(400, Some("{\"value\":1}"))) {
        Err(Failure::Domain(e)) => assert_eq!(e.status, 400),
        other => panic!("unexpected: {:?}", other),
    }
    assert!(matches!(
        receive(&def, &response(500, Some("<html>"))),
        Err(Failure::Decode(DecodeError::InvalidBody))
    ));
    assert!(matches!(
        receive(&def, &response(500, None)),
        Err(Failure::Decode(DecodeError::InvalidBody))
    ));
    match receive(&def, &response(399, Some("{\"value\":1}"))) {
        Ok(values) => assert_eq!(bytes(&values[0]), b"1".to_vec()),
        other => panic!("unexpected: {:?}", other),
    }
    assert!(matches!(
        receive(&def, &response(200, Some("{}"))),
        Err(Failure::Decode(DecodeError::MissingMember(n))) if n == "value"
    ));
}

#[test]
fn json_values() {
    assert!(RawJson::parse("{\"x\":1}").is_some());
    assert!(RawJson::parse(" [1, 2] ").is_some());
    assert!(RawJson::parse("").is_none());
    assert!(RawJson::parse("{\"x\":").is_none());
    assert!(RawJson::parse("1 2").is_none());
    assert_eq!(RawJson::object(&vec![]).to_bytes(), b"{}".to_vec());
    let text = "a \"quoted\" \\ text\n";
    assert_eq!(RawJson::string(text).to_bytes(), b"\"a \\\"quoted\\\" \\\\ text\\n\"".to_vec());
    assert_eq!(RawJson::string(text).as_string().as_deref(), Some(text));
    assert_eq!(json("12").as_string(), None);
    assert_eq!(RawJson::number(0).to_bytes(), b"0".to_vec());
    assert_eq!(RawJson::number(9007199254740991).to_bytes(), b"9007199254740991".to_vec());
    assert_eq!(json(" 42 ").as_number(), Some(42));
    assert_eq!(json("-1").as_number(), None);
    assert_eq!(json("\"42\"").as_number(), None);
    let items = vec![json("1"), json("\"two\""), json("[3]")];
    assert_eq!(RawJson::array(&items).to_bytes(), b"[1,\"two\",[3]]".to_vec());
    let back = json("[1, \"two\", [3]]").items().expect("an array");
    let back: Vec<Vec<u8>> = back.iter().map(|j| j.to_bytes()).collect();
    assert_eq!(back, vec![b"1".to_vec(), b"\"two\"".to_vec(), b"[3]".to_vec()]);
    assert!(json("{}").items().is_none());
    let members = json("{\"b\": 1, \"a\": [2]}").members().expect("an object");
    let members: Vec<(String, Vec<u8>)> =
        members.iter().map(|m| (m.key.clone(), m.value.to_bytes())).collect();
    assert_eq!(
        members,
        vec![("a".to_string(), b"[2]".to_vec()), ("b".to_string(), b"1".to_vec())]
    );
    assert!(json("[1]").members().is_none());
}

#[test]
fn account_data_scenario() {
    let desc = RawDescription {
        sections: vec![
            RawSection::new(
                "metadata",
                vec![
                    RawItem::entry("description", "Associate account data with a room."),
                    RawItem::entry("method", "PUT"),
                    RawItem::entry("name", "set_room_account_data"),
                    RawItem::entry(
                        "stable_path",
                        "/user/{user_id}/rooms/{room_id}/account_data/{event_type}",
                    ),
                    RawItem::entry("rate_limited", "false"),
                    RawItem::entry("authentication", "AccessToken"),
                    RawItem::entry("introduced", "1.0"),
                ],
            ),
            RawSection::new(
                "request",
                vec![
                    RawItem::tagged("body", "data", "RawJsonValue"),
                    RawItem::tagged("path", "user_id", "UserId"),
                    RawItem::tagged("path", "room_id", "RoomId"),
                    RawItem::tagged("path", "event_type", "String"),
                ],
            ),
            RawSection::new("response", vec![]),
        ],
    };
    let def = must_compile(&desc);
    let request = Request::new(&json("{\"x\":1}"), "m.custom", "!abc:example.org", "@alice:example.org");
    let wire = request.encode(&def, Precedence::StableFirst).expect("fits");
    assert_eq!(wire.method, Method::Put);
    assert_eq!(wire.path, "/user/@alice:example.org/rooms/!abc:example.org/account_data/m.custom");
    assert_eq!(wire.body, Some(b"{\"x\":1}".to_vec()));
    assert!(wire.query.is_empty());
    assert!(wire.headers.is_empty());
    let back = Request::decode(&def, Precedence::StableFirst, &wire).expect("decodes");
    assert_eq!(back.data.to_bytes(), b"{\"x\":1}".to_vec());
    assert_eq!(back.event_type, "m.custom");
    assert_eq!(back.room_id, "!abc:example.org");
    assert_eq!(back.user_id, "@alice:example.org");
    let response = Response::new().encode(&def).expect("fits");
    assert_eq!(response.status, 200);
    assert_eq!(response.body, Some(b"{}".to_vec()));
    assert!(Response::decode(&def, &response).is_ok());
    let empty = WireResponse { status: 200, headers: vec![], body: Some(b"{}".to_vec()) };
    assert!(Response::decode(&def, &empty).is_ok());
}

#[test]
fn account_data_fields_in_another_order_are_rejected() {
    let desc = describe(
        &[("stable_path", "/user/{user_id}/rooms/{room_id}/account_data/{event_type}")],
        vec![
            RawItem::tagged("path", "room_id", "RoomId"),
            RawItem::tagged("path", "event_type", "String"),
            RawItem::tagged("path", "user_id", "UserId"),
            RawItem::tagged("body", "data", "RawJsonValue"),
        ],
        vec![],
    );
    assert!(matches!(
        compile(&desc),
        Err(CompileError::Validation {
            error: ValidationError::UnboundPathVariable { position: 0, .. },
            ..
        })
    ));
}

#[test]
fn account_data_endpoint_as_described() {
    let def = endpoint().expect("compiles");
    assert_eq!(description().sections.len(), 4);
    assert_eq!(def.metadata().authentication, Authentication::AccessToken);
    let request = Request::new(&json("{\"x\":1}"), "m.custom", "!abc:example.org", "@alice:example.org");
    let stable = request.encode(&def, Precedence::StableFirst).expect("fits");
    assert_eq!(
        stable.path,
        "/_matrix/client/v3/user/@alice:example.org/rooms/!abc:example.org/account_data/m.custom"
    );
    let legacy = request.encode(&def, Precedence::LegacyFirst).expect("fits");
    assert_eq!(
        legacy.path,
        "/_matrix/client/r0/user/@alice:example.org/rooms/!abc:example.org/account_data/m.custom"
    );
    assert!(matches!(
        Request::decode(&def, Precedence::StableFirst, &legacy),
        Err(DecodeError::PathMismatch)
    ));
    let back = Request::decode(&def, Precedence::LegacyFirst, &legacy).expect("decodes");
    assert_eq!(back.user_id, "@alice:example.org");
    let mut bad = stable;
    bad.body = Some(b"{\"x\":".to_vec());
    assert!(matches!(
        Request::decode(&def, Precedence::StableFirst, &bad),
        Err(DecodeError::InvalidBody)
    ));
}

#[test]
fn roles_are_counted() {
    let def = some_endpoint();
    assert_eq!(
        count_roles(def.request_fields()),
        RoleCounts { path: 1, query: 2, header: 1, body_member: 2, newtype_body: 0 }
    );
    assert_eq!(
        count_roles(def.response_fields()),
        RoleCounts { path: 0, query: 0, header: 1, body_member: 2, newtype_body: 0 }
    );
}

#[test]
fn classify_on_its_own() {
    let field = |name: &str, ty: &str, tag: Option<Tag>| ParsedField {
        name: name.to_string(),
        ty: ty.to_string(),
        tag,
    };
    let fields = classify(
        Block::Request,
        &vec![
            field("a", "Option<String>", Some(Tag::Path)),
            field("b", "Option<String>", Some(Tag::Header)),
            field("c", "Option<String>", Some(Tag::Query)),
            field("d", "Option <String>", None),
            field("e", "Option<>", None),
            field("f", "Option<", None),
            field("g", "Option<T", None),
            field("h", "Option<Vec<u8>>", Some(Tag::Body)),
        ],
    );
    match fields {
        Err(ValidationError::BodyConflict { whole, member, .. }) => {
            assert_eq!(whole, "h");
            assert_eq!(member, "d");
        }
        other => panic!("unexpected: {:?}", other),
    }
    let fields = classify(
        Block::Response,
        &vec![
            field("a", "Option<String>", Some(Tag::Path)),
            field("b", "Option<String>", Some(Tag::Header)),
            field("c", "Option<String>", Some(Tag::Query)),
            field("d", "Option <String>", None),
            field("e", "Option<>", None),
            field("f", "Option<", None),
            field("g", "Option<T", None),
        ],
    )
    .expect("classifies");
    let seen: Vec<(Location, bool)> = fields.iter().map(|f| (f.location, f.required)).collect();
    assert_eq!(
        seen,
        vec![
            (Location::Path, true),
            (Location::Header, true),
            (Location::Query, false),
            (Location::BodyMember, true),
            (Location::BodyMember, false),
            (Location::BodyMember, true),
            (Location::BodyMember, true),
        ]
    );
}

#[test]
fn valid_values_have_no_slash_in_a_path_field() {
    let def = some_endpoint();
    let values = some_request();
    assert!(check_valid(def.request_fields(), &values));
    let mut values = some_request();
    values[3] = FieldValue::Text("a/b".into());
    assert!(check_fits(def.request_fields(), &values));
    assert!(!check_valid(def.request_fields(), &values));
    let wire = encode_request(&def, Precedence::StableFirst, &values);
    assert_eq!(wire.path, "/_matrix/some/endpoint/a/b");
    assert!(matches!(
        decode_request(&def, Precedence::StableFirst, &wire),
        Err(DecodeError::PathMismatch)
    ));
    let mut values = some_request();
    values[2] = FieldValue::Text("a/b".into());
    values[3] = FieldValue::Text(String::new());
    assert!(check_valid(def.request_fields(), &values));
    let wire = encode_request(&def, Precedence::StableFirst, &values);
    assert_eq!(wire.path, "/_matrix/some/endpoint/");
    let back = decode_request(&def, Precedence::StableFirst, &wire).expect("decodes");
    assert!(same_values(&values, &back));
    let mut values = some_request();
    values[0] = FieldValue::Absent;
    assert!(!check_valid(def.request_fields(), &values));
}

#[test]
fn parts_round_trip() {
    let def = some_endpoint();
    let values = some_request();
    let parts = encode_request_parts(&def, Precedence::StableFirst, &values);
    assert_eq!(parts.path, "/_matrix/some/endpoint/seg");
    match &parts.payload {
        Payload::Object(ms) => {
            assert_eq!(ms.len(), 1);
            assert_eq!(ms[0].key, "foo");
            assert_eq!(ms[0].value.to_bytes(), b"\"hello\"".to_vec());
        }
        other => panic!("unexpected: {:?}", other),
    }
    let back = decode_request_parts(&def, Precedence::StableFirst, &parts).expect("decodes");
    assert!(same_values(&values, &back));
    let values = vec![
        FieldValue::Text("text/plain".into()),
        FieldValue::Json(json("1")),
        FieldValue::Absent,
    ];
    let parts = encode_response_parts(&def, &values);
    assert_eq!(parts.status, 200);
    let back = decode_response_parts(&def, &parts).expect("decodes");
    assert!(same_values(&values, &back));
    let mut wrong = encode_response_parts(&def, &values);
    wrong.payload = Payload::Empty;
    assert!(matches!(decode_response_parts(&def, &wrong), Err(DecodeError::InvalidBody)));
}

#[test]
fn request_without_body_fields_has_no_body() {
    let def = must_compile(&describe(
        &[("stable_path", "/x")],
        vec![RawItem::tagged("query", "q", "Option<String>")],
        vec![],
    ));
    let wire = encode_request(&def, Precedence::StableFirst, &vec![FieldValue::Absent]);
    assert_eq!(wire.body, None);
    assert!(wire.query.is_empty());
    let mut with_body = encode_request(&def, Precedence::StableFirst, &vec![FieldValue::Absent]);
    with_body.body = Some(b"not json".to_vec());
    let back = decode_request(&def, Precedence::StableFirst, &with_body).expect("decodes");
    assert!(matches!(back[0], FieldValue::Absent));
    let def = must_compile(&describe(
        &[("stable_path", "/x")],
        vec![RawItem::entry("note", "Option<String>")],
        vec![],
    ));
    let wire = encode_request(&def, Precedence::StableFirst, &vec![FieldValue::Absent]);
    assert_eq!(wire.body, Some(b"{}".to_vec()));
}

#[test]
fn checked_encoding_gives_what_decodes_to_the_values() {
    let def = some_endpoint();
    let values = some_request();
    let wire = encode_request_checked(&def, Precedence::StableFirst, &values).expect("returns");
    assert_eq!(wire.path, "/_matrix/some/endpoint/seg");
    assert_eq!(wire.body, Some(b"{\"foo\":\"hello\"}".to_vec()));
    let back = decode_request(&def, Precedence::StableFirst, &wire).expect("decodes");
    assert!(same_values(&values, &back));
    let values = vec![
        FieldValue::Text("text/plain".into()),
        FieldValue::Json(json("[1, 2]")),
        FieldValue::Json(json("null")),
    ];
    let wire = encode_response_checked(&def, &values).expect("returns");
    assert_eq!(wire.body, Some(b"{\"value\":[1, 2],\"extra\":null}".to_vec()));
    let back = decode_response(&def, &wire).expect("decodes");
    assert!(same_values(&values, &back));
}

#[test]
fn checked_encoding_refuses_what_does_not_come_back() {
    let def = some_endpoint();
    let mut values = some_request();
    values[3] = FieldValue::Text("a/b".into());
    assert!(encode_request_checked(&def, Precedence::StableFirst, &values).is_none());
    let mut values = some_request();
    values[0] = FieldValue::Json(json(" \"padded\" "));
    assert!(encode_request_checked(&def, Precedence::StableFirst, &values).is_none());
    let wire = encode_request(&def, Precedence::StableFirst, &values);
    let back = decode_request(&def, Precedence::StableFirst, &wire).expect("decodes");
    assert_eq!(bytes(&back[0]), b"\"padded\"".to_vec());
    let mut values = some_request();
    values.pop();
    assert!(encode_request_checked(&def, Precedence::StableFirst, &values).is_none());
    let values = vec![FieldValue::Text("t".into()), FieldValue::Absent, FieldValue::Absent];
    assert!(encode_response_checked(&def, &values).is_none());
    let whole = must_compile(&describe(
        &[("stable_path", "/x")],
        vec![RawItem::tagged("body", "data", "RawJsonValue")],
        vec![RawItem::tagged("body", "data", "RawJsonValue")],
    ));
    let values = vec![FieldValue::Json(json(" {\"x\": 1} "))];
    let wire = encode_request_checked(&whole, Precedence::StableFirst, &values).expect("returns");
    assert_eq!(wire.body, Some(b" {\"x\": 1} ".to_vec()));
    let wire = encode_response_checked(&whole, &values).expect("returns");
    assert_eq!(wire.body, Some(b" {\"x\": 1} ".to_vec()));
    let back = decode_response(&whole, &wire).expect("decodes");
    assert!(same_values(&values, &back));
}

#[test]
fn comparing_bytes_and_members() {
    assert!(same_bytes(b"", b""));
    assert!(same_bytes(b"abc", b"abc"));
    assert!(!same_bytes(b"abc", b"abd"));
    assert!(!same_bytes(b"abc", b"ab"));
    let m = |k: &str, v: &str| Member { key: k.to_string(), value: json(v) };
    assert!(lookups_agree(&vec![], &vec![]));
    assert!(lookups_agree(&vec![m("a", "1"), m("b", "2")], &vec![m("b", "2"), m("a", "1")]));
    assert!(lookups_agree(&vec![m("a", "0"), m("a", "1")], &vec![m("a", "1")]));
    assert!(!lookups_agree(&vec![m("a", "1"), m("a", "0")], &vec![m("a", "1")]));
    assert!(!lookups_agree(&vec![m("a", "1")], &vec![m("a", "1"), m("b", "2")]));
    assert!(!lookups_agree(&vec![m("a", "1"), m("b", "2")], &vec![m("a", "1")]));
    assert!(!lookups_agree(&vec![m("a", "1")], &vec![m("a", "2")]));
}
