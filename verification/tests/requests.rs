use waygate::client::{HttpClientOption, default_headers};
use waygate::codec::interpret_response;
use waygate::config::{ConfigEntry, ConfigValue, parse_interface_config};
use waygate::error::Error;
use waygate::expand::method::MethodCtx;
use waygate::http::Method;
use waygate::json::render_json_param;
use waygate::param::{ParamKind, ParamMeta, TypeShape};
use waygate::request::{build_request, json_body, substitute_path, try_build_request};
use waygate::value::{ArgValue, ParamValue, ScalarValue, param_headers, query_pairs,
    scalar_to_string};

fn s(t: &str) -> String {
    t.to_string()
}

fn meta(ident: &str, shape: Option<TypeShape>, kind: ParamKind) -> ParamMeta {
    ParamMeta { ident: s(ident), shape, kind }
}

fn ctx(
    method: Method,
    path: &str,
    route_headers: Vec<(String, String)>,
    timeout_ms: Option<u64>,
    params: Vec<ParamMeta>,
) -> MethodCtx {
    MethodCtx {
        sig_ident: s("call"),
        method,
        endpoint: Some(s("https://httpbin.org")),
        path: s(path),
        route_headers,
        timeout_ms,
        params,
    }
}

fn text(t: &str) -> ArgValue {
    ArgValue::Scalar(ScalarValue::Text(s(t)))
}

fn num(i: i64) -> ArgValue {
    ArgValue::Scalar(ScalarValue::Integer(i))
}

#[test]
fn scalar_values_stringify() {
    assert_eq!(scalar_to_string(&ScalarValue::Text(s("rust"))), "rust");
    assert_eq!(scalar_to_string(&ScalarValue::Integer(-5)), "-5");
    assert_eq!(scalar_to_string(&ScalarValue::Boolean(true)), "true");
    assert_eq!(scalar_to_string(&ScalarValue::Boolean(false)), "false");
}

#[test]
fn unnamed_structured_query_flattens_its_fields() {
    // method GET /get with an unnamed structured Query parameter
    let q = meta("q", Some(TypeShape::Structured), ParamKind::Query(None));
    let c = ctx(Method::GET, "/get", vec![], None, vec![q]);
    let args = vec![ParamValue::Single(ArgValue::Object(vec![
        (s("q"), ScalarValue::Text(s("rust"))),
        (s("page"), ScalarValue::Integer(1)),
    ]))];
    let plan = build_request("https://httpbin.org", &vec![], &c, &args).unwrap();
    assert_eq!(plan.verb, Method::GET);
    assert_eq!(plan.url, "https://httpbin.org/get?q=rust&page=1");
    assert_eq!(plan.body, None);
}

#[test]
fn json_bound_parameter_becomes_the_body() {
    // method POST /post with a Json-bound parameter
    let body = meta("body", Some(TypeShape::Structured), ParamKind::Json);
    let c = ctx(Method::POST, "/post", vec![], None, vec![body]);
    let args = vec![ParamValue::Single(ArgValue::Object(vec![
        (s("name"), ScalarValue::Text(s("Ferris"))),
    ]))];
    let plan = build_request("https://httpbin.org", &vec![], &c, &args).unwrap();
    assert_eq!(plan.verb, Method::POST);
    assert_eq!(plan.url, "https://httpbin.org/post");
    assert_eq!(plan.body, Some(s("{\"name\":\"Ferris\"}")));
}

#[test]
fn path_substitution_and_header_binding() {
    // method GET /anything/{id} with id = 42 and a bound header
    let id = meta("id", Some(TypeShape::Integer), ParamKind::Path);
    let trace = meta("trace", Some(TypeShape::Text), ParamKind::Header(Some(s("X-Trace-Id"))));
    let c = ctx(Method::GET, "/anything/{id}", vec![], None, vec![id, trace]);
    let args = vec![ParamValue::Single(num(42)), ParamValue::Single(text("trace-123"))];
    let plan = build_request("https://httpbin.org", &vec![], &c, &args).unwrap();
    assert_eq!(plan.url, "https://httpbin.org/anything/42");
    assert_eq!(plan.headers, vec![(s("X-Trace-Id"), s("trace-123"))]);
}

#[test]
fn substitute_path_replaces_in_declaration_order() {
    let id = meta("id", Some(TypeShape::Integer), ParamKind::Path);
    let args = vec![ParamValue::Single(num(42))];
    assert_eq!(substitute_path("/anything/{id}", &vec![id], &args), "/anything/42");
}

#[test]
fn empty_optional_contributes_no_query_entries() {
    let page = meta(
        "page",
        Some(TypeShape::Optional(Box::new(TypeShape::Integer))),
        ParamKind::Query(None),
    );
    let params = vec![page];
    let absent = vec![ParamValue::Optional(None)];
    assert_eq!(query_pairs(&params, &absent), vec![]);

    let present = vec![ParamValue::Optional(Some(num(2)))];
    assert_eq!(query_pairs(&params, &present), vec![(s("page"), s("2"))]);
}

#[test]
fn many_scalar_query_repeats_the_key_in_source_order() {
    let tag = meta("tag", Some(TypeShape::Many(Box::new(TypeShape::Text))), ParamKind::Query(None));
    let params = vec![tag];
    let args = vec![ParamValue::Many(vec![text("a"), text("b"), text("c")])];
    assert_eq!(
        query_pairs(&params, &args),
        vec![(s("tag"), s("a")), (s("tag"), s("b")), (s("tag"), s("c"))]
    );

    let tag = meta("tag", Some(TypeShape::Many(Box::new(TypeShape::Text))), ParamKind::Query(None));
    let c = ctx(Method::GET, "/get", vec![], None, vec![tag]);
    let args = vec![ParamValue::Many(vec![text("a"), text("b"), text("c")])];
    let plan = build_request("https://httpbin.org", &vec![], &c, &args).unwrap();
    assert_eq!(plan.url, "https://httpbin.org/get?tag=a&tag=b&tag=c");
}

#[test]
fn scalar_query_round_trips_through_a_decoded_response() {
    // encode page: 1 into the query string
    let page = meta("page", Some(TypeShape::Integer), ParamKind::Query(None));
    let c = ctx(Method::GET, "/get", vec![], None, vec![page]);
    let sent = ScalarValue::Integer(1);
    let sent_text = scalar_to_string(&sent);
    let args = vec![ParamValue::Single(ArgValue::Scalar(sent))];
    let plan = build_request("https://httpbin.org", &vec![], &c, &args).unwrap();
    assert_eq!(plan.url, "https://httpbin.org/get?page=1");

    // decode a mock response echoing the query arguments
    let decoded = interpret_response(&plan.url, 200, "{\"args\":{\"page\":\"1\"}}").unwrap();
    let echoed = decoded.get("args").unwrap().get("page").unwrap().as_str().unwrap();
    assert_eq!(echoed, sent_text);
}

#[test]
fn non_2xx_status_fails_with_an_http_error() {
    let r = interpret_response("https://httpbin.org/missing", 404, "not found");
    match r {
        Err(Error::Http { url, status, body_snippet }) => {
            assert_eq!(url, "https://httpbin.org/missing");
            assert_eq!(status, 404);
            assert_eq!(body_snippet, "not found");
        },
        other => panic!("expected an Http error, got {:?}", other),
    }
}

#[test]
fn undecodable_2xx_body_fails_with_a_decode_error() {
    let r = interpret_response("https://httpbin.org/get", 200, "not-json");
    match r {
        Err(Error::Decode { url, message, body_snippet }) => {
            assert_eq!(url, "https://httpbin.org/get");
            assert_eq!(body_snippet, "not-json");
            assert!(!message.is_empty());
        },
        other => panic!("expected a Decode error, got {:?}", other),
    }
}

#[test]
fn decode_snippet_is_truncated_for_long_bodies() {
    let long = "x".repeat(500);
    match interpret_response("https://httpbin.org/get", 200, &long) {
        Err(Error::Decode { body_snippet, .. }) => {
            assert_eq!(body_snippet.chars().count(), 201);
            assert!(body_snippet.ends_with('…'));
        },
        other => panic!("expected a Decode error, got {:?}", other),
    }
}

#[test]
fn duplicate_headers_are_both_kept() {
    // interface level declares foo=bar, the method level foo=override-bar
    let entries = vec![ConfigEntry {
        key: s("headers"),
        value: ConfigValue::Pairs(vec![(s("foo"), s("bar"))]),
    }];
    let attrs = parse_interface_config(&entries).unwrap();
    let c = ctx(Method::GET, "/get", vec![(s("foo"), s("override-bar"))], None, vec![]);
    let plan = build_request("https://httpbin.org", &attrs.headers, &c, &vec![]).unwrap();
    assert_eq!(plan.headers, vec![(s("foo"), s("bar")), (s("foo"), s("override-bar"))]);
}

#[test]
fn per_method_timeout_is_taken_over() {
    let c = ctx(Method::GET, "/get", vec![], Some(13000), vec![]);
    let plan = build_request("https://httpbin.org", &vec![], &c, &vec![]).unwrap();
    assert_eq!(plan.timeout_ms, Some(13000));
}

#[test]
fn client_endpoint_is_used_when_the_method_declares_none() {
    let mut c = ctx(Method::GET, "/get", vec![], None, vec![]);
    c.endpoint = None;
    let plan = build_request("https://example.com/api/", &vec![], &c, &vec![]).unwrap();
    assert_eq!(plan.url, "https://example.com/get");
}

#[test]
fn bound_headers_come_from_present_values_only() {
    let trace = meta(
        "trace",
        Some(TypeShape::Optional(Box::new(TypeShape::Text))),
        ParamKind::Header(None),
    );
    let params = vec![trace];
    assert_eq!(param_headers(&params, &vec![ParamValue::Optional(None)]), vec![]);
    assert_eq!(
        param_headers(&params, &vec![ParamValue::Optional(Some(text("t1")))]),
        vec![(s("trace"), s("t1"))]
    );
}

#[test]
fn json_rendering_covers_every_value_shape() {
    assert_eq!(render_json_param(&ParamValue::Single(text("a\"b"))), "\"a\\\"b\"");
    assert_eq!(render_json_param(&ParamValue::Single(num(-7))), "-7");
    assert_eq!(
        render_json_param(&ParamValue::Single(ArgValue::Scalar(ScalarValue::Boolean(true)))),
        "true"
    );
    assert_eq!(render_json_param(&ParamValue::Optional(None)), "null");
    assert_eq!(
        render_json_param(&ParamValue::Many(vec![num(1), num(2)])),
        "[1,2]"
    );
    assert_eq!(
        render_json_param(&ParamValue::Single(ArgValue::Object(vec![
            (s("name"), ScalarValue::Text(s("Ferris"))),
            (s("age"), ScalarValue::Integer(3)),
        ]))),
        "{\"name\":\"Ferris\",\"age\":3}"
    );
}

#[test]
fn json_body_takes_the_first_json_parameter() {
    let a = meta("a", Some(TypeShape::Text), ParamKind::Query(None));
    let b = meta("b", Some(TypeShape::Structured), ParamKind::Json);
    let params = vec![a, b];
    let args = vec![
        ParamValue::Single(text("x")),
        ParamValue::Single(ArgValue::Object(vec![(s("k"), ScalarValue::Integer(9))])),
    ];
    assert_eq!(json_body(&params, &args), Some(s("{\"k\":9}")));

    let a = meta("a", Some(TypeShape::Text), ParamKind::Query(None));
    assert_eq!(json_body(&vec![a], &vec![ParamValue::Single(text("x"))]), None);
}

#[test]
fn client_options_take_defaults_and_validate_the_endpoint() {
    let o = HttpClientOption::with_endpoint("https://httpbin.org").unwrap();
    assert_eq!(o.endpoint, "https://httpbin.org/");
    assert_eq!(o.timeout_ms, 6000);
    assert_eq!(o.connect_timeout_ms, 6000);
    assert_eq!(o.read_timeout_ms, 6000);
    assert_eq!(o.headers, default_headers());

    assert!(matches!(
        HttpClientOption::with_endpoint("not a url"),
        Err(Error::InvalidArgument { .. })
    ));
    assert!(matches!(
        HttpClientOption::builder().build(),
        Err(Error::InvalidArgument { .. })
    ));

    let o = HttpClientOption::builder()
        .endpoint("https://httpbin.org")
        .timeout(10000)
        .connect_timeout(11000)
        .read_timeout(12000)
        .headers(vec![(s("foo"), s("bar"))])
        .build()
        .unwrap();
    assert_eq!(o.timeout_ms, 10000);
    assert_eq!(o.connect_timeout_ms, 11000);
    assert_eq!(o.read_timeout_ms, 12000);
    assert_eq!(o.headers, vec![(s("foo"), s("bar"))]);
}

#[test]
fn client_options_follow_the_interface_configuration() {
    let entries = vec![
        ConfigEntry { key: s("endpoint"), value: ConfigValue::Text(s("https://httpbin.org")) },
        ConfigEntry {
            key: s("headers"),
            value: ConfigValue::Pairs(vec![(s("foo"), s("bar"))]),
        },
        ConfigEntry { key: s("timeout"), value: ConfigValue::Number(s("10000")) },
        ConfigEntry { key: s("connect_timeout"), value: ConfigValue::Number(s("11000")) },
        ConfigEntry { key: s("read_timeout"), value: ConfigValue::Number(s("12000")) },
    ];
    let attrs = parse_interface_config(&entries).unwrap();
    let o = HttpClientOption::from_attributes(&attrs).unwrap();
    assert_eq!(o.endpoint, "https://httpbin.org/");
    assert_eq!(o.headers, vec![(s("foo"), s("bar"))]);
    assert_eq!(o.timeout_ms, 10000);
    assert_eq!(o.connect_timeout_ms, 11000);
    assert_eq!(o.read_timeout_ms, 12000);

    let no_endpoint = parse_interface_config(&vec![]).unwrap();
    assert!(matches!(
        HttpClientOption::from_attributes(&no_endpoint),
        Err(Error::InvalidArgument { .. })
    ));
}

#[test]
fn runtime_checks_guard_the_request_builder() {
    // an argument list that does not fit the descriptor is rejected
    let page = meta("page", Some(TypeShape::Integer), ParamKind::Query(None));
    let c = ctx(Method::GET, "/get", vec![], None, vec![page]);
    let wrong = vec![ParamValue::Many(vec![num(1)])];
    assert!(matches!(
        try_build_request("https://httpbin.org", &vec![], &c, &wrong),
        Err(Error::InvalidArgument { .. })
    ));

    // a descriptor that validation rejects is rejected too
    let bad = ctx(Method::GET, "", vec![], None, vec![]);
    assert!(matches!(
        try_build_request("https://httpbin.org", &vec![], &bad, &vec![]),
        Err(Error::InvalidArgument { .. })
    ));

    // a fitting call goes through unchanged
    let page = meta("page", Some(TypeShape::Integer), ParamKind::Query(None));
    let c = ctx(Method::GET, "/get", vec![], None, vec![page]);
    let args = vec![ParamValue::Single(num(1))];
    let plan = try_build_request("https://httpbin.org", &vec![], &c, &args).unwrap();
    assert_eq!(plan.url, "https://httpbin.org/get?page=1");
}

#[test]
fn a_malformed_endpoint_fails_with_a_url_parse_error() {
    let mut c = ctx(Method::GET, "/get", vec![], None, vec![]);
    c.endpoint = Some(s("not a url"));
    assert!(matches!(
        build_request("https://httpbin.org", &vec![], &c, &vec![]),
        Err(Error::UrlParse { .. })
    ));
}

#[test]
fn mixed_query_parameters_keep_the_documented_order() {
    // a structured parameter's flattened fields come first, accumulated
    // scalars follow as one trailing update
    let q = meta("q", Some(TypeShape::Structured), ParamKind::Query(None));
    let nickname = meta("nickname", Some(TypeShape::Text), ParamKind::Query(None));
    let age = meta("age", Some(TypeShape::Integer), ParamKind::Query(Some(s("age"))));
    let params = vec![q, nickname, age];
    let args = vec![
        ParamValue::Single(ArgValue::Object(vec![
            (s("q"), ScalarValue::Text(s("rust"))),
            (s("page"), ScalarValue::Integer(1)),
        ])),
        ParamValue::Single(text("ferris")),
        ParamValue::Single(num(8)),
    ];
    assert_eq!(
        query_pairs(&params, &args),
        vec![
            (s("q"), s("rust")),
            (s("page"), s("1")),
            (s("nickname"), s("ferris")),
            (s("age"), s("8")),
        ]
    );
}
