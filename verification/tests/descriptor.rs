use waygate::config::{ConfigEntry, ConfigValue, FreshAttributeParser, MethodAttrDecl,
    parse_base_url, parse_interface_config, parse_method_attr, parse_route_options};
use waygate::error::DescribeError;
use waygate::expand::fresh::{FreshExpander, MacroCall, MacroForm, MacroKind, TraitDecl, dispatch,
    strip_custom_attrs_in_trait};
use waygate::expand::method::{MethodCtx, MethodDecl, MethodExpander, Stage, expand_method_impl};
use waygate::http::Method;
use waygate::param::{Cardinality, ParamAttr, ParamDecl, ParamKind, ParamMeta, TypeShape,
    parse_param_attrs};
use waygate::strutil::{i64_to_string, normalize_header_key, parse_u64, snippet, to_ascii_lower,
    u64_to_string};
use waygate::template::{placeholders, replace_all, validate_placeholders};

fn s(t: &str) -> String {
    t.to_string()
}

fn text_entry(key: &str, value: &str) -> ConfigEntry {
    ConfigEntry { key: s(key), value: ConfigValue::Text(s(value)) }
}

fn num_entry(key: &str, value: &str) -> ConfigEntry {
    ConfigEntry { key: s(key), value: ConfigValue::Number(s(value)) }
}

fn pairs_entry(key: &str, pairs: &[(&str, &str)]) -> ConfigEntry {
    ConfigEntry {
        key: s(key),
        value: ConfigValue::Pairs(pairs.iter().map(|(k, v)| (s(k), s(v))).collect()),
    }
}

fn meta(ident: &str, shape: Option<TypeShape>, kind: ParamKind) -> ParamMeta {
    ParamMeta { ident: s(ident), shape, kind }
}

fn ctx_with(path: &str, params: Vec<ParamMeta>) -> MethodCtx {
    MethodCtx {
        sig_ident: s("call"),
        method: Method::GET,
        endpoint: Some(s("https://httpbin.org")),
        path: s(path),
        route_headers: Vec::new(),
        timeout_ms: None,
        params,
    }
}

#[test]
fn parses_decimal_numbers_exactly() {
    assert_eq!(parse_u64("13000"), Some(13000));
    assert_eq!(parse_u64("0"), Some(0));
    assert_eq!(parse_u64("18446744073709551615"), Some(u64::MAX));
    assert_eq!(parse_u64("18446744073709551616"), None);
    assert_eq!(parse_u64(""), None);
    assert_eq!(parse_u64("12x"), None);
    assert_eq!(parse_u64("-3"), None);
}

#[test]
fn renders_decimal_numbers_exactly() {
    assert_eq!(u64_to_string(0), "0");
    assert_eq!(u64_to_string(10000), "10000");
    assert_eq!(u64_to_string(u64::MAX), "18446744073709551615");
    assert_eq!(i64_to_string(-42), "-42");
    assert_eq!(i64_to_string(i64::MIN), "-9223372036854775808");
    assert_eq!(i64_to_string(7), "7");
}

#[test]
fn snippet_is_length_bounded_with_ellipsis() {
    assert_eq!(snippet("not found", 200), "not found");
    assert_eq!(snippet("abcdef", 6), "abcdef");
    assert_eq!(snippet("abcdefg", 6), "abcdef…");
    assert_eq!(snippet("", 3), "");
}

#[test]
fn normalizes_interface_header_keys() {
    assert_eq!(normalize_header_key("token_auth"), "token-auth");
    assert_eq!(normalize_header_key("User_Agent"), "user-agent");
    assert_eq!(normalize_header_key("plain"), "plain");
    assert_eq!(to_ascii_lower("GeT"), "get");
}

#[test]
fn parses_every_http_verb_case_insensitively() {
    assert_eq!(Method::from_name("get"), Some(Method::GET));
    assert_eq!(Method::from_name("POST"), Some(Method::POST));
    assert_eq!(Method::from_name("Put"), Some(Method::PUT));
    assert_eq!(Method::from_name("head"), Some(Method::HEAD));
    assert_eq!(Method::from_name("options"), Some(Method::OPTIONS));
    assert_eq!(Method::from_name("DELETE"), Some(Method::DELETE));
    assert_eq!(Method::from_name("patch"), Some(Method::PATCH));
    assert_eq!(Method::from_name("trace"), Some(Method::TRACE));
    assert_eq!(Method::from_name("fetch"), None);
    assert_eq!(Method::from_name_or_get("bogus"), Method::GET);
    assert_eq!(Method::GET.name(), "GET");
    assert_eq!(Method::PATCH.name(), "PATCH");
}

#[test]
fn classifier_resolves_cardinality_and_scalar() {
    let single = meta("a", Some(TypeShape::Text), ParamKind::Unbound);
    assert_eq!(single.cardinality(), Cardinality::Single);
    assert!(single.is_scalar());

    let opt = meta("b", Some(TypeShape::Optional(Box::new(TypeShape::Integer))), ParamKind::Unbound);
    assert_eq!(opt.cardinality(), Cardinality::Optional);
    assert!(opt.is_scalar());

    let many_structs = meta(
        "c",
        Some(TypeShape::Many(Box::new(TypeShape::Structured))),
        ParamKind::Unbound,
    );
    assert_eq!(many_structs.cardinality(), Cardinality::Many);
    assert!(!many_structs.is_scalar());

    let nested = meta(
        "d",
        Some(TypeShape::Optional(Box::new(TypeShape::Many(Box::new(TypeShape::Text))))),
        ParamKind::Unbound,
    );
    assert_eq!(nested.cardinality(), Cardinality::Optional);
    assert!(!nested.is_scalar());

    let receiver = meta("e", None, ParamKind::Unbound);
    assert_eq!(receiver.cardinality(), Cardinality::Single);
    assert!(receiver.is_scalar());
}

#[test]
fn classifies_parameter_annotations() {
    let decls = vec![
        ParamDecl { ident: s("id"), shape: Some(TypeShape::Integer), attrs: vec![ParamAttr::PathAttr] },
        ParamDecl {
            ident: s("age"),
            shape: Some(TypeShape::Integer),
            attrs: vec![ParamAttr::QueryAttr(Some(s("age")))],
        },
        ParamDecl { ident: s("body"), shape: Some(TypeShape::Structured), attrs: vec![ParamAttr::JsonAttr] },
        ParamDecl {
            ident: s("trace"),
            shape: Some(TypeShape::Text),
            attrs: vec![ParamAttr::HeaderAttr(Some(s("X-Trace-Id")))],
        },
        ParamDecl { ident: s("extra"), shape: Some(TypeShape::Text), attrs: vec![] },
        // a header annotation wins over an earlier query annotation
        ParamDecl {
            ident: s("mixed"),
            shape: Some(TypeShape::Text),
            attrs: vec![ParamAttr::QueryAttr(None), ParamAttr::HeaderAttr(None)],
        },
    ];
    let metas = parse_param_attrs(&decls);
    assert!(matches!(metas[0].kind, ParamKind::Path));
    assert!(matches!(&metas[1].kind, ParamKind::Query(Some(k)) if k == "age"));
    assert!(matches!(metas[2].kind, ParamKind::Json));
    assert!(matches!(&metas[3].kind, ParamKind::Header(Some(n)) if n == "X-Trace-Id"));
    assert!(matches!(metas[4].kind, ParamKind::Unbound));
    assert!(matches!(metas[5].kind, ParamKind::Header(None)));
    assert_eq!(metas[0].ident, "id");
}

#[test]
fn extracts_placeholders_in_order() {
    let got = placeholders("/users/{user}/posts/{post}");
    assert_eq!(got, vec![s("user"), s("post")]);
    assert_eq!(placeholders("/plain/path"), Vec::<String>::new());
    assert_eq!(placeholders("/broken/{open"), Vec::<String>::new());
}

#[test]
fn replace_substitutes_every_occurrence() {
    assert_eq!(replace_all("/a/{id}/b/{id}", "{id}", "42"), "/a/42/b/42");
    assert_eq!(replace_all("abc", "x", "y"), "abc");
    assert_eq!(replace_all("aaa", "aa", "b"), "ba");
}

#[test]
fn placeholder_and_path_parameters_must_agree() {
    let id = meta("id", Some(TypeShape::Integer), ParamKind::Path);
    assert!(validate_placeholders("/anything/{id}", &vec![id]));

    let id = meta("id", Some(TypeShape::Integer), ParamKind::Path);
    assert!(!validate_placeholders("/anything", &vec![id]));

    assert!(!validate_placeholders("/anything/{id}", &vec![]));

    let ctx = ctx_with("/anything/{id}", vec![]);
    let r = MethodExpander::new(ctx).validate();
    assert!(matches!(r, Err(DescribeError::PathPlaceholderMismatch)));

    let id = meta("id", Some(TypeShape::Integer), ParamKind::Path);
    let ctx = ctx_with("/other", vec![id]);
    let r = MethodExpander::new(ctx).validate();
    assert!(matches!(r, Err(DescribeError::PathPlaceholderMismatch)));
}

#[test]
fn validation_rejects_illegal_bindings() {
    let ctx = ctx_with("", vec![]);
    assert!(matches!(MethodExpander::new(ctx).validate(), Err(DescribeError::MissingPath)));

    let keyed = meta("q", Some(TypeShape::Structured), ParamKind::Query(Some(s("q"))));
    let ctx = ctx_with("/get", vec![keyed]);
    assert!(matches!(
        MethodExpander::new(ctx).validate(),
        Err(DescribeError::KeyedStructuredQuery { .. })
    ));

    let many = meta(
        "items",
        Some(TypeShape::Many(Box::new(TypeShape::Structured))),
        ParamKind::Query(None),
    );
    let ctx = ctx_with("/get", vec![many]);
    assert!(matches!(
        MethodExpander::new(ctx).validate(),
        Err(DescribeError::StructuredManyQuery { .. })
    ));

    let hdr = meta("h", Some(TypeShape::Structured), ParamKind::Header(None));
    let ctx = ctx_with("/get", vec![hdr]);
    assert!(matches!(
        MethodExpander::new(ctx).validate(),
        Err(DescribeError::StructuredHeader { .. })
    ));

    let hdr = meta("h", Some(TypeShape::Many(Box::new(TypeShape::Text))), ParamKind::Header(None));
    let ctx = ctx_with("/get", vec![hdr]);
    assert!(matches!(MethodExpander::new(ctx).validate(), Err(DescribeError::ManyHeader { .. })));

    let p = meta("id", Some(TypeShape::Structured), ParamKind::Path);
    let ctx = ctx_with("/x/{id}", vec![p]);
    assert!(matches!(
        MethodExpander::new(ctx).validate(),
        Err(DescribeError::NonScalarPathParam { .. })
    ));

    let j1 = meta("a", Some(TypeShape::Structured), ParamKind::Json);
    let j2 = meta("b", Some(TypeShape::Structured), ParamKind::Json);
    let ctx = ctx_with("/post", vec![j1, j2]);
    assert!(matches!(
        MethodExpander::new(ctx).validate(),
        Err(DescribeError::MultipleJsonBodies)
    ));

    let ok = meta("page", Some(TypeShape::Integer), ParamKind::Query(None));
    let ctx = ctx_with("/get", vec![ok]);
    assert!(MethodExpander::new(ctx).validate().is_ok());
}

#[test]
fn interface_configuration_parses() {
    let entries = vec![
        text_entry("endpoint", "https://httpbin.org"),
        pairs_entry("headers", &[("foo", "bar"), ("user_agent", "waygate-test")]),
        num_entry("timeout", "10000"),
        num_entry("connect_timeout", "11000"),
        num_entry("read_timeout", "12000"),
        text_entry("future_option", "ignored"),
    ];
    let attrs = parse_interface_config(&entries).unwrap();
    assert_eq!(attrs.endpoint, Some(s("https://httpbin.org")));
    assert_eq!(attrs.headers, vec![(s("foo"), s("bar")), (s("user-agent"), s("waygate-test"))]);
    assert_eq!(attrs.timeout, Some(10000));
    assert_eq!(attrs.connect_timeout, Some(11000));
    assert_eq!(attrs.read_timeout, Some(12000));

    let parser = FreshAttributeParser::new();
    let again = parser.parse(&entries).unwrap();
    assert_eq!(again.endpoint, attrs.endpoint);

    let bad = vec![num_entry("timeout", "10s")];
    assert!(matches!(
        parse_interface_config(&bad),
        Err(DescribeError::InvalidNumber { .. })
    ));
}

#[test]
fn base_url_takes_the_last_entry() {
    let entries = vec![
        text_entry("base_url", "https://first.example"),
        text_entry("other", "x"),
        text_entry("base_url", "https://second.example"),
    ];
    assert_eq!(parse_base_url(&entries), Some(s("https://second.example")));
    assert_eq!(parse_base_url(&vec![text_entry("other", "x")]), None);
}

#[test]
fn method_attr_takes_the_first_verb() {
    let attrs = vec![
        MethodAttrDecl { name: s("doc"), entries: vec![] },
        MethodAttrDecl { name: s("get"), entries: vec![text_entry("path", "/get")] },
        MethodAttrDecl { name: s("post"), entries: vec![] },
    ];
    let (verb, idx) = parse_method_attr(&attrs).unwrap();
    assert_eq!(verb, Method::GET);
    assert_eq!(idx, 1);
    assert!(parse_method_attr(&vec![MethodAttrDecl { name: s("doc"), entries: vec![] }]).is_none());
}

#[test]
fn route_options_parse() {
    let entries = vec![
        text_entry("path", "/anything/{id}"),
        pairs_entry("headers", &[("foo", "bar"), ("token_auth", "abcd1234")]),
        num_entry("timeout", "13000"),
    ];
    let route = parse_route_options(&entries).unwrap();
    assert_eq!(route.path, Some(s("/anything/{id}")));
    // method-level header keys are kept as written
    assert_eq!(route.headers[1].0, "token_auth");
    assert_eq!(route.timeout_ms, Some(13000));
    assert!(matches!(
        parse_route_options(&vec![num_entry("timeout", "nope")]),
        Err(DescribeError::InvalidNumber { .. })
    ));
}

fn sample_method_decl() -> MethodDecl {
    MethodDecl {
        ident: s("anything"),
        attrs: vec![MethodAttrDecl {
            name: s("get"),
            entries: vec![
                text_entry("path", "/anything/{id}"),
                pairs_entry("headers", &[("foo", "bar")]),
                num_entry("timeout", "13000"),
            ],
        }],
        params: vec![
            ParamDecl { ident: s("id"), shape: Some(TypeShape::Integer), attrs: vec![ParamAttr::PathAttr] },
            ParamDecl {
                ident: s("trace"),
                shape: Some(TypeShape::Text),
                attrs: vec![ParamAttr::HeaderAttr(Some(s("X-Trace-Id")))],
            },
        ],
    }
}

#[test]
fn expanding_a_method_synthesizes_the_fixed_stage_order() {
    let (ctx, stages) = expand_method_impl(&sample_method_decl(), &None).unwrap();
    assert_eq!(ctx.method, Method::GET);
    assert_eq!(ctx.path, "/anything/{id}");
    assert_eq!(ctx.timeout_ms, Some(13000));
    let expected = vec![
        Stage::Init { path_template: s("/anything/{id}"), endpoint: None },
        Stage::ReplacePathParam { index: 0 },
        Stage::RequestBuilder { verb: Method::GET },
        Stage::StaticHeader { name: s("foo"), value: s("bar") },
        Stage::ParamHeader { index: 1 },
        Stage::ApplyQueryList,
        Stage::ApplyTimeout { ms: 13000 },
        Stage::SendAndDecode,
    ];
    assert_eq!(stages, expected);
}

#[test]
fn synthesizing_twice_yields_an_identical_sequence() {
    let (_, first) = expand_method_impl(&sample_method_decl(), &None).unwrap();
    let (_, second) = expand_method_impl(&sample_method_decl(), &None).unwrap();
    assert_eq!(first, second);
}

#[test]
fn expanding_without_a_verb_or_path_fails() {
    let mut decl = sample_method_decl();
    decl.attrs[0].name = s("doc");
    assert!(matches!(expand_method_impl(&decl, &None), Err(DescribeError::MissingVerb)));

    let mut decl = sample_method_decl();
    decl.attrs[0].entries.remove(0);
    assert!(matches!(expand_method_impl(&decl, &None), Err(DescribeError::MissingPath)));

    let mut decl = sample_method_decl();
    decl.attrs[0].entries[0] = ConfigEntry { key: s("path"), value: ConfigValue::Text(s("")) };
    assert!(matches!(expand_method_impl(&decl, &None), Err(DescribeError::MissingPath)));
}

fn sample_interface() -> MacroCall {
    let entries = vec![
        text_entry("endpoint", "https://httpbin.org"),
        pairs_entry("headers", &[("foo", "bar")]),
        num_entry("timeout", "10000"),
    ];
    let search = MethodDecl {
        ident: s("search"),
        attrs: vec![MethodAttrDecl { name: s("get"), entries: vec![text_entry("path", "/get")] }],
        params: vec![ParamDecl {
            ident: s("q"),
            shape: Some(TypeShape::Structured),
            attrs: vec![ParamAttr::QueryAttr(None)],
        }],
    };
    let create_user = MethodDecl {
        ident: s("create_user"),
        attrs: vec![MethodAttrDecl { name: s("post"), entries: vec![text_entry("path", "/post")] }],
        params: vec![ParamDecl {
            ident: s("body"),
            shape: Some(TypeShape::Structured),
            attrs: vec![ParamAttr::JsonAttr],
        }],
    };
    let anything = sample_method_decl();
    let item = TraitDecl { ident: s("Api"), methods: vec![search, create_user, anything] };
    MacroCall::new(MacroKind::Request, MacroForm::Attribute { entries, item })
}

#[test]
fn expanding_an_interface_plans_every_method() {
    let plan = dispatch(sample_interface()).unwrap();
    assert_eq!(plan.attributes.endpoint, Some(s("https://httpbin.org")));
    assert_eq!(plan.methods.len(), 3);
    assert!(matches!(plan.methods[0].stages[0], Stage::Init { .. }));
    assert!(matches!(plan.methods[0].stages.last(), Some(Stage::SendAndDecode)));
    assert!(plan.methods[0].stages.contains(&Stage::QueryFlatten { index: 0 }));
    assert!(plan.methods[1].stages.contains(&Stage::JsonBody { index: 0 }));
    // every method descriptor carries the interface endpoint
    assert_eq!(plan.methods[2].ctx.endpoint, Some(s("https://httpbin.org")));
}

#[test]
fn expander_reports_the_first_failing_method() {
    let call = sample_interface();
    let MacroForm::Attribute { entries, mut item } = call.form;
    item.methods[1].attrs[0].name = s("doc");
    let expander = FreshExpander;
    let call = MacroCall::new(MacroKind::Request, MacroForm::Attribute { entries, item });
    assert!(matches!(expander.expand(call), Err(DescribeError::MissingVerb)));
}

#[test]
fn stripping_removes_recognized_annotations() {
    let call = sample_interface();
    let MacroForm::Attribute { entries: _, mut item } = call.form;
    item.methods[2].attrs.push(MethodAttrDecl { name: s("doc"), entries: vec![] });
    item.methods[2].params[0].attrs.push(ParamAttr::OtherAttr);
    strip_custom_attrs_in_trait(&mut item);
    assert_eq!(item.ident, "Api");
    assert_eq!(item.methods.len(), 3);
    assert_eq!(item.methods[0].attrs.len(), 0);
    assert_eq!(item.methods[2].attrs.len(), 1);
    assert_eq!(item.methods[2].attrs[0].name, "doc");
    assert_eq!(item.methods[2].params[0].attrs.len(), 1);
    assert!(matches!(item.methods[2].params[0].attrs[0], ParamAttr::OtherAttr));
    assert_eq!(item.methods[2].params[0].ident, "id");
}

#[test]
fn the_stage_chain_matches_one_shot_expansion() {
    let (ctx, stages) = expand_method_impl(&sample_method_decl(), &None).unwrap();
    let chained = MethodExpander::new(ctx)
        .validate()
        .unwrap()
        .stage_init()
        .stage_replace_path_params()
        .stage_request_builder()
        .stage_apply_static_headers()
        .stage_apply_param_headers()
        .stage_apply_query()
        .stage_apply_json()
        .stage_apply_timeout()
        .stage_send_and_denser()
        .finish();
    assert_eq!(chained, stages);
}
