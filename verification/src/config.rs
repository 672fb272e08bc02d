//! Descriptor parser: interface-level and method-level configuration
//! entries, parsed into typed descriptor values.

use vstd::prelude::*;
use vstd::string::*;
use crate::error::DescribeError;
use crate::http::{Method, spec_method_from_name};
use crate::strutil::{normalize_header_key, parse_u64, spec_norm_key, spec_parse_u64};

verus! {

/// The value of one configuration entry: a string literal, the text of an
/// integer literal, or a parenthesized `key = value` list.
#[derive(Debug)]
pub enum ConfigValue {
    Text(String),
    Number(String),
    Pairs(Vec<(String, String)>),
}

/// One `key = value` (or `key(...)`) entry of an annotation.
#[derive(Debug)]
pub struct ConfigEntry {
    pub key: String,
    pub value: ConfigValue,
}

/// The parsed interface-level configuration.
#[derive(Debug)]
pub struct FreshAttributes {
    /// The base endpoint URL, when declared.
    pub endpoint: Option<String>,
    /// The default headers, keys normalized, in declaration order.
    pub headers: Vec<(String, String)>,
    /// The default request timeout in milliseconds, when declared.
    pub timeout: Option<u64>,
    /// The default connect timeout in milliseconds, when declared.
    pub connect_timeout: Option<u64>,
    /// The default read timeout in milliseconds, when declared.
    pub read_timeout: Option<u64>,
}

/// The interface-level configuration, seen through views.
pub struct IfaceView {
    pub endpoint: Option<Seq<char>>,
    pub headers: Seq<(Seq<char>, Seq<char>)>,
    pub timeout: Option<u64>,
    pub connect_timeout: Option<u64>,
    pub read_timeout: Option<u64>,
}

/// The view of a parsed interface configuration.
pub open spec fn spec_attrs_view(a: FreshAttributes) -> IfaceView {
    IfaceView {
        endpoint: match a.endpoint {
            Some(e) => Some(e@),
            None => None,
        },
        headers: crate::value::pairs_view(a.headers@),
        timeout: a.timeout,
        connect_timeout: a.connect_timeout,
        read_timeout: a.read_timeout,
    }
}

/// The header pairs of one `headers(...)` list, keys normalized.
pub open spec fn spec_norm_pairs(ps: Seq<(String, String)>) -> Seq<(Seq<char>, Seq<char>)> {
    ps.map_values(|p: (String, String)| (spec_norm_key(p.0@), p.1@))
}

/// One step of interface-configuration parsing. Recognized keys are
/// `endpoint`, `headers`, `timeout`, `connect_timeout` and `read_timeout`;
/// an unrecognized key, or a recognized key with an unexpected value shape,
/// is silently ignored. A numeric option that is not a decimal number that
/// fits 64 bits fails with `InvalidNumber`.
pub open spec fn spec_iface_step(st: IfaceView, e: ConfigEntry) -> Result<
    IfaceView,
    DescribeError,
> {
    if e.key@ == "endpoint"@ {
        match e.value {
            ConfigValue::Text(v) => Ok(IfaceView { endpoint: Some(v@), ..st }),
            _ => Ok(st),
        }
    } else if e.key@ == "headers"@ {
        match e.value {
            ConfigValue::Pairs(ps) => Ok(
                IfaceView { headers: st.headers + spec_norm_pairs(ps@), ..st },
            ),
            _ => Ok(st),
        }
    } else if e.key@ == "timeout"@ {
        match e.value {
            ConfigValue::Number(t) => match spec_parse_u64(t@) {
                Some(v) => Ok(IfaceView { timeout: Some(v), ..st }),
                None => Err(DescribeError::InvalidNumber { key: e.key }),
            },
            _ => Ok(st),
        }
    } else if e.key@ == "connect_timeout"@ {
        match e.value {
            ConfigValue::Number(t) => match spec_parse_u64(t@) {
                Some(v) => Ok(IfaceView { connect_timeout: Some(v), ..st }),
                None => Err(DescribeError::InvalidNumber { key: e.key }),
            },
            _ => Ok(st),
        }
    } else if e.key@ == "read_timeout"@ {
        match e.value {
            ConfigValue::Number(t) => match spec_parse_u64(t@) {
                Some(v) => Ok(IfaceView { read_timeout: Some(v), ..st }),
                None => Err(DescribeError::InvalidNumber { key: e.key }),
            },
            _ => Ok(st),
        }
    } else {
        Ok(st)
    }
}

/// The empty interface configuration.
pub open spec fn spec_iface_init() -> IfaceView {
    IfaceView {
        endpoint: None,
        headers: Seq::empty(),
        timeout: None,
        connect_timeout: None,
        read_timeout: None,
    }
}

/// Interface-configuration parsing over a whole entry list, left to right,
/// stopping at the first failing entry.
pub open spec fn spec_iface_fold(es: Seq<ConfigEntry>) -> Result<IfaceView, DescribeError>
    decreases es.len(),
{
    if es.len() == 0 {
        Ok(spec_iface_init())
    } else {
        match spec_iface_fold(es.drop_last()) {
            Err(e) => Err(e),
            Ok(st) => spec_iface_step(st, es.last()),
        }
    }
}

fn norm_append(out: &mut Vec<(String, String)>, ps: &Vec<(String, String)>)
    ensures
        crate::value::pairs_view(final(out)@) == crate::value::pairs_view(old(out)@)
            + spec_norm_pairs(ps@),
{
    let mut j: usize = 0;
    while j < ps.len()
        invariant
            j <= ps@.len(),
            crate::value::pairs_view(out@) == crate::value::pairs_view(old(out)@)
                + spec_norm_pairs(ps@.take(j as int)),
        decreases ps@.len() - j,
    {
        let ghost prev = out@;
        out.push((normalize_header_key(ps[j].0.as_str()), ps[j].1.clone()));
        proof {
            assert(crate::value::pairs_view(out@) =~= crate::value::pairs_view(prev).push(
                (spec_norm_key(ps@[j as int].0@), ps@[j as int].1@),
            ));
            assert(spec_norm_pairs(ps@.take(j + 1 as int)) =~= spec_norm_pairs(
                ps@.take(j as int),
            ).push((spec_norm_key(ps@[j as int].0@), ps@[j as int].1@)));
            assert(crate::value::pairs_view(prev).push(
                (spec_norm_key(ps@[j as int].0@), ps@[j as int].1@),
            ) =~= crate::value::pairs_view(old(out)@) + spec_norm_pairs(ps@.take(j + 1 as int)));
        }
        j = j + 1;
    }
    proof {
        assert(ps@.take(ps@.len() as int) =~= ps@);
    }
}

/// Parses the interface-level configuration: `endpoint`, repeated
/// `headers(...)` lists with key normalization, and the three millisecond
/// timeouts. Unrecognized keys are ignored; a bad number fails.
#[verifier::loop_isolation(false)]
pub fn parse_interface_config(entries: &Vec<ConfigEntry>) -> (r: Result<
    FreshAttributes,
    DescribeError,
>)
    ensures
        match r {
            Ok(a) => spec_iface_fold(entries@) == Ok::<IfaceView, DescribeError>(
                spec_attrs_view(a),
            ),
            Err(e) => spec_iface_fold(entries@) == Err::<IfaceView, DescribeError>(e),
        },
{
    let mut endpoint: Option<String> = None;
    let mut headers: Vec<(String, String)> = Vec::new();
    let mut timeout: Option<u64> = None;
    let mut connect_timeout: Option<u64> = None;
    let mut read_timeout: Option<u64> = None;
    let key_endpoint = String::from_str("endpoint");
    let key_headers = String::from_str("headers");
    let key_timeout = String::from_str("timeout");
    let key_connect = String::from_str("connect_timeout");
    let key_read = String::from_str("read_timeout");
    let mut i: usize = 0;
    proof {
        assert(entries@.take(0) =~= Seq::<ConfigEntry>::empty());
        assert(crate::value::pairs_view(headers@) =~= Seq::<(Seq<char>, Seq<char>)>::empty());
    }
    while i < entries.len()
        invariant
            i <= entries@.len(),
            key_endpoint@ == "endpoint"@,
            key_headers@ == "headers"@,
            key_timeout@ == "timeout"@,
            key_connect@ == "connect_timeout"@,
            key_read@ == "read_timeout"@,
            spec_iface_fold(entries@.take(i as int)) == Ok::<IfaceView, DescribeError>(
                IfaceView {
                    endpoint: match endpoint {
                        Some(e) => Some(e@),
                        None => None,
                    },
                    headers: crate::value::pairs_view(headers@),
                    timeout: timeout,
                    connect_timeout: connect_timeout,
                    read_timeout: read_timeout,
                },
            ),
        decreases entries@.len() - i,
    {
        proof {
            assert(entries@.take(i + 1 as int).drop_last() =~= entries@.take(i as int));
            assert(entries@.take(i + 1 as int).last() == entries@[i as int]);
        }
        let e = &entries[i];
        if String::eq(&e.key, &key_endpoint) {
            match &e.value {
                ConfigValue::Text(v) => {
                    endpoint = Some(v.clone());
                },
                _ => {},
            }
        } else if String::eq(&e.key, &key_headers) {
            match &e.value {
                ConfigValue::Pairs(ps) => {
                    norm_append(&mut headers, ps);
                },
                _ => {},
            }
        } else if String::eq(&e.key, &key_timeout) {
            match &e.value {
                ConfigValue::Number(t) => match parse_u64(t.as_str()) {
                    Some(v) => {
                        timeout = Some(v);
                    },
                    None => {
                        proof {
                            lemma_iface_fold_err(entries@, i + 1);
                        }
                        return Err(DescribeError::InvalidNumber { key: e.key.clone() });
                    },
                },
                _ => {},
            }
        } else if String::eq(&e.key, &key_connect) {
            match &e.value {
                ConfigValue::Number(t) => match parse_u64(t.as_str()) {
                    Some(v) => {
                        connect_timeout = Some(v);
                    },
                    None => {
                        proof {
                            lemma_iface_fold_err(entries@, i + 1);
                        }
                        return Err(DescribeError::InvalidNumber { key: e.key.clone() });
                    },
                },
                _ => {},
            }
        } else if String::eq(&e.key, &key_read) {
            match &e.value {
                ConfigValue::Number(t) => match parse_u64(t.as_str()) {
                    Some(v) => {
                        read_timeout = Some(v);
                    },
                    None => {
                        proof {
                            lemma_iface_fold_err(entries@, i + 1);
                        }
                        return Err(DescribeError::InvalidNumber { key: e.key.clone() });
                    },
                },
                _ => {},
            }
        }
        i = i + 1;
    }
    proof {
        assert(entries@.take(entries@.len() as int) =~= entries@);
    }
    Ok(FreshAttributes { endpoint, headers, timeout, connect_timeout, read_timeout })
}

proof fn lemma_iface_fold_err(es: Seq<ConfigEntry>, k: int)
    requires
        0 <= k <= es.len(),
        spec_iface_fold(es.take(k)) is Err,
    ensures
        spec_iface_fold(es) == spec_iface_fold(es.take(k)),
    decreases es.len() - k,
{
    if k < es.len() {
        assert(es.take(k + 1).drop_last() =~= es.take(k));
        lemma_iface_fold_err(es, k + 1);
    } else {
        assert(es.take(k) =~= es);
    }
}

/// What `parse_base_url` finds: the value of the last `base_url` entry with
/// a string value, if any.
pub open spec fn spec_base_url(es: Seq<ConfigEntry>) -> Option<Seq<char>>
    decreases es.len(),
{
    if es.len() == 0 {
        None
    } else if es.last().key@ == "base_url"@ && es.last().value is Text {
        Some(es.last().value->Text_0@)
    } else {
        spec_base_url(es.drop_last())
    }
}

/// Reads the interface-level `base_url` option from an entry list; a later
/// entry wins, other keys are ignored.
#[verifier::loop_isolation(false)]
pub fn parse_base_url(entries: &Vec<ConfigEntry>) -> (r: Option<String>)
    ensures
        match r {
            Some(s) => spec_base_url(entries@) == Some(s@),
            None => spec_base_url(entries@) is None,
        },
{
    let key_base = String::from_str("base_url");
    let mut out: Option<String> = None;
    let mut i: usize = 0;
    proof {
        assert(entries@.take(0) =~= Seq::<ConfigEntry>::empty());
    }
    while i < entries.len()
        invariant
            i <= entries@.len(),
            match out {
                Some(s) => spec_base_url(entries@.take(i as int)) == Some(s@),
                None => spec_base_url(entries@.take(i as int)) is None,
            },
        decreases entries@.len() - i,
    {
        proof {
            assert(entries@.take(i + 1 as int).drop_last() =~= entries@.take(i as int));
            assert(entries@.take(i + 1 as int).last() == entries@[i as int]);
        }
        let e = &entries[i];
        if String::eq(&e.key, &key_base) {
            match &e.value {
                ConfigValue::Text(v) => {
                    out = Some(v.clone());
                },
                _ => {},
            }
        }
        i = i + 1;
    }
    proof {
        assert(entries@.take(entries@.len() as int) =~= entries@);
    }
    out
}

/// One method-level annotation: its name and its entries.
#[derive(Debug)]
pub struct MethodAttrDecl {
    pub name: String,
    pub entries: Vec<ConfigEntry>,
}

/// The index of the first annotation whose name is an HTTP verb, or -1.
pub open spec fn spec_first_verb(attrs: Seq<MethodAttrDecl>) -> int
    decreases attrs.len(),
{
    if attrs.len() == 0 {
        -1
    } else if spec_method_from_name(attrs[0].name@) is Some {
        0
    } else {
        let r = spec_first_verb(attrs.skip(1));
        if r == -1 {
            -1
        } else {
            r + 1
        }
    }
}

/// Finds the method's HTTP-verb annotation: the first annotation whose name
/// parses as a verb, case-insensitively. Returns the verb and the
/// annotation's index.
#[verifier::loop_isolation(false)]
pub fn parse_method_attr(attrs: &Vec<MethodAttrDecl>) -> (r: Option<(Method, usize)>)
    ensures
        match r {
            None => spec_first_verb(attrs@) == -1,
            Some(p) => {
                &&& p.1 < attrs@.len()
                &&& spec_first_verb(attrs@) == p.1
                &&& spec_method_from_name(attrs@[p.1 as int].name@) == Some(p.0)
            },
        },
{
    let mut i: usize = 0;
    proof {
        assert(attrs@.skip(0) =~= attrs@);
    }
    while i < attrs.len()
        invariant
            i <= attrs@.len(),
            spec_first_verb(attrs@) == -1 <==> spec_first_verb(attrs@.skip(i as int)) == -1,
            spec_first_verb(attrs@.skip(i as int)) != -1 ==> spec_first_verb(attrs@)
                == spec_first_verb(attrs@.skip(i as int)) + i,
        decreases attrs@.len() - i,
    {
        proof {
            assert(attrs@.skip(i as int)[0] == attrs@[i as int]);
            assert(attrs@.skip(i as int).skip(1) =~= attrs@.skip(i + 1 as int));
        }
        match Method::from_name(attrs[i].name.as_str()) {
            Some(m) => {
                assert(spec_first_verb(attrs@.skip(i as int)) == 0);
                return Some((m, i));
            },
            None => {
                proof {
                    lemma_first_verb_bounds(attrs@.skip(i + 1 as int));
                }
            },
        }
        i = i + 1;
    }
    proof {
        assert(attrs@.skip(attrs@.len() as int) =~= Seq::<MethodAttrDecl>::empty());
    }
    None
}

proof fn lemma_route_fold_err(es: Seq<ConfigEntry>, k: int)
    requires
        0 <= k <= es.len(),
        spec_route_fold(es.take(k)) is Err,
    ensures
        spec_route_fold(es) == spec_route_fold(es.take(k)),
    decreases es.len() - k,
{
    if k < es.len() {
        assert(es.take(k + 1).drop_last() =~= es.take(k));
        lemma_route_fold_err(es, k + 1);
    } else {
        assert(es.take(k) =~= es);
    }
}

proof fn lemma_first_verb_bounds(attrs: Seq<MethodAttrDecl>)
    ensures
        spec_first_verb(attrs) == -1 || 0 <= spec_first_verb(attrs) < attrs.len(),
    decreases attrs.len(),
{
    if attrs.len() > 0 && !(spec_method_from_name(attrs[0].name@) is Some) {
        lemma_first_verb_bounds(attrs.skip(1));
    }
}

/// The parsed method-level route options.
#[derive(Debug)]
pub struct RouteConfig {
    /// The path template; required, checked by validation.
    pub path: Option<String>,
    /// The method-level headers, in declaration order, keys as written.
    pub headers: Vec<(String, String)>,
    /// The per-method timeout in milliseconds, when declared.
    pub timeout_ms: Option<u64>,
}

/// The route options, seen through views.
pub struct RouteView {
    pub path: Option<Seq<char>>,
    pub headers: Seq<(Seq<char>, Seq<char>)>,
    pub timeout_ms: Option<u64>,
}

/// The view of parsed route options.
pub open spec fn spec_route_view(r: RouteConfig) -> RouteView {
    RouteView {
        path: match r.path {
            Some(p) => Some(p@),
            None => None,
        },
        headers: crate::value::pairs_view(r.headers@),
        timeout_ms: r.timeout_ms,
    }
}

/// One step of route-option parsing. Recognized keys: `path` (string),
/// `headers` (pair list, keys kept as written), `timeout` (milliseconds).
/// Unrecognized keys, and recognized keys with an unexpected value shape,
/// are ignored.
pub open spec fn spec_route_step(st: RouteView, e: ConfigEntry) -> Result<
    RouteView,
    DescribeError,
> {
    if e.key@ == "path"@ {
        match e.value {
            ConfigValue::Text(v) => Ok(RouteView { path: Some(v@), ..st }),
            _ => Ok(st),
        }
    } else if e.key@ == "headers"@ {
        match e.value {
            ConfigValue::Pairs(ps) => Ok(
                RouteView { headers: st.headers + crate::value::pairs_view(ps@), ..st },
            ),
            _ => Ok(st),
        }
    } else if e.key@ == "timeout"@ {
        match e.value {
            ConfigValue::Number(t) => match spec_parse_u64(t@) {
                Some(v) => Ok(RouteView { timeout_ms: Some(v), ..st }),
                None => Err(DescribeError::InvalidNumber { key: e.key }),
            },
            _ => Ok(st),
        }
    } else {
        Ok(st)
    }
}

/// Route-option parsing over a whole entry list, left to right, stopping at
/// the first failing entry.
pub open spec fn spec_route_fold(es: Seq<ConfigEntry>) -> Result<RouteView, DescribeError>
    decreases es.len(),
{
    if es.len() == 0 {
        Ok(RouteView { path: None, headers: Seq::empty(), timeout_ms: None })
    } else {
        match spec_route_fold(es.drop_last()) {
            Err(e) => Err(e),
            Ok(st) => spec_route_step(st, es.last()),
        }
    }
}

/// Appends a copy of each (name, value) pair, preserving order, duplicates
/// and the very string values.
pub fn copy_pairs(out: &mut Vec<(String, String)>, ps: &Vec<(String, String)>)
    ensures
        final(out)@ == old(out)@ + ps@,
{
    let mut j: usize = 0;
    while j < ps.len()
        invariant
            j <= ps@.len(),
            out@ == old(out)@ + ps@.take(j as int),
        decreases ps@.len() - j,
    {
        out.push((ps[j].0.clone(), ps[j].1.clone()));
        proof {
            assert(ps@.take(j + 1 as int).drop_last() =~= ps@.take(j as int));
            assert(ps@.take(j + 1 as int).last() == ps@[j as int]);
            assert(out@ =~= old(out)@ + ps@.take(j + 1 as int));
        }
        j = j + 1;
    }
    proof {
        assert(ps@.take(ps@.len() as int) =~= ps@);
    }
}

/// A pair list's views distribute over concatenation.
pub proof fn lemma_pairs_view_concat(a: Seq<(String, String)>, b: Seq<(String, String)>)
    ensures
        crate::value::pairs_view(a + b) == crate::value::pairs_view(a) + crate::value::pairs_view(
            b,
        ),
{
    assert(crate::value::pairs_view(a + b) =~= crate::value::pairs_view(a)
        + crate::value::pairs_view(b));
}

/// The `path` value the route options resolve to: the last `path` entry
/// with a string value, as the very string declared.
pub open spec fn spec_route_path_val(es: Seq<ConfigEntry>) -> Option<String>
    decreases es.len(),
{
    if es.len() == 0 {
        None
    } else if es.last().key@ == "path"@ && es.last().value is Text {
        Some(es.last().value->Text_0)
    } else {
        spec_route_path_val(es.drop_last())
    }
}

/// The method-level header pairs, concatenated in declaration order, as the
/// very string values declared.
pub open spec fn spec_route_pairs_val(es: Seq<ConfigEntry>) -> Seq<(String, String)>
    decreases es.len(),
{
    if es.len() == 0 {
        Seq::empty()
    } else {
        spec_route_pairs_val(es.drop_last()) + (if es.last().key@ == "headers"@ && es.last().value
            is Pairs {
            es.last().value->Pairs_0@
        } else {
            Seq::empty()
        })
    }
}

/// Parses the options of one method-level annotation: `path`, `headers`
/// and `timeout`. Unrecognized keys are ignored; a bad number fails.
#[verifier::loop_isolation(false)]
pub fn parse_route_options(entries: &Vec<ConfigEntry>) -> (r: Result<RouteConfig, DescribeError>)
    ensures
        match r {
            Ok(a) => {
                &&& spec_route_fold(entries@) == Ok::<RouteView, DescribeError>(spec_route_view(a))
                &&& a.path == spec_route_path_val(entries@)
                &&& a.headers@ == spec_route_pairs_val(entries@)
            },
            Err(e) => spec_route_fold(entries@) == Err::<RouteView, DescribeError>(e),
        },
{
    let mut path: Option<String> = None;
    let mut headers: Vec<(String, String)> = Vec::new();
    let mut timeout_ms: Option<u64> = None;
    let key_path = String::from_str("path");
    let key_headers = String::from_str("headers");
    let key_timeout = String::from_str("timeout");
    let mut i: usize = 0;
    proof {
        reveal_strlit("path");
        reveal_strlit("headers");
        reveal_strlit("timeout");
        assert("path"@.len() == 4);
        assert("headers"@.len() == 7);
        assert(entries@.take(0) =~= Seq::<ConfigEntry>::empty());
        assert(crate::value::pairs_view(headers@) =~= Seq::<(Seq<char>, Seq<char>)>::empty());
    }
    while i < entries.len()
        invariant
            i <= entries@.len(),
            "path"@ != "headers"@,
            key_path@ == "path"@,
            key_headers@ == "headers"@,
            key_timeout@ == "timeout"@,
            path == spec_route_path_val(entries@.take(i as int)),
            headers@ == spec_route_pairs_val(entries@.take(i as int)),
            spec_route_fold(entries@.take(i as int)) == Ok::<RouteView, DescribeError>(
                RouteView {
                    path: match path {
                        Some(p) => Some(p@),
                        None => None,
                    },
                    headers: crate::value::pairs_view(headers@),
                    timeout_ms: timeout_ms,
                },
            ),
        decreases entries@.len() - i,
    {
        proof {
            assert(entries@.take(i + 1 as int).drop_last() =~= entries@.take(i as int));
            assert(entries@.take(i + 1 as int).last() == entries@[i as int]);
        }
        let e = &entries[i];
        if String::eq(&e.key, &key_path) {
            match &e.value {
                ConfigValue::Text(v) => {
                    path = Some(v.clone());
                },
                _ => {},
            }
        } else if String::eq(&e.key, &key_headers) {
            match &e.value {
                ConfigValue::Pairs(ps) => {
                    let ghost prev = headers@;
                    copy_pairs(&mut headers, ps);
                    proof {
                        lemma_pairs_view_concat(prev, ps@);
                    }
                },
                _ => {},
            }
        } else if String::eq(&e.key, &key_timeout) {
            match &e.value {
                ConfigValue::Number(t) => match parse_u64(t.as_str()) {
                    Some(v) => {
                        timeout_ms = Some(v);
                    },
                    None => {
                        proof {
                            lemma_route_fold_err(entries@, i + 1);
                        }
                        return Err(DescribeError::InvalidNumber { key: e.key.clone() });
                    },
                },
                _ => {},
            }
        }
        proof {
            if !(entries@[i as int].key@ == "headers"@ && entries@[i as int].value is Pairs) {
                assert(spec_route_pairs_val(entries@.take(i + 1 as int)) =~= spec_route_pairs_val(
                    entries@.take(i as int),
                ));
            }
        }
        i = i + 1;
    }
    proof {
        assert(entries@.take(entries@.len() as int) =~= entries@);
    }
    Ok(RouteConfig { path, headers, timeout_ms })
}

/// The interface-level annotation parser.
#[derive(Debug)]
pub struct FreshAttributeParser;

impl FreshAttributeParser {
    /// Makes a parser; the parser itself carries no state.
    pub fn new() -> (r: FreshAttributeParser) {
        FreshAttributeParser {  }
    }

    /// Parses interface-level attributes; same contract as
    /// `parse_interface_config`.
    pub fn parse(&self, entries: &Vec<ConfigEntry>) -> (r: Result<
        FreshAttributes,
        DescribeError,
    >)
        ensures
            match r {
                Ok(a) => spec_iface_fold(entries@) == Ok::<IfaceView, DescribeError>(
                    spec_attrs_view(a),
                ),
                Err(e) => spec_iface_fold(entries@) == Err::<IfaceView, DescribeError>(e),
            },
    {
        parse_interface_config(entries)
    }
}

} // verus!
