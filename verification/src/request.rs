//! Call-time request construction: executing a validated descriptor's stage
//! sequence on concrete argument values yields one concrete request plan.

use vstd::prelude::*;
use vstd::string::*;
use crate::error::{DescribeError, Error};
use crate::expand::method::{MethodCtx, spec_first_json, spec_validate, validate_ctx};
use crate::http::Method;
use crate::param::{ParamKind, ParamMeta};
use crate::strutil::push_char;
use crate::template::spec_replace;
use crate::urlio::{resolve_url, set_url_query, url_accepts, url_join_of, url_join_ok,
    url_with_query_of};
use crate::value::{ParamValue, ArgValue, args_match, pairs_view, param_headers, query_pairs,
    scalar_to_string, spec_args_match, spec_param_headers, spec_query_pairs, spec_value_str};
use crate::json::{render_json_param, spec_json_param};

verus! {

/// One concrete request, ready for a transport: verb, full URL with query,
/// ordered headers (duplicates preserved), optional JSON body text, and an
/// optional per-call timeout.
#[derive(Debug)]
pub struct RequestPlan {
    pub verb: Method,
    pub url: String,
    pub headers: Vec<(String, String)>,
    pub body: Option<String>,
    pub timeout_ms: Option<u64>,
}

/// The `{name}` placeholder pattern of an identifier.
pub open spec fn spec_placeholder_pat(id: Seq<char>) -> Seq<char> {
    seq!['{'] + id + seq!['}']
}

/// The path template after substituting every Path-bound parameter's
/// textual value for its placeholder, in declaration order.
pub open spec fn spec_substituted(path: Seq<char>, ps: Seq<ParamMeta>, vs: Seq<ParamValue>) -> Seq<
    char,
>
    decreases ps.len(),
{
    if ps.len() == 0 {
        path
    } else {
        let prev = spec_substituted(path, ps.drop_last(), vs);
        if ps.last().kind is Path {
            let v = vs[ps.len() - 1];
            let text = match v {
                ParamValue::Single(val) => spec_value_str(val),
                _ => Seq::empty(),
            };
            spec_replace(prev, spec_placeholder_pat(ps.last().ident@), text)
        } else {
            prev
        }
    }
}

fn placeholder_pat(id: &String) -> (r: String)
    ensures
        r@ == spec_placeholder_pat(id@),
{
    let mut p = String::new();
    push_char(&mut p, '{');
    p.append(id.as_str());
    push_char(&mut p, '}');
    proof {
        assert(p@ =~= spec_placeholder_pat(id@));
    }
    p
}

/// Substitutes every Path-bound parameter into the path template, each
/// occurrence of its `{identifier}` placeholder replaced by the value's
/// text, in declaration order.
#[verifier::loop_isolation(false)]
pub fn substitute_path(path: &str, params: &Vec<ParamMeta>, args: &Vec<ParamValue>) -> (r: String)
    requires
        spec_args_match(params@, args@),
    ensures
        r@ == spec_substituted(path@, params@, args@),
{
    let mut cur = String::from_str(path);
    let mut i: usize = 0;
    proof {
        assert(params@.take(0) =~= Seq::<ParamMeta>::empty());
    }
    while i < params.len()
        invariant
            i <= params@.len() == args@.len(),
            cur@ == spec_substituted(path@, params@.take(i as int), args@),
        decreases params@.len() - i,
    {
        proof {
            assert(params@.take(i + 1 as int).drop_last() =~= params@.take(i as int));
            assert(params@.take(i + 1 as int).last() == params@[i as int]);
        }
        let is_path = match &params[i].kind {
            ParamKind::Path => true,
            _ => false,
        };
        if is_path {
            let pat = placeholder_pat(&params[i].ident);
            let text = match &args[i] {
                ParamValue::Single(ArgValue::Scalar(sv)) => scalar_to_string(sv),
                _ => String::new(),
            };
            assert(pat@.len() > 0);
            cur = crate::template::replace_all(cur.as_str(), pat.as_str(), text.as_str());
        }
        i = i + 1;
    }
    proof {
        assert(params@.take(params@.len() as int) =~= params@);
    }
    cur
}

/// The base the call resolves its path against: the descriptor's declared
/// endpoint, else the owning client's configured endpoint.
pub open spec fn spec_effective_endpoint(ctx: MethodCtx, client_endpoint: Seq<char>) -> Seq<char> {
    match ctx.endpoint {
        Some(e) => e@,
        None => client_endpoint,
    }
}

/// The full request URL of one call: the substituted path resolved against
/// the effective endpoint, with the call's query pairs appended when there
/// are any.
pub open spec fn spec_request_url(
    ctx: MethodCtx,
    client_endpoint: Seq<char>,
    vs: Seq<ParamValue>,
) -> Seq<char> {
    let base = spec_effective_endpoint(ctx, client_endpoint);
    let path = spec_substituted(ctx.path@, ctx.params@, vs);
    let pairs = spec_query_pairs(ctx.params@, vs);
    if pairs.len() == 0 {
        url_join_of(base, path)
    } else {
        url_with_query_of(url_join_of(base, path), pairs)
    }
}

/// Whether the url crate accepts this call's URL work: the substituted
/// path resolves against the effective endpoint, and, when there are query
/// pairs, the resolved URL is accepted again for the query update.
pub open spec fn spec_url_ok(ctx: MethodCtx, client_endpoint: Seq<char>, vs: Seq<ParamValue>) -> bool {
    let base = spec_effective_endpoint(ctx, client_endpoint);
    let path = spec_substituted(ctx.path@, ctx.params@, vs);
    &&& url_join_ok(base, path)
    &&& (spec_query_pairs(ctx.params@, vs).len() > 0 ==> url_accepts(url_join_of(base, path)))
}

/// Whether a plan is exactly the request that the descriptor and the
/// argument values describe: the stage sequence's verb, URL, header list,
/// body and timeout.
pub open spec fn spec_plan_ok(
    plan: RequestPlan,
    ctx: MethodCtx,
    client_endpoint: Seq<char>,
    defaults: Seq<(Seq<char>, Seq<char>)>,
    vs: Seq<ParamValue>,
) -> bool {
    &&& plan.verb == ctx.method
    &&& plan.url@ == spec_request_url(ctx, client_endpoint, vs)
    &&& pairs_view(plan.headers@) == defaults + pairs_view(ctx.route_headers@)
        + spec_param_headers(ctx.params@, vs)
    &&& match plan.body {
        Some(b) => spec_first_json(ctx.params@) >= 0 && b@ == spec_json_param(
            vs[spec_first_json(ctx.params@)],
        ),
        None => spec_first_json(ctx.params@) == -1,
    }
    &&& plan.timeout_ms == ctx.timeout_ms
}

/// Executes stages one through eight of a validated descriptor on concrete
/// argument values: the substituted path is resolved against the effective
/// endpoint, the query pairs are appended as one update, the headers are
/// the client defaults, then the method headers, then the parameter-bound
/// headers, in order and without deduplication, the first Json-bound
/// parameter (if any) becomes the body text, and the method timeout is
/// taken over. Succeeds exactly when the url crate accepts the URL work,
/// and fails only with a UrlParse error.
#[verifier::loop_isolation(false)]
pub fn build_request(
    client_endpoint: &str,
    default_headers: &Vec<(String, String)>,
    ctx: &MethodCtx,
    args: &Vec<ParamValue>,
) -> (r: Result<RequestPlan, Error>)
    requires
        spec_validate(*ctx) == Ok::<(), DescribeError>(()),
        spec_args_match(ctx.params@, args@),
    ensures
        r is Ok <==> spec_url_ok(*ctx, client_endpoint@, args@),
        match r {
            Ok(plan) => spec_plan_ok(
                plan,
                *ctx,
                client_endpoint@,
                pairs_view(default_headers@),
                args@,
            ),
            Err(e) => e is UrlParse,
        },
{
    let path = substitute_path(ctx.path.as_str(), &ctx.params, args);
    let base = match &ctx.endpoint {
        Some(e) => e.as_str(),
        None => client_endpoint,
    };
    let url0 = match resolve_url(base, path.as_str()) {
        Ok(u) => u,
        Err(m) => {
            return Err(Error::UrlParse { message: m });
        },
    };
    let pairs = query_pairs(&ctx.params, args);
    let url = if pairs.len() > 0 {
        match set_url_query(url0.as_str(), &pairs) {
            Ok(u) => u,
            Err(m) => {
                return Err(Error::UrlParse { message: m });
            },
        }
    } else {
        url0
    };
    let mut headers: Vec<(String, String)> = Vec::new();
    crate::config::copy_pairs(&mut headers, default_headers);
    crate::config::copy_pairs(&mut headers, &ctx.route_headers);
    let bound = param_headers(&ctx.params, args);
    crate::config::copy_pairs(&mut headers, &bound);
    proof {
        assert(pairs_view(headers@) =~= pairs_view(default_headers@) + pairs_view(
            ctx.route_headers@,
        ) + spec_param_headers(ctx.params@, args@));
    }
    let body = json_body(&ctx.params, args);
    Ok(RequestPlan { verb: ctx.method, url, headers, body, timeout_ms: ctx.timeout_ms })
}

/// Builds the request for any descriptor and argument list, checking both
/// at run time: a descriptor that validation rejects, and an argument list
/// that does not fit the descriptor, each fail with InvalidArgument; a URL
/// the url crate rejects fails with UrlParse; otherwise the plan is the
/// one the descriptor and the values describe, built exactly when the url
/// crate accepts the URL work.
pub fn try_build_request(
    client_endpoint: &str,
    default_headers: &Vec<(String, String)>,
    ctx: &MethodCtx,
    args: &Vec<ParamValue>,
) -> (r: Result<RequestPlan, Error>)
    ensures
        !(spec_validate(*ctx) is Ok) ==> (r matches Err(e) && e is InvalidArgument),
        spec_validate(*ctx) is Ok && !spec_args_match(ctx.params@, args@) ==> (r matches Err(e)
            && e is InvalidArgument),
        spec_validate(*ctx) is Ok && spec_args_match(ctx.params@, args@) ==> {
            &&& (r is Ok <==> spec_url_ok(*ctx, client_endpoint@, args@))
            &&& match r {
                Ok(plan) => spec_plan_ok(
                    plan,
                    *ctx,
                    client_endpoint@,
                    pairs_view(default_headers@),
                    args@,
                ),
                Err(e) => e is UrlParse,
            }
        },
{
    match validate_ctx(ctx) {
        Ok(()) => {},
        Err(_) => {
            return Err(
                Error::InvalidArgument {
                    message: String::from_str("the descriptor does not validate"),
                },
            );
        },
    }
    if !args_match(&ctx.params, args) {
        return Err(
            Error::InvalidArgument {
                message: String::from_str("the arguments do not fit the descriptor"),
            },
        );
    }
    build_request(client_endpoint, default_headers, ctx, args)
}

/// Renders the body of one call: the first Json-bound parameter's value as
/// JSON text, or nothing when no parameter is Json-bound.
#[verifier::loop_isolation(false)]
pub fn json_body(params: &Vec<ParamMeta>, args: &Vec<ParamValue>) -> (r: Option<String>)
    requires
        params@.len() == args@.len(),
    ensures
        match r {
            Some(b) => spec_first_json(params@) >= 0 && b@ == spec_json_param(
                args@[spec_first_json(params@)],
            ),
            None => spec_first_json(params@) == -1,
        },
{
    let mut i: usize = 0;
    proof {
        assert(params@.skip(0) =~= params@);
    }
    while i < params.len()
        invariant
            i <= params@.len() == args@.len(),
            spec_first_json(params@) == -1 <==> spec_first_json(params@.skip(i as int)) == -1,
            spec_first_json(params@.skip(i as int)) != -1 ==> spec_first_json(params@)
                == spec_first_json(params@.skip(i as int)) + i,
        decreases params@.len() - i,
    {
        proof {
            assert(params@.skip(i as int)[0] == params@[i as int]);
            assert(params@.skip(i as int).skip(1) =~= params@.skip(i + 1 as int));
        }
        let is_json = match &params[i].kind {
            ParamKind::Json => true,
            _ => false,
        };
        if is_json {
            assert(spec_first_json(params@.skip(i as int)) == 0);
            return Some(render_json_param(&args[i]));
        }
        proof {
            lemma_first_json_bounds_local(params@.skip(i + 1 as int));
        }
        i = i + 1;
    }
    proof {
        assert(params@.skip(params@.len() as int) =~= Seq::<ParamMeta>::empty());
    }
    None
}

/// Headers are appended, never merged: in a built plan's header list the
/// client defaults come first, the method-level headers after them, and the
/// parameter-bound headers last, each occurrence kept, index for index —
/// a name declared at two levels stands in the list twice.
pub proof fn lemma_headers_not_deduplicated(
    defaults: Seq<(Seq<char>, Seq<char>)>,
    route: Seq<(Seq<char>, Seq<char>)>,
    bound: Seq<(Seq<char>, Seq<char>)>,
    all: Seq<(Seq<char>, Seq<char>)>,
)
    requires
        all == defaults + route + bound,
    ensures
        all.len() == defaults.len() + route.len() + bound.len(),
        forall|i: int| 0 <= i < defaults.len() ==> all[i] == defaults[i],
        forall|i: int| 0 <= i < route.len() ==> all[defaults.len() + i] == route[i],
        forall|i: int| 0 <= i < bound.len() ==> all[defaults.len() + route.len() + i] == bound[i],
{
}

proof fn lemma_first_json_bounds_local(ps: Seq<ParamMeta>)
    ensures
        spec_first_json(ps) == -1 || 0 <= spec_first_json(ps) < ps.len(),
    decreases ps.len(),
{
    if ps.len() > 0 && !(ps[0].kind is Json) {
        lemma_first_json_bounds_local(ps.skip(1));
    }
}

} // verus!
