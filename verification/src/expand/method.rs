//! The request synthesizer: from one validated method descriptor to the
//! fixed, ordered sequence of request-construction stages.

use vstd::prelude::*;
use vstd::string::*;
use crate::config::{MethodAttrDecl, spec_first_verb, spec_route_fold, parse_method_attr,
    parse_route_options, RouteView};
use crate::error::DescribeError;
use crate::http::{Method, spec_method_from_name};
use crate::param::{Cardinality, ParamDecl, ParamKind, ParamMeta, clone_opt_string,
    parse_param_attrs, spec_cardinality, spec_is_scalar, spec_param_kind};
use crate::template::{spec_placeholders_match, validate_placeholders};
use crate::value::pairs_view;

verus! {

/// One parsed method descriptor: everything the synthesizer needs about one
/// declared endpoint method. Immutable once built.
///
/// The descriptor carries no result type: the send-and-decode stage always
/// decodes the response body into a JSON tree, and decoding that tree into
/// a caller-declared type is the caller's business at the transport edge.
#[derive(Debug)]
pub struct MethodCtx {
    /// The method's identifier in the interface declaration.
    pub sig_ident: String,
    /// The HTTP verb.
    pub method: Method,
    /// The interface's base endpoint, when one was declared; otherwise the
    /// owning client's configured endpoint is used at call time.
    pub endpoint: Option<String>,
    /// The path template, possibly with `{name}` placeholders.
    pub path: String,
    /// The method-level headers, duplicates preserved, in declaration order.
    pub route_headers: Vec<(String, String)>,
    /// The per-method timeout in milliseconds, when declared.
    pub timeout_ms: Option<u64>,
    /// The classified parameters, in declaration order.
    pub params: Vec<ParamMeta>,
}

/// One discrete request-construction action. A synthesized stage sequence
/// is executed in order with no branching beyond the presence tests of
/// Optional values.
#[derive(Debug, PartialEq)]
pub enum Stage {
    /// Materialize the path template and resolve the target URL against the
    /// base endpoint (or the client's configured endpoint when none).
    Init { path_template: String, endpoint: Option<String> },
    /// Substitute the Path-bound parameter at this index into the path.
    ReplacePathParam { index: usize },
    /// Instantiate the request builder with the verb and the resolved URL.
    RequestBuilder { verb: Method },
    /// Append one static method-level header; duplicates are appended, not
    /// merged.
    StaticHeader { name: String, value: String },
    /// Append the Header-bound parameter at this index under its wire name.
    ParamHeader { index: usize },
    /// Accumulate the scalar query entries of the parameter at this index.
    QueryScalar { index: usize },
    /// Flatten the structured Query-bound parameter at this index into the
    /// query string.
    QueryFlatten { index: usize },
    /// Apply the accumulated scalar query entries as one update.
    ApplyQueryList,
    /// Serialize the Json-bound parameter at this index as the request body.
    JsonBody { index: usize },
    /// Override the transport timeout for this call only.
    ApplyTimeout { ms: u64 },
    /// Send the request and decode the response.
    SendAndDecode,
}

/// The path-substitution stages: one per Path-bound parameter, in
/// declaration order.
pub open spec fn spec_path_stages(ps: Seq<ParamMeta>) -> Seq<Stage>
    decreases ps.len(),
{
    if ps.len() == 0 {
        Seq::empty()
    } else {
        spec_path_stages(ps.drop_last()) + (if ps.last().kind is Path {
            seq![Stage::ReplacePathParam { index: (ps.len() - 1) as usize }]
        } else {
            Seq::empty()
        })
    }
}

/// The static-header stages: one per method-level header, in order.
pub open spec fn spec_static_header_stages(hs: Seq<(String, String)>) -> Seq<Stage>
    decreases hs.len(),
{
    if hs.len() == 0 {
        Seq::empty()
    } else {
        spec_static_header_stages(hs.drop_last()) + seq![
            Stage::StaticHeader { name: hs.last().0, value: hs.last().1 },
        ]
    }
}

/// The parameter-header stages: one per Header-bound parameter, in order.
pub open spec fn spec_param_header_stages(ps: Seq<ParamMeta>) -> Seq<Stage>
    decreases ps.len(),
{
    if ps.len() == 0 {
        Seq::empty()
    } else {
        spec_param_header_stages(ps.drop_last()) + (if ps.last().kind is Header {
            seq![Stage::ParamHeader { index: (ps.len() - 1) as usize }]
        } else {
            Seq::empty()
        })
    }
}

/// The query stages: per Query-bound parameter, a scalar accumulation or a
/// structured flattening, in declaration order.
pub open spec fn spec_query_stages(ps: Seq<ParamMeta>) -> Seq<Stage>
    decreases ps.len(),
{
    if ps.len() == 0 {
        Seq::empty()
    } else {
        spec_query_stages(ps.drop_last()) + (if ps.last().kind is Query {
            if spec_is_scalar(ps.last().shape) {
                seq![Stage::QueryScalar { index: (ps.len() - 1) as usize }]
            } else {
                seq![Stage::QueryFlatten { index: (ps.len() - 1) as usize }]
            }
        } else {
            Seq::empty()
        })
    }
}

/// The index of the first Json-bound parameter, or -1.
pub open spec fn spec_first_json(ps: Seq<ParamMeta>) -> int
    decreases ps.len(),
{
    if ps.len() == 0 {
        -1
    } else if ps[0].kind is Json {
        0
    } else {
        let r = spec_first_json(ps.skip(1));
        if r == -1 {
            -1
        } else {
            r + 1
        }
    }
}

/// The body stage: the first Json-bound parameter is serialized; with none,
/// no body stage is emitted.
pub open spec fn spec_json_stage(ps: Seq<ParamMeta>) -> Seq<Stage> {
    if spec_first_json(ps) >= 0 {
        seq![Stage::JsonBody { index: spec_first_json(ps) as usize }]
    } else {
        Seq::empty()
    }
}

/// The timeout stage, when the method declares one.
pub open spec fn spec_timeout_stage(t: Option<u64>) -> Seq<Stage> {
    match t {
        Some(ms) => seq![Stage::ApplyTimeout { ms }],
        None => Seq::empty(),
    }
}

/// The full stage sequence of one method descriptor. The order is a hard
/// invariant: init, path substitution, builder creation, static headers,
/// parameter headers, query assembly with one final update, body, timeout,
/// send-and-decode.
pub open spec fn spec_stages(ctx: MethodCtx) -> Seq<Stage> {
    seq![Stage::Init { path_template: ctx.path, endpoint: ctx.endpoint }]
        + spec_path_stages(ctx.params@) + seq![Stage::RequestBuilder { verb: ctx.method }]
        + spec_static_header_stages(ctx.route_headers@) + spec_param_header_stages(ctx.params@)
        + spec_query_stages(ctx.params@) + seq![Stage::ApplyQueryList] + spec_json_stage(
        ctx.params@,
    ) + spec_timeout_stage(ctx.timeout_ms) + seq![Stage::SendAndDecode]
}

/// The classification-time fault of one parameter, if it has one: an
/// explicit key on a structured Query value, structured Many query
/// elements, a structured or Many Header binding, or a Path binding that is
/// not a single scalar.
pub open spec fn spec_param_issue(p: ParamMeta) -> Option<DescribeError> {
    match p.kind {
        ParamKind::Query(k) => if !spec_is_scalar(p.shape) {
            if spec_cardinality(p.shape) is Many {
                Some(DescribeError::StructuredManyQuery { param: p.ident })
            } else if k is Some {
                Some(DescribeError::KeyedStructuredQuery { param: p.ident })
            } else {
                None
            }
        } else {
            None
        },
        ParamKind::Header(_) => if spec_cardinality(p.shape) is Many {
            Some(DescribeError::ManyHeader { param: p.ident })
        } else if !spec_is_scalar(p.shape) {
            Some(DescribeError::StructuredHeader { param: p.ident })
        } else {
            None
        },
        ParamKind::Path => if !(spec_cardinality(p.shape) is Single && spec_is_scalar(p.shape)) {
            Some(DescribeError::NonScalarPathParam { param: p.ident })
        } else {
            None
        },
        _ => None,
    }
}

/// The first parameter fault, scanning in declaration order.
pub open spec fn spec_first_issue(ps: Seq<ParamMeta>) -> Option<DescribeError>
    decreases ps.len(),
{
    if ps.len() == 0 {
        None
    } else if spec_param_issue(ps[0]) is Some {
        spec_param_issue(ps[0])
    } else {
        spec_first_issue(ps.skip(1))
    }
}

/// How many parameters are Json-bound.
pub open spec fn spec_json_count(ps: Seq<ParamMeta>) -> int
    decreases ps.len(),
{
    if ps.len() == 0 {
        0int
    } else {
        spec_json_count(ps.drop_last()) + (if ps.last().kind is Json {
            1int
        } else {
            0int
        })
    }
}

/// What validation decides for one descriptor, in order: an empty path
/// fails, then a placeholder/Path-parameter mismatch, then the first
/// per-parameter classification fault, then more than one Json binding.
pub open spec fn spec_validate(ctx: MethodCtx) -> Result<(), DescribeError> {
    if ctx.path@.len() == 0 {
        Err(DescribeError::MissingPath)
    } else if !spec_placeholders_match(ctx.path@, ctx.params@) {
        Err(DescribeError::PathPlaceholderMismatch)
    } else if spec_first_issue(ctx.params@) is Some {
        Err(spec_first_issue(ctx.params@)->0)
    } else if spec_json_count(ctx.params@) > 1 {
        Err(DescribeError::MultipleJsonBodies)
    } else {
        Ok(())
    }
}

fn param_issue(p: &ParamMeta) -> (r: Option<DescribeError>)
    ensures
        r == spec_param_issue(*p),
{
    let card = p.cardinality();
    let scalar = p.is_scalar();
    match &p.kind {
        ParamKind::Query(k) => {
            if !scalar {
                if card == Cardinality::Many {
                    Some(DescribeError::StructuredManyQuery { param: p.ident.clone() })
                } else if k.is_some() {
                    Some(DescribeError::KeyedStructuredQuery { param: p.ident.clone() })
                } else {
                    None
                }
            } else {
                None
            }
        },
        ParamKind::Header(_) => {
            if card == Cardinality::Many {
                Some(DescribeError::ManyHeader { param: p.ident.clone() })
            } else if !scalar {
                Some(DescribeError::StructuredHeader { param: p.ident.clone() })
            } else {
                None
            }
        },
        ParamKind::Path => {
            if !(card == Cardinality::Single && scalar) {
                Some(DescribeError::NonScalarPathParam { param: p.ident.clone() })
            } else {
                None
            }
        },
        _ => None,
    }
}

proof fn lemma_first_issue_none(ps: Seq<ParamMeta>, i: int)
    requires
        0 <= i <= ps.len(),
        forall|k: int| 0 <= k < i ==> spec_param_issue(#[trigger] ps[k]) is None,
        spec_first_issue(ps.skip(i)) is None,
    ensures
        spec_first_issue(ps) is None,
    decreases i,
{
    if i > 0 {
        assert(ps.skip(i - 1)[0] == ps[i - 1]);
        assert(ps.skip(i - 1).skip(1) =~= ps.skip(i));
        lemma_first_issue_none(ps, i - 1);
    } else {
        assert(ps.skip(0) =~= ps);
    }
}

proof fn lemma_first_issue_here(ps: Seq<ParamMeta>, i: int)
    requires
        0 <= i < ps.len(),
        forall|k: int| 0 <= k < i ==> spec_param_issue(#[trigger] ps[k]) is None,
        spec_param_issue(ps[i]) is Some,
    ensures
        spec_first_issue(ps) == spec_param_issue(ps[i]),
    decreases i,
{
    if i > 0 {
        assert(spec_param_issue(ps[0]) is None);
        assert forall|k: int| 0 <= k < i - 1 implies spec_param_issue(
            #[trigger] ps.skip(1)[k],
        ) is None by {
            assert(ps.skip(1)[k] == ps[k + 1]);
        }
        assert(ps.skip(1)[i - 1] == ps[i]);
        lemma_first_issue_here(ps.skip(1), i - 1);
    }
}

/// Checks one descriptor: a non-empty path, placeholder/Path-parameter
/// agreement, per-parameter binding legality, and at most one Json
/// binding. Exactly the faults of `spec_validate`, in its order.
#[verifier::loop_isolation(false)]
pub fn validate_ctx(ctx: &MethodCtx) -> (r: Result<(), DescribeError>)
    ensures
        r == spec_validate(*ctx),
{
    if ctx.path.as_str().unicode_len() == 0 {
        return Err(DescribeError::MissingPath);
    }
    if !validate_placeholders(ctx.path.as_str(), &ctx.params) {
        return Err(DescribeError::PathPlaceholderMismatch);
    }
    let mut i: usize = 0;
    while i < ctx.params.len()
        invariant
            i <= ctx.params@.len(),
            forall|k: int| 0 <= k < i ==> spec_param_issue(#[trigger] ctx.params@[k]) is None,
        decreases ctx.params@.len() - i,
    {
        match param_issue(&ctx.params[i]) {
            Some(e) => {
                proof {
                    lemma_first_issue_here(ctx.params@, i as int);
                }
                return Err(e);
            },
            None => {},
        }
        i = i + 1;
    }
    proof {
        assert(ctx.params@.skip(ctx.params@.len() as int) =~= Seq::<ParamMeta>::empty());
        lemma_first_issue_none(ctx.params@, ctx.params@.len() as int);
    }
    let mut count: usize = 0;
    let mut i: usize = 0;
    while i < ctx.params.len()
        invariant
            i <= ctx.params@.len(),
            count == spec_json_count(ctx.params@.take(i as int)),
            count <= i,
        decreases ctx.params@.len() - i,
    {
        proof {
            assert(ctx.params@.take(i + 1 as int).drop_last() =~= ctx.params@.take(i as int));
            assert(ctx.params@.take(i + 1 as int).last() == ctx.params@[i as int]);
        }
        match &ctx.params[i].kind {
            ParamKind::Json => {
                count = count + 1;
            },
            _ => {},
        }
        i = i + 1;
    }
    proof {
        assert(ctx.params@.take(ctx.params@.len() as int) =~= ctx.params@);
    }
    if count > 1 {
        return Err(DescribeError::MultipleJsonBodies);
    }
    Ok(())
}

/// The synthesizer for one method: appends the stage sequence for its
/// descriptor, stage group by stage group, in the fixed order.
#[derive(Debug)]
pub struct MethodExpander {
    ctx: MethodCtx,
    stages: Vec<Stage>,
}

impl MethodExpander {
    /// Starts a synthesizer with an empty stage sequence.
    pub fn new(ctx: MethodCtx) -> (r: Self)
        ensures
            r.ctx() == ctx,
            r.stages_view() == Seq::<Stage>::empty(),
    {
        MethodExpander { ctx, stages: Vec::new() }
    }

    /// The descriptor this synthesizer works on.
    pub closed spec fn ctx(&self) -> MethodCtx {
        self.ctx
    }

    /// The stages appended so far.
    pub closed spec fn stages_view(&self) -> Seq<Stage> {
        self.stages@
    }

    /// Checks the descriptor; exactly the faults of `spec_validate`, in
    /// its order.
    pub fn validate(self) -> (r: Result<Self, DescribeError>)
        ensures
            match r {
                Ok(s) => s == self && spec_validate(self.ctx()) == Ok::<(), DescribeError>(()),
                Err(e) => spec_validate(self.ctx()) == Err::<(), DescribeError>(e),
            },
    {
        match validate_ctx(&self.ctx) {
            Ok(()) => Ok(self),
            Err(e) => Err(e),
        }
    }

    /// Appends the Init stage: the path template is materialized and the
    /// target URL resolved against the declared or configured endpoint.
    pub fn stage_init(self) -> (r: Self)
        ensures
            r.ctx() == self.ctx(),
            r.stages_view() == self.stages_view() + seq![
                Stage::Init { path_template: self.ctx().path, endpoint: self.ctx().endpoint },
            ],
    {
        let mut s = self;
        let st = Stage::Init {
            path_template: s.ctx.path.clone(),
            endpoint: clone_opt_string(&s.ctx.endpoint),
        };
        let ghost prev = s.stages@;
        s.stages.push(st);
        proof {
            assert(s.stages@ =~= prev + seq![
                Stage::Init { path_template: s.ctx.path, endpoint: s.ctx.endpoint },
            ]);
        }
        s
    }

    /// Appends one path-substitution stage per Path-bound parameter, in
    /// declaration order.
    #[verifier::loop_isolation(false)]
    pub fn stage_replace_path_params(self) -> (r: Self)
        ensures
            r.ctx() == self.ctx(),
            r.stages_view() == self.stages_view() + spec_path_stages(self.ctx().params@),
    {
        let mut s = self;
        let ghost orig = s.stages@;
        let mut i: usize = 0;
        proof {
            assert(s.ctx.params@.take(0) =~= Seq::<ParamMeta>::empty());
            assert(orig + spec_path_stages(s.ctx.params@.take(0)) =~= orig);
        }
        while i < s.ctx.params.len()
            invariant
                i <= s.ctx.params@.len(),
                s.ctx == self.ctx(),
                s.stages@ == orig + spec_path_stages(s.ctx.params@.take(i as int)),
            decreases s.ctx.params@.len() - i,
        {
            proof {
                assert(s.ctx.params@.take(i + 1 as int).drop_last() =~= s.ctx.params@.take(
                    i as int,
                ));
                assert(s.ctx.params@.take(i + 1 as int).last() == s.ctx.params@[i as int]);
            }
            let ghost prev = s.stages@;
            let is_path = match &s.ctx.params[i].kind {
                ParamKind::Path => true,
                _ => false,
            };
            if is_path {
                s.stages.push(Stage::ReplacePathParam { index: i });
                proof {
                    assert(s.stages@ =~= prev + seq![Stage::ReplacePathParam { index: i }]);
                    assert(prev + seq![Stage::ReplacePathParam { index: i }] =~= orig
                        + spec_path_stages(s.ctx.params@.take(i + 1 as int)));
                }
            } else {
                proof {
                    assert(s.stages@ =~= orig + spec_path_stages(s.ctx.params@.take(i + 1 as int)));
                }
            }
            i = i + 1;
        }
        proof {
            assert(s.ctx.params@.take(s.ctx.params@.len() as int) =~= s.ctx.params@);
        }
        s
    }

    /// Appends the builder-creation stage for the verb.
    pub fn stage_request_builder(self) -> (r: Self)
        ensures
            r.ctx() == self.ctx(),
            r.stages_view() == self.stages_view() + seq![
                Stage::RequestBuilder { verb: self.ctx().method },
            ],
    {
        let mut s = self;
        let verb = s.ctx.method;
        let ghost prev = s.stages@;
        s.stages.push(Stage::RequestBuilder { verb });
        proof {
            assert(s.stages@ =~= prev + seq![Stage::RequestBuilder { verb: s.ctx.method }]);
        }
        s
    }

    /// Appends one static-header stage per method-level header, in
    /// declaration order; duplicate names are kept, not merged.
    #[verifier::loop_isolation(false)]
    pub fn stage_apply_static_headers(self) -> (r: Self)
        ensures
            r.ctx() == self.ctx(),
            r.stages_view() == self.stages_view() + spec_static_header_stages(
                self.ctx().route_headers@,
            ),
    {
        let mut s = self;
        let ghost orig = s.stages@;
        let mut i: usize = 0;
        proof {
            assert(s.ctx.route_headers@.take(0) =~= Seq::<(String, String)>::empty());
            assert(orig + spec_static_header_stages(s.ctx.route_headers@.take(0)) =~= orig);
        }
        while i < s.ctx.route_headers.len()
            invariant
                i <= s.ctx.route_headers@.len(),
                s.ctx == self.ctx(),
                s.stages@ == orig + spec_static_header_stages(s.ctx.route_headers@.take(i as int)),
            decreases s.ctx.route_headers@.len() - i,
        {
            proof {
                assert(s.ctx.route_headers@.take(i + 1 as int).drop_last()
                    =~= s.ctx.route_headers@.take(i as int));
                assert(s.ctx.route_headers@.take(i + 1 as int).last()
                    == s.ctx.route_headers@[i as int]);
            }
            let ghost prev = s.stages@;
            let name = s.ctx.route_headers[i].0.clone();
            let value = s.ctx.route_headers[i].1.clone();
            s.stages.push(Stage::StaticHeader { name, value });
            proof {
                assert(s.stages@ =~= prev + seq![
                    Stage::StaticHeader {
                        name: s.ctx.route_headers@[i as int].0,
                        value: s.ctx.route_headers@[i as int].1,
                    },
                ]);
                assert(prev + seq![
                    Stage::StaticHeader {
                        name: s.ctx.route_headers@[i as int].0,
                        value: s.ctx.route_headers@[i as int].1,
                    },
                ] =~= orig + spec_static_header_stages(s.ctx.route_headers@.take(i + 1 as int)));
            }
            i = i + 1;
        }
        proof {
            assert(s.ctx.route_headers@.take(s.ctx.route_headers@.len() as int)
                =~= s.ctx.route_headers@);
        }
        s
    }

    /// Appends one header stage per Header-bound parameter, in declaration
    /// order.
    #[verifier::loop_isolation(false)]
    pub fn stage_apply_param_headers(self) -> (r: Self)
        ensures
            r.ctx() == self.ctx(),
            r.stages_view() == self.stages_view() + spec_param_header_stages(self.ctx().params@),
    {
        let mut s = self;
        let ghost orig = s.stages@;
        let mut i: usize = 0;
        proof {
            assert(s.ctx.params@.take(0) =~= Seq::<ParamMeta>::empty());
            assert(orig + spec_param_header_stages(s.ctx.params@.take(0)) =~= orig);
        }
        while i < s.ctx.params.len()
            invariant
                i <= s.ctx.params@.len(),
                s.ctx == self.ctx(),
                s.stages@ == orig + spec_param_header_stages(s.ctx.params@.take(i as int)),
            decreases s.ctx.params@.len() - i,
        {
            proof {
                assert(s.ctx.params@.take(i + 1 as int).drop_last() =~= s.ctx.params@.take(
                    i as int,
                ));
                assert(s.ctx.params@.take(i + 1 as int).last() == s.ctx.params@[i as int]);
            }
            let ghost prev = s.stages@;
            let is_header = match &s.ctx.params[i].kind {
                ParamKind::Header(_) => true,
                _ => false,
            };
            if is_header {
                s.stages.push(Stage::ParamHeader { index: i });
                proof {
                    assert(s.stages@ =~= prev + seq![Stage::ParamHeader { index: i }]);
                    assert(prev + seq![Stage::ParamHeader { index: i }] =~= orig
                        + spec_param_header_stages(s.ctx.params@.take(i + 1 as int)));
                }
            } else {
                proof {
                    assert(s.stages@ =~= orig + spec_param_header_stages(
                        s.ctx.params@.take(i + 1 as int),
                    ));
                }
            }
            i = i + 1;
        }
        proof {
            assert(s.ctx.params@.take(s.ctx.params@.len() as int) =~= s.ctx.params@);
        }
        s
    }

    /// Appends the query stages: per Query-bound parameter a scalar
    /// accumulation or a structured flattening, then the single update that
    /// applies the accumulated entries.
    #[verifier::loop_isolation(false)]
    pub fn stage_apply_query(self) -> (r: Self)
        ensures
            r.ctx() == self.ctx(),
            r.stages_view() == self.stages_view() + spec_query_stages(self.ctx().params@) + seq![
                Stage::ApplyQueryList,
            ],
    {
        let mut s = self;
        let ghost orig = s.stages@;
        let mut i: usize = 0;
        proof {
            assert(s.ctx.params@.take(0) =~= Seq::<ParamMeta>::empty());
            assert(orig + spec_query_stages(s.ctx.params@.take(0)) =~= orig);
        }
        while i < s.ctx.params.len()
            invariant
                i <= s.ctx.params@.len(),
                s.ctx == self.ctx(),
                s.stages@ == orig + spec_query_stages(s.ctx.params@.take(i as int)),
            decreases s.ctx.params@.len() - i,
        {
            proof {
                assert(s.ctx.params@.take(i + 1 as int).drop_last() =~= s.ctx.params@.take(
                    i as int,
                ));
                assert(s.ctx.params@.take(i + 1 as int).last() == s.ctx.params@[i as int]);
            }
            let ghost prev = s.stages@;
            let is_query = match &s.ctx.params[i].kind {
                ParamKind::Query(_) => true,
                _ => false,
            };
            if is_query {
                let scalar = s.ctx.params[i].is_scalar();
                if scalar {
                    s.stages.push(Stage::QueryScalar { index: i });
                    proof {
                        assert(s.stages@ =~= prev + seq![Stage::QueryScalar { index: i }]);
                        assert(prev + seq![Stage::QueryScalar { index: i }] =~= orig
                            + spec_query_stages(s.ctx.params@.take(i + 1 as int)));
                    }
                } else {
                    s.stages.push(Stage::QueryFlatten { index: i });
                    proof {
                        assert(s.stages@ =~= prev + seq![Stage::QueryFlatten { index: i }]);
                        assert(prev + seq![Stage::QueryFlatten { index: i }] =~= orig
                            + spec_query_stages(s.ctx.params@.take(i + 1 as int)));
                    }
                }
            } else {
                proof {
                    assert(s.stages@ =~= orig + spec_query_stages(
                        s.ctx.params@.take(i + 1 as int),
                    ));
                }
            }
            i = i + 1;
        }
        proof {
            assert(s.ctx.params@.take(s.ctx.params@.len() as int) =~= s.ctx.params@);
        }
        let ghost prev = s.stages@;
        s.stages.push(Stage::ApplyQueryList);
        proof {
            assert(s.stages@ =~= prev + seq![Stage::ApplyQueryList]);
            assert(prev + seq![Stage::ApplyQueryList] =~= orig + spec_query_stages(s.ctx.params@)
                + seq![Stage::ApplyQueryList]);
        }
        s
    }

    /// Appends the body stage for the first Json-bound parameter, when one
    /// is declared. Validation has already rejected a second one.
    #[verifier::loop_isolation(false)]
    pub fn stage_apply_json(self) -> (r: Self)
        ensures
            r.ctx() == self.ctx(),
            r.stages_view() == self.stages_view() + spec_json_stage(self.ctx().params@),
    {
        let mut s = self;
        let ghost orig = s.stages@;
        let mut i: usize = 0;
        proof {
            assert(s.ctx.params@.skip(0) =~= s.ctx.params@);
        }
        while i < s.ctx.params.len()
            invariant
                i <= s.ctx.params@.len(),
                s.ctx == self.ctx(),
                s.stages@ == orig,
                spec_first_json(s.ctx.params@) == -1 <==> spec_first_json(
                    s.ctx.params@.skip(i as int),
                ) == -1,
                spec_first_json(s.ctx.params@.skip(i as int)) != -1 ==> spec_first_json(
                    s.ctx.params@,
                ) == spec_first_json(s.ctx.params@.skip(i as int)) + i,
            decreases s.ctx.params@.len() - i,
        {
            proof {
                assert(s.ctx.params@.skip(i as int)[0] == s.ctx.params@[i as int]);
                assert(s.ctx.params@.skip(i as int).skip(1) =~= s.ctx.params@.skip(i + 1 as int));
            }
            let is_json = match &s.ctx.params[i].kind {
                ParamKind::Json => true,
                _ => false,
            };
            if is_json {
                assert(spec_first_json(s.ctx.params@.skip(i as int)) == 0);
                let ghost prev = s.stages@;
                s.stages.push(Stage::JsonBody { index: i });
                proof {
                    assert(s.stages@ =~= prev + seq![Stage::JsonBody { index: i }]);
                    assert(prev + seq![Stage::JsonBody { index: i }] =~= orig + spec_json_stage(
                        s.ctx.params@,
                    ));
                }
                return s;
            }
            proof {
                lemma_first_json_bounds(s.ctx.params@.skip(i + 1 as int));
            }
            i = i + 1;
        }
        proof {
            assert(s.ctx.params@.skip(s.ctx.params@.len() as int) =~= Seq::<ParamMeta>::empty());
            assert(orig + spec_json_stage(s.ctx.params@) =~= orig);
        }
        s
    }

    /// Appends the per-method timeout stage, when the method declares one.
    pub fn stage_apply_timeout(self) -> (r: Self)
        ensures
            r.ctx() == self.ctx(),
            r.stages_view() == self.stages_view() + spec_timeout_stage(self.ctx().timeout_ms),
    {
        let mut s = self;
        match s.ctx.timeout_ms {
            Some(ms) => {
                let ghost prev = s.stages@;
                s.stages.push(Stage::ApplyTimeout { ms });
                proof {
                    assert(s.stages@ =~= prev + seq![Stage::ApplyTimeout { ms }]);
                }
            },
            None => {
                proof {
                    assert(s.stages@ + spec_timeout_stage(s.ctx.timeout_ms) =~= s.stages@);
                }
            },
        }
        s
    }

    /// Appends the terminal send-and-decode stage.
    pub fn stage_send_and_denser(self) -> (r: Self)
        ensures
            r.ctx() == self.ctx(),
            r.stages_view() == self.stages_view() + seq![Stage::SendAndDecode],
    {
        let mut s = self;
        let ghost prev = s.stages@;
        s.stages.push(Stage::SendAndDecode);
        proof {
            assert(s.stages@ =~= prev + seq![Stage::SendAndDecode]);
        }
        s
    }

    /// Hands out the synthesized stage sequence.
    pub fn finish(self) -> (r: Vec<Stage>)
        ensures
            r@ == self.stages_view(),
    {
        self.stages
    }

    /// Hands out the descriptor together with the synthesized stages.
    pub fn into_parts(self) -> (r: (MethodCtx, Vec<Stage>))
        ensures
            r.0 == self.ctx(),
            r.1@ == self.stages_view(),
    {
        (self.ctx, self.stages)
    }
}

proof fn lemma_first_json_bounds(ps: Seq<ParamMeta>)
    ensures
        spec_first_json(ps) == -1 || 0 <= spec_first_json(ps) < ps.len(),
    decreases ps.len(),
{
    if ps.len() > 0 && !(ps[0].kind is Json) {
        lemma_first_json_bounds(ps.skip(1));
    }
}

/// Synthesizing the stage sequence of one descriptor is a function of the
/// descriptor alone: any two sequences that satisfy the synthesizer's
/// contract for the same descriptor are identical, element for element.
pub proof fn lemma_stage_sequence_stable(ctx: MethodCtx, s1: Seq<Stage>, s2: Seq<Stage>)
    requires
        s1 == spec_stages(ctx),
        s2 == spec_stages(ctx),
    ensures
        s1 == s2,
{
}

/// A validated descriptor's placeholder set and Path-bound parameter set
/// agree: validation accepts a descriptor only when every `{name}`
/// placeholder names a Path-bound parameter and every Path-bound parameter
/// appears as a placeholder.
pub proof fn lemma_validation_requires_placeholder_agreement(ctx: MethodCtx)
    requires
        spec_validate(ctx) is Ok,
    ensures
        spec_placeholders_match(ctx.path@, ctx.params@),
{
}

/// A validated descriptor has a non-empty path and at most one Json-bound
/// parameter.
pub proof fn lemma_validation_bounds_json_bodies(ctx: MethodCtx)
    requires
        spec_validate(ctx) is Ok,
    ensures
        ctx.path@.len() > 0,
        spec_json_count(ctx.params@) <= 1,
{
}

/// Expanding one method declaration is deterministic: any two descriptors
/// built from the same declaration and interface endpoint carry the same
/// path, verb, headers, timeout and classified parameters, so any two
/// synthesized stage sequences for them are identical, element for element.
pub proof fn lemma_expansion_deterministic(
    decl: MethodDecl,
    ep: Option<String>,
    c1: MethodCtx,
    s1: Seq<Stage>,
    c2: MethodCtx,
    s2: Seq<Stage>,
)
    requires
        spec_ctx_built(c1, decl, ep),
        s1 == spec_stages(c1),
        spec_ctx_built(c2, decl, ep),
        s2 == spec_stages(c2),
    ensures
        s1 == s2,
{
    assert(c1.path == c2.path);
    assert(c1.endpoint == c2.endpoint);
    assert(c1.method == c2.method);
    assert(c1.timeout_ms == c2.timeout_ms);
    assert(c1.route_headers@ == c2.route_headers@);
    assert(c1.params@ =~= c2.params@);
    assert(spec_stages(c1) == spec_stages(c2));
}

/// One declared endpoint method, before parsing: its name, its annotations
/// and its declared parameters.
#[derive(Debug)]
pub struct MethodDecl {
    pub ident: String,
    pub attrs: Vec<MethodAttrDecl>,
    pub params: Vec<ParamDecl>,
}

/// Whether a descriptor is exactly what parsing `decl` (with the given
/// interface endpoint) produces: the first verb annotation gives the verb
/// and the route options, the parameters are classified in order, and the
/// identifiers carry over. The path, the header pairs and the parameters
/// are pinned as the very values declared, so the descriptor is a function
/// of the declaration.
pub open spec fn spec_ctx_built(ctx: MethodCtx, decl: MethodDecl, ep: Option<String>) -> bool {
    let vi = spec_first_verb(decl.attrs@);
    &&& vi >= 0
    &&& Some(ctx.method) == spec_method_from_name(decl.attrs@[vi].name@)
    &&& spec_route_fold(decl.attrs@[vi].entries@) matches Ok(rv) && {
        &&& rv.path matches Some(p) && ctx.path@ == p
        &&& ctx.timeout_ms == rv.timeout_ms
    }
    &&& Some(ctx.path) == crate::config::spec_route_path_val(decl.attrs@[vi].entries@)
    &&& ctx.route_headers@ == crate::config::spec_route_pairs_val(decl.attrs@[vi].entries@)
    &&& ctx.sig_ident == decl.ident
    &&& ctx.endpoint == ep
    &&& ctx.params@.len() == decl.params@.len()
    &&& forall|i: int|
        0 <= i < decl.params@.len() ==> #[trigger] ctx.params@[i] == (ParamMeta {
            ident: decl.params@[i].ident,
            shape: decl.params@[i].shape,
            kind: spec_param_kind(decl.params@[i].attrs@),
        })
}

/// Parses one method declaration into a descriptor, validates it, and runs
/// the synthesizer chain over it. Fails with `MissingVerb` when no
/// annotation names an HTTP verb, with `MissingPath` when the verb
/// annotation carries no path, with the route options' fault when one of
/// them is bad, and with validation's fault otherwise.
pub fn expand_method_impl(decl: &MethodDecl, ep: &Option<String>) -> (r: Result<
    (MethodCtx, Vec<Stage>),
    DescribeError,
>)
    ensures
        match r {
            Ok(p) => {
                &&& spec_ctx_built(p.0, *decl, *ep)
                &&& spec_validate(p.0) == Ok::<(), DescribeError>(())
                &&& p.1@ == spec_stages(p.0)
            },
            Err(e) => {
                ||| (spec_first_verb(decl.attrs@) == -1 && e == DescribeError::MissingVerb)
                ||| (spec_first_verb(decl.attrs@) >= 0 && spec_route_fold(
                    decl.attrs@[spec_first_verb(decl.attrs@)].entries@,
                ) == Err::<RouteView, DescribeError>(e))
                ||| (spec_first_verb(decl.attrs@) >= 0 && (spec_route_fold(
                    decl.attrs@[spec_first_verb(decl.attrs@)].entries@,
                ) matches Ok(rv) && rv.path is None && e == DescribeError::MissingPath))
                ||| (exists|ctx: MethodCtx| #[trigger]
                    spec_ctx_built(ctx, *decl, *ep) && spec_validate(ctx) == Err::<
                        (),
                        DescribeError,
                    >(e))
            },
        },
{
    let (verb, vi) = match parse_method_attr(&decl.attrs) {
        Some(p) => p,
        None => {
            return Err(DescribeError::MissingVerb);
        },
    };
    let route = match parse_route_options(&decl.attrs[vi].entries) {
        Ok(rc) => rc,
        Err(e) => {
            return Err(e);
        },
    };
    let path = match route.path {
        Some(p) => p,
        None => {
            return Err(DescribeError::MissingPath);
        },
    };
    let params = parse_param_attrs(&decl.params);
    let ctx = MethodCtx {
        sig_ident: decl.ident.clone(),
        method: verb,
        endpoint: clone_opt_string(ep),
        path,
        route_headers: route.headers,
        timeout_ms: route.timeout_ms,
        params,
    };
    let expander0 = MethodExpander::new(ctx);
    let ghost gctx = expander0.ctx();
    proof {
        assert(spec_ctx_built(gctx, *decl, *ep));
    }
    let expander = match expander0.validate() {
        Ok(x) => x,
        Err(e) => {
            return Err(e);
        },
    };
    let expander = expander.stage_init().stage_replace_path_params().stage_request_builder()
        .stage_apply_static_headers().stage_apply_param_headers().stage_apply_query()
        .stage_apply_json().stage_apply_timeout().stage_send_and_denser();
    let ghost ctx2 = expander.ctx();
    let (out_ctx, stages) = expander.into_parts();
    proof {
        assert(stages@ =~= spec_stages(ctx2));
        assert(spec_ctx_built(ctx2, *decl, *ep));
    }
    Ok((out_ctx, stages))
}

} // verus!
