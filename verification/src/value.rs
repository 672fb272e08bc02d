//! Runtime argument values and what each classified parameter contributes to
//! the query string and the headers of one call.

use vstd::prelude::*;
use vstd::string::*;
use crate::strutil::{spec_idec, i64_to_string};
use crate::param::{Cardinality, ParamKind, ParamMeta, spec_cardinality, spec_is_scalar, spec_query_key,
    spec_wire_name};

verus! {

/// A scalar argument value: a piece of text, an integer or a boolean.
#[derive(Debug)]
pub enum ScalarValue {
    Text(String),
    Integer(i64),
    Boolean(bool),
}

/// One argument value: a scalar, or a structured value given as an ordered
/// list of scalar-valued fields.
#[derive(Debug)]
pub enum ArgValue {
    Scalar(ScalarValue),
    Object(Vec<(String, ScalarValue)>),
}

/// The value handed in for one parameter, by cardinality.
#[derive(Debug)]
pub enum ParamValue {
    Single(ArgValue),
    Optional(Option<ArgValue>),
    Many(Vec<ArgValue>),
}

/// The textual form of a scalar value, as it goes into a path segment, a
/// query entry or a header value.
pub open spec fn spec_scalar_str(v: ScalarValue) -> Seq<char> {
    match v {
        ScalarValue::Text(s) => s@,
        ScalarValue::Integer(i) => spec_idec(i as int),
        ScalarValue::Boolean(b) => if b {
            "true"@
        } else {
            "false"@
        },
    }
}

/// The textual form of a value that is known to be scalar; a structured
/// value has none and yields nothing.
pub open spec fn spec_value_str(v: ArgValue) -> Seq<char> {
    match v {
        ArgValue::Scalar(sv) => spec_scalar_str(sv),
        ArgValue::Object(_) => Seq::empty(),
    }
}

/// Renders a scalar value as text.
pub fn scalar_to_string(v: &ScalarValue) -> (r: String)
    ensures
        r@ == spec_scalar_str(*v),
{
    match v {
        ScalarValue::Text(s) => s.clone(),
        ScalarValue::Integer(i) => i64_to_string(*i),
        ScalarValue::Boolean(b) => if *b {
            String::from_str("true")
        } else {
            String::from_str("false")
        },
    }
}

/// Whether a value has the shape the classifier expects: a scalar where the
/// parameter is scalar, a structured value where it is not.
pub open spec fn spec_value_is(v: ArgValue, scalar: bool) -> bool {
    if scalar {
        v is Scalar
    } else {
        v is Object
    }
}

/// Whether one argument value fits its parameter's cardinality and scalar
/// classification.
pub open spec fn spec_arg_matches(p: ParamMeta, v: ParamValue) -> bool {
    match spec_cardinality(p.shape) {
        crate::param::Cardinality::Single => v is Single && spec_value_is(
            v->Single_0,
            spec_is_scalar(p.shape),
        ),
        crate::param::Cardinality::Optional => v is Optional && match v->Optional_0 {
            Some(inner) => spec_value_is(inner, spec_is_scalar(p.shape)),
            None => true,
        },
        crate::param::Cardinality::Many => v is Many && forall|k: int|
            0 <= k < v->Many_0@.len() ==> spec_value_is(
                #[trigger] v->Many_0@[k],
                spec_is_scalar(p.shape),
            ),
    }
}

/// Whether a whole argument list fits a parameter list.
pub open spec fn spec_args_match(ps: Seq<ParamMeta>, vs: Seq<ParamValue>) -> bool {
    ps.len() == vs.len() && forall|i: int|
        0 <= i < ps.len() ==> spec_arg_matches(ps[i], #[trigger] vs[i])
}

fn value_is(v: &ArgValue, scalar: bool) -> (r: bool)
    ensures
        r == spec_value_is(*v, scalar),
{
    match v {
        ArgValue::Scalar(_) => scalar,
        ArgValue::Object(_) => !scalar,
    }
}

/// Checks at run time that an argument list fits a parameter list: same
/// length, and each value's shape agrees with its parameter's cardinality
/// and scalar classification.
#[verifier::loop_isolation(false)]
pub fn args_match(params: &Vec<ParamMeta>, args: &Vec<ParamValue>) -> (r: bool)
    ensures
        r == spec_args_match(params@, args@),
{
    if params.len() != args.len() {
        return false;
    }
    let mut i: usize = 0;
    while i < params.len()
        invariant
            i <= params@.len() == args@.len(),
            forall|k: int| 0 <= k < i ==> spec_arg_matches(params@[k], #[trigger] args@[k]),
        decreases params@.len() - i,
    {
        let card = params[i].cardinality();
        let scalar = params[i].is_scalar();
        let ok = match (card, &args[i]) {
            (Cardinality::Single, ParamValue::Single(v)) => value_is(v, scalar),
            (Cardinality::Optional, ParamValue::Optional(o)) => match o {
                Some(v) => value_is(v, scalar),
                None => true,
            },
            (Cardinality::Many, ParamValue::Many(vs)) => {
                let mut all = true;
                let mut j: usize = 0;
                while j < vs.len()
                    invariant
                        j <= vs@.len(),
                        all ==> forall|k: int| 0 <= k < j ==> spec_value_is(
                            #[trigger] vs@[k],
                            spec_is_scalar(params@[i as int].shape),
                        ),
                        !all ==> exists|k: int| 0 <= k < j && !spec_value_is(
                            #[trigger] vs@[k],
                            spec_is_scalar(params@[i as int].shape),
                        ),
                    decreases vs@.len() - j,
                {
                    if !value_is(&vs[j], scalar) {
                        all = false;
                    }
                    j = j + 1;
                }
                all
            },
            _ => false,
        };
        if !ok {
            assert(!spec_arg_matches(params@[i as int], args@[i as int]));
            return false;
        }
        i = i + 1;
    }
    true
}

/// The views of a list of (name, value) string pairs.
pub open spec fn pairs_view(v: Seq<(String, String)>) -> Seq<(Seq<char>, Seq<char>)> {
    v.map_values(|p: (String, String)| (p.0@, p.1@))
}

/// The query pairs a structured value's fields flatten into, in field order.
pub open spec fn spec_fields_pairs(fs: Seq<(String, ScalarValue)>) -> Seq<(Seq<char>, Seq<char>)> {
    fs.map_values(|f: (String, ScalarValue)| (f.0@, spec_scalar_str(f.1)))
}

/// What one parameter contributes to the flattened part of the query string:
/// a structured Query-bound value (present, for Optional) flattens its
/// fields; everything else contributes nothing here.
pub open spec fn spec_flat_contrib(p: ParamMeta, v: ParamValue) -> Seq<(Seq<char>, Seq<char>)> {
    if p.kind is Query && !spec_is_scalar(p.shape) {
        match v {
            ParamValue::Single(ArgValue::Object(fs)) => spec_fields_pairs(fs@),
            ParamValue::Optional(Some(ArgValue::Object(fs))) => spec_fields_pairs(fs@),
            _ => Seq::empty(),
        }
    } else {
        Seq::empty()
    }
}

/// What one parameter contributes to the accumulated scalar query entries:
/// one entry for Single, one when present for Optional, one per element in
/// source order for Many, all under the parameter's resolved key.
pub open spec fn spec_scalar_contrib(p: ParamMeta, v: ParamValue) -> Seq<(Seq<char>, Seq<char>)> {
    if p.kind is Query && spec_is_scalar(p.shape) {
        let key = spec_query_key(p);
        match v {
            ParamValue::Single(val) => seq![(key, spec_value_str(val))],
            ParamValue::Optional(Some(val)) => seq![(key, spec_value_str(val))],
            ParamValue::Optional(None) => Seq::empty(),
            ParamValue::Many(vals) => vals@.map_values(|val: ArgValue| (key, spec_value_str(val))),
        }
    } else {
        Seq::empty()
    }
}

/// The flattened query pairs of all parameters, in declaration order.
pub open spec fn spec_flat_pairs(ps: Seq<ParamMeta>, vs: Seq<ParamValue>) -> Seq<
    (Seq<char>, Seq<char>),
>
    decreases ps.len(),
{
    if ps.len() == 0 {
        Seq::empty()
    } else {
        spec_flat_pairs(ps.drop_last(), vs) + spec_flat_contrib(ps.last(), vs[ps.len() - 1])
    }
}

/// The accumulated scalar query entries of all parameters, in declaration
/// order.
pub open spec fn spec_scalar_pairs(ps: Seq<ParamMeta>, vs: Seq<ParamValue>) -> Seq<
    (Seq<char>, Seq<char>),
>
    decreases ps.len(),
{
    if ps.len() == 0 {
        Seq::empty()
    } else {
        spec_scalar_pairs(ps.drop_last(), vs) + spec_scalar_contrib(ps.last(), vs[ps.len() - 1])
    }
}

/// The whole query-pair list of one call: first the pairs flattened out of
/// structured Query parameters, then the accumulated scalar entries, which
/// are applied as a single update at the end of the query stage.
pub open spec fn spec_query_pairs(ps: Seq<ParamMeta>, vs: Seq<ParamValue>) -> Seq<
    (Seq<char>, Seq<char>),
> {
    spec_flat_pairs(ps, vs) + spec_scalar_pairs(ps, vs)
}

/// The parameter's resolved query key: its explicit key, else its identifier.
pub fn query_key(p: &ParamMeta) -> (r: String)
    ensures
        r@ == spec_query_key(*p),
{
    match &p.kind {
        ParamKind::Query(Some(k)) => k.clone(),
        _ => p.ident.clone(),
    }
}

/// The parameter's resolved header wire name: its explicit name, else its
/// identifier.
pub fn wire_name(p: &ParamMeta) -> (r: String)
    ensures
        r@ == spec_wire_name(*p),
{
    match &p.kind {
        ParamKind::Header(Some(n)) => n.clone(),
        _ => p.ident.clone(),
    }
}

#[verifier::loop_isolation(false)]
fn push_fields(out: &mut Vec<(String, String)>, fs: &Vec<(String, ScalarValue)>)
    ensures
        pairs_view(final(out)@) == pairs_view(old(out)@) + spec_fields_pairs(fs@),
{
    let mut j: usize = 0;
    while j < fs.len()
        invariant
            j <= fs@.len(),
            pairs_view(out@) == pairs_view(old(out)@) + spec_fields_pairs(fs@.take(j as int)),
        decreases fs@.len() - j,
    {
        let name = fs[j].0.clone();
        let val = scalar_to_string(&fs[j].1);
        let ghost prev = out@;
        out.push((name, val));
        proof {
            assert(pairs_view(out@) =~= pairs_view(prev).push(
                (fs@[j as int].0@, spec_scalar_str(fs@[j as int].1)),
            ));
            assert(spec_fields_pairs(fs@.take(j + 1 as int)) =~= spec_fields_pairs(
                fs@.take(j as int),
            ).push((fs@[j as int].0@, spec_scalar_str(fs@[j as int].1))));
            assert(pairs_view(prev).push((fs@[j as int].0@, spec_scalar_str(fs@[j as int].1)))
                =~= pairs_view(old(out)@) + spec_fields_pairs(fs@.take(j + 1 as int)));
        }
        j = j + 1;
    }
    proof {
        assert(fs@.take(fs@.len() as int) =~= fs@);
    }
}

/// Computes the query-pair list of one call: structured Query parameters
/// flatten their fields in declaration order, then the scalar entries follow,
/// one per Single value, per present Optional value, and per element of a
/// Many value, each under its parameter's resolved key.
#[verifier::loop_isolation(false)]
pub fn query_pairs(params: &Vec<ParamMeta>, args: &Vec<ParamValue>) -> (r: Vec<(String, String)>)
    requires
        spec_args_match(params@, args@),
    ensures
        pairs_view(r@) == spec_query_pairs(params@, args@),
{
    let mut out: Vec<(String, String)> = Vec::new();
    let mut i: usize = 0;
    while i < params.len()
        invariant
            i <= params@.len() == args@.len(),
            pairs_view(out@) == spec_flat_pairs(params@.take(i as int), args@),
        decreases params@.len() - i,
    {
        proof {
            assert(params@.take(i + 1 as int).drop_last() =~= params@.take(i as int));
            assert(params@.take(i + 1 as int).last() == params@[i as int]);
        }
        let p = &params[i];
        let scalar = p.is_scalar();
        let is_query = match &p.kind {
            ParamKind::Query(_) => true,
            _ => false,
        };
        if is_query && !scalar {
            match &args[i] {
                ParamValue::Single(ArgValue::Object(fs)) => {
                    push_fields(&mut out, fs);
                },
                ParamValue::Optional(Some(ArgValue::Object(fs))) => {
                    push_fields(&mut out, fs);
                },
                _ => {
                    proof {
                        assert(pairs_view(out@) + spec_flat_contrib(
                            params@[i as int],
                            args@[i as int],
                        ) =~= pairs_view(out@));
                    }
                },
            }
        } else {
            proof {
                assert(pairs_view(out@) + spec_flat_contrib(params@[i as int], args@[i as int])
                    =~= pairs_view(out@));
            }
        }
        i = i + 1;
    }
    proof {
        assert(params@.take(params@.len() as int) =~= params@);
    }
    let ghost flat = spec_flat_pairs(params@, args@);
    let mut i: usize = 0;
    while i < params.len()
        invariant
            i <= params@.len() == args@.len(),
            spec_args_match(params@, args@),
            flat == spec_flat_pairs(params@, args@),
            pairs_view(out@) == flat + spec_scalar_pairs(params@.take(i as int), args@),
        decreases params@.len() - i,
    {
        proof {
            assert(params@.take(i + 1 as int).drop_last() =~= params@.take(i as int));
            assert(params@.take(i + 1 as int).last() == params@[i as int]);
            assert(spec_arg_matches(params@[i as int], args@[i as int]));
        }
        let p = &params[i];
        let scalar = p.is_scalar();
        let is_query = match &p.kind {
            ParamKind::Query(_) => true,
            _ => false,
        };
        if is_query && scalar {
            let key = query_key(p);
            match &args[i] {
                ParamValue::Single(val) => {
                    let ghost prev = out@;
                    let text = match val {
                        ArgValue::Scalar(sv) => scalar_to_string(sv),
                        ArgValue::Object(_) => String::new(),
                    };
                    out.push((key, text));
                    proof {
                        assert(pairs_view(out@) =~= pairs_view(prev) + spec_scalar_contrib(
                            params@[i as int],
                            args@[i as int],
                        ));
                    }
                },
                ParamValue::Optional(opt) => {
                    match opt {
                        Some(val) => {
                            let ghost prev = out@;
                            let text = match val {
                                ArgValue::Scalar(sv) => scalar_to_string(sv),
                                ArgValue::Object(_) => String::new(),
                            };
                            out.push((key, text));
                            proof {
                                assert(pairs_view(out@) =~= pairs_view(prev) + spec_scalar_contrib(
                                    params@[i as int],
                                    args@[i as int],
                                ));
                            }
                        },
                        None => {
                            proof {
                                assert(pairs_view(out@) + spec_scalar_contrib(
                                    params@[i as int],
                                    args@[i as int],
                                ) =~= pairs_view(out@));
                            }
                        },
                    }
                },
                ParamValue::Many(vals) => {
                    let ghost base = out@;
                    let ghost centries = spec_scalar_contrib(params@[i as int], args@[i as int]);
                    let mut j: usize = 0;
                    while j < vals.len()
                        invariant
                            j <= vals@.len(),
                            key@ == spec_query_key(params@[i as int]),
                            params@[i as int].kind is Query,
                            spec_is_scalar(params@[i as int].shape),
                            centries == spec_scalar_contrib(params@[i as int], args@[i as int]),
                            args@[i as int] == ParamValue::Many(*vals),
                            pairs_view(out@) == pairs_view(base) + centries.take(j as int),
                        decreases vals@.len() - j,
                    {
                        let text = match &vals[j] {
                            ArgValue::Scalar(sv) => scalar_to_string(sv),
                            ArgValue::Object(_) => String::new(),
                        };
                        let ghost prev = out@;
                        out.push((key.clone(), text));
                        proof {
                            assert(centries == vals@.map_values(
                                |val: ArgValue| (spec_query_key(params@[i as int]), spec_value_str(val)),
                            ));
                            assert(centries[j as int] == (
                                spec_query_key(params@[i as int]),
                                spec_value_str(vals@[j as int]),
                            ));
                            assert(pairs_view(out@) =~= pairs_view(prev).push(
                                (key@, spec_value_str(vals@[j as int])),
                            ));
                            assert(centries.take(j + 1 as int) =~= centries.take(j as int).push(
                                centries[j as int],
                            ));
                            assert(pairs_view(prev).push((key@, spec_value_str(vals@[j as int])))
                                =~= pairs_view(base) + centries.take(j + 1 as int));
                        }
                        j = j + 1;
                    }
                    proof {
                        assert(centries.take(vals@.len() as int) =~= centries);
                    }
                },
            }
        } else {
            proof {
                assert(pairs_view(out@) + spec_scalar_contrib(params@[i as int], args@[i as int])
                    =~= pairs_view(out@));
            }
        }
        i = i + 1;
    }
    proof {
        assert(params@.take(params@.len() as int) =~= params@);
    }
    out
}

/// An Optional Query parameter left empty contributes no query entries at
/// all: neither flattened pairs nor accumulated scalar entries.
pub proof fn lemma_optional_absent_contributes_nothing(p: ParamMeta, v: ParamValue)
    requires
        v == ParamValue::Optional(None::<ArgValue>),
    ensures
        spec_flat_contrib(p, v) == Seq::<(Seq<char>, Seq<char>)>::empty(),
        spec_scalar_contrib(p, v) == Seq::<(Seq<char>, Seq<char>)>::empty(),
{
}

/// A Many Query parameter with scalar elements contributes exactly one
/// entry per element, all under the parameter's resolved key, in source
/// order.
pub proof fn lemma_many_scalar_entries(p: ParamMeta, vals: Vec<ArgValue>)
    requires
        p.kind is Query,
        spec_is_scalar(p.shape),
    ensures
        spec_scalar_contrib(p, ParamValue::Many(vals)).len() == vals@.len(),
        forall|k: int|
            0 <= k < vals@.len() ==> spec_scalar_contrib(p, ParamValue::Many(vals))[k] == (
                spec_query_key(p),
                spec_value_str(vals@[k]),
            ),
{
}

/// What one parameter contributes to the parameter-bound headers: a
/// Header-bound scalar value (present, for Optional) adds one header under
/// its resolved wire name; everything else contributes nothing.
pub open spec fn spec_header_contrib(p: ParamMeta, v: ParamValue) -> Seq<(Seq<char>, Seq<char>)> {
    if p.kind is Header {
        match v {
            ParamValue::Single(ArgValue::Scalar(sv)) => seq![(spec_wire_name(p), spec_scalar_str(sv))],
            ParamValue::Optional(Some(ArgValue::Scalar(sv))) => seq![
                (spec_wire_name(p), spec_scalar_str(sv)),
            ],
            _ => Seq::empty(),
        }
    } else {
        Seq::empty()
    }
}

/// The parameter-bound headers of one call, in declaration order.
pub open spec fn spec_param_headers(ps: Seq<ParamMeta>, vs: Seq<ParamValue>) -> Seq<
    (Seq<char>, Seq<char>),
>
    decreases ps.len(),
{
    if ps.len() == 0 {
        Seq::empty()
    } else {
        spec_param_headers(ps.drop_last(), vs) + spec_header_contrib(ps.last(), vs[ps.len() - 1])
    }
}

/// Computes the parameter-bound headers of one call: each Header-bound
/// parameter's present scalar value under its resolved wire name, in
/// declaration order.
#[verifier::loop_isolation(false)]
pub fn param_headers(params: &Vec<ParamMeta>, args: &Vec<ParamValue>) -> (r: Vec<(String, String)>)
    requires
        spec_args_match(params@, args@),
    ensures
        pairs_view(r@) == spec_param_headers(params@, args@),
{
    let mut out: Vec<(String, String)> = Vec::new();
    let mut i: usize = 0;
    while i < params.len()
        invariant
            i <= params@.len() == args@.len(),
            pairs_view(out@) == spec_param_headers(params@.take(i as int), args@),
        decreases params@.len() - i,
    {
        proof {
            assert(params@.take(i + 1 as int).drop_last() =~= params@.take(i as int));
            assert(params@.take(i + 1 as int).last() == params@[i as int]);
        }
        let p = &params[i];
        let is_header = match &p.kind {
            ParamKind::Header(_) => true,
            _ => false,
        };
        let mut handled = false;
        if is_header {
            match &args[i] {
                ParamValue::Single(ArgValue::Scalar(sv)) => {
                    let ghost prev = out@;
                    out.push((wire_name(p), scalar_to_string(sv)));
                    proof {
                        assert(pairs_view(out@) =~= pairs_view(prev) + spec_header_contrib(
                            params@[i as int],
                            args@[i as int],
                        ));
                    }
                    handled = true;
                },
                ParamValue::Optional(Some(ArgValue::Scalar(sv))) => {
                    let ghost prev = out@;
                    out.push((wire_name(p), scalar_to_string(sv)));
                    proof {
                        assert(pairs_view(out@) =~= pairs_view(prev) + spec_header_contrib(
                            params@[i as int],
                            args@[i as int],
                        ));
                    }
                    handled = true;
                },
                _ => {},
            }
        }
        if !handled {
            proof {
                assert(pairs_view(out@) + spec_header_contrib(params@[i as int], args@[i as int])
                    =~= pairs_view(out@));
            }
        }
        i = i + 1;
    }
    proof {
        assert(params@.take(params@.len() as int) =~= params@);
    }
    out
}

} // verus!
