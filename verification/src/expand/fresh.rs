//! The interface expander: parses the interface-level configuration, runs
//! the synthesizer over every declared method, and strips the recognized
//! annotations from the declaration it hands back.

use vstd::prelude::*;
use vstd::string::*;
use crate::config::{ConfigEntry, FreshAttributes, spec_iface_fold, parse_interface_config,
    MethodAttrDecl, spec_route_fold, spec_first_verb, IfaceView, RouteView};
use crate::error::DescribeError;
use crate::expand::method::{MethodCtx, MethodDecl, Stage, spec_ctx_built, spec_stages,
    spec_validate, expand_method_impl};
use crate::http::spec_method_from_name;
use crate::param::{ParamAttr, ParamDecl};

verus! {

/// A whole interface declaration: its name and its method declarations.
#[derive(Debug)]
pub struct TraitDecl {
    pub ident: String,
    pub methods: Vec<MethodDecl>,
}

/// The supported declarative forms. The one form today is an attribute on
/// an interface declaration: the attribute's entries and the declaration.
#[derive(Debug)]
pub enum MacroForm {
    Attribute { entries: Vec<ConfigEntry>, item: TraitDecl },
}

/// Which expander a call asks for; the set of supported forms is closed.
#[derive(Clone, Copy, Debug, PartialEq, Eq, Structural)]
pub enum MacroKind {
    Request,
}

/// One expansion request: the kind asked for and the declarative form.
#[derive(Debug)]
pub struct MacroCall {
    pub kind: MacroKind,
    pub form: MacroForm,
}

impl MacroCall {
    /// Bundles a kind with a form.
    pub fn new(kind: MacroKind, form: MacroForm) -> (r: Self)
        ensures
            r.kind == kind,
            r.form == form,
    {
        MacroCall { kind, form }
    }
}

/// One expanded method: its descriptor and its synthesized stage sequence.
#[derive(Debug)]
pub struct MethodPlan {
    pub ctx: MethodCtx,
    pub stages: Vec<Stage>,
}

/// A fully expanded interface: the parsed configuration, the declaration
/// with the recognized annotations stripped, and one plan per method.
#[derive(Debug)]
pub struct ClientPlan {
    pub attributes: FreshAttributes,
    pub item: TraitDecl,
    pub methods: Vec<MethodPlan>,
}

/// Whether one method plan is exactly what expanding `decl` against the
/// interface endpoint `ep` yields: a descriptor built from the declaration,
/// valid, with its synthesized stage sequence.
pub open spec fn spec_method_plan_ok(mp: MethodPlan, decl: MethodDecl, ep: Option<String>) -> bool {
    &&& spec_ctx_built(mp.ctx, decl, ep)
    &&& spec_validate(mp.ctx) == Ok::<(), DescribeError>(())
    &&& mp.stages@ == spec_stages(mp.ctx)
}

/// Whether expanding `decl` fails with `e`, for some interface endpoint: no
/// verb annotation, bad route options, a missing path, or a validation
/// fault of the built descriptor.
pub open spec fn spec_method_expand_fails(decl: MethodDecl, e: DescribeError) -> bool {
    ||| (spec_first_verb(decl.attrs@) == -1 && e == DescribeError::MissingVerb)
    ||| (spec_first_verb(decl.attrs@) >= 0 && spec_route_fold(
        decl.attrs@[spec_first_verb(decl.attrs@)].entries@,
    ) == Err::<RouteView, DescribeError>(e))
    ||| (spec_first_verb(decl.attrs@) >= 0 && (spec_route_fold(
        decl.attrs@[spec_first_verb(decl.attrs@)].entries@,
    ) matches Ok(rv) && rv.path is None && e == DescribeError::MissingPath))
    ||| (exists|ctx: MethodCtx, ep: Option<String>| #[trigger]
        spec_ctx_built(ctx, decl, ep) && spec_validate(ctx) == Err::<(), DescribeError>(e))
}

/// The method-level annotations that survive stripping: every annotation
/// whose name is not an HTTP verb.
pub open spec fn spec_kept_attrs(s: Seq<MethodAttrDecl>) -> Seq<MethodAttrDecl>
    decreases s.len(),
{
    if s.len() == 0 {
        Seq::empty()
    } else {
        spec_kept_attrs(s.drop_last()) + (if spec_method_from_name(s.last().name@) is Some {
            Seq::empty()
        } else {
            seq![s.last()]
        })
    }
}

/// The parameter-level annotations that survive stripping: only the
/// unrecognized ones.
pub open spec fn spec_kept_param_attrs(s: Seq<ParamAttr>) -> Seq<ParamAttr>
    decreases s.len(),
{
    if s.len() == 0 {
        Seq::empty()
    } else {
        spec_kept_param_attrs(s.drop_last()) + (if s.last() is OtherAttr {
            seq![s.last()]
        } else {
            Seq::empty()
        })
    }
}

proof fn lemma_kept_attrs_front(s: Seq<MethodAttrDecl>)
    requires
        s.len() > 0,
    ensures
        spec_kept_attrs(s) == (if spec_method_from_name(s[0].name@) is Some {
            Seq::<MethodAttrDecl>::empty()
        } else {
            seq![s[0]]
        }) + spec_kept_attrs(s.skip(1)),
    decreases s.len(),
{
    let head: Seq<MethodAttrDecl> = if spec_method_from_name(s[0].name@) is Some {
        Seq::empty()
    } else {
        seq![s[0]]
    };
    if s.len() == 1 {
        assert(s.drop_last() =~= Seq::<MethodAttrDecl>::empty());
        assert(s.skip(1) =~= Seq::<MethodAttrDecl>::empty());
        assert(s.last() == s[0]);
        assert(spec_kept_attrs(s) =~= head + spec_kept_attrs(s.skip(1)));
    } else {
        lemma_kept_attrs_front(s.drop_last());
        assert(s.drop_last()[0] == s[0]);
        assert(s.drop_last().skip(1) =~= s.skip(1).drop_last());
        assert(s.skip(1).len() > 0);
        assert(s.skip(1).last() == s.last());
        assert(spec_kept_attrs(s.skip(1)) == spec_kept_attrs(s.skip(1).drop_last()) + (
        if spec_method_from_name(s.last().name@) is Some {
            Seq::<MethodAttrDecl>::empty()
        } else {
            seq![s.last()]
        }));
        assert(spec_kept_attrs(s) =~= head + spec_kept_attrs(s.skip(1)));
    }
}

proof fn lemma_kept_param_attrs_front(s: Seq<ParamAttr>)
    requires
        s.len() > 0,
    ensures
        spec_kept_param_attrs(s) == (if s[0] is OtherAttr {
            seq![s[0]]
        } else {
            Seq::<ParamAttr>::empty()
        }) + spec_kept_param_attrs(s.skip(1)),
    decreases s.len(),
{
    let head: Seq<ParamAttr> = if s[0] is OtherAttr {
        seq![s[0]]
    } else {
        Seq::empty()
    };
    if s.len() == 1 {
        assert(s.drop_last() =~= Seq::<ParamAttr>::empty());
        assert(s.skip(1) =~= Seq::<ParamAttr>::empty());
        assert(s.last() == s[0]);
        assert(spec_kept_param_attrs(s) =~= head + spec_kept_param_attrs(s.skip(1)));
    } else {
        lemma_kept_param_attrs_front(s.drop_last());
        assert(s.drop_last()[0] == s[0]);
        assert(s.drop_last().skip(1) =~= s.skip(1).drop_last());
        assert(s.skip(1).len() > 0);
        assert(s.skip(1).last() == s.last());
        assert(spec_kept_param_attrs(s.skip(1)) == spec_kept_param_attrs(s.skip(1).drop_last())
            + (if s.last() is OtherAttr {
            seq![s.last()]
        } else {
            Seq::<ParamAttr>::empty()
        }));
        assert(spec_kept_param_attrs(s) =~= head + spec_kept_param_attrs(s.skip(1)));
    }
}

#[verifier::loop_isolation(false)]
fn filter_method_attrs(attrs: &mut Vec<MethodAttrDecl>)
    ensures
        final(attrs)@ == spec_kept_attrs(old(attrs)@),
{
    let ghost orig = old(attrs)@;
    let mut i: usize = 0;
    proof {
        assert(attrs@.take(0) =~= Seq::<MethodAttrDecl>::empty());
        assert(attrs@.skip(0) =~= attrs@);
    }
    while i < attrs.len()
        invariant
            i <= attrs@.len(),
            spec_kept_attrs(orig) == attrs@.take(i as int) + spec_kept_attrs(
                attrs@.skip(i as int),
            ),
        decreases attrs@.len() - i,
    {
        let ghost before = attrs@;
        let is_verb = crate::http::Method::from_name(attrs[i].name.as_str()).is_some();
        proof {
            lemma_kept_attrs_front(before.skip(i as int));
            assert(before.skip(i as int)[0] == before[i as int]);
        }
        if is_verb {
            attrs.remove(i);
            proof {
                assert(attrs@.take(i as int) =~= before.take(i as int));
                assert(attrs@.skip(i as int) =~= before.skip(i + 1 as int));
                assert(before.skip(i as int).skip(1) =~= before.skip(i + 1 as int));
            }
        } else {
            proof {
                assert(before.skip(i as int).skip(1) =~= before.skip(i + 1 as int));
                assert(before.take(i + 1 as int) =~= before.take(i as int).push(
                    before[i as int],
                ));
                assert(before.take(i as int) + (seq![before[i as int]] + spec_kept_attrs(
                    before.skip(i + 1 as int),
                )) =~= before.take(i + 1 as int) + spec_kept_attrs(before.skip(i + 1 as int)));
            }
            i = i + 1;
        }
    }
    proof {
        assert(attrs@.skip(i as int) =~= Seq::<MethodAttrDecl>::empty());
        assert(attrs@.take(i as int) =~= attrs@);
    }
}

#[verifier::loop_isolation(false)]
fn filter_param_attrs(attrs: &mut Vec<ParamAttr>)
    ensures
        final(attrs)@ == spec_kept_param_attrs(old(attrs)@),
{
    let ghost orig = old(attrs)@;
    let mut i: usize = 0;
    proof {
        assert(attrs@.take(0) =~= Seq::<ParamAttr>::empty());
        assert(attrs@.skip(0) =~= attrs@);
    }
    while i < attrs.len()
        invariant
            i <= attrs@.len(),
            spec_kept_param_attrs(orig) == attrs@.take(i as int) + spec_kept_param_attrs(
                attrs@.skip(i as int),
            ),
        decreases attrs@.len() - i,
    {
        let ghost before = attrs@;
        let keep = match &attrs[i] {
            ParamAttr::OtherAttr => true,
            _ => false,
        };
        proof {
            lemma_kept_param_attrs_front(before.skip(i as int));
            assert(before.skip(i as int)[0] == before[i as int]);
        }
        if !keep {
            attrs.remove(i);
            proof {
                assert(attrs@.take(i as int) =~= before.take(i as int));
                assert(attrs@.skip(i as int) =~= before.skip(i + 1 as int));
                assert(before.skip(i as int).skip(1) =~= before.skip(i + 1 as int));
            }
        } else {
            proof {
                assert(before.skip(i as int).skip(1) =~= before.skip(i + 1 as int));
                assert(before.take(i + 1 as int) =~= before.take(i as int).push(
                    before[i as int],
                ));
                assert(before.take(i as int) + (seq![before[i as int]] + spec_kept_param_attrs(
                    before.skip(i + 1 as int),
                )) =~= before.take(i + 1 as int) + spec_kept_param_attrs(
                    before.skip(i + 1 as int),
                ));
            }
            i = i + 1;
        }
    }
    proof {
        assert(attrs@.skip(i as int) =~= Seq::<ParamAttr>::empty());
        assert(attrs@.take(i as int) =~= attrs@);
    }
}

/// Strips the recognized annotations out of a declaration: verb-named
/// annotations leave the methods, and `path`/`query`/`json`/`header`
/// annotations leave the parameters; everything else stays as it was.
#[verifier::loop_isolation(false)]
pub fn strip_custom_attrs_in_trait(t: &mut TraitDecl)
    ensures
        final(t).ident == old(t).ident,
        final(t).methods@.len() == old(t).methods@.len(),
        forall|m: int|
            0 <= m < old(t).methods@.len() ==> {
                &&& (#[trigger] final(t).methods@[m]).ident == old(t).methods@[m].ident
                &&& final(t).methods@[m].attrs@ == spec_kept_attrs(old(t).methods@[m].attrs@)
                &&& final(t).methods@[m].params@.len() == old(t).methods@[m].params@.len()
                &&& forall|p: int|
                    0 <= p < old(t).methods@[m].params@.len() ==> {
                        &&& (#[trigger] final(t).methods@[m].params@[p]).ident == old(
                            t,
                        ).methods@[m].params@[p].ident
                        &&& final(t).methods@[m].params@[p].shape == old(
                            t,
                        ).methods@[m].params@[p].shape
                        &&& final(t).methods@[m].params@[p].attrs@ == spec_kept_param_attrs(
                            old(t).methods@[m].params@[p].attrs@,
                        )
                    }
            },
{
    let ghost orig = old(t).methods@;
    let mut done: Vec<MethodDecl> = Vec::new();
    while t.methods.len() > 0
        invariant
            t.ident == old(t).ident,
            done@.len() + t.methods@.len() == orig.len(),
            forall|k: int| 0 <= k < t.methods@.len() ==> #[trigger] t.methods@[k] == orig[
                done@.len() + k
            ],
            forall|k: int|
                0 <= k < done@.len() ==> {
                    &&& (#[trigger] done@[k]).ident == orig[k].ident
                    &&& done@[k].attrs@ == spec_kept_attrs(orig[k].attrs@)
                    &&& done@[k].params@.len() == orig[k].params@.len()
                    &&& forall|p: int|
                        0 <= p < orig[k].params@.len() ==> {
                            &&& (#[trigger] done@[k].params@[p]).ident == orig[k].params@[p].ident
                            &&& done@[k].params@[p].shape == orig[k].params@[p].shape
                            &&& done@[k].params@[p].attrs@ == spec_kept_param_attrs(
                                orig[k].params@[p].attrs@,
                            )
                        }
                },
        decreases t.methods@.len(),
    {
        let ghost before = t.methods@;
        let mut md = t.methods.remove(0);
        proof {
            assert(t.methods@ =~= before.skip(1));
            assert(md == orig[done@.len() as int]);
        }
        filter_method_attrs(&mut md.attrs);
        let ghost mdp = md.params@;
        let ghost mident = md.ident;
        let ghost mattrs = md.attrs@;
        let mut fixed: Vec<ParamDecl> = Vec::new();
        while md.params.len() > 0
            invariant
                md.ident == mident,
                md.attrs@ == mattrs,
                fixed@.len() + md.params@.len() == mdp.len(),
                forall|k: int| 0 <= k < md.params@.len() ==> #[trigger] md.params@[k] == mdp[
                    fixed@.len() + k
                ],
                forall|k: int|
                    0 <= k < fixed@.len() ==> {
                        &&& (#[trigger] fixed@[k]).ident == mdp[k].ident
                        &&& fixed@[k].shape == mdp[k].shape
                        &&& fixed@[k].attrs@ == spec_kept_param_attrs(mdp[k].attrs@)
                    },
            decreases md.params@.len(),
        {
            let ghost pbefore = md.params@;
            let mut pd = md.params.remove(0);
            proof {
                assert(md.params@ =~= pbefore.skip(1));
                assert(pd == mdp[fixed@.len() as int]);
            }
            filter_param_attrs(&mut pd.attrs);
            fixed.push(pd);
        }
        md.params = fixed;
        proof {
            let j = done@.len() as int;
            assert(md.ident == orig[j].ident);
            assert(md.attrs@ == spec_kept_attrs(orig[j].attrs@));
            assert(mdp == orig[j].params@);
            assert(md.params@.len() == orig[j].params@.len());
            assert forall|p: int| 0 <= p < orig[j].params@.len() implies {
                &&& (#[trigger] md.params@[p]).ident == orig[j].params@[p].ident
                &&& md.params@[p].shape == orig[j].params@[p].shape
                &&& md.params@[p].attrs@ == spec_kept_param_attrs(orig[j].params@[p].attrs@)
            } by {
                assert(mdp[p] == orig[j].params@[p]);
            }
        }
        let ghost done_before = done@;
        done.push(md);
        proof {
            assert forall|k: int| 0 <= k < t.methods@.len() implies #[trigger] t.methods@[k]
                == orig[done@.len() + k] by {
            }
        }
    }
    t.methods = done;
}

/// The expander for the request form.
#[derive(Debug)]
pub struct FreshExpander;

impl FreshExpander {
    /// Expands one interface declaration: parses the interface-level
    /// configuration, expands and validates every method against it, and
    /// strips the recognized annotations from the declaration handed back.
    /// The first failure wins.
    #[verifier::loop_isolation(false)]
    pub fn expand(&self, call: MacroCall) -> (r: Result<ClientPlan, DescribeError>)
        ensures
            match r {
                Ok(plan) => {
                    &&& call.form matches MacroForm::Attribute { entries, item } && {
                        &&& spec_iface_fold(entries@) == Ok::<IfaceView, DescribeError>(
                            crate::config::spec_attrs_view(plan.attributes),
                        )
                        &&& plan.methods@.len() == item.methods@.len()
                        &&& forall|i: int|
                            0 <= i < item.methods@.len() ==> spec_method_plan_ok(
                                #[trigger] plan.methods@[i],
                                item.methods@[i],
                                plan.attributes.endpoint,
                            )
                        &&& plan.item.ident == item.ident
                        &&& plan.item.methods@.len() == item.methods@.len()
                    }
                },
                Err(e) => {
                    call.form matches MacroForm::Attribute { entries, item } && {
                        ||| spec_iface_fold(entries@) == Err::<IfaceView, DescribeError>(e)
                        ||| exists|i: int|
                            0 <= i < item.methods@.len() && spec_method_expand_fails(
                                #[trigger] item.methods@[i],
                                e,
                            )
                    }
                },
            },
    {
        let ghost form0 = call.form;
        match call.form {
            MacroForm::Attribute { entries, item } => {
                proof {
                    assert(form0 == MacroForm::Attribute { entries, item });
                }
                let attributes = match parse_interface_config(&entries) {
                    Ok(a) => a,
                    Err(e) => {
                        return Err(e);
                    },
                };
                let mut plans: Vec<MethodPlan> = Vec::new();
                let mut i: usize = 0;
                while i < item.methods.len()
                    invariant
                        i <= item.methods@.len(),
                        plans@.len() == i,
                        forall|k: int|
                            0 <= k < i ==> spec_method_plan_ok(
                                #[trigger] plans@[k],
                                item.methods@[k],
                                attributes.endpoint,
                            ),
                    decreases item.methods@.len() - i,
                {
                    match expand_method_impl(&item.methods[i], &attributes.endpoint) {
                        Ok(pair) => {
                            plans.push(MethodPlan { ctx: pair.0, stages: pair.1 });
                        },
                        Err(e) => {
                            proof {
                                let decl = item.methods@[i as int];
                                let epv = attributes.endpoint;
                                if exists|ctx: MethodCtx| #[trigger]
                                    spec_ctx_built(ctx, decl, epv) && spec_validate(ctx) == Err::<
                                        (),
                                        DescribeError,
                                    >(e) {
                                    let ctx = choose|ctx: MethodCtx| #[trigger]
                                        spec_ctx_built(ctx, decl, epv) && spec_validate(ctx)
                                            == Err::<(), DescribeError>(e);
                                    assert(spec_ctx_built(ctx, decl, epv));
                                }
                                assert(spec_method_expand_fails(decl, e));
                                assert(form0 == MacroForm::Attribute { entries, item });
                                assert(form0->Attribute_item == item);
                                assert(exists|ii: int|
                                    0 <= ii < form0->Attribute_item.methods@.len()
                                        && spec_method_expand_fails(
                                        #[trigger] form0->Attribute_item.methods@[ii],
                                        e,
                                    ));
                            }
                            return Err(e);
                        },
                    }
                    i = i + 1;
                }
                let mut item = item;
                strip_custom_attrs_in_trait(&mut item);
                Ok(ClientPlan { attributes, item, methods: plans })
            },
        }
    }
}

/// Expands one call with the expander its kind selects; the supported set
/// of kinds is closed.
pub fn dispatch(call: MacroCall) -> (r: Result<ClientPlan, DescribeError>)
    ensures
        match r {
            Ok(plan) => {
                &&& call.form matches MacroForm::Attribute { entries, item } && {
                    &&& spec_iface_fold(entries@) == Ok::<IfaceView, DescribeError>(
                        crate::config::spec_attrs_view(plan.attributes),
                    )
                    &&& plan.methods@.len() == item.methods@.len()
                    &&& forall|i: int|
                        0 <= i < item.methods@.len() ==> spec_method_plan_ok(
                            #[trigger] plan.methods@[i],
                            item.methods@[i],
                            plan.attributes.endpoint,
                        )
                }
            },
            Err(e) => {
                call.form matches MacroForm::Attribute { entries, item } && {
                    ||| spec_iface_fold(entries@) == Err::<IfaceView, DescribeError>(e)
                    ||| exists|i: int|
                        0 <= i < item.methods@.len() && spec_method_expand_fails(
                            #[trigger] item.methods@[i],
                            e,
                        )
                }
            },
        },
{
    let expander = FreshExpander;
    match call.kind {
        MacroKind::Request => expander.expand(call),
    }
}

} // verus!
