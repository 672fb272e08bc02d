//! Parameter model and classifier: declared type shapes, binding kinds,
//! cardinality, and the scalar test.

use vstd::prelude::*;

verus! {

/// The shape of a parameter's declared type, as far as request construction
/// cares: scalar kinds, structured (composite) values, and the recognized
/// optional and multi-value wrappers.
#[derive(Debug)]
pub enum TypeShape {
    /// A string type.
    Text,
    /// A boolean type.
    Boolean,
    /// A fixed-width signed or unsigned integer type.
    Integer,
    /// A floating-point type (the kind only; values are carried as text).
    Float,
    /// A structured, composite type.
    Structured,
    /// A recognized optional wrapper around an inner type.
    Optional(Box<TypeShape>),
    /// A recognized multi-value container of an element type.
    Many(Box<TypeShape>),
}

/// How many values a parameter carries.
#[derive(Clone, Copy, Debug, PartialEq, Eq, Structural)]
pub enum Cardinality {
    Single,
    Optional,
    Many,
}

/// The role a parameter plays in request construction. An explicit key on
/// `Query` or a wire name on `Header` is optional; when absent, the
/// parameter's identifier is used.
#[derive(Debug)]
pub enum ParamKind {
    Path,
    Query(Option<String>),
    Json,
    Header(Option<String>),
    Unbound,
}

/// One classified method parameter.
#[derive(Debug)]
pub struct ParamMeta {
    /// The parameter's identifier in the method signature.
    pub ident: String,
    /// The declared type's shape; absent only for a receiver-like parameter.
    pub shape: Option<TypeShape>,
    /// The binding kind taken from the parameter's annotation.
    pub kind: ParamKind,
}

/// Whether a type shape itself counts as scalar: strings, booleans and
/// numbers are scalar, everything else is not.
pub open spec fn spec_is_scalar_shape(t: TypeShape) -> bool {
    match t {
        TypeShape::Text => true,
        TypeShape::Boolean => true,
        TypeShape::Integer => true,
        TypeShape::Float => true,
        _ => false,
    }
}

/// The cardinality a declared type resolves to: its outermost recognized
/// wrapper, or `Single` when there is none (or no declared type).
pub open spec fn spec_cardinality(t: Option<TypeShape>) -> Cardinality {
    match t {
        Some(TypeShape::Optional(_)) => Cardinality::Optional,
        Some(TypeShape::Many(_)) => Cardinality::Many,
        _ => Cardinality::Single,
    }
}

/// The scalar test: applied to the wrapped or element type under a
/// recognized wrapper, else to the type itself. A parameter without a
/// declared type counts as scalar (it contributes nothing anyway).
pub open spec fn spec_is_scalar(t: Option<TypeShape>) -> bool {
    match t {
        None => true,
        Some(TypeShape::Optional(inner)) => spec_is_scalar_shape(*inner),
        Some(TypeShape::Many(inner)) => spec_is_scalar_shape(*inner),
        Some(other) => spec_is_scalar_shape(other),
    }
}

/// Copies an optional string, value for value.
pub fn clone_opt_string(o: &Option<String>) -> (r: Option<String>)
    ensures
        r == *o,
{
    match o {
        Some(s) => Some(s.clone()),
        None => None,
    }
}

/// Copies a type shape, value for value.
pub fn clone_shape(t: &TypeShape) -> (r: TypeShape)
    ensures
        r == *t,
    decreases *t,
{
    match t {
        TypeShape::Text => TypeShape::Text,
        TypeShape::Boolean => TypeShape::Boolean,
        TypeShape::Integer => TypeShape::Integer,
        TypeShape::Float => TypeShape::Float,
        TypeShape::Structured => TypeShape::Structured,
        TypeShape::Optional(inner) => TypeShape::Optional(Box::new(clone_shape(&**inner))),
        TypeShape::Many(inner) => TypeShape::Many(Box::new(clone_shape(&**inner))),
    }
}

/// Copies an optional type shape, value for value.
pub fn clone_opt_shape(t: &Option<TypeShape>) -> (r: Option<TypeShape>)
    ensures
        r == *t,
{
    match t {
        Some(s) => Some(clone_shape(s)),
        None => None,
    }
}

fn is_scalar_shape(t: &TypeShape) -> (r: bool)
    ensures
        r == spec_is_scalar_shape(*t),
{
    match t {
        TypeShape::Text => true,
        TypeShape::Boolean => true,
        TypeShape::Integer => true,
        TypeShape::Float => true,
        _ => false,
    }
}

impl ParamMeta {
    /// Resolves the parameter's cardinality from its declared type.
    pub fn cardinality(&self) -> (r: Cardinality)
        ensures
            r == spec_cardinality(self.shape),
    {
        match &self.shape {
            Some(TypeShape::Optional(_)) => Cardinality::Optional,
            Some(TypeShape::Many(_)) => Cardinality::Many,
            _ => Cardinality::Single,
        }
    }

    /// Resolves whether the parameter's carried value is scalar.
    pub fn is_scalar(&self) -> (r: bool)
        ensures
            r == spec_is_scalar(self.shape),
    {
        match &self.shape {
            None => true,
            Some(TypeShape::Optional(inner)) => is_scalar_shape(inner),
            Some(TypeShape::Many(inner)) => is_scalar_shape(inner),
            Some(other) => is_scalar_shape(other),
        }
    }
}

/// The query key a parameter resolves to: its explicit key when one was
/// given, else its identifier.
pub open spec fn spec_query_key(p: ParamMeta) -> Seq<char> {
    match p.kind {
        ParamKind::Query(Some(k)) => k@,
        _ => p.ident@,
    }
}

/// The header wire name a parameter resolves to: its explicit name when one
/// was given, else its identifier.
pub open spec fn spec_wire_name(p: ParamMeta) -> Seq<char> {
    match p.kind {
        ParamKind::Header(Some(n)) => n@,
        _ => p.ident@,
    }
}

/// One annotation written on a parameter, before classification.
#[derive(Debug)]
pub enum ParamAttr {
    PathAttr,
    QueryAttr(Option<String>),
    JsonAttr,
    HeaderAttr(Option<String>),
    /// An annotation the library does not recognize.
    OtherAttr,
}

/// One declared method parameter, before classification.
#[derive(Debug)]
pub struct ParamDecl {
    pub ident: String,
    pub shape: Option<TypeShape>,
    pub attrs: Vec<ParamAttr>,
}

/// The classifier's walk over one parameter's annotations: a later `path`,
/// `query` or `json` annotation replaces an earlier one, and a `header`
/// annotation, wherever it stands, wins over all of them.
pub open spec fn spec_attr_state(attrs: Seq<ParamAttr>) -> (ParamKind, Option<Option<String>>)
    decreases attrs.len(),
{
    if attrs.len() == 0 {
        (ParamKind::Unbound, None)
    } else {
        let prev = spec_attr_state(attrs.drop_last());
        match attrs.last() {
            ParamAttr::PathAttr => (ParamKind::Path, prev.1),
            ParamAttr::QueryAttr(k) => (ParamKind::Query(k), prev.1),
            ParamAttr::JsonAttr => (ParamKind::Json, prev.1),
            ParamAttr::HeaderAttr(n) => (prev.0, Some(n)),
            ParamAttr::OtherAttr => prev,
        }
    }
}

/// The binding kind a parameter's annotations resolve to.
pub open spec fn spec_param_kind(attrs: Seq<ParamAttr>) -> ParamKind {
    let st = spec_attr_state(attrs);
    match st.1 {
        Some(n) => ParamKind::Header(n),
        None => st.0,
    }
}

/// Classifies the declared parameters: each keeps its identifier and type
/// shape, and gets the binding kind its annotations resolve to. A parameter
/// with no recognized annotation is `Unbound` and will contribute nothing to
/// request construction.
pub fn parse_param_attrs(decls: &Vec<ParamDecl>) -> (r: Vec<ParamMeta>)
    ensures
        r@.len() == decls@.len(),
        forall|i: int|
            0 <= i < decls@.len() ==> #[trigger] r@[i] == (ParamMeta {
                ident: decls@[i].ident,
                shape: decls@[i].shape,
                kind: spec_param_kind(decls@[i].attrs@),
            }),
{
    let mut out: Vec<ParamMeta> = Vec::new();
    let mut i: usize = 0;
    while i < decls.len()
        invariant
            i <= decls@.len(),
            out@.len() == i,
            forall|j: int|
                0 <= j < i ==> #[trigger] out@[j] == (ParamMeta {
                    ident: decls@[j].ident,
                    shape: decls@[j].shape,
                    kind: spec_param_kind(decls@[j].attrs@),
                }),
        decreases decls@.len() - i,
    {
        let d = &decls[i];
        let mut kind = ParamKind::Unbound;
        let mut header_name: Option<Option<String>> = None;
        let mut j: usize = 0;
        while j < d.attrs.len()
            invariant
                j <= d.attrs@.len(),
                (kind, header_name) == spec_attr_state(d.attrs@.take(j as int)),
            decreases d.attrs@.len() - j,
        {
            proof {
                assert(d.attrs@.take(j + 1 as int).drop_last() =~= d.attrs@.take(j as int));
                assert(d.attrs@.take(j + 1 as int).last() == d.attrs@[j as int]);
            }
            match &d.attrs[j] {
                ParamAttr::PathAttr => {
                    kind = ParamKind::Path;
                },
                ParamAttr::QueryAttr(k) => {
                    kind = ParamKind::Query(clone_opt_string(k));
                },
                ParamAttr::JsonAttr => {
                    kind = ParamKind::Json;
                },
                ParamAttr::HeaderAttr(n) => {
                    header_name = Some(clone_opt_string(n));
                },
                ParamAttr::OtherAttr => {},
            }
            j = j + 1;
        }
        proof {
            assert(d.attrs@.take(d.attrs@.len() as int) =~= d.attrs@);
        }
        let kind = match header_name {
            Some(n) => ParamKind::Header(n),
            None => kind,
        };
        out.push(ParamMeta { ident: d.ident.clone(), shape: clone_opt_shape(&d.shape), kind });
        i = i + 1;
    }
    out
}

} // verus!
