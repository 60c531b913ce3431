//! Semantic analysis: type inference over expressions and signatures, macro
//! expansion, trait method resolution and call graphs.
use vstd::prelude::*;
use petgraph::visit::EdgeRef;
use crate::text::{
    concat, concat3, copy_opt, copy_strings, decimal, join, opt_view, spec_contains, spec_decimal,
    spec_join, spec_starts_with, str_contains, str_eq, str_starts_with, string_views, to_string,
    lemma_string_views_push, spec_trim, str_trim,
};
use crate::string_map::StringMap;
use crate::syntax::{
    BodyEvent, ConstDefault, Expr, FnArg, FnItem, Fields, GenericArgument, GenericParam, ImplItem,
    Item, LitKind, Pat, PathArguments, PathSegment, Signature, SourceFile, SynPath, SynType,
    TraitItem, TypeBound, Visibility as SynVisibility, flat_items, flat_item_refs, item_refs_view,
};
use crate::utils::{is_ident, path_is_ident};

verus! {

/// A place in a source file.
#[derive(Clone)]
pub struct SourceLocation {
    pub file: String,
    pub line: usize,
    pub column: usize,
}

/// How a function is called.
#[derive(Clone, Copy, PartialEq, Eq, Debug)]
pub enum CallType {
    DirectCall,
    MethodCall,
    TraitMethodCall,
    ClosureCall,
    MacroCall,
}

// ---------------------------------------------------------------------------
// Inferred types
// ---------------------------------------------------------------------------

/// A type as the analysis infers it. `confidence_pct` is the confidence in
/// percent (0 to 100).
pub struct InferredType {
    pub name: String,
    pub full_path: String,
    pub generic_args: Vec<InferredType>,
    pub is_reference: bool,
    pub is_mutable: bool,
    pub lifetime: Option<String>,
    pub confidence_pct: u8,
    pub type_kind: TypeKind,
    pub associated_types: Vec<AssociatedTypeInfo>,
    pub higher_ranked_lifetimes: Vec<String>,
    pub const_params: Vec<ConstGenericParam>,
}

pub struct AssociatedTypeInfo {
    pub trait_name: String,
    pub assoc_name: String,
    pub resolved_type: Option<Box<InferredType>>,
}

pub struct ConstGenericParam {
    pub name: String,
    pub value: Option<ConstValue>,
    pub param_type: String,
}

/// A constant's value; a floating-point value keeps its written form.
pub enum ConstValue {
    Integer(i64),
    String(String),
    Boolean(bool),
    Usize(usize),
    Float(String),
}

pub struct TraitBound {
    pub trait_path: String,
    pub generic_args: Vec<InferredType>,
}

pub enum TypeKind {
    Struct,
    Enum,
    Union,
    Trait,
    TypeAlias,
    Function { params: Vec<InferredType>, return_type: Box<InferredType>, is_async: bool },
    Tuple(Vec<InferredType>),
    Array { element_type: Box<InferredType>, size: Option<usize> },
    Slice(Box<InferredType>),
    Reference { inner: Box<InferredType>, mutable: bool, lifetime: Option<String> },
    Pointer { inner: Box<InferredType>, mutable: bool },
    Generic { name: String, bounds: Vec<TraitBound> },
    AssociatedType { trait_name: String, assoc_name: String },
    HigherRanked { lifetimes: Vec<String>, inner: Box<InferredType> },
    TraitObject { traits: Vec<String>, lifetime: Option<String> },
    Projection { base: Box<InferredType>, associated_type: String },
    Never,
    Primitive(String),
}

/// An inferred type as plain values.
pub struct InferredTypeView {
    pub name: Seq<char>,
    pub full_path: Seq<char>,
    pub generic_args: Seq<InferredTypeView>,
    pub is_reference: bool,
    pub is_mutable: bool,
    pub lifetime: Option<Seq<char>>,
    pub confidence_pct: u8,
    pub type_kind: TypeKindView,
    pub associated_types: Seq<AssociatedTypeView>,
    pub higher_ranked_lifetimes: Seq<Seq<char>>,
    pub const_params: Seq<ConstParamView>,
}

pub struct AssociatedTypeView {
    pub trait_name: Seq<char>,
    pub assoc_name: Seq<char>,
    pub resolved_type: Option<Box<InferredTypeView>>,
}

pub enum ConstValueView {
    Integer(i64),
    String(Seq<char>),
    Boolean(bool),
    Usize(usize),
    Float(Seq<char>),
}

pub struct ConstParamView {
    pub name: Seq<char>,
    pub value: Option<ConstValueView>,
    pub param_type: Seq<char>,
}

pub struct TraitBoundView {
    pub trait_path: Seq<char>,
    pub generic_args: Seq<InferredTypeView>,
}

pub enum TypeKindView {
    Struct,
    Enum,
    Union,
    Trait,
    TypeAlias,
    Function { params: Seq<InferredTypeView>, return_type: Box<InferredTypeView>, is_async: bool },
    Tuple(Seq<InferredTypeView>),
    Array { element_type: Box<InferredTypeView>, size: Option<usize> },
    Slice(Box<InferredTypeView>),
    Reference { inner: Box<InferredTypeView>, mutable: bool, lifetime: Option<Seq<char>> },
    Pointer { inner: Box<InferredTypeView>, mutable: bool },
    Generic { name: Seq<char>, bounds: Seq<TraitBoundView> },
    AssociatedType { trait_name: Seq<char>, assoc_name: Seq<char> },
    HigherRanked { lifetimes: Seq<Seq<char>>, inner: Box<InferredTypeView> },
    TraitObject { traits: Seq<Seq<char>>, lifetime: Option<Seq<char>> },
    Projection { base: Box<InferredTypeView>, associated_type: Seq<char> },
    Never,
    Primitive(Seq<char>),
}

pub open spec fn const_value_view(v: ConstValue) -> ConstValueView {
    match v {
        ConstValue::Integer(i) => ConstValueView::Integer(i),
        ConstValue::String(s) => ConstValueView::String(s@),
        ConstValue::Boolean(b) => ConstValueView::Boolean(b),
        ConstValue::Usize(u) => ConstValueView::Usize(u),
        ConstValue::Float(f) => ConstValueView::Float(f@),
    }
}

pub open spec fn const_param_view(p: ConstGenericParam) -> ConstParamView {
    ConstParamView {
        name: p.name@,
        value: match p.value {
            Some(v) => Some(const_value_view(v)),
            None => None,
        },
        param_type: p.param_type@,
    }
}

pub open spec fn type_view(t: InferredType) -> InferredTypeView
    decreases t,
{
    InferredTypeView {
        name: t.name@,
        full_path: t.full_path@,
        generic_args: type_views(t.generic_args@),
        is_reference: t.is_reference,
        is_mutable: t.is_mutable,
        lifetime: opt_view(t.lifetime),
        confidence_pct: t.confidence_pct,
        type_kind: kind_view(t.type_kind),
        associated_types: assoc_views(t.associated_types@),
        higher_ranked_lifetimes: string_views(t.higher_ranked_lifetimes@),
        const_params: t.const_params@.map_values(|p: ConstGenericParam| const_param_view(p)),
    }
}

pub open spec fn type_views(ts: Seq<InferredType>) -> Seq<InferredTypeView>
    decreases ts,
{
    if ts.len() == 0 {
        Seq::empty()
    } else {
        type_views(ts.drop_last()).push(type_view(ts.last()))
    }
}

pub open spec fn assoc_views(ts: Seq<AssociatedTypeInfo>) -> Seq<AssociatedTypeView>
    decreases ts,
{
    if ts.len() == 0 {
        Seq::empty()
    } else {
        let a = ts.last();
        assoc_views(ts.drop_last()).push(
            AssociatedTypeView {
                trait_name: a.trait_name@,
                assoc_name: a.assoc_name@,
                resolved_type: match a.resolved_type {
                    Some(b) => Some(Box::new(type_view(*b))),
                    None => None,
                },
            },
        )
    }
}

pub open spec fn bound_views(bs: Seq<TraitBound>) -> Seq<TraitBoundView>
    decreases bs,
{
    if bs.len() == 0 {
        Seq::empty()
    } else {
        bound_views(bs.drop_last()).push(
            TraitBoundView { trait_path: bs.last().trait_path@, generic_args: type_views(bs.last().generic_args@) },
        )
    }
}

pub open spec fn kind_view(k: TypeKind) -> TypeKindView
    decreases k,
{
    match k {
        TypeKind::Struct => TypeKindView::Struct,
        TypeKind::Enum => TypeKindView::Enum,
        TypeKind::Union => TypeKindView::Union,
        TypeKind::Trait => TypeKindView::Trait,
        TypeKind::TypeAlias => TypeKindView::TypeAlias,
        TypeKind::Function { params, return_type, is_async } => TypeKindView::Function {
            params: type_views(params@),
            return_type: Box::new(type_view(*return_type)),
            is_async,
        },
        TypeKind::Tuple(es) => TypeKindView::Tuple(type_views(es@)),
        TypeKind::Array { element_type, size } => TypeKindView::Array { element_type: Box::new(type_view(*element_type)), size },
        TypeKind::Slice(e) => TypeKindView::Slice(Box::new(type_view(*e))),
        TypeKind::Reference { inner, mutable, lifetime } => TypeKindView::Reference {
            inner: Box::new(type_view(*inner)),
            mutable,
            lifetime: opt_view(lifetime),
        },
        TypeKind::Pointer { inner, mutable } => TypeKindView::Pointer { inner: Box::new(type_view(*inner)), mutable },
        TypeKind::Generic { name, bounds } => TypeKindView::Generic { name: name@, bounds: bound_views(bounds@) },
        TypeKind::AssociatedType { trait_name, assoc_name } => TypeKindView::AssociatedType {
            trait_name: trait_name@,
            assoc_name: assoc_name@,
        },
        TypeKind::HigherRanked { lifetimes, inner } => TypeKindView::HigherRanked {
            lifetimes: string_views(lifetimes@),
            inner: Box::new(type_view(*inner)),
        },
        TypeKind::TraitObject { traits, lifetime } => TypeKindView::TraitObject {
            traits: string_views(traits@),
            lifetime: opt_view(lifetime),
        },
        TypeKind::Projection { base, associated_type } => TypeKindView::Projection {
            base: Box::new(type_view(*base)),
            associated_type: associated_type@,
        },
        TypeKind::Never => TypeKindView::Never,
        TypeKind::Primitive(s) => TypeKindView::Primitive(s@),
    }
}

impl View for InferredType {
    type V = InferredTypeView;

    open spec fn view(&self) -> InferredTypeView {
        type_view(*self)
    }
}

/// A copy of const parameter records.
pub fn copy_const_params(v: &Vec<ConstGenericParam>) -> (res: Vec<ConstGenericParam>)
    ensures
        res@.map_values(|p: ConstGenericParam| const_param_view(p)) == v@.map_values(
            |p: ConstGenericParam| const_param_view(p),
        ),
{
    let mut out: Vec<ConstGenericParam> = Vec::new();
    let mut i: usize = 0;
    while i < v.len()
        invariant
            i <= v.len(),
            out@.map_values(|p: ConstGenericParam| const_param_view(p)) == v@.take(i as int).map_values(
                |p: ConstGenericParam| const_param_view(p),
            ),
        decreases v.len() - i,
    {
        let p = &v[i];
        let value = match &p.value {
            Some(ConstValue::Integer(x)) => Some(ConstValue::Integer(*x)),
            Some(ConstValue::String(x)) => Some(ConstValue::String(x.clone())),
            Some(ConstValue::Boolean(x)) => Some(ConstValue::Boolean(*x)),
            Some(ConstValue::Usize(x)) => Some(ConstValue::Usize(*x)),
            Some(ConstValue::Float(x)) => Some(ConstValue::Float(x.clone())),
            None => None,
        };
        let c = ConstGenericParam { name: p.name.clone(), value, param_type: p.param_type.clone() };
        let ghost before = out@;
        out.push(c);
        proof {
            assert(out@.map_values(|p: ConstGenericParam| const_param_view(p)) =~= before.map_values(
                |p: ConstGenericParam| const_param_view(p),
            ).push(const_param_view(c)));
            assert(v@.take(i + 1).map_values(|p: ConstGenericParam| const_param_view(p)) =~= v@.take(
                i as int,
            ).map_values(|p: ConstGenericParam| const_param_view(p)).push(const_param_view(v@[i as int])));
        }
        i = i + 1;
    }
    proof {
        assert(v@.take(v@.len() as int) =~= v@);
    }
    out
}

impl InferredType {
    /// A copy with the same view.
    pub fn copy(&self) -> (res: Self)
        ensures
            res@ == self@,
        decreases self,
    {
        proof {
            assert(decreases_to!(*self => self.generic_args));
            assert(decreases_to!(*self => self.type_kind));
            assert(decreases_to!(*self => self.associated_types));
        }
        InferredType {
            name: self.name.clone(),
            full_path: self.full_path.clone(),
            generic_args: copy_types(&self.generic_args),
            is_reference: self.is_reference,
            is_mutable: self.is_mutable,
            lifetime: copy_opt(&self.lifetime),
            confidence_pct: self.confidence_pct,
            type_kind: self.type_kind.copy(),
            associated_types: copy_assocs(&self.associated_types),
            higher_ranked_lifetimes: copy_strings(&self.higher_ranked_lifetimes),
            const_params: copy_const_params(&self.const_params),
        }
    }
}

/// Copies of the types, with the same views.
pub fn copy_types(v: &Vec<InferredType>) -> (res: Vec<InferredType>)
    ensures
        type_views(res@) == type_views(v@),
    decreases v,
{
    let mut out: Vec<InferredType> = Vec::new();
    let mut i: usize = 0;
    while i < v.len()
        invariant
            i <= v.len(),
            type_views(out@) == type_views(v@.take(i as int)),
        decreases v.len() - i,
    {
        proof {
            assert(decreases_to!(*v => v@));
            assert(decreases_to!(v@ => v@[i as int]));
        }
        let t = v[i].copy();
        let ghost before = out@;
        out.push(t);
        proof {
            assert(out@.drop_last() =~= before);
            assert(v@.take(i + 1).drop_last() =~= v@.take(i as int));
            assert(v@.take(i + 1).last() == v@[i as int]);
        }
        i = i + 1;
    }
    proof {
        assert(v@.take(v@.len() as int) =~= v@);
    }
    out
}

/// A copy of associated type records.
pub fn copy_assocs(v: &Vec<AssociatedTypeInfo>) -> (res: Vec<AssociatedTypeInfo>)
    ensures
        assoc_views(res@) == assoc_views(v@),
    decreases v,
{
    let mut out: Vec<AssociatedTypeInfo> = Vec::new();
    let mut i: usize = 0;
    while i < v.len()
        invariant
            i <= v.len(),
            assoc_views(out@) == assoc_views(v@.take(i as int)),
        decreases v.len() - i,
    {
        let a = &v[i];
        proof {
            assert(decreases_to!(*v => v@));
            assert(decreases_to!(v@ => v@[i as int]));
            assert(decreases_to!(v@[i as int] => v@[i as int].resolved_type));
        }
        let resolved = match &a.resolved_type {
            Some(b) => {
                proof {
                    assert(decreases_to!(a.resolved_type => *b));
                }
                Some(Box::new(b.copy()))
            },
            None => None,
        };
        let c = AssociatedTypeInfo {
            trait_name: a.trait_name.clone(),
            assoc_name: a.assoc_name.clone(),
            resolved_type: resolved,
        };
        let ghost before = out@;
        out.push(c);
        proof {
            assert(out@.drop_last() =~= before);
            assert(v@.take(i + 1).drop_last() =~= v@.take(i as int));
            assert(v@.take(i + 1).last() == v@[i as int]);
        }
        i = i + 1;
    }
    proof {
        assert(v@.take(v@.len() as int) =~= v@);
    }
    out
}

/// A copy of trait bounds.
pub fn copy_bounds(v: &Vec<TraitBound>) -> (res: Vec<TraitBound>)
    ensures
        bound_views(res@) == bound_views(v@),
    decreases v,
{
    let mut out: Vec<TraitBound> = Vec::new();
    let mut i: usize = 0;
    while i < v.len()
        invariant
            i <= v.len(),
            bound_views(out@) == bound_views(v@.take(i as int)),
        decreases v.len() - i,
    {
        let b = &v[i];
        proof {
            assert(decreases_to!(*v => v@));
            assert(decreases_to!(v@ => v@[i as int]));
            assert(decreases_to!(v@[i as int] => v@[i as int].generic_args));
        }
        let c = TraitBound { trait_path: b.trait_path.clone(), generic_args: copy_types(&b.generic_args) };
        let ghost before = out@;
        out.push(c);
        proof {
            assert(out@.drop_last() =~= before);
            assert(v@.take(i + 1).drop_last() =~= v@.take(i as int));
            assert(v@.take(i + 1).last() == v@[i as int]);
        }
        i = i + 1;
    }
    proof {
        assert(v@.take(v@.len() as int) =~= v@);
    }
    out
}

impl TypeKind {
    /// A copy with the same view.
    pub fn copy(&self) -> (res: Self)
        ensures
            kind_view(res) == kind_view(*self),
        decreases self,
    {
        match self {
            TypeKind::Struct => TypeKind::Struct,
            TypeKind::Enum => TypeKind::Enum,
            TypeKind::Union => TypeKind::Union,
            TypeKind::Trait => TypeKind::Trait,
            TypeKind::TypeAlias => TypeKind::TypeAlias,
            TypeKind::Function { params, return_type, is_async } => TypeKind::Function {
                params: copy_types(params),
                return_type: Box::new(return_type.copy()),
                is_async: *is_async,
            },
            TypeKind::Tuple(es) => TypeKind::Tuple(copy_types(es)),
            TypeKind::Array { element_type, size } => TypeKind::Array {
                element_type: Box::new(element_type.copy()),
                size: *size,
            },
            TypeKind::Slice(e) => TypeKind::Slice(Box::new(e.copy())),
            TypeKind::Reference { inner, mutable, lifetime } => TypeKind::Reference {
                inner: Box::new(inner.copy()),
                mutable: *mutable,
                lifetime: copy_opt(lifetime),
            },
            TypeKind::Pointer { inner, mutable } => TypeKind::Pointer { inner: Box::new(inner.copy()), mutable: *mutable },
            TypeKind::Generic { name, bounds } => TypeKind::Generic { name: name.clone(), bounds: copy_bounds(bounds) },
            TypeKind::AssociatedType { trait_name, assoc_name } => TypeKind::AssociatedType {
                trait_name: trait_name.clone(),
                assoc_name: assoc_name.clone(),
            },
            TypeKind::HigherRanked { lifetimes, inner } => TypeKind::HigherRanked {
                lifetimes: copy_strings(lifetimes),
                inner: Box::new(inner.copy()),
            },
            TypeKind::TraitObject { traits, lifetime } => TypeKind::TraitObject {
                traits: copy_strings(traits),
                lifetime: copy_opt(lifetime),
            },
            TypeKind::Projection { base, associated_type } => TypeKind::Projection {
                base: Box::new(base.copy()),
                associated_type: associated_type.clone(),
            },
            TypeKind::Never => TypeKind::Never,
            TypeKind::Primitive(s) => TypeKind::Primitive(s.clone()),
        }
    }
}

// ---------------------------------------------------------------------------
// Building inferred types
// ---------------------------------------------------------------------------

/// A type with the given name, path, kind and confidence, and nothing else.
pub open spec fn base_view(name: Seq<char>, full_path: Seq<char>, kind: TypeKindView, confidence: u8) -> InferredTypeView {
    InferredTypeView {
        name,
        full_path,
        generic_args: Seq::empty(),
        is_reference: false,
        is_mutable: false,
        lifetime: None,
        confidence_pct: confidence,
        type_kind: kind,
        associated_types: Seq::empty(),
        higher_ranked_lifetimes: Seq::empty(),
        const_params: Seq::empty(),
    }
}

/// A type with the given name, path, kind and confidence, and nothing else.
pub fn make_type(name: String, full_path: String, kind: TypeKind, confidence: u8) -> (res: InferredType)
    ensures
        res@ == base_view(name@, full_path@, kind_view(kind), confidence),
{
    let r = InferredType {
        name,
        full_path,
        generic_args: Vec::new(),
        is_reference: false,
        is_mutable: false,
        lifetime: None,
        confidence_pct: confidence,
        type_kind: kind,
        associated_types: Vec::new(),
        higher_ranked_lifetimes: Vec::new(),
        const_params: Vec::new(),
    };
    proof {
        assert(type_views(r.generic_args@) =~= Seq::<InferredTypeView>::empty());
        assert(assoc_views(r.associated_types@) =~= Seq::<AssociatedTypeView>::empty());
        assert(string_views(r.higher_ranked_lifetimes@) =~= Seq::<Seq<char>>::empty());
        assert(r.const_params@.map_values(|p: ConstGenericParam| const_param_view(p)) =~= Seq::<ConstParamView>::empty());
    }
    r
}

impl Default for InferredType {
    /// An unnamed type of kind `unknown`, with full confidence.
    fn default() -> (res: Self)
        ensures
            res@ == base_view(Seq::empty(), Seq::empty(), TypeKindView::Primitive("unknown"@), 100),
    {
        make_type(String::new(), String::new(), TypeKind::Primitive(to_string("unknown")), 100)
    }
}

/// A type known only by one name, with that name as its primitive kind.
pub open spec fn named_view(name: Seq<char>, full_path: Seq<char>, confidence: u8) -> InferredTypeView {
    base_view(name, full_path, TypeKindView::Primitive(name), confidence)
}

pub open spec fn unknown_view(confidence: u8) -> InferredTypeView {
    named_view("unknown"@, "unknown"@, confidence)
}

fn unknown_type(confidence: u8) -> (res: InferredType)
    ensures
        res@ == unknown_view(confidence),
{
    make_type(to_string("unknown"), to_string("unknown"), TypeKind::Primitive(to_string("unknown")), confidence)
}

// ---------------------------------------------------------------------------
// Types from syntax
// ---------------------------------------------------------------------------

pub open spec fn path_idents(p: SynPath) -> Seq<Seq<char>> {
    p.segments@.map_values(|s: PathSegment| s.ident@)
}

/// The paths a type reaches through references, tuples, arrays, slices,
/// pointers and function types name at least one segment (as parsed paths do).
pub open spec fn paths_named(ty: SynType) -> bool
    decreases ty,
{
    match ty {
        SynType::Path(p) => p.segments@.len() > 0,
        SynType::Reference { elem, .. } => paths_named(*elem),
        SynType::Tuple(es) => all_paths_named(es@),
        SynType::Array { elem, .. } => paths_named(*elem),
        SynType::Slice(elem) => paths_named(*elem),
        SynType::Ptr { elem, .. } => paths_named(*elem),
        SynType::BareFn { inputs, output, .. } => all_paths_named(inputs@) && match output {
            Some(o) => paths_named(*o),
            None => true,
        },
        _ => true,
    }
}

pub open spec fn all_paths_named(ts: Seq<SynType>) -> bool
    decreases ts,
{
    if ts.len() == 0 {
        true
    } else {
        all_paths_named(ts.drop_last()) && paths_named(ts.last())
    }
}

/// The associated type `Trait<Item = ..>` names in a path's last segment.
pub open spec fn first_assoc(args: Seq<GenericArgument>) -> Option<Seq<char>>
    decreases args.len(),
{
    if args.len() == 0 {
        None
    } else {
        match args[0] {
            GenericArgument::AssocType(n) => Some(n@),
            _ => first_assoc(args.drop_first()),
        }
    }
}

/// The projection a path names: `Trait<Item = ..>` gives the associated type
/// `Item` of `Trait`.
pub open spec fn spec_projection(p: SynPath) -> Option<InferredTypeView> {
    if p.segments@.len() > 0 {
        let seg = p.segments@.last();
        match seg.arguments {
            PathArguments::AngleBracketed(args) => match first_assoc(args@) {
                Some(a) => Some(
                    base_view(
                        a,
                        seg.ident@ + "::"@ + a,
                        TypeKindView::AssociatedType { trait_name: seg.ident@, assoc_name: a },
                        100,
                    ),
                ),
                None => None,
            },
            _ => None,
        }
    } else {
        None
    }
}

pub open spec fn type_names(ts: Seq<InferredTypeView>) -> Seq<Seq<char>> {
    ts.map_values(|t: InferredTypeView| t.name)
}

pub open spec fn mut_word(m: bool) -> Seq<char> {
    if m {
        "mut "@
    } else {
        ""@
    }
}

pub open spec fn size_text(size: Option<usize>) -> Seq<char> {
    match size {
        Some(n) => spec_decimal(n as nat),
        None => "N"@,
    }
}

/// The traits of a trait object: the last identifier of each trait bound.
pub open spec fn bound_traits(bs: Seq<TypeBound>) -> Seq<Seq<char>>
    decreases bs.len(),
{
    if bs.len() == 0 {
        Seq::empty()
    } else {
        let r = bound_traits(bs.drop_last());
        match bs.last() {
            TypeBound::Trait(p) => if p.segments@.len() > 0 {
                r.push(p.segments@.last().ident@)
            } else {
                r
            },
            _ => r,
        }
    }
}

/// The first lifetime bound of a trait object.
pub open spec fn bound_lifetime(bs: Seq<TypeBound>) -> Option<Seq<char>>
    decreases bs.len(),
{
    if bs.len() == 0 {
        None
    } else {
        match bs[0] {
            TypeBound::Lifetime(l) => Some(l@),
            _ => bound_lifetime(bs.drop_first()),
        }
    }
}

pub open spec fn lifetime_names(ls: Seq<Option<String>>) -> Seq<Seq<char>> {
    ls.map_values(|l: Option<String>| match l {
        Some(n) => n@,
        None => "unknown"@,
    })
}

/// The type a written type stands for.
pub open spec fn spec_infer_syn(ty: SynType) -> InferredTypeView
    decreases ty,
{
    match ty {
        SynType::Path(p) => match spec_projection(p) {
            Some(t) => t,
            None => {
                let name = p.segments@.last().ident@;
                named_view(name, spec_join(path_idents(p), "::"@), 100)
            },
        },
        SynType::Reference { lifetime, mutable, elem } => {
            let inner = spec_infer_syn(*elem);
            InferredTypeView {
                is_reference: true,
                is_mutable: mutable,
                ..base_view(
                    "&"@ + mut_word(mutable) + inner.name,
                    "&"@ + mut_word(mutable) + inner.full_path,
                    TypeKindView::Reference { inner: Box::new(inner), mutable, lifetime: opt_view(lifetime) },
                    100,
                )
            }
        },
        SynType::Tuple(es) => {
            let elems = spec_infer_syns(es@);
            let name = "("@ + spec_join(type_names(elems), ", "@) + ")"@;
            base_view(name, name, TypeKindView::Tuple(elems), 100)
        },
        SynType::Array { elem, len_value } => {
            let e = spec_infer_syn(*elem);
            base_view(
                "["@ + e.name + "; "@ + size_text(len_value) + "]"@,
                "["@ + e.full_path + "; "@ + size_text(len_value) + "]"@,
                TypeKindView::Array { element_type: Box::new(e), size: len_value },
                100,
            )
        },
        SynType::Slice(elem) => {
            let e = spec_infer_syn(*elem);
            base_view("["@ + e.name + "]"@, "["@ + e.full_path + "]"@, TypeKindView::Slice(Box::new(e)), 100)
        },
        SynType::Ptr { mutable, elem } => {
            let e = spec_infer_syn(*elem);
            let w = if mutable {
                "mut"@
            } else {
                "const"@
            };
            base_view(
                "*"@ + w + " "@ + e.name,
                "*"@ + w + " "@ + e.full_path,
                TypeKindView::Pointer { inner: Box::new(e), mutable },
                100,
            )
        },
        SynType::BareFn { bound_lifetimes, inputs, output } => InferredTypeView {
            higher_ranked_lifetimes: lifetime_names(bound_lifetimes@),
            ..base_view(
                "fn"@,
                "fn"@,
                TypeKindView::Function {
                    params: spec_infer_syns(inputs@),
                    return_type: Box::new(
                        match output {
                            Some(o) => spec_infer_syn(*o),
                            None => base_view("()"@, "()"@, TypeKindView::Tuple(Seq::empty()), 100),
                        },
                    ),
                    is_async: false,
                },
                100,
            )
        },
        SynType::TraitObject(bs) => {
            let traits = bound_traits(bs@);
            let name = "dyn "@ + spec_join(traits, " + "@);
            base_view(name, name, TypeKindView::TraitObject { traits, lifetime: bound_lifetime(bs@) }, 100)
        },
        SynType::Never => base_view("!"@, "!"@, TypeKindView::Never, 100),
        SynType::Other => unknown_view(100),
    }
}

pub open spec fn spec_infer_syns(ts: Seq<SynType>) -> Seq<InferredTypeView>
    decreases ts,
{
    if ts.len() == 0 {
        Seq::empty()
    } else {
        spec_infer_syns(ts.drop_last()).push(spec_infer_syn(ts.last()))
    }
}

/// A type for a const parameter: the last identifier of a path, `&` and
/// the referenced type, or `unknown`.
pub open spec fn spec_short_type(ty: SynType) -> Seq<char>
    decreases ty,
{
    match ty {
        SynType::Path(p) => p.segments@.last().ident@,
        SynType::Reference { elem, .. } => "&"@ + spec_short_type(*elem),
        _ => "unknown"@,
    }
}

pub open spec fn short_type_ok(ty: SynType) -> bool
    decreases ty,
{
    match ty {
        SynType::Path(p) => p.segments@.len() > 0,
        SynType::Reference { elem, .. } => short_type_ok(*elem),
        _ => true,
    }
}

// ---------------------------------------------------------------------------
// Definitions, signatures and scopes
// ---------------------------------------------------------------------------

pub struct GenericParameter {
    pub name: String,
    pub bounds: Vec<TraitBound>,
    pub default: Option<InferredType>,
}

pub struct WhereClause {
    pub type_param: String,
    pub bounds: Vec<TraitBound>,
}

pub struct Parameter {
    pub name: String,
    pub param_type: InferredType,
    pub is_self: bool,
}

pub struct FunctionSignature {
    pub name: String,
    pub parameters: Vec<Parameter>,
    pub return_type: Option<InferredType>,
    pub generic_params: Vec<GenericParameter>,
    pub where_clause: Vec<WhereClause>,
}

#[derive(Clone, Copy, PartialEq, Eq)]
pub enum ReceiverType {
    SelfValue,
    SelfRef,
    SelfMutRef,
}

pub enum Visibility {
    Public,
    Private,
    Crate,
    Super,
    InPath(String),
}

pub struct FieldDefinition {
    pub name: String,
    pub field_type: InferredType,
    pub visibility: Visibility,
}

pub struct MethodDefinition {
    pub name: String,
    pub signature: FunctionSignature,
    pub receiver_type: Option<ReceiverType>,
    pub visibility: Visibility,
}

pub struct TypeDefinition {
    pub name: String,
    pub kind: TypeKind,
    pub fields: Vec<FieldDefinition>,
    pub methods: Vec<MethodDefinition>,
    pub generic_params: Vec<GenericParameter>,
    pub implemented_traits: Vec<String>,
}

#[derive(Clone, Copy, PartialEq, Eq)]
pub enum ScopeType {
    Function,
    Block,
    Loop,
    Match,
    Closure,
}

/// The variables of one scope.
pub struct Scope {
    pub variables: StringMap<InferredType>,
    pub scope_type: ScopeType,
}

/// What the inference knows: type definitions, variables, function
/// signatures, generic parameters and the stack of open scopes.
pub struct TypeInferenceContext {
    type_definitions: StringMap<TypeDefinition>,
    variable_types: StringMap<InferredType>,
    function_signatures: StringMap<FunctionSignature>,
    generic_params: StringMap<GenericParameter>,
    scope_stack: Vec<Scope>,
}

/// The type of a variable: from the innermost scope that holds it, else from
/// the variables seen anywhere.
pub open spec fn scoped_lookup(scopes: Seq<Scope>, globals: StringMap<InferredType>, name: Seq<char>) -> Option<InferredType>
    decreases scopes.len(),
{
    if scopes.len() == 0 {
        globals.lookup(name)
    } else if scopes.last().variables.lookup(name) is Some {
        scopes.last().variables.lookup(name)
    } else {
        scoped_lookup(scopes.drop_last(), globals, name)
    }
}

/// Variable types by view: one map per open scope, innermost last, and the
/// map of every variable recorded so far.
pub type VarEnv = (Seq<Map<Seq<char>, InferredTypeView>>, Map<Seq<char>, InferredTypeView>);

/// The types a map of variables holds, by view.
pub open spec fn type_map_of(m: StringMap<InferredType>) -> Map<Seq<char>, InferredTypeView> {
    Map::new(|k: Seq<char>| m.lookup(k) is Some, |k: Seq<char>| m.lookup(k).unwrap()@)
}

/// The type a variable name stands for in `env`: from the innermost scope
/// that holds it, else from all variables recorded.
pub open spec fn env_lookup(scopes: Seq<Map<Seq<char>, InferredTypeView>>, globals: Map<Seq<char>, InferredTypeView>, name: Seq<char>) -> Option<InferredTypeView>
    decreases scopes.len(),
{
    if scopes.len() == 0 {
        if globals.dom().contains(name) {
            Some(globals[name])
        } else {
            None
        }
    } else if scopes.last().dom().contains(name) {
        Some(scopes.last()[name])
    } else {
        env_lookup(scopes.drop_last(), globals, name)
    }
}

/// A new, empty innermost scope.
pub open spec fn env_push(env: VarEnv) -> VarEnv {
    (env.0.push(Map::empty()), env.1)
}

/// The innermost scope closed, if there is one; the variables recorded stay.
pub open spec fn env_pop(env: VarEnv) -> VarEnv {
    if env.0.len() > 0 {
        (env.0.drop_last(), env.1)
    } else {
        env
    }
}

/// A variable recorded in the innermost scope, if there is one, and among
/// all variables.
pub open spec fn env_add(env: VarEnv, name: Seq<char>, t: InferredTypeView) -> VarEnv {
    (
        if env.0.len() > 0 {
            env.0.update(env.0.len() - 1, env.0.last().insert(name, t))
        } else {
            env.0
        },
        env.1.insert(name, t),
    )
}

pub open spec fn scope_maps(scopes: Seq<Scope>) -> Seq<Map<Seq<char>, InferredTypeView>> {
    scopes.map_values(|s: Scope| type_map_of(s.variables))
}

proof fn lemma_env_lookup(scopes: Seq<Scope>, globals: StringMap<InferredType>, name: Seq<char>)
    ensures
        opt_type_view(scoped_lookup(scopes, globals, name)) == env_lookup(scope_maps(scopes), type_map_of(globals), name),
    decreases scopes.len(),
{
    if scopes.len() > 0 {
        assert(scope_maps(scopes).drop_last() =~= scope_maps(scopes.drop_last()));
        assert(scope_maps(scopes).last() == type_map_of(scopes.last().variables));
        lemma_env_lookup(scopes.drop_last(), globals, name);
    }
}

impl TypeInferenceContext {
    pub closed spec fn wf(&self) -> bool {
        &&& self.type_definitions.wf()
        &&& self.variable_types.wf()
        &&& self.function_signatures.wf()
        &&& self.generic_params.wf()
        &&& forall|i: int| 0 <= i < self.scope_stack@.len() ==> (#[trigger] self.scope_stack@[i]).variables.wf()
    }

    pub closed spec fn spec_scopes(&self) -> Seq<Scope> {
        self.scope_stack@
    }

    pub closed spec fn spec_variables(&self) -> StringMap<InferredType> {
        self.variable_types
    }

    pub closed spec fn spec_type_definitions(&self) -> StringMap<TypeDefinition> {
        self.type_definitions
    }

    pub closed spec fn spec_signatures(&self) -> StringMap<FunctionSignature> {
        self.function_signatures
    }

    /// The type a variable name stands for now.
    pub open spec fn variable_lookup(&self, name: Seq<char>) -> Option<InferredType> {
        scoped_lookup(self.spec_scopes(), self.spec_variables(), name)
    }

    /// The variables, by view.
    pub open spec fn var_env(&self) -> VarEnv {
        (scope_maps(self.spec_scopes()), type_map_of(self.spec_variables()))
    }

    /// A context with no definitions, variables, signatures or scopes.
    pub fn new() -> (res: Self)
        ensures
            res.wf(),
            res.spec_scopes().len() == 0,
            forall|k: Seq<char>| #[trigger] res.spec_variables().lookup(k) is None,
            forall|k: Seq<char>| #[trigger] res.spec_type_definitions().lookup(k) is None,
            forall|k: Seq<char>| #[trigger] res.spec_signatures().lookup(k) is None,
            res.spec_variables().value_seq().len() == 0,
            res.var_env() == (Seq::<Map<Seq<char>, InferredTypeView>>::empty(), Map::<Seq<char>, InferredTypeView>::empty()),
    {
        let r = TypeInferenceContext {
            type_definitions: StringMap::new(),
            variable_types: StringMap::new(),
            function_signatures: StringMap::new(),
            generic_params: StringMap::new(),
            scope_stack: Vec::new(),
        };
        proof {
            r.variable_types.lemma_entries();
            assert(scope_maps(r.scope_stack@) =~= Seq::<Map<Seq<char>, InferredTypeView>>::empty());
            assert(type_map_of(r.variable_types) =~= Map::<Seq<char>, InferredTypeView>::empty());
        }
        r
    }

    /// Copies of the types of all variables seen, in the order first seen.
    pub fn get_all_types(&self) -> (res: Vec<InferredType>)
        requires
            self.wf(),
        ensures
            type_views(res@) == type_views(self.spec_variables().value_seq()),
    {
        copy_types(self.variable_types.values())
    }

    /// Opens a scope of the given kind.
    pub fn push_scope(&mut self, scope_type: ScopeType)
        requires
            old(self).wf(),
        ensures
            final(self).wf(),
            final(self).spec_scopes().len() == old(self).spec_scopes().len() + 1,
            final(self).spec_scopes().drop_last() == old(self).spec_scopes(),
            final(self).spec_scopes().last().scope_type == scope_type,
            forall|k: Seq<char>| #[trigger] final(self).spec_scopes().last().variables.lookup(k) is None,
            final(self).spec_variables() == old(self).spec_variables(),
            final(self).spec_type_definitions() == old(self).spec_type_definitions(),
            final(self).spec_signatures() == old(self).spec_signatures(),
            final(self).var_env() == env_push(old(self).var_env()),
    {
        self.scope_stack.push(Scope { variables: StringMap::new(), scope_type });
        proof {
            assert(self.scope_stack@.drop_last() =~= old(self).scope_stack@);
            let top = self.scope_stack@.last();
            assert(type_map_of(top.variables) =~= Map::<Seq<char>, InferredTypeView>::empty());
            assert(scope_maps(self.scope_stack@) =~= scope_maps(old(self).scope_stack@).push(
                Map::<Seq<char>, InferredTypeView>::empty(),
            ));
        }
    }

    /// Closes the innermost scope, if any.
    pub fn pop_scope(&mut self)
        requires
            old(self).wf(),
        ensures
            final(self).wf(),
            old(self).spec_scopes().len() > 0 ==> final(self).spec_scopes() == old(self).spec_scopes().drop_last(),
            old(self).spec_scopes().len() == 0 ==> final(self).spec_scopes() == old(self).spec_scopes(),
            final(self).spec_variables() == old(self).spec_variables(),
            final(self).spec_type_definitions() == old(self).spec_type_definitions(),
            final(self).spec_signatures() == old(self).spec_signatures(),
            final(self).var_env() == env_pop(old(self).var_env()),
    {
        let _ = self.scope_stack.pop();
        proof {
            if old(self).scope_stack@.len() > 0 {
                assert(self.scope_stack@ =~= old(self).scope_stack@.drop_last());
                assert(scope_maps(self.scope_stack@) =~= scope_maps(old(self).scope_stack@).drop_last());
            }
        }
    }

    /// Records a variable's type in the innermost scope and among all
    /// variables seen.
    pub fn add_variable(&mut self, name: String, var_type: InferredType)
        requires
            old(self).wf(),
        ensures
            final(self).wf(),
            final(self).spec_scopes().len() == old(self).spec_scopes().len(),
            final(self).spec_variables().lookup(name@) == Some(var_type),
            forall|k: Seq<char>| k != name@ ==> #[trigger] final(self).spec_variables().lookup(k) == old(self).spec_variables().lookup(k),
            final(self).variable_lookup(name@) matches Some(t) && t@ == var_type@,
            old(self).spec_scopes().len() > 0 ==> {
                &&& final(self).spec_scopes().drop_last() == old(self).spec_scopes().drop_last()
                &&& final(self).spec_scopes().last().scope_type == old(self).spec_scopes().last().scope_type
                &&& final(self).spec_scopes().last().variables.lookup(name@) matches Some(t) && t@ == var_type@
                &&& forall|k: Seq<char>| k != name@ ==> #[trigger] final(self).spec_scopes().last().variables.lookup(k)
                    == old(self).spec_scopes().last().variables.lookup(k)
            },
            final(self).spec_type_definitions() == old(self).spec_type_definitions(),
            final(self).spec_signatures() == old(self).spec_signatures(),
            final(self).var_env() == env_add(old(self).var_env(), name@, var_type@),
    {
        let ghost nm = name@;
        let ghost tv = var_type@;
        let n = self.scope_stack.len();
        if n > 0 {
            let mut top = self.scope_stack.pop().unwrap();
            proof {
                assert(self.scope_stack@ =~= old(self).scope_stack@.drop_last());
                assert(top == old(self).scope_stack@[n - 1]);
            }
            let ghost top_before = top.variables;
            top.variables.insert(name.clone(), var_type.copy());
            self.scope_stack.push(top);
            proof {
                assert(self.scope_stack@.drop_last() =~= old(self).scope_stack@.drop_last());
                assert forall|i: int| 0 <= i < self.scope_stack@.len() implies (#[trigger] self.scope_stack@[i]).variables.wf() by {
                    if i < n - 1 {
                        assert(self.scope_stack@[i] == old(self).scope_stack@[i]);
                    }
                }
                assert(type_map_of(self.scope_stack@[n - 1].variables) =~= type_map_of(top_before).insert(nm, tv));
                let om = scope_maps(old(self).scope_stack@);
                assert(scope_maps(self.scope_stack@) =~= om.update(n - 1, om.last().insert(nm, tv)));
            }
        } else {
            proof {
                assert(scope_maps(self.scope_stack@) =~= scope_maps(old(self).scope_stack@));
            }
        }
        let ghost vars_before = self.variable_types;
        self.variable_types.insert(name, var_type);
        proof {
            assert(type_map_of(self.variable_types) =~= type_map_of(vars_before).insert(nm, tv));
        }
    }

    /// The type of a variable: from the innermost scope that holds it, else
    /// from all variables seen.
    pub fn get_variable_type(&self, name: &str) -> (res: Option<&InferredType>)
        requires
            self.wf(),
        ensures
            match res {
                Some(t) => self.variable_lookup(name@) == Some(*t),
                None => self.variable_lookup(name@) is None,
            },
    {
        let mut i = self.scope_stack.len();
        assert(self.scope_stack@.take(i as int) =~= self.scope_stack@);
        while i > 0
            invariant
                i <= self.scope_stack@.len(),
                self.wf(),
                self.variable_lookup(name@) == scoped_lookup(self.scope_stack@.take(i as int), self.variable_types, name@),
            decreases i,
        {
            let scope = &self.scope_stack[i - 1];
            proof {
                assert(self.scope_stack@.take(i as int).drop_last() =~= self.scope_stack@.take(i - 1));
                assert(self.scope_stack@.take(i as int).last() == self.scope_stack@[i - 1]);
                assert(scope.variables.wf());
            }
            match scope.variables.get(name) {
                Some(t) => {
                    return Some(t);
                },
                None => {},
            }
            i = i - 1;
        }
        self.variable_types.get(name)
    }

    /// Records the definition of a type under its name.
    pub fn add_type_definition(&mut self, name: String, definition: TypeDefinition)
        requires
            old(self).wf(),
        ensures
            final(self).wf(),
            final(self).spec_type_definitions().lookup(name@) == Some(definition),
            forall|k: Seq<char>| k != name@ ==> #[trigger] final(self).spec_type_definitions().lookup(k) == old(self).spec_type_definitions().lookup(k),
            final(self).spec_scopes() == old(self).spec_scopes(),
            final(self).spec_variables() == old(self).spec_variables(),
            final(self).spec_signatures() == old(self).spec_signatures(),
    {
        self.type_definitions.insert(name, definition);
    }

    /// The definition recorded for a type name.
    pub fn get_type_definition(&self, name: &str) -> (res: Option<&TypeDefinition>)
        requires
            self.wf(),
        ensures
            match res {
                Some(d) => self.spec_type_definitions().lookup(name@) == Some(*d),
                None => self.spec_type_definitions().lookup(name@) is None,
            },
    {
        self.type_definitions.get(name)
    }

    /// Records the signature of a function under its name.
    pub fn add_function_signature(&mut self, name: String, signature: FunctionSignature)
        requires
            old(self).wf(),
        ensures
            final(self).wf(),
            final(self).spec_signatures().lookup(name@) == Some(signature),
            forall|k: Seq<char>| k != name@ ==> #[trigger] final(self).spec_signatures().lookup(k) == old(self).spec_signatures().lookup(k),
            final(self).spec_scopes() == old(self).spec_scopes(),
            final(self).spec_variables() == old(self).spec_variables(),
            final(self).spec_type_definitions() == old(self).spec_type_definitions(),
    {
        self.function_signatures.insert(name, signature);
    }

    /// The signature recorded for a function name.
    pub fn get_function_signature(&self, name: &str) -> (res: Option<&FunctionSignature>)
        requires
            self.wf(),
        ensures
            match res {
                Some(d) => self.spec_signatures().lookup(name@) == Some(*d),
                None => self.spec_signatures().lookup(name@) is None,
            },
    {
        self.function_signatures.get(name)
    }
}

fn path_to_string(p: &SynPath) -> (res: String)
    ensures
        res@ == spec_join(path_idents(*p), "::"@),
{
    let mut parts: Vec<String> = Vec::new();
    let mut i: usize = 0;
    while i < p.segments.len()
        invariant
            i <= p.segments.len(),
            string_views(parts@) == path_idents(*p).take(i as int),
        decreases p.segments.len() - i,
    {
        let ghost before = parts@;
        parts.push(p.segments[i].ident.clone());
        proof {
            lemma_string_views_push(before, parts@.last());
            assert(path_idents(*p).take(i + 1) =~= path_idents(*p).take(i as int).push(p.segments@[i as int].ident@));
        }
        i = i + 1;
    }
    proof {
        assert(path_idents(*p).take(p.segments@.len() as int) =~= path_idents(*p));
    }
    join(&parts, "::")
}

fn names_joined(ts: &Vec<InferredType>, sep: &str) -> (res: String)
    ensures
        res@ == spec_join(type_names(type_views(ts@)), sep@),
{
    let mut parts: Vec<String> = Vec::new();
    let mut i: usize = 0;
    while i < ts.len()
        invariant
            i <= ts.len(),
            string_views(parts@) == type_names(type_views(ts@.take(i as int))),
        decreases ts.len() - i,
    {
        let ghost before = parts@;
        parts.push(ts[i].name.clone());
        proof {
            lemma_string_views_push(before, parts@.last());
            assert(ts@.take(i + 1).drop_last() =~= ts@.take(i as int));
            assert(ts@.take(i + 1).last() == ts@[i as int]);
            assert(type_views(ts@.take(i + 1)) == type_views(ts@.take(i as int)).push(type_view(ts@[i as int])));
            assert(type_view(ts@[i as int]).name == ts@[i as int].name@);
            assert(type_names(type_views(ts@.take(i + 1))) =~= type_names(type_views(ts@.take(i as int))).push(
                ts@[i as int].name@,
            ));
        }
        i = i + 1;
    }
    proof {
        assert(ts@.take(ts@.len() as int) =~= ts@);
    }
    join(&parts, sep)
}

impl TypeInferenceContext {
    /// The projection a path names, `Trait<Item = ..>` giving the associated
    /// type `Item` of `Trait`.
    pub fn resolve_associated_type_projection(&mut self, path: &SynPath) -> (res: Option<InferredType>)
        ensures
            match res {
                Some(t) => spec_projection(*path) == Some(t@),
                None => spec_projection(*path) is None,
            },
            *final(self) == *old(self),
    {
        if path.segments.len() == 0 {
            return None;
        }
        let seg = &path.segments[path.segments.len() - 1];
        match &seg.arguments {
            PathArguments::AngleBracketed(args) => {
                let mut i: usize = 0;
                assert(args@.subrange(0, args@.len() as int) =~= args@);
                while i < args.len()
                    invariant
                        i <= args.len(),
                        path.segments@.len() > 0,
                        *seg == path.segments@.last(),
                        seg.arguments == PathArguments::AngleBracketed(*args),
                        first_assoc(args@) == first_assoc(args@.subrange(i as int, args@.len() as int)),
                    decreases args.len() - i,
                {
                    let ghost rest = args@.subrange(i as int, args@.len() as int);
                    assert(rest[0] == args@[i as int]);
                    assert(rest.drop_first() =~= args@.subrange(i + 1, args@.len() as int));
                    match &args[i] {
                        GenericArgument::AssocType(a) => {
                            proof {
                                assert(first_assoc(rest) == Some(a@));
                            }
                            return Some(
                                make_type(
                                    a.clone(),
                                    concat3(seg.ident.as_str(), "::", a.as_str()),
                                    TypeKind::AssociatedType { trait_name: seg.ident.clone(), assoc_name: a.clone() },
                                    100,
                                ),
                            );
                        },
                        _ => {},
                    }
                    i = i + 1;
                }
                None
            },
            _ => None,
        }
    }

    /// The type a function pointer type stands for, with the lifetimes it
    /// binds.
    fn bare_fn_type(&mut self, ty: &SynType) -> (res: InferredType)
        requires
            ty is BareFn,
            paths_named(*ty),
        ensures
            res@ == spec_infer_syn(*ty),
            *final(self) == *old(self),
        decreases ty, 1int,
    {
        match ty {
            SynType::BareFn { bound_lifetimes, inputs, output } => {
                let mut lifetimes: Vec<String> = Vec::new();
                let mut i: usize = 0;
                while i < bound_lifetimes.len()
                    invariant
                        i <= bound_lifetimes.len(),
                        string_views(lifetimes@) == lifetime_names(bound_lifetimes@).take(i as int),
                    decreases bound_lifetimes.len() - i,
                {
                    let l = match &bound_lifetimes[i] {
                        Some(n) => n.clone(),
                        None => to_string("unknown"),
                    };
                    let ghost before = lifetimes@;
                    lifetimes.push(l);
                    proof {
                        lemma_string_views_push(before, lifetimes@.last());
                        assert(lifetime_names(bound_lifetimes@).take(i + 1) =~= lifetime_names(bound_lifetimes@).take(
                            i as int,
                        ).push(lifetime_names(bound_lifetimes@)[i as int]));
                    }
                    i = i + 1;
                }
                proof {
                    assert(lifetime_names(bound_lifetimes@).take(bound_lifetimes@.len() as int) =~= lifetime_names(
                        bound_lifetimes@,
                    ));
                }
                let params = self.infer_types(ty, inputs);
                let return_type = match output {
                    Some(o) => {
                        proof {
                            assert(decreases_to!(*ty => *output));
                        }
                        self.infer_type_from_syn(o)
                    },
                    None => make_type(to_string("()"), to_string("()"), TypeKind::Tuple(Vec::new()), 100),
                };
                proof {
                    assert(type_views(Seq::<InferredType>::empty()) =~= Seq::<InferredTypeView>::empty());
                }
                let mut t = make_type(
                    to_string("fn"),
                    to_string("fn"),
                    TypeKind::Function { params, return_type: Box::new(return_type), is_async: false },
                    100,
                );
                t.higher_ranked_lifetimes = lifetimes;
                t
            },
            _ => unknown_type(100),
        }
    }

    /// The types each of `ts` stands for; `ty` is the type they stand in.
    fn infer_types(&mut self, ty: &SynType, ts: &Vec<SynType>) -> (res: Vec<InferredType>)
        requires
            all_paths_named(ts@),
            decreases_to!(*ty => *ts),
        ensures
            type_views(res@) == spec_infer_syns(ts@),
            *final(self) == *old(self),
        decreases ty, 0int,
    {
        let mut out: Vec<InferredType> = Vec::new();
        let mut i: usize = 0;
        while i < ts.len()
            invariant
                i <= ts.len(),
                all_paths_named(ts@),
                decreases_to!(*ty => *ts),
                type_views(out@) == spec_infer_syns(ts@.take(i as int)),
                *self == *old(self),
            decreases ts.len() - i,
        {
            proof {
                assert(ts@.take(i + 1).drop_last() =~= ts@.take(i as int));
                assert(ts@.take(i + 1).last() == ts@[i as int]);
                lemma_all_paths_named(ts@, i as int);
                assert(decreases_to!(*ts => ts@));
                assert(decreases_to!(ts@ => ts@[i as int]));
            }
            let t = self.infer_type_from_syn(&ts[i]);
            let ghost before = out@;
            out.push(t);
            proof {
                assert(out@.drop_last() =~= before);
            }
            i = i + 1;
        }
        proof {
            assert(ts@.take(ts@.len() as int) =~= ts@);
        }
        out
    }

    /// The type a written type stands for.
    pub fn infer_type_from_syn(&mut self, ty: &SynType) -> (res: InferredType)
        requires
            paths_named(*ty),
        ensures
            res@ == spec_infer_syn(*ty),
            *final(self) == *old(self),
        decreases ty, 2int,
    {
        match ty {
            SynType::Path(p) => self.analyze_type_path(p),
            SynType::Reference { .. } => self.analyze_reference_type(ty),
            SynType::Tuple(_) => self.analyze_tuple_type(ty),
            SynType::Array { .. } => self.analyze_array_type(ty),
            SynType::Slice(_) => self.analyze_slice_type(ty),
            SynType::Ptr { .. } => self.analyze_pointer_type(ty),
            SynType::BareFn { .. } => self.bare_fn_type(ty),
            SynType::TraitObject(bs) => self.analyze_trait_object(bs),
            SynType::Never => make_type(to_string("!"), to_string("!"), TypeKind::Never, 100),
            SynType::Other => unknown_type(100),
        }
    }

    fn analyze_reference_type(&mut self, ty: &SynType) -> (res: InferredType)
        requires
            ty is Reference,
            paths_named(*ty),
        ensures
            res@ == spec_infer_syn(*ty),
            *final(self) == *old(self),
        decreases ty, 1int,
    {
        proof {
            reveal_strlit("&");
            reveal_strlit("&mut ");
            reveal_strlit("mut ");
            reveal_strlit("");
        }
        match ty {
            SynType::Reference { lifetime, mutable, elem } => {
                let inner = self.infer_type_from_syn(elem);
                let name = if *mutable {
                    let n = concat("&mut ", inner.name.as_str());
                    assert(n@ =~= "&"@ + mut_word(*mutable) + inner.name@);
                    n
                } else {
                    let n = concat("&", inner.name.as_str());
                    assert(n@ =~= "&"@ + mut_word(*mutable) + inner.name@);
                    n
                };
                let full_path = if *mutable {
                    let n = concat("&mut ", inner.full_path.as_str());
                    assert(n@ =~= "&"@ + mut_word(*mutable) + inner.full_path@);
                    n
                } else {
                    let n = concat("&", inner.full_path.as_str());
                    assert(n@ =~= "&"@ + mut_word(*mutable) + inner.full_path@);
                    n
                };
                let mut t = make_type(
                    name,
                    full_path,
                    TypeKind::Reference { inner: Box::new(inner), mutable: *mutable, lifetime: copy_opt(lifetime) },
                    100,
                );
                t.is_reference = true;
                t.is_mutable = *mutable;
                t
            },
            _ => unknown_type(100),
        }
    }

    fn analyze_tuple_type(&mut self, ty: &SynType) -> (res: InferredType)
        requires
            ty is Tuple,
            paths_named(*ty),
        ensures
            res@ == spec_infer_syn(*ty),
            *final(self) == *old(self),
        decreases ty, 1int,
    {
        match ty {
            SynType::Tuple(es) => {
                proof {
                    assert(decreases_to!(*ty => *es));
                }
                let elements = self.infer_types(ty, es);
                let joined = names_joined(&elements, ", ");
                let name = concat3("(", joined.as_str(), ")");
                let full_path = name.clone();
                make_type(name, full_path, TypeKind::Tuple(elements), 100)
            },
            _ => unknown_type(100),
        }
    }

    fn analyze_array_type(&mut self, ty: &SynType) -> (res: InferredType)
        requires
            ty is Array,
            paths_named(*ty),
        ensures
            res@ == spec_infer_syn(*ty),
            *final(self) == *old(self),
        decreases ty, 1int,
    {
        match ty {
            SynType::Array { elem, len_value } => {
                let e = self.infer_type_from_syn(elem);
                let size_str = match len_value {
                    Some(n) => decimal(*n as u64),
                    None => to_string("N"),
                };
                let name = concat(concat3("[", e.name.as_str(), "; ").as_str(), concat(size_str.as_str(), "]").as_str());
                let full_path = concat(
                    concat3("[", e.full_path.as_str(), "; ").as_str(),
                    concat(size_str.as_str(), "]").as_str(),
                );
                proof {
                    assert(name@ =~= "["@ + e@.name + "; "@ + size_text(*len_value) + "]"@);
                    assert(full_path@ =~= "["@ + e@.full_path + "; "@ + size_text(*len_value) + "]"@);
                }
                make_type(name, full_path, TypeKind::Array { element_type: Box::new(e), size: *len_value }, 100)
            },
            _ => unknown_type(100),
        }
    }

    fn analyze_slice_type(&mut self, ty: &SynType) -> (res: InferredType)
        requires
            ty is Slice,
            paths_named(*ty),
        ensures
            res@ == spec_infer_syn(*ty),
            *final(self) == *old(self),
        decreases ty, 1int,
    {
        match ty {
            SynType::Slice(elem) => {
                let e = self.infer_type_from_syn(elem);
                let name = concat3("[", e.name.as_str(), "]");
                let full_path = concat3("[", e.full_path.as_str(), "]");
                make_type(name, full_path, TypeKind::Slice(Box::new(e)), 100)
            },
            _ => unknown_type(100),
        }
    }

    fn analyze_pointer_type(&mut self, ty: &SynType) -> (res: InferredType)
        requires
            ty is Ptr,
            paths_named(*ty),
        ensures
            res@ == spec_infer_syn(*ty),
            *final(self) == *old(self),
        decreases ty, 1int,
    {
        proof {
            reveal_strlit("*mut ");
            reveal_strlit("*const ");
            reveal_strlit("*");
            reveal_strlit("mut");
            reveal_strlit("const");
            reveal_strlit(" ");
        }
        match ty {
            SynType::Ptr { mutable, elem } => {
                let e = self.infer_type_from_syn(elem);
                let (name, full_path) = if *mutable {
                    let a = concat("*mut ", e.name.as_str());
                    let b = concat("*mut ", e.full_path.as_str());
                    assert(a@ =~= "*"@ + "mut"@ + " "@ + e@.name);
                    assert(b@ =~= "*"@ + "mut"@ + " "@ + e@.full_path);
                    (a, b)
                } else {
                    let a = concat("*const ", e.name.as_str());
                    let b = concat("*const ", e.full_path.as_str());
                    assert(a@ =~= "*"@ + "const"@ + " "@ + e@.name);
                    assert(b@ =~= "*"@ + "const"@ + " "@ + e@.full_path);
                    (a, b)
                };
                make_type(name, full_path, TypeKind::Pointer { inner: Box::new(e), mutable: *mutable }, 100)
            },
            _ => unknown_type(100),
        }
    }

    fn analyze_trait_object(&mut self, bs: &Vec<TypeBound>) -> (res: InferredType)
        ensures
            res@ == spec_infer_syn(SynType::TraitObject(*bs)),
            *final(self) == *old(self),
    {
        let mut traits: Vec<String> = Vec::new();
        let mut i: usize = 0;
        while i < bs.len()
            invariant
                i <= bs.len(),
                string_views(traits@) == bound_traits(bs@.take(i as int)),
            decreases bs.len() - i,
        {
            proof {
                assert(bs@.take(i + 1).drop_last() =~= bs@.take(i as int));
                assert(bs@.take(i + 1).last() == bs@[i as int]);
            }
            match &bs[i] {
                TypeBound::Trait(p) => {
                    if p.segments.len() > 0 {
                        let ghost before = traits@;
                        traits.push(p.segments[p.segments.len() - 1].ident.clone());
                        proof {
                            lemma_string_views_push(before, traits@.last());
                        }
                    }
                },
                _ => {},
            }
            i = i + 1;
        }
        proof {
            assert(bs@.take(bs@.len() as int) =~= bs@);
        }
        let lifetime = first_lifetime(bs);
        let joined = join(&traits, " + ");
        let name = concat("dyn ", joined.as_str());
        let full_path = name.clone();
        make_type(name, full_path, TypeKind::TraitObject { traits, lifetime }, 100)
    }

    fn analyze_type_path(&mut self, path: &SynPath) -> (res: InferredType)
        requires
            path.segments@.len() > 0,
        ensures
            res@ == spec_infer_syn(SynType::Path(*path)),
            *final(self) == *old(self),
    {
        let name = path.segments[path.segments.len() - 1].ident.clone();
        let full_path = path_to_string(path);
        match self.resolve_associated_type_projection(path) {
            Some(t) => t,
            None => {
                let n2 = name.clone();
                make_type(name, full_path, TypeKind::Primitive(n2), 100)
            },
        }
    }

    /// The type a function pointer type stands for, with the lifetimes it
    /// binds; other types as `infer_type_from_syn` gives them.
    pub fn analyze_higher_ranked_type(&mut self, type_expr: &SynType) -> (res: InferredType)
        requires
            paths_named(*type_expr),
        ensures
            res@ == spec_infer_syn(*type_expr),
            *final(self) == *old(self),
    {
        match type_expr {
            SynType::BareFn { .. } => self.bare_fn_type(type_expr),
            _ => self.infer_type_from_syn(type_expr),
        }
    }

    /// A short text for a const parameter's type.
    pub fn type_to_string(&self, ty: &SynType) -> (res: String)
        requires
            short_type_ok(*ty),
        ensures
            res@ == spec_short_type(*ty),
    {
        short_type_text(ty)
    }

    /// A const generic parameter with the value of its default where that is
    /// an integer, string or boolean literal.
    pub fn analyze_const_generic(&mut self, ident: &String, ty: &SynType, default: &Option<ConstDefault>) -> (res: ConstGenericParam)
        requires
            short_type_ok(*ty),
        ensures
            res.name@ == ident@,
            res.param_type@ == spec_short_type(*ty),
            match *default {
                Some(ConstDefault::Int { value: Some(v) }) => res.value == Some(ConstValue::Integer(v)),
                Some(ConstDefault::Str(s)) => res.value matches Some(ConstValue::String(t)) && t@ == s@,
                Some(ConstDefault::Bool(b)) => res.value == Some(ConstValue::Boolean(b)),
                _ => res.value is None,
            },
            *final(self) == *old(self),
    {
        let value = match default {
            Some(ConstDefault::Int { value: Some(v) }) => Some(ConstValue::Integer(*v)),
            Some(ConstDefault::Str(s)) => Some(ConstValue::String(s.clone())),
            Some(ConstDefault::Bool(b)) => Some(ConstValue::Boolean(*b)),
            _ => None,
        };
        ConstGenericParam { name: ident.clone(), value, param_type: self.type_to_string(ty) }
    }

    /// A type alias known to the context, as a type of kind `TypeAlias`.
    pub fn resolve_type_alias(&mut self, alias_name: &str) -> (res: Option<InferredType>)
        requires
            old(self).wf(),
        ensures
            match old(self).spec_type_definitions().lookup(alias_name@) {
                Some(d) => if d.kind is TypeAlias {
                    res matches Some(t) && t@ == base_view(alias_name@, alias_name@, TypeKindView::TypeAlias, 100)
                } else {
                    res is None
                },
                None => res is None,
            },
            *final(self) == *old(self),
    {
        match self.type_definitions.get(alias_name) {
            Some(d) => match d.kind {
                TypeKind::TypeAlias => Some(make_type(to_string(alias_name), to_string(alias_name), TypeKind::TypeAlias, 100)),
                _ => None,
            },
            None => None,
        }
    }
}

fn first_lifetime(bs: &Vec<TypeBound>) -> (res: Option<String>)
    ensures
        opt_view(res) == bound_lifetime(bs@),
{
    let mut j: usize = 0;
    assert(bs@.subrange(0, bs@.len() as int) =~= bs@);
    while j < bs.len()
        invariant
            j <= bs.len(),
            bound_lifetime(bs@) == bound_lifetime(bs@.subrange(j as int, bs@.len() as int)),
        decreases bs.len() - j,
    {
        let ghost rest = bs@.subrange(j as int, bs@.len() as int);
        assert(rest[0] == bs@[j as int]);
        assert(rest.drop_first() =~= bs@.subrange(j + 1, bs@.len() as int));
        match &bs[j] {
            TypeBound::Lifetime(l) => {
                return Some(l.clone());
            },
            _ => {},
        }
        j = j + 1;
    }
    None
}

/// A short text for a type: a path's last identifier, `&` and the
/// referenced type, or `unknown`.
pub fn short_type_text(ty: &SynType) -> (res: String)
    requires
        short_type_ok(*ty),
    ensures
        res@ == spec_short_type(*ty),
    decreases ty,
{
    match ty {
        SynType::Path(p) => p.segments[p.segments.len() - 1].ident.clone(),
        SynType::Reference { elem, .. } => {
            let inner = short_type_text(elem);
            concat("&", inner.as_str())
        },
        _ => to_string("unknown"),
    }
}

proof fn lemma_all_paths_named(ts: Seq<SynType>, i: int)
    requires
        all_paths_named(ts),
        0 <= i < ts.len(),
    ensures
        paths_named(ts[i]),
    decreases ts.len(),
{
    if i < ts.len() - 1 {
        lemma_all_paths_named(ts.drop_last(), i);
    }
}

// ---------------------------------------------------------------------------
// Types of definitions and signatures
// ---------------------------------------------------------------------------

/// A type as definitions record it: a path's last identifier with its type
/// arguments, or a reference to such a type; `unknown` (confidence 0) else.
pub open spec fn spec_simple_type(ty: SynType) -> InferredTypeView
    decreases ty,
{
    match ty {
        SynType::Path(p) => {
            let segs = p.segments@;
            let name = if segs.len() > 0 {
                segs.last().ident@
            } else {
                ""@
            };
            InferredTypeView {
                generic_args: if segs.len() > 0 {
                    simple_generic_args(segs.last().arguments)
                } else {
                    Seq::empty()
                },
                ..named_view(name, spec_join(path_idents(p), "::"@), 100)
            }
        },
        SynType::Reference { lifetime, mutable, elem } => {
            let inner = spec_simple_type(*elem);
            InferredTypeView { is_reference: true, is_mutable: mutable, lifetime: opt_view(lifetime), ..inner }
        },
        _ => unknown_view(0),
    }
}

pub open spec fn simple_generic_args(a: PathArguments) -> Seq<InferredTypeView>
    decreases a,
{
    match a {
        PathArguments::AngleBracketed(args) => simple_type_args(args@),
        _ => Seq::empty(),
    }
}

pub open spec fn simple_type_args(args: Seq<GenericArgument>) -> Seq<InferredTypeView>
    decreases args,
{
    if args.len() == 0 {
        Seq::empty()
    } else {
        let r = simple_type_args(args.drop_last());
        match args.last() {
            GenericArgument::Type(t) => r.push(spec_simple_type(t)),
            _ => r,
        }
    }
}

/// The `Self` type of a method's receiver.
pub open spec fn self_type_view(reference: bool, mutable: bool) -> InferredTypeView {
    InferredTypeView { is_reference: reference, is_mutable: mutable, ..named_view("Self"@, "Self"@, 100) }
}

/// The visibility a definition records.
pub open spec fn visibility_matches(v: Visibility, syn: SynVisibility) -> bool {
    match syn {
        SynVisibility::Public => v is Public,
        SynVisibility::Restricted(p) => if path_is_ident(p, "crate"@) {
            v is Crate
        } else if path_is_ident(p, "super"@) {
            v is Super
        } else {
            v matches Visibility::InPath(s) && s@ == spec_join(path_idents(p), "::"@)
        },
        SynVisibility::Inherited => v is Private,
    }
}

/// The type parameters of a generic list, by name.
pub open spec fn type_param_names(gs: Seq<GenericParam>) -> Seq<Seq<char>>
    decreases gs.len(),
{
    if gs.len() == 0 {
        Seq::empty()
    } else {
        match gs.last() {
            GenericParam::Type { ident } => type_param_names(gs.drop_last()).push(ident@),
            _ => type_param_names(gs.drop_last()),
        }
    }
}

/// Generic parameters named `names`, with no bounds and no default.
pub open spec fn generic_params_named(ps: Seq<GenericParameter>, names: Seq<Seq<char>>) -> bool {
    &&& ps.len() == names.len()
    &&& forall|i: int|
        0 <= i < ps.len() ==> {
            &&& (#[trigger] ps[i]).name@ == names[i]
            &&& ps[i].bounds@.len() == 0
            &&& ps[i].default is None
        }
}

pub open spec fn param_name(a: FnArg) -> Seq<char> {
    match a {
        FnArg::Receiver { .. } => "self"@,
        FnArg::Typed { pat, .. } => match pat {
            Pat::Ident { name, .. } => name@,
            _ => "unknown"@,
        },
    }
}

pub open spec fn param_type_view(a: FnArg) -> InferredTypeView {
    match a {
        FnArg::Receiver { reference, mutable } => self_type_view(reference, mutable),
        FnArg::Typed { ty, .. } => spec_simple_type(ty),
    }
}

/// The signature a definition records for `sig`.
pub open spec fn signature_matches(fs: FunctionSignature, sig: Signature) -> bool {
    &&& fs.name@ == sig.ident@
    &&& fs.parameters@.len() == sig.inputs@.len()
    &&& forall|i: int|
        0 <= i < sig.inputs@.len() ==> {
            &&& (#[trigger] fs.parameters@[i]).name@ == param_name(sig.inputs@[i])
            &&& fs.parameters@[i].param_type@ == param_type_view(sig.inputs@[i])
            &&& fs.parameters@[i].is_self == (sig.inputs@[i] is Receiver)
        }
    &&& match sig.output {
        Some(t) => fs.return_type matches Some(r) && r@ == spec_simple_type(t),
        None => fs.return_type is None,
    }
    &&& generic_params_named(fs.generic_params@, type_param_names(sig.generics@))
    &&& fs.where_clause@.len() == 0
}

/// The fields a struct definition records.
pub open spec fn fields_of(f: Fields) -> Seq<crate::syntax::Field> {
    match f {
        Fields::Named(v) => v@,
        Fields::Unnamed(v) => v@,
        Fields::Unit => Seq::empty(),
    }
}

pub open spec fn field_defs_match(ds: Seq<FieldDefinition>, fs: Seq<crate::syntax::Field>) -> bool {
    &&& ds.len() == fs.len()
    &&& forall|i: int|
        0 <= i < fs.len() ==> {
            &&& (#[trigger] ds[i]).name@ == match fs[i].ident {
                Some(n) => n@,
                None => ""@,
            }
            &&& ds[i].field_type@ == spec_simple_type(fs[i].ty)
            &&& visibility_matches(ds[i].visibility, fs[i].vis)
        }
}

/// The definition recorded for a struct.
pub open spec fn struct_definition_matches(d: TypeDefinition, ident: Seq<char>, generics: Seq<GenericParam>, fields: Fields) -> bool {
    &&& d.name@ == ident
    &&& d.kind is Struct
    &&& field_defs_match(d.fields@, fields_of(fields))
    &&& d.methods@.len() == 0
    &&& generic_params_named(d.generic_params@, type_param_names(generics))
    &&& d.implemented_traits@.len() == 0
}

/// A type as definitions record it.
pub fn type_from_syn_type(ty: &SynType) -> (res: InferredType)
    ensures
        res@ == spec_simple_type(*ty),
    decreases ty, 1int,
{
    proof {
        reveal_strlit("");
        assert(""@ =~= Seq::<char>::empty());
    }
    match ty {
        SynType::Path(p) => {
            let n = p.segments.len();
            proof {
                if n > 0 {
                    assert(p.segments@.last() == p.segments@[n - 1]);
                }
            }
            let name = if n > 0 {
                p.segments[n - 1].ident.clone()
            } else {
                String::new()
            };
            let full_path = path_to_string(p);
            let n2 = name.clone();
            let generic_args = if n > 0 {
                proof {
                    assert(decreases_to!(*ty => *p));
                    assert(decreases_to!(*p => p.segments));
                    assert(decreases_to!(p.segments => p.segments@));
                    assert(decreases_to!(p.segments@ => p.segments@[n - 1]));
                    assert(decreases_to!(p.segments@[n - 1] => p.segments@[n - 1].arguments));
                }
                extract_generic_args(ty, &p.segments[n - 1].arguments)
            } else {
                Vec::new()
            };
            let r = InferredType {
                name,
                full_path,
                generic_args,
                is_reference: false,
                is_mutable: false,
                lifetime: None,
                confidence_pct: 100,
                type_kind: TypeKind::Primitive(n2),
                associated_types: Vec::new(),
                higher_ranked_lifetimes: Vec::new(),
                const_params: Vec::new(),
            };
            proof {
                if n == 0 {
                    assert(type_views(r.generic_args@) =~= Seq::<InferredTypeView>::empty());
                }
                assert(assoc_views(r.associated_types@) =~= Seq::<AssociatedTypeView>::empty());
                assert(string_views(r.higher_ranked_lifetimes@) =~= Seq::<Seq<char>>::empty());
                assert(r.const_params@.map_values(|p: ConstGenericParam| const_param_view(p)) =~= Seq::<ConstParamView>::empty());
                assert(kind_view(r.type_kind) == TypeKindView::Primitive(r.name@));
            }
            r
        },
        SynType::Reference { lifetime, mutable, elem } => {
            let mut t = type_from_syn_type(elem);
            t.is_reference = true;
            t.is_mutable = *mutable;
            t.lifetime = copy_opt(lifetime);
            t
        },
        _ => unknown_type(0),
    }
}

fn extract_generic_args(ty: &SynType, a: &PathArguments) -> (res: Vec<InferredType>)
    requires
        decreases_to!(*ty => *a),
    ensures
        type_views(res@) == simple_generic_args(*a),
    decreases ty, 0int,
{
    match a {
        PathArguments::AngleBracketed(args) => {
            let mut out: Vec<InferredType> = Vec::new();
            let mut i: usize = 0;
            while i < args.len()
                invariant
                    i <= args.len(),
                    decreases_to!(*ty => *a),
                    *a == PathArguments::AngleBracketed(*args),
                    type_views(out@) == simple_type_args(args@.take(i as int)),
                decreases args.len() - i,
            {
                proof {
                    assert(args@.take(i + 1).drop_last() =~= args@.take(i as int));
                    assert(args@.take(i + 1).last() == args@[i as int]);
                }
                match &args[i] {
                    GenericArgument::Type(t) => {
                        proof {
                            let av = *a;
                            assert(av == PathArguments::AngleBracketed(*args));
                            assert(decreases_to!(av => av->AngleBracketed_0));
                            assert(decreases_to!(*args => args@));
                            assert(decreases_to!(args@ => args@[i as int]));
                            assert(decreases_to!(args@[i as int] => *t));
                        }
                        let v = type_from_syn_type(t);
                        let ghost before = out@;
                        out.push(v);
                        proof {
                            assert(out@.drop_last() =~= before);
                        }
                    },
                    _ => {},
                }
                i = i + 1;
            }
            proof {
                assert(args@.take(args@.len() as int) =~= args@);
            }
            out
        },
        _ => {
            let out: Vec<InferredType> = Vec::new();
            assert(type_views(out@) =~= Seq::<InferredTypeView>::empty());
            out
        },
    }
}

fn self_type(reference: bool, mutable: bool) -> (res: InferredType)
    ensures
        res@ == self_type_view(reference, mutable),
{
    let mut t = make_type(to_string("Self"), to_string("Self"), TypeKind::Primitive(to_string("Self")), 100);
    t.is_reference = reference;
    t.is_mutable = mutable;
    t
}

/// The visibility a definition records.
pub fn visibility_from_syn(vis: &SynVisibility) -> (res: Visibility)
    ensures
        visibility_matches(res, *vis),
{
    match vis {
        SynVisibility::Public => Visibility::Public,
        SynVisibility::Restricted(p) => {
            if is_ident(p, "crate") {
                Visibility::Crate
            } else if is_ident(p, "super") {
                Visibility::Super
            } else {
                Visibility::InPath(path_to_string(p))
            }
        },
        SynVisibility::Inherited => Visibility::Private,
    }
}

/// The type parameters of a generic list, with no bounds and no default.
pub fn extract_generic_params(generics: &Vec<GenericParam>) -> (res: Vec<GenericParameter>)
    ensures
        generic_params_named(res@, type_param_names(generics@)),
{
    let mut out: Vec<GenericParameter> = Vec::new();
    let mut i: usize = 0;
    while i < generics.len()
        invariant
            i <= generics.len(),
            generic_params_named(out@, type_param_names(generics@.take(i as int))),
        decreases generics.len() - i,
    {
        proof {
            assert(generics@.take(i + 1).drop_last() =~= generics@.take(i as int));
            assert(generics@.take(i + 1).last() == generics@[i as int]);
        }
        match &generics[i] {
            GenericParam::Type { ident } => {
                out.push(GenericParameter { name: ident.clone(), bounds: Vec::new(), default: None });
            },
            _ => {},
        }
        i = i + 1;
    }
    proof {
        assert(generics@.take(generics@.len() as int) =~= generics@);
    }
    out
}

/// The signature a definition records for a function.
pub fn function_signature_from_syn(sig: &Signature) -> (res: FunctionSignature)
    ensures
        signature_matches(res, *sig),
{
    let mut parameters: Vec<Parameter> = Vec::new();
    let mut i: usize = 0;
    while i < sig.inputs.len()
        invariant
            i <= sig.inputs.len(),
            parameters@.len() == i,
            forall|k: int|
                0 <= k < i ==> {
                    &&& (#[trigger] parameters@[k]).name@ == param_name(sig.inputs@[k])
                    &&& parameters@[k].param_type@ == param_type_view(sig.inputs@[k])
                    &&& parameters@[k].is_self == (sig.inputs@[k] is Receiver)
                },
        decreases sig.inputs.len() - i,
    {
        let p = match &sig.inputs[i] {
            FnArg::Receiver { reference, mutable } => Parameter {
                name: to_string("self"),
                param_type: self_type(*reference, *mutable),
                is_self: true,
            },
            FnArg::Typed { pat, ty } => {
                let name = match pat {
                    Pat::Ident { name, .. } => name.clone(),
                    _ => to_string("unknown"),
                };
                Parameter { name, param_type: type_from_syn_type(ty), is_self: false }
            },
        };
        parameters.push(p);
        i = i + 1;
    }
    let return_type = match &sig.output {
        None => None,
        Some(t) => Some(type_from_syn_type(t)),
    };
    FunctionSignature {
        name: sig.ident.clone(),
        parameters,
        return_type,
        generic_params: extract_generic_params(&sig.generics),
        where_clause: Vec::new(),
    }
}

/// The fields a struct definition records.
fn field_definitions(fields: &Fields) -> (res: Vec<FieldDefinition>)
    ensures
        field_defs_match(res@, fields_of(*fields)),
{
    proof {
        reveal_strlit("");
        assert(""@ =~= Seq::<char>::empty());
    }
    let empty: Vec<crate::syntax::Field> = Vec::new();
    let fs = match fields {
        Fields::Named(v) => v,
        Fields::Unnamed(v) => v,
        Fields::Unit => &empty,
    };
    assert(fs@ == fields_of(*fields));
    let mut out: Vec<FieldDefinition> = Vec::new();
    let mut i: usize = 0;
    while i < fs.len()
        invariant
            i <= fs.len(),
            field_defs_match(out@, fs@.take(i as int)),
        decreases fs.len() - i,
    {
        let f = &fs[i];
        let name = match &f.ident {
            Some(n) => n.clone(),
            None => String::new(),
        };
        let d = FieldDefinition {
            name,
            field_type: type_from_syn_type(&f.ty),
            visibility: visibility_from_syn(&f.vis),
        };
        let ghost before = out@;
        out.push(d);
        proof {
            reveal_strlit("");
            assert(""@ =~= Seq::<char>::empty());
            let ft = fs@.take(i + 1);
            assert forall|k: int| 0 <= k < ft.len() implies {
                &&& (#[trigger] out@[k]).name@ == match ft[k].ident {
                    Some(n) => n@,
                    None => ""@,
                }
                &&& out@[k].field_type@ == spec_simple_type(ft[k].ty)
                &&& visibility_matches(out@[k].visibility, ft[k].vis)
            } by {
                if k < i {
                    assert(out@[k] == before[k]);
                    assert(ft[k] == fs@.take(i as int)[k]);
                } else {
                    assert(ft[k] == *f);
                }
            }
        }
        i = i + 1;
    }
    proof {
        assert(fs@.take(fs@.len() as int) =~= fs@);
    }
    out
}

/// The generics and fields of the last top-level struct named `name`.
pub open spec fn last_struct_named(items: Seq<Item>, name: Seq<char>) -> Option<(Seq<GenericParam>, Fields)>
    decreases items.len(),
{
    if items.len() == 0 {
        None
    } else {
        match items.last() {
            Item::Struct { ident, generics, fields, .. } => if ident@ == name {
                Some((generics@, fields))
            } else {
                last_struct_named(items.drop_last(), name)
            },
            _ => last_struct_named(items.drop_last(), name),
        }
    }
}

/// The signature of the last top-level function named `name`.
pub open spec fn last_fn_named(items: Seq<Item>, name: Seq<char>) -> Option<Signature>
    decreases items.len(),
{
    if items.len() == 0 {
        None
    } else {
        match items.last() {
            Item::Fn(f) => if f.sig.ident@ == name {
                Some(f.sig)
            } else {
                last_fn_named(items.drop_last(), name)
            },
            _ => last_fn_named(items.drop_last(), name),
        }
    }
}

/// After reading `items`, the definition of `name` is that of its last
/// struct, or what it was before.
pub open spec fn struct_defs_recorded(
    now: StringMap<TypeDefinition>,
    before: StringMap<TypeDefinition>,
    items: Seq<Item>,
    name: Seq<char>,
) -> bool {
    match last_struct_named(items, name) {
        Some((g, f)) => now.lookup(name) matches Some(d) && struct_definition_matches(d, name, g, f),
        None => now.lookup(name) == before.lookup(name),
    }
}

/// After reading `items`, the signature of `name` is that of its last
/// function, or what it was before.
pub open spec fn fn_sigs_recorded(
    now: StringMap<FunctionSignature>,
    before: StringMap<FunctionSignature>,
    items: Seq<Item>,
    name: Seq<char>,
) -> bool {
    match last_fn_named(items, name) {
        Some(sig) => now.lookup(name) matches Some(fs) && signature_matches(fs, sig),
        None => now.lookup(name) == before.lookup(name),
    }
}

impl TypeInferenceContext {
    /// Records the definition of a struct.
    fn visit_item_struct(&mut self, ident: &String, generics: &Vec<GenericParam>, fields: &Fields)
        requires
            old(self).wf(),
        ensures
            final(self).wf(),
            final(self).spec_type_definitions().lookup(ident@) matches Some(d) && struct_definition_matches(
                d,
                ident@,
                generics@,
                *fields,
            ),
            forall|k: Seq<char>| k != ident@ ==> #[trigger] final(self).spec_type_definitions().lookup(k)
                == old(self).spec_type_definitions().lookup(k),
            final(self).spec_scopes() == old(self).spec_scopes(),
            final(self).spec_variables() == old(self).spec_variables(),
            final(self).spec_signatures() == old(self).spec_signatures(),
    {
        let d = TypeDefinition {
            name: ident.clone(),
            kind: TypeKind::Struct,
            fields: field_definitions(fields),
            methods: Vec::new(),
            generic_params: extract_generic_params(generics),
            implemented_traits: Vec::new(),
        };
        self.add_type_definition(ident.clone(), d);
    }

    /// Records the signature of a function.
    fn visit_item_fn(&mut self, item_fn: &FnItem)
        requires
            old(self).wf(),
        ensures
            final(self).wf(),
            final(self).spec_signatures().lookup(item_fn.sig.ident@) matches Some(fs) && signature_matches(
                fs,
                item_fn.sig,
            ),
            forall|k: Seq<char>| k != item_fn.sig.ident@ ==> #[trigger] final(self).spec_signatures().lookup(k)
                == old(self).spec_signatures().lookup(k),
            final(self).spec_scopes() == old(self).spec_scopes(),
            final(self).spec_variables() == old(self).spec_variables(),
            final(self).spec_type_definitions() == old(self).spec_type_definitions(),
    {
        let sig = function_signature_from_syn(&item_fn.sig);
        self.add_function_signature(item_fn.sig.ident.clone(), sig);
    }

    /// Records the struct definitions and function signatures of a file's
    /// top-level items; a later item replaces an earlier one of its name.
    pub fn collect_definitions(&mut self, file: &SourceFile)
        requires
            old(self).wf(),
        ensures
            final(self).wf(),
            final(self).spec_scopes() == old(self).spec_scopes(),
            final(self).spec_variables() == old(self).spec_variables(),
            forall|k: Seq<char>| #[trigger] struct_defs_recorded(
                final(self).spec_type_definitions(),
                old(self).spec_type_definitions(),
                flat_items(file.items@),
                k,
            ),
            forall|k: Seq<char>| #[trigger] fn_sigs_recorded(
                final(self).spec_signatures(),
                old(self).spec_signatures(),
                flat_items(file.items@),
                k,
            ),
    {
        let ghost defs0 = self.spec_type_definitions();
        let ghost sigs0 = self.spec_signatures();
        let refs = flat_item_refs(&file.items);
        let ghost items = item_refs_view(refs@);
        proof {
            assert(items.take(0) =~= Seq::<Item>::empty());
        }
        let mut i: usize = 0;
        while i < refs.len()
            invariant
                i <= refs.len(),
                items == item_refs_view(refs@),
                items == flat_items(file.items@),
                self.wf(),
                self.spec_scopes() == old(self).spec_scopes(),
                self.spec_variables() == old(self).spec_variables(),
                defs0 == old(self).spec_type_definitions(),
                sigs0 == old(self).spec_signatures(),
                forall|k: Seq<char>| #[trigger] struct_defs_recorded(self.spec_type_definitions(), defs0, items.take(i as int), k),
                forall|k: Seq<char>| #[trigger] fn_sigs_recorded(self.spec_signatures(), sigs0, items.take(i as int), k),
            decreases refs.len() - i,
        {
            let ghost t0 = self.spec_type_definitions();
            let ghost s0 = self.spec_signatures();
            proof {
                assert(items.take(i + 1).drop_last() =~= items.take(i as int));
                assert(items.take(i + 1).last() == items[i as int]);
            }
            match refs[i] {
                Item::Struct { ident, generics, fields, .. } => {
                    self.visit_item_struct(ident, generics, fields);
                    proof {
                        assert forall|k: Seq<char>| #[trigger] struct_defs_recorded(self.spec_type_definitions(), defs0, items.take(i + 1), k) by {
                            if k != ident@ {
                                assert(struct_defs_recorded(t0, defs0, items.take(i as int), k));
                            }
                        }
                        assert forall|k: Seq<char>| #[trigger] fn_sigs_recorded(self.spec_signatures(), sigs0, items.take(i + 1), k) by {
                            assert(fn_sigs_recorded(s0, sigs0, items.take(i as int), k));
                        }
                    }
                },
                Item::Fn(f) => {
                    self.visit_item_fn(f);
                    proof {
                        assert forall|k: Seq<char>| #[trigger] struct_defs_recorded(self.spec_type_definitions(), defs0, items.take(i + 1), k) by {
                            assert(struct_defs_recorded(t0, defs0, items.take(i as int), k));
                        }
                        assert forall|k: Seq<char>| #[trigger] fn_sigs_recorded(self.spec_signatures(), sigs0, items.take(i + 1), k) by {
                            if k != f.sig.ident@ {
                                assert(fn_sigs_recorded(s0, sigs0, items.take(i as int), k));
                            }
                        }
                    }
                },
                _ => {
                    proof {
                        assert forall|k: Seq<char>| #[trigger] struct_defs_recorded(self.spec_type_definitions(), defs0, items.take(i + 1), k) by {
                            assert(struct_defs_recorded(t0, defs0, items.take(i as int), k));
                        }
                        assert forall|k: Seq<char>| #[trigger] fn_sigs_recorded(self.spec_signatures(), sigs0, items.take(i + 1), k) by {
                            assert(fn_sigs_recorded(s0, sigs0, items.take(i as int), k));
                        }
                    }
                },
            }
            i = i + 1;
        }
        proof {
            assert(items.take(items.len() as int) =~= items);
        }
    }
}

// ---------------------------------------------------------------------------
// Types of expressions
// ---------------------------------------------------------------------------

/// The type of a literal and the confidence in it.
pub open spec fn literal_name(k: LitKind) -> (Seq<char>, u8) {
    match k {
        LitKind::Str => ("&str"@, 100u8),
        LitKind::ByteStr => ("&[u8]"@, 100u8),
        LitKind::Byte => ("u8"@, 100u8),
        LitKind::Char => ("char"@, 100u8),
        LitKind::Int => ("i32"@, 80u8),
        LitKind::Float => ("f64"@, 80u8),
        LitKind::Bool => ("bool"@, 100u8),
        LitKind::Other => ("unknown"@, 0u8),
    }
}

pub open spec fn spec_literal_type(k: LitKind) -> InferredTypeView {
    let (n, c) = literal_name(k);
    InferredTypeView { is_reference: spec_starts_with(n, "&"@), ..named_view(n, n, c) }
}

/// The name a called expression gives: a path's identifiers, else `unknown`.
pub open spec fn spec_fn_name_of(e: Expr) -> Seq<char> {
    match e {
        Expr::Path(p) => spec_join(path_idents(p), "::"@),
        _ => "unknown"@,
    }
}

pub open spec fn last_ident_or_empty(p: SynPath) -> Seq<char> {
    if p.segments@.len() > 0 {
        p.segments@.last().ident@
    } else {
        ""@
    }
}

pub open spec fn opt_type_view(o: Option<InferredType>) -> Option<InferredTypeView> {
    match o {
        Some(t) => Some(t@),
        None => None,
    }
}

/// The type an expression has, given the known signatures and variables: a
/// variable's recorded type, a literal's type, the return type of a known
/// function, or a guess.
pub open spec fn infer_expr_in(sigs: StringMap<FunctionSignature>, env: VarEnv, e: Expr) -> InferredTypeView {
    match e {
        Expr::Path(p) => {
            let name = last_ident_or_empty(p);
            match env_lookup(env.0, env.1, name) {
                Some(v) => v,
                None => named_view(name, spec_join(path_idents(p), "::"@), 50),
            }
        },
        Expr::Lit(k) => spec_literal_type(k),
        Expr::Call { func, .. } => match sigs.lookup(spec_fn_name_of(*func)) {
            Some(sig) => match sig.return_type {
                Some(r) => r@,
                None => base_view("()"@, "()"@, TypeKindView::Tuple(Seq::empty()), 80),
            },
            None => unknown_view(30),
        },
        _ => unknown_view(10),
    }
}

impl TypeInferenceContext {
    /// The type an expression has in this context.
    pub open spec fn spec_infer_expr(&self, e: Expr) -> InferredTypeView {
        infer_expr_in(self.spec_signatures(), self.var_env(), e)
    }

    /// The type of a literal.
    pub fn infer_type_from_literal(&self, lit: &LitKind) -> (res: InferredType)
        ensures
            res@ == spec_literal_type(*lit),
    {
        proof {
            reveal_strlit("&str");
            reveal_strlit("&[u8]");
            reveal_strlit("u8");
            reveal_strlit("char");
            reveal_strlit("i32");
            reveal_strlit("f64");
            reveal_strlit("bool");
            reveal_strlit("unknown");
            reveal_strlit("&");
        }
        let (name, confidence): (&str, u8) = match lit {
            LitKind::Str => ("&str", 100),
            LitKind::ByteStr => ("&[u8]", 100),
            LitKind::Byte => ("u8", 100),
            LitKind::Char => ("char", 100),
            LitKind::Int => ("i32", 80),
            LitKind::Float => ("f64", 80),
            LitKind::Bool => ("bool", 100),
            LitKind::Other => ("unknown", 0),
        };
        let mut t = make_type(to_string(name), to_string(name), TypeKind::Primitive(to_string(name)), confidence);
        t.is_reference = str_starts_with(name, "&");
        t
    }

    /// The name a called expression gives.
    pub fn extract_function_name_from_expr(&self, expr: &Expr) -> (res: String)
        ensures
            res@ == spec_fn_name_of(*expr),
    {
        match expr {
            Expr::Path(p) => path_to_string(p),
            _ => to_string("unknown"),
        }
    }

    /// The return type recorded for a function, if any.
    pub fn infer_return_type(&self, function_name: &str, _args: &Vec<InferredType>) -> (res: Option<InferredType>)
        requires
            self.wf(),
        ensures
            opt_type_view(res) == match self.spec_signatures().lookup(function_name@) {
                Some(sig) => opt_type_view(sig.return_type),
                None => None,
            },
    {
        match self.function_signatures.get(function_name) {
            Some(sig) => match &sig.return_type {
                Some(r) => Some(r.copy()),
                None => None,
            },
            None => None,
        }
    }

    /// The type an expression has.
    pub fn infer_type_from_expr(&self, expr: &Expr) -> (res: InferredType)
        requires
            self.wf(),
        ensures
            res@ == self.spec_infer_expr(*expr),
    {
        proof {
            reveal_strlit("");
            assert(""@ =~= Seq::<char>::empty());
        }
        match expr {
            Expr::Path(p) => {
                let n = p.segments.len();
                proof {
                    if n > 0 {
                        assert(p.segments@.last() == p.segments@[n - 1]);
                    }
                }
                let name = if n > 0 {
                    p.segments[n - 1].ident.clone()
                } else {
                    String::new()
                };
                proof {
                    lemma_env_lookup(self.spec_scopes(), self.spec_variables(), name@);
                }
                match self.get_variable_type(name.as_str()) {
                    Some(v) => v.copy(),
                    None => {
                        let n2 = name.clone();
                        make_type(name, path_to_string(p), TypeKind::Primitive(n2), 50)
                    },
                }
            },
            Expr::Lit(k) => self.infer_type_from_literal(k),
            Expr::Call { func, .. } => {
                let fname = self.extract_function_name_from_expr(func);
                match self.get_function_signature(fname.as_str()) {
                    Some(sig) => match &sig.return_type {
                        Some(r) => r.copy(),
                        None => make_type(to_string("()"), to_string("()"), TypeKind::Tuple(Vec::new()), 80),
                    },
                    None => unknown_type(30),
                }
            },
            _ => unknown_type(10),
        }
    }
}

// ---------------------------------------------------------------------------
// Traits
// ---------------------------------------------------------------------------

pub struct TraitMethod {
    pub name: String,
    pub signature: FunctionSignature,
    pub has_default_impl: bool,
}

pub struct AssociatedType {
    pub name: String,
    pub bounds: Vec<TraitBound>,
    pub default: Option<InferredType>,
}

pub struct TraitDefinition {
    pub name: String,
    pub methods: Vec<TraitMethod>,
    pub associated_types: Vec<AssociatedType>,
    pub super_traits: Vec<String>,
    pub generic_params: Vec<GenericParameter>,
}

pub struct AssociatedTypeImpl {
    pub name: String,
    pub concrete_type: InferredType,
}

pub struct ImplBlock {
    pub target_type: InferredType,
    pub trait_path: Option<String>,
    pub methods: Vec<MethodDefinition>,
    pub associated_types: Vec<AssociatedTypeImpl>,
    pub generic_params: Vec<GenericParameter>,
    pub where_clause: Vec<WhereClause>,
}

pub struct TraitObject {
    pub trait_path: String,
    pub generic_args: Vec<InferredType>,
    pub lifetime: Option<String>,
}

/// A call of a trait's (or a type's own) method.
pub struct TraitCall {
    pub trait_name: String,
    pub method_name: String,
    pub receiver_type: InferredType,
    pub arguments: Vec<InferredType>,
    pub return_type: Option<InferredType>,
    pub location: SourceLocation,
    pub is_dynamic_dispatch: bool,
}

/// Resolves method calls against known types and `impl` blocks.
pub struct TraitResolver {
    trait_definitions: StringMap<TraitDefinition>,
    impl_blocks: StringMap<Vec<ImplBlock>>,
    trait_objects: StringMap<TraitObject>,
}

/// The first method called `n`.
pub open spec fn first_method_named(ms: Seq<MethodDefinition>, n: Seq<char>) -> Option<MethodDefinition>
    decreases ms.len(),
{
    if ms.len() == 0 {
        None
    } else if ms[0].name@ == n {
        Some(ms[0])
    } else {
        first_method_named(ms.drop_first(), n)
    }
}

/// The first method called `n` of the trait `impl` blocks, with its trait.
pub open spec fn first_trait_method(bs: Seq<ImplBlock>, n: Seq<char>) -> Option<(Seq<char>, MethodDefinition)>
    decreases bs.len(),
{
    if bs.len() == 0 {
        None
    } else {
        match bs[0].trait_path {
            Some(tp) => match first_method_named(bs[0].methods@, n) {
                Some(m) => Some((tp@, m)),
                None => first_trait_method(bs.drop_first(), n),
            },
            None => first_trait_method(bs.drop_first(), n),
        }
    }
}

/// A trait path that names a trait object.
pub open spec fn spec_is_dynamic_dispatch(tp: Seq<char>) -> bool {
    spec_contains(tp, "dyn "@) || spec_starts_with(tp, "Box<dyn "@)
}

pub open spec fn empty_location(l: SourceLocation) -> bool {
    l.file@ == Seq::<char>::empty() && l.line == 0 && l.column == 0
}

/// A resolved call: its trait, method, receiver and return type, no
/// arguments, and an empty location.
pub open spec fn trait_call_matches(
    c: TraitCall,
    trait_name: Seq<char>,
    method: Seq<char>,
    receiver: InferredTypeView,
    ret: Option<InferredTypeView>,
    dynamic: bool,
) -> bool {
    &&& c.trait_name@ == trait_name
    &&& c.method_name@ == method
    &&& c.receiver_type@ == receiver
    &&& c.arguments@.len() == 0
    &&& opt_type_view(c.return_type) == ret
    &&& empty_location(c.location)
    &&& c.is_dynamic_dispatch == dynamic
}

fn empty_loc() -> (res: SourceLocation)
    ensures
        empty_location(res),
{
    SourceLocation { file: String::new(), line: 0, column: 0 }
}

fn find_method<'a>(ms: &'a Vec<MethodDefinition>, n: &str) -> (res: Option<&'a MethodDefinition>)
    ensures
        match res {
            Some(m) => first_method_named(ms@, n@) == Some(*m),
            None => first_method_named(ms@, n@) is None,
        },
{
    let mut i: usize = 0;
    assert(ms@.subrange(0, ms@.len() as int) =~= ms@);
    while i < ms.len()
        invariant
            i <= ms.len(),
            first_method_named(ms@, n@) == first_method_named(ms@.subrange(i as int, ms@.len() as int), n@),
        decreases ms.len() - i,
    {
        let ghost rest = ms@.subrange(i as int, ms@.len() as int);
        assert(rest[0] == ms@[i as int]);
        assert(rest.drop_first() =~= ms@.subrange(i + 1, ms@.len() as int));
        if str_eq(ms[i].name.as_str(), n) {
            return Some(&ms[i]);
        }
        i = i + 1;
    }
    None
}

fn find_trait_method<'a>(bs: &'a Vec<ImplBlock>, n: &str) -> (res: Option<(&'a String, &'a MethodDefinition)>)
    ensures
        match res {
            Some(r) => first_trait_method(bs@, n@) == Some((r.0@, *r.1)),
            None => first_trait_method(bs@, n@) is None,
        },
{
    let mut i: usize = 0;
    assert(bs@.subrange(0, bs@.len() as int) =~= bs@);
    while i < bs.len()
        invariant
            i <= bs.len(),
            first_trait_method(bs@, n@) == first_trait_method(bs@.subrange(i as int, bs@.len() as int), n@),
        decreases bs.len() - i,
    {
        let ghost rest = bs@.subrange(i as int, bs@.len() as int);
        assert(rest[0] == bs@[i as int]);
        assert(rest.drop_first() =~= bs@.subrange(i + 1, bs@.len() as int));
        match &bs[i].trait_path {
            Some(tp) => match find_method(&bs[i].methods, n) {
                Some(m) => {
                    return Some((tp, m));
                },
                None => {},
            },
            None => {},
        }
        i = i + 1;
    }
    None
}

fn opt_type_copy(o: &Option<InferredType>) -> (res: Option<InferredType>)
    ensures
        opt_type_view(res) == opt_type_view(*o),
{
    match o {
        Some(t) => Some(t.copy()),
        None => None,
    }
}

impl TraitResolver {
    pub closed spec fn wf(&self) -> bool {
        self.trait_definitions.wf() && self.impl_blocks.wf() && self.trait_objects.wf()
    }

    /// The `impl` blocks recorded for a type.
    pub closed spec fn spec_impl_blocks(&self, ty: Seq<char>) -> Option<Vec<ImplBlock>> {
        self.impl_blocks.lookup(ty)
    }

    /// A resolver that knows no traits or impls.
    pub fn new() -> (res: Self)
        ensures
            res.wf(),
            forall|k: Seq<char>| #[trigger] res.spec_impl_blocks(k) is None,
    {
        TraitResolver {
            trait_definitions: StringMap::new(),
            impl_blocks: StringMap::new(),
            trait_objects: StringMap::new(),
        }
    }

    /// Whether a trait path names a trait object.
    pub fn is_dynamic_dispatch(&self, trait_path: &str) -> (res: bool)
        ensures
            res == spec_is_dynamic_dispatch(trait_path@),
    {
        str_contains(trait_path, "dyn ") || str_starts_with(trait_path, "Box<dyn ")
    }

    /// The call a method call resolves to: the receiver type's own method of
    /// that name, else the first trait `impl` method of that name.
    pub fn resolve_method_call(
        &self,
        receiver_type: &InferredType,
        method_name: &str,
        type_context: &TypeInferenceContext,
    ) -> (res: Option<TraitCall>)
        requires
            self.wf(),
            type_context.wf(),
        ensures
            ({
                let own = match type_context.spec_type_definitions().lookup(receiver_type.name@) {
                    Some(d) => first_method_named(d.methods@, method_name@),
                    None => None,
                };
                let by_trait = match self.spec_impl_blocks(receiver_type.name@) {
                    Some(bs) => first_trait_method(bs@, method_name@),
                    None => None,
                };
                match own {
                    Some(m) => res matches Some(c) && trait_call_matches(
                        c,
                        "inherent"@,
                        method_name@,
                        receiver_type@,
                        opt_type_view(m.signature.return_type),
                        false,
                    ),
                    None => match by_trait {
                        Some((tp, m)) => res matches Some(c) && trait_call_matches(
                            c,
                            tp,
                            method_name@,
                            receiver_type@,
                            opt_type_view(m.signature.return_type),
                            spec_is_dynamic_dispatch(tp),
                        ),
                        None => res is None,
                    },
                }
            }),
    {
        match type_context.get_type_definition(receiver_type.name.as_str()) {
            Some(d) => match find_method(&d.methods, method_name) {
                Some(m) => {
                    return Some(
                        TraitCall {
                            trait_name: to_string("inherent"),
                            method_name: to_string(method_name),
                            receiver_type: receiver_type.copy(),
                            arguments: Vec::new(),
                            return_type: opt_type_copy(&m.signature.return_type),
                            location: empty_loc(),
                            is_dynamic_dispatch: false,
                        },
                    );
                },
                None => {},
            },
            None => {},
        }
        match self.impl_blocks.get(receiver_type.name.as_str()) {
            Some(bs) => match find_trait_method(bs, method_name) {
                Some((tp, m)) => Some(
                    TraitCall {
                        trait_name: tp.clone(),
                        method_name: to_string(method_name),
                        receiver_type: receiver_type.copy(),
                        arguments: Vec::new(),
                        return_type: opt_type_copy(&m.signature.return_type),
                        location: empty_loc(),
                        is_dynamic_dispatch: self.is_dynamic_dispatch(tp.as_str()),
                    },
                ),
                None => None,
            },
            None => None,
        }
    }
}

impl TypeInferenceContext {
    /// The type a method's receiver (or a call's argument) has: a variable's
    /// recorded type, a reference to such a type, or a guess.
    pub open spec fn spec_receiver_type(&self, e: Expr) -> InferredTypeView
        decreases e,
    {
        match e {
            Expr::Path(p) => {
                let name = last_ident_or_empty(p);
                match self.variable_lookup(name) {
                    Some(v) => v@,
                    None => named_view(name, spec_join(path_idents(p), "::"@), 50),
                }
            },
            Expr::Reference { mutable, expr } => InferredTypeView {
                is_reference: true,
                is_mutable: mutable,
                ..self.spec_receiver_type(*expr)
            },
            _ => unknown_view(10),
        }
    }

    /// The type a method's receiver (or a call's argument) has.
    pub fn infer_receiver_type(&self, expr: &Expr) -> (res: InferredType)
        requires
            self.wf(),
        ensures
            res@ == self.spec_receiver_type(*expr),
        decreases expr,
    {
        proof {
            reveal_strlit("");
            assert(""@ =~= Seq::<char>::empty());
        }
        match expr {
            Expr::Path(p) => {
                let n = p.segments.len();
                proof {
                    if n > 0 {
                        assert(p.segments@.last() == p.segments@[n - 1]);
                    }
                }
                let name = if n > 0 {
                    p.segments[n - 1].ident.clone()
                } else {
                    String::new()
                };
                match self.get_variable_type(name.as_str()) {
                    Some(v) => v.copy(),
                    None => {
                        let n2 = name.clone();
                        make_type(name, path_to_string(p), TypeKind::Primitive(n2), 50)
                    },
                }
            },
            Expr::Reference { mutable, expr: inner } => {
                let mut t = self.infer_receiver_type(inner);
                t.is_reference = true;
                t.is_mutable = *mutable;
                t
            },
            _ => unknown_type(10),
        }
    }
}

// ---------------------------------------------------------------------------
// Signatures as plain values, and their copies
// ---------------------------------------------------------------------------

pub struct GenericParamView {
    pub name: Seq<char>,
    pub bounds: Seq<TraitBoundView>,
    pub default: Option<InferredTypeView>,
}

pub struct SignatureView {
    pub name: Seq<char>,
    /// Each parameter's name, type and whether it is `self`.
    pub parameters: Seq<(Seq<char>, InferredTypeView, bool)>,
    pub return_type: Option<InferredTypeView>,
    pub generic_params: Seq<GenericParamView>,
    /// Each clause's type parameter and bounds.
    pub where_clause: Seq<(Seq<char>, Seq<TraitBoundView>)>,
}

pub open spec fn generic_param_view(g: GenericParameter) -> GenericParamView {
    GenericParamView { name: g.name@, bounds: bound_views(g.bounds@), default: opt_type_view(g.default) }
}

pub open spec fn signature_view(s: FunctionSignature) -> SignatureView {
    SignatureView {
        name: s.name@,
        parameters: s.parameters@.map_values(|p: Parameter| (p.name@, p.param_type@, p.is_self)),
        return_type: opt_type_view(s.return_type),
        generic_params: s.generic_params@.map_values(|g: GenericParameter| generic_param_view(g)),
        where_clause: s.where_clause@.map_values(|w: WhereClause| (w.type_param@, bound_views(w.bounds@))),
    }
}

/// A copy of a signature with the same view.
pub fn copy_signature(s: &FunctionSignature) -> (res: FunctionSignature)
    ensures
        signature_view(res) == signature_view(*s),
{
    let mut parameters: Vec<Parameter> = Vec::new();
    let mut i: usize = 0;
    while i < s.parameters.len()
        invariant
            i <= s.parameters.len(),
            parameters@.map_values(|p: Parameter| (p.name@, p.param_type@, p.is_self)) == s.parameters@.take(
                i as int,
            ).map_values(|p: Parameter| (p.name@, p.param_type@, p.is_self)),
        decreases s.parameters.len() - i,
    {
        let p = &s.parameters[i];
        let c = Parameter { name: p.name.clone(), param_type: p.param_type.copy(), is_self: p.is_self };
        let ghost before = parameters@;
        parameters.push(c);
        proof {
            assert(parameters@.map_values(|p: Parameter| (p.name@, p.param_type@, p.is_self)) =~= before.map_values(
                |p: Parameter| (p.name@, p.param_type@, p.is_self),
            ).push((c.name@, c.param_type@, c.is_self)));
            assert(s.parameters@.take(i + 1).map_values(|p: Parameter| (p.name@, p.param_type@, p.is_self))
                =~= s.parameters@.take(i as int).map_values(|p: Parameter| (p.name@, p.param_type@, p.is_self)).push(
                (p.name@, p.param_type@, p.is_self),
            ));
        }
        i = i + 1;
    }
    let mut generic_params: Vec<GenericParameter> = Vec::new();
    let mut j: usize = 0;
    while j < s.generic_params.len()
        invariant
            j <= s.generic_params.len(),
            generic_params@.map_values(|g: GenericParameter| generic_param_view(g)) == s.generic_params@.take(
                j as int,
            ).map_values(|g: GenericParameter| generic_param_view(g)),
        decreases s.generic_params.len() - j,
    {
        let g = &s.generic_params[j];
        let c = GenericParameter { name: g.name.clone(), bounds: copy_bounds(&g.bounds), default: opt_type_copy(&g.default) };
        let ghost before = generic_params@;
        generic_params.push(c);
        proof {
            assert(generic_params@.map_values(|g: GenericParameter| generic_param_view(g)) =~= before.map_values(
                |g: GenericParameter| generic_param_view(g),
            ).push(generic_param_view(c)));
            assert(s.generic_params@.take(j + 1).map_values(|g: GenericParameter| generic_param_view(g))
                =~= s.generic_params@.take(j as int).map_values(|g: GenericParameter| generic_param_view(g)).push(
                generic_param_view(*g),
            ));
        }
        j = j + 1;
    }
    let mut where_clause: Vec<WhereClause> = Vec::new();
    let mut k: usize = 0;
    while k < s.where_clause.len()
        invariant
            k <= s.where_clause.len(),
            where_clause@.map_values(|w: WhereClause| (w.type_param@, bound_views(w.bounds@))) == s.where_clause@.take(
                k as int,
            ).map_values(|w: WhereClause| (w.type_param@, bound_views(w.bounds@))),
        decreases s.where_clause.len() - k,
    {
        let w = &s.where_clause[k];
        let c = WhereClause { type_param: w.type_param.clone(), bounds: copy_bounds(&w.bounds) };
        let ghost before = where_clause@;
        where_clause.push(c);
        proof {
            assert(where_clause@.map_values(|w: WhereClause| (w.type_param@, bound_views(w.bounds@))) =~= before.map_values(
                |w: WhereClause| (w.type_param@, bound_views(w.bounds@)),
            ).push((c.type_param@, bound_views(c.bounds@))));
            assert(s.where_clause@.take(k + 1).map_values(|w: WhereClause| (w.type_param@, bound_views(w.bounds@)))
                =~= s.where_clause@.take(k as int).map_values(|w: WhereClause| (w.type_param@, bound_views(w.bounds@))).push(
                (w.type_param@, bound_views(w.bounds@)),
            ));
        }
        k = k + 1;
    }
    proof {
        assert(s.parameters@.take(s.parameters@.len() as int) =~= s.parameters@);
        assert(s.generic_params@.take(s.generic_params@.len() as int) =~= s.generic_params@);
        assert(s.where_clause@.take(s.where_clause@.len() as int) =~= s.where_clause@);
    }
    FunctionSignature {
        name: s.name.clone(),
        parameters,
        return_type: opt_type_copy(&s.return_type),
        generic_params,
        where_clause,
    }
}

// ---------------------------------------------------------------------------
// Call graphs
// ---------------------------------------------------------------------------

#[verifier::external_type_specification]
#[verifier::external_body]
#[verifier::reject_recursive_types(N)]
#[verifier::reject_recursive_types(E)]
#[verifier::reject_recursive_types(Ty)]
#[verifier::reject_recursive_types(Ix)]
pub struct ExGraph<N, E, Ty, Ix>(petgraph::graph::Graph<N, E, Ty, Ix>);

#[verifier::external_type_specification]
#[verifier::external_body]
pub struct ExDirected(petgraph::Directed);

/// The node weights of a graph, in the order of their indices.
pub uninterp spec fn graph_nodes(g: petgraph::graph::Graph<usize, usize, petgraph::Directed, u32>) -> Seq<usize>;

/// The edges of a graph as (source index, target index, weight), in the
/// order of their indices.
pub uninterp spec fn graph_edges(g: petgraph::graph::Graph<usize, usize, petgraph::Directed, u32>) -> Seq<
    (usize, usize, usize),
>;

/// `Graph::new`: a graph with no nodes and no edges.
#[verifier::external_body]
fn graph_new() -> (g: petgraph::graph::Graph<usize, usize, petgraph::Directed, u32>)
    ensures
        graph_nodes(g) == Seq::<usize>::empty(),
        graph_edges(g) == Seq::<(usize, usize, usize)>::empty(),
{
    petgraph::graph::Graph::new()
}

/// `Graph::add_node`: appends a node with weight `w` and gives its index,
/// the number of nodes before. It panics when the index type is full, which
/// the bound on the node count rules out.
#[verifier::external_body]
fn graph_add_node(g: &mut petgraph::graph::Graph<usize, usize, petgraph::Directed, u32>, w: usize) -> (idx: usize)
    requires
        graph_nodes(*old(g)).len() < u32::MAX,
    ensures
        graph_nodes(*final(g)) == graph_nodes(*old(g)).push(w),
        graph_edges(*final(g)) == graph_edges(*old(g)),
        idx == graph_nodes(*old(g)).len(),
{
    g.add_node(w).index()
}

/// `Graph::add_edge`: appends an edge from node `a` to node `b` with weight
/// `w`. It panics on a node index out of bounds or a full index type, which
/// the requirements rule out.
#[verifier::external_body]
fn graph_add_edge(g: &mut petgraph::graph::Graph<usize, usize, petgraph::Directed, u32>, a: usize, b: usize, w: usize)
    requires
        a < graph_nodes(*old(g)).len(),
        b < graph_nodes(*old(g)).len(),
        graph_edges(*old(g)).len() < u32::MAX,
    ensures
        graph_nodes(*final(g)) == graph_nodes(*old(g)),
        graph_edges(*final(g)) == graph_edges(*old(g)).push((a, b, w)),
{
    g.add_edge(petgraph::graph::NodeIndex::new(a), petgraph::graph::NodeIndex::new(b), w);
}

/// `Graph::node_weights`: the node weights in index order.
#[verifier::external_body]
fn graph_node_weights(g: &petgraph::graph::Graph<usize, usize, petgraph::Directed, u32>) -> (res: Vec<usize>)
    ensures
        res@ == graph_nodes(*g),
{
    g.node_weights().cloned().collect()
}

/// `Graph::edge_references`: each edge's source index, target index and
/// weight, in index order.
#[verifier::external_body]
fn graph_edge_list(g: &petgraph::graph::Graph<usize, usize, petgraph::Directed, u32>) -> (res: Vec<(usize, usize, usize)>)
    ensures
        res@ == graph_edges(*g),
{
    g.edge_references().map(|e| (e.source().index(), e.target().index(), *e.weight())).collect()
}

/// A function in the call graph.
pub struct CallNode {
    pub function_name: String,
    pub signature: FunctionSignature,
    pub location: SourceLocation,
}

/// A call in the call graph.
pub struct CallEdge {
    pub call_type: CallType,
    pub location: SourceLocation,
}

/// The call graph's nodes, and its edges as (caller index, callee index, edge).
pub struct CallGraphExport {
    pub nodes: Vec<CallNode>,
    pub edges: Vec<(usize, usize, CallEdge)>,
}

/// Functions and the calls between them; each function name has one node.
pub struct CallGraph {
    graph: petgraph::graph::Graph<usize, usize, petgraph::Directed, u32>,
    nodes: Vec<CallNode>,
    edges: Vec<CallEdge>,
    node_map: StringMap<usize>,
}

pub open spec fn location_same(a: SourceLocation, b: SourceLocation) -> bool {
    a.file@ == b.file@ && a.line == b.line && a.column == b.column
}

pub open spec fn node_same(a: CallNode, b: CallNode) -> bool {
    &&& a.function_name@ == b.function_name@
    &&& signature_view(a.signature) == signature_view(b.signature)
    &&& location_same(a.location, b.location)
}

pub open spec fn edge_same(a: CallEdge, b: CallEdge) -> bool {
    a.call_type == b.call_type && location_same(a.location, b.location)
}

fn copy_location(l: &SourceLocation) -> (res: SourceLocation)
    ensures
        location_same(res, *l),
{
    SourceLocation { file: l.file.clone(), line: l.line, column: l.column }
}

impl CallGraph {
    pub closed spec fn wf(&self) -> bool {
        &&& self.node_map.wf()
        &&& graph_nodes(self.graph).len() == self.nodes@.len()
        &&& forall|i: int| 0 <= i < self.nodes@.len() ==> #[trigger] graph_nodes(self.graph)[i] == i
        &&& graph_edges(self.graph).len() == self.edges@.len()
        &&& forall|j: int|
            0 <= j < self.edges@.len() ==> {
                &&& (#[trigger] graph_edges(self.graph)[j]).2 == j
                &&& graph_edges(self.graph)[j].0 < self.nodes@.len()
                &&& graph_edges(self.graph)[j].1 < self.nodes@.len()
            }
        &&& forall|k: Seq<char>|
            #[trigger] self.node_map.lookup(k) matches Some(i) ==> i < self.nodes@.len() && self.nodes@[i as int].function_name@ == k
    }

    /// The functions, in the order they were added.
    pub closed spec fn spec_nodes(&self) -> Seq<CallNode> {
        self.nodes@
    }

    /// The calls, in the order they were added, as (caller, callee, edge).
    pub closed spec fn spec_edges(&self) -> Seq<(usize, usize, CallEdge)> {
        Seq::new(self.edges@.len(), |j: int| (graph_edges(self.graph)[j].0, graph_edges(self.graph)[j].1, self.edges@[j]))
    }

    /// The node of a function name.
    pub closed spec fn node_of(&self, name: Seq<char>) -> Option<usize> {
        self.node_map.lookup(name)
    }

    /// A graph with no nodes and no edges.
    pub fn new() -> (res: Self)
        ensures
            res.wf(),
            res.spec_nodes().len() == 0,
            res.spec_edges().len() == 0,
            forall|k: Seq<char>| #[trigger] res.node_of(k) is None,
    {
        CallGraph { graph: graph_new(), nodes: Vec::new(), edges: Vec::new(), node_map: StringMap::new() }
    }

    /// The node of `function_name`, added with the signature and location
    /// given when the name has none yet.
    pub fn add_node(&mut self, function_name: String, signature: FunctionSignature, location: SourceLocation) -> (res: usize)
        requires
            old(self).wf(),
            old(self).spec_nodes().len() < u32::MAX,
        ensures
            final(self).wf(),
            final(self).spec_edges() == old(self).spec_edges(),
            match old(self).node_of(function_name@) {
                Some(i) => res == i && final(self).spec_nodes() == old(self).spec_nodes()
                    && forall|k: Seq<char>| #[trigger] final(self).node_of(k) == old(self).node_of(k),
                None => {
                    &&& res == old(self).spec_nodes().len()
                    &&& final(self).spec_nodes().len() == old(self).spec_nodes().len() + 1
                    &&& final(self).spec_nodes().drop_last() == old(self).spec_nodes()
                    &&& final(self).spec_nodes().last().function_name@ == function_name@
                    &&& signature_view(final(self).spec_nodes().last().signature) == signature_view(signature)
                    &&& location_same(final(self).spec_nodes().last().location, location)
                    &&& final(self).node_of(function_name@) == Some(res)
                    &&& forall|k: Seq<char>| k != function_name@ ==> #[trigger] final(self).node_of(k) == old(self).node_of(k)
                },
            },
    {
        match self.node_map.get(function_name.as_str()) {
            Some(i) => {
                return *i;
            },
            None => {},
        }
        let k = self.nodes.len();
        let ghost old_edges = graph_edges(self.graph);
        let idx = graph_add_node(&mut self.graph, k);
        self.nodes.push(CallNode { function_name: function_name.clone(), signature, location });
        self.node_map.insert(function_name, idx);
        proof {
            assert(self.nodes@.drop_last() =~= old(self).nodes@);
            assert forall|j: int| 0 <= j < self.edges@.len() implies (#[trigger] self.spec_edges()[j]) == old(self).spec_edges()[j] by {}
            assert(self.spec_edges() =~= old(self).spec_edges());
            assert forall|key: Seq<char>| (#[trigger] self.node_map.lookup(key)) is Some implies self.node_map.lookup(key)->0 < self.nodes@.len()
                && self.nodes@[self.node_map.lookup(key)->0 as int].function_name@ == key by {
                if key != function_name@ {
                    assert(old(self).node_map.lookup(key) == self.node_map.lookup(key));
                }
            }
        }
        idx
    }

    /// Adds a call from node `caller` to node `callee`.
    pub fn add_edge(&mut self, caller: usize, callee: usize, call_type: CallType, location: SourceLocation)
        requires
            old(self).wf(),
            caller < old(self).spec_nodes().len(),
            callee < old(self).spec_nodes().len(),
            old(self).spec_edges().len() < u32::MAX,
        ensures
            final(self).wf(),
            final(self).spec_nodes() == old(self).spec_nodes(),
            final(self).spec_edges().len() == old(self).spec_edges().len() + 1,
            final(self).spec_edges().drop_last() == old(self).spec_edges(),
            final(self).spec_edges().last().0 == caller,
            final(self).spec_edges().last().1 == callee,
            final(self).spec_edges().last().2.call_type == call_type,
            location_same(final(self).spec_edges().last().2.location, location),
            forall|k: Seq<char>| #[trigger] final(self).node_of(k) == old(self).node_of(k),
    {
        let w = self.edges.len();
        graph_add_edge(&mut self.graph, caller, callee, w);
        self.edges.push(CallEdge { call_type, location });
        proof {
            assert(self.spec_edges().drop_last() =~= old(self).spec_edges());
        }
    }

    /// The nodes and edges, in the order they were added.
    pub fn export(&self) -> (res: CallGraphExport)
        requires
            self.wf(),
        ensures
            res.nodes@.len() == self.spec_nodes().len(),
            forall|i: int| 0 <= i < res.nodes@.len() ==> node_same(#[trigger] res.nodes@[i], self.spec_nodes()[i]),
            res.edges@.len() == self.spec_edges().len(),
            forall|j: int|
                0 <= j < res.edges@.len() ==> {
                    &&& (#[trigger] res.edges@[j]).0 == self.spec_edges()[j].0
                    &&& res.edges@[j].1 == self.spec_edges()[j].1
                    &&& edge_same(res.edges@[j].2, self.spec_edges()[j].2)
                },
    {
        let weights = graph_node_weights(&self.graph);
        let mut nodes: Vec<CallNode> = Vec::new();
        let mut i: usize = 0;
        while i < weights.len()
            invariant
                i <= weights.len(),
                self.wf(),
                weights@ == graph_nodes(self.graph),
                nodes@.len() == i,
                forall|t: int| 0 <= t < i ==> node_same(#[trigger] nodes@[t], self.nodes@[t]),
            decreases weights.len() - i,
        {
            let k = weights[i];
            assert(k == i);
            let n = &self.nodes[k];
            nodes.push(
                CallNode {
                    function_name: n.function_name.clone(),
                    signature: copy_signature(&n.signature),
                    location: copy_location(&n.location),
                },
            );
            i = i + 1;
        }
        let list = graph_edge_list(&self.graph);
        let mut edges: Vec<(usize, usize, CallEdge)> = Vec::new();
        let mut j: usize = 0;
        while j < list.len()
            invariant
                j <= list.len(),
                self.wf(),
                list@ == graph_edges(self.graph),
                edges@.len() == j,
                forall|t: int|
                    0 <= t < j ==> {
                        &&& (#[trigger] edges@[t]).0 == self.spec_edges()[t].0
                        &&& edges@[t].1 == self.spec_edges()[t].1
                        &&& edge_same(edges@[t].2, self.spec_edges()[t].2)
                    },
            decreases list.len() - j,
        {
            let (a, b, w) = list[j];
            assert(w == j);
            let e = &self.edges[w];
            edges.push((a, b, CallEdge { call_type: e.call_type, location: copy_location(&e.location) }));
            j = j + 1;
        }
        CallGraphExport { nodes, edges }
    }
}

// ---------------------------------------------------------------------------
// Asynchronous functions
// ---------------------------------------------------------------------------

/// How an asynchronous function handles errors.
#[derive(Clone, Copy, PartialEq, Eq)]
pub enum AsyncErrorHandling {
    QuestionMark,
    Match,
    Unwrap,
    Custom,
}

/// An `.await` and the type of what it awaits.
pub struct AwaitPoint {
    pub location: SourceLocation,
    pub future_type: InferredType,
    pub error_propagation: bool,
}

/// An `async fn` with the futures it awaits and the functions it awaits.
pub struct AsyncFunction {
    pub name: String,
    pub signature: FunctionSignature,
    pub future_type: InferredType,
    pub await_points: Vec<AwaitPoint>,
    pub async_calls: Vec<String>,
    pub error_handling: AsyncErrorHandling,
}

/// A call found by type inference. `confidence_pct` is in percent.
pub struct FunctionCall {
    pub caller: String,
    pub callee: String,
    pub call_type: CallType,
    pub arguments: Vec<InferredType>,
    pub return_type: Option<InferredType>,
    pub location: SourceLocation,
    pub confidence_pct: u8,
    pub is_async: bool,
    pub await_points: Vec<AwaitPoint>,
}

pub open spec fn unknown_location(l: SourceLocation) -> bool {
    l.file@ == "unknown"@ && l.line == 0 && l.column == 0
}

/// The future type of an `async fn`, from its return type.
pub open spec fn spec_future_type(output: Option<SynType>) -> InferredTypeView {
    match output {
        None => base_view(
            "Future<Output = ()>"@,
            "std::future::Future<Output = ()>"@,
            TypeKindView::Primitive("Future"@),
            100,
        ),
        Some(t) => base_view(
            "Future<Output = "@ + spec_short_type(t) + ">"@,
            "std::future::Future<Output = "@ + spec_short_type(t) + ">"@,
            TypeKindView::Primitive("Future"@),
            100,
        ),
    }
}

/// How a body handles errors, judged from its text: `?`, then `match` with
/// `Err`, then `unwrap` or `expect`.
pub open spec fn spec_error_handling(text: Seq<char>) -> AsyncErrorHandling {
    if spec_contains(text, "?"@) {
        AsyncErrorHandling::QuestionMark
    } else if spec_contains(text, "match"@) && spec_contains(text, "Err"@) {
        AsyncErrorHandling::Match
    } else if spec_contains(text, "unwrap"@) || spec_contains(text, "expect"@) {
        AsyncErrorHandling::Unwrap
    } else {
        AsyncErrorHandling::Custom
    }
}

/// A type as an async signature records it: a path's last identifier, or
/// `unknown`.
pub open spec fn spec_async_type(ty: SynType) -> InferredTypeView {
    match ty {
        SynType::Path(p) => named_view(p.segments@.last().ident@, p.segments@.last().ident@, 100),
        _ => unknown_view(100),
    }
}

pub open spec fn async_type_ok(ty: SynType) -> bool {
    match ty {
        SynType::Path(p) => p.segments@.len() > 0,
        _ => true,
    }
}

/// The parameters an async signature records: `self`, and each parameter
/// bound to a plain name.
pub open spec fn async_params(inputs: Seq<FnArg>) -> Seq<(Seq<char>, InferredTypeView, bool)>
    decreases inputs.len(),
{
    if inputs.len() == 0 {
        Seq::empty()
    } else {
        let r = async_params(inputs.drop_last());
        match inputs.last() {
            FnArg::Receiver { .. } => r.push(("self"@, named_view("Self"@, "Self"@, 100), true)),
            FnArg::Typed { pat, ty } => match pat {
                Pat::Ident { name, .. } => r.push((name@, spec_async_type(ty), false)),
                _ => r,
            },
        }
    }
}

pub open spec fn async_sig_ok(sig: Signature) -> bool {
    &&& forall|i: int| 0 <= i < sig.inputs@.len() ==> (#[trigger] sig.inputs@[i] matches FnArg::Typed { ty, .. } ==> async_type_ok(ty))
    &&& (sig.output matches Some(t) ==> async_type_ok(t) && short_type_ok(t))
}

/// The signature an async function record holds.
pub open spec fn async_signature_matches(fs: FunctionSignature, sig: Signature) -> bool {
    let v = signature_view(fs);
    &&& v.name == sig.ident@
    &&& v.parameters == async_params(sig.inputs@)
    &&& v.return_type == match sig.output {
        Some(t) => Some(spec_async_type(t)),
        None => None,
    }
    &&& v.generic_params.len() == 0
    &&& v.where_clause.len() == 0
}

pub open spec fn future_view() -> InferredTypeView {
    base_view("Future"@, "std::future::Future"@, TypeKindView::Primitive("Future"@), 100)
}

/// The `.await`s of a body.
pub open spec fn await_count(body: Seq<BodyEvent>) -> nat
    decreases body.len(),
{
    if body.len() == 0 {
        0
    } else {
        await_count(body.drop_last()) + if body.last() is Await {
            1nat
        } else {
            0nat
        }
    }
}

/// The functions a body awaits calls of, by their last identifier.
pub open spec fn awaited_calls(body: Seq<BodyEvent>) -> Seq<Seq<char>>
    decreases body.len(),
{
    if body.len() == 0 {
        Seq::empty()
    } else {
        let r = awaited_calls(body.drop_last());
        match body.last() {
            BodyEvent::Await { base: Expr::Call { func, .. } } => match *func {
                Expr::Path(p) => r.push(p.segments@.last().ident@),
                _ => r,
            },
            _ => r,
        }
    }
}

/// The awaited calls of a body name their functions.
pub open spec fn await_paths_named(body: Seq<BodyEvent>) -> bool {
    forall|i: int|
        0 <= i < body.len() ==> (#[trigger] body[i] matches BodyEvent::Await { base: Expr::Call { func, .. } } ==> (
        *func matches Expr::Path(p) ==> p.segments@.len() > 0))
}

pub open spec fn await_point_is(a: AwaitPoint, t: InferredTypeView) -> bool {
    unknown_location(a.location) && a.future_type@ == t && !a.error_propagation
}

/// What an async function record holds for a function.
pub open spec fn async_function_matches(a: AsyncFunction, f: FnItem) -> bool {
    &&& a.name@ == f.sig.ident@
    &&& async_signature_matches(a.signature, f.sig)
    &&& a.future_type@ == spec_future_type(f.sig.output)
    &&& a.await_points@.len() == await_count(f.body@)
    &&& forall|i: int| 0 <= i < a.await_points@.len() ==> await_point_is(#[trigger] a.await_points@[i], future_view())
    &&& string_views(a.async_calls@) == awaited_calls(f.body@)
    &&& a.error_handling == spec_error_handling(f.block_text@)
}

fn unknown_loc() -> (res: SourceLocation)
    ensures
        unknown_location(res),
{
    SourceLocation { file: to_string("unknown"), line: 0, column: 0 }
}

/// The future type of an `async fn`.
pub fn infer_future_type(sig: &Signature) -> (res: InferredType)
    requires
        sig.output matches Some(t) ==> short_type_ok(t),
    ensures
        res@ == spec_future_type(sig.output),
{
    match &sig.output {
        None => make_type(
            to_string("Future<Output = ()>"),
            to_string("std::future::Future<Output = ()>"),
            TypeKind::Primitive(to_string("Future")),
            100,
        ),
        Some(t) => {
            let rt = short_type_text(t);
            make_type(
                concat3("Future<Output = ", rt.as_str(), ">"),
                concat3("std::future::Future<Output = ", rt.as_str(), ">"),
                TypeKind::Primitive(to_string("Future")),
                100,
            )
        },
    }
}

/// How a body handles errors, judged from its text.
pub fn analyze_error_handling(block_text: &str) -> (res: AsyncErrorHandling)
    ensures
        res == spec_error_handling(block_text@),
{
    if str_contains(block_text, "?") {
        AsyncErrorHandling::QuestionMark
    } else if str_contains(block_text, "match") && str_contains(block_text, "Err") {
        AsyncErrorHandling::Match
    } else if str_contains(block_text, "unwrap") || str_contains(block_text, "expect") {
        AsyncErrorHandling::Unwrap
    } else {
        AsyncErrorHandling::Custom
    }
}

fn type_from_syn(ty: &SynType) -> (res: InferredType)
    requires
        async_type_ok(*ty),
    ensures
        res@ == spec_async_type(*ty),
{
    match ty {
        SynType::Path(p) => {
            let n = p.segments[p.segments.len() - 1].ident.clone();
            let n2 = n.clone();
            let n3 = n.clone();
            make_type(n, n2, TypeKind::Primitive(n3), 100)
        },
        _ => unknown_type(100),
    }
}

/// The signature an async function record holds.
pub fn extract_function_signature(sig: &Signature) -> (res: FunctionSignature)
    requires
        async_sig_ok(*sig),
    ensures
        async_signature_matches(res, *sig),
{
    let mut parameters: Vec<Parameter> = Vec::new();
    let mut i: usize = 0;
    while i < sig.inputs.len()
        invariant
            i <= sig.inputs.len(),
            async_sig_ok(*sig),
            parameters@.map_values(|p: Parameter| (p.name@, p.param_type@, p.is_self)) == async_params(sig.inputs@.take(i as int)),
        decreases sig.inputs.len() - i,
    {
        proof {
            assert(sig.inputs@.take(i + 1).drop_last() =~= sig.inputs@.take(i as int));
            assert(sig.inputs@.take(i + 1).last() == sig.inputs@[i as int]);
        }
        let ghost before = parameters@;
        match &sig.inputs[i] {
            FnArg::Receiver { .. } => {
                let p = Parameter { name: to_string("self"), param_type: self_type(false, false), is_self: true };
                parameters.push(p);
                proof {
                    assert(parameters@.map_values(|p: Parameter| (p.name@, p.param_type@, p.is_self)) =~= before.map_values(
                        |p: Parameter| (p.name@, p.param_type@, p.is_self),
                    ).push((p.name@, p.param_type@, p.is_self)));
                }
            },
            FnArg::Typed { pat, ty } => match pat {
                Pat::Ident { name, .. } => {
                    let p = Parameter { name: name.clone(), param_type: type_from_syn(ty), is_self: false };
                    parameters.push(p);
                    proof {
                        assert(parameters@.map_values(|p: Parameter| (p.name@, p.param_type@, p.is_self)) =~= before.map_values(
                            |p: Parameter| (p.name@, p.param_type@, p.is_self),
                        ).push((p.name@, p.param_type@, p.is_self)));
                    }
                },
                _ => {},
            },
        }
        i = i + 1;
    }
    proof {
        assert(sig.inputs@.take(sig.inputs@.len() as int) =~= sig.inputs@);
    }
    let return_type = match &sig.output {
        None => None,
        Some(t) => Some(type_from_syn(t)),
    };
    let r = FunctionSignature {
        name: sig.ident.clone(),
        parameters,
        return_type,
        generic_params: Vec::new(),
        where_clause: Vec::new(),
    };
    r
}

/// The await points and the awaited functions of an async body.
pub fn analyze_await_body(body: &Vec<BodyEvent>) -> (res: (Vec<AwaitPoint>, Vec<String>))
    requires
        await_paths_named(body@),
    ensures
        res.0@.len() == await_count(body@),
        forall|i: int| 0 <= i < res.0@.len() ==> await_point_is(#[trigger] res.0@[i], future_view()),
        string_views(res.1@) == awaited_calls(body@),
{
    let mut points: Vec<AwaitPoint> = Vec::new();
    let mut calls: Vec<String> = Vec::new();
    let mut i: usize = 0;
    while i < body.len()
        invariant
            i <= body.len(),
            await_paths_named(body@),
            points@.len() == await_count(body@.take(i as int)),
            forall|t: int| 0 <= t < points@.len() ==> await_point_is(#[trigger] points@[t], future_view()),
            string_views(calls@) == awaited_calls(body@.take(i as int)),
        decreases body.len() - i,
    {
        proof {
            assert(body@.take(i + 1).drop_last() =~= body@.take(i as int));
            assert(body@.take(i + 1).last() == body@[i as int]);
        }
        match &body[i] {
            BodyEvent::Await { base } => {
                points.push(
                    AwaitPoint {
                        location: unknown_loc(),
                        future_type: make_type(
                            to_string("Future"),
                            to_string("std::future::Future"),
                            TypeKind::Primitive(to_string("Future")),
                            100,
                        ),
                        error_propagation: false,
                    },
                );
                match base {
                    Expr::Call { func, .. } => match &**func {
                        Expr::Path(p) => {
                            let ghost before = calls@;
                            calls.push(p.segments[p.segments.len() - 1].ident.clone());
                            proof {
                                lemma_string_views_push(before, calls@.last());
                            }
                        },
                        _ => {},
                    },
                    _ => {},
                }
            },
            _ => {},
        }
        i = i + 1;
    }
    proof {
        assert(body@.take(body@.len() as int) =~= body@);
    }
    (points, calls)
}

/// The record of an async function.
pub fn analyze_async_function(f: &FnItem) -> (res: AsyncFunction)
    requires
        async_sig_ok(f.sig),
        await_paths_named(f.body@),
    ensures
        async_function_matches(res, *f),
{
    let (await_points, async_calls) = analyze_await_body(&f.body);
    AsyncFunction {
        name: f.sig.ident.clone(),
        signature: extract_function_signature(&f.sig),
        future_type: infer_future_type(&f.sig),
        await_points,
        async_calls,
        error_handling: analyze_error_handling(f.block_text.as_str()),
    }
}

/// The async functions among a file's top-level functions, in order.
pub open spec fn async_fns(items: Seq<Item>) -> Seq<FnItem>
    decreases items.len(),
{
    if items.len() == 0 {
        Seq::empty()
    } else {
        match items.last() {
            Item::Fn(f) => if f.sig.is_async {
                async_fns(items.drop_last()).push(f)
            } else {
                async_fns(items.drop_last())
            },
            _ => async_fns(items.drop_last()),
        }
    }
}

pub open spec fn async_items_ok(items: Seq<Item>) -> bool {
    forall|i: int| 0 <= i < items.len() ==> (#[trigger] items[i] matches Item::Fn(f) ==> (f.sig.is_async ==> async_sig_ok(f.sig) && await_paths_named(f.body@)))
}

/// The records of a file's async functions.
fn async_functions_of(file: &SourceFile) -> (res: Result<Vec<AsyncFunction>, crate::error::AnalyzerError>)
    requires
        async_items_ok(flat_items(file.items@)),
    ensures
        res matches Ok(v) && v@.len() == async_fns(flat_items(file.items@)).len() && forall|i: int|
            0 <= i < v@.len() ==> async_function_matches(#[trigger] v@[i], async_fns(flat_items(file.items@))[i]),
{
    let items = flat_item_refs(&file.items);
    let ghost iv = item_refs_view(items@);
    let mut out: Vec<AsyncFunction> = Vec::new();
    let mut i: usize = 0;
    while i < items.len()
        invariant
            i <= items.len(),
            iv == item_refs_view(items@),
            iv == flat_items(file.items@),
            async_items_ok(iv),
            out@.len() == async_fns(iv.take(i as int)).len(),
            forall|t: int| 0 <= t < out@.len() ==> async_function_matches(#[trigger] out@[t], async_fns(iv.take(i as int))[t]),
        decreases items.len() - i,
    {
        proof {
            assert(iv.take(i + 1).drop_last() =~= iv.take(i as int));
            assert(iv.take(i + 1).last() == iv[i as int]);
        }
        match items[i] {
            Item::Fn(f) => {
                if f.sig.is_async {
                    let a = analyze_async_function(f);
                    out.push(a);
                }
            },
            _ => {},
        }
        i = i + 1;
    }
    proof {
        assert(iv.take(iv.len() as int) =~= iv);
    }
    Ok(out)
}

/// The bodies of a file's items in the order a traversal meets them:
/// functions, `impl` methods, trait methods' default bodies, and the
/// initializers of constants and statics.
pub open spec fn file_bodies(items: Seq<Item>) -> Seq<BodyEvent>
    decreases items.len(),
{
    if items.len() == 0 {
        Seq::empty()
    } else {
        file_bodies(items.drop_last()) + item_body(items.last())
    }
}

pub open spec fn impl_bodies(items: Seq<ImplItem>) -> Seq<BodyEvent>
    decreases items.len(),
{
    if items.len() == 0 {
        Seq::empty()
    } else {
        impl_bodies(items.drop_last()) + match items.last() {
            ImplItem::Fn(f) => f.body@,
            ImplItem::Other => Seq::empty(),
        }
    }
}

pub open spec fn trait_bodies(items: Seq<TraitItem>) -> Seq<BodyEvent>
    decreases items.len(),
{
    if items.len() == 0 {
        Seq::empty()
    } else {
        trait_bodies(items.drop_last()) + match items.last() {
            TraitItem::Fn { default: Some(b), .. } => b@,
            _ => Seq::empty(),
        }
    }
}

pub open spec fn item_body(item: Item) -> Seq<BodyEvent> {
    match item {
        Item::Fn(f) => f.body@,
        Item::Impl { items, .. } => impl_bodies(items@),
        Item::Trait { items, .. } => trait_bodies(items@),
        Item::Const { body, .. } => body@,
        Item::Static { body, .. } => body@,
        _ => Seq::empty(),
    }
}

/// The future type an `.await` of `base` awaits.
pub open spec fn spec_awaited_future(base: Expr) -> InferredTypeView {
    match base {
        Expr::Call { func, .. } => match *func {
            Expr::Path(p) => base_view(
                "Future<"@ + p.segments@.last().ident@ + ">"@,
                "std::future::Future<"@ + p.segments@.last().ident@ + ">"@,
                TypeKindView::Primitive("Future"@),
                100,
            ),
            _ => base_view("Future<()>"@, "std::future::Future<()>"@, TypeKindView::Primitive("Future"@), 100),
        },
        _ => base_view("Future<()>"@, "std::future::Future<()>"@, TypeKindView::Primitive("Future"@), 100),
    }
}

/// The future types of the `.await`s among `evs`, in order.
pub open spec fn await_types(evs: Seq<BodyEvent>) -> Seq<InferredTypeView>
    decreases evs.len(),
{
    if evs.len() == 0 {
        Seq::empty()
    } else {
        match evs.last() {
            BodyEvent::Await { base } => await_types(evs.drop_last()).push(spec_awaited_future(base)),
            _ => await_types(evs.drop_last()),
        }
    }
}

proof fn lemma_await_types_append(a: Seq<BodyEvent>, b: Seq<BodyEvent>)
    ensures
        await_types(a + b) == await_types(a) + await_types(b),
    decreases b.len(),
{
    if b.len() == 0 {
        assert(a + b =~= a);
        assert(await_types(a) + await_types(b) =~= await_types(a));
    } else {
        lemma_await_types_append(a, b.drop_last());
        assert((a + b).drop_last() =~= a + b.drop_last());
        assert((a + b).last() == b.last());
        match b.last() {
            BodyEvent::Await { base } => {
                assert(await_types(a) + await_types(b) =~= (await_types(a) + await_types(b.drop_last())).push(
                    spec_awaited_future(base),
                ));
            },
            _ => {},
        }
    }
}

/// The future type of an `.await` whose awaited function is not named.
fn default_future_type() -> (res: InferredType)
    ensures
        res@ == base_view("Future<()>"@, "std::future::Future<()>"@, TypeKindView::Primitive("Future"@), 100),
{
    make_type(to_string("Future<()>"), to_string("std::future::Future<()>"), TypeKind::Primitive(to_string("Future")), 100)
}

fn awaited_future(base: &Expr) -> (res: InferredType)
    requires
        await_paths_named(seq![BodyEvent::Await { base: *base }]),
    ensures
        res@ == spec_awaited_future(*base),
{
    proof {
        assert(seq![BodyEvent::Await { base: *base }][0] == BodyEvent::Await { base: *base });
    }
    match base {
        Expr::Call { func, .. } => match &**func {
            Expr::Path(p) => {
                let f = &p.segments[p.segments.len() - 1].ident;
                make_type(
                    concat3("Future<", f.as_str(), ">"),
                    concat3("std::future::Future<", f.as_str(), ">"),
                    TypeKind::Primitive(to_string("Future")),
                    100,
                )
            },
            _ => default_future_type(),
        },
        _ => default_future_type(),
    }
}

/// Appends the await points of a body.
fn push_await_points(out: &mut Vec<AwaitPoint>, body: &Vec<BodyEvent>)
    requires
        await_paths_named(body@),
    ensures
        final(out)@.len() == old(out)@.len() + await_types(body@).len(),
        forall|i: int| 0 <= i < old(out)@.len() ==> #[trigger] final(out)@[i] == old(out)@[i],
        forall|i: int|
            0 <= i < await_types(body@).len() ==> await_point_is(
                #[trigger] final(out)@[old(out)@.len() + i],
                await_types(body@)[i],
            ),
{
    let ghost n0 = out@.len();
    let mut i: usize = 0;
    while i < body.len()
        invariant
            i <= body.len(),
            n0 == old(out)@.len(),
            await_paths_named(body@),
            out@.len() == n0 + await_types(body@.take(i as int)).len(),
            forall|t: int| 0 <= t < n0 ==> #[trigger] out@[t] == old(out)@[t],
            forall|t: int|
                0 <= t < await_types(body@.take(i as int)).len() ==> await_point_is(
                    #[trigger] out@[n0 + t],
                    await_types(body@.take(i as int))[t],
                ),
        decreases body.len() - i,
    {
        proof {
            assert(body@.take(i + 1).drop_last() =~= body@.take(i as int));
            assert(body@.take(i + 1).last() == body@[i as int]);
        }
        match &body[i] {
            BodyEvent::Await { base } => {
                proof {
                    assert forall|k: int| 0 <= k < 1 implies (#[trigger] seq![BodyEvent::Await { base: *base }][k]
                        matches BodyEvent::Await { base: Expr::Call { func, .. } } ==> (*func matches Expr::Path(p)
                        ==> p.segments@.len() > 0)) by {
                        assert(seq![BodyEvent::Await { base: *base }][k] == body@[i as int]);
                    }
                }
                let ft = awaited_future(base);
                out.push(AwaitPoint { location: unknown_loc(), future_type: ft, error_propagation: false });
            },
            _ => {},
        }
        i = i + 1;
    }
    proof {
        assert(body@.take(body@.len() as int) =~= body@);
    }
}

/// The awaited calls of every body of the file name their functions.
pub open spec fn file_awaits_named(items: Seq<Item>) -> bool {
    await_paths_named(file_bodies(items))
}


// ---------------------------------------------------------------------------
// The bodies of a file
// ---------------------------------------------------------------------------

/// The bodies laid end to end.
pub open spec fn flat_bodies(bs: Seq<Seq<BodyEvent>>) -> Seq<BodyEvent>
    decreases bs.len(),
{
    if bs.len() == 0 {
        Seq::empty()
    } else {
        flat_bodies(bs.drop_last()) + bs.last()
    }
}

pub open spec fn body_views(bs: Seq<&Vec<BodyEvent>>) -> Seq<Seq<BodyEvent>> {
    bs.map_values(|b: &Vec<BodyEvent>| b@)
}

proof fn lemma_body_views_push(bs: Seq<&Vec<BodyEvent>>, b: &Vec<BodyEvent>)
    ensures
        flat_bodies(body_views(bs.push(b))) == flat_bodies(body_views(bs)) + b@,
{
    assert(body_views(bs.push(b)).drop_last() =~= body_views(bs));
    assert(body_views(bs.push(b)).last() == b@);
}

/// The bodies of one item, in the order a traversal meets them.
pub fn item_body_refs<'a>(item: &'a Item) -> (res: Vec<&'a Vec<BodyEvent>>)
    ensures
        flat_bodies(body_views(res@)) == item_body(*item),
{
    let mut out: Vec<&'a Vec<BodyEvent>> = Vec::new();
    proof {
        assert(body_views(out@) =~= Seq::<Seq<BodyEvent>>::empty());
    }
    match item {
        Item::Fn(f) => {
            let ghost before = out@;
            out.push(&f.body);
            proof {
                lemma_body_views_push(before, &f.body);
            }
        },
        Item::Impl { items: impl_items, .. } => {
            let mut j: usize = 0;
            proof {
                assert(impl_items@.take(0) =~= Seq::<ImplItem>::empty());
            }
            while j < impl_items.len()
                invariant
                    j <= impl_items.len(),
                    flat_bodies(body_views(out@)) == impl_bodies(impl_items@.take(j as int)),
                decreases impl_items.len() - j,
            {
                proof {
                    assert(impl_items@.take(j + 1).drop_last() =~= impl_items@.take(j as int));
                    assert(impl_items@.take(j + 1).last() == impl_items@[j as int]);
                }
                match &impl_items[j] {
                    ImplItem::Fn(f) => {
                        let ghost before = out@;
                        out.push(&f.body);
                        proof {
                            lemma_body_views_push(before, &f.body);
                        }
                    },
                    ImplItem::Other => {
                        proof {
                            assert(impl_bodies(impl_items@.take(j + 1)) =~= impl_bodies(impl_items@.take(j as int)));
                        }
                    },
                }
                j = j + 1;
            }
            proof {
                assert(impl_items@.take(impl_items@.len() as int) =~= impl_items@);
            }
        },
        Item::Trait { items: trait_items, .. } => {
            let mut j: usize = 0;
            proof {
                assert(trait_items@.take(0) =~= Seq::<TraitItem>::empty());
            }
            while j < trait_items.len()
                invariant
                    j <= trait_items.len(),
                    flat_bodies(body_views(out@)) == trait_bodies(trait_items@.take(j as int)),
                decreases trait_items.len() - j,
            {
                proof {
                    assert(trait_items@.take(j + 1).drop_last() =~= trait_items@.take(j as int));
                    assert(trait_items@.take(j + 1).last() == trait_items@[j as int]);
                }
                match &trait_items[j] {
                    TraitItem::Fn { default: Some(b), .. } => {
                        let ghost before = out@;
                        out.push(b);
                        proof {
                            lemma_body_views_push(before, b);
                        }
                    },
                    _ => {
                        proof {
                            assert(trait_bodies(trait_items@.take(j + 1)) =~= trait_bodies(trait_items@.take(j as int)));
                        }
                    },
                }
                j = j + 1;
            }
            proof {
                assert(trait_items@.take(trait_items@.len() as int) =~= trait_items@);
            }
        },
        Item::Const { body, .. } => {
            let ghost before = out@;
            out.push(body);
            proof {
                lemma_body_views_push(before, body);
            }
        },
        Item::Static { body, .. } => {
            let ghost before = out@;
            out.push(body);
            proof {
                lemma_body_views_push(before, body);
            }
        },
        _ => {},
    }
    out
}

proof fn lemma_flat_bodies_append(a: Seq<Seq<BodyEvent>>, b: Seq<Seq<BodyEvent>>)
    ensures
        flat_bodies(a + b) == flat_bodies(a) + flat_bodies(b),
    decreases b.len(),
{
    if b.len() == 0 {
        assert(a + b =~= a);
        assert(flat_bodies(a) + flat_bodies(b) =~= flat_bodies(a));
    } else {
        lemma_flat_bodies_append(a, b.drop_last());
        assert((a + b).drop_last() =~= a + b.drop_last());
        assert((a + b).last() == b.last());
        assert(flat_bodies(a) + flat_bodies(b) =~= flat_bodies(a) + flat_bodies(b.drop_last()) + b.last());
    }
}

/// The bodies of a file's items, in the order a traversal meets them.
pub fn file_body_refs<'a>(items: &Vec<&'a Item>) -> (res: Vec<&'a Vec<BodyEvent>>)
    ensures
        flat_bodies(body_views(res@)) == file_bodies(item_refs_view(items@)),
{
    let ghost iv = item_refs_view(items@);
    let mut out: Vec<&'a Vec<BodyEvent>> = Vec::new();
    let mut i: usize = 0;
    proof {
        assert(iv.take(0) =~= Seq::<Item>::empty());
        assert(body_views(out@) =~= Seq::<Seq<BodyEvent>>::empty());
    }
    while i < items.len()
        invariant
            i <= items.len(),
            iv == item_refs_view(items@),
            flat_bodies(body_views(out@)) == file_bodies(iv.take(i as int)),
        decreases items.len() - i,
    {
        proof {
            assert(iv.take(i + 1).drop_last() =~= iv.take(i as int));
            assert(iv.take(i + 1).last() == iv[i as int]);
        }
        let mut bs = item_body_refs(items[i]);
        let ghost a = out@;
        let ghost b = bs@;
        out.append(&mut bs);
        proof {
            assert(body_views(out@) =~= body_views(a) + body_views(b));
            lemma_flat_bodies_append(body_views(a), body_views(b));
        }
        i = i + 1;
    }
    proof {
        assert(iv.take(iv.len() as int) =~= iv);
    }
    out
}

// ---------------------------------------------------------------------------
// Macros
// ---------------------------------------------------------------------------

/// A rule of a macro: its pattern and its expansion, as token text.
pub struct MacroRule {
    pub pattern: String,
    pub expansion: String,
}

/// A macro's definition: its rules and whether it is procedural.
pub struct MacroDefinition {
    pub name: String,
    pub rules: Vec<MacroRule>,
    pub is_proc_macro: bool,
}

/// The scopes a macro is defined and called in, for hygiene.
pub struct HygieneContext {
    definition_scope: String,
    call_scope: Option<String>,
    transparent_identifiers: Vec<String>,
}

/// A `macro_rules!` macro.
pub struct DeclarativeMacro {
    pub name: String,
    pub rules: Vec<MacroRule>,
    pub visibility: Visibility,
    pub hygiene_context: HygieneContext,
}

/// The kind of a procedural macro.
#[derive(Clone, Copy, PartialEq, Eq, Debug)]
pub enum ProcMacroType {
    /// `#[derive(MyMacro)]`
    Derive,
    /// `#[my_macro]`
    Attribute,
    /// `my_macro!()`
    Function,
}

/// A procedural macro.
pub struct ProceduralMacro {
    pub name: String,
    pub macro_type: ProcMacroType,
    pub crate_name: String,
    pub function_name: String,
}

/// A part of a macro pattern.
pub enum MacroPattern {
    Literal(String),
    Variable { name: String, kind: MacroVariableKind },
    Repetition { pattern: Box<MacroPattern>, separator: Option<String>, min_count: usize, max_count: Option<usize> },
    Group(Vec<MacroPattern>),
}

/// The fragment kind of a macro variable.
#[derive(Clone, Copy, PartialEq, Eq, Debug)]
pub enum MacroVariableKind {
    /// `$e:expr`
    Expression,
    /// `$i:ident`
    Identifier,
    /// `$t:ty`
    Type,
    /// `$p:pat`
    Pattern,
    /// `$s:stmt`
    Statement,
    /// `$b:block`
    Block,
    /// `$i:item`
    Item,
    /// `$m:meta`
    Meta,
    /// `$p:path`
    Path,
    /// `$l:literal`
    Literal,
    /// `$lt:lifetime`
    Lifetime,
    /// `$v:vis`
    Visibility,
    /// `$tt:tt`
    TokenTree,
}

/// A macro invocation with its expansion and the calls the expansion makes.
pub struct MacroCall {
    pub macro_name: String,
    pub expansion: String,
    pub generated_calls: Vec<FunctionCall>,
    pub location: SourceLocation,
}

/// The token texts that quoting produces for one macro invocation `m!(t)`:
/// the expansions of the printing macros, of `vec!` and of `format!`, and the
/// `Debug`, `Clone` and `PartialEq` impls for the struct that `t` defines,
/// where it defines one.
pub struct QuotedExpansions {
    pub print_form: String,
    pub vec_form: String,
    pub format_form: String,
    pub debug_impl: Option<String>,
    pub clone_impl: Option<String>,
    pub partial_eq_impl: Option<String>,
}

/// The quoted texts as plain values.
pub struct QuotedView {
    pub print_form: Seq<char>,
    pub vec_form: Seq<char>,
    pub format_form: Seq<char>,
    pub debug_impl: Option<Seq<char>>,
    pub clone_impl: Option<Seq<char>>,
    pub partial_eq_impl: Option<Seq<char>>,
}

pub open spec fn quoted_view(q: QuotedExpansions) -> QuotedView {
    QuotedView {
        print_form: q.print_form@,
        vec_form: q.vec_form@,
        format_form: q.format_form@,
        debug_impl: opt_view(q.debug_impl),
        clone_impl: opt_view(q.clone_impl),
        partial_eq_impl: opt_view(q.partial_eq_impl),
    }
}

/// The expansion of a built-in macro: the printing macros, `vec!` and `format!`.
pub open spec fn spec_builtin_expansion(name: Seq<char>, q: QuotedView) -> Option<Seq<char>> {
    if name == "println"@ || name == "print"@ || name == "eprintln"@ || name == "eprint"@ {
        Some(q.print_form)
    } else if name == "vec"@ {
        Some(q.vec_form)
    } else if name == "format"@ {
        Some(q.format_form)
    } else {
        None
    }
}

/// Whether a rule applies to the input: its pattern equals the input up to
/// surrounding whitespace, or it has a `$` variable.
pub open spec fn rule_applies(r: MacroRule, input: Seq<char>) -> bool {
    spec_trim(input) == spec_trim(r.pattern@) || spec_contains(r.pattern@, "$"@)
}

/// The expansion of the first rule that applies.
pub open spec fn first_rule_expansion(rules: Seq<MacroRule>, input: Seq<char>) -> Option<Seq<char>>
    decreases rules.len(),
{
    if rules.len() == 0 {
        None
    } else if rule_applies(rules[0], input) {
        Some(rules[0].expansion@)
    } else {
        first_rule_expansion(rules.drop_first(), input)
    }
}

/// The expansion a procedural macro gives.
pub open spec fn spec_procedural_expansion(p: ProceduralMacro, tokens: Seq<char>, q: QuotedView) -> Option<Seq<char>> {
    match p.macro_type {
        ProcMacroType::Derive => if p.name@ == "Debug"@ {
            q.debug_impl
        } else if p.name@ == "Clone"@ {
            q.clone_impl
        } else if p.name@ == "PartialEq"@ {
            q.partial_eq_impl
        } else {
            None
        },
        ProcMacroType::Attribute => Some(tokens),
        ProcMacroType::Function => None,
    }
}

pub open spec fn or_text(a: Option<Seq<char>>, b: Option<Seq<char>>) -> Option<Seq<char>> {
    match a {
        Some(x) => Some(x),
        None => b,
    }
}

/// The call that an expansion printing text makes.
pub open spec fn is_print_call(c: FunctionCall) -> bool {
    &&& c.caller@ == "macro_expansion"@
    &&& c.callee@ == "std::io::_print"@
    &&& c.call_type == CallType::MacroCall
    &&& c.arguments@.len() == 0
    &&& opt_type_view(c.return_type) == Some(base_view("()"@, "()"@, TypeKindView::Tuple(Seq::empty()), 90))
    &&& empty_location(c.location)
    &&& c.confidence_pct == 80
    &&& !c.is_async
    &&& c.await_points@.len() == 0
}

/// A record of a macro invocation with its expansion.
pub open spec fn macro_call_is(mc: MacroCall, name: Seq<char>, expansion: Seq<char>) -> bool {
    &&& mc.macro_name@ == name
    &&& mc.expansion@ == expansion
    &&& empty_location(mc.location)
    &&& if spec_contains(expansion, "println!"@) {
        mc.generated_calls@.len() == 1 && is_print_call(mc.generated_calls@[0])
    } else {
        mc.generated_calls@.len() == 0
    }
}

/// The macro invocations of a body.
pub open spec fn body_macros(evs: Seq<BodyEvent>) -> Seq<(SynPath, Seq<char>)>
    decreases evs.len(),
{
    if evs.len() == 0 {
        Seq::empty()
    } else {
        match evs.last() {
            BodyEvent::Macro { path, tokens } => body_macros(evs.drop_last()).push((path, tokens@)),
            _ => body_macros(evs.drop_last()),
        }
    }
}

/// The macro invocations of a file in the order a traversal meets them:
/// item macros where they stand, and the macros of each body.
pub open spec fn file_macros(items: Seq<Item>) -> Seq<(SynPath, Seq<char>)>
    decreases items.len(),
{
    if items.len() == 0 {
        Seq::empty()
    } else {
        file_macros(items.drop_last()) + match items.last() {
            Item::Macro { path, tokens, .. } => seq![(path, tokens@)],
            _ => body_macros(item_body(items.last())),
        }
    }
}

/// The cache as a function from key to cached text.
pub open spec fn cache_put(cache: spec_fn(Seq<char>) -> Option<Seq<char>>, k: Seq<char>, v: Seq<char>) -> spec_fn(Seq<char>) -> Option<Seq<char>> {
    |k2: Seq<char>| if k2 == k { Some(v) } else { cache(k2) }
}

/// Expands and caches what could not be undone.
pub struct MacroExpander {
    macro_definitions: StringMap<MacroDefinition>,
    expansion_cache: StringMap<String>,
    declarative_macros: StringMap<DeclarativeMacro>,
    procedural_macros: StringMap<ProceduralMacro>,
    max_expansion_depth: usize,
    current_depth: usize,
}

impl MacroExpander {
    pub closed spec fn wf(&self) -> bool {
        &&& self.macro_definitions.wf()
        &&& self.expansion_cache.wf()
        &&& self.declarative_macros.wf()
        &&& self.procedural_macros.wf()
    }

    /// The cached expansion under a key.
    pub closed spec fn cached(&self) -> spec_fn(Seq<char>) -> Option<Seq<char>> {
        |k: Seq<char>| opt_view(self.expansion_cache.lookup(k))
    }

    /// Whether expansion has gone as deep as it may.
    pub closed spec fn depth_exceeded(&self) -> bool {
        self.current_depth >= self.max_expansion_depth
    }

    /// A fresh expansion of `name!(tokens)`: by a `macro_rules!` rule, else
    /// by a procedural macro, else as a built-in, else by the first rule of a
    /// custom definition; else the tokens themselves.
    pub closed spec fn spec_fresh_expansion(&self, name: Seq<char>, tokens: Seq<char>, q: QuotedView) -> Seq<char> {
        let decl = match self.declarative_macros.lookup(name) {
            Some(m) => first_rule_expansion(m.rules@, tokens),
            None => None,
        };
        let procedural = match self.procedural_macros.lookup(name) {
            Some(p) => spec_procedural_expansion(p, tokens, q),
            None => None,
        };
        let custom = match self.macro_definitions.lookup(name) {
            Some(d) => if d.rules@.len() > 0 { Some(d.rules@[0].expansion@) } else { None },
            None => None,
        };
        match or_text(decl, or_text(procedural, or_text(spec_builtin_expansion(name, q), custom))) {
            Some(e) => e,
            None => tokens,
        }
    }

    /// An expander with no definitions and an empty cache, that expands at
    /// most 128 levels deep.
    pub fn new() -> (res: Self)
        ensures
            res.wf(),
            forall|k: Seq<char>| #[trigger] (res.cached())(k) is None,
            !res.depth_exceeded(),
            forall|n: Seq<char>, t: Seq<char>, q: QuotedView| #[trigger] res.spec_fresh_expansion(n, t, q)
                == match spec_builtin_expansion(n, q) {
                    Some(e) => e,
                    None => t,
                },
    {
        MacroExpander {
            macro_definitions: StringMap::new(),
            expansion_cache: StringMap::new(),
            declarative_macros: StringMap::new(),
            procedural_macros: StringMap::new(),
            max_expansion_depth: 128,
            current_depth: 0,
        }
    }
}


/// What expanding `path!(tokens)` gives against a cache: the cached text
/// under `name:tokens`; else an error where expansion is too deep; else the
/// fresh expansion, which is then cached. An error for a path with no segment.
pub open spec fn expand_outcome(
    cache: spec_fn(Seq<char>) -> Option<Seq<char>>,
    exceeded: bool,
    fresh: Seq<char>,
    path: SynPath,
    tokens: Seq<char>,
) -> (Result<Seq<char>, Seq<char>>, spec_fn(Seq<char>) -> Option<Seq<char>>) {
    if path.segments@.len() == 0 {
        (Err("Invalid macro path"@), cache)
    } else {
        let key = path.segments@.last().ident@ + ":"@ + tokens;
        match cache(key) {
            Some(c) => (Ok(c), cache),
            None => if exceeded {
                (Err("Macro expansion depth exceeded"@), cache)
            } else {
                (Ok(fresh), cache_put(cache, key, fresh))
            },
        }
    }
}

pub open spec fn macro_name_of(path: SynPath) -> Seq<char> {
    if path.segments@.len() > 0 {
        path.segments@.last().ident@
    } else {
        Seq::empty()
    }
}

pub open spec fn expand_result_view(res: Result<String, crate::error::AnalyzerError>) -> Result<Seq<char>, Seq<char>> {
    match res {
        Ok(s) => Ok(s@),
        Err(crate::error::AnalyzerError::SemanticError(m)) => Err(m@),
        Err(_) => Err(Seq::empty()),
    }
}

/// The records the macro invocations give, in order (name and expansion),
/// with the cache they leave.
pub open spec fn macro_fold(
    ex: MacroExpander,
    cache: spec_fn(Seq<char>) -> Option<Seq<char>>,
    ms: Seq<(SynPath, Seq<char>)>,
    qs: Seq<QuotedView>,
) -> (Seq<(Seq<char>, Seq<char>)>, spec_fn(Seq<char>) -> Option<Seq<char>>)
    decreases ms.len(),
{
    if ms.len() == 0 || qs.len() == 0 {
        (Seq::empty(), cache)
    } else {
        let prev = macro_fold(ex, cache, ms.drop_last(), qs.drop_last());
        let path = ms.last().0;
        let tokens = ms.last().1;
        let name = macro_name_of(path);
        let out = expand_outcome(prev.1, ex.depth_exceeded(), ex.spec_fresh_expansion(name, tokens, qs.last()), path, tokens);
        match out.0 {
            Ok(e) => (prev.0.push((name, e)), out.1),
            Err(_) => (prev.0, out.1),
        }
    }
}

pub open spec fn macro_refs_view(v: Seq<(&SynPath, &String)>) -> Seq<(SynPath, Seq<char>)> {
    v.map_values(|p: (&SynPath, &String)| (*p.0, p.1@))
}

proof fn lemma_body_macros_append(a: Seq<BodyEvent>, b: Seq<BodyEvent>)
    ensures
        body_macros(a + b) == body_macros(a) + body_macros(b),
    decreases b.len(),
{
    if b.len() == 0 {
        assert(a + b =~= a);
        assert(body_macros(a) + body_macros(b) =~= body_macros(a));
    } else {
        lemma_body_macros_append(a, b.drop_last());
        assert((a + b).drop_last() =~= a + b.drop_last());
        assert((a + b).last() == b.last());
        match b.last() {
            BodyEvent::Macro { path, tokens } => {
                assert(body_macros(a) + body_macros(b) =~= (body_macros(a) + body_macros(b.drop_last())).push((path, tokens@)));
            },
            _ => {},
        }
    }
}

/// The macro invocations of a file, in the order a traversal meets them.
pub fn file_macro_refs<'a>(items: &Vec<&'a Item>) -> (res: Vec<(&'a SynPath, &'a String)>)
    ensures
        macro_refs_view(res@) == file_macros(item_refs_view(items@)),
{
    let ghost iv = item_refs_view(items@);
    let mut out: Vec<(&'a SynPath, &'a String)> = Vec::new();
    let mut i: usize = 0;
    proof {
        assert(iv.take(0) =~= Seq::<Item>::empty());
        assert(macro_refs_view(out@) =~= Seq::<(SynPath, Seq<char>)>::empty());
    }
    while i < items.len()
        invariant
            i <= items.len(),
            iv == item_refs_view(items@),
            macro_refs_view(out@) == file_macros(iv.take(i as int)),
        decreases items.len() - i,
    {
        proof {
            assert(iv.take(i + 1).drop_last() =~= iv.take(i as int));
            assert(iv.take(i + 1).last() == iv[i as int]);
        }
        let ghost base = file_macros(iv.take(i as int));
        match items[i] {
            Item::Macro { path, tokens, .. } => {
                let ghost before = out@;
                out.push((path, tokens));
                proof {
                    assert(macro_refs_view(out@) =~= macro_refs_view(before).push((*path, tokens@)));
                }
            },
            _ => {
                let bodies = item_body_refs(items[i]);
                let ghost bv = body_views(bodies@);
                let mut b: usize = 0;
                proof {
                    assert(bv.take(0) =~= Seq::<Seq<BodyEvent>>::empty());
                    assert(base + body_macros(flat_bodies(bv.take(0))) =~= base);
                }
                while b < bodies.len()
                    invariant
                        b <= bodies.len(),
                        bv == body_views(bodies@),
                        macro_refs_view(out@) == base + body_macros(flat_bodies(bv.take(b as int))),
                    decreases bodies.len() - b,
                {
                    let body = bodies[b];
                    proof {
                        assert(bv.take(b + 1).drop_last() =~= bv.take(b as int));
                        assert(bv.take(b + 1).last() == body@);
                        assert(body@.take(0) =~= Seq::<BodyEvent>::empty());
                        lemma_body_macros_append(flat_bodies(bv.take(b as int)), body@.take(0));
                        assert(flat_bodies(bv.take(b as int)) + body@.take(0) =~= flat_bodies(bv.take(b as int)));
                    }
                    let mut e: usize = 0;
                    while e < body.len()
                        invariant
                            e <= body.len(),
                            macro_refs_view(out@) == base + body_macros(flat_bodies(bv.take(b as int)) + body@.take(e as int)),
                        decreases body.len() - e,
                    {
                        let ghost pre = flat_bodies(bv.take(b as int)) + body@.take(e as int);
                        proof {
                            assert(pre.push(body@[e as int]) =~= flat_bodies(bv.take(b as int)) + body@.take(e + 1));
                            assert(pre.push(body@[e as int]).drop_last() =~= pre);
                        }
                        match &body[e] {
                            BodyEvent::Macro { path, tokens } => {
                                let ghost before = out@;
                                out.push((path, tokens));
                                proof {
                                    assert(macro_refs_view(out@) =~= macro_refs_view(before).push((*path, tokens@)));
                                }
                            },
                            _ => {},
                        }
                        e = e + 1;
                    }
                    proof {
                        assert(body@.take(body@.len() as int) =~= body@);
                    }
                    b = b + 1;
                }
                proof {
                    assert(bv.take(bv.len() as int) =~= bv);
                }
            },
        }
        i = i + 1;
    }
    proof {
        assert(iv.take(iv.len() as int) =~= iv);
    }
    out
}

/// A rule whose pattern has a `$` variable expands to its expansion.
fn try_variable_substitution(rule: &MacroRule) -> (res: Option<String>)
    ensures
        opt_view(res) == if spec_contains(rule.pattern@, "$"@) {
            Some(rule.expansion@)
        } else {
            None
        },
{
    if str_contains(rule.pattern.as_str(), "$") {
        Some(rule.expansion.clone())
    } else {
        None
    }
}

/// A rule expands an input that equals its pattern up to surrounding
/// whitespace, or any input where it has a `$` variable.
fn try_match_and_expand_rule(rule: &MacroRule, input: &str) -> (res: Option<String>)
    ensures
        opt_view(res) == if rule_applies(*rule, input@) {
            Some(rule.expansion@)
        } else {
            None
        },
{
    let trimmed_input = str_trim(input);
    let trimmed_pattern = str_trim(rule.pattern.as_str());
    if str_eq(trimmed_input.as_str(), trimmed_pattern.as_str()) {
        Some(rule.expansion.clone())
    } else {
        try_variable_substitution(rule)
    }
}

/// The expansion of the first rule of a `macro_rules!` definition that
/// applies to `input`.
fn expand_declarative_macro_rules(macro_def: &DeclarativeMacro, input: &str) -> (res: Option<String>)
    ensures
        opt_view(res) == first_rule_expansion(macro_def.rules@, input@),
{
    let rules = &macro_def.rules;
    let mut i: usize = 0;
    assert(rules@.skip(0) =~= rules@);
    while i < rules.len()
        invariant
            i <= rules.len(),
            rules == &macro_def.rules,
            first_rule_expansion(rules@, input@) == first_rule_expansion(rules@.skip(i as int), input@),
        decreases rules.len() - i,
    {
        proof {
            assert(rules@.skip(i as int)[0] == rules@[i as int]);
            assert(rules@.skip(i as int).drop_first() =~= rules@.skip(i + 1));
        }
        match try_match_and_expand_rule(&rules[i], input) {
            Some(e) => {
                return Some(e);
            },
            None => {},
        }
        i = i + 1;
    }
    None
}

/// The expansion of a derive macro: the quoted implementation of `Debug`,
/// `Clone` or `PartialEq`.
fn expand_derive_macro(proc_macro: &ProceduralMacro, quoted: &QuotedExpansions) -> (res: Option<String>)
    requires
        proc_macro.macro_type is Derive,
    ensures
        opt_view(res) == spec_procedural_expansion(*proc_macro, Seq::empty(), quoted_view(*quoted)),
{
    if str_eq(proc_macro.name.as_str(), "Debug") {
        copy_opt(&quoted.debug_impl)
    } else if str_eq(proc_macro.name.as_str(), "Clone") {
        copy_opt(&quoted.clone_impl)
    } else if str_eq(proc_macro.name.as_str(), "PartialEq") {
        copy_opt(&quoted.partial_eq_impl)
    } else {
        None
    }
}

/// The expansion of a procedural macro: a derive gives its quoted
/// implementation, an attribute macro gives the tokens back, a function-like
/// macro gives nothing.
fn expand_procedural_macro(proc_macro: &ProceduralMacro, tokens: &str, quoted: &QuotedExpansions) -> (res: Option<String>)
    ensures
        opt_view(res) == spec_procedural_expansion(*proc_macro, tokens@, quoted_view(*quoted)),
{
    match proc_macro.macro_type {
        ProcMacroType::Derive => expand_derive_macro(proc_macro, quoted),
        ProcMacroType::Attribute => Some(to_string(tokens)),
        ProcMacroType::Function => None,
    }
}

/// The expansion of a built-in macro: the printing macros, `vec!` and
/// `format!`, as quoted.
fn try_expand_builtin_macro(name: &str, quoted: &QuotedExpansions) -> (res: Option<String>)
    ensures
        opt_view(res) == spec_builtin_expansion(name@, quoted_view(*quoted)),
{
    if str_eq(name, "println") || str_eq(name, "print") || str_eq(name, "eprintln") || str_eq(name, "eprint") {
        Some(quoted.print_form.clone())
    } else if str_eq(name, "vec") {
        Some(quoted.vec_form.clone())
    } else if str_eq(name, "format") {
        Some(quoted.format_form.clone())
    } else {
        None
    }
}

/// The calls an expansion makes: a print call where it prints.
fn analyze_expanded_tokens(tokens: &str) -> (res: Vec<FunctionCall>)
    ensures
        spec_contains(tokens@, "println!"@) ==> res@.len() == 1 && is_print_call(res@[0]),
        !spec_contains(tokens@, "println!"@) ==> res@.len() == 0,
{
    let mut calls: Vec<FunctionCall> = Vec::new();
    if str_contains(tokens, "println!") {
        calls.push(FunctionCall {
            caller: to_string("macro_expansion"),
            callee: to_string("std::io::_print"),
            call_type: CallType::MacroCall,
            arguments: Vec::new(),
            return_type: Some(make_type(to_string("()"), to_string("()"), TypeKind::Tuple(Vec::new()), 90)),
            location: empty_loc(),
            confidence_pct: 80,
            is_async: false,
            await_points: Vec::new(),
        });
    }
    calls
}

impl MacroExpander {
    /// The expansion by a known `macro_rules!` definition of `name`.
    fn try_expand_declarative_macro(&self, name: &str, tokens: &str) -> (res: Option<String>)
        requires
            self.wf(),
        ensures
            opt_view(res) == match self.declarative_macros.lookup(name@) {
                Some(m) => first_rule_expansion(m.rules@, tokens@),
                None => None,
            },
    {
        match self.declarative_macros.get(name) {
            Some(m) => expand_declarative_macro_rules(m, tokens),
            None => None,
        }
    }

    /// The expansion by a known procedural macro `name`.
    fn try_expand_procedural_macro(&self, name: &str, tokens: &str, quoted: &QuotedExpansions) -> (res: Option<String>)
        requires
            self.wf(),
        ensures
            opt_view(res) == match self.procedural_macros.lookup(name@) {
                Some(p) => spec_procedural_expansion(p, tokens@, quoted_view(*quoted)),
                None => None,
            },
    {
        match self.procedural_macros.get(name) {
            Some(p) => expand_procedural_macro(p, tokens, quoted),
            None => None,
        }
    }

    /// The expansion by the first rule of a custom definition of `name`.
    fn try_expand_custom_macro(&self, name: &str) -> (res: Option<String>)
        requires
            self.wf(),
        ensures
            opt_view(res) == match self.macro_definitions.lookup(name@) {
                Some(d) => if d.rules@.len() > 0 {
                    Some(d.rules@[0].expansion@)
                } else {
                    None
                },
                None => None,
            },
    {
        match self.macro_definitions.get(name) {
            Some(d) => if d.rules.len() > 0 {
                Some(d.rules[0].expansion.clone())
            } else {
                None
            },
            None => None,
        }
    }
}

impl MacroExpander {
    /// Expands `path!(tokens)`: the text cached under `name:tokens` where
    /// there is one; else, unless expansion is too deep, the fresh expansion,
    /// which is cached. `quoted` holds the texts that quoting gives for this
    /// invocation.
    pub fn expand_macro(&mut self, path: &SynPath, tokens: &str, quoted: &QuotedExpansions) -> (res: Result<String, crate::error::AnalyzerError>)
        requires
            old(self).wf(),
        ensures
            final(self).wf(),
            final(self).depth_exceeded() == old(self).depth_exceeded(),
            forall|n: Seq<char>, t: Seq<char>, q: QuotedView| #[trigger] final(self).spec_fresh_expansion(n, t, q) == old(self).spec_fresh_expansion(n, t, q),
            ({
                let out = expand_outcome(
                    old(self).cached(),
                    old(self).depth_exceeded(),
                    old(self).spec_fresh_expansion(macro_name_of(*path), tokens@, quoted_view(*quoted)),
                    *path,
                    tokens@,
                );
                &&& expand_result_view(res) == out.0
                &&& forall|k: Seq<char>| #[trigger] (final(self).cached())(k) == (out.1)(k)
            }),
    {
        let n = path.segments.len();
        if n == 0 {
            return Err(crate::error::AnalyzerError::SemanticError(to_string("Invalid macro path")));
        }
        proof {
            assert(path.segments@.last() == path.segments@[n - 1]);
        }
        let macro_name = &path.segments[n - 1].ident;
        let cache_key = concat3(macro_name.as_str(), ":", tokens);
        match self.expansion_cache.get(cache_key.as_str()) {
            Some(cached) => {
                return Ok(cached.clone());
            },
            None => {},
        }
        if self.current_depth >= self.max_expansion_depth {
            return Err(crate::error::AnalyzerError::SemanticError(to_string("Macro expansion depth exceeded")));
        }
        let ghost name = macro_name@;
        let ghost q = quoted_view(*quoted);
        let nm = macro_name.as_str();
        let expanded = match self.try_expand_declarative_macro(nm, tokens) {
            Some(e) => e,
            None => match self.try_expand_procedural_macro(nm, tokens, quoted) {
                Some(e) => e,
                None => match try_expand_builtin_macro(nm, quoted) {
                    Some(e) => e,
                    None => match self.try_expand_custom_macro(nm) {
                        Some(e) => e,
                        None => to_string(tokens),
                    },
                },
            },
        };
        proof {
            assert(expanded@ == self.spec_fresh_expansion(name, tokens@, q));
        }
        let ghost before = *self;
        self.expansion_cache.insert(cache_key, expanded.clone());
        proof {
            assert forall|n2: Seq<char>, t: Seq<char>, q2: QuotedView| #[trigger] self.spec_fresh_expansion(n2, t, q2) == before.spec_fresh_expansion(n2, t, q2) by {}
        }
        Ok(expanded)
    }

    /// The records of a file's macro invocations that expand, in the order
    /// a traversal meets them; `quoted` holds the quoted texts for each
    /// invocation, in the same order.
    pub fn analyze_macros(&mut self, syntax_tree: &SourceFile, quoted: &Vec<QuotedExpansions>) -> (res: Result<Vec<MacroCall>, crate::error::AnalyzerError>)
        requires
            old(self).wf(),
            quoted@.len() == file_macros(flat_items(syntax_tree.items@)).len(),
        ensures
            final(self).wf(),
            final(self).depth_exceeded() == old(self).depth_exceeded(),
            forall|n: Seq<char>, t: Seq<char>, q: QuotedView| #[trigger] final(self).spec_fresh_expansion(n, t, q) == old(self).spec_fresh_expansion(n, t, q),
            ({
                let f = macro_fold(*old(self), old(self).cached(), file_macros(flat_items(syntax_tree.items@)), quoted@.map_values(|q: QuotedExpansions| quoted_view(q)));
                &&& res matches Ok(v) && v@.len() == f.0.len()
                    && forall|i: int| 0 <= i < v@.len() ==> macro_call_is(#[trigger] v@[i], f.0[i].0, f.0[i].1)
                &&& forall|k: Seq<char>| #[trigger] (final(self).cached())(k) == (f.1)(k)
            }),
    {
        let flat = flat_item_refs(&syntax_tree.items);
        let ms = file_macro_refs(&flat);
        let ghost mv = macro_refs_view(ms@);
        let ghost qv = quoted@.map_values(|q: QuotedExpansions| quoted_view(q));
        let ghost ex0 = *self;
        let mut macro_calls: Vec<MacroCall> = Vec::new();
        let mut i: usize = 0;
        proof {
            assert(mv.take(0) =~= Seq::<(SynPath, Seq<char>)>::empty());
            assert(qv.take(0) =~= Seq::<QuotedView>::empty());
        }
        while i < ms.len()
            invariant
                self.wf(),
                i <= ms.len(),
                mv == macro_refs_view(ms@),
                mv == file_macros(flat_items(syntax_tree.items@)),
                qv == quoted@.map_values(|q: QuotedExpansions| quoted_view(q)),
                quoted@.len() == ms@.len(),
                ex0 == *old(self),
                self.depth_exceeded() == ex0.depth_exceeded(),
                forall|n: Seq<char>, t: Seq<char>, q: QuotedView| #[trigger] self.spec_fresh_expansion(n, t, q) == ex0.spec_fresh_expansion(n, t, q),
                ({
                    let f = macro_fold(ex0, ex0.cached(), mv.take(i as int), qv.take(i as int));
                    &&& macro_calls@.len() == f.0.len()
                    &&& forall|t: int| 0 <= t < macro_calls@.len() ==> macro_call_is(#[trigger] macro_calls@[t], f.0[t].0, f.0[t].1)
                    &&& forall|k: Seq<char>| #[trigger] (self.cached())(k) == (f.1)(k)
                }),
            decreases ms.len() - i,
        {
            let (path, tokens) = ms[i];
            proof {
                assert(mv.take(i + 1).drop_last() =~= mv.take(i as int));
                assert(qv.take(i + 1).drop_last() =~= qv.take(i as int));
                assert(mv.take(i + 1).last() == (*path, tokens@));
                assert(qv.take(i + 1).last() == quoted_view(quoted@[i as int]));
            }
            let ghost prev = macro_fold(ex0, ex0.cached(), mv.take(i as int), qv.take(i as int));
            let ghost cache_before = self.cached();
            let r = self.expand_macro(path, tokens.as_str(), &quoted[i]);
            proof {
                assert forall|k: Seq<char>| #[trigger] cache_before(k) == (prev.1)(k) by {}
                assert(cache_before =~= prev.1);
            }
            match r {
                Ok(expanded) => {
                    let n = path.segments.len();
                    let macro_name = if n > 0 {
                        path.segments[n - 1].ident.clone()
                    } else {
                        String::new()
                    };
                    proof {
                        if n > 0 {
                            assert(path.segments@.last() == path.segments@[n - 1]);
                        }
                    }
                    let generated_calls = analyze_expanded_tokens(expanded.as_str());
                    let ghost before = macro_calls@;
                    macro_calls.push(MacroCall { macro_name, expansion: expanded, generated_calls, location: empty_loc() });
                    proof {
                        let f1 = macro_fold(ex0, ex0.cached(), mv.take(i + 1), qv.take(i + 1));
                        assert forall|t: int| 0 <= t < macro_calls@.len() implies macro_call_is(#[trigger] macro_calls@[t], f1.0[t].0, f1.0[t].1) by {
                            if t < before.len() {
                                assert(macro_calls@[t] == before[t]);
                            }
                        }
                    }
                },
                Err(e) => {},
            }
            i = i + 1;
        }
        proof {
            assert(mv.take(mv.len() as int) =~= mv);
            assert(qv.take(qv.len() as int) =~= qv);
        }
        Ok(macro_calls)
    }
}


// ---------------------------------------------------------------------------
// Await points of a file, and the asynchronous call graph
// ---------------------------------------------------------------------------

pub open spec fn await_point_view(a: AwaitPoint) -> (Seq<char>, usize, usize, InferredTypeView, bool) {
    (a.location.file@, a.location.line, a.location.column, a.future_type@, a.error_propagation)
}

/// An async function record as plain values.
pub struct AsyncFunctionView {
    pub name: Seq<char>,
    pub signature: SignatureView,
    pub future_type: InferredTypeView,
    pub await_points: Seq<(Seq<char>, usize, usize, InferredTypeView, bool)>,
    pub async_calls: Seq<Seq<char>>,
    pub error_handling: AsyncErrorHandling,
}

pub open spec fn async_fn_view(a: AsyncFunction) -> AsyncFunctionView {
    AsyncFunctionView {
        name: a.name@,
        signature: signature_view(a.signature),
        future_type: a.future_type@,
        await_points: a.await_points@.map_values(|p: AwaitPoint| await_point_view(p)),
        async_calls: string_views(a.async_calls@),
        error_handling: a.error_handling,
    }
}

fn copy_await_points(v: &Vec<AwaitPoint>) -> (res: Vec<AwaitPoint>)
    ensures
        res@.map_values(|p: AwaitPoint| await_point_view(p)) == v@.map_values(|p: AwaitPoint| await_point_view(p)),
{
    let mut out: Vec<AwaitPoint> = Vec::new();
    let mut i: usize = 0;
    while i < v.len()
        invariant
            i <= v.len(),
            out@.map_values(|p: AwaitPoint| await_point_view(p)) == v@.take(i as int).map_values(|p: AwaitPoint| await_point_view(p)),
        decreases v.len() - i,
    {
        let ghost before = out@;
        out.push(AwaitPoint {
            location: copy_location(&v[i].location),
            future_type: v[i].future_type.copy(),
            error_propagation: v[i].error_propagation,
        });
        proof {
            assert(out@.map_values(|p: AwaitPoint| await_point_view(p)) =~= before.map_values(|p: AwaitPoint| await_point_view(p)).push(await_point_view(v@[i as int])));
            assert(v@.take(i + 1).map_values(|p: AwaitPoint| await_point_view(p)) =~= v@.take(i as int).map_values(|p: AwaitPoint| await_point_view(p)).push(await_point_view(v@[i as int])));
        }
        i = i + 1;
    }
    proof {
        assert(v@.take(v@.len() as int) =~= v@);
    }
    out
}

/// A copy of an async function record.
pub fn copy_async_function(a: &AsyncFunction) -> (res: AsyncFunction)
    ensures
        async_fn_view(res) == async_fn_view(*a),
{
    AsyncFunction {
        name: a.name.clone(),
        signature: copy_signature(&a.signature),
        future_type: a.future_type.copy(),
        await_points: copy_await_points(&a.await_points),
        async_calls: copy_strings(&a.async_calls),
        error_handling: a.error_handling,
    }
}

/// The async functions of a file by name, and the calls between them.
pub struct AsyncCallGraph {
    async_functions: StringMap<AsyncFunction>,
    async_calls: Vec<(String, String)>,
}

impl AsyncCallGraph {
    pub closed spec fn wf(&self) -> bool {
        self.async_functions.wf()
    }

    /// The record kept for an async function's name.
    pub closed spec fn function_named(&self, n: Seq<char>) -> Option<AsyncFunctionView> {
        match self.async_functions.lookup(n) {
            Some(f) => Some(async_fn_view(f)),
            None => None,
        }
    }

    /// The calls, as (caller, callee) pairs, in the order added.
    pub closed spec fn calls(&self) -> Seq<(Seq<char>, Seq<char>)> {
        self.async_calls@.map_values(|p: (String, String)| (p.0@, p.1@))
    }

    /// A graph with no async functions and no calls.
    pub fn new() -> (res: Self)
        ensures
            res.wf(),
            forall|n: Seq<char>| #[trigger] res.function_named(n) is None,
            res.calls().len() == 0,
    {
        AsyncCallGraph { async_functions: StringMap::new(), async_calls: Vec::new() }
    }

    /// The calls recorded, as (caller, callee) pairs.
    pub fn async_calls(&self) -> (res: &Vec<(String, String)>)
        ensures
            res@.map_values(|p: (String, String)| (p.0@, p.1@)) == self.calls(),
    {
        &self.async_calls
    }

    /// The record kept for an async function's name.
    pub fn async_function(&self, name: &str) -> (res: Option<&AsyncFunction>)
        requires
            self.wf(),
        ensures
            match res {
                Some(f) => self.function_named(name@) == Some(async_fn_view(*f)),
                None => self.function_named(name@) is None,
            },
    {
        self.async_functions.get(name)
    }

    /// Keeps a copy of an async function's record under its name.
    pub fn add_async_function(&mut self, func: &AsyncFunction)
        requires
            old(self).wf(),
        ensures
            final(self).wf(),
            final(self).function_named(func.name@) == Some(async_fn_view(*func)),
            forall|n: Seq<char>| n != func.name@ ==> #[trigger] final(self).function_named(n) == old(self).function_named(n),
            final(self).calls() == old(self).calls(),
    {
        self.async_functions.insert(func.name.clone(), copy_async_function(func));
    }

    /// Records a call from one async function to another.
    pub fn add_async_call(&mut self, caller: &str, callee: &str)
        ensures
            final(self).calls() == old(self).calls().push((caller@, callee@)),
            forall|n: Seq<char>| #[trigger] final(self).function_named(n) == old(self).function_named(n),
            old(self).wf() ==> final(self).wf(),
    {
        let ghost before = self.async_calls@;
        self.async_calls.push((to_string(caller), to_string(callee)));
        proof {
            assert(self.calls() =~= before.map_values(|p: (String, String)| (p.0@, p.1@)).push((caller@, callee@)));
        }
    }
}

/// The calls of the async functions, function by function.
pub open spec fn async_call_pairs(fs: Seq<AsyncFunction>) -> Seq<(Seq<char>, Seq<char>)>
    decreases fs.len(),
{
    if fs.len() == 0 {
        Seq::empty()
    } else {
        async_call_pairs(fs.drop_last()) + string_views(fs.last().async_calls@).map_values(|c: Seq<char>| (fs.last().name@, c))
    }
}

/// The last async function record with the name `n`.
pub open spec fn last_async_named(fs: Seq<AsyncFunction>, n: Seq<char>) -> Option<AsyncFunctionView>
    decreases fs.len(),
{
    if fs.len() == 0 {
        None
    } else if fs.last().name@ == n {
        Some(async_fn_view(fs.last()))
    } else {
        last_async_named(fs.drop_last(), n)
    }
}

pub open spec fn bodies_named(bs: Seq<Seq<BodyEvent>>) -> bool {
    forall|k: int| 0 <= k < bs.len() ==> await_paths_named(#[trigger] bs[k])
}

proof fn lemma_named_split(a: Seq<BodyEvent>, b: Seq<BodyEvent>)
    requires
        await_paths_named(a + b),
    ensures
        await_paths_named(a),
        await_paths_named(b),
{
    assert forall|i: int| 0 <= i < a.len() implies (#[trigger] a[i] matches BodyEvent::Await { base: Expr::Call { func, .. } } ==> (
        *func matches Expr::Path(p) ==> p.segments@.len() > 0)) by {
        assert((a + b)[i] == a[i]);
    }
    assert forall|i: int| 0 <= i < b.len() implies (#[trigger] b[i] matches BodyEvent::Await { base: Expr::Call { func, .. } } ==> (
        *func matches Expr::Path(p) ==> p.segments@.len() > 0)) by {
        assert((a + b)[a.len() + i] == b[i]);
    }
}

proof fn lemma_named_parts(bs: Seq<Seq<BodyEvent>>)
    requires
        await_paths_named(flat_bodies(bs)),
    ensures
        bodies_named(bs),
    decreases bs.len(),
{
    if bs.len() > 0 {
        lemma_named_split(flat_bodies(bs.drop_last()), bs.last());
        lemma_named_parts(bs.drop_last());
        assert forall|k: int| 0 <= k < bs.len() implies await_paths_named(#[trigger] bs[k]) by {
            if k < bs.len() - 1 {
                assert(bs[k] == bs.drop_last()[k]);
            }
        }
    }
}


// ---------------------------------------------------------------------------
// Trait calls of a file
// ---------------------------------------------------------------------------

/// A trait call as plain values.
pub struct TraitCallView {
    pub trait_name: Seq<char>,
    pub method_name: Seq<char>,
    pub receiver_type: InferredTypeView,
    pub arguments: Seq<InferredTypeView>,
    pub return_type: Option<InferredTypeView>,
    pub location: (Seq<char>, usize, usize),
    pub is_dynamic_dispatch: bool,
}

pub open spec fn trait_call_view(c: TraitCall) -> TraitCallView {
    TraitCallView {
        trait_name: c.trait_name@,
        method_name: c.method_name@,
        receiver_type: c.receiver_type@,
        arguments: type_views(c.arguments@),
        return_type: opt_type_view(c.return_type),
        location: (c.location.file@, c.location.line, c.location.column),
        is_dynamic_dispatch: c.is_dynamic_dispatch,
    }
}

pub open spec fn trait_calls_view(v: Seq<TraitCall>) -> Seq<TraitCallView> {
    v.map_values(|c: TraitCall| trait_call_view(c))
}

impl TraitResolver {
    /// The call a method call on a receiver of type `recv` resolves to: the
    /// receiver type's own method, else the first trait `impl` method.
    pub open spec fn spec_resolved_call(&self, ctx: TypeInferenceContext, recv: InferredTypeView, m: Seq<char>) -> Option<TraitCallView> {
        let own = match ctx.spec_type_definitions().lookup(recv.name) {
            Some(d) => first_method_named(d.methods@, m),
            None => None,
        };
        let by_trait = match self.spec_impl_blocks(recv.name) {
            Some(bs) => first_trait_method(bs@, m),
            None => None,
        };
        match own {
            Some(md) => Some(TraitCallView {
                trait_name: "inherent"@,
                method_name: m,
                receiver_type: recv,
                arguments: Seq::empty(),
                return_type: opt_type_view(md.signature.return_type),
                location: (Seq::empty(), 0, 0),
                is_dynamic_dispatch: false,
            }),
            None => match by_trait {
                Some((tp, md)) => Some(TraitCallView {
                    trait_name: tp,
                    method_name: m,
                    receiver_type: recv,
                    arguments: Seq::empty(),
                    return_type: opt_type_view(md.signature.return_type),
                    location: (Seq::empty(), 0, 0),
                    is_dynamic_dispatch: spec_is_dynamic_dispatch(tp),
                }),
                None => None,
            },
        }
    }

    /// The trait calls one traversal event makes: a method call that
    /// resolves, or a call through a path of two or more segments with a
    /// first argument, read as `Trait::method(receiver, ..)`.
    pub open spec fn event_trait_calls(&self, ctx: TypeInferenceContext, e: BodyEvent) -> Seq<TraitCallView> {
        match e {
            BodyEvent::MethodCall { receiver, method, .. } => match self.spec_resolved_call(ctx, ctx.spec_receiver_type(receiver), method@) {
                Some(c) => seq![c],
                None => Seq::empty(),
            },
            BodyEvent::Call { func, args } => match func {
                Expr::Path(p) => if p.segments@.len() >= 2 && args@.len() > 0 {
                    seq![TraitCallView {
                        trait_name: p.segments@[p.segments@.len() - 2].ident@,
                        method_name: p.segments@.last().ident@,
                        receiver_type: ctx.spec_receiver_type(args@[0]),
                        arguments: args@.skip(1).map_values(|a: Expr| ctx.spec_receiver_type(a)),
                        return_type: None,
                        location: (Seq::empty(), 0, 0),
                        is_dynamic_dispatch: false,
                    }]
                } else {
                    Seq::empty()
                },
                _ => Seq::empty(),
            },
            _ => Seq::empty(),
        }
    }

    /// The trait calls of a sequence of events, in order.
    pub open spec fn spec_trait_calls(&self, ctx: TypeInferenceContext, evs: Seq<BodyEvent>) -> Seq<TraitCallView>
        decreases evs.len(),
    {
        if evs.len() == 0 {
            Seq::empty()
        } else {
            self.spec_trait_calls(ctx, evs.drop_last()) + self.event_trait_calls(ctx, evs.last())
        }
    }

    /// The trait calls that one event makes, appended.
    fn push_event_trait_calls(&self, event: &BodyEvent, type_context: &TypeInferenceContext, out: &mut Vec<TraitCall>)
        requires
            self.wf(),
            type_context.wf(),
        ensures
            trait_calls_view(final(out)@) == trait_calls_view(old(out)@) + self.event_trait_calls(*type_context, *event),
    {
        let ghost before = out@;
        match event {
            BodyEvent::MethodCall { receiver, method, .. } => {
                let receiver_type = type_context.infer_receiver_type(receiver);
                match self.resolve_method_call(&receiver_type, method.as_str(), type_context) {
                    Some(trait_call) => {
                        out.push(trait_call);
                        proof {
                            assert(type_views(out@.last().arguments@) =~= Seq::<InferredTypeView>::empty());
                            assert(trait_calls_view(out@) =~= trait_calls_view(before) + self.event_trait_calls(*type_context, *event));
                        }
                    },
                    None => {
                        proof {
                            assert(trait_calls_view(out@) =~= trait_calls_view(before) + self.event_trait_calls(*type_context, *event));
                        }
                    },
                }
            },
            BodyEvent::Call { func, args } => {
                match func {
                    Expr::Path(p) => {
                        let n = p.segments.len();
                        if n >= 2 && args.len() > 0 {
                            proof {
                                assert(p.segments@.last() == p.segments@[n - 1]);
                            }
                            let trait_name = p.segments[n - 2].ident.clone();
                            let method_name = p.segments[n - 1].ident.clone();
                            let receiver_type = type_context.infer_receiver_type(&args[0]);
                            let mut arguments: Vec<InferredType> = Vec::new();
                            let mut k: usize = 1;
                            proof {
                                assert(args@.skip(1).take(0) =~= Seq::<Expr>::empty());
                            }
                            while k < args.len()
                                invariant
                                    1 <= k <= args.len(),
                                    type_context.wf(),
                                    type_views(arguments@) == args@.skip(1).take(k - 1).map_values(|a: Expr| type_context.spec_receiver_type(a)),
                                decreases args.len() - k,
                            {
                                let ghost b = arguments@;
                                let t = type_context.infer_receiver_type(&args[k]);
                                arguments.push(t);
                                proof {
                                    assert(arguments@.drop_last() =~= b);
                                    assert(args@.skip(1).take(k as int) =~= args@.skip(1).take(k - 1).push(args@[k as int]));
                                    assert(args@.skip(1).take(k as int).map_values(|a: Expr| type_context.spec_receiver_type(a))
                                        =~= args@.skip(1).take(k - 1).map_values(|a: Expr| type_context.spec_receiver_type(a)).push(type_context.spec_receiver_type(args@[k as int])));
                                }
                                k = k + 1;
                            }
                            proof {
                                assert(args@.skip(1).take(args@.len() - 1) =~= args@.skip(1));
                            }
                            out.push(TraitCall {
                                trait_name,
                                method_name,
                                receiver_type,
                                arguments,
                                return_type: None,
                                location: empty_loc(),
                                is_dynamic_dispatch: false,
                            });
                            proof {
                                assert(trait_calls_view(out@) =~= trait_calls_view(before) + self.event_trait_calls(*type_context, *event));
                            }
                        } else {
                            proof {
                                assert(trait_calls_view(out@) =~= trait_calls_view(before) + self.event_trait_calls(*type_context, *event));
                            }
                        }
                    },
                    _ => {
                        proof {
                            assert(trait_calls_view(out@) =~= trait_calls_view(before) + self.event_trait_calls(*type_context, *event));
                        }
                    },
                }
            },
            _ => {
                proof {
                    assert(trait_calls_view(out@) =~= trait_calls_view(before) + self.event_trait_calls(*type_context, *event));
                }
            },
        }
    }

    /// The trait calls of every body of a file, in the order a traversal
    /// meets them.
    pub fn resolve_trait_calls(&self, syntax_tree: &SourceFile, type_context: &TypeInferenceContext) -> (res: Result<Vec<TraitCall>, crate::error::AnalyzerError>)
        requires
            self.wf(),
            type_context.wf(),
        ensures
            res matches Ok(v) && trait_calls_view(v@) == self.spec_trait_calls(*type_context, file_bodies(flat_items(syntax_tree.items@))),
    {
        let flat = flat_item_refs(&syntax_tree.items);
        let bodies = file_body_refs(&flat);
        let ghost bv = body_views(bodies@);
        let mut trait_calls: Vec<TraitCall> = Vec::new();
        let mut b: usize = 0;
        proof {
            assert(bv.take(0) =~= Seq::<Seq<BodyEvent>>::empty());
            assert(trait_calls_view(trait_calls@) =~= Seq::<TraitCallView>::empty());
        }
        while b < bodies.len()
            invariant
                self.wf(),
                type_context.wf(),
                b <= bodies.len(),
                bv == body_views(bodies@),
                trait_calls_view(trait_calls@) == self.spec_trait_calls(*type_context, flat_bodies(bv.take(b as int))),
            decreases bodies.len() - b,
        {
            let body = bodies[b];
            proof {
                assert(bv.take(b + 1).drop_last() =~= bv.take(b as int));
                assert(bv.take(b + 1).last() == body@);
                assert(flat_bodies(bv.take(b as int)) + body@.take(0) =~= flat_bodies(bv.take(b as int)));
            }
            let mut e: usize = 0;
            while e < body.len()
                invariant
                    self.wf(),
                    type_context.wf(),
                    e <= body.len(),
                    trait_calls_view(trait_calls@) == self.spec_trait_calls(*type_context, flat_bodies(bv.take(b as int)) + body@.take(e as int)),
                decreases body.len() - e,
            {
                let ghost pre = flat_bodies(bv.take(b as int)) + body@.take(e as int);
                proof {
                    assert(pre.push(body@[e as int]) =~= flat_bodies(bv.take(b as int)) + body@.take(e + 1));
                    assert(pre.push(body@[e as int]).drop_last() =~= pre);
                }
                self.push_event_trait_calls(&body[e], type_context, &mut trait_calls);
                e = e + 1;
            }
            proof {
                assert(body@.take(body@.len() as int) =~= body@);
            }
            b = b + 1;
        }
        proof {
            assert(bv.take(bv.len() as int) =~= bv);
        }
        Ok(trait_calls)
    }
}


// ---------------------------------------------------------------------------
// Calls found by type inference
// ---------------------------------------------------------------------------

/// A call record with the given parts, an empty location, and no awaits.
pub open spec fn function_call_is(
    fc: FunctionCall,
    caller: Seq<char>,
    callee: Seq<char>,
    call_type: CallType,
    arguments: Seq<InferredTypeView>,
    return_type: Option<InferredTypeView>,
    confidence: u8,
) -> bool {
    &&& fc.caller@ == caller
    &&& fc.callee@ == callee
    &&& fc.call_type == call_type
    &&& type_views(fc.arguments@) == arguments
    &&& opt_type_view(fc.return_type) == return_type
    &&& empty_location(fc.location)
    &&& fc.confidence_pct == confidence
    &&& !fc.is_async
    &&& fc.await_points@.len() == 0
}

/// A call the inference records: caller, callee, kind, argument types,
/// return type and confidence.
pub type CallSpec = (Seq<char>, Seq<char>, CallType, Seq<InferredTypeView>, Option<InferredTypeView>, u8);

pub open spec fn call_matches(fc: FunctionCall, c: CallSpec) -> bool {
    function_call_is(fc, c.0, c.1, c.2, c.3, c.4, c.5)
}

pub open spec fn calls_match(v: Seq<FunctionCall>, cs: Seq<CallSpec>) -> bool {
    &&& v.len() == cs.len()
    &&& forall|i: int| 0 <= i < cs.len() ==> call_matches(#[trigger] v[i], cs[i])
}

/// What one traversal event does: inside function `caller`, a call records
/// its callee with its arguments' types (a method call is named by its
/// receiver's type name); a `let` of a plain name records the variable.
pub open spec fn event_step(
    sigs: StringMap<FunctionSignature>,
    env: VarEnv,
    caller: Option<Seq<char>>,
    ev: BodyEvent,
) -> (VarEnv, Option<CallSpec>) {
    match ev {
        BodyEvent::Call { func, args } => (env, match caller {
            Some(c) => Some((
                c,
                spec_fn_name_of(func),
                CallType::DirectCall,
                args@.map_values(|a: Expr| infer_expr_in(sigs, env, a)),
                match sigs.lookup(spec_fn_name_of(func)) {
                    Some(sig) => opt_type_view(sig.return_type),
                    None => None,
                },
                80u8,
            )),
            None => None,
        }),
        BodyEvent::MethodCall { receiver, method, args } => (env, match caller {
            Some(c) => Some((
                c,
                infer_expr_in(sigs, env, receiver).name + "::"@ + method@,
                CallType::MethodCall,
                args@.map_values(|a: Expr| infer_expr_in(sigs, env, a)),
                None,
                70u8,
            )),
            None => None,
        }),
        BodyEvent::Local { pat, init } => match pat {
            Pat::Ident { name, mutable } => (env_add(env, name@, match init {
                Some(e) => infer_expr_in(sigs, env, e),
                None => InferredTypeView { is_mutable: mutable, ..unknown_view(0) },
            }), None),
            _ => (env, None),
        },
        _ => (env, None),
    }
}

/// The events of a body read in order: the variables afterwards and the
/// calls recorded.
pub open spec fn events_fold(
    sigs: StringMap<FunctionSignature>,
    env: VarEnv,
    caller: Option<Seq<char>>,
    evs: Seq<BodyEvent>,
) -> (VarEnv, Seq<CallSpec>)
    decreases evs.len(),
{
    if evs.len() == 0 {
        (env, Seq::empty())
    } else {
        let pre = events_fold(sigs, env, caller, evs.drop_last());
        let st = event_step(sigs, pre.0, caller, evs.last());
        (st.0, match st.1 {
            Some(c) => pre.1.push(c),
            None => pre.1,
        })
    }
}

/// The variable a parameter binds, if it is `self` or a plain name.
pub open spec fn param_binding(a: FnArg) -> Option<(Seq<char>, InferredTypeView)> {
    match a {
        FnArg::Receiver { .. } => Some(("self"@, named_view("Self"@, "Self"@, 100))),
        FnArg::Typed { pat, ty } => match pat {
            Pat::Ident { name, .. } => Some((name@, spec_simple_type(ty))),
            _ => None,
        },
    }
}

pub open spec fn params_fold(env: VarEnv, inputs: Seq<FnArg>) -> VarEnv
    decreases inputs.len(),
{
    if inputs.len() == 0 {
        env
    } else {
        let e = params_fold(env, inputs.drop_last());
        match param_binding(inputs.last()) {
            Some((n, t)) => env_add(e, n, t),
            None => e,
        }
    }
}

/// The items of a file read in order: a function's parameters and body are
/// read in a scope of its own, with the function as caller; the bodies of
/// other items are read with no caller, so only their `let`s count.
pub open spec fn items_fold(sigs: StringMap<FunctionSignature>, env: VarEnv, items: Seq<Item>) -> (VarEnv, Seq<CallSpec>)
    decreases items.len(),
{
    if items.len() == 0 {
        (env, Seq::empty())
    } else {
        let pre = items_fold(sigs, env, items.drop_last());
        match items.last() {
            Item::Fn(f) => {
                let inner = events_fold(sigs, params_fold(env_push(pre.0), f.sig.inputs@), Some(f.sig.ident@), f.body@);
                (env_pop(inner.0), pre.1 + inner.1)
            },
            other => {
                let st = events_fold(sigs, pre.0, None, item_body(other));
                (st.0, pre.1 + st.1)
            },
        }
    }
}

impl TypeInferenceContext {
    /// What one traversal event records: inside function `caller`, a call
    /// names its callee with its arguments' types (a method call by its
    /// receiver's type name); a `let` of a plain name records the variable.
    pub fn infer_event(&mut self, caller: &Option<String>, event: &BodyEvent, calls: &mut Vec<FunctionCall>)
        requires
            old(self).wf(),
        ensures
            final(self).wf(),
            final(self).spec_type_definitions() == old(self).spec_type_definitions(),
            final(self).spec_signatures() == old(self).spec_signatures(),
            final(self).spec_scopes().len() == old(self).spec_scopes().len(),
            forall|i: int| 0 <= i < old(calls)@.len() ==> #[trigger] final(calls)@[i] == old(calls)@[i],
            ({
                let st = event_step(old(self).spec_signatures(), old(self).var_env(), opt_view(*caller), *event);
                &&& final(self).var_env() == st.0
                &&& match st.1 {
                    Some(c) => final(calls)@.len() == old(calls)@.len() + 1 && call_matches(final(calls)@.last(), c),
                    None => final(calls)@.len() == old(calls)@.len(),
                }
            }),
    {
        match event {
            BodyEvent::Call { func, args } => {
                match caller {
                    Some(c) => {
                        let callee_name = self.extract_function_name_from_expr(func);
                        let mut argument_types: Vec<InferredType> = Vec::new();
                        let mut k: usize = 0;
                        while k < args.len()
                            invariant
                                k <= args.len(),
                                self.wf(),
                                type_views(argument_types@) == args@.take(k as int).map_values(|a: Expr| self.spec_infer_expr(a)),
                            decreases args.len() - k,
                        {
                            let ghost b = argument_types@;
                            let t = self.infer_type_from_expr(&args[k]);
                            argument_types.push(t);
                            proof {
                                assert(argument_types@.drop_last() =~= b);
                                assert(args@.take(k + 1).map_values(|a: Expr| self.spec_infer_expr(a))
                                    =~= args@.take(k as int).map_values(|a: Expr| self.spec_infer_expr(a)).push(self.spec_infer_expr(args@[k as int])));
                            }
                            k = k + 1;
                        }
                        proof {
                            assert(args@.take(args@.len() as int) =~= args@);
                        }
                        let return_type = self.infer_return_type(callee_name.as_str(), &argument_types);
                        proof {
                            let st = event_step(old(self).spec_signatures(), old(self).var_env(), opt_view(*caller), *event);
                            let cs = st.1->0;
                            assert(args@.map_values(|a: Expr| self.spec_infer_expr(a)) =~= cs.3);
                            assert(type_views(argument_types@) == cs.3);
                        }
                        calls.push(FunctionCall {
                            caller: c.clone(),
                            callee: callee_name,
                            call_type: CallType::DirectCall,
                            arguments: argument_types,
                            return_type,
                            location: empty_loc(),
                            confidence_pct: 80,
                            is_async: false,
                            await_points: Vec::new(),
                        });
                    },
                    None => {},
                }
            },
            BodyEvent::MethodCall { receiver, method, args } => {
                match caller {
                    Some(c) => {
                        let receiver_type = self.infer_type_from_expr(receiver);
                        let mut argument_types: Vec<InferredType> = Vec::new();
                        let mut k: usize = 0;
                        while k < args.len()
                            invariant
                                k <= args.len(),
                                self.wf(),
                                type_views(argument_types@) == args@.take(k as int).map_values(|a: Expr| self.spec_infer_expr(a)),
                            decreases args.len() - k,
                        {
                            let ghost b = argument_types@;
                            let t = self.infer_type_from_expr(&args[k]);
                            argument_types.push(t);
                            proof {
                                assert(argument_types@.drop_last() =~= b);
                                assert(args@.take(k + 1).map_values(|a: Expr| self.spec_infer_expr(a))
                                    =~= args@.take(k as int).map_values(|a: Expr| self.spec_infer_expr(a)).push(self.spec_infer_expr(args@[k as int])));
                            }
                            k = k + 1;
                        }
                        proof {
                            assert(args@.take(args@.len() as int) =~= args@);
                        }
                        proof {
                            let st = event_step(old(self).spec_signatures(), old(self).var_env(), opt_view(*caller), *event);
                            let cs = st.1->0;
                            assert(args@.map_values(|a: Expr| self.spec_infer_expr(a)) =~= cs.3);
                        }
                        let callee_name = concat3(receiver_type.name.as_str(), "::", method.as_str());
                        calls.push(FunctionCall {
                            caller: c.clone(),
                            callee: callee_name,
                            call_type: CallType::MethodCall,
                            arguments: argument_types,
                            return_type: None,
                            location: empty_loc(),
                            confidence_pct: 70,
                            is_async: false,
                            await_points: Vec::new(),
                        });
                    },
                    None => {},
                }
            },
            BodyEvent::Local { pat, init } => {
                match pat {
                    Pat::Ident { name, mutable } => {
                        let var_type = match init {
                            Some(e) => self.infer_type_from_expr(e),
                            None => {
                                let mut t = unknown_type(0);
                                t.is_mutable = *mutable;
                                t
                            },
                        };
                        self.add_variable(name.clone(), var_type);
                    },
                    _ => {},
                }
            },
            _ => {},
        }
    }

    /// Reads a function: its parameters and body in a scope of its own, with
    /// the function as caller; the calls found follow those of `calls`.
    fn infer_item_fn(&mut self, f: &FnItem, calls: &mut Vec<FunctionCall>, Ghost(pre): Ghost<Seq<CallSpec>>)
        requires
            old(self).wf(),
            calls_match(old(calls)@, pre),
        ensures
            final(self).wf(),
            final(self).spec_type_definitions() == old(self).spec_type_definitions(),
            final(self).spec_signatures() == old(self).spec_signatures(),
            final(self).spec_scopes().len() == old(self).spec_scopes().len(),
            ({
                let inner = events_fold(
                    old(self).spec_signatures(),
                    params_fold(env_push(old(self).var_env()), f.sig.inputs@),
                    Some(f.sig.ident@),
                    f.body@,
                );
                &&& final(self).var_env() == env_pop(inner.0)
                &&& calls_match(final(calls)@, pre + inner.1)
            }),
    {
        let current_function: Option<String> = Some(f.sig.ident.clone());
        let ghost caller = Some(f.sig.ident@);
        let ghost sigs = old(self).spec_signatures();
        let ghost pre0 = old(self).var_env();
        self.push_scope(ScopeType::Function);
        let ghost inputs = f.sig.inputs@;
        let mut k: usize = 0;
        proof {
            assert(inputs.take(0) =~= Seq::<FnArg>::empty());
        }
        while k < f.sig.inputs.len()
            invariant
                self.wf(),
                k <= f.sig.inputs.len(),
                inputs == f.sig.inputs@,
                self.spec_type_definitions() == old(self).spec_type_definitions(),
                self.spec_signatures() == sigs,
                self.spec_scopes().len() == old(self).spec_scopes().len() + 1,
                self.var_env() == params_fold(env_push(pre0), inputs.take(k as int)),
            decreases f.sig.inputs.len() - k,
        {
            proof {
                assert(inputs.take(k + 1).drop_last() =~= inputs.take(k as int));
                assert(inputs.take(k + 1).last() == inputs[k as int]);
                reveal_strlit("self");
                reveal_strlit("Self");
            }
            match &f.sig.inputs[k] {
                FnArg::Receiver { .. } => {
                    let self_type = make_type(to_string("Self"), to_string("Self"), TypeKind::Primitive(to_string("Self")), 100);
                    self.add_variable(to_string("self"), self_type);
                },
                FnArg::Typed { pat, ty } => match pat {
                    Pat::Ident { name, .. } => {
                        let param_type = type_from_syn_type(ty);
                        self.add_variable(name.clone(), param_type);
                    },
                    _ => {},
                },
            }
            k = k + 1;
        }
        proof {
            assert(inputs.take(inputs.len() as int) =~= inputs);
        }
        let body = &f.body;
        let ghost env1 = self.var_env();
        let mut e: usize = 0;
        proof {
            assert(body@.take(0) =~= Seq::<BodyEvent>::empty());
            assert(pre + Seq::<CallSpec>::empty() =~= pre);
        }
        while e < body.len()
            invariant
                self.wf(),
                e <= body.len(),
                opt_view(current_function) == caller,
                self.spec_type_definitions() == old(self).spec_type_definitions(),
                self.spec_signatures() == sigs,
                self.spec_scopes().len() == old(self).spec_scopes().len() + 1,
                self.var_env() == events_fold(sigs, env1, caller, body@.take(e as int)).0,
                calls_match(calls@, pre + events_fold(sigs, env1, caller, body@.take(e as int)).1),
            decreases body.len() - e,
        {
            let ghost pe = events_fold(sigs, env1, caller, body@.take(e as int));
            let ghost before = calls@;
            proof {
                assert(body@.take(e + 1).drop_last() =~= body@.take(e as int));
                assert(body@.take(e + 1).last() == body@[e as int]);
            }
            self.infer_event(&current_function, &body[e], calls);
            proof {
                let st = event_step(sigs, pe.0, caller, body@[e as int]);
                lemma_calls_match_step(before, calls@, pre + pe.1, st.1);
                if st.1 is Some {
                    assert(pre + pe.1.push(st.1->0) =~= (pre + pe.1).push(st.1->0));
                }
            }
            e = e + 1;
        }
        proof {
            assert(body@.take(body@.len() as int) =~= body@);
        }
        self.pop_scope();
    }

    /// The calls made in the bodies of a file's functions, each function's
    /// parameters and `let`s recorded in a scope of its own while its body is
    /// read; the `let`s of other bodies are recorded where they stand.
    pub fn infer_function_calls(&mut self, syntax_tree: &SourceFile) -> (res: Vec<FunctionCall>)
        requires
            old(self).wf(),
        ensures
            final(self).wf(),
            final(self).spec_type_definitions() == old(self).spec_type_definitions(),
            final(self).spec_signatures() == old(self).spec_signatures(),
            final(self).spec_scopes().len() == old(self).spec_scopes().len(),
            final(self).var_env() == items_fold(old(self).spec_signatures(), old(self).var_env(), flat_items(syntax_tree.items@)).0,
            calls_match(res@, items_fold(old(self).spec_signatures(), old(self).var_env(), flat_items(syntax_tree.items@)).1),
    {
        let ghost sigs = old(self).spec_signatures();
        let ghost env0 = old(self).var_env();
        let items = flat_item_refs(&syntax_tree.items);
        let ghost iv = item_refs_view(items@);
        let mut function_calls: Vec<FunctionCall> = Vec::new();
        let mut i: usize = 0;
        proof {
            assert(iv.take(0) =~= Seq::<Item>::empty());
        }
        while i < items.len()
            invariant
                self.wf(),
                i <= items.len(),
                iv == item_refs_view(items@),
                iv == flat_items(syntax_tree.items@),
                sigs == old(self).spec_signatures(),
                env0 == old(self).var_env(),
                self.spec_type_definitions() == old(self).spec_type_definitions(),
                self.spec_signatures() == sigs,
                self.spec_scopes().len() == old(self).spec_scopes().len(),
                self.var_env() == items_fold(sigs, env0, iv.take(i as int)).0,
                calls_match(function_calls@, items_fold(sigs, env0, iv.take(i as int)).1),
            decreases items.len() - i,
        {
            let ghost pre = items_fold(sigs, env0, iv.take(i as int));
            proof {
                assert(iv.take(i + 1).drop_last() =~= iv.take(i as int));
                assert(iv.take(i + 1).last() == iv[i as int]);
            }
            match items[i] {
                Item::Fn(f) => {
                    self.infer_item_fn(f, &mut function_calls, Ghost(pre.1));
                },
                _ => {
                    let bodies = item_body_refs(items[i]);
                    let ghost bv = body_views(bodies@);
                    let no_function: Option<String> = None;
                    let mut b: usize = 0;
                    proof {
                        assert(bv.take(0) =~= Seq::<Seq<BodyEvent>>::empty());
                        assert(flat_bodies(bv.take(0)) =~= Seq::<BodyEvent>::empty());
                        assert(pre.1 + Seq::<CallSpec>::empty() =~= pre.1);
                    }
                    while b < bodies.len()
                        invariant
                            self.wf(),
                            b <= bodies.len(),
                            bv == body_views(bodies@),
                            opt_view(no_function) is None,
                            self.spec_type_definitions() == old(self).spec_type_definitions(),
                            self.spec_signatures() == sigs,
                            self.spec_scopes().len() == old(self).spec_scopes().len(),
                            self.var_env() == events_fold(sigs, pre.0, None, flat_bodies(bv.take(b as int))).0,
                            calls_match(function_calls@, pre.1 + events_fold(sigs, pre.0, None, flat_bodies(bv.take(b as int))).1),
                        decreases bodies.len() - b,
                    {
                        let body = bodies[b];
                        let ghost done = flat_bodies(bv.take(b as int));
                        proof {
                            assert(bv.take(b + 1).drop_last() =~= bv.take(b as int));
                            assert(bv.take(b + 1).last() == body@);
                            assert(done + body@.take(0) =~= done);
                        }
                        let mut e: usize = 0;
                        while e < body.len()
                            invariant
                                self.wf(),
                                e <= body.len(),
                                opt_view(no_function) is None,
                                self.spec_type_definitions() == old(self).spec_type_definitions(),
                                self.spec_signatures() == sigs,
                                self.spec_scopes().len() == old(self).spec_scopes().len(),
                                self.var_env() == events_fold(sigs, pre.0, None, done + body@.take(e as int)).0,
                                calls_match(function_calls@, pre.1 + events_fold(sigs, pre.0, None, done + body@.take(e as int)).1),
                            decreases body.len() - e,
                        {
                            let ghost seen = done + body@.take(e as int);
                            let ghost pe = events_fold(sigs, pre.0, None, seen);
                            let ghost before = function_calls@;
                            proof {
                                assert(seen.push(body@[e as int]) =~= done + body@.take(e + 1));
                                assert(seen.push(body@[e as int]).drop_last() =~= seen);
                            }
                            self.infer_event(&no_function, &body[e], &mut function_calls);
                            proof {
                                let st = event_step(sigs, pe.0, None, body@[e as int]);
                                lemma_calls_match_step(before, function_calls@, pre.1 + pe.1, st.1);
                            }
                            e = e + 1;
                        }
                        proof {
                            assert(body@.take(body@.len() as int) =~= body@);
                        }
                        b = b + 1;
                    }
                    proof {
                        assert(bv.take(bv.len() as int) =~= bv);
                    }
                },
            }
            i = i + 1;
        }
        proof {
            assert(iv.take(iv.len() as int) =~= iv);
        }
        function_calls
    }
}

/// A call record added or not, as one event says.
proof fn lemma_calls_match_step(
    before: Seq<FunctionCall>,
    after: Seq<FunctionCall>,
    cs: Seq<CallSpec>,
    c: Option<CallSpec>,
)
    requires
        calls_match(before, cs),
        forall|i: int| 0 <= i < before.len() ==> #[trigger] after[i] == before[i],
        match c {
            Some(x) => after.len() == before.len() + 1 && call_matches(after.last(), x),
            None => after.len() == before.len(),
        },
    ensures
        calls_match(after, match c {
            Some(x) => cs.push(x),
            None => cs,
        }),
{
    match c {
        Some(x) => {
            assert forall|i: int| 0 <= i < cs.push(x).len() implies call_matches(#[trigger] after[i], cs.push(x)[i]) by {
                if i < cs.len() {
                    assert(after[i] == before[i]);
                }
            }
        },
        None => {
            assert forall|i: int| 0 <= i < cs.len() implies call_matches(#[trigger] after[i], cs[i]) by {
                assert(after[i] == before[i]);
            }
        },
    }
}


// ---------------------------------------------------------------------------
// The semantic analysis of a file
// ---------------------------------------------------------------------------

/// What the semantic analysis of a file finds.
pub struct SemanticAnalysisResult {
    pub file_path: String,
    pub type_definitions: Vec<InferredType>,
    pub function_calls: Vec<FunctionCall>,
    pub macro_calls: Vec<MacroCall>,
    pub trait_calls: Vec<TraitCall>,
    pub async_functions: Vec<AsyncFunction>,
    pub await_points: Vec<AwaitPoint>,
    pub async_call_graph: AsyncCallGraph,
}

/// Type inference, macro expansion and trait resolution over files.
pub struct SemanticAnalyzer {
    type_context: TypeInferenceContext,
    macro_expander: MacroExpander,
    trait_resolver: TraitResolver,
    call_graph: CallGraph,
    current_file: Option<String>,
}

/// What a file's syntax must hold for its analysis: awaited calls and
/// async signatures name their types and functions.
pub open spec fn semantic_input_ok(items: Seq<Item>) -> bool {
    async_items_ok(items) && file_awaits_named(items)
}

impl SemanticAnalyzer {
    pub closed spec fn wf(&self) -> bool {
        &&& self.type_context.wf()
        &&& self.macro_expander.wf()
        &&& self.trait_resolver.wf()
    }

    /// The type context as the analysis has built it.
    pub closed spec fn context(&self) -> TypeInferenceContext {
        self.type_context
    }

    pub closed spec fn resolver(&self) -> TraitResolver {
        self.trait_resolver
    }

    pub closed spec fn expander(&self) -> MacroExpander {
        self.macro_expander
    }

    pub closed spec fn spec_current_file(&self) -> Option<Seq<char>> {
        opt_view(self.current_file)
    }

    /// An analyzer with an empty context, expander, resolver and call graph.
    pub fn new() -> (res: Self)
        ensures
            res.wf(),
            res.spec_current_file() is None,
            res.context().spec_scopes().len() == 0,
            forall|k: Seq<char>| #[trigger] res.context().spec_variables().lookup(k) is None,
            forall|k: Seq<char>| #[trigger] res.context().spec_type_definitions().lookup(k) is None,
            forall|k: Seq<char>| #[trigger] res.context().spec_signatures().lookup(k) is None,
            res.context().spec_variables().value_seq().len() == 0,
            res.context().var_env() == (Seq::<Map<Seq<char>, InferredTypeView>>::empty(), Map::<Seq<char>, InferredTypeView>::empty()),
            forall|k: Seq<char>| #[trigger] (res.expander().cached())(k) is None,
            !res.expander().depth_exceeded(),
            forall|n: Seq<char>, t: Seq<char>, q: QuotedView| #[trigger] res.expander().spec_fresh_expansion(n, t, q)
                == match spec_builtin_expansion(n, q) {
                    Some(e) => e,
                    None => t,
                },
            forall|k: Seq<char>| #[trigger] res.resolver().spec_impl_blocks(k) is None,
    {
        SemanticAnalyzer {
            type_context: TypeInferenceContext::new(),
            macro_expander: MacroExpander::new(),
            trait_resolver: TraitResolver::new(),
            call_graph: CallGraph::new(),
            current_file: None,
        }
    }

    /// The records of a file's async functions.
    pub fn analyze_async_functions(&mut self, file: &SourceFile) -> (res: Result<Vec<AsyncFunction>, crate::error::AnalyzerError>)
        requires
            async_items_ok(flat_items(file.items@)),
        ensures
            res matches Ok(v) && v@.len() == async_fns(flat_items(file.items@)).len() && forall|i: int|
                0 <= i < v@.len() ==> async_function_matches(#[trigger] v@[i], async_fns(flat_items(file.items@))[i]),
            *final(self) == *old(self),
    {
        async_functions_of(file)
    }

    /// The await points of every body of a file, in the order a traversal
    /// meets them, each with the future type of what it awaits.
    pub fn analyze_await_points(&mut self, file: &SourceFile) -> (res: Result<Vec<AwaitPoint>, crate::error::AnalyzerError>)
        requires
            file_awaits_named(flat_items(file.items@)),
        ensures
            *final(self) == *old(self),
            res matches Ok(v) && v@.len() == await_types(file_bodies(flat_items(file.items@))).len()
                && forall|i: int| 0 <= i < v@.len() ==> await_point_is(#[trigger] v@[i], await_types(file_bodies(flat_items(file.items@)))[i]),
    {
        let flat = flat_item_refs(&file.items);
        let bodies = file_body_refs(&flat);
        let ghost bv = body_views(bodies@);
        proof {
            lemma_named_parts(bv);
            assert(bv.take(0) =~= Seq::<Seq<BodyEvent>>::empty());
        }
        let mut await_points: Vec<AwaitPoint> = Vec::new();
        let mut b: usize = 0;
        while b < bodies.len()
            invariant
                b <= bodies.len(),
                bv == body_views(bodies@),
                bodies_named(bv),
                await_points@.len() == await_types(flat_bodies(bv.take(b as int))).len(),
                forall|t: int| 0 <= t < await_points@.len() ==> await_point_is(#[trigger] await_points@[t], await_types(flat_bodies(bv.take(b as int)))[t]),
            decreases bodies.len() - b,
        {
            let body = bodies[b];
            proof {
                assert(bv.take(b + 1).drop_last() =~= bv.take(b as int));
                assert(bv.take(b + 1).last() == body@);
                assert(bv[b as int] == body@);
                lemma_await_types_append(flat_bodies(bv.take(b as int)), body@);
            }
            let ghost before = await_points@;
            push_await_points(&mut await_points, body);
            proof {
                let all = await_types(flat_bodies(bv.take(b + 1)));
                assert forall|t: int| 0 <= t < await_points@.len() implies await_point_is(#[trigger] await_points@[t], all[t]) by {
                    if t < before.len() {
                        assert(await_points@[t] == before[t]);
                    } else {
                        assert(await_points@[before.len() + (t - before.len())] == await_points@[t]);
                    }
                }
            }
            b = b + 1;
        }
        proof {
            assert(bv.take(bv.len() as int) =~= bv);
        }
        Ok(await_points)
    }

    /// The call graph of async functions: each function by name (a later
    /// one of the same name replacing an earlier), and each awaited call.
    pub fn build_async_call_graph(&mut self, async_functions: &Vec<AsyncFunction>) -> (res: AsyncCallGraph)
        ensures
            *final(self) == *old(self),
            res.wf(),
            res.calls() == async_call_pairs(async_functions@),
            forall|n: Seq<char>| #[trigger] res.function_named(n) == last_async_named(async_functions@, n),
    {
        let mut graph = AsyncCallGraph::new();
        let ghost fs = async_functions@;
        let mut i: usize = 0;
        proof {
            assert(fs.take(0) =~= Seq::<AsyncFunction>::empty());
        }
        while i < async_functions.len()
            invariant
                graph.wf(),
                i <= async_functions.len(),
                fs == async_functions@,
                graph.calls() == async_call_pairs(fs.take(i as int)),
                forall|n: Seq<char>| #[trigger] graph.function_named(n) == last_async_named(fs.take(i as int), n),
            decreases async_functions.len() - i,
        {
            let func = &async_functions[i];
            proof {
                assert(fs.take(i + 1).drop_last() =~= fs.take(i as int));
                assert(fs.take(i + 1).last() == *func);
            }
            graph.add_async_function(func);
            let ghost base = graph.calls();
            let ghost cs = string_views(func.async_calls@);
            let mut k: usize = 0;
            proof {
                assert(cs.take(0).map_values(|c: Seq<char>| (func.name@, c)) =~= Seq::<(Seq<char>, Seq<char>)>::empty());
                assert(base + cs.take(0).map_values(|c: Seq<char>| (func.name@, c)) =~= base);
            }
            while k < func.async_calls.len()
                invariant
                    graph.wf(),
                    k <= func.async_calls.len(),
                    cs == string_views(func.async_calls@),
                    graph.calls() == base + cs.take(k as int).map_values(|c: Seq<char>| (func.name@, c)),
                    forall|n: Seq<char>| #[trigger] graph.function_named(n) == last_async_named(fs.take(i + 1), n),
                decreases func.async_calls.len() - k,
            {
                graph.add_async_call(func.name.as_str(), func.async_calls[k].as_str());
                proof {
                    assert(cs.take(k + 1).map_values(|c: Seq<char>| (func.name@, c))
                        =~= cs.take(k as int).map_values(|c: Seq<char>| (func.name@, c)).push((func.name@, func.async_calls@[k as int]@)));
                    assert(base + cs.take(k + 1).map_values(|c: Seq<char>| (func.name@, c))
                        =~= (base + cs.take(k as int).map_values(|c: Seq<char>| (func.name@, c))).push((func.name@, func.async_calls@[k as int]@)));
                }
                k = k + 1;
            }
            proof {
                assert(cs.take(cs.len() as int) =~= cs);
            }
            i = i + 1;
        }
        proof {
            assert(fs.take(fs.len() as int) =~= fs);
        }
        graph
    }

    /// The semantic analysis of a parsed file: definitions are collected,
    /// calls found by type inference, macros expanded (`quoted` holds the
    /// quoted texts for each macro invocation, in traversal order), trait
    /// calls resolved, and async functions, await points and their call
    /// graph recorded.
    pub fn analyze_file(&mut self, file_path: &String, syntax_tree: &SourceFile, quoted: &Vec<QuotedExpansions>) -> (res: Result<SemanticAnalysisResult, crate::error::AnalyzerError>)
        requires
            old(self).wf(),
            semantic_input_ok(flat_items(syntax_tree.items@)),
            quoted@.len() == file_macros(flat_items(syntax_tree.items@)).len(),
        ensures
            final(self).wf(),
            final(self).spec_current_file() == Some(file_path@),
            res matches Ok(r) && {
                &&& r.file_path@ == file_path@
                &&& type_views(r.type_definitions@) == type_views(final(self).context().spec_variables().value_seq())
                &&& calls_match(r.function_calls@, items_fold(final(self).context().spec_signatures(), old(self).context().var_env(), flat_items(syntax_tree.items@)).1)
                &&& trait_calls_view(r.trait_calls@) == final(self).resolver().spec_trait_calls(final(self).context(), file_bodies(flat_items(syntax_tree.items@)))
                &&& r.async_functions@.len() == async_fns(flat_items(syntax_tree.items@)).len()
                &&& forall|i: int| 0 <= i < r.async_functions@.len() ==> async_function_matches(#[trigger] r.async_functions@[i], async_fns(flat_items(syntax_tree.items@))[i])
                &&& r.await_points@.len() == await_types(file_bodies(flat_items(syntax_tree.items@))).len()
                &&& forall|i: int| 0 <= i < r.await_points@.len() ==> await_point_is(#[trigger] r.await_points@[i], await_types(file_bodies(flat_items(syntax_tree.items@)))[i])
                &&& r.async_call_graph.calls() == async_call_pairs(r.async_functions@)
                &&& forall|n: Seq<char>| #[trigger] r.async_call_graph.function_named(n) == last_async_named(r.async_functions@, n)
                &&& {
                    let f = macro_fold(old(self).expander(), old(self).expander().cached(), file_macros(flat_items(syntax_tree.items@)),
                        quoted@.map_values(|q: QuotedExpansions| quoted_view(q)));
                    &&& r.macro_calls@.len() == f.0.len()
                    &&& forall|i: int| 0 <= i < r.macro_calls@.len() ==> macro_call_is(#[trigger] r.macro_calls@[i], f.0[i].0, f.0[i].1)
                    &&& forall|k: Seq<char>| #[trigger] (final(self).expander().cached())(k) == (f.1)(k)
                }
            },
    {
        self.current_file = Some(file_path.clone());
        self.type_context.collect_definitions(syntax_tree);
        let function_calls = self.type_context.infer_function_calls(syntax_tree);
        let macro_calls = match self.macro_expander.analyze_macros(syntax_tree, quoted) {
            Ok(m) => m,
            Err(e) => return Err(e),
        };
        let trait_calls = match self.trait_resolver.resolve_trait_calls(syntax_tree, &self.type_context) {
            Ok(t) => t,
            Err(e) => return Err(e),
        };
        let async_functions = match self.analyze_async_functions(syntax_tree) {
            Ok(a) => a,
            Err(e) => return Err(e),
        };
        let await_points = match self.analyze_await_points(syntax_tree) {
            Ok(a) => a,
            Err(e) => return Err(e),
        };
        let async_call_graph = self.build_async_call_graph(&async_functions);
        let type_definitions = self.type_context.get_all_types();
        Ok(SemanticAnalysisResult {
            file_path: file_path.clone(),
            type_definitions,
            function_calls,
            macro_calls,
            trait_calls,
            async_functions,
            await_points,
            async_call_graph,
        })
    }
}

impl Default for SemanticAnalyzer {
    fn default() -> (res: Self)
        ensures
            res.wf(),
            res.spec_current_file() is None,
    {
        SemanticAnalyzer::new()
    }
}


// ---------------------------------------------------------------------------
// Laws
// ---------------------------------------------------------------------------

/// Item `j` of `items` is a function named `name`.
pub open spec fn is_fn_named(items: Seq<Item>, j: int, name: Seq<char>) -> bool {
    &&& 0 <= j < items.len()
    &&& (items[j] matches Item::Fn(f) && f.sig.ident@ == name)
}

proof fn lemma_event_callers(sigs: StringMap<FunctionSignature>, env: VarEnv, caller: Option<Seq<char>>, evs: Seq<BodyEvent>)
    ensures
        caller is None ==> events_fold(sigs, env, caller, evs).1.len() == 0,
        forall|i: int| 0 <= i < events_fold(sigs, env, caller, evs).1.len() ==> caller == Some(
            #[trigger] events_fold(sigs, env, caller, evs).1[i].0,
        ),
    decreases evs.len(),
{
    if evs.len() > 0 {
        lemma_event_callers(sigs, env, caller, evs.drop_last());
        let pre = events_fold(sigs, env, caller, evs.drop_last());
        let st = event_step(sigs, pre.0, caller, evs.last());
        assert(st.1 is Some ==> caller == Some((st.1->0).0));
        let all = events_fold(sigs, env, caller, evs).1;
        assert forall|i: int| 0 <= i < all.len() implies caller == Some(#[trigger] all[i].0) by {
            if i < pre.1.len() {
                assert(all[i] == pre.1[i]);
            }
        }
    }
}

/// Some item of `items` is a function named `name`.
pub open spec fn has_fn_named(items: Seq<Item>, name: Seq<char>) -> bool {
    exists|j: int| #[trigger] is_fn_named(items, j, name)
}

/// Each call's caller names a function among `items`.
pub open spec fn callers_are_fns(items: Seq<Item>, cs: Seq<CallSpec>) -> bool {
    forall|i: int| 0 <= i < cs.len() ==> has_fn_named(items, #[trigger] cs[i].0)
}

/// Every call that inference records is made inside one of the file's
/// functions, whose name it carries as caller: the bodies of methods,
/// constants and statics record none.
pub proof fn lemma_inferred_callers(sigs: StringMap<FunctionSignature>, env: VarEnv, items: Seq<Item>)
    ensures
        callers_are_fns(items, items_fold(sigs, env, items).1),
    decreases items.len(),
{
    if items.len() > 0 {
        let pre = items_fold(sigs, env, items.drop_last());
        lemma_inferred_callers(sigs, env, items.drop_last());
        let all = items_fold(sigs, env, items).1;
        let k = items.len() - 1;
        assert forall|j: int, n: Seq<char>| #[trigger] is_fn_named(items.drop_last(), j, n) implies is_fn_named(items, j, n) by {
            assert(items.drop_last()[j] == items[j]);
        }
        match items.last() {
            Item::Fn(f) => {
                let e1 = params_fold(env_push(pre.0), f.sig.inputs@);
                lemma_event_callers(sigs, e1, Some(f.sig.ident@), f.body@);
                let inner = events_fold(sigs, e1, Some(f.sig.ident@), f.body@);
                assert(is_fn_named(items, k, f.sig.ident@));
                assert forall|i: int| 0 <= i < all.len() implies has_fn_named(items, #[trigger] all[i].0) by {
                    if i < pre.1.len() {
                        assert(all[i] == pre.1[i]);
                        assert(has_fn_named(items.drop_last(), pre.1[i].0));
                    } else {
                        assert(all[i] == inner.1[i - pre.1.len()]);
                    }
                }
            },
            other => {
                lemma_event_callers(sigs, pre.0, None, item_body(other));
                assert forall|i: int| 0 <= i < all.len() implies has_fn_named(items, #[trigger] all[i].0) by {
                    assert(all[i] == pre.1[i]);
                    assert(has_fn_named(items.drop_last(), pre.1[i].0));
                }
            },
        }
    }
}

/// Opening a scope and closing it again leaves the scopes as they were.
pub proof fn lemma_scope_round_trip(before: Seq<Scope>, opened: Seq<Scope>, closed: Seq<Scope>)
    requires
        opened.len() == before.len() + 1,
        opened.drop_last() == before,
        closed == opened.drop_last(),
    ensures
        closed == before,
{
}

/// Expanding the same macro invocation again gives the same text, from the
/// cache that the first expansion filled.
pub proof fn lemma_expansion_cached(
    cache: spec_fn(Seq<char>) -> Option<Seq<char>>,
    exceeded: bool,
    fresh: Seq<char>,
    fresh_again: Seq<char>,
    path: SynPath,
    tokens: Seq<char>,
)
    requires
        expand_outcome(cache, exceeded, fresh, path, tokens).0 is Ok,
    ensures
        expand_outcome(expand_outcome(cache, exceeded, fresh, path, tokens).1, exceeded, fresh_again, path, tokens).0
            == expand_outcome(cache, exceeded, fresh, path, tokens).0,
{
}

} // verus!
