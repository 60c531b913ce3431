//! The parts of a Rust syntax tree that the analyses read, held as plain
//! values. A parsed source file is turned into these records before any
//! analysis runs over it.
use vstd::prelude::*;

verus! {

/// A path such as `std::collections::HashMap<K, V>`.
pub struct SynPath {
    pub leading_colon: bool,
    pub segments: Vec<PathSegment>,
}

pub struct PathSegment {
    pub ident: String,
    pub arguments: PathArguments,
}

pub enum PathArguments {
    NoArgs,
    AngleBracketed(Vec<GenericArgument>),
    Parenthesized,
}

pub enum GenericArgument {
    Type(SynType),
    /// `Item = T` inside angle brackets.
    AssocType(String),
    Other,
}

/// A bound in a trait object type.
pub enum TypeBound {
    Trait(SynPath),
    /// The lifetime's identifier, without the apostrophe.
    Lifetime(String),
    Other,
}

/// A type as written in source.
pub enum SynType {
    Path(SynPath),
    Reference { lifetime: Option<String>, mutable: bool, elem: Box<SynType> },
    Tuple(Vec<SynType>),
    /// `len_value` holds the length when it is an integer literal that fits `usize`.
    Array { elem: Box<SynType>, len_value: Option<usize> },
    Slice(Box<SynType>),
    Ptr { mutable: bool, elem: Box<SynType> },
    /// `for<'a> fn(..) -> ..`; each bound parameter is `Some(ident)` for a
    /// lifetime and `None` otherwise.
    BareFn { bound_lifetimes: Vec<Option<String>>, inputs: Vec<SynType>, output: Option<Box<SynType>> },
    TraitObject(Vec<TypeBound>),
    Never,
    Other,
}

pub enum Visibility {
    Public,
    Restricted(SynPath),
    Inherited,
}

pub enum Pat {
    Ident { name: String, mutable: bool },
    Reference(Box<Pat>),
    Type(Box<Pat>),
    Other,
}

pub enum FnArg {
    Receiver { reference: bool, mutable: bool },
    Typed { pat: Pat, ty: SynType },
}

pub enum ConstDefault {
    /// An integer literal; `value` holds it when it fits `i64`.
    Int { value: Option<i64> },
    Str(String),
    Bool(bool),
    Other,
}

pub enum GenericParam {
    Type { ident: String },
    /// `text` is the lifetime as written (with the apostrophe), `ident` without it.
    Lifetime { text: String, ident: String },
    Const { ident: String, ty: SynType, default: Option<ConstDefault> },
}

pub struct Signature {
    pub ident: String,
    pub inputs: Vec<FnArg>,
    pub output: Option<SynType>,
    pub is_async: bool,
    pub is_unsafe: bool,
    pub has_abi: bool,
    pub generics: Vec<GenericParam>,
}

pub enum LitKind {
    Str,
    ByteStr,
    Byte,
    Char,
    Int,
    Float,
    Bool,
    Other,
}

/// An expression, as far as the analyses look into it.
pub enum Expr {
    Path(SynPath),
    Lit(LitKind),
    Call { func: Box<Expr>, args: Vec<Expr> },
    /// A field access; `member` is the field's name when it is named.
    Field { member: Option<String> },
    Reference { mutable: bool, expr: Box<Expr> },
    Other,
}

/// What a traversal of a function body meets, in the order a depth-first
/// traversal meets it.
pub enum BodyEvent {
    Call { func: Expr, args: Vec<Expr> },
    MethodCall { receiver: Expr, method: String, args: Vec<Expr> },
    PathExpr(SynPath),
    /// A macro in expression position.
    MacroExpr(SynPath),
    /// Any macro invocation, with its tokens printed.
    Macro { path: SynPath, tokens: String },
    Local { pat: Pat, init: Option<Expr> },
    /// An `.await`; `base` is the awaited expression.
    Await { base: Expr },
    /// The `?` operator.
    Try,
}

pub struct Attribute {
    /// The attribute's path is the single identifier `doc`.
    pub is_doc: bool,
    /// The string literal argument when the attribute has the list form `name("..")`.
    pub list_str_arg: Option<String>,
    /// The whole attribute printed as tokens.
    pub tokens: String,
}

pub struct Field {
    pub ident: Option<String>,
    pub vis: Visibility,
    pub ty: SynType,
}

pub enum Fields {
    Named(Vec<Field>),
    Unnamed(Vec<Field>),
    Unit,
}

pub struct Variant {
    pub ident: String,
    pub fields: Fields,
}

pub struct FnItem {
    pub attrs: Vec<Attribute>,
    pub vis: Visibility,
    pub sig: Signature,
    pub body: Vec<BodyEvent>,
    /// The body printed as tokens.
    pub block_text: String,
    pub start_line: u32,
    pub end_line: u32,
}

pub enum TraitItem {
    Fn { attrs: Vec<Attribute>, sig: Signature, default: Option<Vec<BodyEvent>>, start_line: u32, end_line: u32 },
    Type { ident: String },
    Const { ident: String, ty: SynType },
    Other,
}

pub enum ImplItem {
    Fn(FnItem),
    Other,
}

pub enum UseTree {
    Path { ident: String, tree: Box<UseTree> },
    Name(String),
    Rename { ident: String, rename: String },
    Glob,
    Group(Vec<UseTree>),
}

pub enum Item {
    Fn(FnItem),
    Impl { self_ty: SynType, trait_path: Option<SynPath>, items: Vec<ImplItem>, generics: Vec<GenericParam> },
    Trait { attrs: Vec<Attribute>, ident: String, ident_line: u32, generics: Vec<GenericParam>, items: Vec<TraitItem>, start_line: u32 },
    Struct { attrs: Vec<Attribute>, ident: String, ident_line: u32, generics: Vec<GenericParam>, fields: Fields, start_line: u32 },
    Enum { attrs: Vec<Attribute>, ident: String, ident_line: u32, variants: Vec<Variant>, start_line: u32 },
    Union { ident: String, ident_line: u32, fields: Vec<Field> },
    /// A macro invocation in item position, such as a `macro_rules!` definition.
    Macro { path: SynPath, ident: Option<String>, tokens: String, start_line: u32, end_line: u32 },
    Const { vis: Visibility, ident: String, ty: SynType, body: Vec<BodyEvent>, start_line: u32, end_line: u32 },
    Static { vis: Visibility, ident: String, ty: SynType, mutable: bool, body: Vec<BodyEvent>, start_line: u32, end_line: u32 },
    Use(UseTree),
    /// An inline module, `mod name { .. }`, with its items.
    Mod { ident: String, items: Vec<Item> },
    Other,
}

/// A parsed source file.
pub struct SourceFile {
    pub items: Vec<Item>,
}

/// The items of a list with the items of each inline module in its place
/// (the module itself left out), in the order a traversal meets them.
pub open spec fn flat_items(items: Seq<Item>) -> Seq<Item>
    decreases items,
{
    if items.len() == 0 {
        Seq::empty()
    } else {
        proof {
            assert(decreases_to!(items => items.subrange(0, items.len() - 1)));
        }
        flat_items(items.subrange(0, items.len() - 1)) + match items[items.len() - 1] {
            Item::Mod { items: inner, .. } => {
                proof {
                    let m = items[items.len() - 1];
                    assert(decreases_to!(items => m));
                    assert(decreases_to!(m => m->Mod_items));
                    assert(decreases_to!(inner => inner@));
                }
                flat_items(inner@)
            },
            other => seq![other],
        }
    }
}

pub open spec fn item_refs_view(v: Seq<&Item>) -> Seq<Item> {
    v.map_values(|r: &Item| *r)
}

/// The items of a list with those of its inline modules in their place.
pub fn flat_item_refs<'a>(items: &'a Vec<Item>) -> (res: Vec<&'a Item>)
    ensures
        item_refs_view(res@) == flat_items(items@),
    decreases items@,
{
    let mut out: Vec<&'a Item> = Vec::new();
    let mut i: usize = 0;
    proof {
        assert(items@.subrange(0, 0) =~= Seq::<Item>::empty());
        assert(item_refs_view(out@) =~= Seq::<Item>::empty());
    }
    while i < items.len()
        invariant
            i <= items.len(),
            item_refs_view(out@) == flat_items(items@.subrange(0, i as int)),
        decreases items.len() - i,
    {
        let ghost pre = items@.subrange(0, i as int);
        proof {
            let next = items@.subrange(0, i + 1);
            assert(next.subrange(0, next.len() - 1) =~= pre);
            assert(next[next.len() - 1] == items@[i as int]);
        }
        match &items[i] {
            Item::Mod { items: inner, .. } => {
                proof {
                    let m = items@[i as int];
                    assert(decreases_to!(items@ => m));
                    assert(decreases_to!(m => m->Mod_items));
                    assert(decreases_to!(*inner => inner@));
                }
                let mut sub = flat_item_refs(inner);
                let ghost a = out@;
                let ghost b = sub@;
                out.append(&mut sub);
                proof {
                    assert(item_refs_view(out@) =~= item_refs_view(a) + item_refs_view(b));
                }
            },
            _ => {
                let ghost a = out@;
                out.push(&items[i]);
                proof {
                    assert(item_refs_view(out@) =~= item_refs_view(a).push(items@[i as int]));
                    assert(seq![items@[i as int]] =~= Seq::<Item>::empty().push(items@[i as int]));
                    assert(item_refs_view(a).push(items@[i as int]) =~= item_refs_view(a) + seq![items@[i as int]]);
                }
            },
        }
        i = i + 1;
    }
    proof {
        assert(items@.subrange(0, items@.len() as int) =~= items@);
    }
    out
}

} // verus!
