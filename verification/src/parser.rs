//! Parsing Rust source text with `syn`, and turning `syn`'s syntax tree into
//! the library's records. Each conversion below maps one `syn` node to one
//! record, variant by variant; bodies become trees of `SyntaxNode`s whose
//! walk is done, and proved, in `syntax_tree`.
//!
//! Inside bodies, the trees hold each node that `syn::visit` enters on its
//! way to an expression, a pattern, a `let` or a macro, in the order it
//! enters them; tokens, identifiers, lifetimes and literals, which hold none
//! of these, are left out.
use vstd::prelude::*;
use syn::spanned::Spanned;
use crate::syntax::{
    Attribute, BodyEvent, ConstDefault, Expr, Field, Fields, FnArg, GenericArgument, GenericParam, Item, LitKind, Pat,
    PathArguments, PathSegment, Signature, SynPath, SynType, TraitItem, TypeBound, UseTree, Variant, Visibility,
};
use crate::syntax_tree::{
    marked, plain, RawFnItem, RawImplItem, RawItem, RawSourceFile, RawTraitItem, SyntaxNode,
};

verus! {

/// What `syn::parse_file(text)` gives, as the library's record of the file:
/// the file, or the text of the parse error.
pub uninterp spec fn spec_parse_source(text: Seq<char>) -> Result<RawSourceFile, Seq<char>>;

/// Parses a source file with `syn::parse_file`; the error is carried as the
/// parse error's text (`Display`). The contract names the result.
#[verifier::external_body]
pub(crate) fn parse_source(text: &str) -> (res: Result<RawSourceFile, String>)
    ensures
        match res {
            Ok(f) => spec_parse_source(text@) == Ok::<RawSourceFile, Seq<char>>(f),
            Err(m) => spec_parse_source(text@) == Err::<RawSourceFile, Seq<char>>(m@),
        },
{
    match syn::parse_file(text) {
        Ok(f) => Ok(raw_file(&f)),
        Err(e) => Err(e.to_string()),
    }
}

// ---------------------------------------------------------------------------
// Records of names, types, patterns and signatures
// ---------------------------------------------------------------------------

/// The record of a `syn::Path`.
#[verifier::external_body]
fn conv_path(p: &syn::Path) -> (res: SynPath) {
    SynPath {
        leading_colon: p.leading_colon.is_some(),
        segments: p.segments.iter().map(|s| PathSegment { ident: s.ident.to_string(), arguments: conv_path_args(&s.arguments) }).collect(),
    }
}

/// The record of a `syn::PathArguments`.
#[verifier::external_body]
fn conv_path_args(a: &syn::PathArguments) -> (res: PathArguments) {
    match a {
        syn::PathArguments::None => PathArguments::NoArgs,
        syn::PathArguments::AngleBracketed(args) => PathArguments::AngleBracketed(args.args.iter().map(conv_generic_arg).collect()),
        syn::PathArguments::Parenthesized(_) => PathArguments::Parenthesized,
    }
}

/// The record of a `syn::GenericArgument`.
#[verifier::external_body]
fn conv_generic_arg(g: &syn::GenericArgument) -> (res: GenericArgument) {
    match g {
        syn::GenericArgument::Type(t) => GenericArgument::Type(conv_ty(t)),
        syn::GenericArgument::AssocType(a) => GenericArgument::AssocType(a.ident.to_string()),
        _ => GenericArgument::Other,
    }
}

/// The record of a `syn::TypeParamBound`.
#[verifier::external_body]
fn conv_bound(b: &syn::TypeParamBound) -> (res: TypeBound) {
    match b {
        syn::TypeParamBound::Trait(t) => TypeBound::Trait(conv_path(&t.path)),
        syn::TypeParamBound::Lifetime(l) => TypeBound::Lifetime(l.ident.to_string()),
        _ => TypeBound::Other,
    }
}

/// The record of a `syn::Type`.
#[verifier::external_body]
fn conv_ty(t: &syn::Type) -> (res: SynType) {
    match t {
        syn::Type::Path(p) => SynType::Path(conv_path(&p.path)),
        syn::Type::Reference(r) => SynType::Reference {
            lifetime: r.lifetime.as_ref().map(|l| l.ident.to_string()),
            mutable: r.mutability.is_some(),
            elem: Box::new(conv_ty(&r.elem)),
        },
        syn::Type::Tuple(t) => SynType::Tuple(t.elems.iter().map(conv_ty).collect()),
        syn::Type::Slice(s) => SynType::Slice(Box::new(conv_ty(&s.elem))),
        syn::Type::Ptr(p) => SynType::Ptr { mutable: p.mutability.is_some(), elem: Box::new(conv_ty(&p.elem)) },
        _ => conv_ty_rest(t),
    }
}

/// The record of an array, function pointer, trait object or never type.
#[verifier::external_body]
fn conv_ty_rest(t: &syn::Type) -> (res: SynType) {
    match t {
        syn::Type::Array(a) => SynType::Array { elem: Box::new(conv_ty(&a.elem)), len_value: conv_array_len(&a.len) },
        syn::Type::BareFn(f) => SynType::BareFn {
            bound_lifetimes: conv_bound_lifetimes(&f.lifetimes),
            inputs: f.inputs.iter().map(|a| conv_ty(&a.ty)).collect(),
            output: conv_output(&f.output).map(Box::new),
        },
        syn::Type::TraitObject(o) => SynType::TraitObject(o.bounds.iter().map(conv_bound).collect()),
        syn::Type::Never(_) => SynType::Never,
        _ => SynType::Other,
    }
}

/// The length of an array type when it is an integer literal that fits
/// `usize` (`LitInt::base10_parse`).
#[verifier::external_body]
fn conv_array_len(e: &syn::Expr) -> (res: Option<usize>) {
    match e {
        syn::Expr::Lit(syn::ExprLit { lit: syn::Lit::Int(i), .. }) => i.base10_parse::<usize>().ok(),
        _ => None,
    }
}

/// The parameters bound by `for<..>`: the identifier of each lifetime, `None`
/// for any other parameter.
#[verifier::external_body]
fn conv_bound_lifetimes(b: &Option<syn::BoundLifetimes>) -> (res: Vec<Option<String>>) {
    match b {
        Some(bl) => bl.lifetimes.iter().map(|g| match g {
            syn::GenericParam::Lifetime(l) => Some(l.lifetime.ident.to_string()),
            _ => None,
        }).collect(),
        None => Vec::new(),
    }
}

/// The record of a return type: `None` for the default one.
#[verifier::external_body]
fn conv_output(o: &syn::ReturnType) -> (res: Option<SynType>) {
    match o {
        syn::ReturnType::Default => None,
        syn::ReturnType::Type(_, t) => Some(conv_ty(t)),
    }
}

/// The record of a `syn::Visibility`.
#[verifier::external_body]
fn conv_vis(v: &syn::Visibility) -> (res: Visibility) {
    match v {
        syn::Visibility::Public(_) => Visibility::Public,
        syn::Visibility::Restricted(r) => Visibility::Restricted(conv_path(&r.path)),
        syn::Visibility::Inherited => Visibility::Inherited,
    }
}

/// The record of a `syn::Pat`.
#[verifier::external_body]
fn conv_pat(p: &syn::Pat) -> (res: Pat) {
    match p {
        syn::Pat::Ident(i) => Pat::Ident { name: i.ident.to_string(), mutable: i.mutability.is_some() },
        syn::Pat::Reference(r) => Pat::Reference(Box::new(conv_pat(&r.pat))),
        syn::Pat::Type(t) => Pat::Type(Box::new(conv_pat(&t.pat))),
        _ => Pat::Other,
    }
}

/// The record of a const parameter's default (`LitInt::base10_parse`,
/// `LitStr::value`).
#[verifier::external_body]
fn conv_const_default(e: &syn::Expr) -> (res: ConstDefault) {
    match e {
        syn::Expr::Lit(syn::ExprLit { lit: syn::Lit::Int(i), .. }) => ConstDefault::Int { value: i.base10_parse::<i64>().ok() },
        syn::Expr::Lit(syn::ExprLit { lit: syn::Lit::Str(s), .. }) => ConstDefault::Str(s.value()),
        syn::Expr::Lit(syn::ExprLit { lit: syn::Lit::Bool(b), .. }) => ConstDefault::Bool(b.value),
        _ => ConstDefault::Other,
    }
}

/// The record of a `syn::GenericParam`.
#[verifier::external_body]
fn conv_generic_param(p: &syn::GenericParam) -> (res: GenericParam) {
    match p {
        syn::GenericParam::Type(t) => GenericParam::Type { ident: t.ident.to_string() },
        syn::GenericParam::Lifetime(l) => GenericParam::Lifetime { text: l.lifetime.to_string(), ident: l.lifetime.ident.to_string() },
        syn::GenericParam::Const(c) => GenericParam::Const {
            ident: c.ident.to_string(),
            ty: conv_ty(&c.ty),
            default: c.default.as_ref().map(conv_const_default),
        },
    }
}

/// The records of the parameters of `syn::Generics`.
#[verifier::external_body]
fn conv_generics(g: &syn::Generics) -> (res: Vec<GenericParam>) {
    g.params.iter().map(conv_generic_param).collect()
}

/// The record of a `syn::FnArg`.
#[verifier::external_body]
fn conv_fn_arg(a: &syn::FnArg) -> (res: FnArg) {
    match a {
        syn::FnArg::Receiver(r) => FnArg::Receiver { reference: r.reference.is_some(), mutable: r.mutability.is_some() },
        syn::FnArg::Typed(t) => FnArg::Typed { pat: conv_pat(&t.pat), ty: conv_ty(&t.ty) },
    }
}

/// The record of a `syn::Signature`.
#[verifier::external_body]
fn conv_sig(s: &syn::Signature) -> (res: Signature) {
    Signature {
        ident: s.ident.to_string(),
        inputs: s.inputs.iter().map(conv_fn_arg).collect(),
        output: conv_output(&s.output),
        is_async: s.asyncness.is_some(),
        is_unsafe: s.unsafety.is_some(),
        has_abi: s.abi.is_some(),
        generics: conv_generics(&s.generics),
    }
}

/// The record of a `syn::Attribute`: whether its path is `doc`, its string
/// argument in list form (`Attribute::parse_args`), and its tokens printed.
#[verifier::external_body]
fn conv_attr(a: &syn::Attribute) -> (res: Attribute) {
    Attribute {
        is_doc: a.path().is_ident("doc"),
        list_str_arg: a.parse_args::<syn::LitStr>().ok().map(|l| l.value()),
        tokens: quote::ToTokens::to_token_stream(a).to_string(),
    }
}

/// The records of a list of attributes.
#[verifier::external_body]
fn conv_attrs(a: &Vec<syn::Attribute>) -> (res: Vec<Attribute>) {
    a.iter().map(conv_attr).collect()
}

/// The record of a `syn::Field`.
#[verifier::external_body]
fn conv_field(f: &syn::Field) -> (res: Field) {
    Field { ident: f.ident.as_ref().map(|i| i.to_string()), vis: conv_vis(&f.vis), ty: conv_ty(&f.ty) }
}

/// The record of a `syn::Fields`.
#[verifier::external_body]
fn conv_fields(f: &syn::Fields) -> (res: Fields) {
    match f {
        syn::Fields::Named(n) => Fields::Named(n.named.iter().map(conv_field).collect()),
        syn::Fields::Unnamed(u) => Fields::Unnamed(u.unnamed.iter().map(conv_field).collect()),
        syn::Fields::Unit => Fields::Unit,
    }
}

/// The record of a `syn::Variant`.
#[verifier::external_body]
fn conv_variant(v: &syn::Variant) -> (res: Variant) {
    Variant { ident: v.ident.to_string(), fields: conv_fields(&v.fields) }
}

/// The kind of a `syn::Lit`.
#[verifier::external_body]
fn conv_lit(l: &syn::Lit) -> (res: LitKind) {
    match l {
        syn::Lit::Str(_) => LitKind::Str,
        syn::Lit::ByteStr(_) => LitKind::ByteStr,
        syn::Lit::Byte(_) => LitKind::Byte,
        syn::Lit::Char(_) => LitKind::Char,
        syn::Lit::Int(_) => LitKind::Int,
        syn::Lit::Float(_) => LitKind::Float,
        syn::Lit::Bool(_) => LitKind::Bool,
        _ => LitKind::Other,
    }
}

/// The record of a `syn::Expr`, as far as the analyses look into it.
#[verifier::external_body]
fn conv_expr(e: &syn::Expr) -> (res: Expr) {
    match e {
        syn::Expr::Path(p) => Expr::Path(conv_path(&p.path)),
        syn::Expr::Lit(l) => Expr::Lit(conv_lit(&l.lit)),
        syn::Expr::Call(c) => Expr::Call { func: Box::new(conv_expr(&c.func)), args: c.args.iter().map(conv_expr).collect() },
        syn::Expr::Field(f) => Expr::Field { member: match &f.member { syn::Member::Named(i) => Some(i.to_string()), _ => None } },
        syn::Expr::Reference(r) => Expr::Reference { mutable: r.mutability.is_some(), expr: Box::new(conv_expr(&r.expr)) },
        _ => Expr::Other,
    }
}

/// The record of a `syn::UseTree`.
#[verifier::external_body]
fn conv_use_tree(t: &syn::UseTree) -> (res: UseTree) {
    match t {
        syn::UseTree::Path(p) => UseTree::Path { ident: p.ident.to_string(), tree: Box::new(conv_use_tree(&p.tree)) },
        syn::UseTree::Name(n) => UseTree::Name(n.ident.to_string()),
        syn::UseTree::Rename(r) => UseTree::Rename { ident: r.ident.to_string(), rename: r.rename.to_string() },
        syn::UseTree::Glob(_) => UseTree::Glob,
        syn::UseTree::Group(g) => UseTree::Group(g.items.iter().map(conv_use_tree).collect()),
    }
}

// ---------------------------------------------------------------------------
// Bodies as trees
// ---------------------------------------------------------------------------

/// A node with the nodes of a list of attributes first, then `rest`.
#[verifier::external_body]
fn with_attrs(attrs: &Vec<syn::Attribute>, rest: Vec<SyntaxNode>) -> (res: SyntaxNode) {
    let mut children = vec![plain(attrs.iter().map(node_attr).collect())];
    children.extend(rest);
    plain(children)
}

/// The node of an attribute: its meta's path and, for `name = value`, the
/// value.
#[verifier::external_body]
fn node_attr(a: &syn::Attribute) -> (res: SyntaxNode) {
    match &a.meta {
        syn::Meta::Path(p) => node_path(p),
        syn::Meta::List(l) => node_path(&l.path),
        syn::Meta::NameValue(nv) => plain(vec![node_path(&nv.path), node_expr(&nv.value)]),
    }
}

/// The node of a macro invocation: a `Macro` event, then its path.
#[verifier::external_body]
fn node_macro(m: &syn::Macro) -> (res: SyntaxNode) {
    marked(BodyEvent::Macro { path: conv_path(&m.path), tokens: m.tokens.to_string() }, vec![node_path(&m.path)])
}

/// The node of a path: the generic arguments of its segments.
#[verifier::external_body]
fn node_path(p: &syn::Path) -> (res: SyntaxNode) {
    plain(p.segments.iter().map(|s| node_path_args(&s.arguments)).collect())
}

/// The node of a `syn::PathArguments`.
#[verifier::external_body]
fn node_path_args(a: &syn::PathArguments) -> (res: SyntaxNode) {
    match a {
        syn::PathArguments::None => plain(Vec::new()),
        syn::PathArguments::AngleBracketed(ab) => node_angle(ab),
        syn::PathArguments::Parenthesized(p) => plain(vec![plain(p.inputs.iter().map(node_type).collect()), node_return(&p.output)]),
    }
}

/// The node of angle-bracketed generic arguments.
#[verifier::external_body]
fn node_angle(ab: &syn::AngleBracketedGenericArguments) -> (res: SyntaxNode) {
    plain(ab.args.iter().map(node_generic_arg).collect())
}

/// The node of optional angle-bracketed generic arguments.
#[verifier::external_body]
fn node_opt_angle(ab: &Option<syn::AngleBracketedGenericArguments>) -> (res: SyntaxNode) {
    plain(ab.iter().map(node_angle).collect())
}

/// The node of a `syn::GenericArgument`.
#[verifier::external_body]
fn node_generic_arg(g: &syn::GenericArgument) -> (res: SyntaxNode) {
    match g {
        syn::GenericArgument::Type(t) => node_type(t),
        syn::GenericArgument::Const(e) => node_expr(e),
        syn::GenericArgument::AssocType(a) => plain(vec![node_opt_angle(&a.generics), node_type(&a.ty)]),
        syn::GenericArgument::AssocConst(a) => plain(vec![node_opt_angle(&a.generics), node_expr(&a.value)]),
        syn::GenericArgument::Constraint(c) => plain(vec![node_opt_angle(&c.generics), node_bounds(c.bounds.iter().collect())]),
        _ => plain(Vec::new()),
    }
}

/// The node of the type of a qualified path, if there is one.
#[verifier::external_body]
fn node_qself(q: &Option<syn::QSelf>) -> (res: SyntaxNode) {
    plain(q.iter().map(|q| node_type(&q.ty)).collect())
}

/// The node of a list of bounds: each trait bound's `for<..>` parameters and
/// path.
#[verifier::external_body]
fn node_bounds(bs: Vec<&syn::TypeParamBound>) -> (res: SyntaxNode) {
    plain(bs.into_iter().map(|b| match b {
        syn::TypeParamBound::Trait(t) => plain(vec![node_bound_lifetimes(&t.lifetimes), node_path(&t.path)]),
        _ => plain(Vec::new()),
    }).collect())
}

/// The node of the parameters bound by `for<..>`, if any.
#[verifier::external_body]
fn node_bound_lifetimes(b: &Option<syn::BoundLifetimes>) -> (res: SyntaxNode) {
    plain(b.iter().map(|b| plain(b.lifetimes.iter().map(node_generic_param).collect())).collect())
}

/// The node of a generic parameter: its attributes, bounds, type and
/// default.
#[verifier::external_body]
fn node_generic_param(p: &syn::GenericParam) -> (res: SyntaxNode) {
    match p {
        syn::GenericParam::Lifetime(l) => with_attrs(&l.attrs, Vec::new()),
        syn::GenericParam::Type(t) => with_attrs(&t.attrs, vec![node_bounds(t.bounds.iter().collect()), plain(t.default.iter().map(node_type).collect())]),
        syn::GenericParam::Const(c) => with_attrs(&c.attrs, vec![node_type(&c.ty), plain(c.default.iter().map(node_expr).collect())]),
    }
}

/// The node of `syn::Generics`: its parameters, then its `where` clause.
#[verifier::external_body]
fn node_generics(g: &syn::Generics) -> (res: SyntaxNode) {
    let preds = g.where_clause.iter().map(|w| plain(w.predicates.iter().map(|p| match p {
        syn::WherePredicate::Type(t) => plain(vec![node_bound_lifetimes(&t.lifetimes), node_type(&t.bounded_ty), node_bounds(t.bounds.iter().collect())]),
        _ => plain(Vec::new()),
    }).collect())).collect();
    plain(vec![plain(g.params.iter().map(node_generic_param).collect()), plain(preds)])
}

/// The node of a return type.
#[verifier::external_body]
fn node_return(o: &syn::ReturnType) -> (res: SyntaxNode) {
    match o {
        syn::ReturnType::Default => plain(Vec::new()),
        syn::ReturnType::Type(_, t) => node_type(t),
    }
}

/// The node of a visibility: the path of `pub(in ..)`.
#[verifier::external_body]
fn node_vis(v: &syn::Visibility) -> (res: SyntaxNode) {
    match v {
        syn::Visibility::Restricted(r) => node_path(&r.path),
        _ => plain(Vec::new()),
    }
}

/// The node of a `syn::Type`.
#[verifier::external_body]
fn node_type(t: &syn::Type) -> (res: SyntaxNode) {
    match t {
        syn::Type::Array(a) => plain(vec![node_type(&a.elem), node_expr(&a.len)]),
        syn::Type::BareFn(f) => node_bare_fn(f),
        syn::Type::Group(g) => node_type(&g.elem),
        syn::Type::ImplTrait(i) => node_bounds(i.bounds.iter().collect()),
        syn::Type::Macro(m) => node_macro(&m.mac),
        _ => node_type_rest(t),
    }
}

/// The node of a function pointer type: its `for<..>` parameters, its
/// parameters' attributes and types, a variadic parameter's attributes, and
/// its return type.
#[verifier::external_body]
fn node_bare_fn(f: &syn::TypeBareFn) -> (res: SyntaxNode) {
    let inputs = f.inputs.iter().map(|a| with_attrs(&a.attrs, vec![node_type(&a.ty)])).collect();
    let variadic = f.variadic.iter().map(|v| with_attrs(&v.attrs, Vec::new())).collect();
    plain(vec![node_bound_lifetimes(&f.lifetimes), plain(inputs), plain(variadic), node_return(&f.output)])
}

/// The node of the other kinds of `syn::Type`.
#[verifier::external_body]
fn node_type_rest(t: &syn::Type) -> (res: SyntaxNode) {
    match t {
        syn::Type::Paren(p) => node_type(&p.elem),
        syn::Type::Path(p) => plain(vec![node_qself(&p.qself), node_path(&p.path)]),
        syn::Type::Ptr(p) => node_type(&p.elem),
        syn::Type::Reference(r) => node_type(&r.elem),
        syn::Type::Slice(s) => node_type(&s.elem),
        syn::Type::TraitObject(o) => node_bounds(o.bounds.iter().collect()),
        syn::Type::Tuple(tu) => plain(tu.elems.iter().map(node_type).collect()),
        _ => plain(Vec::new()),
    }
}

/// The node of an optional boxed expression.
#[verifier::external_body]
fn node_opt_expr(e: &Option<Box<syn::Expr>>) -> (res: SyntaxNode) {
    plain(e.iter().map(|x| node_expr(x)).collect())
}

/// The node of a list of expressions.
#[verifier::external_body]
fn node_exprs(es: Vec<&syn::Expr>) -> (res: SyntaxNode) {
    plain(es.into_iter().map(node_expr).collect())
}

/// The node of a block: its statements.
#[verifier::external_body]
fn node_block(b: &syn::Block) -> (res: SyntaxNode) {
    plain(b.stmts.iter().map(node_stmt).collect())
}

/// The node of a `let`: a `Local` event before its attributes, pattern,
/// initializer and `else` branch.
#[verifier::external_body]
fn node_local(l: &syn::Local) -> (res: SyntaxNode) {
    let init = l.init.iter().map(|i| plain(vec![node_expr(&i.expr), plain(i.diverge.iter().map(|d| node_expr(&d.1)).collect())])).collect();
    marked(
        BodyEvent::Local { pat: conv_pat(&l.pat), init: l.init.as_ref().map(|i| conv_expr(&i.expr)) },
        vec![with_attrs(&l.attrs, vec![node_pat(&l.pat)]), plain(init)],
    )
}

/// The node of a `syn::Stmt`.
#[verifier::external_body]
fn node_stmt(s: &syn::Stmt) -> (res: SyntaxNode) {
    match s {
        syn::Stmt::Local(l) => node_local(l),
        syn::Stmt::Item(i) => node_item(i),
        syn::Stmt::Expr(e, _) => node_expr(e),
        syn::Stmt::Macro(m) => with_attrs(&m.attrs, vec![node_macro(&m.mac)]),
    }
}

/// The node of a `syn::Expr`: calls, method calls, paths, macros, awaits and
/// `?` report their event before their sub-nodes.
#[verifier::external_body]
fn node_expr(e: &syn::Expr) -> (res: SyntaxNode) {
    match e {
        syn::Expr::Call(c) => marked(
            BodyEvent::Call { func: conv_expr(&c.func), args: c.args.iter().map(conv_expr).collect() },
            vec![with_attrs(&c.attrs, vec![node_expr(&c.func)]), node_exprs(c.args.iter().collect())],
        ),
        syn::Expr::MethodCall(c) => node_method_call(c),
        _ => node_expr_marked(e),
    }
}

/// The node of a method call: a `MethodCall` event before its attributes,
/// receiver, turbofish and arguments.
#[verifier::external_body]
fn node_method_call(c: &syn::ExprMethodCall) -> (res: SyntaxNode) {
    marked(
        BodyEvent::MethodCall { receiver: conv_expr(&c.receiver), method: c.method.to_string(), args: c.args.iter().map(conv_expr).collect() },
        vec![with_attrs(&c.attrs, vec![node_expr(&c.receiver)]), node_opt_angle(&c.turbofish), node_exprs(c.args.iter().collect())],
    )
}

/// The node of a path or macro expression.
#[verifier::external_body]
fn node_expr_marked(e: &syn::Expr) -> (res: SyntaxNode) {
    match e {
        syn::Expr::Path(p) => marked(BodyEvent::PathExpr(conv_path(&p.path)), vec![with_attrs(&p.attrs, vec![node_qself(&p.qself)]), node_path(&p.path)]),
        syn::Expr::Macro(m) => marked(BodyEvent::MacroExpr(conv_path(&m.mac.path)), vec![with_attrs(&m.attrs, vec![node_macro(&m.mac)])]),
        _ => node_expr_await(e),
    }
}

/// The node of an await or `?` expression.
#[verifier::external_body]
fn node_expr_await(e: &syn::Expr) -> (res: SyntaxNode) {
    match e {
        syn::Expr::Await(a) => marked(BodyEvent::Await { base: conv_expr(&a.base) }, vec![with_attrs(&a.attrs, vec![node_expr(&a.base)])]),
        syn::Expr::Try(t) => marked(BodyEvent::Try, vec![with_attrs(&t.attrs, vec![node_expr(&t.expr)])]),
        _ => node_expr_a(e),
    }
}

/// The node of an array, assignment, async, binary or block expression.
#[verifier::external_body]
fn node_expr_a(e: &syn::Expr) -> (res: SyntaxNode) {
    match e {
        syn::Expr::Array(a) => with_attrs(&a.attrs, vec![node_exprs(a.elems.iter().collect())]),
        syn::Expr::Assign(a) => with_attrs(&a.attrs, vec![node_expr(&a.left), node_expr(&a.right)]),
        syn::Expr::Async(a) => with_attrs(&a.attrs, vec![node_block(&a.block)]),
        syn::Expr::Binary(b) => with_attrs(&b.attrs, vec![node_expr(&b.left), node_expr(&b.right)]),
        syn::Expr::Block(b) => with_attrs(&b.attrs, vec![node_block(&b.block)]),
        _ => node_expr_b(e),
    }
}

/// The node of a break, cast, closure, const block or field expression.
#[verifier::external_body]
fn node_expr_b(e: &syn::Expr) -> (res: SyntaxNode) {
    match e {
        syn::Expr::Break(b) => with_attrs(&b.attrs, vec![node_opt_expr(&b.expr)]),
        syn::Expr::Cast(c) => with_attrs(&c.attrs, vec![node_expr(&c.expr), node_type(&c.ty)]),
        syn::Expr::Closure(c) => with_attrs(&c.attrs, vec![node_bound_lifetimes(&c.lifetimes), plain(c.inputs.iter().map(node_pat).collect()), node_return(&c.output), node_expr(&c.body)]),
        syn::Expr::Const(c) => with_attrs(&c.attrs, vec![node_block(&c.block)]),
        syn::Expr::Field(f) => with_attrs(&f.attrs, vec![node_expr(&f.base)]),
        _ => node_expr_c(e),
    }
}

/// The node of a `for`, group, `if` or index expression.
#[verifier::external_body]
fn node_expr_c(e: &syn::Expr) -> (res: SyntaxNode) {
    match e {
        syn::Expr::ForLoop(f) => with_attrs(&f.attrs, vec![node_pat(&f.pat), node_expr(&f.expr), node_block(&f.body)]),
        syn::Expr::Group(g) => with_attrs(&g.attrs, vec![node_expr(&g.expr)]),
        syn::Expr::If(i) => with_attrs(&i.attrs, vec![node_expr(&i.cond), node_block(&i.then_branch), plain(i.else_branch.iter().map(|b| node_expr(&b.1)).collect())]),
        syn::Expr::Index(i) => with_attrs(&i.attrs, vec![node_expr(&i.expr), node_expr(&i.index)]),
        _ => node_expr_d(e),
    }
}

/// The node of a `let`, loop, `match`, parenthesized or range expression.
#[verifier::external_body]
fn node_expr_d(e: &syn::Expr) -> (res: SyntaxNode) {
    match e {
        syn::Expr::Let(l) => with_attrs(&l.attrs, vec![node_pat(&l.pat), node_expr(&l.expr)]),
        syn::Expr::Loop(l) => with_attrs(&l.attrs, vec![node_block(&l.body)]),
        syn::Expr::Match(m) => with_attrs(&m.attrs, vec![node_expr(&m.expr), plain(m.arms.iter().map(node_arm).collect())]),
        syn::Expr::Paren(p) => with_attrs(&p.attrs, vec![node_expr(&p.expr)]),
        syn::Expr::Range(r) => with_attrs(&r.attrs, vec![node_opt_expr(&r.start), node_opt_expr(&r.end)]),
        _ => node_expr_e(e),
    }
}

/// The node of a raw address, reference, repeat, `return` or try-block
/// expression.
#[verifier::external_body]
fn node_expr_e(e: &syn::Expr) -> (res: SyntaxNode) {
    match e {
        syn::Expr::RawAddr(r) => with_attrs(&r.attrs, vec![node_expr(&r.expr)]),
        syn::Expr::Reference(r) => with_attrs(&r.attrs, vec![node_expr(&r.expr)]),
        syn::Expr::Repeat(r) => with_attrs(&r.attrs, vec![node_expr(&r.expr), node_expr(&r.len)]),
        syn::Expr::Return(r) => with_attrs(&r.attrs, vec![node_opt_expr(&r.expr)]),
        syn::Expr::TryBlock(t) => with_attrs(&t.attrs, vec![node_block(&t.block)]),
        _ => node_expr_f(e),
    }
}

/// The node of a struct literal: its qualified type, path, fields' attributes
/// and values, and base.
#[verifier::external_body]
fn node_expr_f(e: &syn::Expr) -> (res: SyntaxNode) {
    match e {
        syn::Expr::Struct(s) => with_attrs(&s.attrs, vec![
            node_qself(&s.qself),
            node_path(&s.path),
            plain(s.fields.iter().map(|f| with_attrs(&f.attrs, vec![node_expr(&f.expr)])).collect()),
            node_opt_expr(&s.rest),
        ]),
        _ => node_expr_g(e),
    }
}

/// The node of a tuple, unary, `unsafe`, `while` or `yield` expression.
#[verifier::external_body]
fn node_expr_g(e: &syn::Expr) -> (res: SyntaxNode) {
    match e {
        syn::Expr::Tuple(t) => with_attrs(&t.attrs, vec![node_exprs(t.elems.iter().collect())]),
        syn::Expr::Unary(u) => with_attrs(&u.attrs, vec![node_expr(&u.expr)]),
        syn::Expr::Unsafe(u) => with_attrs(&u.attrs, vec![node_block(&u.block)]),
        syn::Expr::While(w) => with_attrs(&w.attrs, vec![node_expr(&w.cond), node_block(&w.body)]),
        syn::Expr::Yield(y) => with_attrs(&y.attrs, vec![node_opt_expr(&y.expr)]),
        _ => node_expr_h(e),
    }
}

/// The node of a continue, infer or literal expression: its attributes; an
/// expression `syn` keeps as tokens has no sub-nodes.
#[verifier::external_body]
fn node_expr_h(e: &syn::Expr) -> (res: SyntaxNode) {
    match e {
        syn::Expr::Continue(c) => with_attrs(&c.attrs, Vec::new()),
        syn::Expr::Infer(i) => with_attrs(&i.attrs, Vec::new()),
        syn::Expr::Lit(l) => with_attrs(&l.attrs, Vec::new()),
        _ => plain(Vec::new()),
    }
}

/// The node of a `match` arm: its attributes, pattern, guard and body.
#[verifier::external_body]
fn node_arm(a: &syn::Arm) -> (res: SyntaxNode) {
    with_attrs(&a.attrs, vec![node_pat(&a.pat), plain(a.guard.iter().map(|g| node_expr(&g.1)).collect()), node_expr(&a.body)])
}

/// The node of a `syn::Pat`; a path or macro pattern reports its event as
/// the corresponding expression does.
#[verifier::external_body]
fn node_pat(p: &syn::Pat) -> (res: SyntaxNode) {
    match p {
        syn::Pat::Path(e) => marked(BodyEvent::PathExpr(conv_path(&e.path)), vec![with_attrs(&e.attrs, vec![node_qself(&e.qself)]), node_path(&e.path)]),
        syn::Pat::Macro(m) => marked(BodyEvent::MacroExpr(conv_path(&m.mac.path)), vec![with_attrs(&m.attrs, vec![node_macro(&m.mac)])]),
        syn::Pat::Const(c) => with_attrs(&c.attrs, vec![node_block(&c.block)]),
        syn::Pat::Range(r) => with_attrs(&r.attrs, vec![node_opt_expr(&r.start), node_opt_expr(&r.end)]),
        _ => node_pat_a(p),
    }
}

/// The node of an identifier, literal, or-, parenthesized or reference
/// pattern.
#[verifier::external_body]
fn node_pat_a(p: &syn::Pat) -> (res: SyntaxNode) {
    match p {
        syn::Pat::Ident(i) => with_attrs(&i.attrs, vec![plain(i.subpat.iter().map(|s| node_pat(&s.1)).collect())]),
        syn::Pat::Lit(l) => with_attrs(&l.attrs, Vec::new()),
        syn::Pat::Or(o) => with_attrs(&o.attrs, vec![plain(o.cases.iter().map(node_pat).collect())]),
        syn::Pat::Paren(q) => with_attrs(&q.attrs, vec![node_pat(&q.pat)]),
        syn::Pat::Reference(r) => with_attrs(&r.attrs, vec![node_pat(&r.pat)]),
        _ => node_pat_b(p),
    }
}

/// The node of a rest, slice or struct pattern.
#[verifier::external_body]
fn node_pat_b(p: &syn::Pat) -> (res: SyntaxNode) {
    match p {
        syn::Pat::Rest(r) => with_attrs(&r.attrs, Vec::new()),
        syn::Pat::Slice(s) => with_attrs(&s.attrs, vec![plain(s.elems.iter().map(node_pat).collect())]),
        syn::Pat::Struct(s) => with_attrs(&s.attrs, vec![
            node_qself(&s.qself),
            node_path(&s.path),
            plain(s.fields.iter().map(|f| with_attrs(&f.attrs, vec![node_pat(&f.pat)])).collect()),
            plain(s.rest.iter().map(|r| with_attrs(&r.attrs, Vec::new())).collect()),
        ]),
        _ => node_pat_c(p),
    }
}

/// The node of a tuple, tuple-struct, typed or wildcard pattern; a pattern
/// `syn` keeps as tokens has no sub-nodes.
#[verifier::external_body]
fn node_pat_c(p: &syn::Pat) -> (res: SyntaxNode) {
    match p {
        syn::Pat::Tuple(t) => with_attrs(&t.attrs, vec![plain(t.elems.iter().map(node_pat).collect())]),
        syn::Pat::TupleStruct(t) => with_attrs(&t.attrs, vec![node_qself(&t.qself), node_path(&t.path), plain(t.elems.iter().map(node_pat).collect())]),
        syn::Pat::Type(t) => with_attrs(&t.attrs, vec![node_pat(&t.pat), node_type(&t.ty)]),
        syn::Pat::Wild(w) => with_attrs(&w.attrs, Vec::new()),
        _ => plain(Vec::new()),
    }
}

/// The node of a signature: its generics, its parameters' attributes,
/// patterns and types, a variadic parameter, and its return type.
#[verifier::external_body]
fn node_sig(s: &syn::Signature) -> (res: SyntaxNode) {
    let inputs = s.inputs.iter().map(|a| match a {
        syn::FnArg::Receiver(r) => with_attrs(&r.attrs, vec![node_type(&r.ty)]),
        syn::FnArg::Typed(t) => with_attrs(&t.attrs, vec![node_pat(&t.pat), node_type(&t.ty)]),
    }).collect();
    let variadic = s.variadic.iter().map(|v| with_attrs(&v.attrs, v.pat.iter().map(|p| node_pat(&p.0)).collect())).collect();
    plain(vec![node_generics(&s.generics), plain(inputs), plain(variadic), node_return(&s.output)])
}

/// The node of a field: its attributes, visibility and type.
#[verifier::external_body]
fn node_field(f: &syn::Field) -> (res: SyntaxNode) {
    with_attrs(&f.attrs, vec![node_vis(&f.vis), node_type(&f.ty)])
}

/// The node of a `syn::Fields`.
#[verifier::external_body]
fn node_fields(f: &syn::Fields) -> (res: SyntaxNode) {
    match f {
        syn::Fields::Named(n) => plain(n.named.iter().map(node_field).collect()),
        syn::Fields::Unnamed(u) => plain(u.unnamed.iter().map(node_field).collect()),
        syn::Fields::Unit => plain(Vec::new()),
    }
}

/// The node of an enum variant: its attributes, fields and discriminant.
#[verifier::external_body]
fn node_variant(v: &syn::Variant) -> (res: SyntaxNode) {
    with_attrs(&v.attrs, vec![node_fields(&v.fields), plain(v.discriminant.iter().map(|d| node_expr(&d.1)).collect())])
}

/// The node of an item declared inside a body: a constant, enum, extern
/// crate or function.
#[verifier::external_body]
fn node_item(i: &syn::Item) -> (res: SyntaxNode) {
    match i {
        syn::Item::Const(c) => with_attrs(&c.attrs, vec![node_vis(&c.vis), node_generics(&c.generics), node_type(&c.ty), node_expr(&c.expr)]),
        syn::Item::Enum(e) => with_attrs(&e.attrs, vec![node_vis(&e.vis), node_generics(&e.generics), plain(e.variants.iter().map(node_variant).collect())]),
        syn::Item::ExternCrate(c) => with_attrs(&c.attrs, vec![node_vis(&c.vis)]),
        syn::Item::Fn(f) => with_attrs(&f.attrs, vec![node_vis(&f.vis), node_sig(&f.sig), node_block(&f.block)]),
        _ => node_item_a(i),
    }
}

/// The node of a foreign block, `impl` block, item macro or module declared
/// inside a body.
#[verifier::external_body]
fn node_item_a(i: &syn::Item) -> (res: SyntaxNode) {
    match i {
        syn::Item::ForeignMod(f) => with_attrs(&f.attrs, vec![plain(f.items.iter().map(node_foreign_item).collect())]),
        syn::Item::Impl(im) => node_item_impl(im),
        syn::Item::Macro(m) => with_attrs(&m.attrs, vec![node_macro(&m.mac)]),
        syn::Item::Mod(m) => with_attrs(&m.attrs, vec![node_vis(&m.vis), plain(m.content.iter().map(|c| plain(c.1.iter().map(node_item).collect())).collect())]),
        _ => node_item_b(i),
    }
}

/// The node of an `impl` block declared inside a body: its attributes,
/// generics, trait, self type and items.
#[verifier::external_body]
fn node_item_impl(im: &syn::ItemImpl) -> (res: SyntaxNode) {
    with_attrs(&im.attrs, vec![
        node_generics(&im.generics),
        plain(im.trait_.iter().map(|t| node_path(&t.1)).collect()),
        node_type(&im.self_ty),
        plain(im.items.iter().map(node_impl_item).collect()),
    ])
}

/// The node of a static, struct or trait declared inside a body.
#[verifier::external_body]
fn node_item_b(i: &syn::Item) -> (res: SyntaxNode) {
    match i {
        syn::Item::Static(s) => with_attrs(&s.attrs, vec![node_vis(&s.vis), node_type(&s.ty), node_expr(&s.expr)]),
        syn::Item::Struct(s) => with_attrs(&s.attrs, vec![node_vis(&s.vis), node_generics(&s.generics), node_fields(&s.fields)]),
        syn::Item::Trait(t) => with_attrs(&t.attrs, vec![
            node_vis(&t.vis),
            node_generics(&t.generics),
            node_bounds(t.supertraits.iter().collect()),
            plain(t.items.iter().map(node_trait_item).collect()),
        ]),
        _ => node_item_c(i),
    }
}

/// The node of a trait alias, type alias, union or `use` declared inside a
/// body; an item `syn` keeps as tokens has no sub-nodes.
#[verifier::external_body]
fn node_item_c(i: &syn::Item) -> (res: SyntaxNode) {
    match i {
        syn::Item::TraitAlias(t) => with_attrs(&t.attrs, vec![node_vis(&t.vis), node_generics(&t.generics), node_bounds(t.bounds.iter().collect())]),
        syn::Item::Type(t) => with_attrs(&t.attrs, vec![node_vis(&t.vis), node_generics(&t.generics), node_type(&t.ty)]),
        syn::Item::Union(u) => with_attrs(&u.attrs, vec![node_vis(&u.vis), node_generics(&u.generics), plain(u.fields.named.iter().map(node_field).collect())]),
        syn::Item::Use(u) => with_attrs(&u.attrs, vec![node_vis(&u.vis)]),
        _ => plain(Vec::new()),
    }
}

/// The node of an item of a foreign block.
#[verifier::external_body]
fn node_foreign_item(i: &syn::ForeignItem) -> (res: SyntaxNode) {
    match i {
        syn::ForeignItem::Fn(f) => with_attrs(&f.attrs, vec![node_vis(&f.vis), node_sig(&f.sig)]),
        syn::ForeignItem::Static(s) => with_attrs(&s.attrs, vec![node_vis(&s.vis), node_type(&s.ty)]),
        syn::ForeignItem::Type(t) => with_attrs(&t.attrs, vec![node_vis(&t.vis), node_generics(&t.generics)]),
        syn::ForeignItem::Macro(m) => with_attrs(&m.attrs, vec![node_macro(&m.mac)]),
        _ => plain(Vec::new()),
    }
}

/// The node of an item of an `impl` block declared inside a body.
#[verifier::external_body]
fn node_impl_item(i: &syn::ImplItem) -> (res: SyntaxNode) {
    match i {
        syn::ImplItem::Const(c) => with_attrs(&c.attrs, vec![node_vis(&c.vis), node_generics(&c.generics), node_type(&c.ty), node_expr(&c.expr)]),
        syn::ImplItem::Fn(f) => with_attrs(&f.attrs, vec![node_vis(&f.vis), node_sig(&f.sig), node_block(&f.block)]),
        syn::ImplItem::Type(t) => with_attrs(&t.attrs, vec![node_vis(&t.vis), node_generics(&t.generics), node_type(&t.ty)]),
        syn::ImplItem::Macro(m) => with_attrs(&m.attrs, vec![node_macro(&m.mac)]),
        _ => plain(Vec::new()),
    }
}

/// The node of an item of a trait declared inside a body.
#[verifier::external_body]
fn node_trait_item(i: &syn::TraitItem) -> (res: SyntaxNode) {
    match i {
        syn::TraitItem::Const(c) => with_attrs(&c.attrs, vec![node_generics(&c.generics), node_type(&c.ty), plain(c.default.iter().map(|d| node_expr(&d.1)).collect())]),
        syn::TraitItem::Fn(f) => with_attrs(&f.attrs, vec![node_sig(&f.sig), plain(f.default.iter().map(node_block).collect())]),
        syn::TraitItem::Type(t) => node_trait_type(t),
        syn::TraitItem::Macro(m) => with_attrs(&m.attrs, vec![node_macro(&m.mac)]),
        _ => plain(Vec::new()),
    }
}

/// The node of an associated type of a trait declared inside a body.
#[verifier::external_body]
fn node_trait_type(t: &syn::TraitItemType) -> (res: SyntaxNode) {
    with_attrs(&t.attrs, vec![node_generics(&t.generics), node_bounds(t.bounds.iter().collect()), plain(t.default.iter().map(|d| node_type(&d.1)).collect())])
}

// ---------------------------------------------------------------------------
// Items of a file
// ---------------------------------------------------------------------------

/// The record of a function, with its body as a tree and the lines its span
/// starts and ends on (`Span::start`, `Span::end`).
#[verifier::external_body]
fn raw_fn(attrs: &Vec<syn::Attribute>, vis: &syn::Visibility, sig: &syn::Signature, block: &syn::Block, start: u32, end: u32) -> (res: RawFnItem) {
    RawFnItem {
        attrs: conv_attrs(attrs),
        vis: conv_vis(vis),
        sig: conv_sig(sig),
        body: node_block(block),
        block_text: quote::ToTokens::to_token_stream(block).to_string(),
        start_line: start,
        end_line: end,
    }
}

/// The record of an item of an `impl` block.
#[verifier::external_body]
fn raw_impl_item(i: &syn::ImplItem) -> (res: RawImplItem) {
    match i {
        syn::ImplItem::Fn(f) => RawImplItem::Fn(raw_fn(&f.attrs, &f.vis, &f.sig, &f.block, f.span().start().line as u32, f.span().end().line as u32)),
        _ => RawImplItem::Other,
    }
}

/// The record of an item of a trait.
#[verifier::external_body]
fn raw_trait_item(i: &syn::TraitItem) -> (res: RawTraitItem) {
    match i {
        syn::TraitItem::Fn(f) => RawTraitItem::Fn {
            attrs: conv_attrs(&f.attrs),
            sig: conv_sig(&f.sig),
            default: f.default.as_ref().map(node_block),
            start_line: f.span().start().line as u32,
            end_line: f.span().end().line as u32,
        },
        syn::TraitItem::Type(t) => RawTraitItem::Plain(TraitItem::Type { ident: t.ident.to_string() }),
        syn::TraitItem::Const(c) => RawTraitItem::Plain(TraitItem::Const { ident: c.ident.to_string(), ty: conv_ty(&c.ty) }),
        _ => RawTraitItem::Plain(TraitItem::Other),
    }
}

/// The record of an `impl` block.
#[verifier::external_body]
fn raw_impl(im: &syn::ItemImpl) -> (res: RawItem) {
    RawItem::Impl {
        self_ty: conv_ty(&im.self_ty),
        trait_path: im.trait_.as_ref().map(|t| conv_path(&t.1)),
        items: im.items.iter().map(raw_impl_item).collect(),
        generics: conv_generics(&im.generics),
    }
}

/// The record of a function, `impl` block, trait or module of a file.
#[verifier::external_body]
fn raw_item(i: &syn::Item) -> (res: RawItem) {
    match i {
        syn::Item::Fn(f) => RawItem::Fn(raw_fn(&f.attrs, &f.vis, &f.sig, &f.block, f.span().start().line as u32, f.span().end().line as u32)),
        syn::Item::Impl(im) => raw_impl(im),
        syn::Item::Mod(m) => match &m.content {
            Some(c) => RawItem::Mod { ident: m.ident.to_string(), items: c.1.iter().map(raw_item).collect() },
            None => RawItem::Plain(Item::Other),
        },
        _ => raw_item_b(i),
    }
}

/// The record of a trait, constant or static of a file.
#[verifier::external_body]
fn raw_item_b(i: &syn::Item) -> (res: RawItem) {
    match i {
        syn::Item::Trait(t) => RawItem::Trait {
            attrs: conv_attrs(&t.attrs),
            ident: t.ident.to_string(),
            ident_line: t.ident.span().start().line as u32,
            generics: conv_generics(&t.generics),
            items: t.items.iter().map(raw_trait_item).collect(),
            start_line: t.span().start().line as u32,
        },
        syn::Item::Const(c) => RawItem::Const { vis: conv_vis(&c.vis), ident: c.ident.to_string(), ty: conv_ty(&c.ty), body: node_expr(&c.expr), start_line: c.span().start().line as u32, end_line: c.span().end().line as u32 },
        _ => raw_item_c(i),
    }
}

/// The record of a static, struct or enum of a file.
#[verifier::external_body]
fn raw_item_c(i: &syn::Item) -> (res: RawItem) {
    match i {
        syn::Item::Static(s) => RawItem::Static {
            vis: conv_vis(&s.vis),
            ident: s.ident.to_string(),
            ty: conv_ty(&s.ty),
            mutable: matches!(s.mutability, syn::StaticMutability::Mut(_)),
            body: node_expr(&s.expr),
            start_line: s.span().start().line as u32,
            end_line: s.span().end().line as u32,
        },
        _ => RawItem::Plain(plain_item(i)),
    }
}

/// The record of a struct of a file.
#[verifier::external_body]
fn plain_item(i: &syn::Item) -> (res: Item) {
    match i {
        syn::Item::Struct(s) => Item::Struct {
            attrs: conv_attrs(&s.attrs),
            ident: s.ident.to_string(),
            ident_line: s.ident.span().start().line as u32,
            generics: conv_generics(&s.generics),
            fields: conv_fields(&s.fields),
            start_line: s.span().start().line as u32,
        },
        _ => plain_item_b(i),
    }
}

/// The record of an enum or union of a file.
#[verifier::external_body]
fn plain_item_b(i: &syn::Item) -> (res: Item) {
    match i {
        syn::Item::Enum(e) => Item::Enum {
            attrs: conv_attrs(&e.attrs),
            ident: e.ident.to_string(),
            ident_line: e.ident.span().start().line as u32,
            variants: e.variants.iter().map(conv_variant).collect(),
            start_line: e.span().start().line as u32,
        },
        syn::Item::Union(u) => Item::Union {
            ident: u.ident.to_string(),
            ident_line: u.ident.span().start().line as u32,
            fields: u.fields.named.iter().map(conv_field).collect(),
        },
        _ => plain_item_c(i),
    }
}

/// The record of an item macro or `use` of a file; the other kinds of item
/// are not read.
#[verifier::external_body]
fn plain_item_c(i: &syn::Item) -> (res: Item) {
    match i {
        syn::Item::Macro(m) => Item::Macro {
            path: conv_path(&m.mac.path),
            ident: m.ident.as_ref().map(|x| x.to_string()),
            tokens: m.mac.tokens.to_string(),
            start_line: m.span().start().line as u32,
            end_line: m.span().end().line as u32,
        },
        syn::Item::Use(u) => Item::Use(conv_use_tree(&u.tree)),
        _ => Item::Other,
    }
}

/// The record of a parsed file: its items.
#[verifier::external_body]
fn raw_file(f: &syn::File) -> (res: RawSourceFile) {
    RawSourceFile { items: f.items.iter().map(raw_item).collect() }
}

} // verus!
