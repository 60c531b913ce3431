//! Structs, enums, traits and unions of a source file, with their fields,
//! variants or items and the methods their `impl` blocks give them.
use vstd::prelude::*;
use crate::error::AnalyzerError;
use crate::output::{AttributeInfo, StructOutput, StructRecord};
use crate::string_map::StringMap;
use crate::syntax::{
    Field, Fields, FnArg, GenericParam, ImplItem, Item, PathArguments, PathSegment, Signature,
    SourceFile, SynPath, SynType, TraitItem, Variant,
};
use crate::text::{
    concat, concat3, copy_strings, decimal, join, spec_decimal, spec_join, string_views, to_string,
    lemma_string_views_push,
};
use crate::utils::{
    extract_module_path, generate_id, normalize_visibility, spec_module_path, spec_visibility_label,
    strip_prefix_components,
};
use crate::function_analyzer::{opt_string, relative_path, spec_relative_path};

verus! {

// ---------------------------------------------------------------------------
// Types as text
// ---------------------------------------------------------------------------

/// A path segment's arguments are empty: none, or `<>`.
pub open spec fn args_empty(a: PathArguments) -> bool {
    match a {
        PathArguments::NoArgs => true,
        PathArguments::AngleBracketed(v) => v@.len() == 0,
        PathArguments::Parenthesized => false,
    }
}

/// A segment's identifier, with `<...>` where it has arguments.
pub open spec fn segment_text(s: PathSegment) -> Seq<char> {
    if args_empty(s.arguments) {
        s.ident@
    } else {
        s.ident@ + "<...>"@
    }
}

pub open spec fn path_segments_text(p: SynPath) -> Seq<char> {
    spec_join(p.segments@.map_values(|s: PathSegment| segment_text(s)), "::"@)
}

/// A type as text for type records: paths (arguments shown as `<...>`),
/// references, tuples, arrays, slices and raw pointers; `unknown` else.
pub open spec fn spec_field_type(ty: SynType) -> Seq<char>
    decreases ty,
{
    match ty {
        SynType::Path(p) => path_segments_text(p),
        SynType::Reference { mutable, elem, .. } => "&"@ + (if mutable {
            "mut "@
        } else {
            ""@
        }) + spec_field_type(*elem),
        SynType::Tuple(es) => "("@ + spec_join(spec_field_types(es@), ", "@) + ")"@,
        SynType::Array { elem, .. } => "["@ + spec_field_type(*elem) + "; _]"@,
        SynType::Slice(elem) => "["@ + spec_field_type(*elem) + "]"@,
        SynType::Ptr { mutable, elem } => "*"@ + (if mutable {
            "mut "@
        } else {
            "const "@
        }) + spec_field_type(*elem),
        _ => "unknown"@,
    }
}

pub open spec fn spec_field_types(ts: Seq<SynType>) -> Seq<Seq<char>>
    decreases ts,
{
    if ts.len() == 0 {
        Seq::empty()
    } else {
        spec_field_types(ts.drop_last()).push(spec_field_type(ts.last()))
    }
}

/// The type an `impl` block is for: its path's identifiers, `Unknown` for
/// other types.
pub open spec fn spec_impl_target(ty: SynType) -> Seq<char> {
    match ty {
        SynType::Path(p) => spec_join(p.segments@.map_values(|s: PathSegment| s.ident@), "::"@),
        _ => "Unknown"@,
    }
}

pub open spec fn spec_trait_arg_text(a: FnArg) -> Seq<char> {
    match a {
        FnArg::Receiver { .. } => "self"@,
        FnArg::Typed { ty, .. } => spec_field_type(ty),
    }
}

/// `ret name(arg, arg)` for a trait's method.
pub open spec fn spec_trait_method_signature(sig: Signature) -> Seq<char> {
    let ret = match sig.output {
        None => "()"@,
        Some(t) => spec_field_type(t),
    };
    ret + " "@ + sig.ident@ + "("@ + spec_join(sig.inputs@.map_values(|a: FnArg| spec_trait_arg_text(a)), ", "@)
        + ")"@
}

pub open spec fn generic_param_text(g: GenericParam) -> Seq<char> {
    match g {
        GenericParam::Type { ident } => ident@,
        GenericParam::Lifetime { text, .. } => text@,
        GenericParam::Const { ident, .. } => ident@,
    }
}

/// `<A, 'a, N>`, or nothing when there are no parameters.
pub open spec fn spec_generics_text(gs: Seq<GenericParam>) -> Seq<char> {
    if gs.len() == 0 {
        Seq::empty()
    } else {
        "<"@ + spec_join(gs.map_values(|g: GenericParam| generic_param_text(g)), ", "@) + ">"@
    }
}

// ---------------------------------------------------------------------------
// Records
// ---------------------------------------------------------------------------

/// The names of the methods of an `impl` block's items.
pub open spec fn impl_fn_names(items: Seq<ImplItem>) -> Seq<Seq<char>>
    decreases items.len(),
{
    if items.len() == 0 {
        Seq::empty()
    } else {
        match items.last() {
            ImplItem::Fn(f) => impl_fn_names(items.drop_last()).push(f.sig.ident@),
            ImplItem::Other => impl_fn_names(items.drop_last()),
        }
    }
}

/// The methods that the `impl` blocks among `items` give the type with full
/// name `key`, in order.
pub open spec fn spec_impl_methods(module: Seq<char>, items: Seq<Item>, key: Seq<char>) -> Seq<Seq<char>>
    decreases items.len(),
{
    if items.len() == 0 {
        Seq::empty()
    } else {
        let prev = spec_impl_methods(module, items.drop_last(), key);
        match items.last() {
            Item::Impl { self_ty, items: its, .. } => if module + "::"@ + spec_impl_target(self_ty) == key {
                prev + impl_fn_names(its@)
            } else {
                prev
            },
            _ => prev,
        }
    }
}

/// The `impl` block `it` of module `module` targets the type with full name
/// `key` and holds a method named `name`.
pub open spec fn block_gives_method(module: Seq<char>, it: Item, key: Seq<char>, name: Seq<char>) -> bool {
    match it {
        Item::Impl { self_ty, items: its, .. } => module + "::"@ + spec_impl_target(self_ty) == key && exists|j: int|
            0 <= j < its@.len() && (#[trigger] its@[j] matches ImplItem::Fn(f) && f.sig.ident@ == name),
        _ => false,
    }
}

proof fn lemma_impl_fn_names_complete(items: Seq<ImplItem>, j: int)
    requires
        0 <= j < items.len(),
        items[j] is Fn,
    ensures
        impl_fn_names(items).contains(items[j]->Fn_0.sig.ident@),
    decreases items.len(),
{
    let n = items[j]->Fn_0.sig.ident@;
    if j < items.len() - 1 {
        lemma_impl_fn_names_complete(items.drop_last(), j);
        assert(items.drop_last()[j] == items[j]);
        let prev = impl_fn_names(items.drop_last());
        let k = choose|k: int| 0 <= k < prev.len() && prev[k] == n;
        match items.last() {
            ImplItem::Fn(f) => assert(prev.push(f.sig.ident@)[k] == n),
            ImplItem::Other => {},
        }
    } else {
        let prev = impl_fn_names(items.drop_last());
        assert(prev.push(n)[prev.len() as int] == n);
    }
}

/// Adding an item to a file never removes a method recorded for a type: the
/// methods before are a prefix of the methods after.
pub proof fn lemma_impl_methods_extend(module: Seq<char>, items: Seq<Item>, it: Item, key: Seq<char>)
    ensures
        spec_impl_methods(module, items, key).len() <= spec_impl_methods(module, items.push(it), key).len(),
        spec_impl_methods(module, items.push(it), key).subrange(0, spec_impl_methods(module, items, key).len() as int)
            == spec_impl_methods(module, items, key),
{
    assert(items.push(it).drop_last() =~= items);
    let prev = spec_impl_methods(module, items, key);
    let next = spec_impl_methods(module, items.push(it), key);
    assert(next.subrange(0, prev.len() as int) =~= prev);
}

/// Every method of every `impl` block of a file that targets a type is among
/// that type's recorded methods.
pub proof fn lemma_impl_methods_complete(module: Seq<char>, items: Seq<Item>, key: Seq<char>, i: int, name: Seq<char>)
    requires
        0 <= i < items.len(),
        block_gives_method(module, items[i], key, name),
    ensures
        spec_impl_methods(module, items, key).contains(name),
    decreases items.len(),
{
    let prev_items = items.drop_last();
    assert(prev_items.push(items.last()) =~= items);
    if i < items.len() - 1 {
        assert(prev_items[i] == items[i]);
        lemma_impl_methods_complete(module, prev_items, key, i, name);
        lemma_impl_methods_extend(module, prev_items, items.last(), key);
        let prev = spec_impl_methods(module, prev_items, key);
        let next = spec_impl_methods(module, items, key);
        let k = choose|k: int| 0 <= k < prev.len() && prev[k] == name;
        assert(next.subrange(0, prev.len() as int)[k] == name);
        assert(next[k] == name);
    } else {
        match items[i] {
            Item::Impl { self_ty, items: its, .. } => {
                let j = choose|j: int| 0 <= j < its@.len() && (#[trigger] its@[j] matches ImplItem::Fn(f) && f.sig.ident@ == name);
                lemma_impl_fn_names_complete(its@, j);
                let prev = spec_impl_methods(module, prev_items, key);
                let names = impl_fn_names(its@);
                let k = choose|k: int| 0 <= k < names.len() && names[k] == name;
                assert((prev + names)[prev.len() + k] == name);
            },
            _ => {},
        }
    }
}

pub open spec fn named_field_attrs(fs: Seq<Field>) -> Seq<(Seq<char>, Seq<char>, Seq<char>)>
    decreases fs.len(),
{
    if fs.len() == 0 {
        Seq::empty()
    } else {
        let r = named_field_attrs(fs.drop_last());
        match fs.last().ident {
            Some(n) => r.push((n@, spec_field_type(fs.last().ty), spec_visibility_label(fs.last().vis))),
            None => r,
        }
    }
}

/// Tuple fields are called `_0`, `_1`, ...
pub open spec fn unnamed_field_attrs(fs: Seq<Field>) -> Seq<(Seq<char>, Seq<char>, Seq<char>)> {
    Seq::new(fs.len(), |i: int| ("_"@ + spec_decimal(i as nat), spec_field_type(fs[i].ty), spec_visibility_label(fs[i].vis)))
}

pub open spec fn spec_struct_fields(fields: Fields) -> Seq<(Seq<char>, Seq<char>, Seq<char>)> {
    match fields {
        Fields::Named(v) => named_field_attrs(v@),
        Fields::Unnamed(v) => unnamed_field_attrs(v@),
        Fields::Unit => Seq::empty(),
    }
}

pub open spec fn field_type_texts(fs: Seq<Field>) -> Seq<Seq<char>> {
    fs.map_values(|f: Field| spec_field_type(f.ty))
}

/// The type of an enum variant: `{ T, U }`, `(T, U)` or `()`.
pub open spec fn spec_variant_type(fields: Fields) -> Seq<char> {
    match fields {
        Fields::Named(v) => "{ "@ + spec_join(field_type_texts(v@), ", "@) + " }"@,
        Fields::Unnamed(v) => "("@ + spec_join(field_type_texts(v@), ", "@) + ")"@,
        Fields::Unit => "()"@,
    }
}

pub open spec fn variant_attrs(vs: Seq<Variant>) -> Seq<(Seq<char>, Seq<char>, Seq<char>)> {
    vs.map_values(|v: Variant| (v.ident@, spec_variant_type(v.fields), "VARIANT"@))
}

pub open spec fn trait_item_attrs(items: Seq<TraitItem>) -> Seq<(Seq<char>, Seq<char>, Seq<char>)>
    decreases items.len(),
{
    if items.len() == 0 {
        Seq::empty()
    } else {
        let r = trait_item_attrs(items.drop_last());
        match items.last() {
            TraitItem::Fn { sig, .. } => r.push((sig.ident@, spec_trait_method_signature(sig), "TRAIT_METHOD"@)),
            TraitItem::Type { ident } => r.push((ident@, "AssociatedType"@, "ASSOCIATED_TYPE"@)),
            TraitItem::Const { ident, ty } => r.push((ident@, spec_field_type(ty), "TRAIT_CONST"@)),
            TraitItem::Other => r,
        }
    }
}

pub open spec fn trait_method_names(items: Seq<TraitItem>) -> Seq<Seq<char>>
    decreases items.len(),
{
    if items.len() == 0 {
        Seq::empty()
    } else {
        match items.last() {
            TraitItem::Fn { sig, .. } => trait_method_names(items.drop_last()).push(sig.ident@),
            _ => trait_method_names(items.drop_last()),
        }
    }
}

/// The line of a type's name, 1 when its span gives none.
pub open spec fn spec_begin_line(l: u32) -> u32 {
    if l > 0 {
        l
    } else {
        1
    }
}

/// The record of a type item; `all` are the file's items, whose `impl`
/// blocks give the methods.
pub open spec fn spec_type_records(module: Seq<char>, item: Item, all: Seq<Item>, filename: Seq<char>) -> Seq<StructRecord> {
    match item {
        Item::Struct { ident, ident_line, fields, .. } => seq![
            StructRecord {
                name: ident@,
                fullname: module + "::"@ + ident@,
                filename,
                begin_line: spec_begin_line(ident_line),
                methods: spec_impl_methods(module, all, module + "::"@ + ident@),
                attributes: spec_struct_fields(fields),
            },
        ],
        Item::Enum { ident, ident_line, variants, .. } => seq![
            StructRecord {
                name: ident@,
                fullname: module + "::"@ + ident@,
                filename,
                begin_line: spec_begin_line(ident_line),
                methods: spec_impl_methods(module, all, module + "::"@ + ident@),
                attributes: variant_attrs(variants@),
            },
        ],
        Item::Trait { ident, ident_line, items, .. } => seq![
            StructRecord {
                name: ident@,
                fullname: module + "::"@ + ident@,
                filename,
                begin_line: spec_begin_line(ident_line),
                methods: trait_method_names(items@),
                attributes: trait_item_attrs(items@),
            },
        ],
        Item::Union { ident, ident_line, fields } => seq![
            StructRecord {
                name: ident@,
                fullname: module + "::"@ + ident@,
                filename,
                begin_line: spec_begin_line(ident_line),
                methods: spec_impl_methods(module, all, module + "::"@ + ident@),
                attributes: named_field_attrs(fields@),
            },
        ],
        _ => Seq::empty(),
    }
}

pub open spec fn spec_type_file_records(
    module: Seq<char>,
    items: Seq<Item>,
    all: Seq<Item>,
    filename: Seq<char>,
) -> Seq<StructRecord>
    decreases items.len(),
{
    if items.len() == 0 {
        Seq::empty()
    } else {
        spec_type_file_records(module, items.drop_last(), all, filename) + spec_type_records(
            module,
            items.last(),
            all,
            filename,
        )
    }
}

pub open spec fn struct_records_of(v: Seq<StructOutput>) -> Seq<StructRecord> {
    v.map_values(|s: StructOutput| s@)
}

pub open spec fn attr_view(a: AttributeInfo) -> (Seq<char>, Seq<char>, Seq<char>) {
    (a.name@, a.attr_type@, a.modifier@)
}

pub open spec fn attrs_view(v: Seq<AttributeInfo>) -> Seq<(Seq<char>, Seq<char>, Seq<char>)> {
    v.map_values(|a: AttributeInfo| (a.name@, a.attr_type@, a.modifier@))
}

proof fn lemma_attrs_push(v: Seq<AttributeInfo>, a: AttributeInfo)
    ensures
        attrs_view(v.push(a)) == attrs_view(v).push(attr_view(a)),
{
    assert(attrs_view(v.push(a)) =~= attrs_view(v).push(attr_view(a)));
}

/// Reads the structs, enums, traits and unions of source files.
pub struct TypeAnalyzer {
    current_module: String,
    type_implementations: StringMap<Vec<String>>,
    source_content: String,
}

impl TypeAnalyzer {
    pub closed spec fn wf(&self) -> bool {
        self.type_implementations.wf()
    }

    pub closed spec fn spec_current_module(&self) -> Seq<char> {
        self.current_module@
    }

    pub closed spec fn spec_source_content(&self) -> Seq<char> {
        self.source_content@
    }

    /// The methods recorded for the type with full name `k`.
    pub closed spec fn impl_methods_of(&self, k: Seq<char>) -> Seq<Seq<char>> {
        match self.type_implementations.lookup(k) {
            Some(v) => string_views(v@),
            None => Seq::empty(),
        }
    }

    /// An analyzer with no module or source yet.
    pub fn new() -> (res: Self)
        ensures
            res.wf(),
            res.spec_current_module() == Seq::<char>::empty(),
            res.spec_source_content() == Seq::<char>::empty(),
            forall|k: Seq<char>| #[trigger] res.impl_methods_of(k) == Seq::<Seq<char>>::empty(),
    {
        TypeAnalyzer {
            current_module: String::new(),
            type_implementations: StringMap::new(),
            source_content: String::new(),
        }
    }

    /// A file's path relative to `project_root` (the directory holding
    /// `Cargo.toml` that the caller found), or as given.
    pub fn get_relative_path(&self, file_path: &str, project_root: &Option<String>) -> (res: String)
        ensures
            res@ == spec_relative_path(file_path@, opt_string(*project_root)),
    {
        relative_path(file_path, project_root)
    }

    /// A type as text for type records.
    pub fn type_to_string(&self, ty: &SynType) -> (res: String)
        ensures
            res@ == spec_field_type(*ty),
        decreases ty,
    {
        proof {
            reveal_strlit("&");
            reveal_strlit("&mut ");
            reveal_strlit("mut ");
            reveal_strlit("");
            reveal_strlit("*");
            reveal_strlit("*mut ");
            reveal_strlit("*const ");
            reveal_strlit("const ");
        }
        match ty {
            SynType::Path(p) => {
                let mut parts: Vec<String> = Vec::new();
                let mut i: usize = 0;
                let ghost segs = p.segments@.map_values(|s: PathSegment| segment_text(s));
                while i < p.segments.len()
                    invariant
                        i <= p.segments.len(),
                        segs == p.segments@.map_values(|s: PathSegment| segment_text(s)),
                        string_views(parts@) == segs.take(i as int),
                    decreases p.segments.len() - i,
                {
                    let seg = &p.segments[i];
                    let empty = match &seg.arguments {
                        PathArguments::NoArgs => true,
                        PathArguments::AngleBracketed(v) => v.len() == 0,
                        PathArguments::Parenthesized => false,
                    };
                    let t = if empty {
                        seg.ident.clone()
                    } else {
                        concat(seg.ident.as_str(), "<...>")
                    };
                    let ghost before = parts@;
                    parts.push(t);
                    proof {
                        lemma_string_views_push(before, parts@.last());
                        assert(segs.take(i + 1) =~= segs.take(i as int).push(segment_text(*seg)));
                    }
                    i = i + 1;
                }
                proof {
                    assert(segs.take(p.segments@.len() as int) =~= segs);
                }
                join(&parts, "::")
            },
            SynType::Reference { mutable, elem, .. } => {
                let inner = self.type_to_string(elem);
                if *mutable {
                    let r = concat("&mut ", inner.as_str());
                    assert(r@ =~= "&"@ + "mut "@ + inner@);
                    r
                } else {
                    let r = concat("&", inner.as_str());
                    assert(r@ =~= "&"@ + ""@ + inner@);
                    r
                }
            },
            SynType::Tuple(es) => {
                let mut parts: Vec<String> = Vec::new();
                let mut i: usize = 0;
                while i < es.len()
                    invariant
                        i <= es.len(),
                        *ty == SynType::Tuple(*es),
                        string_views(parts@) == spec_field_types(es@.take(i as int)),
                    decreases es.len() - i,
                {
                    proof {
                        let tv = *ty;
                        let ev = *es;
                        assert(tv == SynType::Tuple(ev));
                        assert(decreases_to!(tv => tv->Tuple_0));
                        assert(decreases_to!(ev => ev@));
                        assert(decreases_to!(ev@ => ev@[i as int]));
                    }
                    let t = self.type_to_string(&es[i]);
                    let ghost before = parts@;
                    parts.push(t);
                    proof {
                        lemma_string_views_push(before, parts@.last());
                        assert(es@.take(i + 1).drop_last() =~= es@.take(i as int));
                        assert(es@.take(i + 1).last() == es@[i as int]);
                    }
                    i = i + 1;
                }
                proof {
                    assert(es@.take(es@.len() as int) =~= es@);
                }
                let j = join(&parts, ", ");
                concat3("(", j.as_str(), ")")
            },
            SynType::Array { elem, .. } => {
                let inner = self.type_to_string(elem);
                concat3("[", inner.as_str(), "; _]")
            },
            SynType::Slice(elem) => {
                let inner = self.type_to_string(elem);
                concat3("[", inner.as_str(), "]")
            },
            SynType::Ptr { mutable, elem } => {
                let inner = self.type_to_string(elem);
                if *mutable {
                    let r = concat("*mut ", inner.as_str());
                    assert(r@ =~= "*"@ + "mut "@ + inner@);
                    r
                } else {
                    let r = concat("*const ", inner.as_str());
                    assert(r@ =~= "*"@ + "const "@ + inner@);
                    r
                }
            },
            _ => to_string("unknown"),
        }
    }

    /// The type an `impl` block is for.
    pub fn extract_impl_target_type(&self, ty: &SynType) -> (res: String)
        ensures
            res@ == spec_impl_target(*ty),
    {
        match ty {
            SynType::Path(p) => {
                let mut parts: Vec<String> = Vec::new();
                let mut i: usize = 0;
                let ghost ids = p.segments@.map_values(|s: PathSegment| s.ident@);
                while i < p.segments.len()
                    invariant
                        i <= p.segments.len(),
                        ids == p.segments@.map_values(|s: PathSegment| s.ident@),
                        string_views(parts@) == ids.take(i as int),
                    decreases p.segments.len() - i,
                {
                    let ghost before = parts@;
                    parts.push(p.segments[i].ident.clone());
                    proof {
                        lemma_string_views_push(before, parts@.last());
                        assert(ids.take(i + 1) =~= ids.take(i as int).push(p.segments@[i as int].ident@));
                    }
                    i = i + 1;
                }
                proof {
                    assert(ids.take(p.segments@.len() as int) =~= ids);
                }
                join(&parts, "::")
            },
            _ => to_string("Unknown"),
        }
    }

    /// `ret name(arg, arg)` for a trait's method.
    pub fn generate_trait_method_signature(&self, sig: &Signature) -> (res: String)
        ensures
            res@ == spec_trait_method_signature(*sig),
    {
        let ret = match &sig.output {
            None => to_string("()"),
            Some(t) => self.type_to_string(t),
        };
        let ghost args = sig.inputs@.map_values(|a: FnArg| spec_trait_arg_text(a));
        let mut params: Vec<String> = Vec::new();
        let mut i: usize = 0;
        while i < sig.inputs.len()
            invariant
                i <= sig.inputs.len(),
                args == sig.inputs@.map_values(|a: FnArg| spec_trait_arg_text(a)),
                string_views(params@) == args.take(i as int),
            decreases sig.inputs.len() - i,
        {
            let t = match &sig.inputs[i] {
                FnArg::Receiver { .. } => to_string("self"),
                FnArg::Typed { ty, .. } => self.type_to_string(ty),
            };
            let ghost before = params@;
            params.push(t);
            proof {
                lemma_string_views_push(before, params@.last());
                assert(args.take(i + 1) =~= args.take(i as int).push(spec_trait_arg_text(sig.inputs@[i as int])));
            }
            i = i + 1;
        }
        proof {
            assert(args.take(sig.inputs@.len() as int) =~= args);
        }
        let joined = join(&params, ", ");
        let head = concat3(ret.as_str(), " ", sig.ident.as_str());
        let open_paren = concat3(head.as_str(), "(", joined.as_str());
        concat(open_paren.as_str(), ")")
    }

    /// `<A, 'a, N>` for generic parameters, nothing when there are none.
    pub fn extract_generics(&self, generics: &Vec<GenericParam>) -> (res: String)
        ensures
            res@ == spec_generics_text(generics@),
    {
        if generics.len() == 0 {
            return String::new();
        }
        let ghost texts = generics@.map_values(|g: GenericParam| generic_param_text(g));
        let mut parts: Vec<String> = Vec::new();
        let mut i: usize = 0;
        while i < generics.len()
            invariant
                i <= generics.len(),
                texts == generics@.map_values(|g: GenericParam| generic_param_text(g)),
                string_views(parts@) == texts.take(i as int),
            decreases generics.len() - i,
        {
            let t = match &generics[i] {
                GenericParam::Type { ident } => ident.clone(),
                GenericParam::Lifetime { text, .. } => text.clone(),
                GenericParam::Const { ident, .. } => ident.clone(),
            };
            let ghost before = parts@;
            parts.push(t);
            proof {
                lemma_string_views_push(before, parts@.last());
                assert(texts.take(i + 1) =~= texts.take(i as int).push(generic_param_text(generics@[i as int])));
            }
            i = i + 1;
        }
        proof {
            assert(texts.take(generics@.len() as int) =~= texts);
        }
        let joined = join(&parts, ", ");
        concat3("<", joined.as_str(), ">")
    }

    /// The line of a type's name, 1 when its span gives none.
    pub fn extract_line_number_from_span(&self, line: u32) -> (res: u32)
        ensures
            res == spec_begin_line(line),
    {
        if line > 0 {
            line
        } else {
            1
        }
    }
}

impl TypeAnalyzer {
    /// The named fields (those with a name) as attributes: name, type,
    /// visibility.
    fn named_fields(&self, fs: &Vec<Field>) -> (res: Vec<AttributeInfo>)
        ensures
            attrs_view(res@) == named_field_attrs(fs@),
    {
        let mut out: Vec<AttributeInfo> = Vec::new();
        let mut i: usize = 0;
        while i < fs.len()
            invariant
                i <= fs.len(),
                attrs_view(out@) == named_field_attrs(fs@.take(i as int)),
            decreases fs.len() - i,
        {
            proof {
                assert(fs@.take(i + 1).drop_last() =~= fs@.take(i as int));
                assert(fs@.take(i + 1).last() == fs@[i as int]);
            }
            let f = &fs[i];
            match &f.ident {
                Some(n) => {
                    let a = AttributeInfo {
                        name: n.clone(),
                        attr_type: self.type_to_string(&f.ty),
                        modifier: normalize_visibility(&f.vis),
                    };
                    let ghost before = out@;
                    out.push(a);
                    proof {
                        lemma_attrs_push(before, a);
                    }
                },
                None => {},
            }
            i = i + 1;
        }
        proof {
            assert(fs@.take(fs@.len() as int) =~= fs@);
        }
        out
    }

    /// The fields of a struct as attributes; tuple fields are called `_0`,
    /// `_1`, ...
    pub fn extract_struct_fields(&self, fields: &Fields) -> (res: Result<Vec<AttributeInfo>, AnalyzerError>)
        ensures
            res matches Ok(v) && attrs_view(v@) == spec_struct_fields(*fields),
    {
        match fields {
            Fields::Named(fs) => Ok(self.named_fields(fs)),
            Fields::Unnamed(fs) => {
                let mut out: Vec<AttributeInfo> = Vec::new();
                let mut i: usize = 0;
                while i < fs.len()
                    invariant
                        i <= fs.len(),
                        attrs_view(out@) == unnamed_field_attrs(fs@).take(i as int),
                    decreases fs.len() - i,
                {
                    let f = &fs[i];
                    let a = AttributeInfo {
                        name: concat("_", decimal(i as u64).as_str()),
                        attr_type: self.type_to_string(&f.ty),
                        modifier: normalize_visibility(&f.vis),
                    };
                    let ghost before = out@;
                    out.push(a);
                    proof {
                        lemma_attrs_push(before, a);
                        assert(unnamed_field_attrs(fs@).take(i + 1) =~= unnamed_field_attrs(fs@).take(i as int).push(
                            attr_view(a),
                        ));
                    }
                    i = i + 1;
                }
                proof {
                    assert(unnamed_field_attrs(fs@).take(fs@.len() as int) =~= unnamed_field_attrs(fs@));
                }
                Ok(out)
            },
            Fields::Unit => {
                let out: Vec<AttributeInfo> = Vec::new();
                proof {
                    assert(attrs_view(out@) =~= Seq::<(Seq<char>, Seq<char>, Seq<char>)>::empty());
                }
                Ok(out)
            },
        }
    }

    fn field_types_joined(&self, fs: &Vec<Field>) -> (res: String)
        ensures
            res@ == spec_join(field_type_texts(fs@), ", "@),
    {
        let mut parts: Vec<String> = Vec::new();
        let mut i: usize = 0;
        while i < fs.len()
            invariant
                i <= fs.len(),
                string_views(parts@) == field_type_texts(fs@).take(i as int),
            decreases fs.len() - i,
        {
            let ghost before = parts@;
            parts.push(self.type_to_string(&fs[i].ty));
            proof {
                lemma_string_views_push(before, parts@.last());
                assert(field_type_texts(fs@).take(i + 1) =~= field_type_texts(fs@).take(i as int).push(
                    spec_field_type(fs@[i as int].ty),
                ));
            }
            i = i + 1;
        }
        proof {
            assert(field_type_texts(fs@).take(fs@.len() as int) =~= field_type_texts(fs@));
        }
        join(&parts, ", ")
    }

    /// The type of an enum variant: `{ T, U }`, `(T, U)` or `()`.
    pub fn variant_type(&self, fields: &Fields) -> (res: String)
        ensures
            res@ == spec_variant_type(*fields),
    {
        match fields {
            Fields::Named(fs) => {
                let j = self.field_types_joined(fs);
                concat3("{ ", j.as_str(), " }")
            },
            Fields::Unnamed(fs) => {
                let j = self.field_types_joined(fs);
                concat3("(", j.as_str(), ")")
            },
            Fields::Unit => to_string("()"),
        }
    }

    /// Records, for each type of the module, the methods that the file's
    /// `impl` blocks give it, in place of what was recorded.
    pub fn collect_implementations(&mut self, parsed_file: &SourceFile)
        requires
            old(self).wf(),
        ensures
            final(self).wf(),
            forall|k: Seq<char>| #[trigger] final(self).impl_methods_of(k) == spec_impl_methods(
                old(self).spec_current_module(),
                parsed_file.items@,
                k,
            ),
            final(self).spec_current_module() == old(self).spec_current_module(),
            final(self).spec_source_content() == old(self).spec_source_content(),
    {
        self.type_implementations = StringMap::new();
        let ghost module = self.spec_current_module();
        let items = &parsed_file.items;
        let mut i: usize = 0;
        proof {
            assert forall|k: Seq<char>| #[trigger] self.impl_methods_of(k) == spec_impl_methods(module, items@.take(0), k) by {
                assert(items@.take(0) =~= Seq::<Item>::empty());
            }
        }
        while i < items.len()
            invariant
                i <= items.len(),
                self.wf(),
                module == self.spec_current_module(),
                module == old(self).spec_current_module(),
                self.spec_source_content() == old(self).spec_source_content(),
                items == &parsed_file.items,
                forall|k: Seq<char>| #[trigger] self.impl_methods_of(k) == spec_impl_methods(module, items@.take(i as int), k),
            decreases items.len() - i,
        {
            proof {
                assert(items@.take(i + 1).drop_last() =~= items@.take(i as int));
                assert(items@.take(i + 1).last() == items@[i as int]);
            }
            match &items[i] {
                Item::Impl { self_ty, items: impl_items, .. } => {
                    let target = self.extract_impl_target_type(self_ty);
                    let full = generate_id(self.current_module.as_str(), target.as_str());
                    let mut methods: Vec<String> = match self.type_implementations.get(full.as_str()) {
                        Some(v) => copy_strings(v),
                        None => Vec::new(),
                    };
                    let ghost start = string_views(methods@);
                    let mut k: usize = 0;
                    proof {
                        assert(impl_fn_names(impl_items@.take(0)) =~= Seq::<Seq<char>>::empty());
                        assert(start + Seq::<Seq<char>>::empty() =~= start);
                    }
                    while k < impl_items.len()
                        invariant
                            k <= impl_items.len(),
                            string_views(methods@) == start + impl_fn_names(impl_items@.take(k as int)),
                        decreases impl_items.len() - k,
                    {
                        proof {
                            assert(impl_items@.take(k + 1).drop_last() =~= impl_items@.take(k as int));
                            assert(impl_items@.take(k + 1).last() == impl_items@[k as int]);
                        }
                        match &impl_items[k] {
                            ImplItem::Fn(f) => {
                                let ghost before = methods@;
                                methods.push(f.sig.ident.clone());
                                proof {
                                    lemma_string_views_push(before, methods@.last());
                                }
                            },
                            ImplItem::Other => {},
                        }
                        k = k + 1;
                    }
                    proof {
                        assert(impl_items@.take(impl_items@.len() as int) =~= impl_items@);
                    }
                    let ghost before_map = *self;
                    self.type_implementations.insert(full, methods);
                    proof {
                        assert forall|key: Seq<char>| #[trigger] self.impl_methods_of(key) == spec_impl_methods(
                            module,
                            items@.take(i + 1),
                            key,
                        ) by {
                            assert(before_map.impl_methods_of(key) == spec_impl_methods(module, items@.take(i as int), key));
                        }
                    }
                },
                _ => {
                    proof {
                        assert forall|key: Seq<char>| #[trigger] self.impl_methods_of(key) == spec_impl_methods(
                            module,
                            items@.take(i + 1),
                            key,
                        ) by {
                            assert(self.impl_methods_of(key) == spec_impl_methods(module, items@.take(i as int), key));
                        }
                    }
                },
            }
            i = i + 1;
        }
        proof {
            assert(items@.take(items@.len() as int) =~= items@);
        }
    }

    /// A copy of the methods recorded for the type with full name `full`.
    fn methods_of(&self, full: &str) -> (res: Vec<String>)
        requires
            self.wf(),
        ensures
            string_views(res@) == self.impl_methods_of(full@),
    {
        match self.type_implementations.get(full) {
            Some(v) => copy_strings(v),
            None => {
                let v: Vec<String> = Vec::new();
                assert(string_views(v@) =~= Seq::<Seq<char>>::empty());
                v
            },
        }
    }
}

pub open spec fn record_of(name: Seq<char>, module: Seq<char>, filename: Seq<char>, line: u32, methods: Seq<Seq<char>>, attrs: Seq<(Seq<char>, Seq<char>, Seq<char>)>) -> StructRecord {
    StructRecord {
        name,
        fullname: module + "::"@ + name,
        filename,
        begin_line: spec_begin_line(line),
        methods,
        attributes: attrs,
    }
}

impl TypeAnalyzer {
    fn make_record(
        &self,
        ident: &String,
        line: u32,
        methods: Vec<String>,
        attributes: Vec<AttributeInfo>,
        file_path: &str,
        cwd_project_root: &Option<String>,
    ) -> (res: StructOutput)
        ensures
            res@ == record_of(
                ident@,
                self.spec_current_module(),
                spec_relative_path(file_path@, opt_string(*cwd_project_root)),
                line,
                string_views(methods@),
                attrs_view(attributes@),
            ),
    {
        let full_name = generate_id(self.current_module.as_str(), ident.as_str());
        let filename = self.get_relative_path(file_path, cwd_project_root);
        let begin_line = self.extract_line_number_from_span(line);
        let r = StructOutput {
            name: ident.clone(),
            fullname: full_name,
            filename,
            begin_line,
            methods,
            attributes,
        };
        proof {
            assert(r.methods@.map_values(|m: String| m@) =~= string_views(r.methods@));
            assert(r.attributes@.map_values(|a: AttributeInfo| (a.name@, a.attr_type@, a.modifier@)) =~= attrs_view(
                r.attributes@,
            ));
        }
        r
    }

    /// The record of a struct: its fields and the methods its `impl` blocks give.
    pub fn analyze_struct(
        &self,
        ident: &String,
        ident_line: u32,
        fields: &Fields,
        file_path: &str,
        cwd_project_root: &Option<String>,
    ) -> (res: Result<StructOutput, AnalyzerError>)
        requires
            self.wf(),
        ensures
            res matches Ok(r) && r@ == record_of(
                ident@,
                self.spec_current_module(),
                spec_relative_path(file_path@, opt_string(*cwd_project_root)),
                ident_line,
                self.impl_methods_of(self.spec_current_module() + "::"@ + ident@),
                spec_struct_fields(*fields),
            ),
    {
        let attributes = match self.extract_struct_fields(fields) {
            Ok(a) => a,
            Err(e) => {
                return Err(e);
            },
        };
        let full_name = generate_id(self.current_module.as_str(), ident.as_str());
        let methods = self.methods_of(full_name.as_str());
        Ok(self.make_record(ident, ident_line, methods, attributes, file_path, cwd_project_root))
    }

    /// The record of an enum: its variants and the methods its `impl` blocks give.
    pub fn analyze_enum(
        &self,
        ident: &String,
        ident_line: u32,
        variants: &Vec<Variant>,
        file_path: &str,
        cwd_project_root: &Option<String>,
    ) -> (res: Result<StructOutput, AnalyzerError>)
        requires
            self.wf(),
        ensures
            res matches Ok(r) && r@ == record_of(
                ident@,
                self.spec_current_module(),
                spec_relative_path(file_path@, opt_string(*cwd_project_root)),
                ident_line,
                self.impl_methods_of(self.spec_current_module() + "::"@ + ident@),
                variant_attrs(variants@),
            ),
    {
        let mut attributes: Vec<AttributeInfo> = Vec::new();
        let mut i: usize = 0;
        while i < variants.len()
            invariant
                i <= variants.len(),
                attrs_view(attributes@) == variant_attrs(variants@).take(i as int),
            decreases variants.len() - i,
        {
            let v = &variants[i];
            let a = AttributeInfo {
                name: v.ident.clone(),
                attr_type: self.variant_type(&v.fields),
                modifier: to_string("VARIANT"),
            };
            let ghost before = attributes@;
            attributes.push(a);
            proof {
                lemma_attrs_push(before, a);
                assert(variant_attrs(variants@).take(i + 1) =~= variant_attrs(variants@).take(i as int).push(
                    attr_view(a),
                ));
            }
            i = i + 1;
        }
        proof {
            assert(variant_attrs(variants@).take(variants@.len() as int) =~= variant_attrs(variants@));
        }
        let full_name = generate_id(self.current_module.as_str(), ident.as_str());
        let methods = self.methods_of(full_name.as_str());
        Ok(self.make_record(ident, ident_line, methods, attributes, file_path, cwd_project_root))
    }

    /// The record of a trait: its methods, and its methods, associated types
    /// and constants as attributes.
    pub fn analyze_trait(
        &self,
        ident: &String,
        ident_line: u32,
        items: &Vec<TraitItem>,
        file_path: &str,
        cwd_project_root: &Option<String>,
    ) -> (res: Result<StructOutput, AnalyzerError>)
        ensures
            res matches Ok(r) && r@ == record_of(
                ident@,
                self.spec_current_module(),
                spec_relative_path(file_path@, opt_string(*cwd_project_root)),
                ident_line,
                trait_method_names(items@),
                trait_item_attrs(items@),
            ),
    {
        let mut attributes: Vec<AttributeInfo> = Vec::new();
        let mut methods: Vec<String> = Vec::new();
        let mut i: usize = 0;
        while i < items.len()
            invariant
                i <= items.len(),
                attrs_view(attributes@) == trait_item_attrs(items@.take(i as int)),
                string_views(methods@) == trait_method_names(items@.take(i as int)),
            decreases items.len() - i,
        {
            proof {
                assert(items@.take(i + 1).drop_last() =~= items@.take(i as int));
                assert(items@.take(i + 1).last() == items@[i as int]);
            }
            let ghost before = attributes@;
            let ghost mbefore = methods@;
            match &items[i] {
                TraitItem::Fn { sig, .. } => {
                    methods.push(sig.ident.clone());
                    let a = AttributeInfo {
                        name: sig.ident.clone(),
                        attr_type: self.generate_trait_method_signature(sig),
                        modifier: to_string("TRAIT_METHOD"),
                    };
                    attributes.push(a);
                    proof {
                        lemma_attrs_push(before, a);
                        lemma_string_views_push(mbefore, methods@.last());
                    }
                },
                TraitItem::Type { ident: t } => {
                    let a = AttributeInfo {
                        name: t.clone(),
                        attr_type: to_string("AssociatedType"),
                        modifier: to_string("ASSOCIATED_TYPE"),
                    };
                    attributes.push(a);
                    proof {
                        lemma_attrs_push(before, a);
                    }
                },
                TraitItem::Const { ident: c, ty } => {
                    let a = AttributeInfo {
                        name: c.clone(),
                        attr_type: self.type_to_string(ty),
                        modifier: to_string("TRAIT_CONST"),
                    };
                    attributes.push(a);
                    proof {
                        lemma_attrs_push(before, a);
                    }
                },
                TraitItem::Other => {},
            }
            i = i + 1;
        }
        proof {
            assert(items@.take(items@.len() as int) =~= items@);
        }
        Ok(self.make_record(ident, ident_line, methods, attributes, file_path, cwd_project_root))
    }

    /// The record of a union: its named fields and the methods its `impl`
    /// blocks give.
    pub fn analyze_union(
        &self,
        ident: &String,
        ident_line: u32,
        fields: &Vec<Field>,
        file_path: &str,
        cwd_project_root: &Option<String>,
    ) -> (res: Result<StructOutput, AnalyzerError>)
        requires
            self.wf(),
        ensures
            res matches Ok(r) && r@ == record_of(
                ident@,
                self.spec_current_module(),
                spec_relative_path(file_path@, opt_string(*cwd_project_root)),
                ident_line,
                self.impl_methods_of(self.spec_current_module() + "::"@ + ident@),
                named_field_attrs(fields@),
            ),
    {
        let attributes = self.named_fields(fields);
        let full_name = generate_id(self.current_module.as_str(), ident.as_str());
        let methods = self.methods_of(full_name.as_str());
        Ok(self.make_record(ident, ident_line, methods, attributes, file_path, cwd_project_root))
    }

    /// The records of every struct, enum, trait and union of a parsed source
    /// file, in the order of the file; `source_content` is the file's text and
    /// `cwd_project_root` the directory holding `Cargo.toml` that the caller
    /// found.
    pub fn analyze_file(
        &mut self,
        file_path: &str,
        parsed_file: &SourceFile,
        project_root: &str,
        source_content: String,
        cwd_project_root: &Option<String>,
    ) -> (res: Result<Vec<StructOutput>, AnalyzerError>)
        requires
            old(self).wf(),
        ensures
            final(self).wf(),
            res matches Ok(v) && struct_records_of(v@) == spec_type_file_records(
                spec_module_path(file_path@, project_root@),
                parsed_file.items@,
                parsed_file.items@,
                spec_relative_path(file_path@, opt_string(*cwd_project_root)),
            ),
            final(self).spec_current_module() == spec_module_path(file_path@, project_root@),
            final(self).spec_source_content() == source_content@,
    {
        self.current_module = extract_module_path(file_path, project_root);
        self.source_content = source_content;
        self.collect_implementations(parsed_file);
        let ghost module = self.spec_current_module();
        let ghost filename = spec_relative_path(file_path@, opt_string(*cwd_project_root));
        let items = &parsed_file.items;
        let ghost all = items@;
        let mut types: Vec<StructOutput> = Vec::new();
        let mut i: usize = 0;
        proof {
            assert(items@.take(0) =~= Seq::<Item>::empty());
            assert(struct_records_of(types@) =~= Seq::<StructRecord>::empty());
        }
        while i < items.len()
            invariant
                i <= items.len(),
                self.wf(),
                module == self.spec_current_module(),
                module == spec_module_path(file_path@, project_root@),
                self.spec_source_content() == source_content@,
                filename == spec_relative_path(file_path@, opt_string(*cwd_project_root)),
                items == &parsed_file.items,
                all == items@,
                forall|k: Seq<char>| #[trigger] self.impl_methods_of(k) == spec_impl_methods(module, all, k),
                struct_records_of(types@) == spec_type_file_records(module, items@.take(i as int), all, filename),
            decreases items.len() - i,
        {
            proof {
                assert(items@.take(i + 1).drop_last() =~= items@.take(i as int));
                assert(items@.take(i + 1).last() == items@[i as int]);
            }
            let ghost before = struct_records_of(types@);
            let r = match &items[i] {
                Item::Struct { ident, ident_line, fields, .. } => Some(
                    self.analyze_struct(ident, *ident_line, fields, file_path, cwd_project_root),
                ),
                Item::Enum { ident, ident_line, variants, .. } => Some(
                    self.analyze_enum(ident, *ident_line, variants, file_path, cwd_project_root),
                ),
                Item::Trait { ident, ident_line, items: trait_items, .. } => Some(
                    self.analyze_trait(ident, *ident_line, trait_items, file_path, cwd_project_root),
                ),
                Item::Union { ident, ident_line, fields } => Some(
                    self.analyze_union(ident, *ident_line, fields, file_path, cwd_project_root),
                ),
                _ => None,
            };
            match r {
                Some(Ok(t)) => {
                    types.push(t);
                    proof {
                        assert(struct_records_of(types@) =~= before + seq![t@]);
                    }
                },
                _ => {
                    proof {
                        assert(before + Seq::<StructRecord>::empty() =~= before);
                    }
                },
            }
            i = i + 1;
        }
        proof {
            assert(items@.take(items@.len() as int) =~= items@);
        }
        Ok(types)
    }
}

} // verus!
