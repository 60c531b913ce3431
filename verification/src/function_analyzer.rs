//! Functions, methods, macros, constants and statics of a source file, with
//! their signatures, parameters, modifiers and the calls their bodies make.
use vstd::prelude::*;
use crate::error::AnalyzerError;
use crate::output::{MethodOutput, MethodRecord, ParameterInfo};
use crate::patterns::{regex_group1_all, spec_regex_group1_all, opt_string_seq_view};
use crate::syntax::{
    BodyEvent, Expr, FnArg, FnItem, ImplItem, Item, Pat, PathSegment, Signature, SourceFile,
    SynPath, SynType, TraitItem, Visibility,
};
use crate::text::{
    char_is_lowercase, char_is_uppercase, chars_of, concat, concat3, copy_strings, join, spec_ends_with,
    spec_is_lowercase, spec_is_uppercase, spec_join, spec_split, spec_starts_with, split_str,
    str_ends_with, str_eq, str_starts_with, string_views, to_string, lemma_string_views_push,
};
use crate::utils::{
    extract_module_path, is_prefix, normalize_visibility, spec_components, spec_module_path,
    spec_strip_prefix, spec_visibility_label, strip_prefix_components,
};

verus! {

// ---------------------------------------------------------------------------
// Paths and types as text
// ---------------------------------------------------------------------------

pub open spec fn segment_idents(p: SynPath) -> Seq<Seq<char>> {
    p.segments@.map_values(|s: PathSegment| s.ident@)
}

/// A path's identifiers joined by `::`.
pub open spec fn spec_path_text(p: SynPath) -> Seq<char> {
    spec_join(segment_idents(p), "::"@)
}

/// A type as text: paths by their identifiers, references, tuples, arrays
/// (with `_` for the length) and slices; `unknown` for anything else.
pub open spec fn spec_type_to_string(ty: SynType) -> Seq<char>
    decreases ty,
{
    match ty {
        SynType::Path(p) => spec_path_text(p),
        SynType::Reference { mutable, elem, .. } => "&"@ + (if mutable {
            "mut "@
        } else {
            ""@
        }) + spec_type_to_string(*elem),
        SynType::Tuple(es) => "("@ + spec_join(spec_type_strings(es@), ", "@) + ")"@,
        SynType::Array { elem, .. } => "["@ + spec_type_to_string(*elem) + "; _]"@,
        SynType::Slice(elem) => "["@ + spec_type_to_string(*elem) + "]"@,
        _ => "unknown"@,
    }
}

pub open spec fn spec_type_strings(ts: Seq<SynType>) -> Seq<Seq<char>>
    decreases ts,
{
    if ts.len() == 0 {
        Seq::empty()
    } else {
        spec_type_strings(ts.drop_last()).push(spec_type_to_string(ts.last()))
    }
}

fn path_text(p: &SynPath) -> (res: String)
    ensures
        res@ == spec_path_text(*p),
{
    let mut parts: Vec<String> = Vec::new();
    let mut i: usize = 0;
    while i < p.segments.len()
        invariant
            i <= p.segments.len(),
            string_views(parts@) == segment_idents(*p).take(i as int),
        decreases p.segments.len() - i,
    {
        let ghost before = parts@;
        parts.push(p.segments[i].ident.clone());
        proof {
            lemma_string_views_push(before, parts@.last());
            assert(segment_idents(*p).take(i + 1) =~= segment_idents(*p).take(i as int).push(
                p.segments@[i as int].ident@,
            ));
        }
        i = i + 1;
    }
    proof {
        assert(segment_idents(*p).take(p.segments@.len() as int) =~= segment_idents(*p));
    }
    join(&parts, "::")
}

/// The last identifier of a type's path, `Unknown` for other types.
pub open spec fn spec_type_name(ty: SynType) -> Seq<char> {
    match ty {
        SynType::Path(p) => if p.segments@.len() > 0 {
            p.segments@.last().ident@
        } else {
            "Unknown"@
        },
        _ => "Unknown"@,
    }
}

// ---------------------------------------------------------------------------
// Signatures
// ---------------------------------------------------------------------------

pub open spec fn spec_pattern_name(p: Pat) -> Seq<char>
    decreases p,
{
    match p {
        Pat::Ident { name, .. } => name@,
        Pat::Reference(inner) => spec_pattern_name(*inner),
        Pat::Type(inner) => spec_pattern_name(*inner),
        Pat::Other => "_"@,
    }
}

/// The named parameters (not `self`): name and type.
pub open spec fn spec_params(inputs: Seq<FnArg>) -> Seq<(Seq<char>, Seq<char>)>
    decreases inputs.len(),
{
    if inputs.len() == 0 {
        Seq::empty()
    } else {
        let r = spec_params(inputs.drop_last());
        match inputs.last() {
            FnArg::Typed { pat, ty } => r.push((spec_pattern_name(pat), spec_type_to_string(ty))),
            FnArg::Receiver { .. } => r,
        }
    }
}

pub open spec fn spec_arg_text(a: FnArg) -> Seq<char> {
    match a {
        FnArg::Receiver { .. } => "self"@,
        FnArg::Typed { ty, .. } => spec_type_to_string(ty),
    }
}

pub open spec fn spec_arg_texts(inputs: Seq<FnArg>) -> Seq<Seq<char>> {
    inputs.map_values(|a: FnArg| spec_arg_text(a))
}

pub open spec fn spec_return_type(output: Option<SynType>) -> Seq<char> {
    match output {
        None => "()"@,
        Some(t) => spec_type_to_string(t),
    }
}

/// `ret name(arg, arg)`, the name qualified by `impl_type` when given.
pub open spec fn spec_signature(sig: Signature, impl_type: Option<Seq<char>>) -> Seq<char> {
    let name = match impl_type {
        Some(t) => t + "::"@ + sig.ident@,
        None => sig.ident@,
    };
    spec_return_type(sig.output) + " "@ + name + "("@ + spec_join(spec_arg_texts(sig.inputs@), ", "@)
        + ")"@
}

/// The visibility, then `ASYNC`, `UNSAFE` and `EXTERN` where they apply,
/// joined by `_`.
pub open spec fn spec_modifiers(vis: Visibility, sig: Signature) -> Seq<char> {
    let a = seq![spec_visibility_label(vis)];
    let b = if sig.is_async {
        a.push("ASYNC"@)
    } else {
        a
    };
    let c = if sig.is_unsafe {
        b.push("UNSAFE"@)
    } else {
        b
    };
    let d = if sig.has_abi {
        c.push("EXTERN"@)
    } else {
        c
    };
    spec_join(d, "_"@)
}

/// The modifier of a function is its visibility label, followed by
/// `_ASYNC` exactly when it is async, then `_UNSAFE` exactly when it is
/// unsafe, then `_EXTERN` exactly when it has an ABI.
pub proof fn lemma_modifiers_flags(vis: Visibility, sig: Signature)
    ensures
        spec_modifiers(vis, sig) == spec_visibility_label(vis) + (if sig.is_async {
            "_ASYNC"@
        } else {
            Seq::<char>::empty()
        }) + (if sig.is_unsafe {
            "_UNSAFE"@
        } else {
            Seq::<char>::empty()
        }) + (if sig.has_abi {
            "_EXTERN"@
        } else {
            Seq::<char>::empty()
        }),
{
    reveal_strlit("_");
    reveal_strlit("ASYNC");
    reveal_strlit("UNSAFE");
    reveal_strlit("EXTERN");
    reveal_strlit("_ASYNC");
    reveal_strlit("_UNSAFE");
    reveal_strlit("_EXTERN");
    let l = spec_visibility_label(vis);
    let a = seq![l];
    let b = if sig.is_async { a.push("ASYNC"@) } else { a };
    let c = if sig.is_unsafe { b.push("UNSAFE"@) } else { b };
    let d = if sig.has_abi { c.push("EXTERN"@) } else { c };
    let ja = l;
    let jb = ja + (if sig.is_async { "_ASYNC"@ } else { Seq::<char>::empty() });
    let jc = jb + (if sig.is_unsafe { "_UNSAFE"@ } else { Seq::<char>::empty() });
    let jd = jc + (if sig.has_abi { "_EXTERN"@ } else { Seq::<char>::empty() });
    assert(spec_join(a, "_"@) == ja);
    if sig.is_async {
        assert(b.drop_last() =~= a);
        assert(jb =~= ja + "_"@ + "ASYNC"@);
    } else {
        assert(jb =~= ja);
    }
    assert(spec_join(b, "_"@) == jb);
    if sig.is_unsafe {
        assert(c.drop_last() =~= b);
        assert(jc =~= jb + "_"@ + "UNSAFE"@);
    } else {
        assert(jc =~= jb);
    }
    assert(spec_join(c, "_"@) == jc);
    if sig.has_abi {
        assert(d.drop_last() =~= c);
        assert(jd =~= jc + "_"@ + "EXTERN"@);
    } else {
        assert(jd =~= jc);
    }
    assert(spec_join(d, "_"@) == jd);
}

/// The lines of an item: those its span gives, or `(1, 1)` when it gives none.
pub open spec fn spec_line_numbers(start: u32, end: u32) -> (u32, u32) {
    if start > 0 && end > 0 {
        (start, end)
    } else {
        (1, 1)
    }
}

// ---------------------------------------------------------------------------
// Calls
// ---------------------------------------------------------------------------

/// A path as a function name: a single identifier that does not begin with
/// `crate::`, `std::`, `super::` or `self::` is qualified by the module.
pub open spec fn spec_resolve_path(module: Seq<char>, p: SynPath) -> Seq<char> {
    let segs = segment_idents(p);
    if segs.len() == 0 {
        Seq::empty()
    } else {
        let full = spec_join(segs, "::"@);
        if !spec_starts_with(full, "crate::"@) && !spec_starts_with(full, "std::"@)
            && !spec_starts_with(full, "super::"@) && !spec_starts_with(full, "self::"@)
            && segs.len() == 1 {
            module + "::"@ + full
        } else {
            full
        }
    }
}

/// A method call as `receiver::method` where the receiver is a path or a
/// named field, else the method's name.
pub open spec fn spec_resolve_method_call(module: Seq<char>, receiver: Expr, method: Seq<char>) -> Seq<char> {
    match receiver {
        Expr::Path(p) => {
            let r = spec_resolve_path(module, p);
            if r.len() > 0 {
                r + "::"@ + method
            } else {
                method
            }
        },
        Expr::Field { member: Some(m) } => m@ + "::"@ + method,
        _ => method,
    }
}

/// The last `::`-separated segment of a path.
pub open spec fn spec_last_path_segment(path: Seq<char>) -> Seq<char> {
    spec_split(path, "::"@).last()
}

/// A path that looks like a function: its last segment starts with a
/// lowercase letter or `_`, or is `new`, `default`, or ends in `_new` or
/// `_default`; and it is not all uppercase letters and underscores.
pub open spec fn spec_is_likely_function_reference(path: Seq<char>) -> bool {
    let last = spec_last_path_segment(path);
    let first = if last.len() > 0 {
        last[0]
    } else {
        'A'
    };
    let function_like = spec_is_lowercase(first) || spec_starts_with(last, "_"@) || last == "new"@
        || last == "default"@ || spec_ends_with(last, "_new"@) || spec_ends_with(last, "_default"@);
    let constant = forall|i: int| 0 <= i < last.len() ==> spec_is_uppercase(#[trigger] last[i]) || last[i] == '_';
    path.len() > 0 && function_like && !constant
}

/// The names one traversal event records.
pub open spec fn event_calls(module: Seq<char>, e: BodyEvent) -> Seq<Seq<char>> {
    match e {
        BodyEvent::Call { func, .. } => match func {
            Expr::Path(p) => {
                let r = spec_resolve_path(module, p);
                if r.len() > 0 {
                    seq![r]
                } else {
                    Seq::empty()
                }
            },
            Expr::Field { member: Some(m) } => seq![m@],
            _ => Seq::empty(),
        },
        BodyEvent::MethodCall { receiver, method, .. } => seq![spec_resolve_method_call(module, receiver, method@)],
        BodyEvent::PathExpr(p) => {
            let r = spec_resolve_path(module, p);
            if spec_is_likely_function_reference(r) {
                seq![r]
            } else {
                Seq::empty()
            }
        },
        BodyEvent::MacroExpr(p) => {
            let n = spec_path_text(p);
            if n.len() > 0 {
                seq![n + "!"@]
            } else {
                Seq::empty()
            }
        },
        _ => Seq::empty(),
    }
}

pub open spec fn body_calls(module: Seq<char>, evs: Seq<BodyEvent>) -> Seq<Seq<char>>
    decreases evs.len(),
{
    if evs.len() == 0 {
        Seq::empty()
    } else {
        body_calls(module, evs.drop_last()) + event_calls(module, evs.last())
    }
}

/// Each name once, in the order of first appearance.
pub open spec fn dedup(s: Seq<Seq<char>>) -> Seq<Seq<char>>
    decreases s.len(),
{
    if s.len() == 0 {
        Seq::empty()
    } else {
        let d = dedup(s.drop_last());
        if d.contains(s.last()) {
            d
        } else {
            d.push(s.last())
        }
    }
}

/// The calls a body makes, each once.
pub open spec fn spec_callees(module: Seq<char>, body: Seq<BodyEvent>) -> Seq<Seq<char>> {
    dedup(body_calls(module, body))
}

// ---------------------------------------------------------------------------
// Macro bodies
// ---------------------------------------------------------------------------

/// A name followed by `(`.
pub const CALL_PATTERN: &'static str = "\\b([a-zA-Z_][a-zA-Z0-9_]*)\\s*\\(";

/// A name followed by `!`.
pub const MACRO_PATTERN: &'static str = "\\b([a-zA-Z_][a-zA-Z0-9_]*)\\s*!";

/// The captured names that look like function references, in order; a match
/// without the group gives none.
pub open spec fn likely_names(s: Seq<Option<Seq<char>>>) -> Seq<Seq<char>>
    decreases s.len(),
{
    if s.len() == 0 {
        Seq::empty()
    } else {
        match s.last() {
            Some(n) => if spec_is_likely_function_reference(n) {
                likely_names(s.drop_last()).push(n)
            } else {
                likely_names(s.drop_last())
            },
            None => likely_names(s.drop_last()),
        }
    }
}

/// Each captured name with `!` after it, in order; a match without the group
/// gives none.
pub open spec fn bang_names(s: Seq<Option<Seq<char>>>) -> Seq<Seq<char>>
    decreases s.len(),
{
    if s.len() == 0 {
        Seq::empty()
    } else {
        match s.last() {
            Some(n) => bang_names(s.drop_last()).push(n + "!"@),
            None => bang_names(s.drop_last()),
        }
    }
}

/// The calls found in a macro's tokens: the function-like names followed by
/// `(`, then each name followed by `!` with the `!`; `None` when a pattern
/// does not compile.
pub open spec fn spec_macro_callees(tokens: Seq<char>) -> Option<Seq<Seq<char>>> {
    match spec_regex_group1_all(CALL_PATTERN@, tokens) {
        Some(calls) => match spec_regex_group1_all(MACRO_PATTERN@, tokens) {
            Some(macros) => Some(likely_names(calls) + bang_names(macros)),
            None => None,
        },
        None => None,
    }
}

// ---------------------------------------------------------------------------
// Records
// ---------------------------------------------------------------------------

pub open spec fn spec_function_record(
    module: Seq<char>,
    f: FnItem,
    impl_type: Option<Seq<char>>,
    filename: Seq<char>,
) -> MethodRecord {
    MethodRecord {
        name: f.sig.ident@,
        signature: spec_signature(f.sig, impl_type),
        begin_line: spec_line_numbers(f.start_line, f.end_line).0,
        end_line: spec_line_numbers(f.start_line, f.end_line).1,
        filename,
        modifier: spec_modifiers(f.vis, f.sig),
        params: spec_params(f.sig.inputs@),
        return_type: spec_return_type(f.sig.output),
        callees: spec_callees(module, f.body@),
    }
}

pub open spec fn spec_trait_method_record(
    module: Seq<char>,
    sig: Signature,
    default: Option<Vec<BodyEvent>>,
    start: u32,
    end: u32,
    trait_name: Seq<char>,
    filename: Seq<char>,
) -> MethodRecord {
    MethodRecord {
        name: sig.ident@,
        signature: spec_signature(sig, Some(trait_name)),
        begin_line: spec_line_numbers(start, end).0,
        end_line: spec_line_numbers(start, end).1,
        filename,
        modifier: "TRAIT_PRIVATE"@,
        params: spec_params(sig.inputs@),
        return_type: spec_return_type(sig.output),
        callees: match default {
            Some(b) => spec_callees(module, b@),
            None => Seq::empty(),
        },
    }
}

pub open spec fn spec_macro_name(ident: Option<String>) -> Seq<char> {
    match ident {
        Some(i) => i@,
        None => "anonymous_macro"@,
    }
}

pub open spec fn spec_const_record(
    module: Seq<char>,
    vis: Visibility,
    ident: Seq<char>,
    ty: SynType,
    body: Seq<BodyEvent>,
    start: u32,
    end: u32,
    filename: Seq<char>,
) -> MethodRecord {
    MethodRecord {
        name: ident,
        signature: "const "@ + ident + ": "@ + spec_type_to_string(ty),
        begin_line: spec_line_numbers(start, end).0,
        end_line: spec_line_numbers(start, end).1,
        filename,
        modifier: "CONST "@ + spec_visibility_label(vis),
        params: Seq::empty(),
        return_type: spec_type_to_string(ty),
        callees: spec_callees(module, body),
    }
}

pub open spec fn spec_static_record(
    module: Seq<char>,
    vis: Visibility,
    ident: Seq<char>,
    ty: SynType,
    mutable: bool,
    body: Seq<BodyEvent>,
    start: u32,
    end: u32,
    filename: Seq<char>,
) -> MethodRecord {
    MethodRecord {
        name: ident,
        signature: "static "@ + (if mutable {
            "mut "@
        } else {
            ""@
        }) + ident + ": "@ + spec_type_to_string(ty),
        begin_line: spec_line_numbers(start, end).0,
        end_line: spec_line_numbers(start, end).1,
        filename,
        modifier: "STATIC "@ + spec_visibility_label(vis) + (if mutable {
            " MUTABLE"@
        } else {
            ""@
        }),
        params: Seq::empty(),
        return_type: spec_type_to_string(ty),
        callees: spec_callees(module, body),
    }
}

pub open spec fn impl_records(
    module: Seq<char>,
    items: Seq<ImplItem>,
    self_type_name: Seq<char>,
    filename: Seq<char>,
) -> Seq<MethodRecord>
    decreases items.len(),
{
    if items.len() == 0 {
        Seq::empty()
    } else {
        let r = impl_records(module, items.drop_last(), self_type_name, filename);
        match items.last() {
            ImplItem::Fn(f) => r.push(spec_function_record(module, f, Some(self_type_name), filename)),
            ImplItem::Other => r,
        }
    }
}

pub open spec fn trait_records(
    module: Seq<char>,
    items: Seq<TraitItem>,
    trait_name: Seq<char>,
    filename: Seq<char>,
) -> Seq<MethodRecord>
    decreases items.len(),
{
    if items.len() == 0 {
        Seq::empty()
    } else {
        let r = trait_records(module, items.drop_last(), trait_name, filename);
        match items.last() {
            TraitItem::Fn { sig, default, start_line, end_line, .. } => r.push(
                spec_trait_method_record(module, sig, default, start_line, end_line, trait_name, filename),
            ),
            _ => r,
        }
    }
}

/// The records one item of a file gives.
pub open spec fn spec_item_records(module: Seq<char>, item: Item, filename: Seq<char>) -> Seq<MethodRecord> {
    match item {
        Item::Fn(f) => seq![spec_function_record(module, f, None, filename)],
        Item::Impl { self_ty, items, .. } => impl_records(module, items@, spec_type_name(self_ty), filename),
        Item::Trait { ident, items, .. } => trait_records(module, items@, ident@, filename),
        Item::Macro { ident, tokens, start_line, end_line, .. } => match spec_macro_callees(tokens@) {
            Some(cs) => seq![
                MethodRecord {
                    name: spec_macro_name(ident),
                    signature: "macro "@ + spec_macro_name(ident) + "!"@,
                    begin_line: spec_line_numbers(start_line, end_line).0,
                    end_line: spec_line_numbers(start_line, end_line).1,
                    filename,
                    modifier: "MACRO PUBLIC"@,
                    params: Seq::empty(),
                    return_type: "TokenStream"@,
                    callees: cs,
                },
            ],
            None => Seq::empty(),
        },
        Item::Const { vis, ident, ty, body, start_line, end_line } => seq![
            spec_const_record(module, vis, ident@, ty, body@, start_line, end_line, filename),
        ],
        Item::Static { vis, ident, ty, mutable, body, start_line, end_line } => seq![
            spec_static_record(module, vis, ident@, ty, mutable, body@, start_line, end_line, filename),
        ],
        _ => Seq::empty(),
    }
}

/// The records of a file's items, in order.
pub open spec fn spec_file_records(module: Seq<char>, items: Seq<Item>, filename: Seq<char>) -> Seq<MethodRecord>
    decreases items.len(),
{
    if items.len() == 0 {
        Seq::empty()
    } else {
        spec_file_records(module, items.drop_last(), filename) + spec_item_records(
            module,
            items.last(),
            filename,
        )
    }
}

pub open spec fn records_of(v: Seq<MethodOutput>) -> Seq<MethodRecord> {
    v.map_values(|m: MethodOutput| m@)
}

// ---------------------------------------------------------------------------
// Relative paths and line maps
// ---------------------------------------------------------------------------

/// A path relative to the project root where it lies below it (its
/// components joined by `/`), else the path as given.
pub open spec fn spec_relative_path(file: Seq<char>, root: Option<Seq<char>>) -> Seq<char> {
    match root {
        Some(r) => match spec_strip_prefix(file, r) {
            Some(c) => spec_join(c, "/"@),
            None => file,
        },
        None => file,
    }
}

/// The number of bytes of a character in UTF-8.
pub open spec fn utf8_len(c: char) -> nat {
    if (c as u32) < 0x80 {
        1
    } else if (c as u32) < 0x800 {
        2
    } else if (c as u32) < 0x10000 {
        3
    } else {
        4
    }
}

pub open spec fn byte_len(s: Seq<char>) -> nat
    decreases s.len(),
{
    if s.len() == 0 {
        0
    } else {
        byte_len(s.drop_last()) + utf8_len(s.last())
    }
}

pub open spec fn newline_count(s: Seq<char>) -> nat
    decreases s.len(),
{
    if s.len() == 0 {
        0
    } else {
        newline_count(s.drop_last()) + if s.last() == '\n' {
            1nat
        } else {
            0nat
        }
    }
}

/// The byte offset where each line starts, with its number, the first line
/// at offset 0.
pub open spec fn line_entries(s: Seq<char>) -> Seq<(int, int)>
    decreases s.len(),
{
    if s.len() == 0 {
        seq![(0int, 1int)]
    } else if s.last() == '\n' {
        line_entries(s.drop_last()).push((byte_len(s) as int, (newline_count(s) + 1) as int))
    } else {
        line_entries(s.drop_last())
    }
}

/// The line map of a text: the start of each line, and the end of the text
/// with the number of its last line.
pub open spec fn spec_line_map(s: Seq<char>) -> Seq<(int, int)> {
    let r = line_entries(s);
    if r.last().0 == byte_len(s) {
        r
    } else {
        r.push((byte_len(s) as int, (newline_count(s) + 1) as int))
    }
}

pub open spec fn map_view(v: Seq<(usize, u32)>) -> Seq<(int, int)> {
    v.map_values(|e: (usize, u32)| (e.0 as int, e.1 as int))
}

/// The line of the entry with the greatest positive offset not past
/// `offset`, 1 when there is none.
pub open spec fn spec_offset_line(m: Seq<(int, int)>, offset: int) -> (int, int)
    decreases m.len(),
{
    if m.len() == 0 {
        (0, 1)
    } else {
        let best = spec_offset_line(m.drop_last(), offset);
        if m.last().0 <= offset && m.last().0 > best.0 {
            m.last()
        } else {
            best
        }
    }
}

/// A file's path relative to `project_root` where it lies below it, else as given.
pub fn relative_path(file_path: &str, project_root: &Option<String>) -> (res: String)
    ensures
        res@ == spec_relative_path(file_path@, opt_string(*project_root)),
{
    match project_root {
        Some(r) => match strip_prefix_components(file_path, r.as_str()) {
            Some(c) => {
                let mut parts: Vec<String> = Vec::new();
                let mut i: usize = 0;
                while i < c.len()
                    invariant
                        i <= c.len(),
                        string_views(parts@) == crate::text::views(c@).take(i as int),
                    decreases c.len() - i,
                {
                    let ghost before = parts@;
                    parts.push(crate::text::string_of(c[i].as_slice()));
                    proof {
                        lemma_string_views_push(before, parts@.last());
                        assert(crate::text::views(c@).take(i + 1) =~= crate::text::views(c@).take(
                            i as int,
                        ).push(c@[i as int]@));
                    }
                    i = i + 1;
                }
                proof {
                    assert(crate::text::views(c@).take(c@.len() as int) =~= crate::text::views(c@));
                }
                join(&parts, "/")
            },
            None => to_string(file_path),
        },
        None => to_string(file_path),
    }
}

/// Reads the functions, methods, macros, constants and statics of source files.
pub struct FunctionAnalyzer {
    current_module: String,
    function_calls: Vec<String>,
    source_content: String,
    line_map: Vec<(usize, u32)>,
}

fn utf8_len_exec(c: char) -> (res: usize)
    ensures
        res == utf8_len(c),
{
    let v = c as u32;
    if v < 0x80 {
        1
    } else if v < 0x800 {
        2
    } else if v < 0x10000 {
        3
    } else {
        4
    }
}

impl FunctionAnalyzer {
    pub closed spec fn spec_current_module(&self) -> Seq<char> {
        self.current_module@
    }

    pub closed spec fn spec_function_calls(&self) -> Seq<Seq<char>> {
        string_views(self.function_calls@)
    }

    pub closed spec fn spec_source_content(&self) -> Seq<char> {
        self.source_content@
    }

    pub closed spec fn spec_line_map_view(&self) -> Seq<(int, int)> {
        map_view(self.line_map@)
    }

    /// An analyzer with no module, source or calls yet.
    pub fn new() -> (res: Self)
        ensures
            res.spec_current_module() == Seq::<char>::empty(),
            res.spec_function_calls() == Seq::<Seq<char>>::empty(),
            res.spec_source_content() == Seq::<char>::empty(),
            res.spec_line_map_view() == Seq::<(int, int)>::empty(),
    {
        let r = FunctionAnalyzer {
            current_module: String::new(),
            function_calls: Vec::new(),
            source_content: String::new(),
            line_map: Vec::new(),
        };
        proof {
            assert(string_views(r.function_calls@) =~= Seq::<Seq<char>>::empty());
            assert(map_view(r.line_map@) =~= Seq::<(int, int)>::empty());
        }
        r
    }

    /// The module of the file being analyzed.
    pub fn current_module(&self) -> (res: &String)
        ensures
            res@ == self.spec_current_module(),
    {
        &self.current_module
    }

    /// A file's path relative to `project_root` (the directory holding
    /// `Cargo.toml` that the caller found), or as given when there is none or
    /// the file lies elsewhere.
    pub fn get_relative_path(&self, file_path: &str, project_root: &Option<String>) -> (res: String)
        ensures
            res@ == spec_relative_path(file_path@, opt_string(*project_root)),
    {
        relative_path(file_path, project_root)
    }

    /// Records, for the source text held, where each line starts.
    pub fn build_line_map(&mut self)
        requires
            byte_len(old(self).spec_source_content()) <= usize::MAX,
            newline_count(old(self).spec_source_content()) < u32::MAX,
        ensures
            final(self).spec_line_map_view() == spec_line_map(old(self).spec_source_content()),
            final(self).spec_source_content() == old(self).spec_source_content(),
            final(self).spec_current_module() == old(self).spec_current_module(),
            final(self).spec_function_calls() == old(self).spec_function_calls(),
    {
        let cs = chars_of(self.source_content.as_str());
        let ghost s = cs@;
        let mut map: Vec<(usize, u32)> = Vec::new();
        map.push((0, 1));
        let mut line_number: u32 = 1;
        let mut byte_offset: usize = 0;
        let mut i: usize = 0;
        proof {
            assert(map_view(map@) =~= seq![(0int, 1int)]);
            assert(s.take(0) =~= Seq::<char>::empty());
        }
        while i < cs.len()
            invariant
                i <= cs.len(),
                s == cs@,
                byte_len(s) <= usize::MAX,
                newline_count(s) < u32::MAX,
                byte_offset == byte_len(s.take(i as int)),
                line_number == newline_count(s.take(i as int)) + 1,
                map_view(map@) == line_entries(s.take(i as int)),
            decreases cs.len() - i,
        {
            let c = cs[i];
            proof {
                assert(s.take(i + 1).drop_last() =~= s.take(i as int));
                assert(s.take(i + 1).last() == c);
                lemma_prefix_counts(s, i + 1);
            }
            let w = utf8_len_exec(c);
            byte_offset = byte_offset + w;
            if c == '\n' {
                line_number = line_number + 1;
                map.push((byte_offset, line_number));
                proof {
                    assert(map_view(map@) =~= line_entries(s.take(i + 1)));
                }
            }
            i = i + 1;
        }
        proof {
            assert(s.take(cs.len() as int) =~= s);
            lemma_line_entries_nonempty(s);
        }
        let n = map.len();
        let last = map[n - 1].0;
        proof {
            assert(map_view(map@).last() == (last as int, map@[n - 1].1 as int));
        }
        if last != byte_offset {
            map.push((byte_offset, line_number));
            proof {
                assert(map_view(map@) =~= spec_line_map(s));
            }
        }
        self.line_map = map;
    }

    /// The line of a byte offset of the source text held.
    pub fn byte_offset_to_line(&self, offset: usize) -> (res: u32)
        ensures
            res == spec_offset_line(self.spec_line_map_view(), offset as int).1,
    {
        let mut best_line: u32 = 1;
        let mut best_offset: usize = 0;
        let mut i: usize = 0;
        let ghost m = map_view(self.line_map@);
        while i < self.line_map.len()
            invariant
                i <= self.line_map.len(),
                m == map_view(self.line_map@),
                spec_offset_line(m.take(i as int), offset as int) == (best_offset as int, best_line as int),
            decreases self.line_map.len() - i,
        {
            let (map_offset, line) = self.line_map[i];
            proof {
                assert(m.take(i + 1).drop_last() =~= m.take(i as int));
                assert(m.take(i + 1).last() == (map_offset as int, line as int));
            }
            if map_offset <= offset && map_offset > best_offset {
                best_offset = map_offset;
                best_line = line;
            }
            i = i + 1;
        }
        proof {
            assert(m.take(self.line_map@.len() as int) =~= m);
        }
        best_line
    }
}

proof fn lemma_prefix_counts(s: Seq<char>, k: int)
    requires
        0 <= k <= s.len(),
    ensures
        byte_len(s.take(k)) <= byte_len(s),
        newline_count(s.take(k)) <= newline_count(s),
    decreases s.len() - k,
{
    if k < s.len() {
        lemma_prefix_counts(s, k + 1);
        assert(s.take(k + 1).drop_last() =~= s.take(k));
    } else {
        assert(s.take(k) =~= s);
    }
}

proof fn lemma_line_entries_nonempty(s: Seq<char>)
    ensures
        line_entries(s).len() > 0,
    decreases s.len(),
{
    if s.len() > 0 {
        lemma_line_entries_nonempty(s.drop_last());
    }
}


impl FunctionAnalyzer {
    /// A type as text.
    pub fn type_to_string(&self, ty: &SynType) -> (res: String)
        ensures
            res@ == spec_type_to_string(*ty),
        decreases ty,
    {
        proof {
            reveal_strlit("&");
            reveal_strlit("&mut ");
            reveal_strlit("mut ");
            reveal_strlit("");
            reveal_strlit("(");
            reveal_strlit(")");
            reveal_strlit("[");
            reveal_strlit("]");
            reveal_strlit("; _]");
        }
        match ty {
            SynType::Path(p) => {
                path_text(p)
            },
            SynType::Reference { mutable, elem, .. } => {
                let inner = self.type_to_string(elem);
                if *mutable {
                    let r = concat("&mut ", inner.as_str());
                    assert(r@ =~= "&"@ + "mut "@ + inner@);
                    r
                } else {
                    let r = concat("&", inner.as_str());
                    assert(r@ =~= "&"@ + ""@ + inner@);
                    r
                }
            },
            SynType::Tuple(es) => {
                let mut parts: Vec<String> = Vec::new();
                let mut i: usize = 0;
                while i < es.len()
                    invariant
                        i <= es.len(),
                        *ty == SynType::Tuple(*es),
                        string_views(parts@) == spec_type_strings(es@.take(i as int)),
                    decreases es.len() - i,
                {
                    proof {
                        let tv = *ty;
                        let ev = *es;
                        assert(tv == SynType::Tuple(ev));
                        assert(decreases_to!(tv => tv->Tuple_0));
                        assert(decreases_to!(ev => ev@));
                        assert(decreases_to!(ev@ => ev@[i as int]));
                    }
                    let t = self.type_to_string(&es[i]);
                    let ghost before = parts@;
                    parts.push(t);
                    proof {
                        lemma_string_views_push(before, parts@.last());
                        assert(es@.take(i + 1).drop_last() =~= es@.take(i as int));
                        assert(es@.take(i + 1).last() == es@[i as int]);
                    }
                    i = i + 1;
                }
                proof {
                    assert(es@.take(es@.len() as int) =~= es@);
                }
                let j = join(&parts, ", ");
                concat3("(", j.as_str(), ")")
            },
            SynType::Array { elem, .. } => {
                let inner = self.type_to_string(elem);
                concat3("[", inner.as_str(), "; _]")
            },
            SynType::Slice(elem) => {
                let inner = self.type_to_string(elem);
                concat3("[", inner.as_str(), "]")
            },
            _ => to_string("unknown"),
        }
    }

    /// The last identifier of a type's path, `Unknown` for other types.
    pub fn extract_type_name(&self, ty: &SynType) -> (res: String)
        ensures
            res@ == spec_type_name(*ty),
    {
        match ty {
            SynType::Path(p) => {
                if p.segments.len() > 0 {
                    p.segments[p.segments.len() - 1].ident.clone()
                } else {
                    to_string("Unknown")
                }
            },
            _ => to_string("Unknown"),
        }
    }

    /// The name a parameter pattern binds, `_` where it binds none.
    pub fn extract_pattern_name(&self, pat: &Pat) -> (res: String)
        ensures
            res@ == spec_pattern_name(*pat),
        decreases pat,
    {
        match pat {
            Pat::Ident { name, .. } => name.clone(),
            Pat::Reference(inner) => self.extract_pattern_name(inner),
            Pat::Type(inner) => self.extract_pattern_name(inner),
            Pat::Other => to_string("_"),
        }
    }

    /// The named parameters, `self` left out.
    pub fn extract_parameters(&self, inputs: &Vec<FnArg>) -> (res: Result<Vec<ParameterInfo>, AnalyzerError>)
        ensures
            res matches Ok(v) && v@.map_values(|p: ParameterInfo| (p.name@, p.param_type@)) == spec_params(inputs@),
    {
        let mut params: Vec<ParameterInfo> = Vec::new();
        let mut i: usize = 0;
        while i < inputs.len()
            invariant
                i <= inputs.len(),
                params@.map_values(|p: ParameterInfo| (p.name@, p.param_type@)) == spec_params(inputs@.take(i as int)),
            decreases inputs.len() - i,
        {
            proof {
                assert(inputs@.take(i + 1).drop_last() =~= inputs@.take(i as int));
                assert(inputs@.take(i + 1).last() == inputs@[i as int]);
            }
            match &inputs[i] {
                FnArg::Receiver { .. } => {},
                FnArg::Typed { pat, ty } => {
                    let name = self.extract_pattern_name(pat);
                    let param_type = self.type_to_string(ty);
                    let ghost before = params@;
                    params.push(ParameterInfo { name, param_type });
                    proof {
                        assert(params@.map_values(|p: ParameterInfo| (p.name@, p.param_type@)) =~= before.map_values(
                            |p: ParameterInfo| (p.name@, p.param_type@),
                        ).push((spec_pattern_name(*pat), spec_type_to_string(*ty))));
                    }
                },
            }
            i = i + 1;
        }
        proof {
            assert(inputs@.take(inputs@.len() as int) =~= inputs@);
        }
        Ok(params)
    }

    /// A function's return type as text, `()` when it has none.
    pub fn extract_return_type(&self, output: &Option<SynType>) -> (res: String)
        ensures
            res@ == spec_return_type(*output),
    {
        match output {
            None => to_string("()"),
            Some(t) => self.type_to_string(t),
        }
    }

    /// `ret name(arg, arg)`, the name qualified by `impl_type` when given.
    pub fn generate_function_signature(&self, sig: &Signature, impl_type: Option<&str>) -> (res: String)
        ensures
            res@ == spec_signature(*sig, match impl_type {
                Some(t) => Some(t@),
                None => None,
            }),
    {
        let return_type = self.extract_return_type(&sig.output);
        let mut params: Vec<String> = Vec::new();
        let mut i: usize = 0;
        while i < sig.inputs.len()
            invariant
                i <= sig.inputs.len(),
                string_views(params@) == spec_arg_texts(sig.inputs@).take(i as int),
            decreases sig.inputs.len() - i,
        {
            let t = match &sig.inputs[i] {
                FnArg::Receiver { .. } => to_string("self"),
                FnArg::Typed { ty, .. } => self.type_to_string(ty),
            };
            let ghost before = params@;
            params.push(t);
            proof {
                lemma_string_views_push(before, params@.last());
                assert(spec_arg_texts(sig.inputs@).take(i + 1) =~= spec_arg_texts(sig.inputs@).take(
                    i as int,
                ).push(spec_arg_text(sig.inputs@[i as int])));
            }
            i = i + 1;
        }
        proof {
            assert(spec_arg_texts(sig.inputs@).take(sig.inputs@.len() as int) =~= spec_arg_texts(
                sig.inputs@,
            ));
        }
        let function_name = match impl_type {
            Some(t) => concat3(t, "::", sig.ident.as_str()),
            None => sig.ident.clone(),
        };
        let joined = join(&params, ", ");
        let head = concat3(return_type.as_str(), " ", function_name.as_str());
        let open_paren = concat3(head.as_str(), "(", joined.as_str());
        concat(open_paren.as_str(), ")")
    }

    /// The visibility, then `ASYNC`, `UNSAFE` and `EXTERN` where they apply,
    /// joined by `_`.
    pub fn extract_modifiers(&self, vis: &Visibility, sig: &Signature) -> (res: String)
        ensures
            res@ == spec_modifiers(*vis, *sig),
    {
        let mut modifiers: Vec<String> = Vec::new();
        modifiers.push(normalize_visibility(vis));
        let ghost a = string_views(modifiers@);
        proof {
            assert(a =~= seq![spec_visibility_label(*vis)]);
        }
        if sig.is_async {
            modifiers.push(to_string("ASYNC"));
        }
        let ghost b = string_views(modifiers@);
        proof {
            if sig.is_async {
                assert(b =~= a.push("ASYNC"@));
            }
        }
        if sig.is_unsafe {
            modifiers.push(to_string("UNSAFE"));
        }
        let ghost c = string_views(modifiers@);
        proof {
            if sig.is_unsafe {
                assert(c =~= b.push("UNSAFE"@));
            }
        }
        if sig.has_abi {
            modifiers.push(to_string("EXTERN"));
        }
        proof {
            if sig.has_abi {
                assert(string_views(modifiers@) =~= c.push("EXTERN"@));
            }
        }
        join(&modifiers, "_")
    }

    /// The lines an item's span gives, or `(1, 1)` when it gives none.
    pub fn extract_line_numbers(&self, start_line: u32, end_line: u32) -> (res: (u32, u32))
        ensures
            res == spec_line_numbers(start_line, end_line),
    {
        if start_line > 0 && end_line > 0 {
            (start_line, end_line)
        } else {
            (1, 1)
        }
    }

    /// A path as a function name.
    pub fn resolve_path_to_function_name(&self, path: &SynPath) -> (res: String)
        ensures
            res@ == spec_resolve_path(self.spec_current_module(), *path),
    {
        if path.segments.len() == 0 {
            proof {
                assert(segment_idents(*path).len() == 0);
            }
            return String::new();
        }
        let full = path_text(path);
        if !str_starts_with(full.as_str(), "crate::") && !str_starts_with(full.as_str(), "std::")
            && !str_starts_with(full.as_str(), "super::") && !str_starts_with(full.as_str(), "self::")
            && path.segments.len() == 1 {
            concat3(self.current_module.as_str(), "::", full.as_str())
        } else {
            full
        }
    }

    /// A method call as `receiver::method` where the receiver is a path or a
    /// named field, else the method's name.
    pub fn resolve_method_call(&self, receiver: &Expr, method: &str) -> (res: String)
        ensures
            res@ == spec_resolve_method_call(self.spec_current_module(), *receiver, method@),
    {
        proof {
            reveal_strlit("");
        }
        match receiver {
            Expr::Path(p) => {
                let r = self.resolve_path_to_function_name(p);
                proof {
                    if r@.len() == 0 {
                        assert(r@ =~= ""@);
                    }
                }
                if !str_eq(r.as_str(), "") {
                    concat3(r.as_str(), "::", method)
                } else {
                    proof {
                        reveal_strlit("");
                    }
                    to_string(method)
                }
            },
            Expr::Field { member: Some(m) } => concat3(m.as_str(), "::", method),
            _ => to_string(method),
        }
    }

    /// Whether a path looks like a reference to a function.
    pub fn is_likely_function_reference(&self, path: &str) -> (res: bool)
        ensures
            res == spec_is_likely_function_reference(path@),
    {
        let pc = chars_of(path);
        if pc.len() == 0 {
            return false;
        }
        proof {
            reveal_strlit("::");
        }
        let parts = split_str(path, "::");
        proof {
            lemma_split_nonempty(path@, "::"@);
            assert(string_views(parts@).last() == parts@.last()@);
        }
        let last = &parts[parts.len() - 1];
        let lc = chars_of(last.as_str());
        let first: char = if lc.len() > 0 {
            lc[0]
        } else {
            'A'
        };
        let function_like = char_is_lowercase(first) || str_starts_with(last.as_str(), "_") || str_eq(
            last.as_str(),
            "new",
        ) || str_eq(last.as_str(), "default") || str_ends_with(last.as_str(), "_new") || str_ends_with(
            last.as_str(),
            "_default",
        );
        let mut constant = true;
        let mut i: usize = 0;
        while i < lc.len()
            invariant
                i <= lc.len(),
                constant == forall|k: int| 0 <= k < i ==> spec_is_uppercase(#[trigger] lc@[k]) || lc@[k] == '_',
            decreases lc.len() - i,
        {
            let c = lc[i];
            if !(char_is_uppercase(c) || c == '_') {
                constant = false;
            }
            i = i + 1;
        }
        function_like && !constant
    }
}

proof fn lemma_split_nonempty(s: Seq<char>, sep: Seq<char>)
    ensures
        spec_split(s, sep).len() > 0,
    decreases s.len(),
{
    if sep.len() > 0 {
        match crate::text::spec_find(s, sep) {
            Some(i) => if 0 <= i && i + sep.len() <= s.len() {
                lemma_split_nonempty(s.subrange(i + sep.len(), s.len() as int), sep);
            },
            None => {},
        }
    }
}


pub open spec fn opt_str(o: Option<&str>) -> Option<Seq<char>> {
    match o {
        Some(t) => Some(t@),
        None => None,
    }
}

pub open spec fn opt_string(o: Option<String>) -> Option<Seq<char>> {
    match o {
        Some(t) => Some(t@),
        None => None,
    }
}

impl FunctionAnalyzer {
    fn add_call(&mut self, name: String)
        ensures
            final(self).spec_function_calls() == (if old(self).spec_function_calls().contains(name@) {
                old(self).spec_function_calls()
            } else {
                old(self).spec_function_calls().push(name@)
            }),
            final(self).spec_current_module() == old(self).spec_current_module(),
            final(self).spec_source_content() == old(self).spec_source_content(),
            final(self).spec_line_map_view() == old(self).spec_line_map_view(),
    {
        let mut i: usize = 0;
        while i < self.function_calls.len()
            invariant
                i <= self.function_calls.len(),
                forall|k: int| 0 <= k < i ==> self.function_calls@[k]@ != name@,
            decreases self.function_calls.len() - i,
        {
            if str_eq(self.function_calls[i].as_str(), name.as_str()) {
                proof {
                    assert(string_views(self.function_calls@)[i as int] == name@);
                }
                return;
            }
            i = i + 1;
        }
        proof {
            assert forall|k: int| 0 <= k < self.function_calls@.len() implies string_views(self.function_calls@)[k] != name@ by {
                assert(string_views(self.function_calls@)[k] == self.function_calls@[k]@);
            }
        }
        let ghost before = self.function_calls@;
        self.function_calls.push(name);
        proof {
            lemma_string_views_push(before, self.function_calls@.last());
        }
    }

    /// Records the calls one traversal event names.
    fn record_event(&mut self, e: &BodyEvent)
        ensures
            final(self).spec_function_calls() == add_names(
                old(self).spec_function_calls(),
                event_calls(old(self).spec_current_module(), *e),
            ),
            final(self).spec_current_module() == old(self).spec_current_module(),
            final(self).spec_source_content() == old(self).spec_source_content(),
            final(self).spec_line_map_view() == old(self).spec_line_map_view(),
    {
        proof {
            reveal_strlit("");
            reveal_strlit("!");
            lemma_add_names_short();
        }
        match e {
            BodyEvent::Call { func, .. } => match func {
                Expr::Path(p) => {
                    let r = self.resolve_path_to_function_name(p);
                    proof {
                        if r@.len() == 0 {
                            assert(r@ =~= ""@);
                        }
                    }
                    if !str_eq(r.as_str(), "") {
                        self.add_call(r);
                    }
                },
                Expr::Field { member: Some(m) } => {
                    self.add_call(m.clone());
                },
                _ => {},
            },
            BodyEvent::MethodCall { receiver, method, .. } => {
                let r = self.resolve_method_call(receiver, method.as_str());
                self.add_call(r);
            },
            BodyEvent::PathExpr(p) => {
                let r = self.resolve_path_to_function_name(p);
                if self.is_likely_function_reference(r.as_str()) {
                    self.add_call(r);
                }
            },
            BodyEvent::MacroExpr(p) => {
                let n = path_text(p);
                proof {
                    if n@.len() == 0 {
                        assert(n@ =~= ""@);
                    }
                }
                if !str_eq(n.as_str(), "") {
                    self.add_call(concat(n.as_str(), "!"));
                }
            },
            _ => {},
        }
    }

    /// Records the calls a body makes, each once, in place of those held.
    fn collect_calls(&mut self, body: &Vec<BodyEvent>)
        ensures
            final(self).spec_function_calls() == spec_callees(old(self).spec_current_module(), body@),
            final(self).spec_current_module() == old(self).spec_current_module(),
            final(self).spec_source_content() == old(self).spec_source_content(),
            final(self).spec_line_map_view() == old(self).spec_line_map_view(),
    {
        self.function_calls = Vec::new();
        let ghost module = self.spec_current_module();
        proof {
            assert(string_views(self.function_calls@) =~= Seq::<Seq<char>>::empty());
            assert(body@.take(0) =~= Seq::<BodyEvent>::empty());
        }
        let mut i: usize = 0;
        while i < body.len()
            invariant
                i <= body.len(),
                module == self.spec_current_module(),
                self.spec_source_content() == old(self).spec_source_content(),
                self.spec_line_map_view() == old(self).spec_line_map_view(),
                module == old(self).spec_current_module(),
                self.spec_function_calls() == dedup(body_calls(module, body@.take(i as int))),
            decreases body.len() - i,
        {
            proof {
                assert(body@.take(i + 1).drop_last() =~= body@.take(i as int));
                assert(body@.take(i + 1).last() == body@[i as int]);
                lemma_dedup_append(body_calls(module, body@.take(i as int)), event_calls(module, body@[i as int]));
            }
            self.record_event(&body[i]);
            i = i + 1;
        }
        proof {
            assert(body@.take(body@.len() as int) =~= body@);
        }
    }
}

pub open spec fn add_name(calls: Seq<Seq<char>>, n: Seq<char>) -> Seq<Seq<char>> {
    if calls.contains(n) {
        calls
    } else {
        calls.push(n)
    }
}

pub open spec fn add_names(calls: Seq<Seq<char>>, ns: Seq<Seq<char>>) -> Seq<Seq<char>>
    decreases ns.len(),
{
    if ns.len() == 0 {
        calls
    } else {
        add_name(add_names(calls, ns.drop_last()), ns.last())
    }
}

proof fn lemma_add_names_short()
    ensures
        forall|c: Seq<Seq<char>>, n: Seq<char>| #[trigger] add_names(c, seq![n]) == add_name(c, n),
        forall|c: Seq<Seq<char>>| #[trigger] add_names(c, Seq::<Seq<char>>::empty()) == c,
{
    assert forall|c: Seq<Seq<char>>, n: Seq<char>| #[trigger] add_names(c, seq![n]) == add_name(c, n) by {
        assert(seq![n].drop_last() =~= Seq::<Seq<char>>::empty());
        assert(seq![n].last() == n);
        assert(add_names(c, Seq::<Seq<char>>::empty()) == c);
        assert(add_names(c, seq![n]) == add_name(add_names(c, seq![n].drop_last()), seq![n].last()));
    }
}

proof fn lemma_dedup_append(x: Seq<Seq<char>>, l: Seq<Seq<char>>)
    ensures
        dedup(x + l) == add_names(dedup(x), l),
    decreases l.len(),
{
    if l.len() == 0 {
        assert(x + l =~= x);
    } else {
        lemma_dedup_append(x, l.drop_last());
        assert((x + l).drop_last() =~= x + l.drop_last());
        assert((x + l).last() == l.last());
    }
}

impl FunctionAnalyzer {
    fn callees_copy(&self) -> (res: Vec<String>)
        ensures
            res@.map_values(|c: String| c@) == self.spec_function_calls(),
    {
        let v = copy_strings(&self.function_calls);
        proof {
            assert(v@.map_values(|c: String| c@) =~= string_views(self.function_calls@));
        }
        v
    }

    /// The record of a function or method; `impl_type` names the type of an
    /// `impl` block it stands in.
    pub fn analyze_function(
        &mut self,
        item_fn: &FnItem,
        file_path: &str,
        impl_type: Option<&str>,
        cwd_project_root: &Option<String>,
    ) -> (res: Result<MethodOutput, AnalyzerError>)
        ensures
            res matches Ok(m) && m@ == spec_function_record(
                old(self).spec_current_module(),
                *item_fn,
                opt_str(impl_type),
                spec_relative_path(file_path@, opt_string(*cwd_project_root)),
            ),
            final(self).spec_current_module() == old(self).spec_current_module(),
            final(self).spec_source_content() == old(self).spec_source_content(),
            final(self).spec_line_map_view() == old(self).spec_line_map_view(),
    {
        let signature = self.generate_function_signature(&item_fn.sig, impl_type);
        let params = match self.extract_parameters(&item_fn.sig.inputs) {
            Ok(p) => p,
            Err(e) => {
                return Err(e);
            },
        };
        let return_type = self.extract_return_type(&item_fn.sig.output);
        let modifier = self.extract_modifiers(&item_fn.vis, &item_fn.sig);
        let (begin_line, end_line) = self.extract_line_numbers(item_fn.start_line, item_fn.end_line);
        self.collect_calls(&item_fn.body);
        let callees = self.callees_copy();
        let filename = self.get_relative_path(file_path, cwd_project_root);
        Ok(
            MethodOutput {
                name: item_fn.sig.ident.clone(),
                signature,
                begin_line,
                end_line,
                filename,
                modifier,
                params,
                return_type,
                callees,
            },
        )
    }

    /// The records of the methods of an `impl` block.
    pub fn analyze_impl_block(
        &mut self,
        self_ty: &SynType,
        items: &Vec<ImplItem>,
        file_path: &str,
        cwd_project_root: &Option<String>,
    ) -> (res: Result<Vec<MethodOutput>, AnalyzerError>)
        ensures
            res matches Ok(v) && records_of(v@) == impl_records(
                old(self).spec_current_module(),
                items@,
                spec_type_name(*self_ty),
                spec_relative_path(file_path@, opt_string(*cwd_project_root)),
            ),
            final(self).spec_current_module() == old(self).spec_current_module(),
            final(self).spec_source_content() == old(self).spec_source_content(),
            final(self).spec_line_map_view() == old(self).spec_line_map_view(),
    {
        let ghost module = self.spec_current_module();
        let ghost filename = spec_relative_path(file_path@, opt_string(*cwd_project_root));
        let impl_type_name = self.extract_type_name(self_ty);
        let mut methods: Vec<MethodOutput> = Vec::new();
        let mut i: usize = 0;
        while i < items.len()
            invariant
                i <= items.len(),
                module == self.spec_current_module(),
                module == old(self).spec_current_module(),
                self.spec_source_content() == old(self).spec_source_content(),
                self.spec_line_map_view() == old(self).spec_line_map_view(),
                impl_type_name@ == spec_type_name(*self_ty),
                filename == spec_relative_path(file_path@, opt_string(*cwd_project_root)),
                records_of(methods@) == impl_records(module, items@.take(i as int), impl_type_name@, filename),
            decreases items.len() - i,
        {
            proof {
                assert(items@.take(i + 1).drop_last() =~= items@.take(i as int));
                assert(items@.take(i + 1).last() == items@[i as int]);
            }
            match &items[i] {
                ImplItem::Fn(f) => {
                    match self.analyze_function(f, file_path, Some(impl_type_name.as_str()), cwd_project_root) {
                        Ok(m) => {
                            let ghost before = methods@;
                            methods.push(m);
                            proof {
                                assert(records_of(methods@) =~= records_of(before).push(m@));
                            }
                        },
                        Err(_) => {},
                    }
                },
                ImplItem::Other => {},
            }
            i = i + 1;
        }
        proof {
            assert(items@.take(items@.len() as int) =~= items@);
        }
        Ok(methods)
    }

    /// The record of a trait's method; its default body, if any, gives the calls.
    pub fn analyze_trait_method(
        &mut self,
        sig: &Signature,
        default: &Option<Vec<BodyEvent>>,
        start_line: u32,
        end_line: u32,
        file_path: &str,
        trait_name: &str,
        cwd_project_root: &Option<String>,
    ) -> (res: Result<MethodOutput, AnalyzerError>)
        ensures
            res matches Ok(m) && m@ == spec_trait_method_record(
                old(self).spec_current_module(),
                *sig,
                *default,
                start_line,
                end_line,
                trait_name@,
                spec_relative_path(file_path@, opt_string(*cwd_project_root)),
            ),
            final(self).spec_current_module() == old(self).spec_current_module(),
            final(self).spec_source_content() == old(self).spec_source_content(),
            final(self).spec_line_map_view() == old(self).spec_line_map_view(),
    {
        let signature = self.generate_function_signature(sig, Some(trait_name));
        let params = match self.extract_parameters(&sig.inputs) {
            Ok(p) => p,
            Err(e) => {
                return Err(e);
            },
        };
        let return_type = self.extract_return_type(&sig.output);
        let modifier = concat("TRAIT_", normalize_visibility(&Visibility::Inherited).as_str());
        let (begin_line, end_line) = self.extract_line_numbers(start_line, end_line);
        let filename = self.get_relative_path(file_path, cwd_project_root);
        let callees = match default {
            Some(body) => {
                self.collect_calls(body);
                self.callees_copy()
            },
            None => Vec::new(),
        };
        proof {
            reveal_strlit("TRAIT_");
            reveal_strlit("PRIVATE");
            reveal_strlit("TRAIT_PRIVATE");
            assert(modifier@ =~= "TRAIT_PRIVATE"@);
            if default is None {
                assert(callees@.map_values(|c: String| c@) =~= Seq::<Seq<char>>::empty());
            }
        }
        Ok(
            MethodOutput {
                name: sig.ident.clone(),
                signature,
                begin_line,
                end_line,
                filename,
                modifier,
                params,
                return_type,
                callees,
            },
        )
    }

    /// The calls found in a macro's tokens.
    pub fn analyze_macro_tokens(&mut self, tokens: &str) -> (res: Result<Vec<String>, AnalyzerError>)
        ensures
            match spec_macro_callees(tokens@) {
                Some(cs) => res matches Ok(v) && string_views(v@) == cs,
                None => res is Err,
            },
            *final(self) == *old(self),
    {
        let calls = match regex_group1_all(CALL_PATTERN, tokens) {
            Some(c) => c,
            None => {
                return Err(
                    AnalyzerError::analysis_error(to_string("regex compilation"), to_string("invalid pattern")),
                );
            },
        };
        let macros = match regex_group1_all(MACRO_PATTERN, tokens) {
            Some(c) => c,
            None => {
                return Err(
                    AnalyzerError::analysis_error(to_string("regex compilation"), to_string("invalid pattern")),
                );
            },
        };
        let ghost cv = opt_string_seq_view(calls@);
        let ghost mv = opt_string_seq_view(macros@);
        let mut callees: Vec<String> = Vec::new();
        let mut i: usize = 0;
        while i < calls.len()
            invariant
                i <= calls.len(),
                cv == opt_string_seq_view(calls@),
                string_views(callees@) == likely_names(cv.take(i as int)),
            decreases calls.len() - i,
        {
            proof {
                assert(cv.take(i + 1).drop_last() =~= cv.take(i as int));
            }
            if let Some(name) = &calls[i] {
                assert(cv.take(i + 1).last() == Some(name@));
                if self.is_likely_function_reference(name.as_str()) {
                    let ghost before = callees@;
                    callees.push(name.clone());
                    proof {
                        lemma_string_views_push(before, callees@.last());
                    }
                }
            } else {
                assert(cv.take(i + 1).last() == None::<Seq<char>>);
            }
            i = i + 1;
        }
        proof {
            assert(cv.take(cv.len() as int) =~= cv);
        }
        let ghost head = string_views(callees@);
        let mut j: usize = 0;
        while j < macros.len()
            invariant
                j <= macros.len(),
                mv == opt_string_seq_view(macros@),
                string_views(callees@) == head + bang_names(mv.take(j as int)),
            decreases macros.len() - j,
        {
            proof {
                assert(mv.take(j + 1).drop_last() =~= mv.take(j as int));
            }
            if let Some(name) = &macros[j] {
                assert(mv.take(j + 1).last() == Some(name@));
                let ghost before = callees@;
                callees.push(concat(name.as_str(), "!"));
                proof {
                    lemma_string_views_push(before, callees@.last());
                    assert(head + bang_names(mv.take(j + 1)) =~= (head + bang_names(mv.take(j as int))).push(
                        name@ + "!"@,
                    ));
                }
            } else {
                assert(mv.take(j + 1).last() == None::<Seq<char>>);
            }
            j = j + 1;
        }
        proof {
            assert(mv.take(mv.len() as int) =~= mv);
        }
        Ok(callees)
    }

    /// The record of a macro definition; an error when the patterns that
    /// read its tokens do not compile.
    pub fn analyze_macro_definition(
        &mut self,
        ident: &Option<String>,
        tokens: &str,
        start_line: u32,
        end_line: u32,
        file_path: &str,
        cwd_project_root: &Option<String>,
    ) -> (res: Result<MethodOutput, AnalyzerError>)
        ensures
            match spec_macro_callees(tokens@) {
                Some(cs) => res matches Ok(m) && m@ == (MethodRecord {
                    name: spec_macro_name(*ident),
                    signature: "macro "@ + spec_macro_name(*ident) + "!"@,
                    begin_line: spec_line_numbers(start_line, end_line).0,
                    end_line: spec_line_numbers(start_line, end_line).1,
                    filename: spec_relative_path(file_path@, opt_string(*cwd_project_root)),
                    modifier: "MACRO PUBLIC"@,
                    params: Seq::empty(),
                    return_type: "TokenStream"@,
                    callees: cs,
                }),
                None => res is Err,
            },
            final(self).spec_current_module() == old(self).spec_current_module(),
            final(self).spec_source_content() == old(self).spec_source_content(),
            final(self).spec_line_map_view() == old(self).spec_line_map_view(),
    {
        let macro_name = match ident {
            Some(i) => i.clone(),
            None => to_string("anonymous_macro"),
        };
        let signature = concat3("macro ", macro_name.as_str(), "!");
        let (begin_line, end_line) = self.extract_line_numbers(start_line, end_line);
        self.function_calls = Vec::new();
        let callees = match self.analyze_macro_tokens(tokens) {
            Ok(c) => c,
            Err(e) => {
                return Err(e);
            },
        };
        let filename = self.get_relative_path(file_path, cwd_project_root);
        let params: Vec<ParameterInfo> = Vec::new();
        proof {
            assert(callees@.map_values(|c: String| c@) =~= string_views(callees@));
            assert(params@.map_values(|p: ParameterInfo| (p.name@, p.param_type@)) =~= Seq::<
                (Seq<char>, Seq<char>),
            >::empty());
        }
        Ok(
            MethodOutput {
                name: macro_name,
                signature,
                begin_line,
                end_line,
                filename,
                modifier: to_string("MACRO PUBLIC"),
                params,
                return_type: to_string("TokenStream"),
                callees,
            },
        )
    }

    /// The record of a constant; its initializer gives the calls.
    pub fn analyze_const_definition(
        &mut self,
        vis: &Visibility,
        ident: &String,
        ty: &SynType,
        body: &Vec<BodyEvent>,
        start_line: u32,
        end_line: u32,
        file_path: &str,
        cwd_project_root: &Option<String>,
    ) -> (res: Result<MethodOutput, AnalyzerError>)
        ensures
            res matches Ok(m) && m@ == spec_const_record(
                old(self).spec_current_module(),
                *vis,
                ident@,
                *ty,
                body@,
                start_line,
                end_line,
                spec_relative_path(file_path@, opt_string(*cwd_project_root)),
            ),
            final(self).spec_current_module() == old(self).spec_current_module(),
            final(self).spec_source_content() == old(self).spec_source_content(),
            final(self).spec_line_map_view() == old(self).spec_line_map_view(),
    {
        let const_type = self.type_to_string(ty);
        let signature = concat3(concat("const ", ident.as_str()).as_str(), ": ", const_type.as_str());
        let (begin_line, end_line) = self.extract_line_numbers(start_line, end_line);
        self.collect_calls(body);
        let callees = self.callees_copy();
        let filename = self.get_relative_path(file_path, cwd_project_root);
        let modifier = concat("CONST ", normalize_visibility(vis).as_str());
        let params: Vec<ParameterInfo> = Vec::new();
        proof {
            assert(params@.map_values(|p: ParameterInfo| (p.name@, p.param_type@)) =~= Seq::<
                (Seq<char>, Seq<char>),
            >::empty());
        }
        Ok(
            MethodOutput {
                name: ident.clone(),
                signature,
                begin_line,
                end_line,
                filename,
                modifier,
                params,
                return_type: const_type,
                callees,
            },
        )
    }

    /// The record of a static; its initializer gives the calls.
    pub fn analyze_static_definition(
        &mut self,
        vis: &Visibility,
        ident: &String,
        ty: &SynType,
        mutable: bool,
        body: &Vec<BodyEvent>,
        start_line: u32,
        end_line: u32,
        file_path: &str,
        cwd_project_root: &Option<String>,
    ) -> (res: Result<MethodOutput, AnalyzerError>)
        ensures
            res matches Ok(m) && m@ == spec_static_record(
                old(self).spec_current_module(),
                *vis,
                ident@,
                *ty,
                mutable,
                body@,
                start_line,
                end_line,
                spec_relative_path(file_path@, opt_string(*cwd_project_root)),
            ),
            final(self).spec_current_module() == old(self).spec_current_module(),
            final(self).spec_source_content() == old(self).spec_source_content(),
            final(self).spec_line_map_view() == old(self).spec_line_map_view(),
    {
        let static_type = self.type_to_string(ty);
        proof {
            reveal_strlit("static ");
            reveal_strlit("mut ");
            reveal_strlit("static mut ");
            reveal_strlit("");
            reveal_strlit(" MUTABLE");
        }
        let head = if mutable {
            let h = concat("static mut ", ident.as_str());
            assert(h@ =~= "static "@ + "mut "@ + ident@);
            h
        } else {
            let h = concat("static ", ident.as_str());
            assert(h@ =~= "static "@ + ""@ + ident@);
            h
        };
        let signature = concat3(head.as_str(), ": ", static_type.as_str());
        let (begin_line, end_line) = self.extract_line_numbers(start_line, end_line);
        self.collect_calls(body);
        let callees = self.callees_copy();
        let filename = self.get_relative_path(file_path, cwd_project_root);
        let label = concat("STATIC ", normalize_visibility(vis).as_str());
        let modifier = if mutable {
            concat(label.as_str(), " MUTABLE")
        } else {
            let m = label;
            assert(m@ =~= m@ + ""@);
            m
        };
        let params: Vec<ParameterInfo> = Vec::new();
        proof {
            assert(params@.map_values(|p: ParameterInfo| (p.name@, p.param_type@)) =~= Seq::<
                (Seq<char>, Seq<char>),
            >::empty());
        }
        Ok(
            MethodOutput {
                name: ident.clone(),
                signature,
                begin_line,
                end_line,
                filename,
                modifier,
                params,
                return_type: static_type,
                callees,
            },
        )
    }
}

impl FunctionAnalyzer {
    /// The records of every function, method, trait method, macro, constant
    /// and static of a parsed source file, in the order of the file;
    /// `source_content` is the file's text, `cwd_project_root` the directory
    /// holding `Cargo.toml` that the caller found. A macro whose tokens cannot
    /// be read is passed over.
    pub fn analyze_file(
        &mut self,
        file_path: &str,
        parsed_file: &SourceFile,
        project_root: &str,
        source_content: String,
        cwd_project_root: &Option<String>,
    ) -> (res: Result<Vec<MethodOutput>, AnalyzerError>)
        requires
            byte_len(source_content@) <= usize::MAX,
            newline_count(source_content@) < u32::MAX,
        ensures
            res matches Ok(v) && records_of(v@) == spec_file_records(
                spec_module_path(file_path@, project_root@),
                parsed_file.items@,
                spec_relative_path(file_path@, opt_string(*cwd_project_root)),
            ),
            final(self).spec_current_module() == spec_module_path(file_path@, project_root@),
            final(self).spec_source_content() == source_content@,
            final(self).spec_line_map_view() == spec_line_map(source_content@),
    {
        self.current_module = extract_module_path(file_path, project_root);
        self.source_content = source_content;
        self.build_line_map();
        let ghost module = self.spec_current_module();
        let ghost filename = spec_relative_path(file_path@, opt_string(*cwd_project_root));
        let ghost content = self.spec_source_content();
        let ghost lm = self.spec_line_map_view();
        let items = &parsed_file.items;
        let mut methods: Vec<MethodOutput> = Vec::new();
        let mut i: usize = 0;
        proof {
            assert(items@.take(0) =~= Seq::<Item>::empty());
            assert(records_of(methods@) =~= Seq::<MethodRecord>::empty());
        }
        while i < items.len()
            invariant
                i <= items.len(),
                module == self.spec_current_module(),
                module == spec_module_path(file_path@, project_root@),
                content == self.spec_source_content(),
                content == source_content@,
                lm == self.spec_line_map_view(),
                lm == spec_line_map(source_content@),
                filename == spec_relative_path(file_path@, opt_string(*cwd_project_root)),
                items == &parsed_file.items,
                records_of(methods@) == spec_file_records(module, items@.take(i as int), filename),
            decreases items.len() - i,
        {
            proof {
                assert(items@.take(i + 1).drop_last() =~= items@.take(i as int));
                assert(items@.take(i + 1).last() == items@[i as int]);
            }
            let ghost before = records_of(methods@);
            let ghost item = items@[i as int];
            match &items[i] {
                Item::Fn(f) => {
                    match self.analyze_function(f, file_path, None, cwd_project_root) {
                        Ok(m) => {
                            methods.push(m);
                            proof {
                                assert(records_of(methods@) =~= before + seq![m@]);
                            }
                        },
                        Err(_) => {},
                    }
                },
                Item::Impl { self_ty, items: impl_items, .. } => {
                    match self.analyze_impl_block(self_ty, impl_items, file_path, cwd_project_root) {
                        Ok(v) => {
                            let mut k: usize = 0;
                            while k < v.len()
                                invariant
                                    k <= v.len(),
                                    records_of(methods@) == before + records_of(v@).take(k as int),
                                decreases v.len() - k,
                            {
                                let ghost b2 = methods@;
                                methods.push(copy_method(&v[k]));
                                proof {
                                    assert(records_of(methods@) =~= records_of(b2).push(v@[k as int]@));
                                    assert(records_of(v@).take(k + 1) =~= records_of(v@).take(k as int).push(
                                        v@[k as int]@,
                                    ));
                                }
                                k = k + 1;
                            }
                            proof {
                                assert(records_of(v@).take(v@.len() as int) =~= records_of(v@));
                            }
                        },
                        Err(e) => {
                            return Err(e);
                        },
                    }
                },
                Item::Trait { ident, items: trait_items, .. } => {
                    let ghost ti = trait_items@;
                    let mut k: usize = 0;
                    proof {
                        assert(ti.take(0) =~= Seq::<TraitItem>::empty());
                        assert(before + Seq::<MethodRecord>::empty() =~= before);
                    }
                    while k < trait_items.len()
                        invariant
                            k <= trait_items.len(),
                            ti == trait_items@,
                            module == self.spec_current_module(),
                            content == self.spec_source_content(),
                            lm == self.spec_line_map_view(),
                            filename == spec_relative_path(file_path@, opt_string(*cwd_project_root)),
                            records_of(methods@) == before + trait_records(module, ti.take(k as int), ident@, filename),
                        decreases trait_items.len() - k,
                    {
                        proof {
                            assert(ti.take(k + 1).drop_last() =~= ti.take(k as int));
                            assert(ti.take(k + 1).last() == ti[k as int]);
                        }
                        match &trait_items[k] {
                            TraitItem::Fn { sig, default, start_line, end_line, .. } => {
                                match self.analyze_trait_method(
                                    sig,
                                    default,
                                    *start_line,
                                    *end_line,
                                    file_path,
                                    ident.as_str(),
                                    cwd_project_root,
                                ) {
                                    Ok(m) => {
                                        let ghost b2 = methods@;
                                        methods.push(m);
                                        proof {
                                            assert(records_of(methods@) =~= records_of(b2).push(m@));
                                        }
                                    },
                                    Err(_) => {},
                                }
                            },
                            _ => {},
                        }
                        k = k + 1;
                    }
                    proof {
                        assert(ti.take(ti.len() as int) =~= ti);
                    }
                },
                Item::Macro { ident, tokens, start_line, end_line, .. } => {
                    match self.analyze_macro_definition(
                        ident,
                        tokens.as_str(),
                        *start_line,
                        *end_line,
                        file_path,
                        cwd_project_root,
                    ) {
                        Ok(m) => {
                            methods.push(m);
                            proof {
                                assert(records_of(methods@) =~= before + seq![m@]);
                            }
                        },
                        Err(_) => {
                            proof {
                                assert(before + Seq::<MethodRecord>::empty() =~= before);
                            }
                        },
                    }
                },
                Item::Const { vis, ident, ty, body, start_line, end_line } => {
                    match self.analyze_const_definition(
                        vis,
                        ident,
                        ty,
                        body,
                        *start_line,
                        *end_line,
                        file_path,
                        cwd_project_root,
                    ) {
                        Ok(m) => {
                            methods.push(m);
                            proof {
                                assert(records_of(methods@) =~= before + seq![m@]);
                            }
                        },
                        Err(_) => {},
                    }
                },
                Item::Static { vis, ident, ty, mutable, body, start_line, end_line } => {
                    match self.analyze_static_definition(
                        vis,
                        ident,
                        ty,
                        *mutable,
                        body,
                        *start_line,
                        *end_line,
                        file_path,
                        cwd_project_root,
                    ) {
                        Ok(m) => {
                            methods.push(m);
                            proof {
                                assert(records_of(methods@) =~= before + seq![m@]);
                            }
                        },
                        Err(_) => {},
                    }
                },
                _ => {
                    proof {
                        assert(before + Seq::<MethodRecord>::empty() =~= before);
                    }
                },
            }
            i = i + 1;
        }
        proof {
            assert(items@.take(items@.len() as int) =~= items@);
        }
        Ok(methods)
    }
}

/// A copy of a method record.
pub fn copy_method(m: &MethodOutput) -> (res: MethodOutput)
    ensures
        res@ == m@,
{
    MethodOutput {
        name: m.name.clone(),
        signature: m.signature.clone(),
        begin_line: m.begin_line,
        end_line: m.end_line,
        filename: m.filename.clone(),
        modifier: m.modifier.clone(),
        params: crate::output::copy_params(&m.params),
        return_type: m.return_type.clone(),
        callees: copy_strings(&m.callees),
    }
}

} // verus!
