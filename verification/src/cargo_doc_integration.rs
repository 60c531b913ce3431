//! Reading the HTML pages that `cargo doc` writes: module documentation,
//! documented items, and the source links of functions and types.
use vstd::prelude::*;
use crate::error::AnalyzerError;
use crate::string_map::StringMap;
use crate::patterns::{regex_first_captures, spec_regex_first_captures, opt_string_seq_view};
use crate::text::{
    chars_of, join, opt_view, parse_u32, replace, rfind, slice_string, spec_contains, spec_join,
    spec_parse_u32, spec_replace, spec_rfind, spec_trim, str_contains, str_eq, str_trim,
    string_views, to_string, views, lemma_rfind_below_props, matches_at, lemma_string_views_push,
};
use crate::utils::{path_join, spec_path_join, spec_stem_components, spec_strip_prefix,
    stem_last_component, strip_prefix_components};

verus! {

// ---------------------------------------------------------------------------
// Selecting elements of an HTML page
// ---------------------------------------------------------------------------

/// A descendant of a selected element: its tag name, its text nodes and its
/// `href` attribute.
pub struct HtmlInner {
    pub name: String,
    pub text: Vec<String>,
    pub href: Option<String>,
}

/// An element picked by a CSS selector: its tag name, its text nodes, and the
/// descendants that a second selector picks inside it, in the order
/// scraper's `select` yields them.
pub struct HtmlElement {
    pub name: String,
    pub text: Vec<String>,
    pub inner: Vec<HtmlInner>,
}

pub open spec fn inner_view(d: HtmlInner) -> (Seq<char>, Seq<Seq<char>>, Option<Seq<char>>) {
    (d.name@, string_views(d.text@), opt_view(d.href))
}

pub open spec fn element_view(e: HtmlElement) -> (
    Seq<char>,
    Seq<Seq<char>>,
    Seq<(Seq<char>, Seq<Seq<char>>, Option<Seq<char>>)>,
) {
    (e.name@, string_views(e.text@), e.inner@.map_values(|d: HtmlInner| inner_view(d)))
}

pub open spec fn elements_view(v: Seq<HtmlElement>) -> Seq<
    (Seq<char>, Seq<Seq<char>>, Seq<(Seq<char>, Seq<Seq<char>>, Option<Seq<char>>)>),
> {
    v.map_values(|e: HtmlElement| element_view(e))
}

/// What `scraper` finds in the page `html` (parsed with
/// `Html::parse_document`) for the CSS selector `selector` and, inside each
/// element found, for the selector `inner`; `None` when a selector does not
/// parse.
pub uninterp spec fn spec_html_select(html: Seq<char>, selector: Seq<char>, inner: Seq<char>) -> Option<
    Seq<(Seq<char>, Seq<Seq<char>>, Seq<(Seq<char>, Seq<Seq<char>>, Option<Seq<char>>)>)>,
>;

/// Parses `html` with `scraper::Html::parse_document`, selects with
/// `Selector::parse(selector)` and, in each element found, with
/// `Selector::parse(inner)`; collects tag names, text nodes
/// (`ElementRef::text`) and `href` attributes. The contract names the result.
#[verifier::external_body]
fn html_select(html: &str, selector: &str, inner: &str) -> (res: Option<Vec<HtmlElement>>)
    ensures
        res matches Some(v) ==> spec_html_select(html@, selector@, inner@) == Some(elements_view(v@)),
        res is None ==> spec_html_select(html@, selector@, inner@) is None,
{
    let outer = scraper::Selector::parse(selector).ok()?;
    let inner_sel = scraper::Selector::parse(inner).ok()?;
    let doc = scraper::Html::parse_document(html);
    Some(doc.select(&outer).map(|e| HtmlElement {
        name: e.value().name().to_string(),
        text: e.text().map(|t| t.to_string()).collect(),
        inner: e.select(&inner_sel).map(|d| HtmlInner {
            name: d.value().name().to_string(),
            text: d.text().map(|t| t.to_string()).collect(),
            href: d.value().attr("href").map(|h| h.to_string()),
        }).collect(),
    }).collect())
}

/// The text of an element: its text nodes joined by spaces, trimmed.
pub open spec fn spec_element_text(t: Seq<Seq<char>>) -> Seq<char> {
    spec_trim(spec_join(t, " "@))
}

fn element_text(t: &Vec<String>) -> (res: String)
    ensures
        res@ == spec_element_text(string_views(t@)),
{
    let j = join(t, " ");
    str_trim(j.as_str())
}

// ---------------------------------------------------------------------------
// Documented items of a page
// ---------------------------------------------------------------------------

/// The kinds of item that a page lists.
#[derive(Clone, Copy, PartialEq, Eq)]
pub enum DocItemKind {
    Function,
    Type,
    Macro,
    Constant,
}

/// The heading code of an item of kind `k` holds these words.
pub open spec fn kind_matches(k: DocItemKind, t: Seq<char>) -> bool {
    match k {
        DocItemKind::Function => spec_contains(t, "fn "@),
        DocItemKind::Type => spec_contains(t, "struct "@) || spec_contains(t, "enum "@)
            || spec_contains(t, "trait "@),
        DocItemKind::Macro => spec_contains(t, "macro_rules!"@),
        DocItemKind::Constant => spec_contains(t, "const "@) || spec_contains(t, "static "@),
    }
}

/// The heading elements and documentation blocks of a page, in the order
/// scraper's `select` yields them: tag name, text nodes, and the links
/// inside.
pub type PageElements = Seq<(Seq<char>, Seq<Seq<char>>, Seq<(Seq<char>, Seq<Seq<char>>, Option<Seq<char>>)>)>;

/// The text of the first documentation block (`div`) among `els`.
pub open spec fn next_block(els: PageElements) -> Option<Seq<char>>
    decreases els.len(),
{
    if els.len() == 0 {
        None
    } else if els[0].0 == "div"@ {
        Some(spec_element_text(els[0].1))
    } else {
        next_block(els.drop_first())
    }
}

/// An element is the heading code of an item of kind `k` that holds a link.
pub open spec fn is_item_of_kind(
    e: (Seq<char>, Seq<Seq<char>>, Seq<(Seq<char>, Seq<Seq<char>>, Option<Seq<char>>)>),
    k: DocItemKind,
) -> bool {
    e.0 == "code"@ && kind_matches(k, spec_element_text(e.1)) && e.2.len() > 0
}

/// The items of kind `k` among the first `n` elements, in order, each with
/// the text of the first documentation block that follows it on the page.
pub open spec fn items_of_kind(els: PageElements, n: nat, k: DocItemKind) -> Seq<
    ((Seq<char>, Seq<Seq<char>>, Seq<(Seq<char>, Seq<Seq<char>>, Option<Seq<char>>)>), Option<Seq<char>>),
>
    decreases n,
{
    if n == 0 {
        Seq::empty()
    } else {
        let r = items_of_kind(els, (n - 1) as nat, k);
        if is_item_of_kind(els[n - 1], k) {
            r.push((els[n - 1], next_block(els.subrange(n as int, els.len() as int))))
        } else {
            r
        }
    }
}

/// An item's heading code.
pub open spec fn item_code(e: (Seq<char>, Seq<Seq<char>>, Seq<(Seq<char>, Seq<Seq<char>>, Option<Seq<char>>)>)) -> Seq<char> {
    spec_element_text(e.1)
}

/// The text of an item's first link.
pub open spec fn item_name(e: (Seq<char>, Seq<Seq<char>>, Seq<(Seq<char>, Seq<Seq<char>>, Option<Seq<char>>)>)) -> Seq<char> {
    spec_element_text(e.2[0].1)
}

fn code_matches(k: DocItemKind, t: &str) -> (res: bool)
    ensures
        res == kind_matches(k, t@),
{
    match k {
        DocItemKind::Function => str_contains(t, "fn "),
        DocItemKind::Type => str_contains(t, "struct ") || str_contains(t, "enum ") || str_contains(t, "trait "),
        DocItemKind::Macro => str_contains(t, "macro_rules!"),
        DocItemKind::Constant => str_contains(t, "const ") || str_contains(t, "static "),
    }
}

/// The text of the first documentation block that comes after element
/// `index` of the page, in the order scraper's `select` yields the
/// elements; `None` when none follows.
fn extract_following_docblock(els: &Vec<HtmlElement>, index: usize) -> (res: Option<String>)
    requires
        index < els.len(),
    ensures
        opt_view(res) == next_block(elements_view(els@).subrange(index + 1, els@.len() as int)),
{
    let ghost ev = elements_view(els@);
    let mut j: usize = index + 1;
    proof {
        reveal_strlit("div");
    }
    while j < els.len()
        invariant
            index < j <= els.len(),
            ev == elements_view(els@),
            next_block(ev.subrange(index + 1, ev.len() as int)) == next_block(ev.subrange(j as int, ev.len() as int)),
        decreases els.len() - j,
    {
        let ghost rest = ev.subrange(j as int, ev.len() as int);
        proof {
            assert(rest[0] == element_view(els@[j as int]));
            assert(rest.drop_first() =~= ev.subrange(j + 1, ev.len() as int));
        }
        if str_eq(els[j].name.as_str(), "div") {
            return Some(element_text(&els[j].text));
        }
        j = j + 1;
    }
    proof {
        assert(ev.subrange(j as int, ev.len() as int) =~= Seq::empty());
    }
    None
}

/// The heading code, link text and following documentation block of each
/// item of kind `k`.
fn elements_of_kind(els: &Vec<HtmlElement>, k: DocItemKind) -> (res: Vec<(String, String, Option<String>)>)
    ensures
        res@.len() == items_of_kind(elements_view(els@), els@.len(), k).len(),
        forall|i: int|
            0 <= i < res@.len() ==> {
                &&& (#[trigger] res@[i]).0@ == item_code(items_of_kind(elements_view(els@), els@.len(), k)[i].0)
                &&& res@[i].1@ == item_name(items_of_kind(elements_view(els@), els@.len(), k)[i].0)
                &&& opt_view(res@[i].2) == items_of_kind(elements_view(els@), els@.len(), k)[i].1
            },
{
    let ghost ev = elements_view(els@);
    let mut out: Vec<(String, String, Option<String>)> = Vec::new();
    let mut i: usize = 0;
    proof {
        reveal_strlit("code");
    }
    while i < els.len()
        invariant
            i <= els.len(),
            ev == elements_view(els@),
            out@.len() == items_of_kind(ev, i as nat, k).len(),
            forall|t: int|
                0 <= t < out@.len() ==> {
                    &&& (#[trigger] out@[t]).0@ == item_code(items_of_kind(ev, i as nat, k)[t].0)
                    &&& out@[t].1@ == item_name(items_of_kind(ev, i as nat, k)[t].0)
                    &&& opt_view(out@[t].2) == items_of_kind(ev, i as nat, k)[t].1
                },
        decreases els.len() - i,
    {
        let e = &els[i];
        let ghost r0 = items_of_kind(ev, i as nat, k);
        proof {
            assert(ev[i as int] == element_view(*e));
        }
        let code = element_text(&e.text);
        if str_eq(e.name.as_str(), "code") && code_matches(k, code.as_str()) && e.inner.len() > 0 {
            let name = element_text(&e.inner[0].text);
            let desc = extract_following_docblock(els, i);
            proof {
                assert(element_view(*e).2[0] == inner_view(e.inner@[0]));
            }
            out.push((code, name, desc));
            proof {
                assert(items_of_kind(ev, (i + 1) as nat, k) == r0.push(
                    (element_view(*e), next_block(ev.subrange(i + 1, ev.len() as int))),
                ));
            }
        }
        i = i + 1;
    }
    out
}

/// What a `cargo doc` page documents.
pub struct CargoDocInfo {
    pub module_name: String,
    pub html_content: String,
    pub structured_info: StructuredDocInfo,
}

pub struct StructuredDocInfo {
    pub module_doc: Option<String>,
    pub functions: Vec<FunctionDocInfo>,
    pub types: Vec<TypeDocInfo>,
    pub macros: Vec<MacroDocInfo>,
    pub constants: Vec<ConstantDocInfo>,
}

pub struct FunctionDocInfo {
    pub name: String,
    pub signature: String,
    pub description: Option<String>,
    pub parameters: Vec<ParameterDoc>,
    pub return_info: Option<String>,
    pub examples: Vec<String>,
    pub panics: Vec<String>,
    pub errors: Vec<String>,
    pub safety: Option<String>,
}

pub struct ParameterDoc {
    pub name: String,
    pub type_info: String,
    pub description: Option<String>,
}

pub struct TypeDocInfo {
    pub name: String,
    /// `struct`, `enum` or `trait`.
    pub kind: String,
    pub description: Option<String>,
    pub fields: Vec<FieldDoc>,
    pub methods: Vec<String>,
    pub implementations: Vec<String>,
    pub examples: Vec<String>,
}

pub struct FieldDoc {
    pub name: String,
    pub type_info: String,
    pub description: Option<String>,
}

pub struct MacroDocInfo {
    pub name: String,
    pub description: Option<String>,
    pub examples: Vec<String>,
}

pub struct ConstantDocInfo {
    pub name: String,
    pub type_info: String,
    pub value: Option<String>,
    pub description: Option<String>,
}

/// The kind word of a type heading.
pub open spec fn spec_type_word(code: Seq<char>) -> Seq<char> {
    if spec_contains(code, "struct "@) {
        "struct"@
    } else if spec_contains(code, "enum "@) {
        "enum"@
    } else if spec_contains(code, "trait "@) {
        "trait"@
    } else {
        "unknown"@
    }
}

/// The text of the first documentation block of a page.
pub open spec fn first_block_text(blocks: PageElements) -> Option<Seq<char>> {
    if blocks.len() > 0 {
        Some(spec_element_text(blocks[0].1))
    } else {
        None
    }
}

pub open spec fn function_info_correct(
    f: FunctionDocInfo,
    e: (Seq<char>, Seq<Seq<char>>, Seq<(Seq<char>, Seq<Seq<char>>, Option<Seq<char>>)>),
    desc: Option<Seq<char>>,
) -> bool {
    &&& f.name@ == item_name(e)
    &&& f.signature@ == item_code(e)
    &&& opt_view(f.description) == desc
    &&& f.parameters@.len() == 0
    &&& f.return_info is None
    &&& f.examples@.len() == 0
    &&& f.panics@.len() == 0
    &&& f.errors@.len() == 0
    &&& f.safety is None
}

pub open spec fn type_info_correct(
    t: TypeDocInfo,
    e: (Seq<char>, Seq<Seq<char>>, Seq<(Seq<char>, Seq<Seq<char>>, Option<Seq<char>>)>),
    desc: Option<Seq<char>>,
) -> bool {
    &&& t.name@ == item_name(e)
    &&& t.kind@ == spec_type_word(item_code(e))
    &&& opt_view(t.description) == desc
    &&& t.fields@.len() == 0
    &&& t.methods@.len() == 0
    &&& t.implementations@.len() == 0
    &&& t.examples@.len() == 0
}

pub open spec fn macro_info_correct(
    m: MacroDocInfo,
    e: (Seq<char>, Seq<Seq<char>>, Seq<(Seq<char>, Seq<Seq<char>>, Option<Seq<char>>)>),
    desc: Option<Seq<char>>,
) -> bool {
    &&& m.name@ == item_name(e)
    &&& opt_view(m.description) == desc
    &&& m.examples@.len() == 0
}

pub open spec fn constant_info_correct(
    c: ConstantDocInfo,
    e: (Seq<char>, Seq<Seq<char>>, Seq<(Seq<char>, Seq<Seq<char>>, Option<Seq<char>>)>),
    desc: Option<Seq<char>>,
) -> bool {
    &&& c.name@ == item_name(e)
    &&& c.type_info@ == item_code(e)
    &&& c.value is None
    &&& opt_view(c.description) == desc
}

/// The items of kind `k` on a page whose headings and blocks are `els`.
pub open spec fn page_items(els: PageElements, k: DocItemKind) -> Seq<
    ((Seq<char>, Seq<Seq<char>>, Seq<(Seq<char>, Seq<Seq<char>>, Option<Seq<char>>)>), Option<Seq<char>>),
> {
    items_of_kind(els, els.len(), k)
}

/// Each function record is built from the item at its position and the
/// documentation block that follows that item.
pub open spec fn functions_correct(v: Seq<FunctionDocInfo>, els: PageElements) -> bool {
    let fs = page_items(els, DocItemKind::Function);
    &&& v.len() == fs.len()
    &&& forall|i: int| 0 <= i < fs.len() ==> function_info_correct(#[trigger] v[i], fs[i].0, fs[i].1)
}

pub open spec fn types_correct(v: Seq<TypeDocInfo>, els: PageElements) -> bool {
    let ts = page_items(els, DocItemKind::Type);
    &&& v.len() == ts.len()
    &&& forall|i: int| 0 <= i < ts.len() ==> type_info_correct(#[trigger] v[i], ts[i].0, ts[i].1)
}

pub open spec fn macros_correct(v: Seq<MacroDocInfo>, els: PageElements) -> bool {
    let ms = page_items(els, DocItemKind::Macro);
    &&& v.len() == ms.len()
    &&& forall|i: int| 0 <= i < ms.len() ==> macro_info_correct(#[trigger] v[i], ms[i].0, ms[i].1)
}

pub open spec fn constants_correct(v: Seq<ConstantDocInfo>, els: PageElements) -> bool {
    let cs = page_items(els, DocItemKind::Constant);
    &&& v.len() == cs.len()
    &&& forall|i: int| 0 <= i < cs.len() ==> constant_info_correct(#[trigger] v[i], cs[i].0, cs[i].1)
}

/// The selection of functions, macros and constants: `h4` heading code and
/// documentation blocks, in the order scraper's `select` yields them.
pub const H4_ITEMS: &'static str = "h4 code, div.docblock";

/// The selection of types: `h3` heading code and documentation blocks, in
/// the order scraper's `select` yields them.
pub const H3_ITEMS: &'static str = "h3 code, div.docblock";

/// The module documentation of a page: its first documentation block, when
/// the block selector parses.
pub open spec fn page_module_doc(html: Seq<char>) -> Option<Option<Seq<char>>> {
    match spec_html_select(html, "div.docblock"@, "a"@) {
        Some(blocks) => Some(first_block_text(blocks)),
        None => None,
    }
}

/// What a page documents: its first documentation block, the functions,
/// macros and constants under `h4` headings and the types under `h3`
/// headings, each described by the documentation block that follows it.
pub open spec fn structured_info_correct(s: StructuredDocInfo, html: Seq<char>) -> bool {
    match (
        page_module_doc(html),
        spec_html_select(html, H4_ITEMS@, "a"@),
        spec_html_select(html, H3_ITEMS@, "a"@),
    ) {
        (Some(desc), Some(h4), Some(h3)) => {
            &&& opt_view(s.module_doc) == desc
            &&& functions_correct(s.functions@, h4)
            &&& types_correct(s.types@, h3)
            &&& macros_correct(s.macros@, h4)
            &&& constants_correct(s.constants@, h4)
        },
        _ => false,
    }
}

/// A page's selections all parse.
pub open spec fn page_parses(html: Seq<char>) -> bool {
    &&& spec_html_select(html, "div.docblock"@, "a"@) is Some
    &&& spec_html_select(html, H4_ITEMS@, "a"@) is Some
    &&& spec_html_select(html, H3_ITEMS@, "a"@) is Some
}

fn selector_error() -> (res: AnalyzerError)
    ensures
        res is AnalysisError,
{
    AnalyzerError::analysis_error(to_string("CSS选择器解析失败"), to_string("选择器无法解析"))
}

/// The module documentation of a page: its first documentation block.
fn extract_module_doc(html: &str) -> (res: Result<Option<String>, AnalyzerError>)
    ensures
        match page_module_doc(html@) {
            Some(d) => res matches Ok(o) && opt_view(o) == d,
            None => res is Err,
        },
{
    let blocks = match html_select(html, "div.docblock", "a") {
        Some(v) => v,
        None => {
            return Err(selector_error());
        },
    };
    proof {
        if blocks@.len() > 0 {
            assert(elements_view(blocks@)[0] == element_view(blocks@[0]));
        }
    }
    if blocks.len() > 0 {
        Ok(Some(element_text(&blocks[0].text)))
    } else {
        Ok(None)
    }
}

/// The functions documented under `h4` headings.
fn extract_function_docs(html: &str) -> (res: Result<Vec<FunctionDocInfo>, AnalyzerError>)
    ensures
        match spec_html_select(html@, H4_ITEMS@, "a"@) {
            Some(h4) => res matches Ok(v) && functions_correct(v@, h4),
            None => res is Err,
        },
{
    let h4 = match html_select(html, H4_ITEMS, "a") {
        Some(v) => v,
        None => {
            return Err(selector_error());
        },
    };
    let fs = elements_of_kind(&h4, DocItemKind::Function);
    let mut functions: Vec<FunctionDocInfo> = Vec::new();
    let mut i: usize = 0;
    while i < fs.len()
        invariant
            i <= fs.len(),
            functions@.len() == i,
            forall|t: int|
                0 <= t < i ==> {
                    &&& (#[trigger] functions@[t]).name@ == fs@[t].1@
                    &&& functions@[t].signature@ == fs@[t].0@
                    &&& functions@[t].description == fs@[t].2
                    &&& functions@[t].parameters@.len() == 0
                    &&& functions@[t].return_info is None
                    &&& functions@[t].examples@.len() == 0
                    &&& functions@[t].panics@.len() == 0
                    &&& functions@[t].errors@.len() == 0
                    &&& functions@[t].safety is None
                },
        decreases fs.len() - i,
    {
        functions.push(
            FunctionDocInfo {
                name: fs[i].1.clone(),
                signature: fs[i].0.clone(),
                description: copy_desc(&fs[i].2),
                parameters: Vec::new(),
                return_info: None,
                examples: Vec::new(),
                panics: Vec::new(),
                errors: Vec::new(),
                safety: None,
            },
        );
        i = i + 1;
    }
    Ok(functions)
}

fn copy_desc(d: &Option<String>) -> (res: Option<String>)
    ensures
        res == *d,
{
    match d {
        Some(s) => Some(s.clone()),
        None => None,
    }
}

/// The structs, enums and traits documented under `h3` headings.
fn extract_type_docs(html: &str) -> (res: Result<Vec<TypeDocInfo>, AnalyzerError>)
    ensures
        match spec_html_select(html@, H3_ITEMS@, "a"@) {
            Some(h3) => res matches Ok(v) && types_correct(v@, h3),
            None => res is Err,
        },
{
    let h3 = match html_select(html, H3_ITEMS, "a") {
        Some(v) => v,
        None => {
            return Err(selector_error());
        },
    };
    let ts = elements_of_kind(&h3, DocItemKind::Type);
    let ghost items = page_items(elements_view(h3@), DocItemKind::Type);
    let mut types: Vec<TypeDocInfo> = Vec::new();
    let mut i: usize = 0;
    proof {
        reveal_strlit("struct ");
        reveal_strlit("enum ");
        reveal_strlit("trait ");
    }
    while i < ts.len()
        invariant
            i <= ts.len(),
            types@.len() == i,
            forall|t: int|
                0 <= t < i ==> {
                    &&& (#[trigger] types@[t]).name@ == ts@[t].1@
                    &&& types@[t].kind@ == spec_type_word(ts@[t].0@)
                    &&& types@[t].description == ts@[t].2
                    &&& types@[t].fields@.len() == 0
                    &&& types@[t].methods@.len() == 0
                    &&& types@[t].implementations@.len() == 0
                    &&& types@[t].examples@.len() == 0
                },
        decreases ts.len() - i,
    {
        let code = ts[i].0.as_str();
        let kind = if str_contains(code, "struct ") {
            to_string("struct")
        } else if str_contains(code, "enum ") {
            to_string("enum")
        } else if str_contains(code, "trait ") {
            to_string("trait")
        } else {
            to_string("unknown")
        };
        types.push(
            TypeDocInfo {
                name: ts[i].1.clone(),
                kind,
                description: copy_desc(&ts[i].2),
                fields: Vec::new(),
                methods: Vec::new(),
                implementations: Vec::new(),
                examples: Vec::new(),
            },
        );
        i = i + 1;
    }
    proof {
        assert forall|t: int| 0 <= t < ts@.len() implies #[trigger] types@[t].kind@ == spec_type_word(
            item_code(items[t].0),
        ) by {
            assert(ts@[t].0@ == item_code(items[t].0));
        }
    }
    Ok(types)
}

/// The macros documented under `h4` headings.
fn extract_macro_docs(html: &str) -> (res: Result<Vec<MacroDocInfo>, AnalyzerError>)
    ensures
        match spec_html_select(html@, H4_ITEMS@, "a"@) {
            Some(h4) => res matches Ok(v) && macros_correct(v@, h4),
            None => res is Err,
        },
{
    let h4 = match html_select(html, H4_ITEMS, "a") {
        Some(v) => v,
        None => {
            return Err(selector_error());
        },
    };
    let ms = elements_of_kind(&h4, DocItemKind::Macro);
    let mut macros: Vec<MacroDocInfo> = Vec::new();
    let mut i: usize = 0;
    while i < ms.len()
        invariant
            i <= ms.len(),
            macros@.len() == i,
            forall|t: int|
                0 <= t < i ==> {
                    &&& (#[trigger] macros@[t]).name@ == ms@[t].1@
                    &&& macros@[t].description == ms@[t].2
                    &&& macros@[t].examples@.len() == 0
                },
        decreases ms.len() - i,
    {
        macros.push(MacroDocInfo { name: ms[i].1.clone(), description: copy_desc(&ms[i].2), examples: Vec::new() });
        i = i + 1;
    }
    Ok(macros)
}

/// The constants and statics documented under `h4` headings.
fn extract_constant_docs(html: &str) -> (res: Result<Vec<ConstantDocInfo>, AnalyzerError>)
    ensures
        match spec_html_select(html@, H4_ITEMS@, "a"@) {
            Some(h4) => res matches Ok(v) && constants_correct(v@, h4),
            None => res is Err,
        },
{
    let h4 = match html_select(html, H4_ITEMS, "a") {
        Some(v) => v,
        None => {
            return Err(selector_error());
        },
    };
    let cs = elements_of_kind(&h4, DocItemKind::Constant);
    let mut constants: Vec<ConstantDocInfo> = Vec::new();
    let mut i: usize = 0;
    while i < cs.len()
        invariant
            i <= cs.len(),
            constants@.len() == i,
            forall|t: int|
                0 <= t < i ==> {
                    &&& (#[trigger] constants@[t]).name@ == cs@[t].1@
                    &&& constants@[t].type_info@ == cs@[t].0@
                    &&& constants@[t].value is None
                    &&& constants@[t].description == cs@[t].2
                },
        decreases cs.len() - i,
    {
        constants.push(
            ConstantDocInfo {
                name: cs[i].1.clone(),
                type_info: cs[i].0.clone(),
                value: None,
                description: copy_desc(&cs[i].2),
            },
        );
        i = i + 1;
    }
    Ok(constants)
}

/// Extracts what a `cargo doc` page documents.
pub fn parse_html_content(html: &str) -> (res: Result<StructuredDocInfo, AnalyzerError>)
    ensures
        res matches Ok(s) ==> structured_info_correct(s, html@),
        res is Err <==> !page_parses(html@),
{
    let module_doc = extract_module_doc(html)?;
    let functions = extract_function_docs(html)?;
    let types = extract_type_docs(html)?;
    let macros = extract_macro_docs(html)?;
    let constants = extract_constant_docs(html)?;
    Ok(StructuredDocInfo { module_doc, functions, types, macros, constants })
}

// ---------------------------------------------------------------------------
// Source links
// ---------------------------------------------------------------------------

/// The pattern of a rustdoc source link: the source file's page and the
/// first line of the item.
pub const SRC_LINK_PATTERN: &'static str = "/src/([^#]+)\\.html#(\\d+)(?:-\\d+)?$";

/// The items that a source link is looked up for.
#[derive(Clone, Copy, PartialEq, Eq)]
pub enum SourceItemKind {
    Function,
    Type,
}

/// The heading code names the item.
pub open spec fn code_names_item(k: SourceItemKind, name: Seq<char>, code: Seq<char>) -> bool {
    match k {
        SourceItemKind::Function => spec_contains(code, "fn "@) && spec_contains(code, name),
        SourceItemKind::Type => (spec_contains(code, "struct "@) || spec_contains(code, "enum "@)
            || spec_contains(code, "trait "@)) && spec_contains(code, name),
    }
}

/// What follows the last `/` of a path.
pub open spec fn spec_last_segment(p: Seq<char>) -> Seq<char> {
    match spec_rfind(p, "/"@) {
        Some(i) => p.subrange(i + 1, p.len() as int),
        None => p,
    }
}

/// What a link tells: `None` when the search goes on past it, `Some(r)` when
/// it ends the search with `r`: the file name and line of a source link, or
/// `None` where the link cannot be read.
pub open spec fn link_outcome(href: Option<Seq<char>>) -> Option<Option<(Seq<char>, u32)>> {
    match href {
        None => None,
        Some(h) => if !spec_contains(h, "/src/"@) {
            None
        } else {
            match spec_regex_first_captures(SRC_LINK_PATTERN@, h) {
                None => Some(None),
                Some(None) => None,
                Some(Some(groups)) => if groups.len() > 2 && groups[1] is Some && groups[2] is Some {
                    match spec_parse_u32(groups[2]->0) {
                        Some(line) => Some(Some((spec_last_segment(groups[1]->0), line))),
                        None => Some(None),
                    }
                } else {
                    Some(None)
                },
            }
        },
    }
}

/// The first outcome among the links of a heading.
pub open spec fn scan_links(ds: Seq<(Seq<char>, Seq<Seq<char>>, Option<Seq<char>>)>) -> Option<Option<(Seq<char>, u32)>>
    decreases ds.len(),
{
    if ds.len() == 0 {
        None
    } else if ds[0].0 == "a"@ && link_outcome(ds[0].2) is Some {
        link_outcome(ds[0].2)
    } else {
        scan_links(ds.drop_first())
    }
}

/// The text nodes of the first `code` element of a heading.
pub open spec fn first_code(ds: Seq<(Seq<char>, Seq<Seq<char>>, Option<Seq<char>>)>) -> Option<Seq<Seq<char>>>
    decreases ds.len(),
{
    if ds.len() == 0 {
        None
    } else if ds[0].0 == "code"@ {
        Some(ds[0].1)
    } else {
        first_code(ds.drop_first())
    }
}

/// The source location given by the first heading that names the item and
/// holds a source link.
pub open spec fn scan_headings(
    hs: Seq<(Seq<char>, Seq<Seq<char>>, Seq<(Seq<char>, Seq<Seq<char>>, Option<Seq<char>>)>)>,
    k: SourceItemKind,
    name: Seq<char>,
) -> Option<(Seq<char>, u32)>
    decreases hs.len(),
{
    if hs.len() == 0 {
        None
    } else {
        match first_code(hs[0].2) {
            Some(ct) => if code_names_item(k, name, spec_element_text(ct)) && scan_links(hs[0].2) is Some {
                scan_links(hs[0].2)->0
            } else {
                scan_headings(hs.drop_first(), k, name)
            },
            None => scan_headings(hs.drop_first(), k, name),
        }
    }
}

/// The source file name and first line that a page gives for an item.
pub open spec fn spec_item_source_location(html: Seq<char>, k: SourceItemKind, name: Seq<char>) -> Option<(Seq<char>, u32)> {
    match spec_html_select(html, "h3, h4"@, "code, a"@) {
        Some(hs) => scan_headings(hs, k, name),
        None => None,
    }
}

pub open spec fn loc_view(r: Option<(String, u32)>) -> Option<(Seq<char>, u32)> {
    match r {
        Some(p) => Some((p.0@, p.1)),
        None => None,
    }
}

fn last_segment(p: &str) -> (res: String)
    ensures
        res@ == spec_last_segment(p@),
{
    let cs = chars_of(p);
    let slash = chars_of("/");
    proof {
        reveal_strlit("/");
    }
    match rfind(cs.as_slice(), slash.as_slice()) {
        Some(i) => {
            proof {
                lemma_rfind_below_props(cs@, slash@, cs@.len() + 1int);
                assert(matches_at(cs@, slash@, i as int));
            }
            assert(i + 1 <= cs.len());
            slice_string(cs.as_slice(), i + 1, cs.len())
        },
        None => to_string(p),
    }
}

fn link_location(href: &Option<String>) -> (res: Option<Option<(String, u32)>>)
    ensures
        match res {
            Some(r) => link_outcome(opt_view(*href)) == Some(loc_view(r)),
            None => link_outcome(opt_view(*href)) is None,
        },
{
    match href {
        None => None,
        Some(h) => {
            if !str_contains(h.as_str(), "/src/") {
                return None;
            }
            match regex_first_captures(SRC_LINK_PATTERN, h.as_str()) {
                None => Some(None),
                Some(None) => None,
                Some(Some(groups)) => {
                    proof {
                        assert(opt_string_seq_view(groups@).len() == groups@.len());
                    }
                    if groups.len() > 2 {
                        match (&groups[1], &groups[2]) {
                            (Some(path), Some(line_text)) => {
                                proof {
                                    assert(opt_string_seq_view(groups@)[1] == Some(path@));
                                    assert(opt_string_seq_view(groups@)[2] == Some(line_text@));
                                }
                                match parse_u32(line_text.as_str()) {
                                    Some(line) => Some(Some((last_segment(path.as_str()), line))),
                                    None => Some(None),
                                }
                            },
                            _ => {
                                proof {
                                    assert(opt_string_seq_view(groups@)[1] == match groups@[1] {
                                        Some(x) => Some(x@),
                                        None => None::<Seq<char>>,
                                    });
                                    assert(opt_string_seq_view(groups@)[2] == match groups@[2] {
                                        Some(x) => Some(x@),
                                        None => None::<Seq<char>>,
                                    });
                                }
                                Some(None)
                            },
                        }
                    } else {
                        Some(None)
                    }
                },
            }
        },
    }
}


/// The position of the first `code` element among a heading's descendants.
fn first_code_index(inner: &Vec<HtmlInner>) -> (res: Option<usize>)
    ensures
        res matches Some(ci) ==> ci < inner@.len() && first_code(
            inner@.map_values(|d: HtmlInner| inner_view(d)),
        ) == Some(string_views(inner@[ci as int].text@)),
        res is None ==> first_code(inner@.map_values(|d: HtmlInner| inner_view(d))) is None,
{
    let ghost ds = inner@.map_values(|d: HtmlInner| inner_view(d));
    proof {
        reveal_strlit("code");
    }
    let mut c: usize = 0;
    assert(ds.subrange(0, ds.len() as int) =~= ds);
    while c < inner.len()
        invariant
            c <= inner.len(),
            ds == inner@.map_values(|d: HtmlInner| inner_view(d)),
            first_code(ds) == first_code(ds.subrange(c as int, ds.len() as int)),
        decreases inner.len() - c,
    {
        let ghost sub = ds.subrange(c as int, ds.len() as int);
        assert(sub[0] == inner_view(inner@[c as int]));
        assert(sub.drop_first() =~= ds.subrange(c + 1, ds.len() as int));
        if str_eq(inner[c].name.as_str(), "code") {
            return Some(c);
        }
        c = c + 1;
    }
    None
}

/// The first outcome among a heading's links.
fn heading_links(inner: &Vec<HtmlInner>) -> (res: Option<Option<(String, u32)>>)
    ensures
        res matches Some(r) ==> scan_links(inner@.map_values(|d: HtmlInner| inner_view(d))) == Some(loc_view(r)),
        res is None ==> scan_links(inner@.map_values(|d: HtmlInner| inner_view(d))) is None,
{
    let ghost ds = inner@.map_values(|d: HtmlInner| inner_view(d));
    proof {
        reveal_strlit("a");
    }
    let mut l: usize = 0;
    assert(ds.subrange(0, ds.len() as int) =~= ds);
    while l < inner.len()
        invariant
            l <= inner.len(),
            ds == inner@.map_values(|d: HtmlInner| inner_view(d)),
            scan_links(ds) == scan_links(ds.subrange(l as int, ds.len() as int)),
        decreases inner.len() - l,
    {
        let ghost sub = ds.subrange(l as int, ds.len() as int);
        assert(sub[0] == inner_view(inner@[l as int]));
        assert(sub.drop_first() =~= ds.subrange(l + 1, ds.len() as int));
        let d = &inner[l];
        if str_eq(d.name.as_str(), "a") {
            match link_location(&d.href) {
                Some(r) => {
                    return Some(r);
                },
                None => {},
            }
        }
        l = l + 1;
    }
    None
}

/// Finds, in a page, the source file name and first line of the item of kind
/// `k` whose heading names `name`.
pub fn find_item_source_location_in_html(html: &str, k: SourceItemKind, name: &str) -> (res: Option<(String, u32)>)
    ensures
        loc_view(res) == spec_item_source_location(html@, k, name@),
{
    let hs = match html_select(html, "h3, h4", "code, a") {
        Some(v) => v,
        None => {
            return None;
        },
    };
    let ghost hv = elements_view(hs@);
    proof {
        reveal_strlit("a");
        reveal_strlit("code");
        reveal_strlit("fn ");
        reveal_strlit("struct ");
        reveal_strlit("enum ");
        reveal_strlit("trait ");
    }
    let mut i: usize = 0;
    assert(hv.subrange(0, hv.len() as int) =~= hv);
    while i < hs.len()
        invariant
            i <= hs.len(),
            hv == elements_view(hs@),
            spec_item_source_location(html@, k, name@) == scan_headings(hv.subrange(i as int, hv.len() as int), k, name@),
        decreases hs.len() - i,
    {
        let ghost rest = hv.subrange(i as int, hv.len() as int);
        let h = &hs[i];
        let ghost ds = element_view(*h).2;
        proof {
            assert(rest[0] == element_view(*h));
            assert(rest.drop_first() =~= hv.subrange(i + 1, hv.len() as int));
        }
        match first_code_index(&h.inner) {
            Some(ci) => {
                let code = element_text(&h.inner[ci].text);
                if code_names(k, code.as_str(), name) {
                    match heading_links(&h.inner) {
                        Some(r) => {
                            return r;
                        },
                        None => {},
                    }
                }
            },
            None => {},
        }
        i = i + 1;
    }
    None
}

fn code_names(k: SourceItemKind, code: &str, name: &str) -> (res: bool)
    ensures
        res == code_names_item(k, name@, code@),
{
    match k {
        SourceItemKind::Function => str_contains(code, "fn ") && str_contains(code, name),
        SourceItemKind::Type => (str_contains(code, "struct ") || str_contains(code, "enum ")
            || str_contains(code, "trait ")) && str_contains(code, name),
    }
}

// ---------------------------------------------------------------------------
// The integrator
// ---------------------------------------------------------------------------

/// A page that `cargo doc` wrote: its path and its text.
pub struct HtmlFile {
    pub path: String,
    pub content: String,
}

/// The module a page documents: its path below the documentation
/// directory, without extension, with `::` for each separator.
pub open spec fn spec_doc_module_name(file: Seq<char>, dir: Seq<char>) -> Option<Seq<char>> {
    match spec_strip_prefix(file, dir) {
        Some(c) => Some(spec_replace(
            spec_replace(spec_join(spec_stem_components(c), "/"@), "/"@, "::"@),
            "\\"@,
            "::"@,
        )),
        None => None,
    }
}

/// Reads the pages that `cargo doc` writes under `target/doc` of a project.
pub struct CargoDocIntegrator {
    project_root: String,
    doc_output_dir: String,
    parsed_docs: StringMap<CargoDocInfo>,
}

/// The record a page gives, when its path lies below the documentation
/// directory and its selections parse.
pub open spec fn page_record_ok(d: CargoDocInfo, f: HtmlFile, dir: Seq<char>) -> bool {
    &&& spec_doc_module_name(f.path@, dir) == Some(d.module_name@)
    &&& d.html_content@ == f.content@
    &&& structured_info_correct(d.structured_info, f.content@)
}

pub open spec fn page_readable(f: HtmlFile, dir: Seq<char>) -> bool {
    spec_doc_module_name(f.path@, dir) is Some && page_parses(f.content@)
}

/// The last readable page among `fs` whose module is `m`.
pub open spec fn last_page_of(fs: Seq<HtmlFile>, dir: Seq<char>, m: Seq<char>) -> Option<HtmlFile>
    decreases fs.len(),
{
    if fs.len() == 0 {
        None
    } else if page_readable(fs.last(), dir) && spec_doc_module_name(fs.last().path@, dir) == Some(m) {
        Some(fs.last())
    } else {
        last_page_of(fs.drop_last(), dir, m)
    }
}

/// After reading `fs`, module `m` holds the record of its last readable
/// page, or what it held before when no page of `fs` documents it.
pub open spec fn pages_recorded(now: CargoDocIntegrator, before: CargoDocIntegrator, fs: Seq<HtmlFile>, m: Seq<char>) -> bool {
    match last_page_of(fs, before.spec_doc_output_dir(), m) {
        Some(f) => now.doc_of(m) matches Some(d) && page_record_ok(d, f, before.spec_doc_output_dir()),
        None => now.doc_of(m) == before.doc_of(m),
    }
}

impl CargoDocIntegrator {
    pub closed spec fn spec_project_root(&self) -> Seq<char> {
        self.project_root@
    }

    pub closed spec fn spec_doc_output_dir(&self) -> Seq<char> {
        self.doc_output_dir@
    }

    /// The record stored for module `m`.
    pub closed spec fn doc_of(&self, m: Seq<char>) -> Option<CargoDocInfo> {
        self.parsed_docs.lookup(m)
    }

    /// The modules with a stored record, in the order they were stored.
    pub closed spec fn doc_modules(&self) -> Seq<Seq<char>> {
        self.parsed_docs.key_seq()
    }

    pub closed spec fn wf(&self) -> bool {
        self.parsed_docs.wf()
    }

    /// An integrator for the project at `project_root`, whose pages lie in
    /// `target/doc` below it.
    pub fn new(project_root: String) -> (res: Self)
        ensures
            res.wf(),
            res.spec_project_root() == project_root@,
            res.spec_doc_output_dir() == spec_path_join(spec_path_join(project_root@, "target"@), "doc"@),
            forall|m: Seq<char>| res.doc_of(m) is None,
    {
        let t = path_join(project_root.as_str(), "target");
        let doc_output_dir = path_join(t.as_str(), "doc");
        CargoDocIntegrator { project_root, doc_output_dir, parsed_docs: StringMap::new() }
    }

    /// The project directory.
    pub fn project_root(&self) -> (res: &String)
        ensures
            res@ == self.spec_project_root(),
    {
        &self.project_root
    }

    /// The directory rustdoc writes its pages to.
    pub fn doc_output_dir(&self) -> (res: &String)
        ensures
            res@ == self.spec_doc_output_dir(),
    {
        &self.doc_output_dir
    }

    /// The module a page documents, from its path below the documentation
    /// directory.
    pub fn extract_module_name_from_path(&self, html_file: &str) -> (res: Result<String, AnalyzerError>)
        ensures
            res matches Ok(m) ==> spec_doc_module_name(html_file@, self.spec_doc_output_dir()) == Some(m@),
            res is Err <==> spec_doc_module_name(html_file@, self.spec_doc_output_dir()) is None,
    {
        match strip_prefix_components(html_file, self.doc_output_dir.as_str()) {
            None => Err(
                AnalyzerError::analysis_error(to_string("无法计算相对路径"), to_string(html_file)),
            ),
            Some(c) => {
                let stemmed = stem_last_component(c);
                let mut parts: Vec<String> = Vec::new();
                let mut i: usize = 0;
                while i < stemmed.len()
                    invariant
                        i <= stemmed.len(),
                        string_views(parts@) == views(stemmed@).take(i as int),
                    decreases stemmed.len() - i,
                {
                    let ghost before = parts@;
                    parts.push(crate::text::string_of(stemmed[i].as_slice()));
                    proof {
                        lemma_string_views_push(before, parts@.last());
                        assert(views(stemmed@).take(i + 1) =~= views(stemmed@).take(i as int).push(
                            stemmed@[i as int]@,
                        ));
                    }
                    i = i + 1;
                }
                proof {
                    assert(views(stemmed@).take(stemmed@.len() as int) =~= views(stemmed@));
                    reveal_strlit("/");
                    reveal_strlit("\\");
                }
                let joined = join(&parts, "/");
                let a = replace(joined.as_str(), "/", "::");
                Ok(replace(a.as_str(), "\\", "::"))
            },
        }
    }

    /// The record of one page, when its path lies below the documentation
    /// directory and its selections parse.
    fn parse_html_file(&self, file: &HtmlFile) -> (res: Result<CargoDocInfo, AnalyzerError>)
        ensures
            res matches Ok(d) ==> page_record_ok(d, *file, self.spec_doc_output_dir()),
            res is Err <==> !page_readable(*file, self.spec_doc_output_dir()),
    {
        let module_name = match self.extract_module_name_from_path(file.path.as_str()) {
            Ok(m) => m,
            Err(e) => {
                return Err(e);
            },
        };
        let structured_info = match parse_html_content(file.content.as_str()) {
            Ok(s) => s,
            Err(e) => {
                return Err(e);
            },
        };
        Ok(CargoDocInfo { module_name, html_content: file.content.clone(), structured_info })
    }

    /// Records each readable page under its module, a later page replacing an
    /// earlier one of the same module; pages whose path or selections cannot
    /// be read are passed over. `html_files` is `None` when the documentation
    /// directory does not exist.
    pub fn parse_generated_docs(&mut self, html_files: Option<Vec<HtmlFile>>) -> (res: Result<(), AnalyzerError>)
        requires
            old(self).wf(),
        ensures
            final(self).wf(),
            final(self).spec_project_root() == old(self).spec_project_root(),
            final(self).spec_doc_output_dir() == old(self).spec_doc_output_dir(),
            html_files is None ==> *final(self) == *old(self) && (res matches Err(
                AnalyzerError::AnalysisError { context, message },
            ) && context@ == "文档目录不存在"@ && message@ == "路径: "@ + old(self).spec_doc_output_dir()),
            html_files matches Some(fs) ==> res is Ok && forall|m: Seq<char>|
                #[trigger] pages_recorded(*final(self), *old(self), fs@, m),
    {
        match html_files {
            None => Err(
                AnalyzerError::analysis_error(
                    to_string("文档目录不存在"),
                    crate::text::concat("路径: ", self.doc_output_dir.as_str()),
                ),
            ),
            Some(files) => {
                let mut i: usize = 0;
                while i < files.len()
                    invariant
                        i <= files.len(),
                        self.wf(),
                        self.spec_project_root() == old(self).spec_project_root(),
                        self.spec_doc_output_dir() == old(self).spec_doc_output_dir(),
                        forall|m: Seq<char>| #[trigger] pages_recorded(*self, *old(self), files@.take(i as int), m),
                    decreases files.len() - i,
                {
                    let ghost before = *self;
                    let ghost dir = self.spec_doc_output_dir();
                    proof {
                        assert(files@.take(i + 1).drop_last() =~= files@.take(i as int));
                        assert(files@.take(i + 1).last() == files@[i as int]);
                    }
                    match self.parse_html_file(&files[i]) {
                        Ok(d) => {
                            let key = d.module_name.clone();
                            let ghost dk = d;
                            self.parsed_docs.insert(key, d);
                            proof {
                                assert forall|m: Seq<char>| #[trigger] pages_recorded(*self, *old(self), files@.take(i + 1), m) by {
                                    if m != dk.module_name@ {
                                        assert(pages_recorded(before, *old(self), files@.take(i as int), m));
                                    }
                                }
                            }
                        },
                        Err(_) => {
                            proof {
                                assert forall|m: Seq<char>| #[trigger] pages_recorded(*self, *old(self), files@.take(i + 1), m) by {
                                    assert(pages_recorded(before, *old(self), files@.take(i as int), m));
                                }
                            }
                        },
                    }
                    i = i + 1;
                }
                proof {
                    assert(files@.take(files@.len() as int) =~= files@);
                }
                Ok(())
            },
        }
    }

    /// The records read so far, by module.
    pub fn get_parsed_docs(&self) -> (res: &StringMap<CargoDocInfo>)
        ensures
            forall|m: Seq<char>| #[trigger] res.lookup(m) == self.doc_of(m),
            res.key_seq() == self.doc_modules(),
            self.wf() ==> res.wf(),
    {
        &self.parsed_docs
    }

    /// Runs the whole integration once `cargo doc` has run: `generated` is
    /// what running it gave, `html_files` the pages it wrote (`None` when the
    /// documentation directory does not exist).
    pub fn integrate_cargo_doc(
        &mut self,
        generated: Result<(), AnalyzerError>,
        html_files: Option<Vec<HtmlFile>>,
    ) -> (res: Result<(), AnalyzerError>)
        requires
            old(self).wf(),
        ensures
            final(self).wf(),
            generated is Err ==> res == generated && *final(self) == *old(self),
            generated is Ok && html_files is None ==> *final(self) == *old(self) && (res matches Err(
                AnalyzerError::AnalysisError { context, message },
            ) && context@ == "文档目录不存在"@ && message@ == "路径: "@ + old(self).spec_doc_output_dir()),
            generated is Ok ==> (html_files matches Some(fs) ==> res is Ok && forall|m: Seq<char>|
                #[trigger] pages_recorded(*final(self), *old(self), fs@, m)),
    {
        match generated {
            Err(e) => Err(e),
            Ok(()) => self.parse_generated_docs(html_files),
        }
    }

    /// The source file name and first line of function `func_name` on the
    /// page of module `module_name`.
    pub fn find_function_source_location(&self, module_name: &str, func_name: &str) -> (res: Option<(String, u32)>)
        requires
            self.wf(),
        ensures
            loc_view(res) == match self.doc_of(module_name@) {
                Some(d) => spec_item_source_location(d.html_content@, SourceItemKind::Function, func_name@),
                None => None,
            },
    {
        match self.parsed_docs.get(module_name) {
            Some(doc) => find_item_source_location_in_html(
                doc.html_content.as_str(),
                SourceItemKind::Function,
                func_name,
            ),
            None => None,
        }
    }

    /// The source file name and first line of the struct, enum or trait
    /// `item_name_text` on the page of module `module_name`.
    pub fn find_type_source_location(&self, module_name: &str, item_name_text: &str) -> (res: Option<(String, u32)>)
        requires
            self.wf(),
        ensures
            loc_view(res) == match self.doc_of(module_name@) {
                Some(d) => spec_item_source_location(d.html_content@, SourceItemKind::Type, item_name_text@),
                None => None,
            },
    {
        match self.parsed_docs.get(module_name) {
            Some(doc) => find_item_source_location_in_html(doc.html_content.as_str(), SourceItemKind::Type, item_name_text),
            None => None,
        }
    }
}

} // verus!
