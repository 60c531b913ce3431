//! The documentation report: project, modules, functions, types, macros and
//! constants, with what their doc comments say of parameters, return values,
//! errors, fields and examples.
use vstd::prelude::*;
use crate::doc_analyzer::{DocInfo, DocMap};
use crate::error::AnalyzerError;
use crate::output::{MethodOutput, StructOutput};
use crate::cargo_integration::{
    FeatureInfo, PackageInfo, ProjectMetadata, TargetInfo, TomlEntry, TomlValue, parse_toml, spec_parse_toml, table_get,
    table_lookup, vec_has,
};
use crate::utils::{components, is_normal, spec_components, spec_stem_components, stem_last_component};
use crate::text::{
    chars_of, concat, contains, copy_opt, copy_strings, find, join, opt_view, rfind, seq_eq,
    slice_chars, slice_string, spec_contains, spec_find, spec_join, spec_lines, spec_rfind,
    spec_split, spec_starts_with, spec_trim, split_str, starts_with, str_contains, str_ends_with,
    str_lines, string_of, string_views, to_string, trim, views, lemma_find_from_props, str_eq,
    lemma_rfind_below_props, lemma_string_views_push, matches_at, spec_ends_with,
};

verus! {

// ---------------------------------------------------------------------------
// Sections of doc comments
// ---------------------------------------------------------------------------

/// A heading line: it starts with `# ` or `## `.
pub open spec fn is_heading(l: Seq<char>) -> bool {
    spec_starts_with(l, "# "@) || spec_starts_with(l, "## "@)
}

/// The line opens the section called `word` (`# word` or `## word`).
pub open spec fn opens_section(l: Seq<char>, word: Seq<char>) -> bool {
    spec_starts_with(l, "# "@ + word) || spec_starts_with(l, "## "@ + word)
}

/// The description given on a list line `- name: text` or `* name: text`:
/// the trimmed text after the first colon.
pub open spec fn item_description(l: Seq<char>, name: Seq<char>) -> Option<Seq<char>> {
    if spec_starts_with(l, "- "@ + name) || spec_starts_with(l, "* "@ + name) {
        match spec_find(l, ":"@) {
            Some(d) => Some(spec_trim(l.subrange(d + 1, l.len() as int))),
            None => None,
        }
    } else {
        None
    }
}

/// The first description of `name` in the section that starts at line `j`,
/// which ends before the next heading.
pub open spec fn described_in_section(ls: Seq<Seq<char>>, j: int, name: Seq<char>) -> Option<Seq<char>>
    decreases ls.len() - j,
{
    if j < 0 || j >= ls.len() {
        None
    } else {
        match item_description(spec_trim(ls[j]), name) {
            Some(d) => Some(d),
            None => if is_heading(spec_trim(ls[j])) {
                None
            } else {
                described_in_section(ls, j + 1, name)
            },
        }
    }
}

/// The first description of `name` in a section called `word`, searching
/// the sections from line `i` on.
pub open spec fn described_from(ls: Seq<Seq<char>>, i: int, word: Seq<char>, name: Seq<char>) -> Option<Seq<char>>
    decreases ls.len() - i,
{
    if i < 0 || i >= ls.len() {
        None
    } else if opens_section(spec_trim(ls[i]), word) {
        match described_in_section(ls, i + 1, name) {
            Some(d) => Some(d),
            None => described_from(ls, i + 1, word, name),
        }
    } else {
        described_from(ls, i + 1, word, name)
    }
}

/// The description of `name` in the `word` section of a doc comment.
pub open spec fn spec_described(doc: Option<Seq<char>>, word: Seq<char>, name: Seq<char>) -> Option<Seq<char>> {
    match doc {
        Some(c) => described_from(spec_lines(c), 0, word, name),
        None => None,
    }
}

fn item_description_exec(l: &[char], name: &str) -> (res: Option<String>)
    ensures
        opt_view(res) == item_description(l@, name@),
{
    let dash = concat("- ", name);
    let star = concat("* ", name);
    let dc = chars_of(dash.as_str());
    let sc = chars_of(star.as_str());
    if starts_with(l, dc.as_slice()) || starts_with(l, sc.as_slice()) {
        let colon = chars_of(":");
        proof {
            reveal_strlit(":");
        }
        match find(l, colon.as_slice()) {
            Some(d) => {
                proof {
                    lemma_find_from_props(l@, colon@, 0);
                    assert(colon@.len() == 1);
                    assert(matches_at(l@, colon@, d as int));
                }
                assert(d + 1 <= l.len());
                let rest = slice_chars(l, d + 1, l.len());
                let t = trim(rest.as_slice());
                Some(string_of(t.as_slice()))
            },
            None => None,
        }
    } else {
        None
    }
}

fn is_heading_exec(l: &[char]) -> (res: bool)
    ensures
        res == is_heading(l@),
{
    let a = chars_of("# ");
    let b = chars_of("## ");
    starts_with(l, a.as_slice()) || starts_with(l, b.as_slice())
}

fn opens_section_exec(l: &[char], word: &str) -> (res: bool)
    ensures
        res == opens_section(l@, word@),
{
    let a = concat("# ", word);
    let b = concat("## ", word);
    let ac = chars_of(a.as_str());
    let bc = chars_of(b.as_str());
    starts_with(l, ac.as_slice()) || starts_with(l, bc.as_slice())
}

fn described_exec(ls: &Vec<Vec<char>>, word: &str, name: &str) -> (res: Option<String>)
    ensures
        opt_view(res) == described_from(views(ls@), 0, word@, name@),
{
    let n = ls.len();
    let ghost vs = views(ls@);
    let mut i: usize = 0;
    while i < n
        invariant
            n == ls.len(),
            vs == views(ls@),
            i <= n,
            described_from(vs, 0, word@, name@) == described_from(vs, i as int, word@, name@),
        decreases n - i,
    {
        let t = trim(ls[i].as_slice());
        assert(vs[i as int] == ls@[i as int]@);
        if opens_section_exec(t.as_slice(), word) {
            let mut j: usize = i + 1;
            let mut done = false;
            while j < n && !done
                invariant
                    n == ls.len(),
                    vs == views(ls@),
                    i < j <= n,
                    opens_section(spec_trim(vs[i as int]), word@),
                    described_from(vs, 0, word@, name@) == described_from(vs, i as int, word@, name@),
                    !done ==> described_in_section(vs, i + 1, name@) == described_in_section(vs, j as int, name@),
                    done ==> described_in_section(vs, i + 1, name@) is None,
                decreases n - j + (if done { 0int } else { 1int }),
            {
                let pl = trim(ls[j].as_slice());
                assert(vs[j as int] == ls@[j as int]@);
                match item_description_exec(pl.as_slice(), name) {
                    Some(d) => {
                        return Some(d);
                    },
                    None => {},
                }
                if is_heading_exec(pl.as_slice()) {
                    done = true;
                } else {
                    j = j + 1;
                }
            }
        }
        i = i + 1;
    }
    None
}

/// The first item after a line that opens the `Returns` section, trimmed.
pub open spec fn returns_from(ls: Seq<Seq<char>>, i: int) -> Option<Seq<char>>
    decreases ls.len() - i,
{
    if i < 0 || i >= ls.len() {
        None
    } else if opens_section(spec_trim(ls[i]), "Returns"@) && i + 1 < ls.len() {
        Some(spec_trim(ls[i + 1]))
    } else {
        returns_from(ls, i + 1)
    }
}

/// The list items of a section from line `j` to the next heading, each
/// without its two-character bullet.
pub open spec fn errors_in_section(ls: Seq<Seq<char>>, j: int) -> Seq<Seq<char>>
    decreases ls.len() - j,
{
    if j < 0 || j >= ls.len() {
        Seq::empty()
    } else {
        let el = spec_trim(ls[j]);
        if spec_starts_with(el, "- "@) || spec_starts_with(el, "* "@) {
            seq![el.subrange(2, el.len() as int)] + errors_in_section(ls, j + 1)
        } else if is_heading(el) {
            Seq::empty()
        } else {
            errors_in_section(ls, j + 1)
        }
    }
}

/// The list items of every `Errors` section from line `i` on.
pub open spec fn errors_from(ls: Seq<Seq<char>>, i: int) -> Seq<Seq<char>>
    decreases ls.len() - i,
{
    if i < 0 || i >= ls.len() {
        Seq::empty()
    } else if opens_section(spec_trim(ls[i]), "Errors"@) {
        errors_in_section(ls, i + 1) + errors_from(ls, i + 1)
    } else {
        errors_from(ls, i + 1)
    }
}

/// The state of the example scan: examples found, inside a code fence, lines
/// of the current example.
pub open spec fn example_step(
    st: (Seq<Seq<char>>, bool, Seq<Seq<char>>),
    line: Seq<char>,
) -> (Seq<Seq<char>>, bool, Seq<Seq<char>>) {
    if spec_starts_with(spec_trim(line), "```"@) {
        if st.1 {
            (
                if st.2.len() > 0 {
                    st.0.push(spec_join(st.2, "\n"@))
                } else {
                    st.0
                },
                false,
                Seq::empty(),
            )
        } else {
            (st.0, true, st.2)
        }
    } else if st.1 {
        (st.0, true, st.2.push(line))
    } else {
        st
    }
}

pub open spec fn examples_fold(ls: Seq<Seq<char>>) -> (Seq<Seq<char>>, bool, Seq<Seq<char>>)
    decreases ls.len(),
{
    if ls.len() == 0 {
        (Seq::empty(), false, Seq::empty())
    } else {
        example_step(examples_fold(ls.drop_last()), ls.last())
    }
}

/// The code blocks between ``` fences of a doc comment, each non-empty one
/// as its lines joined by line feeds.
pub open spec fn spec_examples(doc: Option<Seq<char>>) -> Seq<Seq<char>> {
    match doc {
        Some(c) => examples_fold(spec_lines(c)).0,
        None => Seq::empty(),
    }
}

/// The value after ` = ` in a signature, up to the first `;`, trimmed.
pub open spec fn spec_value_from_signature(sig: Seq<char>) -> Option<Seq<char>> {
    match spec_find(sig, " = "@) {
        Some(pos) => {
            let v = sig.subrange(pos + 3, sig.len() as int);
            match spec_find(v, ";"@) {
                Some(e) => Some(spec_trim(v.subrange(0, e))),
                None => Some(spec_trim(v)),
            }
        },
        None => None,
    }
}

fn returns_exec(ls: &Vec<Vec<char>>) -> (res: Option<String>)
    ensures
        opt_view(res) == returns_from(views(ls@), 0),
{
    let n = ls.len();
    let ghost vs = views(ls@);
    let mut i: usize = 0;
    while i < n
        invariant
            n == ls.len(),
            vs == views(ls@),
            i <= n,
            returns_from(vs, 0) == returns_from(vs, i as int),
        decreases n - i,
    {
        let t = trim(ls[i].as_slice());
        assert(vs[i as int] == ls@[i as int]@);
        if opens_section_exec(t.as_slice(), "Returns") && i + 1 < n {
            let r = trim(ls[i + 1].as_slice());
            assert(vs[i + 1] == ls@[i + 1]@);
            return Some(string_of(r.as_slice()));
        }
        i = i + 1;
    }
    None
}

fn errors_exec(ls: &Vec<Vec<char>>) -> (res: Vec<String>)
    ensures
        string_views(res@) == errors_from(views(ls@), 0),
{
    let n = ls.len();
    let ghost vs = views(ls@);
    let mut out: Vec<String> = Vec::new();
    let mut i: usize = 0;
    let dash = chars_of("- ");
    let star = chars_of("* ");
    proof {
        reveal_strlit("- ");
        reveal_strlit("* ");
    }
    assert(string_views(out@) + errors_from(vs, 0) =~= errors_from(vs, 0));
    while i < n
        invariant
            n == ls.len(),
            vs == views(ls@),
            i <= n,
            dash@ == "- "@,
            star@ == "* "@,
            dash@.len() == 2,
            star@.len() == 2,
            errors_from(vs, 0) == string_views(out@) + errors_from(vs, i as int),
        decreases n - i,
    {
        let t = trim(ls[i].as_slice());
        assert(vs[i as int] == ls@[i as int]@);
        if opens_section_exec(t.as_slice(), "Errors") {
            let ghost base = string_views(out@);
            let mut j: usize = i + 1;
            let mut done = false;
            assert(errors_in_section(vs, i + 1) =~= Seq::<Seq<char>>::empty() + errors_in_section(vs, i + 1));
            while j < n && !done
                invariant
                    n == ls.len(),
                    vs == views(ls@),
                    i < j <= n,
                    dash@ == "- "@,
                    star@ == "* "@,
                    dash@.len() == 2,
                    star@.len() == 2,
                    string_views(out@).len() >= base.len(),
                    string_views(out@).subrange(0, base.len() as int) == base,
                    !done ==> errors_in_section(vs, i + 1) == string_views(out@).subrange(base.len() as int, string_views(out@).len() as int) + errors_in_section(vs, j as int),
                    done ==> errors_in_section(vs, i + 1) == string_views(out@).subrange(base.len() as int, string_views(out@).len() as int),
                decreases n - j + (if done { 0int } else { 1int }),
            {
                let el = trim(ls[j].as_slice());
                assert(vs[j as int] == ls@[j as int]@);
                let ghost before = out@;
                if starts_with(el.as_slice(), dash.as_slice()) || starts_with(el.as_slice(), star.as_slice()) {
                    let item = slice_string(el.as_slice(), 2, el.len());
                    out.push(item);
                    proof {
                        lemma_string_views_push(before, item);
                        let sv = string_views(out@);
                        assert(sv.subrange(0, base.len() as int) =~= string_views(before).subrange(0, base.len() as int));
                        assert(sv.subrange(base.len() as int, sv.len() as int) =~= string_views(before).subrange(base.len() as int, string_views(before).len() as int).push(item@));
                        assert(seq![item@] + errors_in_section(vs, j + 1) =~= errors_in_section(vs, j as int));
                    }
                    j = j + 1;
                } else if is_heading_exec(el.as_slice()) {
                    done = true;
                } else {
                    j = j + 1;
                }
            }
            proof {
                let sv = string_views(out@);
                if !done {
                    assert(errors_in_section(vs, j as int) =~= Seq::<Seq<char>>::empty());
                }
                assert(sv =~= base + sv.subrange(base.len() as int, sv.len() as int));
            }
        }
        i = i + 1;
    }
    assert(errors_from(vs, n as int) =~= Seq::<Seq<char>>::empty());
    assert(string_views(out@) + Seq::<Seq<char>>::empty() =~= string_views(out@));
    out
}

fn examples_exec(ls: &Vec<Vec<char>>) -> (res: Vec<String>)
    ensures
        string_views(res@) == examples_fold(views(ls@)).0,
{
    let n = ls.len();
    let ghost vs = views(ls@);
    let mut examples: Vec<String> = Vec::new();
    let mut in_example = false;
    let mut current: Vec<String> = Vec::new();
    let fence = chars_of("```");
    let mut i: usize = 0;
    assert(vs.take(0) =~= Seq::<Seq<char>>::empty());
    while i < n
        invariant
            n == ls.len(),
            vs == views(ls@),
            i <= n,
            fence@ == "```"@,
            examples_fold(vs.take(i as int)) == (string_views(examples@), in_example, string_views(current@)),
        decreases n - i,
    {
        assert(vs.take(i + 1).drop_last() =~= vs.take(i as int));
        assert(vs.take(i + 1).last() == ls@[i as int]@);
        let line = &ls[i];
        let t = trim(line.as_slice());
        if starts_with(t.as_slice(), fence.as_slice()) {
            if in_example {
                if current.len() > 0 {
                    let ex = join(&current, "\n");
                    let ghost before = examples@;
                    examples.push(ex);
                    proof {
                        lemma_string_views_push(before, ex);
                    }
                }
                current = Vec::new();
                assert(string_views(current@) =~= Seq::<Seq<char>>::empty());
                in_example = false;
            } else {
                in_example = true;
            }
        } else if in_example {
            let s = string_of(line.as_slice());
            let ghost before = current@;
            current.push(s);
            proof {
                lemma_string_views_push(before, s);
            }
        }
        i = i + 1;
    }
    assert(vs.take(n as int) =~= vs);
    examples
}

/// The value after ` = ` in a signature, up to the first `;`, trimmed.
fn value_from_signature_exec(sig: &str) -> (res: Option<String>)
    ensures
        opt_view(res) == spec_value_from_signature(sig@),
{
    let s = chars_of(sig);
    let eq = chars_of(" = ");
    proof {
        reveal_strlit(" = ");
        reveal_strlit(";");
    }
    match find(s.as_slice(), eq.as_slice()) {
        Some(pos) => {
            proof {
                lemma_find_from_props(s@, eq@, 0);
                assert(matches_at(s@, eq@, pos as int));
            }
            assert(pos + 3 <= s.len());
            let v = slice_chars(s.as_slice(), pos + 3, s.len());
            let semi = chars_of(";");
            match find(v.as_slice(), semi.as_slice()) {
                Some(e) => {
                    proof {
                        lemma_find_from_props(v@, semi@, 0);
                        assert(matches_at(v@, semi@, e as int));
                    }
                    let w = slice_chars(v.as_slice(), 0, e);
                    let t = trim(w.as_slice());
                    Some(string_of(t.as_slice()))
                },
                None => {
                    let t = trim(v.as_slice());
                    Some(string_of(t.as_slice()))
                },
            }
        },
        None => None,
    }
}

// ---------------------------------------------------------------------------
// The report's records
// ---------------------------------------------------------------------------

/// The whole documentation report.
pub struct DocumentationOutput {
    pub project: ProjectDocumentation,
    pub modules: Vec<ModuleDocumentation>,
    pub functions: Vec<FunctionDocumentation>,
    pub types: Vec<TypeDocumentation>,
    pub macros: Vec<MacroDocumentation>,
    pub constants: Vec<ConstantDocumentation>,
}

pub struct ProjectDocumentation {
    pub name: String,
    pub version: String,
    pub description: Option<String>,
    pub authors: Vec<String>,
    pub license: Option<String>,
    pub repository: Option<String>,
    pub readme: Option<String>,
    pub workspace_info: Option<WorkspaceDocumentation>,
}

/// The members of a workspace, and a record for each.
pub struct WorkspaceDocumentation {
    pub members: Vec<String>,
    /// One record per member, in the order of `members`.
    pub member_docs: Vec<PackageDocumentation>,
}

pub struct PackageDocumentation {
    pub name: String,
    pub description: Option<String>,
    pub version: String,
    pub main_features: Vec<String>,
}

pub struct ModuleDocumentation {
    pub path: String,
    pub name: String,
    pub doc_comment: Option<String>,
    pub public_items: Vec<String>,
    pub submodules: Vec<String>,
    pub examples: Vec<String>,
}

pub struct FunctionDocumentation {
    pub signature: String,
    pub name: String,
    pub doc_comment: Option<String>,
    pub parameters: Vec<ParameterDocumentation>,
    pub return_doc: Option<String>,
    pub examples: Vec<String>,
    pub errors: Vec<String>,
    pub related_functions: Vec<String>,
    pub location: LocationInfo,
}

pub struct ParameterDocumentation {
    pub name: String,
    pub param_type: String,
    pub description: Option<String>,
}

pub struct TypeDocumentation {
    pub name: String,
    pub fullname: String,
    /// `struct`, `enum`, `trait` or `union`.
    pub type_kind: String,
    pub doc_comment: Option<String>,
    pub fields: Vec<FieldDocumentation>,
    pub methods: Vec<String>,
    pub implemented_traits: Vec<String>,
    pub examples: Vec<String>,
    pub location: LocationInfo,
}

pub struct FieldDocumentation {
    pub name: String,
    pub field_type: String,
    pub description: Option<String>,
    pub visibility: String,
}

pub struct MacroDocumentation {
    pub name: String,
    /// `declarative`, `procedural` or `derive`.
    pub macro_type: String,
    pub doc_comment: Option<String>,
    pub examples: Vec<String>,
    pub location: LocationInfo,
}

pub struct ConstantDocumentation {
    pub name: String,
    pub const_type: String,
    pub value: Option<String>,
    pub doc_comment: Option<String>,
    pub location: LocationInfo,
}

pub struct LocationInfo {
    pub file: String,
    pub start_line: u32,
    pub end_line: u32,
}

// ---------------------------------------------------------------------------
// What each record holds
// ---------------------------------------------------------------------------

/// The doc comment of a documentation record, if any.
pub open spec fn doc_comment_of(d: Option<DocInfo>) -> Option<Seq<char>> {
    match d {
        Some(x) => opt_view(x.doc_comment),
        None => None,
    }
}

pub open spec fn spec_return_doc(doc: Option<Seq<char>>) -> Option<Seq<char>> {
    match doc {
        Some(c) => returns_from(spec_lines(c), 0),
        None => None,
    }
}

pub open spec fn spec_errors(doc: Option<Seq<char>>) -> Seq<Seq<char>> {
    match doc {
        Some(c) => errors_from(spec_lines(c), 0),
        None => Seq::empty(),
    }
}

pub open spec fn function_doc_correct(fd: FunctionDocumentation, m: MethodOutput, d: Option<DocInfo>) -> bool {
    let dc = doc_comment_of(d);
    &&& fd.signature == m.signature
    &&& fd.name == m.name
    &&& opt_view(fd.doc_comment) == dc
    &&& fd.parameters@.len() == m.params@.len()
    &&& forall|k: int|
        0 <= k < m.params@.len() ==> {
            &&& (#[trigger] fd.parameters@[k]).name == m.params@[k].name
            &&& fd.parameters@[k].param_type == m.params@[k].param_type
            &&& opt_view(fd.parameters@[k].description) == spec_described(
                dc,
                "Parameters"@,
                m.params@[k].name@,
            )
        }
    &&& opt_view(fd.return_doc) == spec_return_doc(dc)
    &&& string_views(fd.examples@) == spec_examples(dc)
    &&& string_views(fd.errors@) == spec_errors(dc)
    &&& fd.related_functions@ == m.callees@
    &&& fd.location.file == m.filename
    &&& fd.location.start_line == m.begin_line
    &&& fd.location.end_line == m.end_line
}

pub open spec fn spec_type_kind(fullname: Seq<char>) -> Seq<char> {
    if spec_contains(fullname, "enum"@) {
        "enum"@
    } else if spec_contains(fullname, "trait"@) {
        "trait"@
    } else if spec_contains(fullname, "union"@) {
        "union"@
    } else {
        "struct"@
    }
}

pub open spec fn type_doc_correct(td: TypeDocumentation, s: StructOutput, d: Option<DocInfo>) -> bool {
    let dc = doc_comment_of(d);
    &&& td.name == s.name
    &&& td.fullname == s.fullname
    &&& td.type_kind@ == spec_type_kind(s.fullname@)
    &&& opt_view(td.doc_comment) == dc
    &&& td.fields@.len() == s.attributes@.len()
    &&& forall|k: int|
        0 <= k < s.attributes@.len() ==> {
            &&& (#[trigger] td.fields@[k]).name == s.attributes@[k].name
            &&& td.fields@[k].field_type == s.attributes@[k].attr_type
            &&& opt_view(td.fields@[k].description) == spec_described(
                dc,
                "Fields"@,
                s.attributes@[k].name@,
            )
            &&& td.fields@[k].visibility == s.attributes@[k].modifier
        }
    &&& td.methods@ == s.methods@
    &&& td.implemented_traits@.len() == 0
    &&& string_views(td.examples@) == spec_examples(dc)
    &&& td.location.file == s.filename
    &&& td.location.start_line == s.begin_line
    &&& td.location.end_line == s.begin_line + 2
}

pub open spec fn spec_macro_type(m: MethodOutput) -> Seq<char> {
    if spec_ends_with(m.name@, "_derive"@) {
        "derive"@
    } else if spec_contains(m.signature@, "proc_macro"@) {
        "procedural"@
    } else {
        "declarative"@
    }
}

pub open spec fn is_macro_record(m: MethodOutput) -> bool {
    spec_contains(m.modifier@, "MACRO"@)
}

pub open spec fn is_constant_record(m: MethodOutput) -> bool {
    spec_contains(m.modifier@, "CONST"@) || spec_contains(m.modifier@, "STATIC"@)
}

pub open spec fn macro_doc_correct(md: MacroDocumentation, m: MethodOutput, d: Option<DocInfo>) -> bool {
    let dc = doc_comment_of(d);
    &&& md.name == m.name
    &&& md.macro_type@ == spec_macro_type(m)
    &&& opt_view(md.doc_comment) == dc
    &&& string_views(md.examples@) == spec_examples(dc)
    &&& md.location.file == m.filename
    &&& md.location.start_line == m.begin_line
    &&& md.location.end_line == m.end_line
}

pub open spec fn constant_doc_correct(cd: ConstantDocumentation, m: MethodOutput, d: Option<DocInfo>) -> bool {
    &&& cd.name == m.name
    &&& cd.const_type == m.return_type
    &&& opt_view(cd.value) == spec_value_from_signature(m.signature@)
    &&& opt_view(cd.doc_comment) == doc_comment_of(d)
    &&& cd.location.file == m.filename
    &&& cd.location.start_line == m.begin_line
    &&& cd.location.end_line == m.end_line
}

/// The methods a filter keeps, in order.
pub open spec fn macro_records(ms: Seq<MethodOutput>) -> Seq<MethodOutput>
    decreases ms.len(),
{
    if ms.len() == 0 {
        Seq::empty()
    } else if is_macro_record(ms.last()) {
        macro_records(ms.drop_last()).push(ms.last())
    } else {
        macro_records(ms.drop_last())
    }
}

pub open spec fn constant_records(ms: Seq<MethodOutput>) -> Seq<MethodOutput>
    decreases ms.len(),
{
    if ms.len() == 0 {
        Seq::empty()
    } else if is_constant_record(ms.last()) {
        constant_records(ms.drop_last()).push(ms.last())
    } else {
        constant_records(ms.drop_last())
    }
}

// ---------------------------------------------------------------------------
// Module paths of the report
// ---------------------------------------------------------------------------

/// The components of a path with the extension of its file name removed
/// (`Path::with_extension("")`).
pub open spec fn stem_components(f: Seq<char>) -> Seq<Seq<char>> {
    spec_stem_components(spec_components(f))
}

pub open spec fn module_part(c: Seq<char>) -> bool {
    is_normal(c) && c != "src"@ && c != "resource"@
}

pub open spec fn module_parts(cs: Seq<Seq<char>>) -> Seq<Seq<char>>
    decreases cs.len(),
{
    if cs.len() == 0 {
        Seq::empty()
    } else if module_part(cs.last()) {
        module_parts(cs.drop_last()).push(cs.last())
    } else {
        module_parts(cs.drop_last())
    }
}

/// The module of a source file: its directories and file stem, without `src`
/// or `resource`, joined by `::`; `root` when nothing is left.
pub open spec fn spec_module_from_filename(f: Seq<char>) -> Seq<char> {
    let parts = module_parts(stem_components(f));
    if parts.len() == 0 {
        "root"@
    } else {
        spec_join(parts, "::"@)
    }
}

/// The module of a full name: what comes before its last `::`; `root` when
/// there is none.
pub open spec fn spec_module_from_fullname(f: Seq<char>) -> Seq<char> {
    match spec_rfind(f, "::"@) {
        Some(p) => f.subrange(0, p),
        None => "root"@,
    }
}

/// The last segment of a module path.
pub open spec fn spec_module_name(p: Seq<char>) -> Seq<char> {
    match spec_rfind(p, "::"@) {
        Some(q) => p.subrange(q + 2, p.len() as int),
        None => p,
    }
}

// ---------------------------------------------------------------------------
// The generator
// ---------------------------------------------------------------------------

/// Builds the documentation report that is written under `output_path`.
pub struct DocOutputGenerator {
    output_path: String,
}

fn opt_lines(doc: &Option<String>) -> (res: Vec<Vec<char>>)
    ensures
        doc matches Some(c) ==> views(res@) == spec_lines(c@),
        doc is None ==> res@.len() == 0,
{
    match doc {
        Some(c) => str_lines(c.as_str()),
        None => Vec::new(),
    }
}

fn doc_comment_copy(d: Option<&DocInfo>) -> (res: Option<String>)
    ensures
        opt_view(res) == doc_comment_of(match d {
            Some(x) => Some(*x),
            None => None,
        }),
{
    match d {
        Some(x) => copy_opt(&x.doc_comment),
        None => None,
    }
}

proof fn lemma_empty_lines_fold()
    ensures
        examples_fold(Seq::<Seq<char>>::empty()).0 == Seq::<Seq<char>>::empty(),
        errors_from(Seq::<Seq<char>>::empty(), 0) == Seq::<Seq<char>>::empty(),
        returns_from(Seq::<Seq<char>>::empty(), 0) is None,
{
}

impl DocOutputGenerator {
    pub closed spec fn spec_output_path(&self) -> Seq<char> {
        self.output_path@
    }

    /// A generator writing under `output_path`.
    pub fn new(output_path: String) -> (res: Self)
        ensures
            res.spec_output_path() == output_path@,
    {
        DocOutputGenerator { output_path }
    }

    /// The output directory.
    pub fn output_path(&self) -> (res: &String)
        ensures
            res@ == self.spec_output_path(),
    {
        &self.output_path
    }

    /// The code examples of a doc comment.
    pub fn extract_examples_from_doc_comment(&self, doc_comment: &Option<String>) -> (res: Vec<String>)
        ensures
            string_views(res@) == spec_examples(opt_view(*doc_comment)),
    {
        let ls = opt_lines(doc_comment);
        let r = examples_exec(&ls);
        proof {
            if doc_comment.is_none() {
                assert(views(ls@) =~= Seq::<Seq<char>>::empty());
                lemma_empty_lines_fold();
            }
        }
        r
    }

    /// The constant's value written after ` = ` in its signature.
    pub fn extract_value_from_signature(&self, signature: &str) -> (res: Option<String>)
        ensures
            opt_view(res) == spec_value_from_signature(signature@),
    {
        value_from_signature_exec(signature)
    }

    /// The description of a parameter in the `Parameters` section.
    pub fn extract_parameter_description(&self, doc_comment: &Option<String>, param_name: &str) -> (res: Option<String>)
        ensures
            opt_view(res) == spec_described(opt_view(*doc_comment), "Parameters"@, param_name@),
    {
        match doc_comment {
            Some(c) => {
                let ls = str_lines(c.as_str());
                described_exec(&ls, "Parameters", param_name)
            },
            None => None,
        }
    }

    /// The line after the `Returns` heading.
    pub fn extract_return_description(&self, doc_comment: &Option<String>) -> (res: Option<String>)
        ensures
            opt_view(res) == spec_return_doc(opt_view(*doc_comment)),
    {
        match doc_comment {
            Some(c) => {
                let ls = str_lines(c.as_str());
                returns_exec(&ls)
            },
            None => None,
        }
    }

    /// The items listed in the `Errors` sections.
    pub fn extract_error_info(&self, doc_comment: &Option<String>) -> (res: Vec<String>)
        ensures
            string_views(res@) == spec_errors(opt_view(*doc_comment)),
    {
        match doc_comment {
            Some(c) => {
                let ls = str_lines(c.as_str());
                errors_exec(&ls)
            },
            None => {
                let v: Vec<String> = Vec::new();
                assert(string_views(v@) =~= Seq::<Seq<char>>::empty());
                v
            },
        }
    }

    /// The description of a field in the `Fields` section.
    pub fn extract_field_description(&self, doc_comment: &Option<String>, field_name: &str) -> (res: Option<String>)
        ensures
            opt_view(res) == spec_described(opt_view(*doc_comment), "Fields"@, field_name@),
    {
        match doc_comment {
            Some(c) => {
                let ls = str_lines(c.as_str());
                described_exec(&ls, "Fields", field_name)
            },
            None => None,
        }
    }

    /// The kind of a type, guessed from words in its full name.
    pub fn determine_type_kind(&self, struct_def: &StructOutput) -> (res: String)
        ensures
            res@ == spec_type_kind(struct_def.fullname@),
    {
        let f = struct_def.fullname.as_str();
        if str_contains(f, "enum") {
            to_string("enum")
        } else if str_contains(f, "trait") {
            to_string("trait")
        } else if str_contains(f, "union") {
            to_string("union")
        } else {
            to_string("struct")
        }
    }

    /// The traits a type implements; the impl blocks are not read, so none.
    pub fn extract_implemented_traits(&self, _struct_def: &StructOutput) -> (res: Vec<String>)
        ensures
            res@.len() == 0,
    {
        Vec::new()
    }

    /// The last line of a type, taken as two lines after its first.
    pub fn extract_end_line(&self, struct_def: &StructOutput) -> (res: u32)
        requires
            struct_def.begin_line <= u32::MAX - 2,
        ensures
            res == struct_def.begin_line + 2,
    {
        struct_def.begin_line + 2
    }

    /// The module of a source file, as the report names it.
    pub fn extract_module_from_filename(&self, filename: &str) -> (res: String)
        ensures
            res@ == spec_module_from_filename(filename@),
    {
        let comps = stem_last_component(components(filename));
        let slash = chars_of("/");
        let dot = chars_of(".");
        let dotdot = chars_of("..");
        let ghost c1 = views(comps@);
        assert(c1 == stem_components(filename@));
        let src = chars_of("src");
        let resource = chars_of("resource");
        let mut parts: Vec<String> = Vec::new();
        let mut i: usize = 0;
        while i < comps.len()
            invariant
                i <= comps.len(),
                c1 == views(comps@),
                slash@ == "/"@,
                dot@ == "."@,
                dotdot@ == ".."@,
                src@ == "src"@,
                resource@ == "resource"@,
                string_views(parts@) == module_parts(c1.take(i as int)),
            decreases comps.len() - i,
        {
            let c = comps[i].as_slice();
            assert(c1[i as int] == comps@[i as int]@);
            assert(c1.take(i + 1).drop_last() =~= c1.take(i as int));
            if !seq_eq(c, slash.as_slice()) && !seq_eq(c, dot.as_slice()) && !seq_eq(c, dotdot.as_slice())
                && !seq_eq(c, src.as_slice()) && !seq_eq(c, resource.as_slice()) {
                let s = string_of(c);
                let ghost before = parts@;
                parts.push(s);
                proof {
                    lemma_string_views_push(before, s);
                }
            }
            i = i + 1;
        }
        assert(c1.take(comps.len() as int) =~= c1);
        if parts.len() == 0 {
            to_string("root")
        } else {
            join(&parts, "::")
        }
    }

    /// The module of a full name: what comes before its last `::`.
    pub fn extract_module_from_fullname(&self, fullname: &str) -> (res: String)
        ensures
            res@ == spec_module_from_fullname(fullname@),
    {
        let f = chars_of(fullname);
        let colons = chars_of("::");
        match rfind(f.as_slice(), colons.as_slice()) {
            Some(p) => {
                proof {
                    lemma_rfind_below_props(f@, colons@, f@.len() + 1int);
                }
                slice_string(f.as_slice(), 0, p)
            },
            None => to_string("root"),
        }
    }

    /// The last segment of a module path.
    pub fn extract_module_name(&self, module_path_text: &str) -> (res: String)
        ensures
            res@ == spec_module_name(module_path_text@),
    {
        let f = chars_of(module_path_text);
        let colons = chars_of("::");
        proof {
            reveal_strlit("::");
        }
        match rfind(f.as_slice(), colons.as_slice()) {
            Some(p) => {
                proof {
                    lemma_rfind_below_props(f@, colons@, f@.len() + 1int);
                    assert(matches_at(f@, colons@, p as int));
                }
                assert(p + 2 <= f.len());
                slice_string(f.as_slice(), p + 2, f.len())
            },
            None => to_string(module_path_text),
        }
    }
}

impl DocOutputGenerator {
    fn function_doc(&self, method: &MethodOutput, docs: &DocMap) -> (res: FunctionDocumentation)
        requires
            docs.wf(),
        ensures
            function_doc_correct(res, *method, docs.lookup(method.signature@)),
    {
        let d = docs.get(method.signature.as_str());
        let dc = doc_comment_copy(d);
        let mut parameters: Vec<ParameterDocumentation> = Vec::new();
        let mut k: usize = 0;
        while k < method.params.len()
            invariant
                k <= method.params.len(),
                opt_view(dc) == doc_comment_of(docs.lookup(method.signature@)),
                parameters@.len() == k,
                forall|q: int|
                    0 <= q < k ==> {
                        &&& (#[trigger] parameters@[q]).name == method.params@[q].name
                        &&& parameters@[q].param_type == method.params@[q].param_type
                        &&& opt_view(parameters@[q].description) == spec_described(
                            opt_view(dc),
                            "Parameters"@,
                            method.params@[q].name@,
                        )
                    },
            decreases method.params.len() - k,
        {
            let p = &method.params[k];
            let description = self.extract_parameter_description(&dc, p.name.as_str());
            parameters.push(
                ParameterDocumentation {
                    name: p.name.clone(),
                    param_type: p.param_type.clone(),
                    description,
                },
            );
            k = k + 1;
        }
        let return_doc = self.extract_return_description(&dc);
        let examples = self.extract_examples_from_doc_comment(&dc);
        let errors = self.extract_error_info(&dc);
        FunctionDocumentation {
            signature: method.signature.clone(),
            name: method.name.clone(),
            doc_comment: dc,
            parameters,
            return_doc,
            examples,
            errors,
            related_functions: copy_strings(&method.callees),
            location: LocationInfo {
                file: method.filename.clone(),
                start_line: method.begin_line,
                end_line: method.end_line,
            },
        }
    }

    /// One function record per method, with what its doc comment says.
    pub fn build_function_documentation(&self, methods: &Vec<MethodOutput>, docs: &DocMap) -> (res: Result<Vec<FunctionDocumentation>, AnalyzerError>)
        requires
            docs.wf(),
        ensures
            res matches Ok(v) && v@.len() == methods@.len() && forall|i: int|
                0 <= i < methods@.len() ==> function_doc_correct(
                    #[trigger] v@[i],
                    methods@[i],
                    docs.lookup(methods@[i].signature@),
                ),
    {
        let mut out: Vec<FunctionDocumentation> = Vec::new();
        let mut i: usize = 0;
        while i < methods.len()
            invariant
                i <= methods.len(),
                docs.wf(),
                out@.len() == i,
                forall|q: int|
                    0 <= q < i ==> function_doc_correct(
                        #[trigger] out@[q],
                        methods@[q],
                        docs.lookup(methods@[q].signature@),
                    ),
            decreases methods.len() - i,
        {
            let fd = self.function_doc(&methods[i], docs);
            out.push(fd);
            i = i + 1;
        }
        Ok(out)
    }

    fn type_doc(&self, s: &StructOutput, docs: &DocMap) -> (res: TypeDocumentation)
        requires
            docs.wf(),
            s.begin_line <= u32::MAX - 2,
        ensures
            type_doc_correct(res, *s, docs.lookup(s.fullname@)),
    {
        let d = docs.get(s.fullname.as_str());
        let dc = doc_comment_copy(d);
        let mut fields: Vec<FieldDocumentation> = Vec::new();
        let mut k: usize = 0;
        while k < s.attributes.len()
            invariant
                k <= s.attributes.len(),
                opt_view(dc) == doc_comment_of(docs.lookup(s.fullname@)),
                fields@.len() == k,
                forall|q: int|
                    0 <= q < k ==> {
                        &&& (#[trigger] fields@[q]).name == s.attributes@[q].name
                        &&& fields@[q].field_type == s.attributes@[q].attr_type
                        &&& opt_view(fields@[q].description) == spec_described(
                            opt_view(dc),
                            "Fields"@,
                            s.attributes@[q].name@,
                        )
                        &&& fields@[q].visibility == s.attributes@[q].modifier
                    },
            decreases s.attributes.len() - k,
        {
            let a = &s.attributes[k];
            let description = self.extract_field_description(&dc, a.name.as_str());
            fields.push(
                FieldDocumentation {
                    name: a.name.clone(),
                    field_type: a.attr_type.clone(),
                    description,
                    visibility: a.modifier.clone(),
                },
            );
            k = k + 1;
        }
        let type_kind = self.determine_type_kind(s);
        let implemented_traits = self.extract_implemented_traits(s);
        let examples = self.extract_examples_from_doc_comment(&dc);
        let end_line = self.extract_end_line(s);
        TypeDocumentation {
            name: s.name.clone(),
            fullname: s.fullname.clone(),
            type_kind,
            doc_comment: dc,
            fields,
            methods: copy_strings(&s.methods),
            implemented_traits,
            examples,
            location: LocationInfo { file: s.filename.clone(), start_line: s.begin_line, end_line },
        }
    }

    /// One type record per type, with what its doc comment says.
    pub fn build_type_documentation(&self, structs: &Vec<StructOutput>, docs: &DocMap) -> (res: Result<Vec<TypeDocumentation>, AnalyzerError>)
        requires
            docs.wf(),
            forall|i: int| 0 <= i < structs@.len() ==> #[trigger] structs@[i].begin_line <= u32::MAX - 2,
        ensures
            res matches Ok(v) && v@.len() == structs@.len() && forall|i: int|
                0 <= i < structs@.len() ==> type_doc_correct(
                    #[trigger] v@[i],
                    structs@[i],
                    docs.lookup(structs@[i].fullname@),
                ),
    {
        let mut out: Vec<TypeDocumentation> = Vec::new();
        let mut i: usize = 0;
        while i < structs.len()
            invariant
                i <= structs.len(),
                docs.wf(),
                forall|i: int| 0 <= i < structs@.len() ==> #[trigger] structs@[i].begin_line <= u32::MAX - 2,
                out@.len() == i,
                forall|q: int|
                    0 <= q < i ==> type_doc_correct(
                        #[trigger] out@[q],
                        structs@[q],
                        docs.lookup(structs@[q].fullname@),
                    ),
            decreases structs.len() - i,
        {
            let td = self.type_doc(&structs[i], docs);
            out.push(td);
            i = i + 1;
        }
        Ok(out)
    }

    fn macro_type_of(&self, m: &MethodOutput) -> (res: String)
        ensures
            res@ == spec_macro_type(*m),
    {
        if str_ends_with(m.name.as_str(), "_derive") {
            to_string("derive")
        } else if str_contains(m.signature.as_str(), "proc_macro") {
            to_string("procedural")
        } else {
            to_string("declarative")
        }
    }

    /// One macro record per method whose modifier mentions `MACRO`, in order.
    pub fn build_macro_documentation(&self, methods: &Vec<MethodOutput>, docs: &DocMap) -> (res: Result<Vec<MacroDocumentation>, AnalyzerError>)
        requires
            docs.wf(),
        ensures
            res matches Ok(v) && v@.len() == macro_records(methods@).len() && forall|i: int|
                0 <= i < v@.len() ==> macro_doc_correct(
                    #[trigger] v@[i],
                    macro_records(methods@)[i],
                    docs.lookup(macro_records(methods@)[i].signature@),
                ),
    {
        let mut out: Vec<MacroDocumentation> = Vec::new();
        let mut i: usize = 0;
        while i < methods.len()
            invariant
                i <= methods.len(),
                docs.wf(),
                out@.len() == macro_records(methods@.take(i as int)).len(),
                forall|q: int|
                    0 <= q < out@.len() ==> macro_doc_correct(
                        #[trigger] out@[q],
                        macro_records(methods@.take(i as int))[q],
                        docs.lookup(macro_records(methods@.take(i as int))[q].signature@),
                    ),
            decreases methods.len() - i,
        {
            let m = &methods[i];
            assert(methods@.take(i + 1).drop_last() =~= methods@.take(i as int));
            assert(methods@.take(i + 1).last() == methods@[i as int]);
            if str_contains(m.modifier.as_str(), "MACRO") {
                let d = docs.get(m.signature.as_str());
                let dc = doc_comment_copy(d);
                let examples = self.extract_examples_from_doc_comment(&dc);
                let macro_type = self.macro_type_of(m);
                out.push(
                    MacroDocumentation {
                        name: m.name.clone(),
                        macro_type,
                        doc_comment: dc,
                        examples,
                        location: LocationInfo {
                            file: m.filename.clone(),
                            start_line: m.begin_line,
                            end_line: m.end_line,
                        },
                    },
                );
            }
            i = i + 1;
        }
        assert(methods@.take(methods.len() as int) =~= methods@);
        Ok(out)
    }

    /// One constant record per method whose modifier mentions `CONST` or
    /// `STATIC`, in order.
    pub fn build_constant_documentation(&self, methods: &Vec<MethodOutput>, docs: &DocMap) -> (res: Result<Vec<ConstantDocumentation>, AnalyzerError>)
        requires
            docs.wf(),
        ensures
            res matches Ok(v) && v@.len() == constant_records(methods@).len() && forall|i: int|
                0 <= i < v@.len() ==> constant_doc_correct(
                    #[trigger] v@[i],
                    constant_records(methods@)[i],
                    docs.lookup(constant_records(methods@)[i].signature@),
                ),
    {
        let mut out: Vec<ConstantDocumentation> = Vec::new();
        let mut i: usize = 0;
        while i < methods.len()
            invariant
                i <= methods.len(),
                docs.wf(),
                out@.len() == constant_records(methods@.take(i as int)).len(),
                forall|q: int|
                    0 <= q < out@.len() ==> constant_doc_correct(
                        #[trigger] out@[q],
                        constant_records(methods@.take(i as int))[q],
                        docs.lookup(constant_records(methods@.take(i as int))[q].signature@),
                    ),
            decreases methods.len() - i,
        {
            let m = &methods[i];
            assert(methods@.take(i + 1).drop_last() =~= methods@.take(i as int));
            assert(methods@.take(i + 1).last() == methods@[i as int]);
            if str_contains(m.modifier.as_str(), "CONST") || str_contains(m.modifier.as_str(), "STATIC") {
                let d = docs.get(m.signature.as_str());
                let value = self.extract_value_from_signature(m.signature.as_str());
                out.push(
                    ConstantDocumentation {
                        name: m.name.clone(),
                        const_type: m.return_type.clone(),
                        value,
                        doc_comment: doc_comment_copy(d),
                        location: LocationInfo {
                            file: m.filename.clone(),
                            start_line: m.begin_line,
                            end_line: m.end_line,
                        },
                    },
                );
            }
            i = i + 1;
        }
        assert(methods@.take(methods.len() as int) =~= methods@);
        Ok(out)
    }
}


// ---------------------------------------------------------------------------
// Modules of the report
// ---------------------------------------------------------------------------

/// What one function adds to the module list: its module, and its name when
/// it is public.
pub open spec fn method_event(m: MethodOutput) -> (Seq<char>, Option<Seq<char>>) {
    (
        spec_module_from_filename(m.filename@),
        if spec_contains(m.modifier@, "PUBLIC"@) {
            Some(m.name@)
        } else {
            None
        },
    )
}

/// What one type adds to the module list: its module and its name.
pub open spec fn struct_event(s: StructOutput) -> (Seq<char>, Option<Seq<char>>) {
    (spec_module_from_fullname(s.fullname@), Some(s.name@))
}

/// The functions' contributions, then the types'.
pub open spec fn module_events(ms: Seq<MethodOutput>, ss: Seq<StructOutput>) -> Seq<(Seq<char>, Option<Seq<char>>)> {
    ms.map_values(|m: MethodOutput| method_event(m)) + ss.map_values(|s: StructOutput| struct_event(s))
}

/// The modules named, each once, in the order in which they are first named.
pub open spec fn module_keys(evs: Seq<(Seq<char>, Option<Seq<char>>)>) -> Seq<Seq<char>>
    decreases evs.len(),
{
    if evs.len() == 0 {
        Seq::empty()
    } else {
        let k = module_keys(evs.drop_last());
        if k.contains(evs.last().0) {
            k
        } else {
            k.push(evs.last().0)
        }
    }
}

/// The names listed under module `p`, in order.
pub open spec fn module_items(evs: Seq<(Seq<char>, Option<Seq<char>>)>, p: Seq<char>) -> Seq<Seq<char>>
    decreases evs.len(),
{
    if evs.len() == 0 {
        Seq::empty()
    } else {
        let r = module_items(evs.drop_last(), p);
        match evs.last().1 {
            Some(n) => if evs.last().0 == p {
                r.push(n)
            } else {
                r
            },
            None => r,
        }
    }
}

/// The parent and the last segment of a module path that has at least two
/// `::`-separated segments.
pub open spec fn spec_parent_module(q: Seq<char>) -> Option<(Seq<char>, Seq<char>)> {
    let parts = spec_split(q, "::"@);
    if parts.len() > 1 {
        Some((spec_join(parts.drop_last(), "::"@), parts.last()))
    } else {
        None
    }
}

/// The last segments of the paths among `paths` whose parent is `p`, in the
/// order of `paths`.
pub open spec fn submodules_among(paths: Seq<Seq<char>>, p: Seq<char>) -> Seq<Seq<char>>
    decreases paths.len(),
{
    if paths.len() == 0 {
        Seq::empty()
    } else {
        let r = submodules_among(paths.drop_last(), p);
        match spec_parent_module(paths.last()) {
            Some(pc) => if pc.0 == p {
                r.push(pc.1)
            } else {
                r
            },
            None => r,
        }
    }
}

pub open spec fn module_doc_correct(
    md: ModuleDocumentation,
    evs: Seq<(Seq<char>, Option<Seq<char>>)>,
    p: Seq<char>,
) -> bool {
    &&& md.path@ == p
    &&& md.name@ == spec_module_name(p)
    &&& md.doc_comment is None
    &&& string_views(md.public_items@) == module_items(evs, p)
    &&& string_views(md.submodules@) == submodules_among(module_keys(evs), p)
    &&& md.examples@.len() == 0
}

/// The module list of the report for these functions and types.
pub open spec fn modules_correct(v: Seq<ModuleDocumentation>, ms: Seq<MethodOutput>, ss: Seq<StructOutput>) -> bool {
    let evs = module_events(ms, ss);
    let keys = module_keys(evs);
    &&& v.len() == keys.len()
    &&& forall|i: int| 0 <= i < keys.len() ==> module_doc_correct(#[trigger] v[i], evs, keys[i])
}

proof fn lemma_module_keys_distinct(evs: Seq<(Seq<char>, Option<Seq<char>>)>)
    ensures
        forall|i: int, j: int|
            0 <= i < j < module_keys(evs).len() ==> module_keys(evs)[i] != module_keys(evs)[j],
    decreases evs.len(),
{
    if evs.len() > 0 {
        lemma_module_keys_distinct(evs.drop_last());
        let k = module_keys(evs.drop_last());
        if !k.contains(evs.last().0) {
            let kk = module_keys(evs);
            assert(kk =~= k.push(evs.last().0));
            assert forall|i: int, j: int| 0 <= i < j < kk.len() implies kk[i] != kk[j] by {
                if j == k.len() {
                    assert(kk[i] == k[i]);
                    if kk[i] == kk[j] {
                        assert(k.contains(evs.last().0));
                    }
                }
            }
        }
    }
}

proof fn lemma_module_keys_grow(evs: Seq<(Seq<char>, Option<Seq<char>>)>)
    requires
        evs.len() > 0,
    ensures
        module_keys(evs).contains(evs.last().0),
        forall|p: Seq<char>| module_keys(evs.drop_last()).contains(p) ==> #[trigger] module_keys(evs).contains(p),
{
    let k = module_keys(evs.drop_last());
    if !k.contains(evs.last().0) {
        assert(module_keys(evs) =~= k.push(evs.last().0));
        assert(module_keys(evs)[k.len() as int] == evs.last().0);
        assert forall|p: Seq<char>| k.contains(p) implies #[trigger] module_keys(evs).contains(p) by {
            let t = choose|t: int| 0 <= t < k.len() && k[t] == p;
            assert(module_keys(evs)[t] == p);
        }
    }
}

proof fn lemma_module_items_absent(evs: Seq<(Seq<char>, Option<Seq<char>>)>, p: Seq<char>)
    requires
        !module_keys(evs).contains(p),
    ensures
        module_items(evs, p) == Seq::<Seq<char>>::empty(),
    decreases evs.len(),
{
    if evs.len() > 0 {
        lemma_module_keys_grow(evs);
        lemma_module_items_absent(evs.drop_last(), p);
    }
}

/// The module lists built so far: `paths` names each module once and `items`
/// holds, for each, the names listed under it.
pub open spec fn modules_built(
    paths: Seq<String>,
    items: Seq<Vec<String>>,
    evs: Seq<(Seq<char>, Option<Seq<char>>)>,
) -> bool {
    &&& string_views(paths) == module_keys(evs)
    &&& items.len() == paths.len()
    &&& forall|i: int|
        0 <= i < paths.len() ==> string_views((#[trigger] items[i])@) == module_items(evs, paths[i]@)
}

fn position_of(paths: &Vec<String>, key: &str) -> (res: Option<usize>)
    ensures
        res matches Some(j) ==> j < paths@.len() && paths@[j as int]@ == key@,
        res is None ==> forall|t: int| 0 <= t < paths@.len() ==> paths@[t]@ != key@,
{
    let mut j: usize = 0;
    while j < paths.len()
        invariant
            j <= paths.len(),
            forall|t: int| 0 <= t < j ==> paths@[t]@ != key@,
        decreases paths.len() - j,
    {
        if str_eq(paths[j].as_str(), key) {
            return Some(j);
        }
        j = j + 1;
    }
    None
}

fn add_module_event(
    paths: &mut Vec<String>,
    items: &mut Vec<Vec<String>>,
    key: String,
    item: Option<String>,
    Ghost(evs): Ghost<Seq<(Seq<char>, Option<Seq<char>>)>>,
)
    requires
        modules_built(old(paths)@, old(items)@, evs),
    ensures
        modules_built(final(paths)@, final(items)@, evs.push((key@, opt_view(item)))),
{
    let ghost e = (key@, opt_view(item));
    let ghost evs2 = evs.push(e);
    proof {
        assert(evs2.drop_last() =~= evs);
        assert(evs2.last() == e);
        lemma_module_keys_distinct(evs);
    }
    match position_of(paths, key.as_str()) {
        Some(j) => {
            proof {
                assert(string_views(paths@)[j as int] == key@);
                assert(module_keys(evs).contains(key@));
                assert(module_keys(evs2) == module_keys(evs));
            }
            match item {
                Some(name) => {
                    let mut cur = copy_strings(&items[j]);
                    let ghost before = cur@;
                    cur.push(name);
                    proof {
                        lemma_string_views_push(before, name);
                    }
                    items.set(j, cur);
                },
                None => {},
            }
            proof {
                assert forall|i: int| 0 <= i < paths@.len() implies string_views((#[trigger] items@[i])@)
                    == module_items(evs2, paths@[i]@) by {
                    if i != j {
                        assert(string_views(paths@)[i] == paths@[i]@);
                        assert(paths@[i]@ != key@);
                    }
                }
            }
        },
        None => {
            proof {
                assert forall|t: int| 0 <= t < module_keys(evs).len() implies module_keys(evs)[t] != key@ by {
                    assert(string_views(paths@)[t] == paths@[t]@);
                }
                assert(!module_keys(evs).contains(key@));
                lemma_module_items_absent(evs, key@);
                assert(module_keys(evs2) == module_keys(evs).push(key@));
            }
            let ghost old_paths = paths@;
            let ghost old_items = items@;
            let mut cur: Vec<String> = Vec::new();
            match item {
                Some(name) => {
                    cur.push(name);
                },
                None => {},
            }
            proof {
                assert(string_views(cur@) =~= module_items(evs2, key@));
            }
            paths.push(key);
            items.push(cur);
            proof {
                lemma_string_views_push(old_paths, paths@.last());
                assert forall|i: int| 0 <= i < paths@.len() implies string_views((#[trigger] items@[i])@)
                    == module_items(evs2, paths@[i]@) by {
                    if i < old_paths.len() {
                        assert(items@[i] == old_items[i]);
                        assert(paths@[i] == old_paths[i]);
                        assert(string_views(old_paths)[i] == old_paths[i]@);
                        assert(old_paths[i]@ != key@);
                    }
                }
            }
        },
    }
}

fn parent_module(q: &String) -> (res: Option<(String, String)>)
    ensures
        res matches Some(pc) ==> spec_parent_module(q@) == Some((pc.0@, pc.1@)),
        res is None ==> spec_parent_module(q@) is None,
{
    proof {
        reveal_strlit("::");
    }
    let parts = split_str(q.as_str(), "::");
    if parts.len() > 1 {
        let n: usize = parts.len() - 1;
        let mut front: Vec<String> = Vec::new();
        let mut i: usize = 0;
        while i < n
            invariant
                i <= n,
                n + 1 == parts@.len(),
                string_views(front@) == string_views(parts@).take(i as int),
            decreases n - i,
        {
            let ghost before = front@;
            front.push(parts[i].clone());
            proof {
                lemma_string_views_push(before, parts@[i as int]);
                assert(string_views(parts@).take(i + 1) =~= string_views(parts@).take(i as int).push(
                    parts@[i as int]@,
                ));
            }
            i = i + 1;
        }
        proof {
            assert(string_views(parts@).take(n as int) =~= string_views(parts@).drop_last());
            assert(string_views(parts@).last() == parts@[n as int]@);
        }
        Some((join(&front, "::"), parts[n].clone()))
    } else {
        None
    }
}

impl DocOutputGenerator {
    /// One record per module named by a function's file or a type's full
    /// name, in the order in which modules are first named: the public
    /// functions and the types it holds, and its submodules among them.
    pub fn build_module_documentation(
        &self,
        methods: &Vec<MethodOutput>,
        structs: &Vec<StructOutput>,
        _docs: &DocMap,
    ) -> (res: Result<Vec<ModuleDocumentation>, AnalyzerError>)
        ensures
            res matches Ok(v) && modules_correct(v@, methods@, structs@),
    {
        let ghost mev = methods@.map_values(|m: MethodOutput| method_event(m));
        let ghost sev = structs@.map_values(|s: StructOutput| struct_event(s));
        let mut paths: Vec<String> = Vec::new();
        let mut items: Vec<Vec<String>> = Vec::new();
        proof {
            assert(mev.take(0) =~= Seq::<(Seq<char>, Option<Seq<char>>)>::empty());
            assert(string_views(paths@) =~= Seq::<Seq<char>>::empty());
        }
        let mut i: usize = 0;
        while i < methods.len()
            invariant
                i <= methods.len(),
                mev == methods@.map_values(|m: MethodOutput| method_event(m)),
                modules_built(paths@, items@, mev.take(i as int)),
            decreases methods.len() - i,
        {
            let m = &methods[i];
            let key = self.extract_module_from_filename(m.filename.as_str());
            proof {
                reveal_strlit("PUBLIC");
            }
            let item = if str_contains(m.modifier.as_str(), "PUBLIC") {
                Some(m.name.clone())
            } else {
                None
            };
            proof {
                assert((key@, opt_view(item)) == method_event(methods@[i as int]));
                assert(mev.take(i + 1) =~= mev.take(i as int).push(mev[i as int]));
            }
            add_module_event(&mut paths, &mut items, key, item, Ghost(mev.take(i as int)));
            i = i + 1;
        }
        proof {
            assert(mev.take(methods@.len() as int) =~= mev);
            assert(mev + sev.take(0) =~= mev);
        }
        let mut j: usize = 0;
        while j < structs.len()
            invariant
                j <= structs.len(),
                sev == structs@.map_values(|s: StructOutput| struct_event(s)),
                modules_built(paths@, items@, mev + sev.take(j as int)),
            decreases structs.len() - j,
        {
            let s = &structs[j];
            let key = self.extract_module_from_fullname(s.fullname.as_str());
            let item = Some(s.name.clone());
            proof {
                assert((key@, opt_view(item)) == struct_event(structs@[j as int]));
                assert(mev + sev.take(j + 1) =~= (mev + sev.take(j as int)).push(sev[j as int]));
            }
            add_module_event(&mut paths, &mut items, key, item, Ghost(mev + sev.take(j as int)));
            j = j + 1;
        }
        let ghost evs = module_events(methods@, structs@);
        proof {
            assert(mev + sev.take(structs@.len() as int) =~= evs);
        }
        let ghost keys = module_keys(evs);
        let mut parents: Vec<Option<(String, String)>> = Vec::new();
        let mut q: usize = 0;
        while q < paths.len()
            invariant
                q <= paths.len(),
                parents@.len() == q,
                forall|t: int|
                    0 <= t < q ==> match #[trigger] parents@[t] {
                        Some(pc) => spec_parent_module(paths@[t]@) == Some((pc.0@, pc.1@)),
                        None => spec_parent_module(paths@[t]@) is None,
                    },
            decreases paths.len() - q,
        {
            let pm = parent_module(&paths[q]);
            parents.push(pm);
            q = q + 1;
        }
        let mut out: Vec<ModuleDocumentation> = Vec::new();
        let mut k: usize = 0;
        while k < paths.len()
            invariant
                k <= paths.len(),
                modules_built(paths@, items@, evs),
                keys == module_keys(evs),
                parents@.len() == paths@.len(),
                forall|t: int|
                    0 <= t < paths@.len() ==> match #[trigger] parents@[t] {
                        Some(pc) => spec_parent_module(paths@[t]@) == Some((pc.0@, pc.1@)),
                        None => spec_parent_module(paths@[t]@) is None,
                    },
                out@.len() == k,
                forall|t: int| 0 <= t < k ==> module_doc_correct(#[trigger] out@[t], evs, keys[t]),
            decreases paths.len() - k,
        {
            let mut subs: Vec<String> = Vec::new();
            let mut r: usize = 0;
            while r < paths.len()
                invariant
                    r <= paths.len(),
                    k < paths.len(),
                    modules_built(paths@, items@, evs),
                    keys == module_keys(evs),
                    parents@.len() == paths@.len(),
                    forall|t: int|
                        0 <= t < paths@.len() ==> match #[trigger] parents@[t] {
                            Some(pc) => spec_parent_module(paths@[t]@) == Some((pc.0@, pc.1@)),
                            None => spec_parent_module(paths@[t]@) is None,
                        },
                    string_views(subs@) == submodules_among(keys.take(r as int), paths@[k as int]@),
                decreases paths.len() - r,
            {
                let ghost before = subs@;
                proof {
                    assert(keys.take(r + 1).drop_last() =~= keys.take(r as int));
                    assert(keys.take(r + 1).last() == keys[r as int]);
                    assert(keys[r as int] == string_views(paths@)[r as int]);
                    assert(string_views(paths@)[r as int] == paths@[r as int]@);
                }
                match &parents[r] {
                    Some(pc) => {
                        if str_eq(pc.0.as_str(), paths[k].as_str()) {
                            subs.push(pc.1.clone());
                            proof {
                                lemma_string_views_push(before, subs@.last());
                            }
                        }
                    },
                    None => {},
                }
                r = r + 1;
            }
            proof {
                assert(keys.take(paths@.len() as int) =~= keys);
                assert(keys[k as int] == string_views(paths@)[k as int]);
                assert(string_views(paths@)[k as int] == paths@[k as int]@);
            }
            let md = ModuleDocumentation {
                path: paths[k].clone(),
                name: self.extract_module_name(paths[k].as_str()),
                doc_comment: None,
                public_items: copy_strings(&items[k]),
                submodules: subs,
                examples: Vec::new(),
            };
            out.push(md);
            k = k + 1;
        }
        proof {
            assert(keys.len() == string_views(paths@).len());
        }
        Ok(out)
    }
}


// ---------------------------------------------------------------------------
// Packages of a workspace
// ---------------------------------------------------------------------------

/// The parsed manifest of a package, from its text where it could be read;
/// `None` where it could not be read or parsed.
pub open spec fn spec_manifest_of(text: Option<String>) -> Option<TomlValue> {
    match text {
        Some(t) => match spec_parse_toml(t@) {
            Ok(v) => Some(v),
            Err(_) => None,
        },
        None => None,
    }
}

/// The `description` string of the `[package]` table of a manifest.
pub open spec fn spec_package_description(manifest: Option<TomlValue>) -> Option<Seq<char>> {
    match manifest {
        Some(TomlValue::Table(top)) => match table_get(top@, "package"@) {
            Some(TomlValue::Table(pkg)) => match table_get(pkg@, "description"@) {
                Some(TomlValue::String(d)) => Some(d@),
                _ => None,
            },
            _ => None,
        },
        _ => None,
    }
}

/// The names of the features other than `default`, in order.
pub open spec fn features_but_default(fs: Seq<FeatureInfo>) -> Seq<Seq<char>>
    decreases fs.len(),
{
    if fs.len() == 0 {
        Seq::empty()
    } else if fs.last().name@ == "default"@ {
        features_but_default(fs.drop_last())
    } else {
        features_but_default(fs.drop_last()).push(fs.last().name@)
    }
}

pub open spec fn has_kind(t: TargetInfo, k: Seq<char>) -> bool {
    exists|i: int| 0 <= i < t.kind@.len() && #[trigger] t.kind@[i]@ == k
}

/// What the targets tell of a package: an executable for each `bin` target,
/// a library for each `lib` target.
pub open spec fn target_features(ts: Seq<TargetInfo>) -> Seq<Seq<char>>
    decreases ts.len(),
{
    if ts.len() == 0 {
        Seq::empty()
    } else if has_kind(ts.last(), "bin"@) {
        target_features(ts.drop_last()).push("可执行程序: "@ + ts.last().name@)
    } else if has_kind(ts.last(), "lib"@) {
        target_features(ts.drop_last()).push("库"@)
    } else {
        target_features(ts.drop_last())
    }
}

pub open spec fn spec_main_features(p: PackageInfo) -> Seq<Seq<char>> {
    features_but_default(p.features@) + target_features(p.targets@)
}

/// The workspace members among the packages, in order, each with its manifest.
pub open spec fn members_of(ps: Seq<PackageInfo>, ms: Seq<Option<String>>) -> Seq<(PackageInfo, Option<String>)>
    decreases ps.len(),
{
    if ps.len() == 0 || ms.len() == 0 {
        Seq::empty()
    } else if ps.last().is_workspace_member {
        members_of(ps.drop_last(), ms.drop_last()).push((ps.last(), ms.last()))
    } else {
        members_of(ps.drop_last(), ms.drop_last())
    }
}

pub open spec fn package_doc_correct(d: PackageDocumentation, p: PackageInfo, manifest: Option<String>) -> bool {
    &&& d.name == p.name
    &&& opt_view(d.description) == spec_package_description(spec_manifest_of(manifest))
    &&& d.version == p.version
    &&& string_views(d.main_features@) == spec_main_features(p)
}

pub open spec fn member_lists_correct(
    names: Seq<String>,
    docs: Seq<PackageDocumentation>,
    mem: Seq<(PackageInfo, Option<String>)>,
) -> bool {
    &&& names.len() == mem.len()
    &&& docs.len() == mem.len()
    &&& forall|i: int|
        0 <= i < mem.len() ==> {
            &&& (#[trigger] names[i]) == mem[i].0.name
            &&& package_doc_correct(docs[i], mem[i].0, mem[i].1)
        }
}

/// The workspace record: the member packages' names, and a record for each.
pub open spec fn workspace_doc_correct(w: WorkspaceDocumentation, ps: Seq<PackageInfo>, ms: Seq<Option<String>>) -> bool {
    member_lists_correct(w.members@, w.member_docs@, members_of(ps, ms))
}

impl DocOutputGenerator {
    /// The description that a package's manifest gives in `[package]`, from
    /// the manifest's text (`None` where it could not be read); `None` where
    /// the text does not parse as TOML.
    pub fn extract_package_description(&self, manifest_text: &Option<String>) -> (res: Option<String>)
        ensures
            opt_view(res) == spec_package_description(spec_manifest_of(*manifest_text)),
    {
        let manifest = match manifest_text {
            Some(t) => match parse_toml(t.as_str()) {
                Ok(v) => Some(v),
                Err(_) => None,
            },
            None => None,
        };
        match &manifest {
            Some(TomlValue::Table(top)) => match table_lookup(top, "package") {
                Some(TomlValue::Table(pkg)) => match table_lookup(pkg, "description") {
                    Some(TomlValue::String(d)) => Some(d.clone()),
                    _ => None,
                },
                _ => None,
            },
            _ => None,
        }
    }

    /// The features of a package other than `default`, then an entry for
    /// each executable or library target.
    pub fn analyze_main_features(&self, package: &PackageInfo) -> (res: Vec<String>)
        ensures
            string_views(res@) == spec_main_features(*package),
    {
        let mut out: Vec<String> = Vec::new();
        let mut i: usize = 0;
        proof {
            reveal_strlit("default");
            reveal_strlit("bin");
            reveal_strlit("lib");
            reveal_strlit("可执行程序: ");
            reveal_strlit("库");
        }
        while i < package.features.len()
            invariant
                i <= package.features.len(),
                string_views(out@) == features_but_default(package.features@.take(i as int)),
            decreases package.features.len() - i,
        {
            let ghost before = out@;
            let f = &package.features[i];
            proof {
                assert(package.features@.take(i + 1).drop_last() =~= package.features@.take(i as int));
            }
            if !str_eq(f.name.as_str(), "default") {
                out.push(f.name.clone());
                proof {
                    lemma_string_views_push(before, out@.last());
                }
            }
            i = i + 1;
        }
        proof {
            assert(package.features@.take(package.features@.len() as int) =~= package.features@);
        }
        let ghost head = string_views(out@);
        let mut tail: Vec<String> = Vec::new();
        let mut j: usize = 0;
        while j < package.targets.len()
            invariant
                j <= package.targets.len(),
                string_views(tail@) == target_features(package.targets@.take(j as int)),
            decreases package.targets.len() - j,
        {
            let ghost before = tail@;
            let t = &package.targets[j];
            proof {
                assert(package.targets@.take(j + 1).drop_last() =~= package.targets@.take(j as int));
                assert(package.targets@.take(j + 1).last() == *t);
            }
            if vec_has(&t.kind, "bin") {
                tail.push(concat("可执行程序: ", t.name.as_str()));
                proof {
                    lemma_string_views_push(before, tail@.last());
                }
            } else if vec_has(&t.kind, "lib") {
                tail.push(to_string("库"));
                proof {
                    lemma_string_views_push(before, tail@.last());
                }
            }
            j = j + 1;
        }
        proof {
            assert(package.targets@.take(package.targets@.len() as int) =~= package.targets@);
        }
        let mut k: usize = 0;
        while k < tail.len()
            invariant
                k <= tail.len(),
                string_views(out@) == head + string_views(tail@).take(k as int),
            decreases tail.len() - k,
        {
            let ghost before = out@;
            out.push(tail[k].clone());
            proof {
                lemma_string_views_push(before, out@.last());
                assert(head + string_views(tail@).take(k + 1) =~= (head + string_views(tail@).take(k as int)).push(tail@[k as int]@));
            }
            k = k + 1;
        }
        proof {
            assert(string_views(tail@).take(tail@.len() as int) =~= string_views(tail@));
        }
        out
    }

    /// The names of the workspace members and a record for each; `manifests`
    /// holds, for each package in turn, the text of its manifest where it could be
    /// read.
    pub fn build_workspace_documentation(
        &self,
        project_info: &ProjectMetadata,
        manifests: &Vec<Option<String>>,
    ) -> (res: Result<WorkspaceDocumentation, AnalyzerError>)
        requires
            manifests@.len() == project_info.packages@.len(),
        ensures
            res matches Ok(w) && workspace_doc_correct(w, project_info.packages@, manifests@),
    {
        let ps = &project_info.packages;
        let mut members: Vec<String> = Vec::new();
        let mut member_docs: Vec<PackageDocumentation> = Vec::new();
        let mut i: usize = 0;
        while i < ps.len()
            invariant
                i <= ps.len(),
                manifests@.len() == ps@.len(),
                ps == &project_info.packages,
                member_lists_correct(
                    members@,
                    member_docs@,
                    members_of(ps@.take(i as int), manifests@.take(i as int)),
                ),
            decreases ps.len() - i,
        {
            proof {
                assert(ps@.take(i + 1).drop_last() =~= ps@.take(i as int));
                assert(manifests@.take(i + 1).drop_last() =~= manifests@.take(i as int));
                assert(ps@.take(i + 1).last() == ps@[i as int]);
                assert(manifests@.take(i + 1).last() == manifests@[i as int]);
            }
            let p = &ps[i];
            let ghost mem0 = members_of(ps@.take(i as int), manifests@.take(i as int));
            let ghost mem1 = members_of(ps@.take(i + 1), manifests@.take(i + 1));
            if p.is_workspace_member {
                let d = PackageDocumentation {
                    name: p.name.clone(),
                    description: self.extract_package_description(&manifests[i]),
                    version: p.version.clone(),
                    main_features: self.analyze_main_features(p),
                };
                members.push(p.name.clone());
                member_docs.push(d);
                proof {
                    assert(mem1 == mem0.push((ps@[i as int], manifests@[i as int])));
                }
            } else {
                proof {
                    assert(mem1 == mem0);
                }
            }
            i = i + 1;
        }
        proof {
            assert(ps@.take(ps@.len() as int) =~= ps@);
            assert(manifests@.take(manifests@.len() as int) =~= manifests@);
        }
        Ok(WorkspaceDocumentation { members, member_docs })
    }
}


impl DocOutputGenerator {
    /// The whole report: the project record (with the README text read by
    /// the caller, and the workspace record for a workspace), then the
    /// modules, functions, types, macros and constants.
    pub fn build_documentation_output(
        &self,
        methods: &Vec<MethodOutput>,
        structs: &Vec<StructOutput>,
        docs: &DocMap,
        project_info: &ProjectMetadata,
        readme: Option<String>,
        manifests: &Vec<Option<String>>,
    ) -> (res: Result<DocumentationOutput, AnalyzerError>)
        requires
            docs.wf(),
            forall|i: int| 0 <= i < structs@.len() ==> #[trigger] structs@[i].begin_line <= u32::MAX - 2,
            manifests@.len() == project_info.packages@.len(),
        ensures
            res matches Ok(d) && {
                &&& d.project.name == project_info.name
                &&& d.project.version == project_info.version
                &&& d.project.description == project_info.description
                &&& d.project.authors@ == project_info.authors@
                &&& d.project.license == project_info.license
                &&& d.project.repository == project_info.repository
                &&& d.project.readme == readme
                &&& (project_info.is_workspace ==> (d.project.workspace_info matches Some(w)
                    && workspace_doc_correct(w, project_info.packages@, manifests@)))
                &&& (!project_info.is_workspace ==> d.project.workspace_info is None)
                &&& modules_correct(d.modules@, methods@, structs@)
                &&& d.functions@.len() == methods@.len()
                &&& forall|i: int|
                    0 <= i < methods@.len() ==> function_doc_correct(
                        #[trigger] d.functions@[i],
                        methods@[i],
                        docs.lookup(methods@[i].signature@),
                    )
                &&& d.types@.len() == structs@.len()
                &&& forall|i: int|
                    0 <= i < structs@.len() ==> type_doc_correct(
                        #[trigger] d.types@[i],
                        structs@[i],
                        docs.lookup(structs@[i].fullname@),
                    )
                &&& d.macros@.len() == macro_records(methods@).len()
                &&& forall|i: int|
                    0 <= i < d.macros@.len() ==> macro_doc_correct(
                        #[trigger] d.macros@[i],
                        macro_records(methods@)[i],
                        docs.lookup(macro_records(methods@)[i].signature@),
                    )
                &&& d.constants@.len() == constant_records(methods@).len()
                &&& forall|i: int|
                    0 <= i < d.constants@.len() ==> constant_doc_correct(
                        #[trigger] d.constants@[i],
                        constant_records(methods@)[i],
                        docs.lookup(constant_records(methods@)[i].signature@),
                    )
            },
    {
        let workspace_info = if project_info.is_workspace {
            match self.build_workspace_documentation(project_info, manifests) {
                Ok(w) => Some(w),
                Err(e) => {
                    return Err(e);
                },
            }
        } else {
            None
        };
        let project = ProjectDocumentation {
            name: project_info.name.clone(),
            version: project_info.version.clone(),
            description: copy_opt(&project_info.description),
            authors: copy_strings(&project_info.authors),
            license: copy_opt(&project_info.license),
            repository: copy_opt(&project_info.repository),
            readme,
            workspace_info,
        };
        let functions = match self.build_function_documentation(methods, docs) {
            Ok(v) => v,
            Err(e) => {
                return Err(e);
            },
        };
        let types = match self.build_type_documentation(structs, docs) {
            Ok(v) => v,
            Err(e) => {
                return Err(e);
            },
        };
        let modules = match self.build_module_documentation(methods, structs, docs) {
            Ok(v) => v,
            Err(e) => {
                return Err(e);
            },
        };
        let macros = match self.build_macro_documentation(methods, docs) {
            Ok(v) => v,
            Err(e) => {
                return Err(e);
            },
        };
        let constants = match self.build_constant_documentation(methods, docs) {
            Ok(v) => v,
            Err(e) => {
                return Err(e);
            },
        };
        Ok(DocumentationOutput { project, modules, functions, types, macros, constants })
    }
}

} // verus!
