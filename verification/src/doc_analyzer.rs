//! Documentation comments, attributes and inline comments of the items of a
//! source file.
use vstd::prelude::*;
use crate::string_map::StringMap;
use crate::syntax::{Attribute, ImplItem, Item, SourceFile};
use crate::error::AnalyzerError;
use crate::text::{
    chars_of, concat3, find, join, opt_view, slice_chars, spec_find, spec_join, spec_lines,
    spec_starts_with, spec_trim, str_lines, string_of, string_views, to_string, trim, views,
    lemma_find_from_props, lemma_string_views_push, matches_at, replace, spec_replace,
};
use crate::utils::{
    file_name, relative_components, spec_file_name, spec_relative_components,
    spec_stem_components, stem_last_component,
};

verus! {

/// What kind of item a documentation record is about.
#[derive(Clone, Copy, PartialEq, Eq, Debug)]
pub enum DocType {
    Function,
    Struct,
    Enum,
    Trait,
    Module,
    Constant,
    Macro,
}

#[derive(Clone)]
pub struct DocLocation {
    pub file: String,
    pub line: u32,
    pub column: u32,
}

/// The documentation found for one item.
#[derive(Clone)]
pub struct DocInfo {
    pub name: String,
    pub doc_comment: Option<String>,
    pub inline_comments: Vec<String>,
    pub attributes: Vec<String>,
    pub doc_type: DocType,
    pub location: DocLocation,
}

/// Documentation records by the key of their item.
pub type DocMap = StringMap<DocInfo>;

// ---------------------------------------------------------------------------
// What the attributes and the source text tell
// ---------------------------------------------------------------------------

/// The string arguments of the `doc(...)` attributes in list form.
pub open spec fn doc_lines(attrs: Seq<Attribute>) -> Seq<Seq<char>>
    decreases attrs.len(),
{
    if attrs.len() == 0 {
        Seq::empty()
    } else {
        let r = doc_lines(attrs.drop_last());
        let a = attrs.last();
        if a.is_doc && a.list_str_arg is Some {
            r.push(a.list_str_arg->0@)
        } else {
            r
        }
    }
}

/// The doc text: the lines joined by newlines, `None` when there are none.
pub open spec fn spec_doc_comment(attrs: Seq<Attribute>) -> Option<Seq<char>> {
    let ls = doc_lines(attrs);
    if ls.len() == 0 {
        None
    } else {
        Some(spec_join(ls, "\n"@))
    }
}

/// The attributes other than `doc`, as printed tokens.
pub open spec fn spec_attributes(attrs: Seq<Attribute>) -> Seq<Seq<char>>
    decreases attrs.len(),
{
    if attrs.len() == 0 {
        Seq::empty()
    } else if attrs.last().is_doc {
        spec_attributes(attrs.drop_last())
    } else {
        spec_attributes(attrs.drop_last()).push(attrs.last().tokens@)
    }
}

/// The comment at the end of line `line` (counted from 1): the trimmed text
/// after its first `//`, when that is not empty and does not begin with `/`.
pub open spec fn spec_inline_comments(source: Seq<char>, line: u32) -> Seq<Seq<char>> {
    let ls = spec_lines(source);
    if line > 0 && line <= ls.len() {
        let l = ls[line - 1];
        match spec_find(l, "//"@) {
            Some(p) => {
                let c = spec_trim(l.subrange(p + 2, l.len() as int));
                if c.len() > 0 && !spec_starts_with(c, "/"@) {
                    seq![c]
                } else {
                    Seq::empty()
                }
            },
            None => Seq::empty(),
        }
    } else {
        Seq::empty()
    }
}

/// The module of a file as the documentation records name it: its path
/// below the root (or all of it), without extension, with `::` for `/`.
pub open spec fn spec_doc_module_path(file: Seq<char>, root: Seq<char>) -> Seq<char> {
    spec_replace(spec_join(spec_stem_components(spec_relative_components(file, root)), "/"@), "/"@, "::"@)
}

/// The file named in a record's location: the file name, or `unknown`.
pub open spec fn spec_location_file(file: Seq<char>) -> Seq<char> {
    match spec_file_name(file) {
        Some(n) => n,
        None => "unknown"@,
    }
}

/// The items a file documents, in order: functions, structs, enums, traits
/// and the methods of `impl` blocks, each with its attributes and kind.
pub open spec fn doc_defs(items: Seq<Item>) -> Seq<(Seq<char>, Seq<Attribute>, DocType, u32)>
    decreases items.len(),
{
    if items.len() == 0 {
        Seq::empty()
    } else {
        doc_defs(items.drop_last()) + item_doc_defs(items.last())
    }
}

pub open spec fn impl_doc_defs(items: Seq<ImplItem>) -> Seq<(Seq<char>, Seq<Attribute>, DocType, u32)>
    decreases items.len(),
{
    if items.len() == 0 {
        Seq::empty()
    } else {
        match items.last() {
            ImplItem::Fn(f) => impl_doc_defs(items.drop_last()).push(
                (f.sig.ident@, f.attrs@, DocType::Function, f.start_line),
            ),
            ImplItem::Other => impl_doc_defs(items.drop_last()),
        }
    }
}

pub open spec fn item_doc_defs(item: Item) -> Seq<(Seq<char>, Seq<Attribute>, DocType, u32)> {
    match item {
        Item::Fn(f) => seq![(f.sig.ident@, f.attrs@, DocType::Function, f.start_line)],
        Item::Struct { attrs, ident, start_line, .. } => seq![(ident@, attrs@, DocType::Struct, start_line)],
        Item::Enum { attrs, ident, start_line, .. } => seq![(ident@, attrs@, DocType::Enum, start_line)],
        Item::Trait { attrs, ident, start_line, .. } => seq![(ident@, attrs@, DocType::Trait, start_line)],
        Item::Impl { items, .. } => impl_doc_defs(items@),
        _ => Seq::empty(),
    }
}

/// The last definition among `defs` stored under `key`.
pub open spec fn last_doc_def(
    defs: Seq<(Seq<char>, Seq<Attribute>, DocType, u32)>,
    module: Seq<char>,
    key: Seq<char>,
) -> Option<(Seq<char>, Seq<Attribute>, DocType, u32)>
    decreases defs.len(),
{
    if defs.len() == 0 {
        None
    } else if module + "::"@ + defs.last().0 == key {
        Some(defs.last())
    } else {
        last_doc_def(defs.drop_last(), module, key)
    }
}

/// The line a record gives for an item that starts on line `line` (counted
/// from 1): that line when the source has it, else 1.
pub open spec fn spec_doc_line(source: Seq<char>, line: u32) -> u32 {
    if 0 < line && line <= spec_lines(source).len() {
        line
    } else {
        1
    }
}

/// A record holds what the source tells of an item.
pub open spec fn doc_matches(
    d: DocInfo,
    def: (Seq<char>, Seq<Attribute>, DocType, u32),
    file: Seq<char>,
    source: Seq<char>,
) -> bool {
    &&& d.name@ == def.0
    &&& opt_view(d.doc_comment) == spec_doc_comment(def.1)
    &&& string_views(d.attributes@) == spec_attributes(def.1)
    &&& string_views(d.inline_comments@) == spec_inline_comments(source, spec_doc_line(source, def.3))
    &&& d.doc_type == def.2
    &&& d.location.file@ == spec_location_file(file)
    &&& d.location.line == spec_doc_line(source, def.3)
    &&& d.location.column == 1
}

/// Reads the documentation of the items of source files.
pub struct DocAnalyzer {
    current_module: String,
    docs: DocMap,
}

/// After reading `defs`, key `k` holds the record of its last definition, or
/// what it held before.
pub open spec fn docs_recorded(
    now: DocMap,
    before: DocMap,
    defs: Seq<(Seq<char>, Seq<Attribute>, DocType, u32)>,
    module: Seq<char>,
    file: Seq<char>,
    source: Seq<char>,
    k: Seq<char>,
) -> bool {
    match last_doc_def(defs, module, k) {
        Some(def) => now.lookup(k) matches Some(d) && doc_matches(d, def, file, source),
        None => now.lookup(k) == before.lookup(k),
    }
}

impl DocAnalyzer {
    pub closed spec fn wf(&self) -> bool {
        self.docs.wf()
    }

    pub closed spec fn spec_current_module(&self) -> Seq<char> {
        self.current_module@
    }

    pub closed spec fn spec_docs(&self) -> DocMap {
        self.docs
    }

    /// An analyzer with no records.
    pub fn new() -> (res: Self)
        ensures
            res.wf(),
            res.spec_current_module() == Seq::<char>::empty(),
            forall|k: Seq<char>| #[trigger] res.spec_docs().lookup(k) is None,
    {
        DocAnalyzer { current_module: String::new(), docs: StringMap::new() }
    }

    /// The records read so far, by `module::name`.
    pub fn docs(&self) -> (res: &DocMap)
        ensures
            *res == self.spec_docs(),
    {
        &self.docs
    }

    /// The string arguments of the list-form `doc(...)` attributes joined by
    /// newlines, `None` when there are none.
    pub fn extract_doc_comment(&self, attrs: &Vec<Attribute>) -> (res: Option<String>)
        ensures
            opt_view(res) == spec_doc_comment(attrs@),
    {
        let mut lines: Vec<String> = Vec::new();
        let mut i: usize = 0;
        while i < attrs.len()
            invariant
                i <= attrs.len(),
                string_views(lines@) == doc_lines(attrs@.take(i as int)),
            decreases attrs.len() - i,
        {
            proof {
                assert(attrs@.take(i + 1).drop_last() =~= attrs@.take(i as int));
                assert(attrs@.take(i + 1).last() == attrs@[i as int]);
            }
            let a = &attrs[i];
            if a.is_doc {
                match &a.list_str_arg {
                    Some(v) => {
                        let ghost before = lines@;
                        lines.push(v.clone());
                        proof {
                            lemma_string_views_push(before, lines@.last());
                        }
                    },
                    None => {},
                }
            }
            i = i + 1;
        }
        proof {
            assert(attrs@.take(attrs@.len() as int) =~= attrs@);
        }
        if lines.len() == 0 {
            None
        } else {
            Some(join(&lines, "\n"))
        }
    }

    /// The attributes other than `doc`, as printed tokens.
    pub fn extract_attributes(&self, attrs: &Vec<Attribute>) -> (res: Vec<String>)
        ensures
            string_views(res@) == spec_attributes(attrs@),
    {
        let mut out: Vec<String> = Vec::new();
        let mut i: usize = 0;
        while i < attrs.len()
            invariant
                i <= attrs.len(),
                string_views(out@) == spec_attributes(attrs@.take(i as int)),
            decreases attrs.len() - i,
        {
            proof {
                assert(attrs@.take(i + 1).drop_last() =~= attrs@.take(i as int));
                assert(attrs@.take(i + 1).last() == attrs@[i as int]);
            }
            if !attrs[i].is_doc {
                let ghost before = out@;
                out.push(attrs[i].tokens.clone());
                proof {
                    lemma_string_views_push(before, out@.last());
                }
            }
            i = i + 1;
        }
        proof {
            assert(attrs@.take(attrs@.len() as int) =~= attrs@);
        }
        out
    }

    /// The module of a file as the documentation records name it.
    pub fn extract_module_path(&self, file_path: &str, project_root: &str) -> (res: String)
        ensures
            res@ == spec_doc_module_path(file_path@, project_root@),
    {
        let c = stem_last_component(relative_components(file_path, project_root));
        let mut parts: Vec<String> = Vec::new();
        let mut i: usize = 0;
        while i < c.len()
            invariant
                i <= c.len(),
                string_views(parts@) == views(c@).take(i as int),
            decreases c.len() - i,
        {
            let ghost before = parts@;
            parts.push(string_of(c[i].as_slice()));
            proof {
                lemma_string_views_push(before, parts@.last());
                assert(views(c@).take(i + 1) =~= views(c@).take(i as int).push(c@[i as int]@));
            }
            i = i + 1;
        }
        proof {
            assert(views(c@).take(c@.len() as int) =~= views(c@));
            reveal_strlit("/");
        }
        let joined = join(&parts, "/");
        replace(joined.as_str(), "/", "::")
    }

    /// The location a record gives for an item whose span starts on line
    /// `start_line` (counted from 1): the file's name (or `unknown`), that
    /// line when the source has it (else line 1), column 1.
    pub fn extract_location_from_span(&self, start_line: u32, file_path: &str, source_content: &str) -> (res: DocLocation)
        ensures
            res.file@ == spec_location_file(file_path@),
            res.line == spec_doc_line(source_content@, start_line),
            res.column == 1,
    {
        let file = match file_name(file_path) {
            Some(n) => n,
            None => to_string("unknown"),
        };
        let total = str_lines(source_content).len();
        let line = if start_line > 0 && (start_line as usize) <= total {
            start_line
        } else {
            1
        };
        DocLocation { file, line, column: 1 }
    }

    /// The comment at the end of line `line_number` (counted from 1).
    pub fn extract_inline_comments(&self, source_content: &str, line_number: u32) -> (res: Vec<String>)
        ensures
            string_views(res@) == spec_inline_comments(source_content@, line_number),
    {
        let ls = str_lines(source_content);
        let mut comments: Vec<String> = Vec::new();
        proof {
            reveal_strlit("//");
            reveal_strlit("/");
        }
        if line_number > 0 && (line_number as usize) <= ls.len() {
            let idx = (line_number - 1) as usize;
            let l = &ls[idx];
            assert(views(ls@)[idx as int] == l@);
            let slashes = chars_of("//");
            match find(l.as_slice(), slashes.as_slice()) {
                Some(p) => {
                    proof {
                        lemma_find_from_props(l@, slashes@, 0);
                        assert(matches_at(l@, slashes@, p as int));
                    }
                    assert(p + 2 <= l.len());
                    let rest = slice_chars(l.as_slice(), p + 2, l.len());
                    let c = trim(rest.as_slice());
                    proof {
                        if c@.len() > 0 {
                            assert(c@.subrange(0, 1)[0] == c@[0]);
                            if c@[0] == '/' {
                                assert(c@.subrange(0, 1) =~= "/"@);
                            }
                        }
                    }
                    if c.len() > 0 && c[0] != '/' {
                        comments.push(string_of(c.as_slice()));
                        proof {
                            assert(string_views(comments@) =~= seq![c@]);
                        }
                    } else {
                        proof {
                            assert(string_views(comments@) =~= Seq::<Seq<char>>::empty());
                        }
                    }
                },
                None => {
                    assert(string_views(comments@) =~= Seq::<Seq<char>>::empty());
                },
            }
        } else {
            assert(string_views(comments@) =~= Seq::<Seq<char>>::empty());
        }
        comments
    }
}

proof fn lemma_docs_step(
    now: DocMap,
    next: DocMap,
    before: DocMap,
    defs: Seq<(Seq<char>, Seq<Attribute>, DocType, u32)>,
    def: (Seq<char>, Seq<Attribute>, DocType, u32),
    d: DocInfo,
    module: Seq<char>,
    file: Seq<char>,
    source: Seq<char>,
)
    requires
        forall|k: Seq<char>| #[trigger] docs_recorded(now, before, defs, module, file, source, k),
        next.lookup(module + "::"@ + def.0) == Some(d),
        forall|k: Seq<char>| k != module + "::"@ + def.0 ==> #[trigger] next.lookup(k) == now.lookup(k),
        doc_matches(d, def, file, source),
    ensures
        forall|k: Seq<char>| #[trigger] docs_recorded(next, before, defs.push(def), module, file, source, k),
{
    assert forall|k: Seq<char>| #[trigger] docs_recorded(next, before, defs.push(def), module, file, source, k) by {
        assert(defs.push(def).drop_last() =~= defs);
        assert(defs.push(def).last() == def);
        if k != module + "::"@ + def.0 {
            assert(docs_recorded(now, before, defs, module, file, source, k));
            assert(next.lookup(k) == now.lookup(k));
        }
    }
}

impl DocAnalyzer {
    fn make_doc(
        &self,
        name: &String,
        attrs: &Vec<Attribute>,
        doc_type: DocType,
        start_line: u32,
        file_path: &str,
        source_content: &str,
    ) -> (res: DocInfo)
        ensures
            doc_matches(res, (name@, attrs@, doc_type, start_line), file_path@, source_content@),
    {
        let doc_comment = self.extract_doc_comment(attrs);
        let attributes = self.extract_attributes(attrs);
        let location = self.extract_location_from_span(start_line, file_path, source_content);
        let inline_comments = self.extract_inline_comments(source_content, location.line);
        DocInfo { name: name.clone(), doc_comment, inline_comments, attributes, doc_type, location }
    }

    fn record_doc(
        &mut self,
        name: &String,
        attrs: &Vec<Attribute>,
        doc_type: DocType,
        start_line: u32,
        file_path: &str,
        source_content: &str,
        Ghost(before): Ghost<DocMap>,
        Ghost(defs): Ghost<Seq<(Seq<char>, Seq<Attribute>, DocType, u32)>>,
    )
        requires
            old(self).wf(),
            forall|k: Seq<char>| #[trigger] docs_recorded(
                old(self).spec_docs(),
                before,
                defs,
                old(self).spec_current_module(),
                file_path@,
                source_content@,
                k,
            ),
        ensures
            final(self).wf(),
            final(self).spec_current_module() == old(self).spec_current_module(),
            forall|k: Seq<char>| #[trigger] docs_recorded(
                final(self).spec_docs(),
                before,
                defs.push((name@, attrs@, doc_type, start_line)),
                old(self).spec_current_module(),
                file_path@,
                source_content@,
                k,
            ),
    {
        let d = self.make_doc(name, attrs, doc_type, start_line, file_path, source_content);
        let key = concat3(self.current_module.as_str(), "::", name.as_str());
        let ghost now = self.docs;
        let ghost dd = d;
        let ghost module = self.spec_current_module();
        proof {
            assert(now == old(self).spec_docs());
            assert forall|k: Seq<char>| #[trigger] docs_recorded(now, before, defs, module, file_path@, source_content@, k) by {
                assert(docs_recorded(old(self).spec_docs(), before, defs, old(self).spec_current_module(), file_path@, source_content@, k));
            }
        }
        self.docs.insert(key, d);
        proof {
            lemma_docs_step(
                now,
                self.docs,
                before,
                defs,
                (name@, attrs@, doc_type, start_line),
                dd,
                module,
                file_path@,
                source_content@,
            );
        }
    }

    /// Reads the documentation of the methods of an `impl` block.
    fn extract_impl_doc(
        &mut self,
        impl_items: &Vec<ImplItem>,
        file_path: &str,
        source_content: &str,
        Ghost(before): Ghost<DocMap>,
        Ghost(defs0): Ghost<Seq<(Seq<char>, Seq<Attribute>, DocType, u32)>>,
    )
        requires
            old(self).wf(),
            forall|k: Seq<char>| #[trigger] docs_recorded(
                old(self).spec_docs(),
                before,
                defs0,
                old(self).spec_current_module(),
                file_path@,
                source_content@,
                k,
            ),
        ensures
            final(self).wf(),
            final(self).spec_current_module() == old(self).spec_current_module(),
            forall|k: Seq<char>| #[trigger] docs_recorded(
                final(self).spec_docs(),
                before,
                defs0 + impl_doc_defs(impl_items@),
                old(self).spec_current_module(),
                file_path@,
                source_content@,
                k,
            ),
    {
        let ghost module = self.spec_current_module();
        let mut j: usize = 0;
        proof {
            assert(impl_items@.take(0) =~= Seq::<ImplItem>::empty());
            assert(defs0 + impl_doc_defs(impl_items@.take(0)) =~= defs0);
        }
        while j < impl_items.len()
            invariant
                j <= impl_items.len(),
                self.wf(),
                module == self.spec_current_module(),
                forall|k: Seq<char>| #[trigger] docs_recorded(
                    self.spec_docs(),
                    before,
                    defs0 + impl_doc_defs(impl_items@.take(j as int)),
                    module,
                    file_path@,
                    source_content@,
                    k,
                ),
            decreases impl_items.len() - j,
        {
            proof {
                assert(impl_items@.take(j + 1).drop_last() =~= impl_items@.take(j as int));
                assert(impl_items@.take(j + 1).last() == impl_items@[j as int]);
            }
            match &impl_items[j] {
                ImplItem::Fn(f) => {
                    self.record_doc(
                        &f.sig.ident,
                        &f.attrs,
                        DocType::Function,
                        f.start_line,
                        file_path,
                        source_content,
                        Ghost(before),
                        Ghost(defs0 + impl_doc_defs(impl_items@.take(j as int))),
                    );
                    proof {
                        assert((defs0 + impl_doc_defs(impl_items@.take(j as int))).push(
                            (f.sig.ident@, f.attrs@, DocType::Function, f.start_line),
                        ) =~= defs0 + impl_doc_defs(impl_items@.take(j + 1)));
                    }
                },
                ImplItem::Other => {
                    proof {
                        assert(impl_doc_defs(impl_items@.take(j + 1)) == impl_doc_defs(impl_items@.take(j as int)));
                    }
                },
            }
            j = j + 1;
        }
        proof {
            assert(impl_items@.take(impl_items@.len() as int) =~= impl_items@);
        }
    }

    /// Reads the documentation of the functions, structs, enums, traits and
    /// `impl` methods of a parsed file into the records, each stored under
    /// `module::name`; `source_content` is the file's text.
    pub fn analyze_file(
        &mut self,
        file_path: &str,
        parsed_file: &SourceFile,
        project_root: &str,
        source_content: &str,
    ) -> (res: Result<(), AnalyzerError>)
        requires
            old(self).wf(),
        ensures
            res is Ok,
            final(self).wf(),
            final(self).spec_current_module() == spec_doc_module_path(file_path@, project_root@),
            forall|k: Seq<char>| #[trigger] docs_recorded(
                final(self).spec_docs(),
                old(self).spec_docs(),
                doc_defs(parsed_file.items@),
                spec_doc_module_path(file_path@, project_root@),
                file_path@,
                source_content@,
                k,
            ),
    {
        self.current_module = self.extract_module_path(file_path, project_root);
        let ghost before = old(self).spec_docs();
        let ghost module = self.spec_current_module();
        let items = &parsed_file.items;
        proof {
            assert(items@.take(0) =~= Seq::<Item>::empty());
            assert forall|k: Seq<char>| #[trigger] docs_recorded(
                self.spec_docs(),
                before,
                doc_defs(items@.take(0)),
                module,
                file_path@,
                source_content@,
                k,
            ) by {}
        }
        let mut i: usize = 0;
        while i < items.len()
            invariant
                i <= items.len(),
                self.wf(),
                module == self.spec_current_module(),
                module == spec_doc_module_path(file_path@, project_root@),
                items == &parsed_file.items,
                forall|k: Seq<char>| #[trigger] docs_recorded(
                    self.spec_docs(),
                    before,
                    doc_defs(items@.take(i as int)),
                    module,
                    file_path@,
                    source_content@,
                    k,
                ),
            decreases items.len() - i,
        {
            let ghost defs0 = doc_defs(items@.take(i as int));
            proof {
                assert(items@.take(i + 1).drop_last() =~= items@.take(i as int));
                assert(items@.take(i + 1).last() == items@[i as int]);
                assert(doc_defs(items@.take(i + 1)) == defs0 + item_doc_defs(items@[i as int]));
            }
            match &items[i] {
                Item::Fn(f) => {
                    self.record_doc(&f.sig.ident, &f.attrs, DocType::Function, f.start_line, file_path, source_content, Ghost(before), Ghost(defs0));
                    proof {
                        assert(defs0 + seq![(f.sig.ident@, f.attrs@, DocType::Function, f.start_line)] =~= defs0.push(
                            (f.sig.ident@, f.attrs@, DocType::Function, f.start_line),
                        ));
                    }
                },
                Item::Struct { attrs, ident, start_line, .. } => {
                    self.record_doc(ident, attrs, DocType::Struct, *start_line, file_path, source_content, Ghost(before), Ghost(defs0));
                    proof {
                        assert(defs0 + seq![(ident@, attrs@, DocType::Struct, *start_line)] =~= defs0.push(
                            (ident@, attrs@, DocType::Struct, *start_line),
                        ));
                    }
                },
                Item::Enum { attrs, ident, start_line, .. } => {
                    self.record_doc(ident, attrs, DocType::Enum, *start_line, file_path, source_content, Ghost(before), Ghost(defs0));
                    proof {
                        assert(defs0 + seq![(ident@, attrs@, DocType::Enum, *start_line)] =~= defs0.push(
                            (ident@, attrs@, DocType::Enum, *start_line),
                        ));
                    }
                },
                Item::Trait { attrs, ident, start_line, .. } => {
                    self.record_doc(ident, attrs, DocType::Trait, *start_line, file_path, source_content, Ghost(before), Ghost(defs0));
                    proof {
                        assert(defs0 + seq![(ident@, attrs@, DocType::Trait, *start_line)] =~= defs0.push(
                            (ident@, attrs@, DocType::Trait, *start_line),
                        ));
                    }
                },
                Item::Impl { items: impl_items, .. } => {
                    self.extract_impl_doc(impl_items, file_path, source_content, Ghost(before), Ghost(defs0));
                },
                _ => {
                    proof {
                        assert(defs0 + Seq::<(Seq<char>, Seq<Attribute>, DocType, u32)>::empty() =~= defs0);
                    }
                },
            }
            i = i + 1;
        }
        proof {
            assert(items@.take(items@.len() as int) =~= items@);
        }
        Ok(())
    }
}

} // verus!
