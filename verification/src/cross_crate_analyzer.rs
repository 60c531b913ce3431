//! Imports and calls across the crates of a project: `use` declarations,
//! the symbols they bring in, and the calls that cross a crate boundary.
use vstd::prelude::*;
use crate::cargo_integration::{PackageInfo, ProjectMetadata};
use crate::error::AnalyzerError;
use crate::output::{MethodOutput, MethodRecord};
use crate::string_map::StringMap;
use crate::syntax::{Item, SourceFile, UseTree};
use crate::text::{
    chars_of, concat, concat3, copy_strings, find, find_from, opt_view, slice_string, spec_contains,
    spec_ends_with, spec_find, spec_find_from, spec_lines, spec_split, spec_starts_with,
    str_contains, str_ends_with, str_eq, str_lines, str_starts_with, split_str, string_views,
    to_string, views, lemma_find_from_props, lemma_string_views_push, matches_at,
};
use crate::function_analyzer::{add_name, add_names, copy_method};

verus! {

/// One name a `use` declaration brings in.
pub struct UseStatement {
    /// The path before the name, `::`-separated; empty for a top-level name.
    pub path: String,
    /// The name imported, `*` for a glob.
    pub symbol: String,
    pub alias: Option<String>,
    pub is_glob: bool,
    pub source_file: String,
}

/// A call from a function of one crate to a function of another.
pub struct CrossCrateCall {
    pub caller: String,
    pub callee: String,
    pub caller_crate: String,
    pub callee_crate: String,
    pub call_type: CrossCrateCallType,
}

#[derive(Clone, Copy, PartialEq, Eq, Debug)]
pub enum CrossCrateCallType {
    DirectCall,
    MethodCall,
    MacroCall,
    TraitMethodCall,
}

// ---------------------------------------------------------------------------
// Use trees
// ---------------------------------------------------------------------------

/// A path extended by one segment.
pub open spec fn spec_extend_path(current: Seq<char>, ident: Seq<char>) -> Seq<char> {
    if current.len() == 0 {
        ident
    } else {
        current + "::"@ + ident
    }
}

/// The names a use tree brings in below the path `current`: (path, symbol,
/// alias, glob), in the order of the tree.
pub open spec fn spec_use_entries(tree: UseTree, current: Seq<char>) -> Seq<(Seq<char>, Seq<char>, Option<Seq<char>>, bool)>
    decreases tree,
{
    match tree {
        UseTree::Path { ident, tree: sub } => spec_use_entries(*sub, spec_extend_path(current, ident@)),
        UseTree::Name(n) => seq![(current, n@, None, false)],
        UseTree::Rename { ident, rename } => seq![(current, ident@, Some(rename@), false)],
        UseTree::Glob => seq![(current, "*"@, None, true)],
        UseTree::Group(items) => spec_group_entries(items@, current),
    }
}

pub open spec fn spec_group_entries(items: Seq<UseTree>, current: Seq<char>) -> Seq<(Seq<char>, Seq<char>, Option<Seq<char>>, bool)>
    decreases items,
{
    if items.len() == 0 {
        Seq::empty()
    } else {
        spec_group_entries(items.drop_last(), current) + spec_use_entries(items.last(), current)
    }
}

pub open spec fn use_view(u: UseStatement) -> (Seq<char>, Seq<char>, Option<Seq<char>>, bool) {
    (u.path@, u.symbol@, opt_view(u.alias), u.is_glob)
}

pub open spec fn uses_view(v: Seq<UseStatement>) -> Seq<(Seq<char>, Seq<char>, Option<Seq<char>>, bool)> {
    v.map_values(|u: UseStatement| use_view(u))
}

/// The names the `use` items of a file bring in, in order.
pub open spec fn spec_file_uses(items: Seq<Item>) -> Seq<(Seq<char>, Seq<char>, Option<Seq<char>>, bool)>
    decreases items.len(),
{
    if items.len() == 0 {
        Seq::empty()
    } else {
        spec_file_uses(items.drop_last()) + match items.last() {
            Item::Use(t) => spec_use_entries(t, Seq::empty()),
            _ => Seq::empty(),
        }
    }
}

// ---------------------------------------------------------------------------
// Crates of names and calls
// ---------------------------------------------------------------------------

/// A call's kind judged from the callee's text: a macro ends in `!`, a
/// path with `<` is a trait method, another path a direct call, and a bare
/// name a method.
pub open spec fn spec_call_type(callee: Seq<char>) -> CrossCrateCallType {
    if spec_ends_with(callee, "!"@) {
        CrossCrateCallType::MacroCall
    } else if spec_contains(callee, "::"@) && spec_contains(callee, "<"@) {
        CrossCrateCallType::TraitMethodCall
    } else if spec_contains(callee, "::"@) {
        CrossCrateCallType::DirectCall
    } else {
        CrossCrateCallType::MethodCall
    }
}

/// The text between the first two double quotes of a line.
pub open spec fn spec_quoted_value(line: Seq<char>) -> Option<Seq<char>> {
    match spec_find(line, "\""@) {
        Some(s) => match spec_find(line.subrange(s + 1, line.len() as int), "\""@) {
            Some(e) => Some(line.subrange(s + 1, s + 1 + e)),
            None => None,
        },
        None => None,
    }
}

/// The package names of a lock file: the quoted value of each line that
/// starts with `name = `.
pub open spec fn spec_lock_names(lines: Seq<Seq<char>>) -> Seq<Seq<char>>
    decreases lines.len(),
{
    if lines.len() == 0 {
        Seq::empty()
    } else {
        let r = spec_lock_names(lines.drop_last());
        let l = lines.last();
        if spec_starts_with(l, "name = "@) {
            match spec_quoted_value(l) {
                Some(v) => r.push(v),
                None => r,
            }
        } else {
            r
        }
    }
}

/// The text between the first two double quotes of a line.
pub fn extract_quoted_value(line: &str) -> (res: Option<String>)
    ensures
        opt_view(res) == spec_quoted_value(line@),
{
    let cs = chars_of(line);
    let q = chars_of("\"");
    proof {
        reveal_strlit("\"");
    }
    match find(cs.as_slice(), q.as_slice()) {
        Some(s) => {
            proof {
                lemma_find_from_props(cs@, q@, 0);
                assert(matches_at(cs@, q@, s as int));
            }
            assert(s + 1 <= cs.len());
            let rest = crate::text::slice_chars(cs.as_slice(), s + 1, cs.len());
            match find(rest.as_slice(), q.as_slice()) {
                Some(e) => {
                    proof {
                        lemma_find_from_props(rest@, q@, 0);
                        assert(matches_at(rest@, q@, e as int));
                    }
                    assert(s + 1 + e <= cs.len());
                    Some(slice_string(cs.as_slice(), s + 1, s + 1 + e))
                },
                None => None,
            }
        },
        None => None,
    }
}

/// The package names that a lock file's text lists.
pub fn lock_package_names(content: &str) -> (res: Vec<String>)
    ensures
        string_views(res@) == spec_lock_names(spec_lines(content@)),
{
    let ls = str_lines(content);
    let ghost lv = views(ls@);
    let mut out: Vec<String> = Vec::new();
    let mut i: usize = 0;
    while i < ls.len()
        invariant
            i <= ls.len(),
            lv == views(ls@),
            lv == spec_lines(content@),
            string_views(out@) == spec_lock_names(lv.take(i as int)),
        decreases ls.len() - i,
    {
        proof {
            assert(lv.take(i + 1).drop_last() =~= lv.take(i as int));
            assert(lv.take(i + 1).last() == ls@[i as int]@);
            reveal_strlit("name = ");
        }
        let l = crate::text::string_of(ls[i].as_slice());
        if str_starts_with(l.as_str(), "name = ") {
            match extract_quoted_value(l.as_str()) {
                Some(v) => {
                    let ghost before = out@;
                    out.push(v);
                    proof {
                        lemma_string_views_push(before, out@.last());
                    }
                },
                None => {},
            }
        }
        i = i + 1;
    }
    proof {
        assert(lv.take(lv.len() as int) =~= lv);
    }
    out
}


// ---------------------------------------------------------------------------
// Workspace members and dependency sources
// ---------------------------------------------------------------------------

/// The source path of the first workspace member named `name`.
pub open spec fn spec_member_path(pk: Seq<PackageInfo>, name: Seq<char>) -> Option<Seq<char>>
    decreases pk.len(),
{
    if pk.len() == 0 {
        None
    } else if pk[0].is_workspace_member && pk[0].name@ == name {
        Some(pk[0].source_path@)
    } else {
        spec_member_path(pk.drop_first(), name)
    }
}

/// The source path of the last workspace member named `name`.
pub open spec fn spec_last_member_path(pk: Seq<PackageInfo>, name: Seq<char>) -> Option<Seq<char>>
    decreases pk.len(),
{
    if pk.len() == 0 {
        None
    } else if pk.last().is_workspace_member && pk.last().name@ == name {
        Some(pk.last().source_path@)
    } else {
        spec_last_member_path(pk.drop_last(), name)
    }
}

/// Where a dependency's sources are: a workspace member of that name
/// first, else the directory found for it on disk.
pub open spec fn spec_dependency_source(pk: Seq<PackageInfo>, name: Seq<char>, on_disk: Option<Seq<char>>) -> Option<Seq<char>> {
    match spec_member_path(pk, name) {
        Some(p) => Some(p),
        None => on_disk,
    }
}

/// Whether some package has the name `n`.
pub open spec fn spec_has_package(pk: Seq<PackageInfo>, n: Seq<char>) -> bool {
    exists|i: int| 0 <= i < pk.len() && #[trigger] pk[i].name@ == n
}

/// The text before the first `::`, or the whole text.
pub open spec fn spec_first_segment(s: Seq<char>) -> Seq<char> {
    match spec_find(s, "::"@) {
        Some(i) => s.subrange(0, i),
        None => s,
    }
}

// ---------------------------------------------------------------------------
// Symbols
// ---------------------------------------------------------------------------

/// The name under which an imported entry is known: its alias, else its symbol.
pub open spec fn spec_symbol_key(e: (Seq<char>, Seq<char>, Option<Seq<char>>, bool)) -> Seq<char> {
    match e.2 {
        Some(a) => a,
        None => e.1,
    }
}

/// The full path of an imported entry.
pub open spec fn spec_full_path(e: (Seq<char>, Seq<char>, Option<Seq<char>>, bool)) -> Seq<char> {
    if e.0.len() == 0 {
        e.1
    } else {
        e.0 + "::"@ + e.1
    }
}

/// The path that the last non-glob entry known as `k` resolves to.
pub open spec fn spec_symbols(entries: Seq<(Seq<char>, Seq<char>, Option<Seq<char>>, bool)>, k: Seq<char>) -> Option<Seq<char>>
    decreases entries.len(),
{
    if entries.len() == 0 {
        None
    } else if !entries.last().3 && spec_symbol_key(entries.last()) == k {
        Some(spec_full_path(entries.last()))
    } else {
        spec_symbols(entries.drop_last(), k)
    }
}

/// The lists laid end to end.
pub open spec fn flat_lists<E>(ls: Seq<Seq<E>>) -> Seq<E>
    decreases ls.len(),
{
    if ls.len() == 0 {
        Seq::empty()
    } else {
        flat_lists(ls.drop_last()) + ls.last()
    }
}

/// The uses that the last file named `f` brings in, if it brings in any.
pub open spec fn spec_new_uses(files: Seq<(String, SourceFile)>, f: Seq<char>) -> Option<Seq<(Seq<char>, Seq<char>, Option<Seq<char>>, bool)>>
    decreases files.len(),
{
    if files.len() == 0 {
        None
    } else if files.last().0@ == f && spec_file_uses(files.last().1.items@).len() > 0 {
        Some(spec_file_uses(files.last().1.items@))
    } else {
        spec_new_uses(files.drop_last(), f)
    }
}

pub open spec fn or_else(a: Option<Seq<char>>, b: Option<Seq<char>>) -> Option<Seq<char>> {
    match a {
        Some(x) => Some(x),
        None => b,
    }
}

// ---------------------------------------------------------------------------
// The analyzer
// ---------------------------------------------------------------------------

/// Tracks the crates of a project, the names its files import, and the
/// calls that go from one crate to another.
pub struct CrossCrateAnalyzer {
    project_metadata: ProjectMetadata,
    /// Crate name to the directory of its sources.
    crate_paths: StringMap<String>,
    /// File path to the names its `use` items bring in.
    use_statements: StringMap<Vec<UseStatement>>,
    /// Imported name to the full path it stands for.
    symbol_resolution: StringMap<String>,
}

/// Whether the sources of crate `n` are known to an analyzer made for
/// `packages`, once the lock file text `lock` (if there is one) has been read
/// with the source directories `found` on disk.
pub open spec fn crate_source_known(
    packages: Seq<PackageInfo>,
    lock: Option<Seq<char>>,
    found: StringMap<String>,
    n: Seq<char>,
) -> bool {
    ||| spec_last_member_path(packages, n) is Some
    ||| (lock matches Some(c) && spec_lock_names(spec_lines(c)).contains(n)
        && spec_dependency_source(packages, n, opt_view(found.lookup(n))) is Some)
}

/// The crate of each signature for such an analyzer of project `project`:
/// the signature's first path segment if that names a crate whose sources
/// are known or a package, else the project itself.
pub open spec fn setup_crate_of(
    packages: Seq<PackageInfo>,
    project: Seq<char>,
    lock: Option<Seq<char>>,
    found: StringMap<String>,
) -> spec_fn(Seq<char>) -> Seq<char> {
    |sig: Seq<char>| {
        let f = spec_first_segment(sig);
        if crate_source_known(packages, lock, found, f) || spec_has_package(packages, f) {
            f
        } else {
            project
        }
    }
}

impl CrossCrateAnalyzer {
    pub closed spec fn wf(&self) -> bool {
        &&& self.crate_paths.wf()
        &&& self.use_statements.wf()
        &&& self.symbol_resolution.wf()
    }

    pub closed spec fn packages(&self) -> Seq<PackageInfo> {
        self.project_metadata.packages@
    }

    pub closed spec fn project_name(&self) -> Seq<char> {
        self.project_metadata.name@
    }

    /// The source directory known for a crate.
    pub closed spec fn crate_path_of(&self, n: Seq<char>) -> Option<Seq<char>> {
        opt_view(self.crate_paths.lookup(n))
    }

    /// The names a file imports, as recorded.
    pub closed spec fn uses_in(&self, f: Seq<char>) -> Option<Seq<(Seq<char>, Seq<char>, Option<Seq<char>>, bool)>> {
        match self.use_statements.lookup(f) {
            Some(v) => Some(uses_view(v@)),
            None => None,
        }
    }

    /// The files with recorded imports, in the order the analyzer keeps them.
    pub closed spec fn use_files(&self) -> Seq<Seq<char>> {
        self.use_statements.key_seq()
    }

    /// The recorded imports of each of `use_files()`, in the same order.
    pub closed spec fn use_lists(&self) -> Seq<Seq<(Seq<char>, Seq<char>, Option<Seq<char>>, bool)>> {
        self.use_statements.value_seq().map_values(|v: Vec<UseStatement>| uses_view(v@))
    }

    /// The full path an imported name resolves to.
    pub closed spec fn symbol_target(&self, n: Seq<char>) -> Option<Seq<char>> {
        opt_view(self.symbol_resolution.lookup(n))
    }

    /// The crate of a function signature: its first path segment if that
    /// names a known crate or a package, else the project itself.
    pub open spec fn spec_crate_of(&self, sig: Seq<char>) -> Seq<char> {
        let f = spec_first_segment(sig);
        if self.crate_path_of(f) is Some || spec_has_package(self.packages(), f) {
            f
        } else {
            self.project_name()
        }
    }

    /// The crate of each signature, as a function.
    pub open spec fn crate_fn(&self) -> spec_fn(Seq<char>) -> Seq<char> {
        |sig: Seq<char>| self.spec_crate_of(sig)
    }

    /// `use_lists()` holds the imports of `use_files()`, which are exactly
    /// the files with recorded imports.
    pub proof fn lemma_use_lists(&self)
        requires
            self.wf(),
        ensures
            self.use_lists().len() == self.use_files().len(),
            forall|i: int| 0 <= i < self.use_files().len() ==> #[trigger] self.uses_in(self.use_files()[i]) == Some(self.use_lists()[i]),
            forall|f: Seq<char>| #[trigger] self.uses_in(f) is Some <==> self.use_files().contains(f),
    {
        self.use_statements.lemma_entries();
        assert forall|f: Seq<char>| #[trigger] self.uses_in(f) is Some <==> self.use_files().contains(f) by {
            self.use_statements.lemma_lookup_key(f);
        }
    }

    /// An analyzer of the project: each workspace member's sources are known
    /// under its name. The dependencies that the lock file names are added by
    /// `parse_cargo_lock`.
    pub fn new(project_metadata: ProjectMetadata) -> (res: Self)
        ensures
            res.wf(),
            res.packages() == project_metadata.packages@,
            res.project_name() == project_metadata.name@,
            forall|n: Seq<char>| #[trigger] res.crate_path_of(n) == spec_last_member_path(project_metadata.packages@, n),
            forall|f: Seq<char>| #[trigger] res.uses_in(f) is None,
            res.use_files().len() == 0,
            forall|n: Seq<char>| #[trigger] res.symbol_target(n) is None,
    {
        let mut crate_paths: StringMap<String> = StringMap::new();
        let ghost pk = project_metadata.packages@;
        let mut i: usize = 0;
        while i < project_metadata.packages.len()
            invariant
                crate_paths.wf(),
                i <= project_metadata.packages.len(),
                pk == project_metadata.packages@,
                forall|n: Seq<char>| #[trigger] opt_view(crate_paths.lookup(n)) == spec_last_member_path(pk.take(i as int), n),
            decreases project_metadata.packages.len() - i,
        {
            proof {
                assert(pk.take(i + 1).drop_last() =~= pk.take(i as int));
                assert(pk.take(i + 1).last() == pk[i as int]);
            }
            let p = &project_metadata.packages[i];
            if p.is_workspace_member {
                crate_paths.insert(p.name.clone(), p.source_path.clone());
            }
            i = i + 1;
        }
        proof {
            assert(pk.take(pk.len() as int) =~= pk);
        }
        CrossCrateAnalyzer {
            project_metadata,
            crate_paths,
            use_statements: StringMap::new(),
            symbol_resolution: StringMap::new(),
        }
    }

    /// The sources of the first workspace member named `name`.
    fn check_local_dependency(&self, name: &str) -> (res: Option<String>)
        ensures
            opt_view(res) == spec_member_path(self.packages(), name@),
    {
        let ghost pk = self.project_metadata.packages@;
        let mut i: usize = 0;
        assert(pk.skip(0) =~= pk);
        while i < self.project_metadata.packages.len()
            invariant
                i <= self.project_metadata.packages.len(),
                pk == self.project_metadata.packages@,
                spec_member_path(pk, name@) == spec_member_path(pk.skip(i as int), name@),
            decreases self.project_metadata.packages.len() - i,
        {
            let p = &self.project_metadata.packages[i];
            proof {
                assert(pk.skip(i as int)[0] == pk[i as int]);
                assert(pk.skip(i as int).drop_first() =~= pk.skip(i + 1));
            }
            if p.is_workspace_member && str_eq(p.name.as_str(), name) {
                return Some(p.source_path.clone());
            }
            i = i + 1;
        }
        None
    }

    /// Where a dependency's sources are: a workspace member of that name,
    /// else the directory that `found_on_disk` gives for it.
    pub fn resolve_dependency_source_path(&self, name: &str, found_on_disk: &StringMap<String>) -> (res: Option<String>)
        requires
            found_on_disk.wf(),
        ensures
            opt_view(res) == spec_dependency_source(self.packages(), name@, opt_view(found_on_disk.lookup(name@))),
    {
        match self.check_local_dependency(name) {
            Some(p) => Some(p),
            None => match found_on_disk.get(name) {
                Some(p) => Some(p.clone()),
                None => None,
            },
        }
    }

    /// Records the source directory of each package that a lock file names,
    /// where one is known: a workspace member of that name, else what
    /// `found_on_disk` gives for it.
    pub fn parse_cargo_lock(&mut self, content: &str, found_on_disk: &StringMap<String>)
        requires
            old(self).wf(),
            found_on_disk.wf(),
        ensures
            final(self).wf(),
            final(self).packages() == old(self).packages(),
            final(self).project_name() == old(self).project_name(),
            forall|n: Seq<char>| #[trigger] final(self).crate_path_of(n) == (
                if spec_lock_names(spec_lines(content@)).contains(n)
                    && spec_dependency_source(old(self).packages(), n, opt_view(found_on_disk.lookup(n))) is Some {
                    spec_dependency_source(old(self).packages(), n, opt_view(found_on_disk.lookup(n)))
                } else {
                    old(self).crate_path_of(n)
                }),
            forall|f: Seq<char>| #[trigger] final(self).uses_in(f) == old(self).uses_in(f),
            final(self).use_files() == old(self).use_files(),
            final(self).use_lists() == old(self).use_lists(),
            forall|n: Seq<char>| #[trigger] final(self).symbol_target(n) == old(self).symbol_target(n),
    {
        let names = lock_package_names(content);
        let ghost nv = string_views(names@);
        let ghost pk = self.packages();
        let mut i: usize = 0;
        while i < names.len()
            invariant
                self.wf(),
                found_on_disk.wf(),
                i <= names.len(),
                nv == string_views(names@),
                nv == spec_lock_names(spec_lines(content@)),
                pk == self.packages(),
                pk == old(self).packages(),
                self.project_name() == old(self).project_name(),
                forall|f: Seq<char>| #[trigger] self.uses_in(f) == old(self).uses_in(f),
                self.use_files() == old(self).use_files(),
                self.use_lists() == old(self).use_lists(),
                forall|n: Seq<char>| #[trigger] self.symbol_target(n) == old(self).symbol_target(n),
                forall|n: Seq<char>| #[trigger] self.crate_path_of(n) == (
                    if nv.take(i as int).contains(n)
                        && spec_dependency_source(pk, n, opt_view(found_on_disk.lookup(n))) is Some {
                        spec_dependency_source(pk, n, opt_view(found_on_disk.lookup(n)))
                    } else {
                        old(self).crate_path_of(n)
                    }),
            decreases names.len() - i,
        {
            let name = &names[i];
            proof {
                assert(nv.take(i + 1) =~= nv.take(i as int).push(name@));
                assert(nv[i as int] == name@);
            }
            let found = self.resolve_dependency_source_path(name.as_str(), found_on_disk);
            let ghost prev = *self;
            match found {
                Some(p) => {
                    self.crate_paths.insert(name.clone(), p);
                },
                None => {},
            }
            proof {
                assert forall|f: Seq<char>| #[trigger] self.uses_in(f) == prev.uses_in(f) by {}
                assert forall|n: Seq<char>| #[trigger] self.symbol_target(n) == prev.symbol_target(n) by {}
                assert forall|n: Seq<char>| #[trigger] nv.take(i + 1).contains(n) <==> (nv.take(i as int).contains(n) || n == name@) by {
                    if n == name@ {
                        assert(nv.take(i + 1)[i as int] == n);
                    }
                    if nv.take(i + 1).contains(n) && n != name@ {
                        let k = choose|k: int| 0 <= k < nv.take(i + 1).len() && #[trigger] nv.take(i + 1)[k] == n;
                        assert(k < i);
                        assert(nv.take(i as int)[k] == n);
                    }
                    if nv.take(i as int).contains(n) {
                        let k = choose|k: int| 0 <= k < nv.take(i as int).len() && #[trigger] nv.take(i as int)[k] == n;
                        assert(nv.take(i + 1)[k] == n);
                    }
                }
                assert forall|n: Seq<char>| #[trigger] self.crate_path_of(n) == (
                    if nv.take(i + 1).contains(n)
                        && spec_dependency_source(pk, n, opt_view(found_on_disk.lookup(n))) is Some {
                        spec_dependency_source(pk, n, opt_view(found_on_disk.lookup(n)))
                    } else {
                        old(self).crate_path_of(n)
                    }) by {
                    if n != name@ {
                        assert(self.crate_path_of(n) == prev.crate_path_of(n));
                        assert(nv.take(i + 1).contains(n) == nv.take(i as int).contains(n));
                    } else {
                        assert(nv.take(i + 1).contains(n));
                        if found is None {
                            assert(self.crate_path_of(n) == prev.crate_path_of(n));
                        }
                    }
                }
            }
            i = i + 1;
        }
        proof {
            assert(nv.take(nv.len() as int) =~= nv);
        }
    }

    /// The names one use tree brings in below `current_path`, appended to
    /// `statements`, each from `file_path`.
    fn extract_use_tree_recursive(
        &self,
        use_tree: &UseTree,
        current_path: String,
        file_path: &String,
        statements: &mut Vec<UseStatement>,
    ) -> (res: Result<(), AnalyzerError>)
        ensures
            res is Ok,
            uses_view(final(statements)@) == uses_view(old(statements)@) + spec_use_entries(*use_tree, current_path@),
            final(statements)@.len() >= old(statements)@.len(),
            forall|i: int| 0 <= i < old(statements)@.len() ==> #[trigger] final(statements)@[i] == old(statements)@[i],
            forall|i: int| old(statements)@.len() <= i < final(statements)@.len() ==> (#[trigger] final(statements)@[i]).source_file@ == file_path@,
        decreases use_tree,
    {
        let ghost before = statements@;
        match use_tree {
            UseTree::Path { ident, tree } => {
                let empty = chars_of(current_path.as_str()).len() == 0;
                let new_path = if empty {
                    ident.clone()
                } else {
                    concat3(current_path.as_str(), "::", ident.as_str())
                };
                proof {
                    assert(new_path@ == spec_extend_path(current_path@, ident@));
                    let tv = *use_tree;
                    assert(tv == UseTree::Path { ident: *ident, tree: *tree });
                    assert(decreases_to!(tv => tv->Path_tree));
                }
                self.extract_use_tree_recursive(tree, new_path, file_path, statements)
            },
            UseTree::Name(n) => {
                statements.push(UseStatement {
                    path: current_path,
                    symbol: n.clone(),
                    alias: None,
                    is_glob: false,
                    source_file: file_path.clone(),
                });
                proof {
                    assert(uses_view(statements@) =~= uses_view(before) + spec_use_entries(*use_tree, current_path@));
                }
                Ok(())
            },
            UseTree::Rename { ident, rename } => {
                statements.push(UseStatement {
                    path: current_path,
                    symbol: ident.clone(),
                    alias: Some(rename.clone()),
                    is_glob: false,
                    source_file: file_path.clone(),
                });
                proof {
                    assert(uses_view(statements@) =~= uses_view(before) + spec_use_entries(*use_tree, current_path@));
                }
                Ok(())
            },
            UseTree::Glob => {
                let star = to_string("*");
                statements.push(UseStatement {
                    path: current_path,
                    symbol: star,
                    alias: None,
                    is_glob: true,
                    source_file: file_path.clone(),
                });
                proof {
                    assert(uses_view(statements@) =~= uses_view(before) + spec_use_entries(*use_tree, current_path@));
                }
                Ok(())
            },
            UseTree::Group(items) => {
                let mut k: usize = 0;
                proof {
                    assert(items@.take(0) =~= Seq::<UseTree>::empty());
                    assert(uses_view(statements@) =~= uses_view(before) + spec_group_entries(items@.take(0), current_path@));
                }
                while k < items.len()
                    invariant
                        k <= items.len(),
                        *use_tree == UseTree::Group(*items),
                        uses_view(statements@) == uses_view(before) + spec_group_entries(items@.take(k as int), current_path@),
                        statements@.len() >= before.len(),
                        forall|i: int| 0 <= i < before.len() ==> #[trigger] statements@[i] == before[i],
                        forall|i: int| before.len() <= i < statements@.len() ==> (#[trigger] statements@[i]).source_file@ == file_path@,
                    decreases items.len() - k,
                {
                    proof {
                        let tv = *use_tree;
                        let iv = *items;
                        assert(tv == UseTree::Group(iv));
                        assert(decreases_to!(tv => tv->Group_0));
                        assert(decreases_to!(iv => iv@));
                        assert(decreases_to!(iv@ => iv@[k as int]));
                    }
                    let ghost mid = statements@;
                    let r = self.extract_use_tree_recursive(&items[k], current_path.clone(), file_path, statements);
                    proof {
                        assert(items@.take(k + 1).drop_last() =~= items@.take(k as int));
                        assert(items@.take(k + 1).last() == items@[k as int]);
                        assert(uses_view(statements@) =~= uses_view(before) + spec_group_entries(items@.take(k + 1), current_path@));
                    }
                    k = k + 1;
                }
                proof {
                    assert(items@.take(items@.len() as int) =~= items@);
                }
                Ok(())
            },
        }
    }

    /// The names one use tree brings in, each from `file_path`.
    fn extract_use_statements(&self, use_tree: &UseTree, file_path: &String) -> (res: Result<Vec<UseStatement>, AnalyzerError>)
        ensures
            res matches Ok(v) && uses_view(v@) == spec_use_entries(*use_tree, Seq::empty())
                && forall|i: int| 0 <= i < v@.len() ==> (#[trigger] v@[i]).source_file@ == file_path@,
    {
        let mut statements: Vec<UseStatement> = Vec::new();
        let start = String::new();
        proof {
            assert(uses_view(statements@) =~= Seq::empty());
        }
        let r = self.extract_use_tree_recursive(use_tree, start, file_path, &mut statements);
        proof {
            assert(uses_view(statements@) =~= spec_use_entries(*use_tree, Seq::empty()));
        }
        Ok(statements)
    }

    /// Records the names each file's `use` items bring in (for the files that
    /// have any, a later file of the same path replacing an earlier one), then
    /// resolves every recorded non-glob name to its full path.
    pub fn analyze_use_statements(&mut self, files: &Vec<(String, SourceFile)>) -> (res: Result<(), AnalyzerError>)
        requires
            old(self).wf(),
        ensures
            res is Ok,
            final(self).wf(),
            final(self).packages() == old(self).packages(),
            final(self).project_name() == old(self).project_name(),
            forall|n: Seq<char>| #[trigger] final(self).crate_path_of(n) == old(self).crate_path_of(n),
            forall|f: Seq<char>| #[trigger] final(self).uses_in(f) == match spec_new_uses(files@, f) {
                Some(u) => Some(u),
                None => old(self).uses_in(f),
            },
            forall|n: Seq<char>| #[trigger] final(self).symbol_target(n)
                == or_else(spec_symbols(flat_lists(final(self).use_lists()), n), old(self).symbol_target(n)),
    {
        let mut i: usize = 0;
        while i < files.len()
            invariant
                self.wf(),
                i <= files.len(),
                self.packages() == old(self).packages(),
                self.project_name() == old(self).project_name(),
                forall|n: Seq<char>| #[trigger] self.crate_path_of(n) == old(self).crate_path_of(n),
                forall|n: Seq<char>| #[trigger] self.symbol_target(n) == old(self).symbol_target(n),
                forall|f: Seq<char>| #[trigger] self.uses_in(f) == match spec_new_uses(files@.take(i as int), f) {
                    Some(u) => Some(u),
                    None => old(self).uses_in(f),
                },
            decreases files.len() - i,
        {
            let file_path = &files[i].0;
            let parsed_file = &files[i].1;
            let mut file_uses: Vec<UseStatement> = Vec::new();
            let mut j: usize = 0;
            proof {
                assert(parsed_file.items@.take(0) =~= Seq::<Item>::empty());
                assert(uses_view(file_uses@) =~= Seq::empty());
            }
            while j < parsed_file.items.len()
                invariant
                    j <= parsed_file.items.len(),
                    uses_view(file_uses@) == spec_file_uses(parsed_file.items@.take(j as int)),
                decreases parsed_file.items.len() - j,
            {
                proof {
                    assert(parsed_file.items@.take(j + 1).drop_last() =~= parsed_file.items@.take(j as int));
                    assert(parsed_file.items@.take(j + 1).last() == parsed_file.items@[j as int]);
                }
                match &parsed_file.items[j] {
                    Item::Use(tree) => {
                        match self.extract_use_statements(tree, file_path) {
                            Ok(found) => {
                                let mut found = found;
                                let ghost a = file_uses@;
                                let ghost b = found@;
                                file_uses.append(&mut found);
                                proof {
                                    assert(uses_view(file_uses@) =~= uses_view(a) + uses_view(b));
                                }
                            },
                            Err(e) => {},
                        }
                    },
                    _ => {
                        proof {
                            assert(spec_file_uses(parsed_file.items@.take(j + 1)) =~= spec_file_uses(parsed_file.items@.take(j as int)));
                        }
                    },
                }
                j = j + 1;
            }
            proof {
                assert(parsed_file.items@.take(parsed_file.items@.len() as int) =~= parsed_file.items@);
                assert(files@.take(i + 1).drop_last() =~= files@.take(i as int));
                assert(files@.take(i + 1).last() == files@[i as int]);
            }
            let ghost prev = *self;
            if file_uses.len() > 0 {
                self.use_statements.insert(file_path.clone(), file_uses);
            }
            proof {
                assert forall|n: Seq<char>| #[trigger] self.crate_path_of(n) == prev.crate_path_of(n) by {}
                assert forall|n: Seq<char>| #[trigger] self.symbol_target(n) == prev.symbol_target(n) by {}
                assert forall|f: Seq<char>| #[trigger] self.uses_in(f) == match spec_new_uses(files@.take(i + 1), f) {
                    Some(u) => Some(u),
                    None => old(self).uses_in(f),
                } by {
                    if f != file_path@ || uses_view(file_uses@).len() == 0 {
                        assert(self.uses_in(f) == prev.uses_in(f));
                    }
                }
            }
            i = i + 1;
        }
        proof {
            assert(files@.take(files@.len() as int) =~= files@);
        }
        match self.build_symbol_resolution() {
            Ok(()) => {},
            Err(e) => {},
        }
        Ok(())
    }

    /// Resolves every recorded non-glob import to its full path, under its
    /// alias or else its name; a later import of the same name wins.
    fn build_symbol_resolution(&mut self) -> (res: Result<(), AnalyzerError>)
        requires
            old(self).wf(),
        ensures
            res is Ok,
            final(self).wf(),
            final(self).packages() == old(self).packages(),
            final(self).project_name() == old(self).project_name(),
            forall|n: Seq<char>| #[trigger] final(self).crate_path_of(n) == old(self).crate_path_of(n),
            forall|f: Seq<char>| #[trigger] final(self).uses_in(f) == old(self).uses_in(f),
            final(self).use_lists() == old(self).use_lists(),
            forall|n: Seq<char>| #[trigger] final(self).symbol_target(n)
                == or_else(spec_symbols(flat_lists(old(self).use_lists()), n), old(self).symbol_target(n)),
    {
        let ghost ls = self.use_lists();
        let ghost vs = self.use_statements.value_seq();
        assert(ls.take(0) =~= Seq::<Seq<(Seq<char>, Seq<char>, Option<Seq<char>>, bool)>>::empty());
        let mut i: usize = 0;
        let n_lists = self.use_statements.values().len();
        while i < n_lists
            invariant
                self.wf(),
                i <= n_lists,
                n_lists == vs.len(),
                vs == self.use_statements.value_seq(),
                ls == self.use_lists(),
                ls == old(self).use_lists(),
                self.packages() == old(self).packages(),
                self.project_name() == old(self).project_name(),
                forall|n: Seq<char>| #[trigger] self.crate_path_of(n) == old(self).crate_path_of(n),
                forall|f: Seq<char>| #[trigger] self.uses_in(f) == old(self).uses_in(f),
                forall|n: Seq<char>| #[trigger] self.symbol_target(n)
                    == or_else(spec_symbols(flat_lists(ls.take(i as int)), n), old(self).symbol_target(n)),
            decreases n_lists - i,
        {
            let n_stmts = self.use_statements.values()[i].len();
            let ghost li = ls[i as int];
            proof {
                assert(li == uses_view(vs[i as int]@));
                assert(li.take(0) =~= Seq::<(Seq<char>, Seq<char>, Option<Seq<char>>, bool)>::empty());
                assert(flat_lists(ls.take(i as int)) + li.take(0) =~= flat_lists(ls.take(i as int)));
            }
            let mut j: usize = 0;
            while j < n_stmts
                invariant
                    self.wf(),
                    i < n_lists,
                    j <= n_stmts,
                    n_lists == vs.len(),
                    n_stmts == vs[i as int]@.len(),
                    vs == self.use_statements.value_seq(),
                    ls == self.use_lists(),
                    ls == old(self).use_lists(),
                    li == ls[i as int],
                    li == uses_view(vs[i as int]@),
                    self.packages() == old(self).packages(),
                    self.project_name() == old(self).project_name(),
                    forall|n: Seq<char>| #[trigger] self.crate_path_of(n) == old(self).crate_path_of(n),
                    forall|f: Seq<char>| #[trigger] self.uses_in(f) == old(self).uses_in(f),
                    forall|n: Seq<char>| #[trigger] self.symbol_target(n)
                        == or_else(spec_symbols(flat_lists(ls.take(i as int)) + li.take(j as int), n), old(self).symbol_target(n)),
                decreases n_stmts - j,
            {
                let u = &self.use_statements.values()[i][j];
                let ghost e = use_view(*u);
                let ghost before = flat_lists(ls.take(i as int)) + li.take(j as int);
                proof {
                    assert(li[j as int] == e);
                    assert(before.push(e) =~= flat_lists(ls.take(i as int)) + li.take(j + 1));
                    assert(before.push(e).drop_last() =~= before);
                }
                if !u.is_glob {
                    let symbol_name = match &u.alias {
                        Some(a) => a.clone(),
                        None => u.symbol.clone(),
                    };
                    let full_path = if chars_of(u.path.as_str()).len() == 0 {
                        u.symbol.clone()
                    } else {
                        concat3(u.path.as_str(), "::", u.symbol.as_str())
                    };
                    proof {
                        assert(symbol_name@ == spec_symbol_key(e));
                        assert(full_path@ == spec_full_path(e));
                    }
                    let resolved = match self.resolve_symbol_to_crate(full_path.as_str()) {
                        Ok(r) => r,
                        Err(err) => full_path,
                    };
                    let ghost prev = *self;
                    self.symbol_resolution.insert(symbol_name, resolved);
                    proof {
                        assert forall|n: Seq<char>| #[trigger] self.crate_path_of(n) == prev.crate_path_of(n) by {}
                        assert forall|f: Seq<char>| #[trigger] self.uses_in(f) == prev.uses_in(f) by {}
                        assert(self.use_lists() == prev.use_lists());
                        assert forall|n: Seq<char>| #[trigger] self.symbol_target(n)
                            == or_else(spec_symbols(before.push(e), n), old(self).symbol_target(n)) by {
                            if n != spec_symbol_key(e) {
                                assert(self.symbol_target(n) == prev.symbol_target(n));
                            }
                        }
                    }
                } else {
                    proof {
                        assert forall|n: Seq<char>| #[trigger] self.symbol_target(n)
                            == or_else(spec_symbols(before.push(e), n), old(self).symbol_target(n)) by {}
                    }
                }
                j = j + 1;
            }
            proof {
                assert(li.take(li.len() as int) =~= li);
                assert(ls.take(i + 1).drop_last() =~= ls.take(i as int));
                assert(ls.take(i + 1).last() == li);
                assert(flat_lists(ls.take(i + 1)) == flat_lists(ls.take(i as int)) + li);
            }
            i = i + 1;
        }
        proof {
            assert(ls.take(ls.len() as int) =~= ls);
        }
        Ok(())
    }

    /// The path a symbol resolves to. Standard-library paths, paths into a
    /// known crate or package, and paths that match none of them all resolve
    /// to themselves.
    fn resolve_symbol_to_crate(&self, symbol_path: &str) -> (res: Result<String, AnalyzerError>)
        requires
            self.wf(),
        ensures
            res matches Ok(p) && p@ == symbol_path@,
    {
        if str_starts_with(symbol_path, "std::") || str_starts_with(symbol_path, "core::")
            || str_starts_with(symbol_path, "alloc::") {
            return Ok(to_string(symbol_path));
        }
        let keys = self.crate_paths.keys();
        let mut i: usize = 0;
        while i < keys.len()
            invariant
                i <= keys.len(),
            decreases keys.len() - i,
        {
            let prefix = concat(keys[i].as_str(), "::");
            if str_starts_with(symbol_path, prefix.as_str()) || str_eq(symbol_path, keys[i].as_str()) {
                return Ok(to_string(symbol_path));
            }
            i = i + 1;
        }
        let mut k: usize = 0;
        while k < self.project_metadata.packages.len()
            invariant
                k <= self.project_metadata.packages.len(),
            decreases self.project_metadata.packages.len() - k,
        {
            let name = &self.project_metadata.packages[k].name;
            let prefix = concat(name.as_str(), "::");
            if str_starts_with(symbol_path, prefix.as_str()) || str_eq(symbol_path, name.as_str()) {
                return Ok(to_string(symbol_path));
            }
            k = k + 1;
        }
        Ok(to_string(symbol_path))
    }

    /// The source directory known for a crate.
    pub fn crate_path(&self, name: &str) -> (res: Option<String>)
        requires
            self.wf(),
        ensures
            opt_view(res) == self.crate_path_of(name@),
    {
        match self.crate_paths.get(name) {
            Some(p) => Some(p.clone()),
            None => None,
        }
    }

    /// The full path an imported name resolves to.
    pub fn resolved_symbol(&self, name: &str) -> (res: Option<String>)
        requires
            self.wf(),
        ensures
            opt_view(res) == self.symbol_target(name@),
    {
        match self.symbol_resolution.get(name) {
            Some(p) => Some(p.clone()),
            None => None,
        }
    }

    /// The names a file's `use` items bring in, as recorded.
    pub fn file_use_statements(&self, file: &str) -> (res: Option<&Vec<UseStatement>>)
        requires
            self.wf(),
        ensures
            match res {
                Some(v) => self.uses_in(file@) == Some(uses_view(v@)),
                None => self.uses_in(file@) is None,
            },
    {
        self.use_statements.get(file)
    }

    /// The crate of a function signature: its first path segment if that
    /// names a known crate or a package, else the project itself.
    fn extract_crate_from_signature(&self, signature: &str) -> (res: Result<String, AnalyzerError>)
        requires
            self.wf(),
        ensures
            res matches Ok(c) && c@ == self.spec_crate_of(signature@),
    {
        let cs = chars_of(signature);
        let sep = chars_of("::");
        let first_part = match find(cs.as_slice(), sep.as_slice()) {
            Some(i) => {
                proof {
                    lemma_find_from_props(cs@, sep@, 0);
                }
                slice_string(cs.as_slice(), 0, i)
            },
            None => crate::text::string_of(cs.as_slice()),
        };
        assert(first_part@ == spec_first_segment(signature@));
        if self.crate_paths.get(first_part.as_str()).is_some() {
            return Ok(first_part);
        }
        let mut k: usize = 0;
        while k < self.project_metadata.packages.len()
            invariant
                k <= self.project_metadata.packages.len(),
                first_part@ == spec_first_segment(signature@),
                forall|j: int| 0 <= j < k ==> self.project_metadata.packages@[j].name@ != first_part@,
            decreases self.project_metadata.packages.len() - k,
        {
            if str_eq(self.project_metadata.packages[k].name.as_str(), first_part.as_str()) {
                proof {
                    assert(self.packages()[k as int].name@ == first_part@);
                    assert(spec_has_package(self.packages(), first_part@));
                }
                return Ok(first_part);
            }
            k = k + 1;
        }
        Ok(self.project_metadata.name.clone())
    }

    /// A call's kind judged from the callee's text.
    fn determine_call_type(&self, callee: &str) -> (res: CrossCrateCallType)
        ensures
            res == spec_call_type(callee@),
    {
        if str_ends_with(callee, "!") {
            CrossCrateCallType::MacroCall
        } else if str_contains(callee, "::") && str_contains(callee, "<") {
            CrossCrateCallType::TraitMethodCall
        } else if str_contains(callee, "::") {
            CrossCrateCallType::DirectCall
        } else {
            CrossCrateCallType::MethodCall
        }
    }

    /// The calls, among those given per caller, whose caller and callee lie in
    /// different crates, in the order given.
    pub fn resolve_cross_crate_calls(&self, function_calls: &Vec<(String, Vec<String>)>) -> (res: Result<Vec<CrossCrateCall>, AnalyzerError>)
        requires
            self.wf(),
        ensures
            res matches Ok(v) && calls_view(v@) == spec_cross_calls(self.crate_fn(), calls_by_caller_view(function_calls@)),
    {
        let ghost fv = calls_by_caller_view(function_calls@);
        let mut out: Vec<CrossCrateCall> = Vec::new();
        let mut i: usize = 0;
        proof {
            assert(fv.take(0) =~= Seq::<(Seq<char>, Seq<Seq<char>>)>::empty());
            assert(calls_view(out@) =~= Seq::empty());
        }
        while i < function_calls.len()
            invariant
                self.wf(),
                i <= function_calls.len(),
                fv == calls_by_caller_view(function_calls@),
                calls_view(out@) == spec_cross_calls(self.crate_fn(), fv.take(i as int)),
            decreases function_calls.len() - i,
        {
            let caller_signature = &function_calls[i].0;
            let callees = &function_calls[i].1;
            let ghost cv = string_views(callees@);
            let ghost base = spec_cross_calls(self.crate_fn(), fv.take(i as int));
            let caller_crate = match self.extract_crate_from_signature(caller_signature.as_str()) {
                Ok(c) => c,
                Err(e) => self.project_metadata.name.clone(),
            };
            let mut j: usize = 0;
            proof {
                assert(cv.take(0) =~= Seq::<Seq<char>>::empty());
                assert(base + spec_calls_from(self.crate_fn(), caller_signature@, cv.take(0)) =~= base);
            }
            while j < callees.len()
                invariant
                    self.wf(),
                    i < function_calls.len(),
                    j <= callees.len(),
                    *callees == function_calls@[i as int].1,
                    cv == string_views(callees@),
                    caller_crate@ == self.spec_crate_of(caller_signature@),
                    calls_view(out@) == base + spec_calls_from(self.crate_fn(), caller_signature@, cv.take(j as int)),
                decreases callees.len() - j,
            {
                let callee = &callees[j];
                proof {
                    assert(cv.take(j + 1).drop_last() =~= cv.take(j as int));
                    assert(cv.take(j + 1).last() == callee@);
                }
                let callee_crate = match self.extract_crate_from_signature(callee.as_str()) {
                    Ok(c) => c,
                    Err(e) => self.project_metadata.name.clone(),
                };
                if !str_eq(caller_crate.as_str(), callee_crate.as_str()) {
                    let call_type = self.determine_call_type(callee.as_str());
                    let ghost before = out@;
                    out.push(CrossCrateCall {
                        caller: caller_signature.clone(),
                        callee: callee.clone(),
                        caller_crate: caller_crate.clone(),
                        callee_crate,
                        call_type,
                    });
                    proof {
                        assert(calls_view(out@) =~= calls_view(before).push(call_view(out@.last())));
                    }
                }
                j = j + 1;
            }
            proof {
                assert(cv.take(cv.len() as int) =~= cv);
                assert(fv.take(i + 1).drop_last() =~= fv.take(i as int));
                assert(fv.take(i + 1).last() == (caller_signature@, cv));
            }
            i = i + 1;
        }
        proof {
            assert(fv.take(fv.len() as int) =~= fv);
        }
        Ok(out)
    }

    /// How many calls go from each crate to each other one, keyed
    /// `"<caller crate> -> <callee crate>"`.
    pub fn get_cross_crate_statistics(&self, cross_crate_calls: &Vec<CrossCrateCall>) -> (res: StringMap<usize>)
        ensures
            res.wf(),
            forall|k: Seq<char>| #[trigger] res.lookup(k) == (if spec_key_count(calls_view(cross_crate_calls@), k) > 0 {
                Some(spec_key_count(calls_view(cross_crate_calls@), k) as usize)
            } else {
                None
            }),
    {
        let ghost cs = calls_view(cross_crate_calls@);
        let mut stats: StringMap<usize> = StringMap::new();
        let mut i: usize = 0;
        proof {
            assert(cs.take(0) =~= Seq::<(Seq<char>, Seq<char>, Seq<char>, Seq<char>, CrossCrateCallType)>::empty());
        }
        while i < cross_crate_calls.len()
            invariant
                stats.wf(),
                i <= cross_crate_calls.len(),
                cs == calls_view(cross_crate_calls@),
                forall|k: Seq<char>| #[trigger] spec_key_count(cs.take(i as int), k) <= i,
                forall|k: Seq<char>| #[trigger] stats.lookup(k) == (if spec_key_count(cs.take(i as int), k) > 0 {
                    Some(spec_key_count(cs.take(i as int), k) as usize)
                } else {
                    None
                }),
            decreases cross_crate_calls.len() - i,
        {
            let call = &cross_crate_calls[i];
            let key = concat3(call.caller_crate.as_str(), " -> ", call.callee_crate.as_str());
            proof {
                assert(cs.take(i + 1).drop_last() =~= cs.take(i as int));
                assert(cs.take(i + 1).last() == call_view(*call));
                assert(key@ == spec_stat_key(call_view(*call)));
                assert(spec_key_count(cs.take(i as int), key@) <= i);
            }
            let current: usize = match stats.get(key.as_str()) {
                Some(n) => *n,
                None => 0,
            };
            let ghost k0 = key@;
            stats.insert(key, current + 1);
            proof {
                assert forall|k: Seq<char>| #[trigger] spec_key_count(cs.take(i + 1), k) <= i + 1 by {
                    assert(spec_key_count(cs.take(i as int), k) <= i);
                }
                assert forall|k: Seq<char>| #[trigger] stats.lookup(k) == (if spec_key_count(cs.take(i + 1), k) > 0 {
                    Some(spec_key_count(cs.take(i + 1), k) as usize)
                } else {
                    None
                }) by {
                    assert(spec_key_count(cs.take(i as int), k) <= i);
                }
            }
            i = i + 1;
        }
        proof {
            assert(cs.take(cs.len() as int) =~= cs);
        }
        stats
    }

    /// Adds to each method that makes cross-crate calls the callees of those
    /// calls: its callees become its former ones, each once, followed by
    /// the cross-crate callees not among them, each once. Methods that make
    /// none are left as they are.
    pub fn update_method_callees(&self, methods: &mut Vec<MethodOutput>, cross_crate_calls: &Vec<CrossCrateCall>) -> (res: Result<(), AnalyzerError>)
        ensures
            res is Ok,
            final(methods)@.len() == old(methods)@.len(),
            forall|i: int| 0 <= i < old(methods)@.len() ==> (#[trigger] final(methods)@[i])@
                == spec_updated_method(old(methods)@[i]@, spec_cross_callees(calls_view(cross_crate_calls@), old(methods)@[i]@.signature)),
    {
        let ghost cs = calls_view(cross_crate_calls@);
        let mut caller_to_callees: StringMap<Vec<String>> = StringMap::new();
        let mut i: usize = 0;
        proof {
            assert(cs.take(0) =~= Seq::<(Seq<char>, Seq<char>, Seq<char>, Seq<char>, CrossCrateCallType)>::empty());
        }
        while i < cross_crate_calls.len()
            invariant
                caller_to_callees.wf(),
                i <= cross_crate_calls.len(),
                cs == calls_view(cross_crate_calls@),
                forall|k: Seq<char>| #[trigger] caller_to_callees.lookup(k) matches Some(v) ==> string_views(v@) == spec_cross_callees(cs.take(i as int), k)
                    && spec_cross_callees(cs.take(i as int), k).len() > 0,
                forall|k: Seq<char>| #[trigger] caller_to_callees.lookup(k) is None ==> spec_cross_callees(cs.take(i as int), k).len() == 0,
            decreases cross_crate_calls.len() - i,
        {
            let call = &cross_crate_calls[i];
            proof {
                assert(cs.take(i + 1).drop_last() =~= cs.take(i as int));
                assert(cs.take(i + 1).last() == call_view(*call));
            }
            let mut list: Vec<String> = match caller_to_callees.get(call.caller.as_str()) {
                Some(v) => copy_strings(v),
                None => Vec::new(),
            };
            let ghost before = list@;
            list.push(call.callee.clone());
            proof {
                lemma_string_views_push(before, list@.last());
            }
            let ghost k0 = call.caller@;
            caller_to_callees.insert(call.caller.clone(), list);
            proof {
                assert forall|k: Seq<char>| #[trigger] caller_to_callees.lookup(k) matches Some(v) ==> string_views(v@) == spec_cross_callees(cs.take(i + 1), k)
                    && spec_cross_callees(cs.take(i + 1), k).len() > 0 by {}
                assert forall|k: Seq<char>| #[trigger] caller_to_callees.lookup(k) is None implies spec_cross_callees(cs.take(i + 1), k).len() == 0 by {}
            }
            i = i + 1;
        }
        proof {
            assert(cs.take(cs.len() as int) =~= cs);
        }
        let ghost olds = methods@;
        let mut m: usize = 0;
        while m < methods.len()
            invariant
                caller_to_callees.wf(),
                m <= methods.len(),
                methods@.len() == olds.len(),
                olds == old(methods)@,
                forall|k: Seq<char>| #[trigger] caller_to_callees.lookup(k) matches Some(v) ==> string_views(v@) == spec_cross_callees(cs, k)
                    && spec_cross_callees(cs, k).len() > 0,
                forall|k: Seq<char>| #[trigger] caller_to_callees.lookup(k) is None ==> spec_cross_callees(cs, k).len() == 0,
                forall|j: int| 0 <= j < m ==> (#[trigger] methods@[j])@ == spec_updated_method(olds[j]@, spec_cross_callees(cs, olds[j]@.signature)),
                forall|j: int| m <= j < methods@.len() ==> #[trigger] methods@[j] == olds[j],
            decreases methods.len() - m,
        {
            let ghost sig = methods@[m as int]@.signature;
            match caller_to_callees.get(methods[m].signature.as_str()) {
                Some(cross) => {
                    let mut all_callees: Vec<String> = Vec::new();
                    let ghost cur = string_views(methods@[m as int].callees@);
                    let ghost cross_v = string_views(cross@);
                    proof {
                        assert(cur.take(0) =~= Seq::<Seq<char>>::empty());
                        assert(string_views(all_callees@) =~= Seq::<Seq<char>>::empty());
                    }
                    let mut k: usize = 0;
                    while k < methods[m].callees.len()
                        invariant
                            m < methods.len(),
                            k <= methods@[m as int].callees@.len(),
                            cur == string_views(methods@[m as int].callees@),
                            string_views(all_callees@) == add_names(Seq::empty(), cur.take(k as int)),
                        decreases methods@[m as int].callees@.len() - k,
                    {
                        proof {
                            assert(cur.take(k + 1).drop_last() =~= cur.take(k as int));
                            assert(cur.take(k + 1).last() == methods@[m as int].callees@[k as int]@);
                        }
                        add_unique(&mut all_callees, methods[m].callees[k].clone());
                        k = k + 1;
                    }
                    proof {
                        assert(cur.take(cur.len() as int) =~= cur);
                        assert(cross_v.take(0) =~= Seq::<Seq<char>>::empty());
                    }
                    let mut c: usize = 0;
                    while c < cross.len()
                        invariant
                            c <= cross.len(),
                            cross_v == string_views(cross@),
                            string_views(all_callees@) == add_names(add_names(Seq::empty(), cur), cross_v.take(c as int)),
                        decreases cross.len() - c,
                    {
                        proof {
                            assert(cross_v.take(c + 1).drop_last() =~= cross_v.take(c as int));
                            assert(cross_v.take(c + 1).last() == cross@[c as int]@);
                        }
                        add_unique(&mut all_callees, cross[c].clone());
                        c = c + 1;
                    }
                    proof {
                        assert(cross_v.take(cross_v.len() as int) =~= cross_v);
                    }
                    let mut updated = copy_method(&methods[m]);
                    updated.callees = all_callees;
                    methods.set(m, updated);
                    proof {
                        assert(methods@[m as int]@ == spec_updated_method(olds[m as int]@, spec_cross_callees(cs, sig)));
                    }
                },
                None => {},
            }
            m = m + 1;
        }
        Ok(())
    }
}

/// A call as plain values: caller, callee, their crates, and its kind.
pub open spec fn call_view(c: CrossCrateCall) -> (Seq<char>, Seq<char>, Seq<char>, Seq<char>, CrossCrateCallType) {
    (c.caller@, c.callee@, c.caller_crate@, c.callee_crate@, c.call_type)
}

pub open spec fn calls_view(v: Seq<CrossCrateCall>) -> Seq<(Seq<char>, Seq<char>, Seq<char>, Seq<char>, CrossCrateCallType)> {
    v.map_values(|c: CrossCrateCall| call_view(c))
}

pub open spec fn calls_by_caller_view(v: Seq<(String, Vec<String>)>) -> Seq<(Seq<char>, Seq<Seq<char>>)> {
    v.map_values(|p: (String, Vec<String>)| (p.0@, string_views(p.1@)))
}

/// The cross-crate calls from `caller` to each of `callees`, in order.
pub open spec fn spec_calls_from(crate_of: spec_fn(Seq<char>) -> Seq<char>, caller: Seq<char>, callees: Seq<Seq<char>>) -> Seq<(Seq<char>, Seq<char>, Seq<char>, Seq<char>, CrossCrateCallType)>
    decreases callees.len(),
{
    if callees.len() == 0 {
        Seq::empty()
    } else {
        let prev = spec_calls_from(crate_of, caller, callees.drop_last());
        let c = callees.last();
        if crate_of(caller) != crate_of(c) {
            prev.push((caller, c, crate_of(caller), crate_of(c), spec_call_type(c)))
        } else {
            prev
        }
    }
}

/// The cross-crate calls among the calls given per caller, in order.
pub open spec fn spec_cross_calls(crate_of: spec_fn(Seq<char>) -> Seq<char>, fc: Seq<(Seq<char>, Seq<Seq<char>>)>) -> Seq<(Seq<char>, Seq<char>, Seq<char>, Seq<char>, CrossCrateCallType)>
    decreases fc.len(),
{
    if fc.len() == 0 {
        Seq::empty()
    } else {
        spec_cross_calls(crate_of, fc.drop_last()) + spec_calls_from(crate_of, fc.last().0, fc.last().1)
    }
}

/// The statistics key of a call.
pub open spec fn spec_stat_key(c: (Seq<char>, Seq<char>, Seq<char>, Seq<char>, CrossCrateCallType)) -> Seq<char> {
    c.2 + " -> "@ + c.3
}

/// How many calls have the statistics key `k`.
pub open spec fn spec_key_count(cs: Seq<(Seq<char>, Seq<char>, Seq<char>, Seq<char>, CrossCrateCallType)>, k: Seq<char>) -> nat
    decreases cs.len(),
{
    if cs.len() == 0 {
        0
    } else {
        spec_key_count(cs.drop_last(), k) + if spec_stat_key(cs.last()) == k { 1nat } else { 0nat }
    }
}

/// The callees of the calls made by `caller`, in order.
pub open spec fn spec_cross_callees(cs: Seq<(Seq<char>, Seq<char>, Seq<char>, Seq<char>, CrossCrateCallType)>, caller: Seq<char>) -> Seq<Seq<char>>
    decreases cs.len(),
{
    if cs.len() == 0 {
        Seq::empty()
    } else if cs.last().0 == caller {
        spec_cross_callees(cs.drop_last(), caller).push(cs.last().1)
    } else {
        spec_cross_callees(cs.drop_last(), caller)
    }
}

/// A method record once the cross-crate callees `cross` are merged into it.
pub open spec fn spec_updated_method(m: MethodRecord, cross: Seq<Seq<char>>) -> MethodRecord {
    if cross.len() > 0 {
        MethodRecord { callees: add_names(add_names(Seq::empty(), m.callees), cross), ..m }
    } else {
        m
    }
}

/// Appends `s` unless an equal string is there already.
fn add_unique(v: &mut Vec<String>, s: String)
    ensures
        string_views(final(v)@) == add_name(string_views(old(v)@), s@),
{
    let mut i: usize = 0;
    while i < v.len()
        invariant
            i <= v.len(),
            forall|k: int| 0 <= k < i ==> v@[k]@ != s@,
        decreases v.len() - i,
    {
        if str_eq(v[i].as_str(), s.as_str()) {
            proof {
                assert(string_views(v@)[i as int] == s@);
            }
            return;
        }
        i = i + 1;
    }
    proof {
        assert forall|k: int| 0 <= k < v@.len() implies string_views(v@)[k] != s@ by {
            assert(string_views(v@)[k] == v@[k]@);
        }
    }
    let ghost before = v@;
    v.push(s);
    proof {
        lemma_string_views_push(before, v@.last());
    }
}


// ---------------------------------------------------------------------------
// Laws
// ---------------------------------------------------------------------------

/// Every call that the resolution reports crosses a crate boundary: its
/// caller's crate differs from its callee's.
pub proof fn lemma_cross_calls_cross(crate_of: spec_fn(Seq<char>) -> Seq<char>, fc: Seq<(Seq<char>, Seq<Seq<char>>)>)
    ensures
        forall|i: int| 0 <= i < spec_cross_calls(crate_of, fc).len() ==> (#[trigger] spec_cross_calls(crate_of, fc)[i]).2 != spec_cross_calls(crate_of, fc)[i].3,
    decreases fc.len(),
{
    if fc.len() > 0 {
        lemma_cross_calls_cross(crate_of, fc.drop_last());
        lemma_calls_from_cross(crate_of, fc.last().0, fc.last().1);
        let p = spec_cross_calls(crate_of, fc.drop_last());
        let q = spec_calls_from(crate_of, fc.last().0, fc.last().1);
        assert forall|i: int| 0 <= i < (p + q).len() implies (#[trigger] (p + q)[i]).2 != (p + q)[i].3 by {
            if i < p.len() {
                assert((p + q)[i] == p[i]);
            } else {
                assert((p + q)[i] == q[i - p.len()]);
            }
        }
    }
}

proof fn lemma_calls_from_cross(crate_of: spec_fn(Seq<char>) -> Seq<char>, caller: Seq<char>, callees: Seq<Seq<char>>)
    ensures
        forall|i: int| 0 <= i < spec_calls_from(crate_of, caller, callees).len() ==> (#[trigger] spec_calls_from(crate_of, caller, callees)[i]).2 != spec_calls_from(crate_of, caller, callees)[i].3,
    decreases callees.len(),
{
    if callees.len() > 0 {
        lemma_calls_from_cross(crate_of, caller, callees.drop_last());
        let prev = spec_calls_from(crate_of, caller, callees.drop_last());
        let c = callees.last();
        if crate_of(caller) != crate_of(c) {
            let e = (caller, c, crate_of(caller), crate_of(c), spec_call_type(c));
            assert forall|i: int| 0 <= i < prev.push(e).len() implies (#[trigger] prev.push(e)[i]).2 != prev.push(e)[i].3 by {
                if i < prev.len() {
                    assert(prev.push(e)[i] == prev[i]);
                }
            }
        }
    }
}

/// Merging names keeps exactly the names of both lists.
pub proof fn lemma_add_names_union(c: Seq<Seq<char>>, ns: Seq<Seq<char>>)
    ensures
        forall|x: Seq<char>| #[trigger] add_names(c, ns).contains(x) <==> (c.contains(x) || ns.contains(x)),
    decreases ns.len(),
{
    if ns.len() > 0 {
        lemma_add_names_union(c, ns.drop_last());
        let prev = add_names(c, ns.drop_last());
        assert forall|x: Seq<char>| #[trigger] add_names(c, ns).contains(x) <==> (c.contains(x) || ns.contains(x)) by {
            if !prev.contains(ns.last()) {
                if prev.push(ns.last()).contains(x) && x != ns.last() {
                    let k = choose|k: int| 0 <= k < prev.push(ns.last()).len() && #[trigger] prev.push(ns.last())[k] == x;
                    assert(prev[k] == x);
                }
                if prev.contains(x) {
                    let k = choose|k: int| 0 <= k < prev.len() && #[trigger] prev[k] == x;
                    assert(prev.push(ns.last())[k] == x);
                }
                if x == ns.last() {
                    assert(prev.push(ns.last())[prev.len() as int] == x);
                }
            }
            if ns.contains(x) && x != ns.last() {
                let k = choose|k: int| 0 <= k < ns.len() && #[trigger] ns[k] == x;
                assert(ns.drop_last()[k] == x);
            }
            if ns.drop_last().contains(x) {
                let k = choose|k: int| 0 <= k < ns.drop_last().len() && #[trigger] ns.drop_last()[k] == x;
                assert(ns[k] == x);
            }
            if x == ns.last() {
                assert(ns[ns.len() - 1] == x);
            }
        }
    }
}

/// Merging names into a list without repeats gives a list without repeats.
pub proof fn lemma_add_names_distinct(c: Seq<Seq<char>>, ns: Seq<Seq<char>>)
    requires
        c.no_duplicates(),
    ensures
        add_names(c, ns).no_duplicates(),
    decreases ns.len(),
{
    if ns.len() > 0 {
        lemma_add_names_distinct(c, ns.drop_last());
        let prev = add_names(c, ns.drop_last());
        if !prev.contains(ns.last()) {
            assert forall|i: int, j: int| 0 <= i < prev.push(ns.last()).len() && 0 <= j < prev.push(ns.last()).len() && i != j
                implies prev.push(ns.last())[i] != prev.push(ns.last())[j] by {
                if i == prev.len() {
                    assert(prev.push(ns.last())[j] == prev[j]);
                } else if j == prev.len() {
                    assert(prev.push(ns.last())[i] == prev[i]);
                }
            }
        }
    }
}

/// A method's callees after the merge are its former callees and the
/// cross-crate ones, each once.
pub proof fn lemma_merged_callees(m: MethodRecord, cross: Seq<Seq<char>>)
    requires
        cross.len() > 0,
    ensures
        spec_updated_method(m, cross).callees.no_duplicates(),
        forall|x: Seq<char>| #[trigger] spec_updated_method(m, cross).callees.contains(x) <==> (m.callees.contains(x) || cross.contains(x)),
{
    lemma_add_names_union(Seq::empty(), m.callees);
    lemma_add_names_union(add_names(Seq::empty(), m.callees), cross);
    lemma_add_names_distinct(Seq::empty(), m.callees);
    lemma_add_names_distinct(add_names(Seq::empty(), m.callees), cross);
}

} // verus!
