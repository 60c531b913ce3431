//! Path and name helpers shared by the analyses.
use vstd::prelude::*;
use crate::text::{
    chars_of, concat, concat3, contains, str_eq, lemma_views_push, replace, spec_replace, find, rfind,
    spec_find, spec_rfind, lemma_find_from_props, lemma_rfind_below_props, matches_at, trim, spec_trim, ends_with, join, seq_eq, slice_chars, spec_contains,
    spec_ends_with, spec_join, spec_split, split, string_of, string_views, to_string, views,
};
use crate::syntax::{SynPath, Visibility};
use crate::patterns::{regex_replace_all, spec_regex_replace_all};

verus! {

// ---------------------------------------------------------------------------
// Path components (Unix path rules of `std::path::Path::components`)
// ---------------------------------------------------------------------------

pub open spec fn keep_part(x: Seq<char>) -> bool {
    x.len() > 0 && x != "."@
}

/// The parts that name a directory or file: empty parts and `.` dropped.
pub open spec fn keep_parts(ps: Seq<Seq<char>>) -> Seq<Seq<char>>
    decreases ps.len(),
{
    if ps.len() == 0 {
        Seq::empty()
    } else if keep_part(ps.last()) {
        keep_parts(ps.drop_last()).push(ps.last())
    } else {
        keep_parts(ps.drop_last())
    }
}

/// The components of a path written with `/`: a leading `/` is the root
/// component, a leading `.` part is kept, and empty or `.` parts elsewhere
/// are dropped.
pub open spec fn spec_components(p: Seq<char>) -> Seq<Seq<char>> {
    let parts = spec_split(p, "/"@);
    if p.len() > 0 && p[0] == '/' {
        seq!["/"@] + keep_parts(parts)
    } else if parts.len() > 0 && parts[0] == "."@ {
        seq!["."@] + keep_parts(parts)
    } else {
        keep_parts(parts)
    }
}

pub open spec fn is_prefix(a: Seq<Seq<char>>, b: Seq<Seq<char>>) -> bool {
    a.len() <= b.len() && b.subrange(0, a.len() as int) == a
}

/// The components of `file` below `root`, or all of them when `file` does not
/// lie below `root` (`strip_prefix(root).unwrap_or(file)`).
pub open spec fn spec_relative_components(file: Seq<char>, root: Seq<char>) -> Seq<Seq<char>> {
    let f = spec_components(file);
    let r = spec_components(root);
    if is_prefix(r, f) {
        f.subrange(r.len() as int, f.len() as int)
    } else {
        f
    }
}

/// The components of a path, as `Path::components` gives them: a leading
/// `/` or `.`, then the other parts that are neither empty nor `.`.
pub fn components(p: &str) -> (res: Vec<Vec<char>>)
    ensures
        views(res@) == spec_components(p@),
{
    let pc = chars_of(p);
    let slash = chars_of("/");
    let dot = chars_of(".");
    proof {
        reveal_strlit("/");
    }
    let parts = split(pc.as_slice(), slash.as_slice());
    let mut kept: Vec<Vec<char>> = Vec::new();
    let mut i: usize = 0;
    while i < parts.len()
        invariant
            i <= parts.len(),
            dot@ == "."@,
            views(kept@) == keep_parts(views(parts@).take(i as int)),
        decreases parts.len() - i,
    {
        let ghost before = views(kept@);
        proof {
            assert(views(parts@).take(i + 1).drop_last() =~= views(parts@).take(i as int));
        }
        let part = &parts[i];
        if part.len() > 0 && !seq_eq(part.as_slice(), dot.as_slice()) {
            kept.push(slice_chars(part.as_slice(), 0, part.len()));
            assert(part@.subrange(0, part@.len() as int) =~= part@);
            assert(views(kept@) =~= before.push(parts@[i as int]@));
        }
        i = i + 1;
    }
    assert(views(parts@).take(parts.len() as int) =~= views(parts@));
    let mut res: Vec<Vec<char>> = Vec::new();
    if pc.len() > 0 && pc[0] == '/' {
        res.push(slash);
    } else if parts.len() > 0 && seq_eq(parts[0].as_slice(), dot.as_slice()) {
        res.push(dot);
    }
    let ghost head = views(res@);
    res.append(&mut kept);
    proof {
        assert(views(res@) =~= head + keep_parts(views(parts@)));
        assert(views(parts@)[0] == parts@[0]@);
    }
    res
}

/// The components of `file` relative to `root`, as `extract_module_path` reads them.
pub fn relative_components(file: &str, root: &str) -> (res: Vec<Vec<char>>)
    ensures
        views(res@) == spec_relative_components(file@, root@),
{
    let f = components(file);
    let r = components(root);
    let mut prefix = r.len() <= f.len();
    let mut i: usize = 0;
    while prefix && i < r.len()
        invariant
            r.len() <= f.len() || !prefix,
            i <= r.len(),
            prefix ==> forall|k: int| 0 <= k < i ==> views(f@)[k] == views(r@)[k],
            !prefix ==> !is_prefix(views(r@), views(f@)),
        decreases r.len() - i + (if prefix { 1int } else { 0int }),
    {
        if !seq_eq(f[i].as_slice(), r[i].as_slice()) {
            prefix = false;
            proof {
                assert(views(f@)[i as int] == f@[i as int]@);
                assert(views(r@)[i as int] == r@[i as int]@);
                if is_prefix(views(r@), views(f@)) {
                    assert(views(f@).subrange(0, r.len() as int)[i as int] == views(f@)[i as int]);
                }
            }
        } else {
            assert(views(f@)[i as int] == f@[i as int]@);
            assert(views(r@)[i as int] == r@[i as int]@);
            i = i + 1;
        }
    }
    if prefix {
        assert(views(f@).subrange(0, r.len() as int) =~= views(r@));
        let mut out: Vec<Vec<char>> = Vec::new();
        let mut k = r.len();
        while k < f.len()
            invariant
                r.len() <= k <= f.len(),
                views(out@) == views(f@).subrange(r.len() as int, k as int),
            decreases f.len() - k,
        {
            let ghost old_out = out@;
            out.push(slice_chars(f[k].as_slice(), 0, f[k].len()));
            assert(f@[k as int]@.subrange(0, f@[k as int]@.len() as int) =~= f@[k as int]@);
            proof {
                lemma_views_push(old_out, out@.last());
                assert(out@ == old_out.push(out@.last()));
                assert(views(f@)[k as int] == f@[k as int]@);
            }
            assert(views(out@) =~= views(f@).subrange(r.len() as int, k + 1));
            k = k + 1;
        }
        out
    } else {
        f
    }
}

// ---------------------------------------------------------------------------
// Module paths
// ---------------------------------------------------------------------------

pub open spec fn drop_src(c: Seq<Seq<char>>) -> Seq<Seq<char>> {
    if c.len() > 0 && c[0] == "src"@ {
        c.drop_first()
    } else {
        c
    }
}

pub open spec fn strip_rs(c: Seq<Seq<char>>) -> Seq<Seq<char>> {
    if c.len() > 0 && spec_ends_with(c.last(), ".rs"@) {
        c.update(c.len() - 1, c.last().subrange(0, c.last().len() - 3))
    } else {
        c
    }
}

/// The module path named by a list of file components, after `src` and `.rs`
/// are taken off.
pub open spec fn module_path_of(c: Seq<Seq<char>>) -> Seq<char> {
    if c.len() == 0 {
        "crate"@
    } else if c.last() == "main"@ {
        if c.len() > 1 {
            "crate::"@ + spec_join(c.drop_last(), "::"@)
        } else {
            "crate"@
        }
    } else if c.last() == "lib"@ {
        "crate"@
    } else if c.last() == "mod"@ {
        if c.len() == 1 {
            "crate"@
        } else {
            "crate::"@ + spec_join(c.drop_last(), "::"@)
        }
    } else {
        "crate::"@ + spec_join(c, "::"@)
    }
}

/// The module path of a source file within a project.
pub open spec fn spec_module_path(file: Seq<char>, root: Seq<char>) -> Seq<char> {
    module_path_of(strip_rs(drop_src(spec_relative_components(file, root))))
}

fn join_parts(parts: &Vec<Vec<char>>, upto: usize) -> (res: String)
    requires
        upto <= parts.len(),
    ensures
        res@ == spec_join(views(parts@).take(upto as int), "::"@),
{
    let mut strs: Vec<String> = Vec::new();
    let mut i: usize = 0;
    while i < upto
        invariant
            i <= upto <= parts.len(),
            string_views(strs@) == views(parts@).take(i as int),
        decreases upto - i,
    {
        let s = string_of(parts[i].as_slice());
        let ghost before = strs@;
        strs.push(s);
        proof {
            assert(strs@ == before.push(s));
            assert(string_views(before).len() == before.len());
            assert forall|k: int| 0 <= k < i + 1 implies string_views(strs@)[k] == views(
                parts@,
            ).take(i + 1)[k] by {
                assert(string_views(strs@)[k] == strs@[k]@);
                assert(views(parts@).take(i + 1)[k] == parts@[k]@);
                if k < i {
                    assert(strs@[k] == before[k]);
                    assert(string_views(before)[k] == before[k]@);
                    assert(views(parts@).take(i as int)[k] == parts@[k]@);
                }
            }
            assert(string_views(strs@) =~= views(parts@).take(i + 1));
        }
        i = i + 1;
    }
    join(&strs, "::")
}

/// The module path of a source file, such as `crate::parser::ast` for
/// `src/parser/ast.rs`.
pub fn extract_module_path(file_path: &str, project_root: &str) -> (res: String)
    ensures
        res@ == spec_module_path(file_path@, project_root@),
{
    let mut comps = relative_components(file_path, project_root);
    let ghost c0 = views(comps@);
    let src = chars_of("src");
    if comps.len() > 0 && seq_eq(comps[0].as_slice(), src.as_slice()) {
        comps.remove(0);
        assert(views(comps@) =~= c0.drop_first());
    } else {
        assert(views(comps@) == c0);
    }
    let ghost c1 = views(comps@);
    assert(c1 == drop_src(c0));
    let rs = chars_of(".rs");
    proof {
        reveal_strlit(".rs");
    }
    if comps.len() > 0 {
        let last_idx = comps.len() - 1;
        if ends_with(comps[last_idx].as_slice(), rs.as_slice()) {
            let l = comps[last_idx].len();
            let stripped = slice_chars(comps[last_idx].as_slice(), 0, l - 3);
            comps.set(last_idx, stripped);
            assert(views(comps@) =~= c1.update(c1.len() - 1, c1.last().subrange(0, c1.last().len() - 3)));
        }
    }
    let ghost c2 = views(comps@);
    assert(c2 == strip_rs(c1));
    let n = comps.len();
    if n == 0 {
        return to_string("crate");
    }
    let main = chars_of("main");
    let lib = chars_of("lib");
    let md = chars_of("mod");
    let last = &comps[n - 1];
    assert(c2.last() == last@);
    if seq_eq(last.as_slice(), main.as_slice()) {
        if n > 1 {
            let j = join_parts(&comps, n - 1);
            assert(c2.drop_last() =~= c2.take(n - 1));
            concat("crate::", j.as_str())
        } else {
            to_string("crate")
        }
    } else if seq_eq(last.as_slice(), lib.as_slice()) {
        to_string("crate")
    } else if seq_eq(last.as_slice(), md.as_slice()) {
        if n == 1 {
            to_string("crate")
        } else {
            let j = join_parts(&comps, n - 1);
            assert(c2.drop_last() =~= c2.take(n - 1));
            concat("crate::", j.as_str())
        }
    } else {
        let j = join_parts(&comps, n);
        assert(c2 =~= c2.take(n as int));
        concat("crate::", j.as_str())
    }
}

// ---------------------------------------------------------------------------
// Test files
// ---------------------------------------------------------------------------

pub open spec fn is_test_dir(c: Seq<char>) -> bool {
    c == "tests"@ || c == "test"@ || c == "benches"@ || c == "examples"@
}

/// The last component when it names a file or directory (`Path::file_name`).
pub open spec fn spec_file_name(p: Seq<char>) -> Option<Seq<char>> {
    let c = spec_components(p);
    if c.len() > 0 && c.last() != "/"@ && c.last() != "."@ && c.last() != ".."@ {
        Some(c.last())
    } else {
        None
    }
}

pub open spec fn spec_is_test_file(p: Seq<char>) -> bool {
    (exists|i: int| 0 <= i < spec_components(p).len() && is_test_dir(#[trigger] spec_components(p)[i]))
        || (spec_file_name(p) matches Some(n) && (spec_contains(n, "test"@) || spec_contains(
        n,
        "bench"@,
    ) || spec_contains(n, "example"@)))
}

/// Whether a path belongs to tests, benches or examples: a directory named so
/// on the way, or a file name that mentions one of them.
pub fn is_test_file(path: &str) -> (res: bool)
    ensures
        res == spec_is_test_file(path@),
{
    let comps = components(path);
    let tests = chars_of("tests");
    let test = chars_of("test");
    let benches = chars_of("benches");
    let examples = chars_of("examples");
    let mut i: usize = 0;
    while i < comps.len()
        invariant
            i <= comps.len(),
            views(comps@) == spec_components(path@),
            tests@ == "tests"@,
            test@ == "test"@,
            benches@ == "benches"@,
            examples@ == "examples"@,
            forall|k: int| 0 <= k < i ==> !is_test_dir(#[trigger] spec_components(path@)[k]),
        decreases comps.len() - i,
    {
        let c = comps[i].as_slice();
        assert(spec_components(path@)[i as int] == comps@[i as int]@);
        if seq_eq(c, tests.as_slice()) || seq_eq(c, test.as_slice()) || seq_eq(c, benches.as_slice())
            || seq_eq(c, examples.as_slice()) {
            return true;
        }
        i = i + 1;
    }
    let n = comps.len();
    if n == 0 {
        return false;
    }
    let last = comps[n - 1].as_slice();
    assert(spec_components(path@).last() == comps@[n - 1]@);
    let slash = chars_of("/");
    let dot = chars_of(".");
    let dotdot = chars_of("..");
    if seq_eq(last, slash.as_slice()) || seq_eq(last, dot.as_slice()) || seq_eq(last, dotdot.as_slice()) {
        return false;
    }
    let bench = chars_of("bench");
    let example = chars_of("example");
    contains(last, test.as_slice()) || contains(last, bench.as_slice()) || contains(last, example.as_slice())
}

/// A unique identifier for a symbol: its module path, `::`, and its name.
pub fn generate_id(module_prefix: &str, name: &str) -> (res: String)
    ensures
        res@ == module_prefix@ + "::"@ + name@,
{
    concat3(module_prefix, "::", name)
}

// ---------------------------------------------------------------------------
// Visibility
// ---------------------------------------------------------------------------

/// The path is the single identifier `name` (`Path::is_ident`).
pub open spec fn path_is_ident(p: SynPath, name: Seq<char>) -> bool {
    !p.leading_colon && p.segments.len() == 1 && p.segments[0].ident@ == name
        && p.segments[0].arguments is NoArgs
}

/// Whether a path is the single identifier `name`.
pub fn is_ident(p: &SynPath, name: &str) -> (res: bool)
    ensures
        res == path_is_ident(*p, name@),
{
    if p.leading_colon || p.segments.len() != 1 {
        return false;
    }
    let seg = &p.segments[0];
    match seg.arguments {
        crate::syntax::PathArguments::NoArgs => str_eq(seg.ident.as_str(), name),
        _ => false,
    }
}

pub open spec fn spec_visibility_label(vis: Visibility) -> Seq<char> {
    match vis {
        Visibility::Public => "PUBLIC"@,
        Visibility::Restricted(p) => if path_is_ident(p, "crate"@) {
            "CRATE"@
        } else if path_is_ident(p, "super"@) {
            "SUPER"@
        } else {
            "RESTRICTED"@
        },
        Visibility::Inherited => "PRIVATE"@,
    }
}

/// The label of a visibility modifier: `PUBLIC`, `CRATE`, `SUPER`,
/// `RESTRICTED` or `PRIVATE`.
pub fn normalize_visibility(vis: &Visibility) -> (res: String)
    ensures
        res@ == spec_visibility_label(*vis),
{
    match vis {
        Visibility::Public => to_string("PUBLIC"),
        Visibility::Restricted(p) => {
            if is_ident(p, "crate") {
                to_string("CRATE")
            } else if is_ident(p, "super") {
                to_string("SUPER")
            } else {
                to_string("RESTRICTED")
            }
        },
        Visibility::Inherited => to_string("PRIVATE"),
    }
}

// ---------------------------------------------------------------------------
// Type names
// ---------------------------------------------------------------------------

/// The pattern of a lifetime with the whitespace after it.
pub const LIFETIME_PATTERN: &'static str = "'[a-zA-Z_][a-zA-Z0-9_]*\\s*";

/// The text with `&mut ` and then `&` removed.
pub open spec fn spec_strip_refs(s: Seq<char>) -> Seq<char> {
    spec_replace(spec_replace(s, "&mut "@, ""@), "&"@, ""@)
}

pub open spec fn before_angle(t: Seq<char>) -> Seq<char> {
    match spec_find(t, "<"@) {
        Some(p) => t.subrange(0, p),
        None => t,
    }
}

pub open spec fn after_last_colons(a: Seq<char>) -> Seq<char> {
    match spec_rfind(a, "::"@) {
        Some(p) => a.subrange(p + 2, a.len() as int),
        None => a,
    }
}

/// The bare name of a type with its references and lifetimes already gone:
/// generic arguments and the path prefix cut off, whitespace trimmed.
pub open spec fn spec_finish_type_name(t: Seq<char>) -> Seq<char> {
    spec_trim(after_last_colons(before_angle(t)))
}

/// References removed, as the first step of `clean_type_name`.
pub fn strip_refs(s: &str) -> (res: String)
    ensures
        res@ == spec_strip_refs(s@),
{
    proof {
        reveal_strlit("&mut ");
        reveal_strlit("&");
    }
    let a = replace(s, "&mut ", "");
    replace(a.as_str(), "&", "")
}

/// The last step of `clean_type_name`, on a text whose lifetimes are gone.
pub fn finish_type_name(t: &str) -> (res: String)
    ensures
        res@ == spec_finish_type_name(t@),
{
    let cs = chars_of(t);
    let lt = chars_of("<");
    let a = match find(cs.as_slice(), lt.as_slice()) {
        Some(p) => {
            proof {
                lemma_find_from_props(cs@, lt@, 0);
            }
            slice_chars(cs.as_slice(), 0, p)
        },
        None => cs,
    };
    let colons = chars_of("::");
    proof {
        reveal_strlit("::");
    }
    let b = match rfind(a.as_slice(), colons.as_slice()) {
        Some(p) => {
            proof {
                lemma_rfind_below_props(a@, colons@, a@.len() + 1int);
                assert(colons@.len() == 2);
                assert(matches_at(a@, colons@, p as int));
                assert(p + 2 <= a@.len());
            }
            assert(p + 2 <= a.len());
            slice_chars(a.as_slice(), p + 2, a.len())
        },
        None => a,
    };
    let c = trim(b.as_slice());
    string_of(c.as_slice())
}

/// The bare name of a type: references, lifetimes, generic arguments and the
/// path prefix removed (`&'a mut std::vec::Vec<T>` gives `Vec`). The
/// lifetimes are removed by the `regex` crate; `None` when it refuses the
/// lifetime pattern.
pub fn clean_type_name(type_str: &str) -> (res: Option<String>)
    ensures
        match spec_regex_replace_all(LIFETIME_PATTERN@, spec_strip_refs(type_str@), ""@) {
            Some(t) => res matches Some(r) && r@ == spec_finish_type_name(t),
            None => res is None,
        },
{
    let a = strip_refs(type_str);
    match regex_replace_all(LIFETIME_PATTERN, a.as_str(), "") {
        Some(t) => Some(finish_type_name(t.as_str())),
        None => None,
    }
}

// ---------------------------------------------------------------------------
// File stems
// ---------------------------------------------------------------------------

/// A file name without its extension (`Path::file_stem`).
pub open spec fn spec_file_stem(name: Seq<char>) -> Seq<char> {
    match spec_rfind(name, "."@) {
        Some(p) => if p > 0 {
            name.subrange(0, p)
        } else {
            name
        },
        None => name,
    }
}

/// A component that names a directory or file.
pub open spec fn is_normal(c: Seq<char>) -> bool {
    c != "/"@ && c != "."@ && c != ".."@
}

/// Path components with the extension of the file name removed
/// (`Path::with_extension("")`).
pub open spec fn spec_stem_components(c: Seq<Seq<char>>) -> Seq<Seq<char>> {
    if c.len() > 0 && is_normal(c.last()) {
        c.update(c.len() - 1, spec_file_stem(c.last()))
    } else {
        c
    }
}

/// Removes the extension of the last component when it names a file.
pub fn stem_last_component(comps: Vec<Vec<char>>) -> (res: Vec<Vec<char>>)
    ensures
        views(res@) == spec_stem_components(views(comps@)),
{
    let mut comps = comps;
    let ghost c0 = views(comps@);
    let slash = chars_of("/");
    let dot = chars_of(".");
    let dotdot = chars_of("..");
    let n = comps.len();
    if n > 0 {
        let last = &comps[n - 1];
        assert(c0.last() == last@);
        if !seq_eq(last.as_slice(), slash.as_slice()) && !seq_eq(last.as_slice(), dot.as_slice())
            && !seq_eq(last.as_slice(), dotdot.as_slice()) {
            let stem = match rfind(last.as_slice(), dot.as_slice()) {
                Some(p) => {
                    proof {
                        lemma_rfind_below_props(last@, dot@, last@.len() + 1int);
                        reveal_strlit(".");
                        assert(matches_at(last@, dot@, p as int));
                    }
                    if p > 0 {
                        slice_chars(last.as_slice(), 0, p)
                    } else {
                        slice_chars(last.as_slice(), 0, last.len())
                    }
                },
                None => slice_chars(last.as_slice(), 0, last.len()),
            };
            assert(last@.subrange(0, last@.len() as int) =~= last@);
            comps.set(n - 1, stem);
            assert(views(comps@) =~= c0.update(n - 1, spec_file_stem(c0.last())));
        }
    }
    comps
}

// ---------------------------------------------------------------------------
// Joining and stripping paths
// ---------------------------------------------------------------------------

/// `Path::join`: an absolute `b` replaces `a`; otherwise `b` is appended,
/// with a `/` between where `a` is not empty and does not end in one.
pub open spec fn spec_path_join(a: Seq<char>, b: Seq<char>) -> Seq<char> {
    if b.len() > 0 && b[0] == '/' {
        b
    } else if a.len() > 0 && a.last() != '/' {
        a + "/"@ + b
    } else {
        a + b
    }
}

/// `b` joined onto `a` as `Path::join` does: `b` itself when it is absolute,
/// else with a `/` between them unless `a` ends with one.
pub fn path_join(a: &str, b: &str) -> (res: String)
    ensures
        res@ == spec_path_join(a@, b@),
{
    let ac = chars_of(a);
    let bc = chars_of(b);
    proof {
        reveal_strlit("/");
    }
    if bc.len() > 0 && bc[0] == '/' {
        to_string(b)
    } else if ac.len() > 0 && ac[ac.len() - 1] != '/' {
        concat3(a, "/", b)
    } else {
        concat(a, b)
    }
}

/// The components of `file` below `root` (`Path::strip_prefix`), `None`
/// when `file` does not lie below `root`.
pub open spec fn spec_strip_prefix(file: Seq<char>, root: Seq<char>) -> Option<Seq<Seq<char>>> {
    let f = spec_components(file);
    let r = spec_components(root);
    if is_prefix(r, f) {
        Some(f.subrange(r.len() as int, f.len() as int))
    } else {
        None
    }
}

/// The components of `file` below `root`, if `root` is a prefix of it.
pub fn strip_prefix_components(file: &str, root: &str) -> (res: Option<Vec<Vec<char>>>)
    ensures
        res matches Some(v) ==> spec_strip_prefix(file@, root@) == Some(views(v@)),
        res is None ==> spec_strip_prefix(file@, root@) is None,
{
    let f = components(file);
    let r = components(root);
    if r.len() > f.len() {
        return None;
    }
    let mut i: usize = 0;
    while i < r.len()
        invariant
            r.len() <= f.len(),
            i <= r.len(),
            views(f@) == spec_components(file@),
            views(r@) == spec_components(root@),
            forall|k: int| 0 <= k < i ==> views(f@)[k] == views(r@)[k],
        decreases r.len() - i,
    {
        assert(views(f@)[i as int] == f@[i as int]@);
        assert(views(r@)[i as int] == r@[i as int]@);
        if !seq_eq(f[i].as_slice(), r[i].as_slice()) {
            proof {
                if is_prefix(views(r@), views(f@)) {
                    assert(views(f@).subrange(0, r.len() as int)[i as int] == views(f@)[i as int]);
                }
            }
            return None;
        }
        i = i + 1;
    }
    assert(views(f@).subrange(0, r.len() as int) =~= views(r@));
    let mut out: Vec<Vec<char>> = Vec::new();
    let mut k = r.len();
    while k < f.len()
        invariant
            r.len() <= k <= f.len(),
            views(out@) == views(f@).subrange(r.len() as int, k as int),
        decreases f.len() - k,
    {
        let ghost old_out = out@;
        out.push(slice_chars(f[k].as_slice(), 0, f[k].len()));
        assert(f@[k as int]@.subrange(0, f@[k as int]@.len() as int) =~= f@[k as int]@);
        proof {
            lemma_views_push(old_out, out@.last());
            assert(views(f@)[k as int] == f@[k as int]@);
        }
        assert(views(out@) =~= views(f@).subrange(r.len() as int, k + 1));
        k = k + 1;
    }
    Some(out)
}

/// The file name of a path (`Path::file_name`).
pub fn file_name(p: &str) -> (res: Option<String>)
    ensures
        match res {
            Some(n) => spec_file_name(p@) == Some(n@),
            None => spec_file_name(p@) is None,
        },
{
    let comps = components(p);
    let n = comps.len();
    if n == 0 {
        return None;
    }
    let last = comps[n - 1].as_slice();
    assert(spec_components(p@).last() == comps@[n - 1]@);
    let slash = chars_of("/");
    let dot = chars_of(".");
    let dotdot = chars_of("..");
    proof {
        reveal_strlit("/");
        reveal_strlit(".");
        reveal_strlit("..");
    }
    if seq_eq(last, slash.as_slice()) || seq_eq(last, dot.as_slice()) || seq_eq(last, dotdot.as_slice()) {
        return None;
    }
    Some(string_of(last))
}


/// A path made of components: a root component followed by the others
/// joined with `/`, or all of them joined with `/`.
pub open spec fn spec_from_components(cs: Seq<Seq<char>>) -> Seq<char> {
    if cs.len() > 0 && cs[0] == "/"@ {
        "/"@ + spec_join(cs.drop_first(), "/"@)
    } else {
        spec_join(cs, "/"@)
    }
}

/// `Path::parent`: the path without its last component; none for an empty
/// path or the root alone.
pub open spec fn spec_parent(p: Seq<char>) -> Option<Seq<char>> {
    let cs = spec_components(p);
    if cs.len() == 0 || (cs.len() == 1 && cs[0] == "/"@) {
        None
    } else {
        Some(spec_from_components(cs.drop_last()))
    }
}

/// The parent directory of a path (`Path::parent`), written in normal form.
pub fn parent_path(p: &str) -> (res: Option<String>)
    ensures
        crate::text::opt_view(res) == spec_parent(p@),
{
    let comps = components(p);
    let ghost cv = views(comps@);
    let n = comps.len();
    let slash = chars_of("/");
    proof {
        reveal_strlit("/");
    }
    if n == 0 {
        return None;
    }
    let rooted = seq_eq(comps[0].as_slice(), slash.as_slice());
    if n == 1 && rooted {
        return None;
    }
    let start: usize = if rooted { 1 } else { 0 };
    let ghost body = if rooted { cv.drop_last().drop_first() } else { cv.drop_last() };
    let mut parts: Vec<String> = Vec::new();
    let mut i: usize = start;
    while i < n - 1
        invariant
            start <= i <= n - 1,
            n == comps.len(),
            n >= 1,
            cv == views(comps@),
            start == (if rooted { 1usize } else { 0usize }),
            rooted ==> n >= 2,
            string_views(parts@) == cv.subrange(start as int, i as int),
        decreases n - 1 - i,
    {
        let part = string_of(comps[i].as_slice());
        let ghost before = parts@;
        parts.push(part);
        proof {
            crate::text::lemma_string_views_push(before, parts@.last());
            assert(cv.subrange(start as int, i + 1) =~= cv.subrange(start as int, i as int).push(cv[i as int]));
        }
        i = i + 1;
    }
    proof {
        if rooted {
            assert(cv.subrange(1, n - 1) =~= cv.drop_last().drop_first());
            assert(cv.drop_last()[0] == "/"@);
        } else {
            assert(cv.subrange(0, n - 1) =~= cv.drop_last());
            assert(cv[0] != "/"@);
        }
    }
    let joined = join(&parts, "/");
    if rooted {
        Some(concat("/", joined.as_str()))
    } else {
        Some(joined)
    }
}


/// A directory name whose files the analysis passes over.
pub open spec fn excluded_component(c: Seq<char>) -> bool {
    c == "target"@ || c == ".git"@ || c == "node_modules"@ || c == ".benchwork"@ || c == "cargo_home"@
}

/// A path the analysis reads: a file with the extension `rs`, with no
/// component that names a build, cache or repository directory.
pub open spec fn spec_keep_rust_file(p: Seq<char>) -> bool {
    &&& match spec_file_name(p) {
        Some(n) => spec_ends_with(n, ".rs"@) && n.len() > 3,
        None => false,
    }
    &&& forall|i: int| 0 <= i < spec_components(p).len() ==> !excluded_component(#[trigger] spec_components(p)[i])
}

/// Whether a file found below the project is a source file to analyse.
pub fn keep_rust_file(path: &str) -> (res: bool)
    ensures
        res == spec_keep_rust_file(path@),
{
    let name = match file_name(path) {
        Some(n) => n,
        None => return false,
    };
    let nc = chars_of(name.as_str());
    let ext = chars_of(".rs");
    if !(ends_with(nc.as_slice(), ext.as_slice()) && nc.len() > 3) {
        return false;
    }
    let comps = components(path);
    let ghost cv = views(comps@);
    let target = chars_of("target");
    let git = chars_of(".git");
    let node = chars_of("node_modules");
    let bench = chars_of(".benchwork");
    let home = chars_of("cargo_home");
    let mut i: usize = 0;
    while i < comps.len()
        invariant
            i <= comps.len(),
            cv == views(comps@),
            cv == spec_components(path@),
            target@ == "target"@,
            git@ == ".git"@,
            node@ == "node_modules"@,
            bench@ == ".benchwork"@,
            home@ == "cargo_home"@,
            forall|k: int| 0 <= k < i ==> !excluded_component(#[trigger] cv[k]),
        decreases comps.len() - i,
    {
        let c = comps[i].as_slice();
        assert(cv[i as int] == comps@[i as int]@);
        if seq_eq(c, target.as_slice()) || seq_eq(c, git.as_slice()) || seq_eq(c, node.as_slice())
            || seq_eq(c, bench.as_slice()) || seq_eq(c, home.as_slice()) {
            return false;
        }
        i = i + 1;
    }
    true
}

/// A `main.rs` directly in `src` is the crate root; one in directories
/// `d1/../dn` below `src` (n >= 1) is the module `crate::d1::..::dn`.
pub proof fn lemma_main_module_path(file: Seq<char>, root: Seq<char>, ds: Seq<Seq<char>>)
    requires
        spec_relative_components(file, root) == seq!["src"@] + ds + seq!["main.rs"@],
    ensures
        ds.len() == 0 ==> spec_module_path(file, root) == "crate"@,
        ds.len() > 0 ==> spec_module_path(file, root) == "crate::"@ + spec_join(ds, "::"@),
{
    reveal_strlit("src");
    reveal_strlit("main.rs");
    reveal_strlit("main");
    reveal_strlit(".rs");
    let c = seq!["src"@] + ds + seq!["main.rs"@];
    let d = drop_src(c);
    assert(c[0] == "src"@);
    assert(d =~= ds + seq!["main.rs"@]);
    assert(d.last() == "main.rs"@);
    assert(d.last().subrange(d.last().len() - 3, d.last().len() as int) =~= ".rs"@);
    assert(spec_ends_with(d.last(), ".rs"@));
    let s = strip_rs(d);
    assert(d.last().subrange(0, d.last().len() - 3) =~= "main"@);
    assert(s =~= ds + seq!["main"@]);
    assert(s.last() == "main"@);
    assert(s.drop_last() =~= ds);
}

/// A path with a component named `tests`, `test`, `benches` or `examples`
/// is a test file.
pub proof fn lemma_test_dirs_are_test_files(p: Seq<char>, i: int)
    requires
        0 <= i < spec_components(p).len(),
        spec_components(p)[i] == "tests"@ || spec_components(p)[i] == "test"@
            || spec_components(p)[i] == "benches"@ || spec_components(p)[i] == "examples"@,
    ensures
        spec_is_test_file(p),
{
    assert(is_test_dir(spec_components(p)[i]));
}


/// The module path of `src/d1/../dn/name.rs`: `crate` for `lib.rs`, for
/// `main.rs` and for `mod.rs` directly in `src`; `crate::d1::..::dn` for a
/// `main.rs` or `mod.rs` below it; `crate::d1::..::dn::name` for any other
/// file.
pub proof fn lemma_module_path_cases(file: Seq<char>, root: Seq<char>, ds: Seq<Seq<char>>, name: Seq<char>)
    requires
        spec_relative_components(file, root) == seq!["src"@] + ds + seq![name + ".rs"@],
    ensures
        name == "lib"@ ==> spec_module_path(file, root) == "crate"@,
        (name == "main"@ || name == "mod"@) && ds.len() == 0 ==> spec_module_path(file, root) == "crate"@,
        (name == "main"@ || name == "mod"@) && ds.len() > 0 ==> spec_module_path(file, root) == "crate::"@
            + spec_join(ds, "::"@),
        name != "main"@ && name != "mod"@ && name != "lib"@ ==> spec_module_path(file, root) == "crate::"@
            + spec_join(ds.push(name), "::"@),
{
    reveal_strlit("src");
    reveal_strlit(".rs");
    reveal_strlit("lib");
    reveal_strlit("main");
    reveal_strlit("mod");
    let c = seq!["src"@] + ds + seq![name + ".rs"@];
    let d = drop_src(c);
    assert(c[0] == "src"@);
    assert(d =~= ds + seq![name + ".rs"@]);
    let l = d.last();
    assert(l == name + ".rs"@);
    assert(l.subrange(l.len() - 3, l.len() as int) =~= ".rs"@);
    assert(l.subrange(0, l.len() - 3) =~= name);
    let st = strip_rs(d);
    assert(st =~= ds.push(name));
    assert(st.last() == name);
    assert(st.drop_last() =~= ds);
    assert(spec_module_path(file, root) == module_path_of(st));
    if ds.len() > 0 && name == "mod"@ {
        assert("mod"@.len() != "main"@.len());
        assert("mod"@ != "lib"@) by {
            assert("mod"@[0] != "lib"@[0]);
        }
        assert(st.len() > 1);
        assert(module_path_of(st) == "crate::"@ + spec_join(st.drop_last(), "::"@));
    }
}

/// A file whose name mentions `test`, `bench` or `example` is a test file.
pub proof fn lemma_test_file_names(p: Seq<char>, n: Seq<char>)
    requires
        spec_file_name(p) == Some(n),
        spec_contains(n, "test"@) || spec_contains(n, "bench"@) || spec_contains(n, "example"@),
    ensures
        spec_is_test_file(p),
{
}

/// A path with no component named `tests`, `test`, `benches` or `examples`,
/// whose file name mentions none of `test`, `bench` and `example`, is not a
/// test file.
pub proof fn lemma_plain_files_are_not_test_files(p: Seq<char>)
    requires
        forall|i: int| 0 <= i < spec_components(p).len() ==> {
            let c = #[trigger] spec_components(p)[i];
            c != "tests"@ && c != "test"@ && c != "benches"@ && c != "examples"@
        },
        spec_file_name(p) matches Some(n) ==> !spec_contains(n, "test"@) && !spec_contains(n, "bench"@)
            && !spec_contains(n, "example"@),
    ensures
        !spec_is_test_file(p),
{
}

} // verus!
