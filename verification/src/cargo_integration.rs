//! Project metadata of a Cargo project: packages, dependencies, targets,
//! features and workspace configuration.
use vstd::prelude::*;
use crate::error::AnalyzerError;
use crate::text::{copy_strings, opt_view, str_eq, string_views, to_string, concat, lemma_string_views_push};
use crate::utils::{components, parent_path, spec_components, spec_parent, path_join, spec_path_join};
use crate::text::views;
use crate::string_map::StringMap;

verus! {

/// A dependency of a package.
#[derive(Clone)]
pub struct DependencyInfo {
    pub name: String,
    pub version_req: String,
    pub version: Option<String>,
    /// `normal`, `dev`, `build` or `unknown`.
    pub kind: String,
    pub optional: bool,
    pub features: Vec<String>,
    pub source: Option<String>,
}

/// A build target of a package.
#[derive(Clone)]
pub struct TargetInfo {
    pub name: String,
    /// `bin`, `lib`, `test`, `bench`, `example`, ...
    pub kind: Vec<String>,
    pub src_path: String,
    pub doctest: bool,
    pub edition: String,
}

/// A feature flag and the features or dependencies it enables.
#[derive(Clone)]
pub struct FeatureInfo {
    pub name: String,
    pub enables: Vec<String>,
}

/// A package of the project or of its dependencies.
#[derive(Clone)]
pub struct PackageInfo {
    pub name: String,
    pub version: String,
    pub manifest_path: String,
    pub source_path: String,
    pub dependencies: Vec<DependencyInfo>,
    pub targets: Vec<TargetInfo>,
    pub features: Vec<FeatureInfo>,
    pub is_workspace_member: bool,
}

/// The dependencies of one package.
#[derive(Clone)]
pub struct PackageDependencies {
    pub package: String,
    pub dependencies: Vec<DependencyInfo>,
}

/// A TOML value. Floating-point values keep their written form.
pub enum TomlValue {
    String(String),
    Integer(i64),
    Float(String),
    Boolean(bool),
    Datetime(String),
    Array(Vec<TomlValue>),
    Table(Vec<TomlEntry>),
}

/// A key of a TOML table with its value.
pub struct TomlEntry {
    pub key: String,
    pub value: TomlValue,
}

#[verifier::external_type_specification]
#[verifier::external_body]
pub struct ExTomlValue(toml::Value);

/// What `toml::from_str::<toml::Value>(text)` gives, as a record: the value,
/// or the text of the parse error.
pub uninterp spec fn spec_parse_toml(text: Seq<char>) -> Result<TomlValue, Seq<char>>;

/// The record of a `toml::Value`, variant by variant; a float is carried as
/// its printed form, a datetime as its printed form, a table's entries in
/// the order the table iterates them.
#[verifier::external_body]
fn toml_record(v: &toml::Value) -> (res: TomlValue) {
    match v {
        toml::Value::String(s) => TomlValue::String(s.clone()),
        toml::Value::Integer(i) => TomlValue::Integer(*i),
        toml::Value::Float(f) => TomlValue::Float(f.to_string()),
        toml::Value::Boolean(b) => TomlValue::Boolean(*b),
        toml::Value::Datetime(d) => TomlValue::Datetime(d.to_string()),
        toml::Value::Array(a) => TomlValue::Array(a.iter().map(toml_record).collect()),
        toml::Value::Table(t) => TomlValue::Table(t.iter().map(|(k, v)| TomlEntry { key: k.clone(), value: toml_record(v) }).collect()),
    }
}

/// Parses a TOML document with `toml::from_str::<toml::Value>`; the error is
/// carried as the parse error's text (`Display`). The contract names the
/// result.
#[verifier::external_body]
pub(crate) fn parse_toml(text: &str) -> (res: Result<TomlValue, String>)
    ensures
        match res {
            Ok(v) => spec_parse_toml(text@) == Ok::<TomlValue, Seq<char>>(v),
            Err(m) => spec_parse_toml(text@) == Err::<TomlValue, Seq<char>>(m@),
        },
{
    match toml::from_str::<toml::Value>(text) {
        Ok(v) => Ok(toml_record(&v)),
        Err(e) => Err(e.to_string()),
    }
}

/// The `[workspace]` section of the workspace manifest.
pub struct WorkspaceConfig {
    pub members: Vec<String>,
    pub exclude: Vec<String>,
    /// Workspace dependencies, each named by its `name`, in manifest order.
    pub dependencies: Vec<DependencyInfo>,
    pub metadata: Vec<TomlEntry>,
}

/// What the analysis knows of the project as a whole.
pub struct ProjectMetadata {
    pub name: String,
    pub version: String,
    pub description: Option<String>,
    pub authors: Vec<String>,
    pub license: Option<String>,
    pub homepage: Option<String>,
    pub repository: Option<String>,
    pub packages: Vec<PackageInfo>,
    pub dependencies: Vec<PackageDependencies>,
    pub targets: Vec<TargetInfo>,
    pub features: Vec<FeatureInfo>,
    pub is_workspace: bool,
    pub workspace_root: String,
    pub workspace_config: Option<WorkspaceConfig>,
}

// ---------------------------------------------------------------------------
// TOML tables
// ---------------------------------------------------------------------------

/// The value of the first entry called `key` in a table.
pub open spec fn table_get(entries: Seq<TomlEntry>, key: Seq<char>) -> Option<TomlValue>
    decreases entries.len(),
{
    if entries.len() == 0 {
        None
    } else if entries[0].key@ == key {
        Some(entries[0].value)
    } else {
        table_get(entries.drop_first(), key)
    }
}

/// The value of the first entry called `key` in a table.
pub fn table_lookup<'a>(entries: &'a Vec<TomlEntry>, key: &str) -> (res: Option<&'a TomlValue>)
    ensures
        res matches Some(v) ==> table_get(entries@, key@) == Some(*v),
        res is None ==> table_get(entries@, key@) is None,
{
    let mut i: usize = 0;
    assert(entries@.subrange(0, entries@.len() as int) =~= entries@);
    while i < entries.len()
        invariant
            i <= entries.len(),
            table_get(entries@, key@) == table_get(entries@.subrange(i as int, entries@.len() as int), key@),
        decreases entries.len() - i,
    {
        let ghost rest = entries@.subrange(i as int, entries@.len() as int);
        assert(rest[0] == entries@[i as int]);
        if str_eq(entries[i].key.as_str(), key) {
            return Some(&entries[i].value);
        }
        assert(rest.drop_first() =~= entries@.subrange(i + 1, entries@.len() as int));
        i = i + 1;
    }
    None
}

/// Whether one of the strings equals `k`.
pub fn vec_has(v: &Vec<String>, k: &str) -> (res: bool)
    ensures
        res == exists|i: int| 0 <= i < v@.len() && #[trigger] v@[i]@ == k@,
{
    let mut i: usize = 0;
    while i < v.len()
        invariant
            i <= v.len(),
            forall|t: int| 0 <= t < i ==> v@[t]@ != k@,
        decreases v.len() - i,
    {
        if str_eq(v[i].as_str(), k) {
            return true;
        }
        i = i + 1;
    }
    false
}


// ---------------------------------------------------------------------------
// What `cargo metadata` reports
// ---------------------------------------------------------------------------

/// The kind of a dependency as cargo reports it.
#[derive(Clone, Copy, PartialEq, Eq, Debug)]
pub enum DependencyKind {
    Normal,
    Development,
    Build,
    Unknown,
}

/// A dependency of a package as cargo reports it.
pub struct CargoDependency {
    pub name: String,
    pub req: String,
    pub kind: DependencyKind,
    pub optional: bool,
    pub features: Vec<String>,
    pub source: Option<String>,
}

/// A build target as cargo reports it.
pub struct CargoTarget {
    pub name: String,
    pub kind: Vec<String>,
    pub src_path: String,
    pub doctest: bool,
    pub edition: String,
}

/// A package as cargo reports it.
pub struct CargoPackage {
    pub id: String,
    pub name: String,
    pub version: String,
    pub description: Option<String>,
    pub authors: Vec<String>,
    pub license: Option<String>,
    pub homepage: Option<String>,
    pub repository: Option<String>,
    pub manifest_path: String,
    pub dependencies: Vec<CargoDependency>,
    pub targets: Vec<CargoTarget>,
    /// Each feature with what it enables, in the order cargo lists them.
    pub features: Vec<(String, Vec<String>)>,
}

/// The output of `cargo metadata`: the packages, the ids of the workspace
/// members, and the workspace root.
pub struct CargoMetadata {
    pub packages: Vec<CargoPackage>,
    pub workspace_members: Vec<String>,
    pub workspace_root: String,
}

/// The label of a dependency kind.
pub open spec fn kind_label(k: DependencyKind) -> Seq<char> {
    match k {
        DependencyKind::Normal => "normal"@,
        DependencyKind::Development => "dev"@,
        DependencyKind::Build => "build"@,
        DependencyKind::Unknown => "unknown"@,
    }
}

/// A dependency record as plain values: name, version requirement, version,
/// kind, optional, features, source.
pub open spec fn dep_view(d: DependencyInfo) -> (Seq<char>, Seq<char>, Option<Seq<char>>, Seq<char>, bool, Seq<Seq<char>>, Option<Seq<char>>) {
    (d.name@, d.version_req@, opt_view(d.version), d.kind@, d.optional, string_views(d.features@), opt_view(d.source))
}

pub open spec fn deps_view(v: Seq<DependencyInfo>) -> Seq<(Seq<char>, Seq<char>, Option<Seq<char>>, Seq<char>, bool, Seq<Seq<char>>, Option<Seq<char>>)> {
    v.map_values(|d: DependencyInfo| dep_view(d))
}

/// The record of a dependency that cargo reports; its resolved version is
/// left open.
pub open spec fn spec_dependency_of(d: CargoDependency) -> (Seq<char>, Seq<char>, Option<Seq<char>>, Seq<char>, bool, Seq<Seq<char>>, Option<Seq<char>>) {
    (d.name@, d.req@, None, kind_label(d.kind), d.optional, string_views(d.features@), opt_view(d.source))
}

pub open spec fn spec_package_dependencies(p: CargoPackage) -> Seq<(Seq<char>, Seq<char>, Option<Seq<char>>, Seq<char>, bool, Seq<Seq<char>>, Option<Seq<char>>)> {
    p.dependencies@.map_values(|d: CargoDependency| spec_dependency_of(d))
}

/// A target record as plain values: name, kinds, source path, doctest, edition.
pub open spec fn target_view(t: TargetInfo) -> (Seq<char>, Seq<Seq<char>>, Seq<char>, bool, Seq<char>) {
    (t.name@, string_views(t.kind@), t.src_path@, t.doctest, t.edition@)
}

pub open spec fn targets_view(v: Seq<TargetInfo>) -> Seq<(Seq<char>, Seq<Seq<char>>, Seq<char>, bool, Seq<char>)> {
    v.map_values(|t: TargetInfo| target_view(t))
}

pub open spec fn spec_target_of(t: CargoTarget) -> (Seq<char>, Seq<Seq<char>>, Seq<char>, bool, Seq<char>) {
    (t.name@, string_views(t.kind@), t.src_path@, t.doctest, t.edition@)
}

pub open spec fn spec_package_targets(p: CargoPackage) -> Seq<(Seq<char>, Seq<Seq<char>>, Seq<char>, bool, Seq<char>)> {
    p.targets@.map_values(|t: CargoTarget| spec_target_of(t))
}

pub open spec fn feature_view(f: FeatureInfo) -> (Seq<char>, Seq<Seq<char>>) {
    (f.name@, string_views(f.enables@))
}

pub open spec fn features_view(v: Seq<FeatureInfo>) -> Seq<(Seq<char>, Seq<Seq<char>>)> {
    v.map_values(|f: FeatureInfo| feature_view(f))
}

pub open spec fn spec_package_features(p: CargoPackage) -> Seq<(Seq<char>, Seq<Seq<char>>)> {
    p.features@.map_values(|f: (String, Vec<String>)| (f.0@, string_views(f.1@)))
}

/// The directory of a manifest: its parent, or the manifest path itself
/// where it has none.
pub open spec fn spec_manifest_dir(m: Seq<char>) -> Seq<char> {
    match spec_parent(m) {
        Some(d) => d,
        None => m,
    }
}

/// Whether `id` is among the workspace members.
pub open spec fn is_member(members: Seq<String>, id: Seq<char>) -> bool {
    string_views(members).contains(id)
}

/// The package record made of what cargo reports of a package.
pub open spec fn package_info_of(pi: PackageInfo, p: CargoPackage, members: Seq<String>) -> bool {
    &&& pi.name@ == p.name@
    &&& pi.version@ == p.version@
    &&& pi.manifest_path@ == p.manifest_path@
    &&& pi.source_path@ == spec_manifest_dir(p.manifest_path@)
    &&& deps_view(pi.dependencies@) == spec_package_dependencies(p)
    &&& targets_view(pi.targets@) == spec_package_targets(p)
    &&& features_view(pi.features@) == spec_package_features(p)
    &&& pi.is_workspace_member == is_member(members, p.id@)
}

/// The targets of all packages, package by package.
pub open spec fn spec_all_targets(ps: Seq<CargoPackage>) -> Seq<(Seq<char>, Seq<Seq<char>>, Seq<char>, bool, Seq<char>)>
    decreases ps.len(),
{
    if ps.len() == 0 {
        Seq::empty()
    } else {
        spec_all_targets(ps.drop_last()) + spec_package_targets(ps.last())
    }
}

/// The index of the last package named `n` among the first `k`.
pub open spec fn last_named(ps: Seq<CargoPackage>, n: Seq<char>) -> Option<int>
    decreases ps.len(),
{
    if ps.len() == 0 {
        None
    } else if ps.last().name@ == n {
        Some(ps.len() - 1)
    } else {
        last_named(ps.drop_last(), n)
    }
}

/// The package names, each once, in the order of first appearance.
pub open spec fn distinct_names(ps: Seq<CargoPackage>) -> Seq<Seq<char>>
    decreases ps.len(),
{
    if ps.len() == 0 {
        Seq::empty()
    } else if distinct_names(ps.drop_last()).contains(ps.last().name@) {
        distinct_names(ps.drop_last())
    } else {
        distinct_names(ps.drop_last()).push(ps.last().name@)
    }
}

/// The dependency graph: for each package name, in order of first
/// appearance, the dependencies of the last package of that name.
pub open spec fn dependency_graph_of(g: Seq<PackageDependencies>, ps: Seq<CargoPackage>) -> bool {
    &&& g.len() == distinct_names(ps).len()
    &&& forall|i: int| 0 <= i < g.len() ==> {
        &&& (#[trigger] g[i]).package@ == distinct_names(ps)[i]
        &&& last_named(ps, g[i].package@) matches Some(k)
            && deps_view(g[i].dependencies@) == spec_package_dependencies(ps[k])
    }
}

/// The first index at or after `i` of a package whose manifest has the
/// components `comps`.
pub open spec fn index_of_manifest(ps: Seq<CargoPackage>, comps: Seq<Seq<char>>, i: int) -> Option<int>
    decreases ps.len() - i,
{
    if i < 0 || i >= ps.len() {
        None
    } else if spec_components(ps[i].manifest_path@) == comps {
        Some(i)
    } else {
        index_of_manifest(ps, comps, i + 1)
    }
}

/// The first index at or after `i` of a package with the id `id`.
pub open spec fn index_of_id(ps: Seq<CargoPackage>, id: Seq<char>, i: int) -> Option<int>
    decreases ps.len() - i,
{
    if i < 0 || i >= ps.len() {
        None
    } else if ps[i].id@ == id {
        Some(i)
    } else {
        index_of_id(ps, id, i + 1)
    }
}

/// The root package: the one whose manifest is `Cargo.toml` in the project
/// root, else the first workspace member, else the first package.
pub open spec fn spec_root_index(root: Seq<char>, md: CargoMetadata) -> Option<int> {
    let ps = md.packages@;
    match index_of_manifest(ps, spec_components(spec_path_join(root, "Cargo.toml"@)), 0) {
        Some(i) => Some(i),
        None => {
            let from_member = if md.workspace_members@.len() > 0 {
                index_of_id(ps, md.workspace_members@[0]@, 0)
            } else {
                None
            };
            match from_member {
                Some(i) => Some(i),
                None => if ps.len() > 0 { Some(0) } else { None },
            }
        },
    }
}


// ---------------------------------------------------------------------------
// The workspace manifest
// ---------------------------------------------------------------------------

/// The value under `key` in a table value; none for a value that is not a table.
pub open spec fn section_get(section: TomlValue, key: Seq<char>) -> Option<TomlValue> {
    match section {
        TomlValue::Table(es) => table_get(es@, key),
        _ => None,
    }
}

/// The strings among the items, in order.
pub open spec fn string_items(items: Seq<TomlValue>) -> Seq<Seq<char>>
    decreases items.len(),
{
    if items.len() == 0 {
        Seq::empty()
    } else {
        match items.last() {
            TomlValue::String(s) => string_items(items.drop_last()).push(s@),
            _ => string_items(items.drop_last()),
        }
    }
}

/// The strings of an array value; none for a missing value or one that is
/// not an array.
pub open spec fn array_strings(v: Option<TomlValue>) -> Seq<Seq<char>> {
    match v {
        Some(TomlValue::Array(items)) => string_items(items@),
        _ => Seq::empty(),
    }
}

/// The `[workspace]` value of a manifest.
pub open spec fn spec_workspace_section(manifest: TomlValue) -> Option<TomlValue> {
    match manifest {
        TomlValue::Table(top) => table_get(top@, "workspace"@),
        _ => None,
    }
}

/// The record of a workspace dependency: its version is the string given,
/// or the table's `version` string, else `*`; its source `path`, `git` or
/// `registry` by the keys of its table.
pub open spec fn spec_ws_dependency(name: Seq<char>, v: TomlValue) -> (Seq<char>, Seq<char>, Option<Seq<char>>, Seq<char>, bool, Seq<Seq<char>>, Option<Seq<char>>) {
    let version = match v {
        TomlValue::String(s) => s@,
        TomlValue::Table(t) => match table_get(t@, "version"@) {
            Some(TomlValue::String(s)) => s@,
            _ => "*"@,
        },
        _ => "*"@,
    };
    let source = match v {
        TomlValue::Table(t) => if table_get(t@, "path"@) is Some {
            "path"@
        } else if table_get(t@, "git"@) is Some {
            "git"@
        } else {
            "registry"@
        },
        _ => "registry"@,
    };
    let optional = match v {
        TomlValue::Table(t) => match table_get(t@, "optional"@) {
            Some(TomlValue::Boolean(b)) => b,
            _ => false,
        },
        _ => false,
    };
    let features = match v {
        TomlValue::Table(t) => array_strings(table_get(t@, "features"@)),
        _ => Seq::empty(),
    };
    (name, version, Some(version), "normal"@, optional, features, Some(source))
}

/// The records of the `dependencies` table of a workspace section.
pub open spec fn spec_ws_dependencies(section: TomlValue) -> Seq<(Seq<char>, Seq<char>, Option<Seq<char>>, Seq<char>, bool, Seq<Seq<char>>, Option<Seq<char>>)> {
    match section_get(section, "dependencies"@) {
        Some(TomlValue::Table(es)) => es@.map_values(|e: TomlEntry| spec_ws_dependency(e.key@, e.value)),
        _ => Seq::empty(),
    }
}

/// The workspace record made of a `[workspace]` section.
pub open spec fn workspace_config_of(cfg: WorkspaceConfig, section: TomlValue) -> bool {
    &&& string_views(cfg.members@) == array_strings(section_get(section, "members"@))
    &&& string_views(cfg.exclude@) == array_strings(section_get(section, "exclude"@))
    &&& deps_view(cfg.dependencies@) == spec_ws_dependencies(section)
    &&& match section_get(section, "metadata"@) {
        Some(TomlValue::Table(m)) => cfg.metadata@ == m@,
        _ => cfg.metadata@.len() == 0,
    }
}

pub open spec fn is_config_error(e: AnalyzerError, m: Seq<char>) -> bool {
    e matches AnalyzerError::ConfigError { message } && message@ == m
}

pub open spec fn is_invalid_project(e: AnalyzerError, m: Seq<char>) -> bool {
    e matches AnalyzerError::InvalidProject { message } && message@ == m
}

/// What the workspace manifest gives: its section's record, or the error
/// that it has no `[workspace]` section.
pub open spec fn workspace_result_ok(res: Result<WorkspaceConfig, AnalyzerError>, manifest: TomlValue) -> bool {
    match spec_workspace_section(manifest) {
        Some(section) => res matches Ok(cfg) && workspace_config_of(cfg, section),
        None => res matches Err(e) && is_config_error(e, "未找到[workspace]配置段"@),
    }
}

/// What the workspace manifest's text gives: the error that it could not be
/// read (`Err` holds the reason) or parsed, else what its parsed value gives.
pub open spec fn workspace_text_result_ok(
    res: Result<WorkspaceConfig, AnalyzerError>,
    manifest_text: Result<String, String>,
) -> bool {
    match manifest_text {
        Err(e) => res matches Err(x) && is_config_error(x, "无法读取workspace Cargo.toml: "@ + e@),
        Ok(t) => match spec_parse_toml(t@) {
            Err(m) => res matches Err(x) && is_config_error(x, "解析workspace Cargo.toml失败: "@ + m),
            Ok(v) => workspace_result_ok(res, v),
        },
    }
}

/// The position of the first entry called `key` in a table.
fn table_index(entries: &Vec<TomlEntry>, key: &str) -> (res: Option<usize>)
    ensures
        res matches Some(i) ==> i < entries@.len() && table_get(entries@, key@) == Some(entries@[i as int].value),
        res is None ==> table_get(entries@, key@) is None,
{
    let mut i: usize = 0;
    assert(entries@.subrange(0, entries@.len() as int) =~= entries@);
    while i < entries.len()
        invariant
            i <= entries.len(),
            table_get(entries@, key@) == table_get(entries@.subrange(i as int, entries@.len() as int), key@),
        decreases entries.len() - i,
    {
        let ghost rest = entries@.subrange(i as int, entries@.len() as int);
        assert(rest[0] == entries@[i as int]);
        if str_eq(entries[i].key.as_str(), key) {
            return Some(i);
        }
        assert(rest.drop_first() =~= entries@.subrange(i + 1, entries@.len() as int));
        i = i + 1;
    }
    None
}

/// The strings of an array value.
fn array_strings_of(v: Option<&TomlValue>) -> (res: Vec<String>)
    ensures
        string_views(res@) == array_strings(match v { Some(x) => Some(*x), None => None }),
{
    match v {
        Some(TomlValue::Array(items)) => {
            let mut out: Vec<String> = Vec::new();
            let mut i: usize = 0;
            while i < items.len()
                invariant
                    i <= items.len(),
                    string_views(out@) == string_items(items@.take(i as int)),
                decreases items.len() - i,
            {
                proof {
                    assert(items@.take(i + 1).drop_last() =~= items@.take(i as int));
                    assert(items@.take(i + 1).last() == items@[i as int]);
                }
                match &items[i] {
                    TomlValue::String(s) => {
                        let ghost before = out@;
                        out.push(s.clone());
                        proof {
                            lemma_string_views_push(before, out@.last());
                        }
                    },
                    _ => {},
                }
                i = i + 1;
            }
            proof {
                assert(items@.take(items@.len() as int) =~= items@);
            }
            out
        },
        _ => Vec::new(),
    }
}

/// The value under `key` in a table value.
fn section_lookup<'a>(section: &'a TomlValue, key: &str) -> (res: Option<&'a TomlValue>)
    ensures
        match res {
            Some(v) => section_get(*section, key@) == Some(*v),
            None => section_get(*section, key@) is None,
        },
{
    match section {
        TomlValue::Table(es) => table_lookup(es, key),
        _ => None,
    }
}


// ---------------------------------------------------------------------------
// The analyzer
// ---------------------------------------------------------------------------

/// The project record made of the metadata of a project with root package
/// `root_pkg`, without its workspace configuration.
pub open spec fn project_fields_of(pm: ProjectMetadata, md: CargoMetadata, root_pkg: CargoPackage) -> bool {
    &&& pm.name@ == root_pkg.name@
    &&& pm.version@ == root_pkg.version@
    &&& opt_view(pm.description) == opt_view(root_pkg.description)
    &&& string_views(pm.authors@) == string_views(root_pkg.authors@)
    &&& opt_view(pm.license) == opt_view(root_pkg.license)
    &&& opt_view(pm.homepage) == opt_view(root_pkg.homepage)
    &&& opt_view(pm.repository) == opt_view(root_pkg.repository)
    &&& pm.packages@.len() == md.packages@.len()
    &&& forall|i: int| 0 <= i < md.packages@.len() ==> package_info_of(#[trigger] pm.packages@[i], md.packages@[i], md.workspace_members@)
    &&& dependency_graph_of(pm.dependencies@, md.packages@)
    &&& targets_view(pm.targets@) == spec_all_targets(md.packages@)
    &&& features_view(pm.features@) == spec_package_features(root_pkg)
    &&& pm.is_workspace == (md.workspace_members@.len() > 1)
    &&& pm.workspace_root@ == md.workspace_root@
}

/// What the analysis of a project's metadata gives: the error that no
/// package was found; else, for a workspace, the workspace manifest's error
/// or the error that it has no `[workspace]` section; else the project record.
pub open spec fn project_result_ok(
    res: Result<ProjectMetadata, AnalyzerError>,
    root: Seq<char>,
    md: CargoMetadata,
    workspace_manifest: Result<String, String>,
) -> bool {
    match spec_root_index(root, md) {
        None => res matches Err(e) && is_invalid_project(e, "No packages found in metadata"@),
        Some(r) => if md.workspace_members@.len() > 1 {
            match workspace_manifest {
                Err(e) => res matches Err(x) && is_config_error(x, "无法读取workspace Cargo.toml: "@ + e@),
                Ok(t) => match spec_parse_toml(t@) {
                    Err(m) => res matches Err(x) && is_config_error(x, "解析workspace Cargo.toml失败: "@ + m),
                    Ok(v) => match spec_workspace_section(v) {
                        None => res matches Err(e) && is_config_error(e, "未找到[workspace]配置段"@),
                        Some(section) => res matches Ok(pm) && project_fields_of(pm, md, md.packages@[r])
                            && (pm.workspace_config matches Some(cfg) && workspace_config_of(cfg, section)),
                    },
                },
            }
        } else {
            res matches Ok(pm) && project_fields_of(pm, md, md.packages@[r]) && pm.workspace_config is None
        },
    }
}

/// The sources of the workspace members: each member's manifest directory.
pub open spec fn spec_member_dirs(ps: Seq<CargoPackage>, members: Seq<String>) -> Seq<Seq<char>>
    decreases ps.len(),
{
    if ps.len() == 0 {
        Seq::empty()
    } else {
        let r = spec_member_dirs(ps.drop_last(), members);
        if is_member(members, ps.last().id@) && spec_parent(ps.last().manifest_path@) is Some {
            r.push(spec_parent(ps.last().manifest_path@)->0)
        } else {
            r
        }
    }
}

/// The targets of a kind.
pub open spec fn spec_targets_with_kind(ts: Seq<CargoTarget>, kind: Seq<char>) -> Seq<(Seq<char>, Seq<Seq<char>>, Seq<char>, bool, Seq<char>)>
    decreases ts.len(),
{
    if ts.len() == 0 {
        Seq::empty()
    } else if string_views(ts.last().kind@).contains(kind) {
        spec_targets_with_kind(ts.drop_last(), kind).push(spec_target_of(ts.last()))
    } else {
        spec_targets_with_kind(ts.drop_last(), kind)
    }
}

/// The targets of a kind among the workspace members, package by package.
pub open spec fn spec_member_targets(ps: Seq<CargoPackage>, members: Seq<String>, kind: Seq<char>) -> Seq<(Seq<char>, Seq<Seq<char>>, Seq<char>, bool, Seq<char>)>
    decreases ps.len(),
{
    if ps.len() == 0 {
        Seq::empty()
    } else if is_member(members, ps.last().id@) {
        spec_member_targets(ps.drop_last(), members, kind) + spec_targets_with_kind(ps.last().targets@, kind)
    } else {
        spec_member_targets(ps.drop_last(), members, kind)
    }
}

/// The first index at or after `i` of a package named `n`.
pub open spec fn index_of_name(ps: Seq<CargoPackage>, n: Seq<char>, i: int) -> Option<int>
    decreases ps.len() - i,
{
    if i < 0 || i >= ps.len() {
        None
    } else if ps[i].name@ == n {
        Some(i)
    } else {
        index_of_name(ps, n, i + 1)
    }
}

/// Whether `id` is among the member ids.
fn member_has(members: &Vec<String>, id: &str) -> (res: bool)
    ensures
        res == is_member(members@, id@),
{
    let r = vec_has(members, id);
    proof {
        if r {
            let i = choose|i: int| 0 <= i < members@.len() && #[trigger] members@[i]@ == id@;
            assert(string_views(members@)[i] == id@);
        }
        if is_member(members@, id@) {
            let i = choose|i: int| 0 <= i < string_views(members@).len() && string_views(members@)[i] == id@;
            assert(members@[i]@ == id@);
        }
    }
    r
}

/// Whether two component lists are equal.
fn same_components(a: &Vec<Vec<char>>, b: &Vec<Vec<char>>) -> (res: bool)
    ensures
        res == (views(a@) == views(b@)),
{
    if a.len() != b.len() {
        proof {
            assert(views(a@).len() != views(b@).len());
        }
        return false;
    }
    let mut i: usize = 0;
    while i < a.len()
        invariant
            i <= a.len(),
            a.len() == b.len(),
            forall|k: int| 0 <= k < i ==> a@[k]@ == b@[k]@,
        decreases a.len() - i,
    {
        if !crate::text::seq_eq(a[i].as_slice(), b[i].as_slice()) {
            proof {
                assert(views(a@)[i as int] != views(b@)[i as int]);
            }
            return false;
        }
        i = i + 1;
    }
    proof {
        assert(views(a@) =~= views(b@));
    }
    true
}

/// Reads what `cargo metadata` reports of a project into the analysis's own
/// records.
pub struct CargoAnalyzer {
    project_root: String,
    metadata: Option<CargoMetadata>,
}

impl CargoAnalyzer {
    pub closed spec fn root(&self) -> Seq<char> {
        self.project_root@
    }

    /// The metadata of the last analysis, if any.
    pub closed spec fn loaded(&self) -> Option<CargoMetadata> {
        self.metadata
    }

    /// An analyzer of the project at `project_root`; `has_manifest` tells
    /// whether a `Cargo.toml` is there.
    pub fn new(project_root: &str, has_manifest: bool) -> (res: Result<Self, AnalyzerError>)
        ensures
            has_manifest ==> (res matches Ok(a) && a.root() == project_root@ && a.loaded() is None),
            !has_manifest ==> (res matches Err(e) && is_invalid_project(e, "Cargo.toml not found in "@ + project_root@)),
    {
        if !has_manifest {
            return Err(AnalyzerError::invalid_project(concat("Cargo.toml not found in ", project_root)));
        }
        Ok(CargoAnalyzer { project_root: to_string(project_root), metadata: None })
    }

    /// Takes the metadata that `cargo metadata` reported (and, for a
    /// workspace, what its root manifest holds), keeps it, and builds the
    /// project record from it.
    pub fn analyze(&mut self, metadata: CargoMetadata, workspace_manifest: Result<String, String>) -> (res: Result<ProjectMetadata, AnalyzerError>)
        ensures
            final(self).root() == old(self).root(),
            final(self).loaded() == Some(metadata),
            project_result_ok(res, old(self).root(), metadata, workspace_manifest),
    {
        let res = self.parse_project_metadata(&metadata, workspace_manifest);
        self.metadata = Some(metadata);
        res
    }

    fn parse_project_metadata(&self, metadata: &CargoMetadata, workspace_manifest: Result<String, String>) -> (res: Result<ProjectMetadata, AnalyzerError>)
        ensures
            project_result_ok(res, self.root(), *metadata, workspace_manifest),
    {
        let root_package = match self.find_root_package(metadata) {
            Ok(p) => p,
            Err(e) => return Err(e),
        };
        let ghost r = spec_root_index(self.root(), *metadata)->0;
        let packages = match self.parse_packages(metadata) {
            Ok(p) => p,
            Err(e) => return Err(e),
        };
        let dependencies = match self.parse_dependencies(metadata) {
            Ok(d) => d,
            Err(e) => return Err(e),
        };
        let targets = match self.parse_targets(metadata) {
            Ok(t) => t,
            Err(e) => return Err(e),
        };
        let features = self.parse_features(root_package);
        let is_workspace = metadata.workspace_members.len() > 1;
        let workspace_config = if is_workspace {
            match self.parse_workspace_config(workspace_manifest) {
                Ok(c) => Some(c),
                Err(e) => return Err(e),
            }
        } else {
            None
        };
        Ok(ProjectMetadata {
            name: root_package.name.clone(),
            version: root_package.version.clone(),
            description: crate::text::copy_opt(&root_package.description),
            authors: copy_strings(&root_package.authors),
            license: crate::text::copy_opt(&root_package.license),
            homepage: crate::text::copy_opt(&root_package.homepage),
            repository: crate::text::copy_opt(&root_package.repository),
            packages,
            dependencies,
            targets,
            features,
            is_workspace,
            workspace_root: metadata.workspace_root.clone(),
            workspace_config,
        })
    }

    /// The root package: the one whose manifest is `Cargo.toml` in the
    /// project root, else the first workspace member, else the first package.
    fn find_root_package<'a>(&self, metadata: &'a CargoMetadata) -> (res: Result<&'a CargoPackage, AnalyzerError>)
        ensures
            match spec_root_index(self.root(), *metadata) {
                Some(i) => res matches Ok(p) && *p == metadata.packages@[i],
                None => res matches Err(e) && is_invalid_project(e, "No packages found in metadata"@),
            },
    {
        let ps = &metadata.packages;
        let cargo_toml = path_join(self.project_root.as_str(), "Cargo.toml");
        let target = components(cargo_toml.as_str());
        let ghost tc = spec_components(spec_path_join(self.root(), "Cargo.toml"@));
        let mut i: usize = 0;
        while i < ps.len()
            invariant
                i <= ps.len(),
                *ps == metadata.packages,
                tc == spec_components(spec_path_join(self.root(), "Cargo.toml"@)),
                views(target@) == tc,
                index_of_manifest(ps@, tc, 0) == index_of_manifest(ps@, tc, i as int),
            decreases ps.len() - i,
        {
            let mc = components(ps[i].manifest_path.as_str());
            if same_components(&mc, &target) {
                assert(index_of_manifest(ps@, tc, i as int) == Some(i as int));
                return Ok(&ps[i]);
            }
            i = i + 1;
        }
        if metadata.workspace_members.len() > 0 {
            let member_id = &metadata.workspace_members[0];
            let mut k: usize = 0;
            while k < ps.len()
                invariant
                    k <= ps.len(),
                    *ps == metadata.packages,
                    metadata.workspace_members@.len() > 0,
                    *member_id == metadata.workspace_members@[0],
                    tc == spec_components(spec_path_join(self.root(), "Cargo.toml"@)),
                    index_of_manifest(ps@, tc, 0) is None,
                    index_of_id(ps@, member_id@, 0) == index_of_id(ps@, member_id@, k as int),
                decreases ps.len() - k,
            {
                if str_eq(ps[k].id.as_str(), member_id.as_str()) {
                    assert(index_of_id(ps@, member_id@, k as int) == Some(k as int));
                    return Ok(&ps[k]);
                }
                k = k + 1;
            }
        }
        if ps.len() > 0 {
            Ok(&ps[0])
        } else {
            Err(AnalyzerError::invalid_project(to_string("No packages found in metadata")))
        }
    }

    /// The package records, one for each package that cargo reports.
    fn parse_packages(&self, metadata: &CargoMetadata) -> (res: Result<Vec<PackageInfo>, AnalyzerError>)
        ensures
            res matches Ok(v) && v@.len() == metadata.packages@.len()
                && forall|i: int| 0 <= i < v@.len() ==> package_info_of(#[trigger] v@[i], metadata.packages@[i], metadata.workspace_members@),
    {
        let mut packages: Vec<PackageInfo> = Vec::new();
        let mut i: usize = 0;
        while i < metadata.packages.len()
            invariant
                i <= metadata.packages.len(),
                packages@.len() == i,
                forall|k: int| 0 <= k < i ==> package_info_of(#[trigger] packages@[k], metadata.packages@[k], metadata.workspace_members@),
            decreases metadata.packages.len() - i,
        {
            let package = &metadata.packages[i];
            let is_workspace_member = member_has(&metadata.workspace_members, package.id.as_str());
            let dependencies = self.parse_package_dependencies(package);
            let targets = self.parse_package_targets(package);
            let features = self.parse_features(package);
            let source_path = match parent_path(package.manifest_path.as_str()) {
                Some(p) => p,
                None => package.manifest_path.clone(),
            };
            packages.push(PackageInfo {
                name: package.name.clone(),
                version: package.version.clone(),
                manifest_path: package.manifest_path.clone(),
                source_path,
                dependencies,
                targets,
                features,
                is_workspace_member,
            });
            i = i + 1;
        }
        Ok(packages)
    }

    /// The dependency records of a package.
    fn parse_package_dependencies(&self, package: &CargoPackage) -> (res: Vec<DependencyInfo>)
        ensures
            deps_view(res@) == spec_package_dependencies(*package),
    {
        let mut dependencies: Vec<DependencyInfo> = Vec::new();
        let mut i: usize = 0;
        while i < package.dependencies.len()
            invariant
                i <= package.dependencies.len(),
                deps_view(dependencies@) == spec_package_dependencies(*package).take(i as int),
            decreases package.dependencies.len() - i,
        {
            let dependency = &package.dependencies[i];
            let kind = match dependency.kind {
                DependencyKind::Normal => "normal",
                DependencyKind::Development => "dev",
                DependencyKind::Build => "build",
                _ => "unknown",
            };
            let ghost before = dependencies@;
            dependencies.push(DependencyInfo {
                name: dependency.name.clone(),
                version_req: dependency.req.clone(),
                version: None,
                kind: to_string(kind),
                optional: dependency.optional,
                features: copy_strings(&dependency.features),
                source: crate::text::copy_opt(&dependency.source),
            });
            proof {
                assert(deps_view(dependencies@) =~= deps_view(before).push(dep_view(dependencies@.last())));
                assert(spec_package_dependencies(*package).take(i + 1) =~= spec_package_dependencies(*package).take(i as int).push(spec_dependency_of(*dependency)));
            }
            i = i + 1;
        }
        proof {
            assert(spec_package_dependencies(*package).take(package.dependencies@.len() as int) =~= spec_package_dependencies(*package));
        }
        dependencies
    }

    /// The target records of a package.
    fn parse_package_targets(&self, package: &CargoPackage) -> (res: Vec<TargetInfo>)
        ensures
            targets_view(res@) == spec_package_targets(*package),
    {
        let mut targets: Vec<TargetInfo> = Vec::new();
        let mut i: usize = 0;
        while i < package.targets.len()
            invariant
                i <= package.targets.len(),
                targets_view(targets@) == spec_package_targets(*package).take(i as int),
            decreases package.targets.len() - i,
        {
            let target = &package.targets[i];
            let ghost before = targets@;
            targets.push(TargetInfo {
                name: target.name.clone(),
                kind: copy_strings(&target.kind),
                src_path: target.src_path.clone(),
                doctest: target.doctest,
                edition: target.edition.clone(),
            });
            proof {
                assert(targets_view(targets@) =~= targets_view(before).push(target_view(targets@.last())));
                assert(spec_package_targets(*package).take(i + 1) =~= spec_package_targets(*package).take(i as int).push(spec_target_of(*target)));
            }
            i = i + 1;
        }
        proof {
            assert(spec_package_targets(*package).take(package.targets@.len() as int) =~= spec_package_targets(*package));
        }
        targets
    }

    /// For each package name, in order of first appearance, the dependencies
    /// of the last package of that name.
    fn parse_dependencies(&self, metadata: &CargoMetadata) -> (res: Result<Vec<PackageDependencies>, AnalyzerError>)
        ensures
            res matches Ok(g) && dependency_graph_of(g@, metadata.packages@),
    {
        let ps = &metadata.packages;
        let mut last_index: StringMap<usize> = StringMap::new();
        let mut i: usize = 0;
        proof {
            assert(ps@.take(0) =~= Seq::<CargoPackage>::empty());
        }
        while i < ps.len()
            invariant
                last_index.wf(),
                i <= ps.len(),
                last_index.key_seq() == distinct_names(ps@.take(i as int)),
                forall|k: Seq<char>| #[trigger] last_index.lookup(k) == match last_named(ps@.take(i as int), k) {
                    Some(j) => Some(j as usize),
                    None => None::<usize>,
                },
            decreases ps.len() - i,
        {
            proof {
                assert(ps@.take(i + 1).drop_last() =~= ps@.take(i as int));
                assert(ps@.take(i + 1).last() == ps@[i as int]);
                last_index.lemma_lookup_key(ps@[i as int].name@);
                lemma_last_named_some(ps@.take(i as int), ps@[i as int].name@);
                lemma_distinct_names(ps@.take(i as int), ps@[i as int].name@);
            }
            last_index.insert(ps[i].name.clone(), i);
            i = i + 1;
        }
        proof {
            assert(ps@.take(ps@.len() as int) =~= ps@);
        }
        let names = last_index.keys();
        let ghost dn = distinct_names(ps@);
        let mut graph: Vec<PackageDependencies> = Vec::new();
        let mut j: usize = 0;
        while j < names.len()
            invariant
                last_index.wf(),
                j <= names.len(),
                names@.map_values(|s: String| s@) == dn,
                dn == distinct_names(ps@),
                last_index.key_seq() == dn,
                forall|k: Seq<char>| #[trigger] last_index.lookup(k) == match last_named(ps@, k) {
                    Some(x) => Some(x as usize),
                    None => None::<usize>,
                },
                graph@.len() == j,
                forall|t: int| 0 <= t < j ==> {
                    &&& (#[trigger] graph@[t]).package@ == dn[t]
                    &&& last_named(ps@, graph@[t].package@) matches Some(x)
                        && deps_view(graph@[t].dependencies@) == spec_package_dependencies(ps@[x])
                },
            decreases names.len() - j,
        {
            let name = &names[j];
            proof {
                assert(dn[j as int] == name@);
                assert(dn.contains(name@));
                last_index.lemma_lookup_key(name@);
                lemma_last_named_bound(ps@, name@);
            }
            assert(last_index.lookup(name@) is Some);
            assert(last_named(ps@, name@) is Some);
            let ghost x0 = last_named(ps@, name@)->0;
            assert(0 <= x0 < ps@.len());
            let n_ps = ps.len();
            assert(x0 < n_ps);
            assert((x0 as usize) as int == x0);
            assert(last_index.lookup(name@) == Some(x0 as usize));
            let k = match last_index.get(name.as_str()) {
                Some(x) => *x,
                None => 0,
            };
            assert(k == x0 as usize);
            assert(last_named(ps@, name@) == Some(k as int));
            let deps = self.parse_package_dependencies(&ps[k]);
            let ghost before = graph@;
            graph.push(PackageDependencies { package: name.clone(), dependencies: deps });
            proof {
                assert(graph@[j as int].package@ == dn[j as int]);
                assert forall|t: int| 0 <= t < j + 1 implies {
                    &&& (#[trigger] graph@[t]).package@ == dn[t]
                    &&& last_named(ps@, graph@[t].package@) matches Some(x)
                        && deps_view(graph@[t].dependencies@) == spec_package_dependencies(ps@[x])
                } by {
                    if t < j {
                        assert(graph@[t] == before[t]);
                    }
                }
            }
            j = j + 1;
        }
        Ok(graph)
    }

    /// The targets of all packages, package by package.
    fn parse_targets(&self, metadata: &CargoMetadata) -> (res: Result<Vec<TargetInfo>, AnalyzerError>)
        ensures
            res matches Ok(v) && targets_view(v@) == spec_all_targets(metadata.packages@),
    {
        let ps = &metadata.packages;
        let mut targets: Vec<TargetInfo> = Vec::new();
        let mut i: usize = 0;
        proof {
            assert(ps@.take(0) =~= Seq::<CargoPackage>::empty());
            assert(targets_view(targets@) =~= Seq::empty());
        }
        while i < ps.len()
            invariant
                i <= ps.len(),
                targets_view(targets@) == spec_all_targets(ps@.take(i as int)),
            decreases ps.len() - i,
        {
            proof {
                assert(ps@.take(i + 1).drop_last() =~= ps@.take(i as int));
                assert(ps@.take(i + 1).last() == ps@[i as int]);
            }
            let mut package_targets = self.parse_package_targets(&ps[i]);
            let ghost a = targets@;
            let ghost b = package_targets@;
            targets.append(&mut package_targets);
            proof {
                assert(targets_view(targets@) =~= targets_view(a) + targets_view(b));
            }
            i = i + 1;
        }
        proof {
            assert(ps@.take(ps@.len() as int) =~= ps@);
        }
        Ok(targets)
    }

    /// The feature records of a package.
    fn parse_features(&self, package: &CargoPackage) -> (res: Vec<FeatureInfo>)
        ensures
            features_view(res@) == spec_package_features(*package),
    {
        let mut features: Vec<FeatureInfo> = Vec::new();
        let mut i: usize = 0;
        while i < package.features.len()
            invariant
                i <= package.features.len(),
                features_view(features@) == spec_package_features(*package).take(i as int),
            decreases package.features.len() - i,
        {
            let ghost before = features@;
            features.push(FeatureInfo {
                name: package.features[i].0.clone(),
                enables: copy_strings(&package.features[i].1),
            });
            proof {
                assert(features_view(features@) =~= features_view(before).push(feature_view(features@.last())));
                assert(spec_package_features(*package).take(i + 1) =~= spec_package_features(*package).take(i as int).push(spec_package_features(*package)[i as int]));
            }
            i = i + 1;
        }
        proof {
            assert(spec_package_features(*package).take(package.features@.len() as int) =~= spec_package_features(*package));
        }
        features
    }
}

impl CargoAnalyzer {
    /// The `[workspace]` record of the workspace manifest, from its text
    /// (`Err` when the file could not be read, with the reason): the error
    /// that it could not be read or parsed as TOML, or what
    /// `workspace_config_from_manifest` gives for the parsed value.
    pub fn parse_workspace_config(&self, manifest_text: Result<String, String>) -> (res: Result<WorkspaceConfig, AnalyzerError>)
        ensures
            workspace_text_result_ok(res, manifest_text),
    {
        match manifest_text {
            Err(e) => Err(AnalyzerError::config_error(concat("无法读取workspace Cargo.toml: ", e.as_str()))),
            Ok(t) => match parse_toml(t.as_str()) {
                Err(m) => Err(AnalyzerError::config_error(concat("解析workspace Cargo.toml失败: ", m.as_str()))),
                Ok(v) => self.workspace_config_from_manifest(v),
            },
        }
    }

    /// The `[workspace]` record of a parsed workspace manifest: its members
    /// and excluded paths, its dependencies in manifest order, and its
    /// metadata table.
    pub fn workspace_config_from_manifest(&self, workspace_manifest: TomlValue) -> (res: Result<WorkspaceConfig, AnalyzerError>)
        ensures
            workspace_result_ok(res, workspace_manifest),
    {
        let ghost manifest = workspace_manifest;
        let mut top = match workspace_manifest {
            TomlValue::Table(top) => top,
            _ => return Err(AnalyzerError::config_error(to_string("未找到[workspace]配置段"))),
        };
        let w = match table_index(&top, "workspace") {
            Some(w) => w,
            None => return Err(AnalyzerError::config_error(to_string("未找到[workspace]配置段"))),
        };
        let entry = top.remove(w);
        let workspace_section = entry.value;
        let ghost section = workspace_section;
        assert(spec_workspace_section(manifest) == Some(section));
        let members = array_strings_of(section_lookup(&workspace_section, "members"));
        let exclude = array_strings_of(section_lookup(&workspace_section, "exclude"));
        let mut workspace_dependencies: Vec<DependencyInfo> = Vec::new();
        match section_lookup(&workspace_section, "dependencies") {
            Some(TomlValue::Table(deps)) => {
                let mut i: usize = 0;
                while i < deps.len()
                    invariant
                        i <= deps.len(),
                        deps_view(workspace_dependencies@) == deps@.map_values(|e: TomlEntry| spec_ws_dependency(e.key@, e.value)).take(i as int),
                    decreases deps.len() - i,
                {
                    let dependency = match self.parse_workspace_dependency(deps[i].key.as_str(), &deps[i].value) {
                        Ok(d) => d,
                        Err(e) => return Err(e),
                    };
                    let ghost before = workspace_dependencies@;
                    workspace_dependencies.push(dependency);
                    proof {
                        assert(deps_view(workspace_dependencies@) =~= deps_view(before).push(dep_view(workspace_dependencies@.last())));
                        assert(deps@.map_values(|e: TomlEntry| spec_ws_dependency(e.key@, e.value)).take(i + 1)
                            =~= deps@.map_values(|e: TomlEntry| spec_ws_dependency(e.key@, e.value)).take(i as int).push(spec_ws_dependency(deps@[i as int].key@, deps@[i as int].value)));
                    }
                    i = i + 1;
                }
                proof {
                    assert(deps@.map_values(|e: TomlEntry| spec_ws_dependency(e.key@, e.value)).take(deps@.len() as int)
                        =~= deps@.map_values(|e: TomlEntry| spec_ws_dependency(e.key@, e.value)));
                }
            },
            _ => {
                proof {
                    assert(deps_view(workspace_dependencies@) =~= Seq::empty());
                }
            },
        }
        let metadata: Vec<TomlEntry> = match workspace_section {
            TomlValue::Table(mut es) => match table_index(&es, "metadata") {
                Some(m) => {
                    let e = es.remove(m);
                    match e.value {
                        TomlValue::Table(meta) => meta,
                        _ => Vec::new(),
                    }
                },
                None => Vec::new(),
            },
            _ => Vec::new(),
        };
        Ok(WorkspaceConfig { members, exclude, dependencies: workspace_dependencies, metadata })
    }

    /// The record of one workspace dependency.
    fn parse_workspace_dependency(&self, name: &str, dep_info: &TomlValue) -> (res: Result<DependencyInfo, AnalyzerError>)
        ensures
            res matches Ok(d) && dep_view(d) == spec_ws_dependency(name@, *dep_info),
    {
        let version = match dep_info {
            TomlValue::String(s) => s.clone(),
            TomlValue::Table(t) => match table_lookup(t, "version") {
                Some(TomlValue::String(s)) => s.clone(),
                _ => to_string("*"),
            },
            _ => to_string("*"),
        };
        let source = match dep_info {
            TomlValue::Table(t) => if table_lookup(t, "path").is_some() {
                to_string("path")
            } else if table_lookup(t, "git").is_some() {
                to_string("git")
            } else {
                to_string("registry")
            },
            _ => to_string("registry"),
        };
        let optional = match dep_info {
            TomlValue::Table(t) => match table_lookup(t, "optional") {
                Some(TomlValue::Boolean(b)) => *b,
                _ => false,
            },
            _ => false,
        };
        let features = match dep_info {
            TomlValue::Table(t) => array_strings_of(table_lookup(t, "features")),
            _ => {
                let v: Vec<String> = Vec::new();
                proof {
                    assert(string_views(v@) =~= Seq::empty());
                }
                v
            },
        };
        Ok(DependencyInfo {
            name: to_string(name),
            version_req: version.clone(),
            version: Some(version),
            kind: to_string("normal"),
            optional,
            features,
            source: Some(source),
        })
    }

    /// The source directories of the workspace members; the project root
    /// where there are none.
    pub fn get_source_directories(&self) -> (res: Result<Vec<String>, AnalyzerError>)
        ensures
            match self.loaded() {
                None => res matches Err(e) && is_config_error(e, "Metadata not loaded"@),
                Some(md) => res matches Ok(v) && string_views(v@) == (
                    if spec_member_dirs(md.packages@, md.workspace_members@).len() == 0 {
                        seq![self.root()]
                    } else {
                        spec_member_dirs(md.packages@, md.workspace_members@)
                    }),
            },
            res matches Ok(v) ==> v@.len() > 0,
    {
        let metadata = match &self.metadata {
            Some(m) => m,
            None => return Err(AnalyzerError::config_error(to_string("Metadata not loaded"))),
        };
        let ps = &metadata.packages;
        let mut source_dirs: Vec<String> = Vec::new();
        let mut i: usize = 0;
        proof {
            assert(ps@.take(0) =~= Seq::<CargoPackage>::empty());
            assert(string_views(source_dirs@) =~= Seq::empty());
        }
        while i < ps.len()
            invariant
                i <= ps.len(),
                string_views(source_dirs@) == spec_member_dirs(ps@.take(i as int), metadata.workspace_members@),
            decreases ps.len() - i,
        {
            proof {
                assert(ps@.take(i + 1).drop_last() =~= ps@.take(i as int));
                assert(ps@.take(i + 1).last() == ps@[i as int]);
            }
            if member_has(&metadata.workspace_members, ps[i].id.as_str()) {
                match parent_path(ps[i].manifest_path.as_str()) {
                    Some(parent) => {
                        let ghost before = source_dirs@;
                        source_dirs.push(parent);
                        proof {
                            lemma_string_views_push(before, source_dirs@.last());
                        }
                    },
                    None => {},
                }
            }
            i = i + 1;
        }
        proof {
            assert(ps@.take(ps@.len() as int) =~= ps@);
        }
        if source_dirs.len() == 0 {
            let mut v: Vec<String> = Vec::new();
            v.push(self.project_root.clone());
            proof {
                assert(string_views(v@) =~= seq![self.root()]);
            }
            return Ok(v);
        }
        Ok(source_dirs)
    }

    /// Whether the first package named `package_name` is a workspace member;
    /// false where there is none or no metadata was loaded.
    pub fn should_include_package(&self, package_name: &str) -> (res: bool)
        ensures
            res == match self.loaded() {
                None => false,
                Some(md) => match index_of_name(md.packages@, package_name@, 0) {
                    Some(i) => is_member(md.workspace_members@, md.packages@[i].id@),
                    None => false,
                },
            },
    {
        match &self.metadata {
            Some(metadata) => {
                let ps = &metadata.packages;
                let mut i: usize = 0;
                while i < ps.len()
                    invariant
                        i <= ps.len(),
                        self.loaded() == Some(*metadata),
                        *ps == metadata.packages,
                        index_of_name(ps@, package_name@, 0) == index_of_name(ps@, package_name@, i as int),
                    decreases ps.len() - i,
                {
                    if str_eq(ps[i].name.as_str(), package_name) {
                        assert(index_of_name(ps@, package_name@, i as int) == Some(i as int));
                        return member_has(&metadata.workspace_members, ps[i].id.as_str());
                    }
                    i = i + 1;
                }
                false
            },
            None => false,
        }
    }

    /// The targets of the workspace members that have the kind `kind`.
    pub fn get_targets_by_kind(&self, kind: &str) -> (res: Result<Vec<TargetInfo>, AnalyzerError>)
        ensures
            match self.loaded() {
                None => res matches Err(e) && is_config_error(e, "Metadata not loaded"@),
                Some(md) => res matches Ok(v) && targets_view(v@) == spec_member_targets(md.packages@, md.workspace_members@, kind@),
            },
    {
        let metadata = match &self.metadata {
            Some(m) => m,
            None => return Err(AnalyzerError::config_error(to_string("Metadata not loaded"))),
        };
        let ps = &metadata.packages;
        let mut targets: Vec<TargetInfo> = Vec::new();
        let mut i: usize = 0;
        proof {
            assert(ps@.take(0) =~= Seq::<CargoPackage>::empty());
            assert(targets_view(targets@) =~= Seq::empty());
        }
        while i < ps.len()
            invariant
                i <= ps.len(),
                targets_view(targets@) == spec_member_targets(ps@.take(i as int), metadata.workspace_members@, kind@),
            decreases ps.len() - i,
        {
            proof {
                assert(ps@.take(i + 1).drop_last() =~= ps@.take(i as int));
                assert(ps@.take(i + 1).last() == ps@[i as int]);
            }
            if member_has(&metadata.workspace_members, ps[i].id.as_str()) {
                let ts = &ps[i].targets;
                let ghost base = targets@;
                let mut k: usize = 0;
                proof {
                    assert(ts@.take(0) =~= Seq::<CargoTarget>::empty());
                    assert(targets_view(targets@) =~= targets_view(base) + spec_targets_with_kind(ts@.take(0), kind@));
                }
                while k < ts.len()
                    invariant
                        k <= ts.len(),
                        targets_view(targets@) == targets_view(base) + spec_targets_with_kind(ts@.take(k as int), kind@),
                    decreases ts.len() - k,
                {
                    proof {
                        assert(ts@.take(k + 1).drop_last() =~= ts@.take(k as int));
                        assert(ts@.take(k + 1).last() == ts@[k as int]);
                    }
                    if member_has(&ts[k].kind, kind) {
                        let target = &ts[k];
                        let ghost before = targets@;
                        targets.push(TargetInfo {
                            name: target.name.clone(),
                            kind: copy_strings(&target.kind),
                            src_path: target.src_path.clone(),
                            doctest: target.doctest,
                            edition: target.edition.clone(),
                        });
                        proof {
                            assert(targets_view(targets@) =~= targets_view(before).push(spec_target_of(*target)));
                        }
                    }
                    k = k + 1;
                }
                proof {
                    assert(ts@.take(ts@.len() as int) =~= ts@);
                }
            }
            i = i + 1;
        }
        proof {
            assert(ps@.take(ps@.len() as int) =~= ps@);
        }
        Ok(targets)
    }
}

proof fn lemma_last_named_some(ps: Seq<CargoPackage>, n: Seq<char>)
    ensures
        last_named(ps, n) matches Some(j) ==> 0 <= j < ps.len() && ps[j].name@ == n,
    decreases ps.len(),
{
    if ps.len() > 0 && ps.last().name@ != n {
        lemma_last_named_some(ps.drop_last(), n);
    }
}

proof fn lemma_last_named_bound(ps: Seq<CargoPackage>, n: Seq<char>)
    ensures
        last_named(ps, n) matches Some(j) ==> 0 <= j < ps.len(),
        distinct_names(ps).contains(n) ==> last_named(ps, n) is Some,
    decreases ps.len(),
{
    lemma_last_named_some(ps, n);
    if ps.len() > 0 {
        lemma_last_named_bound(ps.drop_last(), n);
        if distinct_names(ps).contains(n) && ps.last().name@ != n {
            let d = distinct_names(ps.drop_last());
            if !d.contains(ps.last().name@) {
                let k = choose|k: int| 0 <= k < d.push(ps.last().name@).len() && #[trigger] d.push(ps.last().name@)[k] == n;
                assert(k < d.len());
                assert(d[k] == n);
            }
        }
    }
}

/// The names of the first packages, as the map of last indices holds them.
proof fn lemma_distinct_names(ps: Seq<CargoPackage>, n: Seq<char>)
    ensures
        distinct_names(ps).contains(n) <==> last_named(ps, n) is Some,
    decreases ps.len(),
{
    if ps.len() > 0 {
        lemma_distinct_names(ps.drop_last(), n);
        let d = distinct_names(ps.drop_last());
        if ps.last().name@ == n {
            if !d.contains(n) {
                assert(d.push(n)[d.len() as int] == n);
            }
        } else {
            if !d.contains(ps.last().name@) {
                if d.push(ps.last().name@).contains(n) {
                    let k = choose|k: int| 0 <= k < d.push(ps.last().name@).len() && #[trigger] d.push(ps.last().name@)[k] == n;
                    assert(d[k] == n);
                }
                if d.contains(n) {
                    let k = choose|k: int| 0 <= k < d.len() && #[trigger] d[k] == n;
                    assert(d.push(ps.last().name@)[k] == n);
                }
            }
        }
    }
}


// ---------------------------------------------------------------------------
// Copies
// ---------------------------------------------------------------------------

/// Two TOML values hold the same data: equal texts, numbers and flags, and
/// arrays and tables whose items are the same, in the same order.
pub open spec fn toml_same(a: TomlValue, b: TomlValue) -> bool
    decreases a,
{
    match a {
        TomlValue::String(x) => b matches TomlValue::String(y) && x@ == y@,
        TomlValue::Integer(x) => b == TomlValue::Integer(x),
        TomlValue::Float(x) => b matches TomlValue::Float(y) && x@ == y@,
        TomlValue::Boolean(x) => b == TomlValue::Boolean(x),
        TomlValue::Datetime(x) => b matches TomlValue::Datetime(y) && x@ == y@,
        TomlValue::Array(xs) => b matches TomlValue::Array(ys) && xs@.len() == ys@.len() && forall|i: int|
            0 <= i < xs@.len() ==> toml_same(#[trigger] xs@[i], ys@[i]),
        TomlValue::Table(es) => b matches TomlValue::Table(fs) && es@.len() == fs@.len() && forall|i: int|
            0 <= i < es@.len() ==> (#[trigger] es@[i]).key@ == fs@[i].key@ && toml_same(es@[i].value, fs@[i].value),
    }
}

/// A copy of a TOML value.
pub fn copy_toml(v: &TomlValue) -> (res: TomlValue)
    ensures
        toml_same(*v, res),
    decreases v,
{
    match v {
        TomlValue::String(s) => TomlValue::String(s.clone()),
        TomlValue::Integer(i) => TomlValue::Integer(*i),
        TomlValue::Float(s) => TomlValue::Float(s.clone()),
        TomlValue::Boolean(b) => TomlValue::Boolean(*b),
        TomlValue::Datetime(s) => TomlValue::Datetime(s.clone()),
        TomlValue::Array(items) => {
            let mut out: Vec<TomlValue> = Vec::new();
            let mut i: usize = 0;
            while i < items.len()
                invariant
                    i <= items.len(),
                    *v == TomlValue::Array(*items),
                    out@.len() == i,
                    forall|k: int| 0 <= k < i ==> toml_same(#[trigger] items@[k], out@[k]),
                decreases items.len() - i,
            {
                proof {
                    let tv = *v;
                    let iv = *items;
                    assert(decreases_to!(tv => tv->Array_0));
                    assert(decreases_to!(iv => iv@));
                    assert(decreases_to!(iv@ => iv@[i as int]));
                }
                out.push(copy_toml(&items[i]));
                i = i + 1;
            }
            TomlValue::Array(out)
        },
        TomlValue::Table(entries) => {
            let mut out: Vec<TomlEntry> = Vec::new();
            let mut i: usize = 0;
            while i < entries.len()
                invariant
                    i <= entries.len(),
                    *v == TomlValue::Table(*entries),
                    out@.len() == i,
                    forall|k: int| 0 <= k < i ==> (#[trigger] entries@[k]).key@ == out@[k].key@ && toml_same(entries@[k].value, out@[k].value),
                decreases entries.len() - i,
            {
                proof {
                    let tv = *v;
                    let ev = *entries;
                    assert(decreases_to!(tv => tv->Table_0));
                    assert(decreases_to!(ev => ev@));
                    assert(decreases_to!(ev@ => ev@[i as int]));
                    assert(decreases_to!(ev@[i as int] => ev@[i as int].value));
                }
                out.push(TomlEntry { key: entries[i].key.clone(), value: copy_toml(&entries[i].value) });
                i = i + 1;
            }
            TomlValue::Table(out)
        },
    }
}

/// A copy of the entries of a table.
fn copy_entries(es: &Vec<TomlEntry>) -> (res: Vec<TomlEntry>)
    ensures
        res@.len() == es@.len(),
        forall|k: int| 0 <= k < es@.len() ==> (#[trigger] es@[k]).key@ == res@[k].key@ && toml_same(es@[k].value, res@[k].value),
{
    let mut out: Vec<TomlEntry> = Vec::new();
    let mut i: usize = 0;
    while i < es.len()
        invariant
            i <= es.len(),
            out@.len() == i,
            forall|k: int| 0 <= k < i ==> (#[trigger] es@[k]).key@ == out@[k].key@ && toml_same(es@[k].value, out@[k].value),
        decreases es.len() - i,
    {
        out.push(TomlEntry { key: es[i].key.clone(), value: copy_toml(&es[i].value) });
        i = i + 1;
    }
    out
}

impl ProjectMetadata {
    /// A copy of the project record.
    pub fn copy(&self) -> (res: Self)
        ensures
            res.name@ == self.name@,
            res.version@ == self.version@,
            res.description == self.description,
            res.authors@ == self.authors@,
            res.license == self.license,
            res.homepage == self.homepage,
            res.repository == self.repository,
            res.packages@.len() == self.packages@.len(),
            res.is_workspace == self.is_workspace,
            res.workspace_root@ == self.workspace_root@,
            match (res.workspace_config, self.workspace_config) {
                (Some(a), Some(b)) => {
                    &&& a.members@ == b.members@
                    &&& a.exclude@ == b.exclude@
                    &&& a.metadata@.len() == b.metadata@.len()
                    &&& forall|k: int| 0 <= k < b.metadata@.len() ==> (#[trigger] b.metadata@[k]).key@ == a.metadata@[k].key@
                        && toml_same(b.metadata@[k].value, a.metadata@[k].value)
                },
                (None, None) => true,
                _ => false,
            },
    {
        let workspace_config = match &self.workspace_config {
            Some(c) => Some(WorkspaceConfig {
                members: copy_strings(&c.members),
                exclude: copy_strings(&c.exclude),
                dependencies: c.dependencies.clone(),
                metadata: copy_entries(&c.metadata),
            }),
            None => None,
        };
        ProjectMetadata {
            name: self.name.clone(),
            version: self.version.clone(),
            description: crate::text::copy_opt(&self.description),
            authors: copy_strings(&self.authors),
            license: crate::text::copy_opt(&self.license),
            homepage: crate::text::copy_opt(&self.homepage),
            repository: crate::text::copy_opt(&self.repository),
            packages: self.packages.clone(),
            dependencies: self.dependencies.clone(),
            targets: self.targets.clone(),
            features: self.features.clone(),
            is_workspace: self.is_workspace,
            workspace_root: self.workspace_root.clone(),
            workspace_config,
        }
    }
}


/// A workspace dependency's version requirement is its version, and its
/// source is one of `path`, `git` or `registry`.
pub proof fn lemma_ws_dependency_shape(name: Seq<char>, v: TomlValue)
    ensures
        spec_ws_dependency(name, v).2 == Some(spec_ws_dependency(name, v).1),
        spec_ws_dependency(name, v).3 == "normal"@,
        spec_ws_dependency(name, v).6 == Some("path"@) || spec_ws_dependency(name, v).6 == Some("git"@)
            || spec_ws_dependency(name, v).6 == Some("registry"@),
{
}

} // verus!
