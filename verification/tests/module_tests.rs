use rust_code_analyzer::cargo_doc_integration::{
    find_item_source_location_in_html, parse_html_content, CargoDocIntegrator, HtmlFile, SourceItemKind,
};
use rust_code_analyzer::cargo_integration::{
    CargoAnalyzer, CargoDependency, CargoMetadata, CargoPackage, CargoTarget, DependencyKind, TomlEntry, TomlValue,
};
use rust_code_analyzer::analyzer::RustAnalyzer;
use rust_code_analyzer::doc_analyzer::DocAnalyzer;
use rust_code_analyzer::doc_output::DocOutputGenerator;
use rust_code_analyzer::function_analyzer::FunctionAnalyzer;
use rust_code_analyzer::output::{AnalysisStatistics, AttributeInfo, MethodOutput, OutputGenerator, StructOutput};
use rust_code_analyzer::semantic_analyzer::{
    AsyncErrorHandling, AsyncFunction, CallGraph, CallType, FunctionSignature, InferredType, MacroExpander,
    QuotedExpansions, ScopeType, SemanticAnalyzer, SourceLocation, TraitResolver, TypeInferenceContext,
};
use rust_code_analyzer::syntax::{
    BodyEvent, Expr, FnArg, FnItem, ImplItem, Item, LitKind, Pat, PathArguments, PathSegment, Signature, SourceFile, SynPath,
    SynType, Visibility,
};
use rust_code_analyzer::AnalyzerError;

fn path_of(segments: &[&str]) -> SynPath {
    SynPath {
        leading_colon: false,
        segments: segments
            .iter()
            .map(|s| PathSegment { ident: s.to_string(), arguments: PathArguments::NoArgs })
            .collect(),
    }
}

fn plain_sig(name: &str, is_async: bool) -> Signature {
    Signature {
        ident: name.to_string(),
        inputs: Vec::new(),
        output: None,
        is_async,
        is_unsafe: false,
        has_abi: false,
        generics: Vec::new(),
    }
}

fn function(name: &str, is_async: bool, body: Vec<BodyEvent>, text: &str) -> Item {
    Item::Fn(FnItem {
        attrs: Vec::new(),
        vis: Visibility::Inherited,
        sig: plain_sig(name, is_async),
        body,
        block_text: text.to_string(),
        start_line: 1,
        end_line: 1,
    })
}

fn package(id: &str, name: &str, manifest: &str, targets: Vec<CargoTarget>) -> CargoPackage {
    CargoPackage {
        id: id.to_string(),
        name: name.to_string(),
        version: "1.2.3".to_string(),
        description: Some("a package".to_string()),
        authors: vec!["someone".to_string()],
        license: None,
        homepage: None,
        repository: None,
        manifest_path: manifest.to_string(),
        dependencies: vec![CargoDependency {
            name: "serde".to_string(),
            req: "^1".to_string(),
            kind: DependencyKind::Development,
            optional: true,
            features: vec!["derive".to_string()],
            source: None,
        }],
        targets,
        features: vec![("default".to_string(), vec!["std".to_string()])],
    }
}

fn target(name: &str, kind: &str) -> CargoTarget {
    CargoTarget {
        name: name.to_string(),
        kind: vec![kind.to_string()],
        src_path: format!("/ws/{name}/src/main.rs"),
        doctest: false,
        edition: "2021".to_string(),
    }
}

fn location() -> SourceLocation {
    SourceLocation { file: "src/lib.rs".to_string(), line: 1, column: 1 }
}

fn signature(name: &str) -> FunctionSignature {
    FunctionSignature {
        name: name.to_string(),
        parameters: Vec::new(),
        return_type: None,
        generic_params: Vec::new(),
        where_clause: Vec::new(),
    }
}

fn entry(key: &str, value: TomlValue) -> TomlEntry {
    TomlEntry { key: key.to_string(), value }
}

#[test]
fn cargo_metadata_makes_project_record() {
    let mut analyzer = CargoAnalyzer::new("/ws/app", true).ok().unwrap();
    let md = CargoMetadata {
        packages: vec![
            package("lib-id", "lib", "/ws/lib/Cargo.toml", vec![target("lib", "lib")]),
            package("app-id", "app", "/ws/app/Cargo.toml", vec![target("app", "bin")]),
            package("dep-id", "dep", "/reg/dep/Cargo.toml", Vec::new()),
        ],
        workspace_members: vec!["lib-id".to_string()],
        workspace_root: "/ws".to_string(),
    };
    let pm = analyzer.analyze(md, Err("unread".to_string())).ok().unwrap();
    // The root package is the one whose manifest is in the project root.
    assert_eq!(pm.name, "app");
    assert_eq!(pm.version, "1.2.3");
    assert!(!pm.is_workspace);
    assert!(pm.workspace_config.is_none());
    assert_eq!(pm.packages.len(), 3);
    assert!(pm.packages[0].is_workspace_member);
    assert!(!pm.packages[1].is_workspace_member);
    assert_eq!(pm.packages[0].source_path, "/ws/lib");
    assert_eq!(pm.packages[0].dependencies[0].kind, "dev");
    assert_eq!(pm.packages[0].dependencies[0].version_req, "^1");
    assert!(pm.packages[0].dependencies[0].version.is_none());
    assert_eq!(pm.targets.len(), 2);
    assert_eq!(pm.dependencies.len(), 3);
    assert_eq!(pm.dependencies[1].package, "app");
    assert_eq!(pm.features[0].name, "default");
    assert!(analyzer.should_include_package("lib"));
    assert!(!analyzer.should_include_package("app"));
    assert!(!analyzer.should_include_package("missing"));
    let libs = analyzer.get_targets_by_kind("lib").ok().unwrap();
    assert_eq!(libs.len(), 1);
    assert!(analyzer.get_targets_by_kind("bin").ok().unwrap().is_empty());
    assert_eq!(analyzer.get_source_directories().ok().unwrap(), vec!["/ws/lib".to_string()]);
}

#[test]
fn cargo_analyzer_errors() {
    match CargoAnalyzer::new("/nowhere", false) {
        Err(AnalyzerError::InvalidProject { message }) => assert_eq!(message, "Cargo.toml not found in /nowhere"),
        _ => panic!("expected an invalid project"),
    }
    let analyzer = CargoAnalyzer::new("/ws", true).ok().unwrap();
    match analyzer.get_source_directories() {
        Err(AnalyzerError::ConfigError { message }) => assert_eq!(message, "Metadata not loaded"),
        _ => panic!("expected a config error"),
    }
    assert!(!analyzer.should_include_package("x"));
    let mut empty = CargoAnalyzer::new("/ws", true).ok().unwrap();
    let md = CargoMetadata { packages: Vec::new(), workspace_members: Vec::new(), workspace_root: "/ws".to_string() };
    match empty.analyze(md, Err("unread".to_string())) {
        Err(AnalyzerError::InvalidProject { message }) => assert_eq!(message, "No packages found in metadata"),
        _ => panic!("expected no packages"),
    }
    // With no member sources, the project root is the one source directory.
    assert_eq!(empty.get_source_directories().ok().unwrap(), vec!["/ws".to_string()]);
}

#[test]
fn workspace_manifest_is_read() {
    let analyzer = CargoAnalyzer::new("/ws", true).ok().unwrap();
    let manifest = TomlValue::Table(vec![entry(
        "workspace",
        TomlValue::Table(vec![
            entry("members", TomlValue::Array(vec![TomlValue::String("a".to_string()), TomlValue::Integer(3)])),
            entry(
                "dependencies",
                TomlValue::Table(vec![
                    entry("serde", TomlValue::String("1.0".to_string())),
                    entry(
                        "local",
                        TomlValue::Table(vec![
                            entry("path", TomlValue::String("../local".to_string())),
                            entry("optional", TomlValue::Boolean(true)),
                        ]),
                    ),
                ]),
            ),
            entry("metadata", TomlValue::Table(vec![entry("k", TomlValue::Integer(1))])),
        ]),
    )]);
    let config = analyzer.workspace_config_from_manifest(manifest).ok().unwrap();
    assert_eq!(config.members, vec!["a".to_string()]);
    assert!(config.exclude.is_empty());
    assert_eq!(config.dependencies.len(), 2);
    assert_eq!(config.dependencies[0].version_req, "1.0");
    assert_eq!(config.dependencies[0].source.as_deref(), Some("registry"));
    assert_eq!(config.dependencies[1].version_req, "*");
    assert_eq!(config.dependencies[1].source.as_deref(), Some("path"));
    assert!(config.dependencies[1].optional);
    assert_eq!(config.metadata.len(), 1);
    match analyzer.workspace_config_from_manifest(TomlValue::Table(Vec::new())) {
        Err(AnalyzerError::ConfigError { message }) => assert_eq!(message, "未找到[workspace]配置段"),
        _ => panic!("expected a missing section"),
    }
}

#[test]
fn workspace_manifest_text_is_parsed() {
    let analyzer = CargoAnalyzer::new("/ws", true).ok().unwrap();
    let text = "[workspace]\nmembers = [\"a\", \"b\"]\nexclude = [\"old\"]\n\n[workspace.dependencies]\nserde = \"1.0\"\n";
    let config = analyzer.parse_workspace_config(Ok(text.to_string())).ok().unwrap();
    assert_eq!(config.members, vec!["a".to_string(), "b".to_string()]);
    assert_eq!(config.exclude, vec!["old".to_string()]);
    assert_eq!(config.dependencies.len(), 1);
    assert_eq!(config.dependencies[0].name, "serde");
    assert_eq!(config.dependencies[0].version_req, "1.0");
    match analyzer.parse_workspace_config(Ok("[package]\nname = \"x\"\n".to_string())) {
        Err(AnalyzerError::ConfigError { message }) => assert_eq!(message, "未找到[workspace]配置段"),
        _ => panic!("expected a missing section"),
    }
    match analyzer.parse_workspace_config(Ok("[workspace\nmembers = 1".to_string())) {
        Err(AnalyzerError::ConfigError { message }) => assert!(message.starts_with("解析workspace Cargo.toml失败: ")),
        _ => panic!("expected a parse error"),
    }
    match analyzer.parse_workspace_config(Err("No such file".to_string())) {
        Err(AnalyzerError::ConfigError { message }) => assert_eq!(message, "无法读取workspace Cargo.toml: No such file"),
        _ => panic!("expected a read error"),
    }
}

const PAGE: &str = "<html><body><div class=\"docblock\">Module text</div>\
<h4><code>pub fn <a href=\"fn.run.html\">run</a>()</code><a href=\"../src/demo/lib.rs.html#12-20\">source</a></h4>\
<h3><code>pub struct <a href=\"struct.Point.html\">Point</a></code><a href=\"../src/demo/geo.rs.html#7\">source</a></h3>\
</body></html>";

#[test]
fn rustdoc_pages_are_read() {
    let info = parse_html_content(PAGE).ok().unwrap();
    assert_eq!(info.functions.len(), 1);
    assert_eq!(info.functions[0].name, "run");
    assert_eq!(info.types.len(), 1);
    assert_eq!(info.types[0].name, "Point");
    assert_eq!(info.types[0].kind, "struct");
    assert_eq!(info.module_doc.as_deref(), Some("Module text"));
    assert_eq!(
        find_item_source_location_in_html(PAGE, SourceItemKind::Function, "run"),
        Some(("lib.rs".to_string(), 12))
    );
    assert_eq!(
        find_item_source_location_in_html(PAGE, SourceItemKind::Type, "Point"),
        Some(("geo.rs".to_string(), 7))
    );
    assert_eq!(find_item_source_location_in_html(PAGE, SourceItemKind::Function, "missing"), None);
}

#[test]
fn rustdoc_records_become_documentation() {
    let mut integrator = CargoDocIntegrator::new("/p".to_string());
    let pages = vec![HtmlFile { path: "/p/target/doc/demo/index.html".to_string(), content: PAGE.to_string() }];
    assert!(integrator.integrate_cargo_doc(Ok(()), Some(pages)).is_ok());
    let a = RustAnalyzer::new("/p".to_string(), "/out".to_string(), true).ok().unwrap();
    let docs = a.extract_doc_info_from_cargo_doc(&integrator).ok().unwrap();
    let point = docs.get("Point").unwrap();
    assert_eq!(point.location.file, "geo.rs");
    assert_eq!(point.location.line, 7);
    assert_eq!(point.location.column, 1);
    assert_eq!(docs.len(), 2);
    let failed = integrator.integrate_cargo_doc(Err(AnalyzerError::config_error("no cargo".to_string())), None);
    assert!(failed.is_err());
}

#[test]
fn function_reference_heuristics() {
    let fa = FunctionAnalyzer::new();
    assert!(fa.is_likely_function_reference("helper"));
    assert!(fa.is_likely_function_reference("Type::new"));
    assert!(fa.is_likely_function_reference("_private"));
    assert!(!fa.is_likely_function_reference("Point"));
    assert!(!fa.is_likely_function_reference("MAX_SIZE"));
    assert!(!fa.is_likely_function_reference(""));
}

#[test]
fn statistics_count_records() {
    let m = |modifier: &str, callees: usize| MethodOutput {
        name: "f".to_string(),
        signature: "() f()".to_string(),
        begin_line: 1,
        end_line: 2,
        filename: "src/lib.rs".to_string(),
        modifier: modifier.to_string(),
        params: Vec::new(),
        return_type: "()".to_string(),
        callees: (0..callees).map(|i| format!("c{i}")).collect(),
    };
    let s = |attrs: Vec<&str>| StructOutput {
        name: "T".to_string(),
        fullname: "crate::T".to_string(),
        filename: "src/lib.rs".to_string(),
        begin_line: 1,
        methods: Vec::new(),
        attributes: attrs
            .iter()
            .map(|a| AttributeInfo { name: "x".to_string(), attr_type: "u8".to_string(), modifier: a.to_string() })
            .collect(),
    };
    let methods = vec![m("PUBLIC", 2), m("PRIVATE ASYNC", 5), m("PUBLIC UNSAFE", 0)];
    let structs = vec![s(vec!["VARIANT"]), s(vec!["TRAIT_METHOD", "PUBLIC"]), s(vec!["PUBLIC"])];
    let st = AnalysisStatistics::new(&methods, &structs);
    assert_eq!(st.total_methods, 3);
    assert_eq!(st.public_methods, 2);
    assert_eq!(st.private_methods, 1);
    assert_eq!(st.async_methods, 1);
    assert_eq!(st.unsafe_methods, 1);
    assert_eq!(st.max_call_depth, 5);
    assert_eq!(st.enum_count, 1);
    assert_eq!(st.trait_count, 1);
    assert_eq!(st.struct_count, 1);
    let generator = OutputGenerator::new("/out".to_string());
    assert!(generator.validate_method_output(&methods[0]).is_ok());
}

#[test]
fn call_graph_keeps_nodes_and_edges() {
    let mut graph = CallGraph::new();
    let a = graph.add_node("a".to_string(), signature("a"), location());
    let b = graph.add_node("b".to_string(), signature("b"), location());
    let again = graph.add_node("a".to_string(), signature("a"), location());
    assert_eq!(again, a);
    assert_ne!(a, b);
    graph.add_edge(a, b, CallType::DirectCall, location());
    let export = graph.export();
    assert_eq!(export.nodes.len(), 2);
    assert_eq!(export.nodes[b].function_name, "b");
    assert_eq!(export.edges.len(), 1);
    assert_eq!(export.edges[0].0, a);
    assert_eq!(export.edges[0].1, b);
}

#[test]
fn variables_live_in_scopes() {
    let mut ctx = TypeInferenceContext::new();
    ctx.push_scope(ScopeType::Function);
    let t = InferredType::default();
    ctx.add_variable("x".to_string(), t);
    assert!(ctx.get_variable_type("x").is_some());
    assert!(ctx.get_variable_type("y").is_none());
    ctx.pop_scope();
    // A variable stays among all variables seen once its scope closes.
    assert!(ctx.get_variable_type("x").is_some());
    assert_eq!(ctx.get_all_types().len(), 1);
}

fn quoted() -> QuotedExpansions {
    QuotedExpansions {
        print_form: "std :: io :: _print (format_args ! (\"hi\"))".to_string(),
        vec_form: "{ let mut temp_vec = Vec :: new () ; temp_vec }".to_string(),
        format_form: "std :: fmt :: format (format_args ! (\"x\"))".to_string(),
        debug_impl: None,
        clone_impl: None,
        partial_eq_impl: None,
    }
}

#[test]
fn macros_expand_and_are_cached() {
    let mut expander = MacroExpander::new();
    let println_path = path_of(&["println"]);
    let first = expander.expand_macro(&println_path, "\"hi\"", &quoted()).ok().unwrap();
    assert_eq!(first, quoted().print_form);
    let mut other = quoted();
    other.print_form = "changed".to_string();
    // The second expansion of the same invocation comes from the cache.
    let second = expander.expand_macro(&println_path, "\"hi\"", &other).ok().unwrap();
    assert_eq!(second, first);
    // A macro with no known expansion expands to its tokens.
    let unknown = expander.expand_macro(&path_of(&["my_macro"]), "a b", &quoted()).ok().unwrap();
    assert_eq!(unknown, "a b");
    match expander.expand_macro(&path_of(&[]), "x", &quoted()) {
        Err(AnalyzerError::SemanticError(m)) => assert_eq!(m, "Invalid macro path"),
        _ => panic!("expected an invalid path"),
    }
}

#[test]
fn semantic_analysis_of_a_file() {
    let await_call = BodyEvent::Await {
        base: Expr::Call { func: Box::new(Expr::Path(path_of(&["fetch"]))), args: Vec::new() },
    };
    let local = BodyEvent::Local { pat: Pat::Ident { name: "n".to_string(), mutable: false }, init: Some(Expr::Lit(LitKind::Int)) };
    let call = BodyEvent::Call { func: Expr::Path(path_of(&["helper"])), args: vec![Expr::Path(path_of(&["n"]))] };
    let ufcs = BodyEvent::Call {
        func: Expr::Path(path_of(&["Display", "fmt"])),
        args: vec![Expr::Path(path_of(&["n"])), Expr::Lit(LitKind::Str)],
    };
    let mac = BodyEvent::Macro { path: path_of(&["println"]), tokens: "\"hi\"".to_string() };
    let file = SourceFile {
        items: vec![
            function("load", true, vec![await_call, local, call, ufcs, mac], "{ fetch().await?; }"),
            function("helper", false, Vec::new(), "{ }"),
        ],
    };
    let mut analyzer = SemanticAnalyzer::new();
    let result = analyzer.analyze_file(&"src/lib.rs".to_string(), &file, &vec![quoted()]).ok().unwrap();
    assert_eq!(result.file_path, "src/lib.rs");
    assert_eq!(result.function_calls.len(), 2);
    assert_eq!(result.function_calls[0].caller, "load");
    assert_eq!(result.function_calls[0].callee, "helper");
    assert_eq!(result.function_calls[0].arguments[0].name, "i32");
    assert_eq!(result.trait_calls.len(), 1);
    assert_eq!(result.trait_calls[0].trait_name, "Display");
    assert_eq!(result.trait_calls[0].method_name, "fmt");
    assert_eq!(result.trait_calls[0].arguments.len(), 1);
    assert_eq!(result.async_functions.len(), 1);
    assert_eq!(result.async_functions[0].async_calls, vec!["fetch".to_string()]);
    assert!(result.async_functions[0].error_handling == AsyncErrorHandling::QuestionMark);
    assert_eq!(result.await_points.len(), 1);
    assert_eq!(result.await_points[0].future_type.name, "Future<fetch>");
    assert_eq!(result.macro_calls.len(), 1);
    assert_eq!(result.macro_calls[0].macro_name, "println");
    assert!(result.macro_calls[0].generated_calls.is_empty());
}

#[test]
fn calls_take_parameter_and_signature_types() {
    let mut run_sig = plain_sig("run", false);
    run_sig.inputs = vec![FnArg::Typed {
        pat: Pat::Ident { name: "v".to_string(), mutable: false },
        ty: SynType::Path(path_of(&["Vec"])),
    }];
    let mut make_sig = plain_sig("make", false);
    make_sig.output = Some(SynType::Path(path_of(&["Config"])));
    let push = BodyEvent::MethodCall {
        receiver: Expr::Path(path_of(&["v"])),
        method: "push".to_string(),
        args: vec![Expr::Lit(LitKind::Int)],
    };
    let make = BodyEvent::Call { func: Expr::Path(path_of(&["make"])), args: Vec::new() };
    let item = |sig: Signature, body: Vec<BodyEvent>| {
        Item::Fn(FnItem {
            attrs: Vec::new(),
            vis: Visibility::Inherited,
            sig,
            body,
            block_text: "{ }".to_string(),
            start_line: 1,
            end_line: 1,
        })
    };
    let file = SourceFile { items: vec![item(make_sig, Vec::new()), item(run_sig, vec![push, make])] };
    let mut ctx = TypeInferenceContext::new();
    ctx.collect_definitions(&file);
    let calls = ctx.infer_function_calls(&file);
    assert_eq!(calls.len(), 2);
    assert_eq!(calls[0].caller, "run");
    assert_eq!(calls[0].callee, "Vec::push");
    assert!(calls[0].call_type == CallType::MethodCall);
    assert_eq!(calls[0].arguments.len(), 1);
    assert_eq!(calls[0].arguments[0].name, "i32");
    assert!(calls[0].return_type.is_none());
    assert_eq!(calls[0].confidence_pct, 70);
    assert_eq!(calls[1].callee, "make");
    assert_eq!(calls[1].return_type.as_ref().unwrap().name, "Config");
    assert_eq!(calls[1].confidence_pct, 80);
    // The parameter stays among the variables seen once the function's scope closes.
    assert_eq!(ctx.get_variable_type("v").unwrap().name, "Vec");
}

#[test]
fn calls_are_recorded_only_inside_functions() {
    let call = BodyEvent::Call { func: Expr::Path(path_of(&["helper"])), args: Vec::new() };
    let method = FnItem {
        attrs: Vec::new(),
        vis: Visibility::Inherited,
        sig: plain_sig("run", false),
        body: vec![call],
        block_text: "{ helper(); }".to_string(),
        start_line: 1,
        end_line: 1,
    };
    let imp = Item::Impl {
        self_ty: SynType::Path(path_of(&["Foo"])),
        trait_path: None,
        items: vec![ImplItem::Fn(method)],
        generics: Vec::new(),
    };
    let file = SourceFile { items: vec![function("helper", false, Vec::new(), "{ }"), imp] };
    let mut ctx = TypeInferenceContext::new();
    ctx.collect_definitions(&file);
    assert!(ctx.infer_function_calls(&file).is_empty());
}

#[test]
fn inline_modules_are_read_in_place() {
    let call = BodyEvent::Call { func: Expr::Path(path_of(&["helper"])), args: Vec::new() };
    let inner = Item::Mod {
        ident: "inner".to_string(),
        items: vec![function("nested", false, vec![call], "{ helper(); }")],
    };
    let file = SourceFile { items: vec![function("helper", false, Vec::new(), "{ }"), inner] };
    let mut analyzer = SemanticAnalyzer::new();
    let result = analyzer.analyze_file(&"src/lib.rs".to_string(), &file, &Vec::new()).ok().unwrap();
    assert_eq!(result.function_calls.len(), 1);
    assert_eq!(result.function_calls[0].caller, "nested");
    assert_eq!(result.function_calls[0].callee, "helper");
}

#[test]
fn async_call_graph_records_calls() {
    let mut analyzer = SemanticAnalyzer::new();
    let f = AsyncFunction {
        name: "load".to_string(),
        signature: signature("load"),
        future_type: InferredType::default(),
        await_points: Vec::new(),
        async_calls: vec!["fetch".to_string(), "parse".to_string()],
        error_handling: AsyncErrorHandling::Custom,
    };
    let graph = analyzer.build_async_call_graph(&vec![f]);
    assert_eq!(
        graph.async_calls(),
        &vec![("load".to_string(), "fetch".to_string()), ("load".to_string(), "parse".to_string())]
    );
    assert_eq!(graph.async_function("load").unwrap().async_calls.len(), 2);
    assert!(graph.async_function("fetch").is_none());
    let resolver = TraitResolver::new();
    assert!(!resolver.is_dynamic_dispatch("Display"));
    assert!(resolver.is_dynamic_dispatch("Box<dyn Error>"));
}

const ITEMS_PAGE: &str = "<html><body><div class=\"docblock\">Module text</div>\
<h4><code>pub fn <a href=\"fn.first.html\">first</a>()</code></h4><div class=\"docblock\">First doc</div>\
<h4><code>pub fn <a href=\"fn.second.html\">second</a>()</code></h4>\
<h4><code>pub fn <a href=\"fn.third.html\">third</a>()</code></h4><div class=\"docblock\">Third doc</div>\
<h3><code>pub struct <a href=\"struct.Last.html\">Last</a></code></h3>\
</body></html>";

#[test]
fn items_take_the_docblock_that_follows_them() {
    let info = parse_html_content(ITEMS_PAGE).ok().unwrap();
    assert_eq!(info.module_doc.as_deref(), Some("Module text"));
    assert_eq!(info.functions.len(), 3);
    assert_eq!(info.functions[0].description.as_deref(), Some("First doc"));
    assert_eq!(info.functions[1].description.as_deref(), Some("Third doc"));
    assert_eq!(info.functions[2].description.as_deref(), Some("Third doc"));
    assert_eq!(info.types.len(), 1);
    assert_eq!(info.types[0].description, None);
    let plain = parse_html_content(PAGE).ok().unwrap();
    assert_eq!(plain.functions[0].description, None);
}

fn located_function(name: &str, line: u32) -> Item {
    Item::Fn(FnItem {
        attrs: Vec::new(),
        vis: Visibility::Inherited,
        sig: plain_sig(name, false),
        body: Vec::new(),
        block_text: String::new(),
        start_line: line,
        end_line: line,
    })
}

#[test]
fn doc_records_carry_the_item_line() {
    let source = "// header\n\nfn near() {} // the near one\nfn far() {}\n";
    let file = SourceFile { items: vec![located_function("near", 3), located_function("far", 40)] };
    let mut analyzer = DocAnalyzer::new();
    assert!(analyzer.analyze_file("/p/src/lib.rs", &file, "/p", source).is_ok());
    let near = analyzer.docs().get("src::lib::near").unwrap();
    assert_eq!(near.location.file, "lib.rs");
    assert_eq!(near.location.line, 3);
    assert_eq!(near.location.column, 1);
    assert_eq!(near.inline_comments, vec!["the near one".to_string()]);
    let far = analyzer.docs().get("src::lib::far").unwrap();
    assert_eq!(far.location.line, 1);
    assert_eq!(far.inline_comments, vec!["header".to_string()]);
    let loc = analyzer.extract_location_from_span(2, "/p/src/lib.rs", source);
    assert_eq!(loc.line, 2);
    let none = analyzer.extract_location_from_span(0, "", "");
    assert_eq!(none.line, 1);
    assert_eq!(none.file, "unknown");
}

#[test]
fn package_description_is_read_from_manifest_text() {
    let generator = DocOutputGenerator::new("/out".to_string());
    let text = "[package]\nname = \"x\"\ndescription = \"Does things\"\n".to_string();
    assert_eq!(generator.extract_package_description(&Some(text)).as_deref(), Some("Does things"));
    let bare = "[package]\nname = \"x\"\n".to_string();
    assert_eq!(generator.extract_package_description(&Some(bare)), None);
    assert_eq!(generator.extract_package_description(&Some("not = [toml".to_string())), None);
    assert_eq!(generator.extract_package_description(&None), None);
}

#[test]
fn macro_tokens_name_their_calls() {
    let mut fa = FunctionAnalyzer::new();
    let calls = fa.analyze_macro_tokens("let v = compute (1) ; Point (2) ; MAX (3) ; println ! (\"x\") ; helper(v)").ok().unwrap();
    assert_eq!(
        calls,
        vec!["compute".to_string(), "helper".to_string(), "println!".to_string()]
    );
    assert!(fa.analyze_macro_tokens("").ok().unwrap().is_empty());
}

#[test]
fn missing_doc_directory_is_reported() {
    let mut integrator = CargoDocIntegrator::new("/p".to_string());
    match integrator.parse_generated_docs(None) {
        Err(AnalyzerError::AnalysisError { context, message }) => {
            assert_eq!(context, "文档目录不存在");
            assert_eq!(message, "路径: /p/target/doc");
        }
        _ => panic!("expected a missing directory"),
    }
    assert_eq!(integrator.get_parsed_docs().len(), 0);
}

#[test]
fn generated_docs_without_directory_report_it() {
    let mut integrator = CargoDocIntegrator::new("/q".to_string());
    match integrator.integrate_cargo_doc(Ok(()), None) {
        Err(AnalyzerError::AnalysisError { context, message }) => {
            assert_eq!(context, "文档目录不存在");
            assert_eq!(message, "路径: /q/target/doc");
        }
        _ => panic!("expected a missing directory"),
    }
}
