use rust_code_analyzer::analyzer::{AnalysisOutcome, RustAnalyzer};
use rust_code_analyzer::cargo_integration::{PackageInfo, ProjectMetadata};
use rust_code_analyzer::cross_crate_analyzer::{
    extract_quoted_value, lock_package_names, CrossCrateAnalyzer, CrossCrateCall, CrossCrateCallType,
};
use rust_code_analyzer::output::MethodOutput;
use rust_code_analyzer::string_map::StringMap;
use rust_code_analyzer::syntax::{
    BodyEvent, Expr, FnItem, ImplItem, Item, PathArguments, PathSegment, Signature, SourceFile, SynPath, SynType,
    UseTree, Visibility,
};
use rust_code_analyzer::AnalyzerError;

fn path_of(segments: &[&str]) -> SynPath {
    SynPath {
        leading_colon: false,
        segments: segments
            .iter()
            .map(|s| PathSegment { ident: s.to_string(), arguments: PathArguments::NoArgs })
            .collect(),
    }
}

fn function(name: &str, body: Vec<BodyEvent>, line: u32) -> Item {
    Item::Fn(fn_item(name, body, line))
}

fn fn_item(name: &str, body: Vec<BodyEvent>, line: u32) -> FnItem {
    FnItem {
        attrs: Vec::new(),
        vis: Visibility::Public,
        sig: Signature {
            ident: name.to_string(),
            inputs: Vec::new(),
            output: None,
            is_async: false,
            is_unsafe: false,
            has_abi: false,
            generics: Vec::new(),
        },
        body,
        block_text: String::from("{ }"),
        start_line: line,
        end_line: line,
    }
}

fn package(name: &str, member: bool, dir: &str) -> PackageInfo {
    PackageInfo {
        name: name.to_string(),
        version: "0.1.0".to_string(),
        manifest_path: format!("{dir}/Cargo.toml"),
        source_path: dir.to_string(),
        dependencies: Vec::new(),
        targets: Vec::new(),
        features: Vec::new(),
        is_workspace_member: member,
    }
}

fn metadata(name: &str, packages: Vec<PackageInfo>) -> ProjectMetadata {
    ProjectMetadata {
        name: name.to_string(),
        version: "0.1.0".to_string(),
        description: None,
        authors: Vec::new(),
        license: None,
        homepage: None,
        repository: None,
        packages,
        dependencies: Vec::new(),
        targets: Vec::new(),
        features: Vec::new(),
        is_workspace: false,
        workspace_root: "/ws".to_string(),
        workspace_config: None,
    }
}

fn method(signature: &str, callees: &[&str]) -> MethodOutput {
    MethodOutput {
        name: signature.to_string(),
        signature: signature.to_string(),
        begin_line: 1,
        end_line: 1,
        filename: "src/lib.rs".to_string(),
        modifier: "PUBLIC".to_string(),
        params: Vec::new(),
        return_type: String::new(),
        callees: callees.iter().map(|c| c.to_string()).collect(),
    }
}

#[test]
fn similarity_score_is_edit_distance() {
    let a = RustAnalyzer::new("/p".to_string(), "/out".to_string(), true).ok().unwrap();
    assert_eq!(a.calculate_similarity_score("kitten", "sitting"), 3);
    assert_eq!(a.calculate_similarity_score("flaw", "lawn"), 2);
    assert_eq!(a.calculate_similarity_score("", "abc"), 3);
    assert_eq!(a.calculate_similarity_score("abc", ""), 3);
    assert_eq!(a.calculate_similarity_score("same", "same"), 0);
    // The distance does not depend on the order of the texts.
    assert_eq!(
        a.calculate_similarity_score("parse_file", "crate::parse"),
        a.calculate_similarity_score("crate::parse", "parse_file")
    );
}

#[test]
fn analyzer_needs_a_manifest() {
    match RustAnalyzer::new("/nowhere".to_string(), "/out".to_string(), false) {
        Err(AnalyzerError::InvalidProject { message }) => {
            assert_eq!(message, "Cargo.toml not found in /nowhere")
        }
        _ => panic!("expected an invalid project"),
    }
}

#[test]
fn analyze_sources_resolves_calls() {
    let mut a = RustAnalyzer::new("/p".to_string(), "/out".to_string(), true).ok().unwrap();
    let call_bar = BodyEvent::Call { func: Expr::Path(path_of(&["Foo", "bar"])), args: Vec::new() };
    let call_helper = BodyEvent::Call { func: Expr::Path(path_of(&["helper"])), args: Vec::new() };
    let foo_impl = Item::Impl {
        self_ty: SynType::Path(path_of(&["Foo"])),
        trait_path: None,
        items: vec![ImplItem::Fn(fn_item("bar", Vec::new(), 1))],
        generics: Vec::new(),
    };
    let file = SourceFile {
        items: vec![foo_impl, function("helper", Vec::new(), 2), function("run", vec![call_bar, call_helper], 3)],
    };
    let md = metadata("demo", vec![package("demo", true, "/p")]);
    let files = vec![("/p/src/lib.rs".to_string(), file)];
    let texts = vec!["impl Foo { fn bar() {} }\nfn helper() {}\nfn run() { Foo::bar(); helper(); }\n".to_string()];
    let out: AnalysisOutcome = a.analyze_sources(md, 1, &files, &texts, &Some("/p".to_string()), &None, &StringMap::new()).ok().unwrap();
    assert_eq!(out.methods.len(), 3);
    let run = out.methods.iter().find(|m| m.name == "run").unwrap();
    // `Foo::bar` resolves to the one signature that holds it; `crate::helper`
    // matches no signature and is dropped.
    assert_eq!(run.callees, vec!["() Foo::bar()".to_string()]);
}

#[test]
fn analyze_sources_needs_files() {
    let mut a = RustAnalyzer::new("/p".to_string(), "/out".to_string(), true).ok().unwrap();
    let md = metadata("demo", Vec::new());
    match a.analyze_sources(md, 0, &Vec::new(), &Vec::new(), &None, &None, &StringMap::new()) {
        Err(AnalyzerError::AnalysisError { context, message }) => {
            assert_eq!(context, "file_discovery");
            assert_eq!(message, "项目中未找到Rust源文件");
        }
        _ => panic!("expected a file discovery error"),
    }
}

#[test]
fn quoted_values_and_lock_names() {
    assert_eq!(extract_quoted_value("name = \"serde\"").unwrap(), "serde");
    assert!(extract_quoted_value("name = serde").is_none());
    let lock = "[[package]]\nname = \"anyhow\"\nversion = \"1.0.0\"\n\n[[package]]\nname = \"demo\"\n";
    assert_eq!(lock_package_names(lock), vec!["anyhow".to_string(), "demo".to_string()]);
}

#[test]
fn use_statements_resolve_symbols() {
    let md = metadata("demo", vec![package("demo", true, "/ws/demo"), package("dep", false, "/reg/dep")]);
    let mut cc = CrossCrateAnalyzer::new(md);
    assert_eq!(cc.crate_path("demo").unwrap(), "/ws/demo");
    assert!(cc.crate_path("dep").is_none());
    let tree = UseTree::Path {
        ident: "std".to_string(),
        tree: Box::new(UseTree::Path {
            ident: "collections".to_string(),
            tree: Box::new(UseTree::Group(vec![
                UseTree::Name("HashMap".to_string()),
                UseTree::Rename { ident: "HashSet".to_string(), rename: "Set".to_string() },
                UseTree::Glob,
            ])),
        }),
    };
    let files = vec![("/ws/demo/src/lib.rs".to_string(), SourceFile { items: vec![Item::Use(tree)] })];
    assert!(cc.analyze_use_statements(&files).is_ok());
    let uses = cc.file_use_statements("/ws/demo/src/lib.rs").unwrap();
    assert_eq!(uses.len(), 3);
    assert_eq!(uses[0].path, "std::collections");
    assert_eq!(uses[2].symbol, "*");
    assert!(uses[2].is_glob);
    assert_eq!(cc.resolved_symbol("HashMap").unwrap(), "std::collections::HashMap");
    assert_eq!(cc.resolved_symbol("Set").unwrap(), "std::collections::HashSet");
    assert!(cc.resolved_symbol("HashSet").is_none());
}

#[test]
fn lock_file_adds_dependency_sources() {
    let md = metadata("demo", vec![package("demo", true, "/ws/demo")]);
    let mut cc = CrossCrateAnalyzer::new(md);
    let mut on_disk: StringMap<String> = StringMap::new();
    on_disk.insert("serde".to_string(), "/reg/serde-1.0.0".to_string());
    cc.parse_cargo_lock("name = \"serde\"\nname = \"demo\"\nname = \"log\"\n", &on_disk);
    assert_eq!(cc.crate_path("serde").unwrap(), "/reg/serde-1.0.0");
    assert_eq!(cc.crate_path("demo").unwrap(), "/ws/demo");
    assert!(cc.crate_path("log").is_none());
}

#[test]
fn cross_crate_calls_and_statistics() {
    let md = metadata("demo", vec![package("demo", true, "/ws/demo"), package("serde", false, "/reg/serde")]);
    let cc = CrossCrateAnalyzer::new(md);
    let calls = vec![
        (
            "demo::run".to_string(),
            vec!["serde::to_string".to_string(), "demo::helper".to_string(), "serde::json!".to_string()],
        ),
        ("local".to_string(), vec!["serde::Serialize<T>::serialize".to_string(), "len".to_string()]),
    ];
    let found = cc.resolve_cross_crate_calls(&calls).ok().unwrap();
    assert_eq!(found.len(), 3);
    assert_eq!(found[0].caller_crate, "demo");
    assert_eq!(found[0].callee_crate, "serde");
    assert_eq!(found[0].call_type, CrossCrateCallType::DirectCall);
    assert_eq!(found[1].call_type, CrossCrateCallType::MacroCall);
    assert_eq!(found[2].call_type, CrossCrateCallType::TraitMethodCall);
    // Every call reported crosses a crate boundary.
    assert!(found.iter().all(|c| c.caller_crate != c.callee_crate));
    let stats = cc.get_cross_crate_statistics(&found);
    assert_eq!(*stats.get("demo -> serde").unwrap(), 3);
    assert!(stats.get("serde -> demo").is_none());
}

#[test]
fn merged_callees_are_the_union_each_once() {
    let md = metadata("demo", vec![package("demo", true, "/ws/demo")]);
    let cc = CrossCrateAnalyzer::new(md);
    let mut methods = vec![method("demo::run", &["a", "b", "a"]), method("demo::other", &["a", "a"])];
    let calls = vec![
        CrossCrateCall {
            caller: "demo::run".to_string(),
            callee: "serde::x".to_string(),
            caller_crate: "demo".to_string(),
            callee_crate: "serde".to_string(),
            call_type: CrossCrateCallType::DirectCall,
        },
        CrossCrateCall {
            caller: "demo::run".to_string(),
            callee: "b".to_string(),
            caller_crate: "demo".to_string(),
            callee_crate: "x".to_string(),
            call_type: CrossCrateCallType::MethodCall,
        },
    ];
    assert!(cc.update_method_callees(&mut methods, &calls).is_ok());
    assert_eq!(methods[0].callees, vec!["a".to_string(), "b".to_string(), "serde::x".to_string()]);
    // A method without cross-crate calls is left as it was.
    assert_eq!(methods[1].callees, vec!["a".to_string(), "a".to_string()]);
}

#[test]
fn project_files_are_parsed_and_analysed() {
    let mut a = RustAnalyzer::new("/p".to_string(), "/out".to_string(), true).ok().unwrap();
    let md = metadata("demo", vec![package("demo", true, "/p")]);
    let text = "pub struct Foo;\nimpl Foo { fn bar() {} }\nfn helper() {}\nfn run() { Foo::bar(); helper(); }\n";
    let files = vec![
        ("/p/src/lib.rs".to_string(), Ok(text.to_string())),
        ("/p/src/broken.rs".to_string(), Ok("fn (".to_string())),
        ("/p/src/gone.rs".to_string(), Err("No such file".to_string())),
        ("/p/tests/it_test.rs".to_string(), Ok("fn in_test() {}".to_string())),
    ];
    let out = a.analyze_project_files(md, 4, files, &Some("/p".to_string()), &None, &StringMap::new()).ok().unwrap();
    assert_eq!(out.methods.len(), 3);
    let run = out.methods.iter().find(|m| m.name == "run").unwrap();
    assert_eq!(run.begin_line, 4);
    assert_eq!(run.callees, vec!["() Foo::bar()".to_string()]);
    assert_eq!(out.structs.len(), 1);
    assert_eq!(out.structs[0].name, "Foo");
}

#[test]
fn parse_file_reports_read_and_syntax_errors() {
    let a = RustAnalyzer::new("/p".to_string(), "/out".to_string(), true).ok().unwrap();
    match a.parse_file("/p/a.rs", &Err("denied".to_string())) {
        Err(AnalyzerError::AnalysisError { context, message }) => {
            assert_eq!(context, "reading file /p/a.rs");
            assert_eq!(message, "denied");
        }
        _ => panic!("expected a read error"),
    }
    match a.parse_file("/p/a.rs", &Ok("fn (".to_string())) {
        Err(AnalyzerError::SyntaxError { file, message }) => {
            assert_eq!(file, "/p/a.rs");
            assert!(message.starts_with("Failed to parse syntax: "));
        }
        _ => panic!("expected a syntax error"),
    }
    let file = a.parse_file("/p/a.rs", &Ok("fn f() { let x = g(1); x.h(); m!(y); z.await; w?; }".to_string())).ok().unwrap();
    match &file.items[0] {
        Item::Fn(f) => {
            assert_eq!(f.start_line, 1);
            let kinds: Vec<&str> = f
                .body
                .iter()
                .map(|e| match e {
                    BodyEvent::Call { .. } => "call",
                    BodyEvent::MethodCall { .. } => "method",
                    BodyEvent::PathExpr(_) => "path",
                    BodyEvent::MacroExpr(_) => "macro_expr",
                    BodyEvent::Macro { .. } => "macro",
                    BodyEvent::Local { .. } => "local",
                    BodyEvent::Await { .. } => "await",
                    BodyEvent::Try => "try",
                })
                .collect();
            assert_eq!(
                kinds,
                vec!["local", "call", "path", "method", "path", "macro", "await", "path", "try", "path"]
            );
        }
        _ => panic!("expected a function"),
    }
}

#[test]
fn parsed_bodies_follow_the_syntax_walk() {
    let a = RustAnalyzer::new("/p".to_string(), "/out".to_string(), true).ok().unwrap();
    let text = "fn f() { match x { Option::None => g(), Some(y) => {} } fn inner() { h(); } let v: [u8; N] = [0; 2]; }";
    let file = a.parse_file("/p/a.rs", &Ok(text.to_string())).ok().unwrap();
    match &file.items[0] {
        Item::Fn(f) => {
            let names: Vec<String> = f
                .body
                .iter()
                .map(|e| match e {
                    BodyEvent::Call { .. } => "call".to_string(),
                    BodyEvent::PathExpr(p) => format!("path {}", p.segments[0].ident),
                    BodyEvent::Local { .. } => "local".to_string(),
                    _ => "other".to_string(),
                })
                .collect();
            assert_eq!(
                names,
                vec!["path x", "path Option", "call", "path g", "call", "path h", "local", "path N"]
            );
        }
        _ => panic!("expected a function"),
    }
}
