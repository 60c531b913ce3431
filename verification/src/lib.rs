//! Static analysis of Rust projects: functions, types, their calls and their
//! documentation, gathered into plain records.
pub mod text;
pub mod string_map;
pub mod syntax;
pub mod syntax_tree;
pub mod syn_types;
pub mod parser;
pub mod error;
pub mod utils;
pub mod patterns;
pub mod output;
pub mod semantic_analyzer;
pub mod cargo_integration;
pub mod doc_analyzer;
pub mod doc_output;
pub mod cargo_doc_integration;
pub mod function_analyzer;
pub mod type_analyzer;
pub mod cross_crate_analyzer;
pub mod analyzer;
pub mod cli;

use vstd::prelude::*;
pub use crate::semantic_analyzer::SourceLocation;

pub use crate::analyzer::RustAnalyzer;
pub use crate::error::AnalyzerError;
pub use crate::semantic_analyzer::{
    CallGraphExport, CallType, FunctionCall, InferredType, MacroCall, SemanticAnalysisResult,
    SemanticAnalyzer, TraitCall,
};

verus! {

pub const VERSION: &'static str = "0.1.0";

pub const NAME: &'static str = "rust_code_analyzer";

pub const DESCRIPTION: &'static str = "Analyses Rust code and writes structured JSON records of its functions, types and documentation";

/// Settings of an analysis run.
#[derive(Clone)]
pub struct AnalysisConfig {
    pub verbose: bool,
    pub include_private: bool,
    pub skip_deps: bool,
    pub max_depth: usize,
    pub filter_pattern: Option<String>,
    pub exclude_tests: bool,
    pub enable_semantic_analysis: bool,
    pub enable_borrow_checker: bool,
    pub enable_incremental: bool,
}

impl Default for AnalysisConfig {
    fn default() -> (res: Self)
        ensures
            !res.verbose,
            !res.include_private,
            !res.skip_deps,
            res.max_depth == 10,
            res.filter_pattern is None,
            res.exclude_tests,
            res.enable_semantic_analysis,
            !res.enable_borrow_checker,
            !res.enable_incremental,
    {
        AnalysisConfig {
            verbose: false,
            include_private: false,
            skip_deps: false,
            max_depth: 10,
            filter_pattern: None,
            exclude_tests: true,
            enable_semantic_analysis: true,
            enable_borrow_checker: false,
            enable_incremental: false,
        }
    }
}

/// Counts of a basic analysis.
#[derive(Clone)]
pub struct BasicAnalysisResult {
    pub file_count: usize,
    pub function_count: usize,
    pub type_count: usize,
    pub analysis_time_ms: u64,
}

#[derive(Clone)]
pub struct BorrowCheckResult {
    pub borrow_conflicts: Vec<BorrowConflict>,
    pub lifetime_issues: Vec<LifetimeIssue>,
    pub safety_issues: Vec<SafetyIssue>,
}

#[derive(Clone)]
pub struct BorrowConflict {
    pub location: SourceLocation,
    pub description: String,
    pub severity: Severity,
}

#[derive(Clone)]
pub struct LifetimeIssue {
    pub location: SourceLocation,
    pub description: String,
    pub suggestion: Option<String>,
}

#[derive(Clone)]
pub struct SafetyIssue {
    pub location: SourceLocation,
    pub issue_type: SafetyIssueType,
    pub description: String,
}

#[derive(Clone, PartialEq, Eq, Debug)]
pub enum SafetyIssueType {
    DanglingPointer,
    UseAfterFree,
    DoubleFree,
    BufferOverflow,
    UninitializedMemory,
}

#[derive(Clone)]
pub struct StyleIssue {
    pub location: SourceLocation,
    pub issue_type: String,
    pub description: String,
    pub severity: Severity,
}

#[derive(Clone)]
pub struct PerformanceIssue {
    pub location: SourceLocation,
    pub issue_type: String,
    pub description: String,
    pub impact: PerformanceImpact,
}

/// How much a performance issue costs, from least to most.
#[derive(Clone, Copy, PartialEq, Eq, PartialOrd, Ord, Debug)]
pub enum PerformanceImpact {
    Low,
    Medium,
    High,
    Critical,
}

/// How serious an issue is, from least to most.
#[derive(Clone, Copy, PartialEq, Eq, PartialOrd, Ord, Debug)]
pub enum Severity {
    Info,
    Warning,
    Error,
    Critical,
}

/// The rank of a severity: `Info` lowest.
pub open spec fn severity_rank(s: Severity) -> int {
    match s {
        Severity::Info => 0,
        Severity::Warning => 1,
        Severity::Error => 2,
        Severity::Critical => 3,
    }
}

/// The rank of a severity, from `Low` up.
pub fn severity_rank_of(s: Severity) -> (res: u8)
    ensures
        res as int == severity_rank(s),
{
    match s {
        Severity::Info => 0,
        Severity::Warning => 1,
        Severity::Error => 2,
        Severity::Critical => 3,
    }
}

/// The rank of a performance impact: `Low` lowest.
pub open spec fn impact_rank(s: PerformanceImpact) -> int {
    match s {
        PerformanceImpact::Low => 0,
        PerformanceImpact::Medium => 1,
        PerformanceImpact::High => 2,
        PerformanceImpact::Critical => 3,
    }
}

/// The rank of a performance impact, from `Low` up.
pub fn impact_rank_of(s: PerformanceImpact) -> (res: u8)
    ensures
        res as int == impact_rank(s),
{
    match s {
        PerformanceImpact::Low => 0,
        PerformanceImpact::Medium => 1,
        PerformanceImpact::High => 2,
        PerformanceImpact::Critical => 3,
    }
}

} // verus!
