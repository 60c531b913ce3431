use rust_code_analyzer::{
    impact_rank_of, severity_rank_of, AnalysisConfig, PerformanceImpact, Severity, DESCRIPTION, NAME, VERSION,
};

#[test]
fn test_default_config() {
    let config = AnalysisConfig::default();
    assert!(!config.verbose);
    assert!(!config.include_private);
    assert!(!config.skip_deps);
    assert_eq!(config.max_depth, 10);
    assert!(config.exclude_tests);
    assert!(config.enable_semantic_analysis);
}

#[test]
fn test_version_info() {
    assert!(!VERSION.is_empty());
    assert!(!NAME.is_empty());
    assert!(!DESCRIPTION.is_empty());
}

#[test]
fn test_severity_ordering() {
    assert!(Severity::Info < Severity::Warning);
    assert!(Severity::Warning < Severity::Error);
    assert!(Severity::Error < Severity::Critical);
}

#[test]
fn test_performance_impact_ordering() {
    assert!(PerformanceImpact::Low < PerformanceImpact::Medium);
    assert!(PerformanceImpact::Medium < PerformanceImpact::High);
    assert!(PerformanceImpact::High < PerformanceImpact::Critical);
}

#[test]
fn severity_ranks_follow_the_ordering() {
    assert_eq!(severity_rank_of(Severity::Info), 0);
    assert_eq!(severity_rank_of(Severity::Critical), 3);
    assert!(severity_rank_of(Severity::Warning) < severity_rank_of(Severity::Error));
    assert_eq!(impact_rank_of(PerformanceImpact::Low), 0);
    assert_eq!(impact_rank_of(PerformanceImpact::High), 2);
}
