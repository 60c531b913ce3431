//! The library's error type.
use vstd::prelude::*;

verus! {

/// Errors that an analysis reports. Errors raised by file access, JSON
/// encoding or the cargo metadata command carry their message text.
pub enum AnalyzerError {
    Io(String),
    Json(String),
    CargoMetadata(String),
    SyntaxError { file: String, message: String },
    InvalidProject { message: String },
    FileNotFound { path: String },
    AnalysisError { context: String, message: String },
    ConfigError { message: String },
    DependencyError { message: String },
    OutputError { message: String },
    SemanticError(String),
}

impl AnalyzerError {
    /// A syntax error in `file`.
    pub fn syntax_error(file: String, message: String) -> (res: Self)
        ensures
            res == (AnalyzerError::SyntaxError { file, message }),
    {
        AnalyzerError::SyntaxError { file, message }
    }

    /// A project that cannot be analyzed.
    pub fn invalid_project(message: String) -> (res: Self)
        ensures
            res == (AnalyzerError::InvalidProject { message }),
    {
        AnalyzerError::InvalidProject { message }
    }

    /// A missing file.
    pub fn file_not_found(path: String) -> (res: Self)
        ensures
            res == (AnalyzerError::FileNotFound { path }),
    {
        AnalyzerError::FileNotFound { path }
    }

    /// A failure of an analysis step, with its context.
    pub fn analysis_error(context: String, message: String) -> (res: Self)
        ensures
            res == (AnalyzerError::AnalysisError { context, message }),
    {
        AnalyzerError::AnalysisError { context, message }
    }

    /// A configuration error.
    pub fn config_error(message: String) -> (res: Self)
        ensures
            res == (AnalyzerError::ConfigError { message }),
    {
        AnalyzerError::ConfigError { message }
    }

    /// A dependency that cannot be resolved.
    pub fn dependency_error(message: String) -> (res: Self)
        ensures
            res == (AnalyzerError::DependencyError { message }),
    {
        AnalyzerError::DependencyError { message }
    }

    /// A failure to produce output.
    pub fn output_error(message: String) -> (res: Self)
        ensures
            res == (AnalyzerError::OutputError { message }),
    {
        AnalyzerError::OutputError { message }
    }
}

} // verus!
