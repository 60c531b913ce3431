//! The command-line settings of an analysis run.
use vstd::prelude::*;

verus! {

/// The settings given on the command line.
pub struct CliArgs {
    /// The directory holding the Rust project.
    pub source_path: String,
    /// The directory that receives `methods.jsonl` and `structs.jsonl`.
    pub output_path: String,
    pub verbose: bool,
    pub skip_dependencies: bool,
    pub include_private: bool,
    /// The deepest call chain to follow; 10 unless given.
    pub max_depth: usize,
    /// A glob that the analysed files must match.
    pub file_filter: Option<String>,
    pub exclude_tests: bool,
}

} // verus!
