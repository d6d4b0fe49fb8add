//! The settings of a run, as plain values.

use vstd::prelude::*;

verus! {

/// All settings.
#[derive(Debug, PartialEq, Eq)]
pub struct Config {
    pub prompt: PromptConfig,
    pub generator: GeneratorConfig,
    pub bookmark: BookmarkConfig,
    pub diff: DiffConfig,
}

/// The prompt for commit messages.
#[derive(Debug, PartialEq, Eq)]
pub struct PromptConfig {
    /// The template, with the placeholders `{language}` and `{diff_content}`.
    pub template: String,
}

/// How the agent is run, and what stands in for a message that it got wrong.
#[derive(Debug, PartialEq, Eq)]
pub struct GeneratorConfig {
    pub command: String,
    pub args: Vec<String>,
    pub default_commit_message: String,
}

/// The prompt for bookmark names.
#[derive(Debug, PartialEq, Eq)]
pub struct BookmarkConfig {
    /// The template, with the placeholder `{commit_summaries}`.
    pub prompt_template: String,
}

/// The limits of diff rendering.
#[derive(Debug, PartialEq, Eq)]
pub struct DiffConfig {
    /// Globs of paths that are always collapsed.
    pub collapse_patterns: Vec<String>,
    /// Most lines of one file that are rendered.
    pub max_diff_lines: usize,
    /// Most bytes of one file that are rendered.
    pub max_diff_bytes: usize,
    /// Most lines of the whole diff.
    pub max_total_diff_lines: usize,
    /// Most bytes of the whole diff.
    pub max_total_diff_bytes: usize,
}

} // verus!
