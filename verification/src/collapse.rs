//! The collapse policy: whether a changed path is rendered or collapsed to
//! a summary, and why.

use crate::matcher::{globs_match, set_is_match, set_patterns};
use globset::GlobSet;
use vstd::prelude::*;

verus! {

/// How a path was changed.
#[derive(Clone, Copy, Debug, PartialEq, Eq, Structural)]
pub enum ChangeKind {
    Added,
    Deleted,
    Modified,
    BinaryModified,
}

/// Size figures of one changed path.
#[derive(Debug, PartialEq, Eq)]
pub struct FileStats {
    pub path: String,
    /// Bytes of content; for a modified file, of the larger side.
    pub byte_size: usize,
    /// Lines of content; for a modified file, inserted plus deleted lines.
    pub line_count: usize,
    pub change_kind: ChangeKind,
    pub added_lines: usize,
    pub removed_lines: usize,
}

/// The model of `FileStats`.
pub struct FileFigures {
    pub path: Seq<char>,
    pub byte_size: nat,
    pub line_count: nat,
    pub change_kind: ChangeKind,
    pub added_lines: nat,
    pub removed_lines: nat,
}

impl View for FileStats {
    type V = FileFigures;

    open spec fn view(&self) -> FileFigures {
        FileFigures {
            path: self.path@,
            byte_size: self.byte_size as nat,
            line_count: self.line_count as nat,
            change_kind: self.change_kind,
            added_lines: self.added_lines as nat,
            removed_lines: self.removed_lines as nat,
        }
    }
}

/// Why a path was collapsed.
#[derive(Clone, Copy, Debug, PartialEq, Eq, Structural)]
pub enum CollapseReason {
    PatternMatch,
    LineLimitExceeded,
    ByteLimitExceeded,
    NotCollapsed,
}

/// The collapse policy's answer for one path.
#[derive(Clone, Copy, Debug, PartialEq, Eq, Structural)]
pub struct CollapseVerdict {
    pub collapse: bool,
    pub reason: CollapseReason,
}

/// What the policy answers on these figures. A pattern match comes first,
/// then the line limit, then the byte limit.
pub open spec fn verdict_for(
    pattern_match: bool,
    line_count: nat,
    byte_size: nat,
    max_lines: nat,
    max_bytes: nat,
) -> CollapseVerdict {
    if pattern_match {
        CollapseVerdict { collapse: true, reason: CollapseReason::PatternMatch }
    } else if line_count > max_lines {
        CollapseVerdict { collapse: true, reason: CollapseReason::LineLimitExceeded }
    } else if byte_size > max_bytes {
        CollapseVerdict { collapse: true, reason: CollapseReason::ByteLimitExceeded }
    } else {
        CollapseVerdict { collapse: false, reason: CollapseReason::NotCollapsed }
    }
}

/// Whether a matcher is configured and matches `path`.
pub open spec fn path_matches(matcher: Option<&GlobSet>, path: Seq<char>) -> bool {
    match matcher {
        Some(set) => globs_match(set_patterns(*set), path),
        None => false,
    }
}

/// The verdict of the policy for `path` with the size figures `stats`.
pub open spec fn decision(
    path: Seq<char>,
    stats: FileStats,
    matcher: Option<&GlobSet>,
    max_lines: nat,
    max_bytes: nat,
) -> CollapseVerdict {
    verdict_for(
        path_matches(matcher, path),
        stats.line_count as nat,
        stats.byte_size as nat,
        max_lines,
        max_bytes,
    )
}

/// A path that matches no collapse pattern and has more lines than allowed is
/// collapsed, and the reason is the line limit.
pub proof fn lemma_line_limit_collapses(
    path: Seq<char>,
    stats: FileStats,
    matcher: Option<&GlobSet>,
    max_lines: nat,
    max_bytes: nat,
)
    requires
        stats.line_count > max_lines,
        !path_matches(matcher, path),
    ensures
        decision(path, stats, matcher, max_lines, max_bytes) == (CollapseVerdict {
            collapse: true,
            reason: CollapseReason::LineLimitExceeded,
        }),
{
}

/// A path that matches a collapse pattern is collapsed for that reason,
/// whatever its size is.
pub proof fn lemma_pattern_match_comes_first(
    path: Seq<char>,
    stats: FileStats,
    matcher: Option<&GlobSet>,
    max_lines: nat,
    max_bytes: nat,
)
    requires
        path_matches(matcher, path),
    ensures
        decision(path, stats, matcher, max_lines, max_bytes) == (CollapseVerdict {
            collapse: true,
            reason: CollapseReason::PatternMatch,
        }),
{
}

/// The policy has no hidden state: two verdicts reached on the same inputs
/// are the same verdict.
pub proof fn lemma_decision_repeats(
    path: Seq<char>,
    stats: FileStats,
    matcher: Option<&GlobSet>,
    max_lines: nat,
    max_bytes: nat,
    first: CollapseVerdict,
    second: CollapseVerdict,
)
    requires
        first == decision(path, stats, matcher, max_lines, max_bytes),
        second == decision(path, stats, matcher, max_lines, max_bytes),
    ensures
        first == second,
{
}

/// The words that stand for `reason` in a collapsed summary.
pub open spec fn reason_text(reason: CollapseReason) -> Seq<char> {
    match reason {
        CollapseReason::PatternMatch => "collapsed: matches pattern"@,
        CollapseReason::LineLimitExceeded => "collapsed: exceeds line limit"@,
        CollapseReason::ByteLimitExceeded => "collapsed: exceeds size limit"@,
        CollapseReason::NotCollapsed => "collapsed"@,
    }
}

/// Whether the configured matcher matches `path`.
pub fn is_pattern_match(matcher: Option<&GlobSet>, path: &str) -> (matched: bool)
    ensures
        matched == path_matches(matcher, path@),
{
    match matcher {
        Some(set) => set_is_match(set, path),
        None => false,
    }
}

/// The collapse policy, given whether the path matched a collapse pattern.
pub fn decide_with_match(
    pattern_match: bool,
    stats: &FileStats,
    max_lines: usize,
    max_bytes: usize,
) -> (verdict: CollapseVerdict)
    ensures
        verdict == verdict_for(
            pattern_match,
            stats.line_count as nat,
            stats.byte_size as nat,
            max_lines as nat,
            max_bytes as nat,
        ),
{
    if pattern_match {
        CollapseVerdict { collapse: true, reason: CollapseReason::PatternMatch }
    } else if stats.line_count > max_lines {
        CollapseVerdict { collapse: true, reason: CollapseReason::LineLimitExceeded }
    } else if stats.byte_size > max_bytes {
        CollapseVerdict { collapse: true, reason: CollapseReason::ByteLimitExceeded }
    } else {
        CollapseVerdict { collapse: false, reason: CollapseReason::NotCollapsed }
    }
}

/// The collapse policy for `path` with the size figures `stats`.
pub fn decide(
    path: &str,
    stats: &FileStats,
    matcher: Option<&GlobSet>,
    max_lines: usize,
    max_bytes: usize,
) -> (verdict: CollapseVerdict)
    ensures
        verdict == decision(path@, *stats, matcher, max_lines as nat, max_bytes as nat),
{
    let pattern_match = is_pattern_match(matcher, path);
    decide_with_match(pattern_match, stats, max_lines, max_bytes)
}

/// The words for `reason`.
pub fn reason_label(reason: CollapseReason) -> (label: &'static str)
    ensures
        label@ == reason_text(reason),
{
    match reason {
        CollapseReason::PatternMatch => "collapsed: matches pattern",
        CollapseReason::LineLimitExceeded => "collapsed: exceeds line limit",
        CollapseReason::ByteLimitExceeded => "collapsed: exceeds size limit",
        CollapseReason::NotCollapsed => "collapsed",
    }
}

} // verus!
