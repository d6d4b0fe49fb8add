//! Bounded rendering of a change set as text.
//!
//! Every changed path is rendered in full, cut off after a fixed number of
//! lines, or collapsed to a one-line summary, as the collapse policy decides.

use crate::collapse::{
    decide_with_match, is_pattern_match, path_matches, reason_label, reason_text, verdict_for,
    ChangeKind, FileFigures, FileStats,
};
use crate::line_diff::{
    count_changes, count_of, diff_changes, diff_unified, line_changes, unified_text, LineChange,
};
use crate::matcher::{
    add_pattern, build_set, builder_patterns, glob_is_valid, new_builder, set_builds, set_patterns,
};
use crate::text::{
    append_chars, append_decimal, chars_of, decimal, decode_lossy, decode_text, lemma_terminated_push,
    lines, lines_of, lossy_text, push_char, terminated, texts, views,
};
use globset::GlobSet;
use vstd::prelude::*;
use vstd::string::StringExecFns;
use vstd::utf8::{decode_utf8, valid_utf8};

verus! {

/// Most lines of an added or deleted file that are rendered.
pub const MAX_LINES: usize = 50;

/// Lines of context on each side of a change in a unified diff.
pub const CONTEXT_LINES: usize = 2;

/// One side of a changed path, as the tree diff resolved it.
#[derive(Debug, PartialEq, Eq)]
pub enum FileState {
    /// No entry at the path.
    Absent,
    /// A file, with its content.
    File(Vec<u8>),
    /// Anything else: an entry that is no file, or one left unresolved.
    Other,
}

/// One changed path with both of its sides.
#[derive(Debug, PartialEq, Eq)]
pub struct ChangeEntry {
    pub path: String,
    pub before: FileState,
    pub after: FileState,
}

/// The first line of every entry that is rendered and not collapsed.
pub open spec fn git_header(path: Seq<char>) -> Seq<char> {
    "diff --git a/"@ + path + " b/"@ + path + "\n"@
}

/// The one-line summary that stands for a collapsed entry: the path, what
/// became of it, how many lines came and went, and why it was collapsed.
pub open spec fn collapsed_summary(
    path: Seq<char>,
    added: nat,
    removed: nat,
    status: Seq<char>,
    reason: Seq<char>,
) -> Seq<char> {
    path + " "@ + status + " (+"@ + decimal(added) + " -"@ + decimal(removed) + " lines, "@
        + reason + ")"@
}

/// What a collapsed entry contributes to a report: its summary as a line of
/// its own.
pub open spec fn collapsed_entry(
    path: Seq<char>,
    added: nat,
    removed: nat,
    status: Seq<char>,
    reason: Seq<char>,
) -> Seq<char> {
    collapsed_summary(path, added, removed, status, reason) + "\n"@
}

/// The words for the reason the policy gives on these figures.
pub fn collapse_reason(
    pattern_match: bool,
    line_count: usize,
    byte_size: usize,
    max_lines: usize,
    max_bytes: usize,
) -> (label: &'static str)
    ensures
        label@ == reason_text(
            verdict_for(
                pattern_match,
                line_count as nat,
                byte_size as nat,
                max_lines as nat,
                max_bytes as nat,
            ).reason,
        ),
{
    if pattern_match {
        "collapsed: matches pattern"
    } else if line_count > max_lines {
        "collapsed: exceeds line limit"
    } else if byte_size > max_bytes {
        "collapsed: exceeds size limit"
    } else {
        "collapsed"
    }
}

/// Appends the first line of an entry that is not collapsed.
fn append_git_header(out: &mut String, path: &str)
    ensures
        final(out)@ == old(out)@ + git_header(path@),
{
    out.append("diff --git a/");
    out.append(path);
    out.append(" b/");
    out.append(path);
    out.append("\n");
}

/// Renders the one-line summary of a collapsed entry.
pub fn format_collapsed_summary(
    path_str: &str,
    added: usize,
    removed: usize,
    status: &str,
    reason: &str,
) -> (summary: String)
    ensures
        summary@ == collapsed_summary(path_str@, added as nat, removed as nat, status@, reason@),
{
    let mut out = String::new();
    out.append(path_str);
    out.append(" ");
    out.append(status);
    out.append(" (+");
    append_decimal(&mut out, added);
    out.append(" -");
    append_decimal(&mut out, removed);
    out.append(" lines, ");
    out.append(reason);
    out.append(")");
    out
}

/// Renders a collapsed entry: its summary and a line feed.
fn format_collapsed_entry(
    path: &str,
    added: usize,
    removed: usize,
    status: &str,
    reason: &str,
) -> (text: String)
    ensures
        text@ == collapsed_entry(path@, added as nat, removed as nat, status@, reason@),
{
    let mut text = format_collapsed_summary(path, added, removed, status, reason);
    text.append("\n");
    text
}

/// The status line of an added or a deleted file.
pub open spec fn status_text(is_added: bool) -> Seq<char> {
    if is_added {
        "new file"@
    } else {
        "deleted file"@
    }
}

/// The four header lines of an added or a deleted file.
pub open spec fn file_header(path: Seq<char>, is_added: bool) -> Seq<char> {
    let from = if is_added {
        "/dev/null"@
    } else {
        "a/"@ + path
    };
    let to = if is_added {
        "b/"@ + path
    } else {
        "/dev/null"@
    };
    git_header(path) + status_text(is_added) + "\n"@ + "--- "@ + from + "\n"@ + "+++ "@ + to
        + "\n"@
}

/// The sign in front of each rendered line of an added or a deleted file.
pub open spec fn line_prefix(is_added: bool) -> char {
    if is_added {
        '+'
    } else {
        '-'
    }
}

/// The line that stands for `hidden` lines that were cut off.
pub open spec fn truncation_trailer(hidden: nat) -> Seq<char> {
    "... ("@ + decimal(hidden) + " more lines)"@
}

/// Every line of `lines` with `prefix` in front.
pub open spec fn marked(lines: Seq<Seq<char>>, prefix: char) -> Seq<Seq<char>> {
    Seq::new(lines.len(), |i: int| seq![prefix] + lines[i])
}

/// The body lines of an added or a deleted text file: every line with its
/// sign while there are at most `cap`, else the first `cap` and a trailer
/// that counts the rest.
pub open spec fn body_lines(lines: Seq<Seq<char>>, prefix: char, cap: nat) -> Seq<Seq<char>> {
    if lines.len() > cap {
        marked(lines.take(cap as int), prefix).push(
            truncation_trailer((lines.len() - cap) as nat),
        )
    } else {
        marked(lines, prefix)
    }
}

/// The full rendering of an added or a deleted file.
pub open spec fn added_removed_text(
    path: Seq<char>,
    content: Seq<u8>,
    is_added: bool,
    cap: nat,
) -> Seq<char> {
    file_header(path, is_added) + if valid_utf8(content) {
        terminated(body_lines(lines_of(decode_utf8(content)), line_prefix(is_added), cap))
    } else {
        "(binary file)\n"@
    }
}

/// An added or a deleted text file of at most `cap` lines is rendered with
/// each of its lines behind the sign and nothing else; a longer one with its
/// first `cap` lines behind the sign and then one trailer that counts the
/// lines left out.
pub proof fn lemma_rendered_lines(path: Seq<char>, content: Seq<u8>, is_added: bool, cap: nat)
    requires
        valid_utf8(content),
    ensures
        ({
            let lines = lines_of(decode_utf8(content));
            let sign = line_prefix(is_added);
            let body = body_lines(lines, sign, cap);
            let count = content_lines(content);
            &&& added_removed_text(path, content, is_added, cap) == file_header(path, is_added)
                + terminated(body)
            &&& count <= cap ==> body.len() == count
            &&& count > cap ==> body.len() == cap + 1 && body[cap as int] == truncation_trailer(
                (count - cap) as nat,
            )
            &&& forall|i: int|
                0 <= i < count && i < cap ==> #[trigger] body[i] == seq![sign] + lines[i]
            &&& forall|i: int, hidden: nat|
                0 <= i < count && i < cap ==> #[trigger] body[i] != #[trigger] truncation_trailer(
                    hidden,
                )
        }),
{
    let lines = lines_of(decode_utf8(content));
    let sign = line_prefix(is_added);
    let body = body_lines(lines, sign, cap);
    let count = content_lines(content);
    assert forall|i: int, hidden: nat| 0 <= i < count && i < cap implies #[trigger] body[i]
        != #[trigger] truncation_trailer(hidden) by {
        reveal_strlit("... (");
        assert(body[i][0] == sign);
        assert(truncation_trailer(hidden)[0] == '.');
    }
}

/// Renders an added or a deleted file with at most `max_lines` of its lines.
pub fn format_added_removed_diff(
    path_str: &str,
    content: &[u8],
    is_added: bool,
    max_lines: usize,
) -> (rendered: String)
    ensures
        rendered@ == added_removed_text(path_str@, content@, is_added, max_lines as nat),
{
    let mut out = String::new();
    append_git_header(&mut out, path_str);
    if is_added {
        out.append("new file");
        out.append("\n");
        out.append("--- ");
        out.append("/dev/null");
        out.append("\n");
        out.append("+++ ");
        out.append("b/");
        out.append(path_str);
        out.append("\n");
        assert(out@ == file_header(path_str@, is_added));
    } else {
        out.append("deleted file");
        out.append("\n");
        out.append("--- ");
        out.append("a/");
        out.append(path_str);
        out.append("\n");
        out.append("+++ ");
        out.append("/dev/null");
        out.append("\n");
        assert(out@ == file_header(path_str@, is_added));
    }
    match decode_text(content) {
        Some(text) => {
            let chars = chars_of(text.as_str());
            let all = lines(chars.as_slice());
            let prefix = if is_added {
                '+'
            } else {
                '-'
            };
            let ghost head = out@;
            let ghost spec_lines = lines_of(decode_utf8(content@));
            assert(views(all@).len() == all@.len());
            let shown: usize = if all.len() > max_lines {
                max_lines
            } else {
                all.len()
            };
            let mut i: usize = 0;
            assert(marked(spec_lines.take(0), prefix) =~= Seq::<Seq<char>>::empty());
            while i < shown
                invariant
                    i <= shown <= all.len(),
                    views(all@) == spec_lines,
                    spec_lines.len() == all@.len(),
                    out@ == head + terminated(marked(spec_lines.take(i as int), prefix)),
                decreases shown - i,
            {
                let ghost so_far = marked(spec_lines.take(i as int), prefix);
                let ghost line = seq![prefix] + spec_lines[i as int];
                proof {
                    lemma_terminated_push(so_far, line);
                    assert(marked(spec_lines.take(i + 1), prefix) =~= so_far.push(line));
                    assert(all@[i as int]@ == views(all@)[i as int]);
                }
                push_char(&mut out, prefix);
                append_chars(&mut out, all[i].as_slice());
                push_char(&mut out, '\n');
                assert(out@ == head + (terminated(so_far) + line.push('\n')));
                i += 1;
            }
            if all.len() > max_lines {
                let ghost so_far = marked(spec_lines.take(max_lines as int), prefix);
                let ghost trailer = truncation_trailer((all.len() - max_lines) as nat);
                proof {
                    lemma_terminated_push(so_far, trailer);
                }
                out.append("... (");
                append_decimal(&mut out, all.len() - max_lines);
                out.append(" more lines)");
                out.append("\n");
                assert(out@ == head + (terminated(so_far) + trailer.push('\n'))) by {
                    reveal_strlit("\n");
                    assert("\n"@ =~= seq!['\n']);
                }
            } else {
                assert(spec_lines.take(shown as int) == spec_lines);
            }
        },
        None => {
            out.append("(binary file)\n");
        },
    }
    out
}

/// What one entry contributes to a report.
#[derive(Debug, PartialEq, Eq)]
pub struct Rendered {
    /// The text for the entry; empty where the entry is skipped.
    pub text: String,
    /// Whether the entry was collapsed to a summary.
    pub collapsed: bool,
    /// The size figures of the entry; none where the entry is skipped.
    pub stats: Option<FileStats>,
}

/// The model of `Rendered`.
pub struct Rendering {
    pub text: Seq<char>,
    pub collapsed: bool,
    pub stats: Option<FileFigures>,
}

impl View for Rendered {
    type V = Rendering;

    open spec fn view(&self) -> Rendering {
        Rendering {
            text: self.text@,
            collapsed: self.collapsed,
            stats: match self.stats {
                Some(stats) => Some(stats@),
                None => None,
            },
        }
    }
}

/// The line count of an added or a deleted file: the lines of its text.
/// Content that is no text is decoded leniently, so that it has a count too.
pub open spec fn content_lines(content: Seq<u8>) -> nat {
    if valid_utf8(content) {
        lines_of(decode_utf8(content)).len()
    } else {
        lines_of(lossy_text(content)).len()
    }
}

/// The larger of two sizes.
pub open spec fn larger(a: nat, b: nat) -> nat {
    if a >= b {
        a
    } else {
        b
    }
}

/// The size figures of an added or a deleted file: its bytes and its lines,
/// all of them added or all of them removed.
pub open spec fn one_sided_figures(path: Seq<char>, content: Seq<u8>, is_added: bool) -> FileFigures {
    let count = content_lines(content);
    FileFigures {
        path,
        byte_size: content.len(),
        line_count: count,
        change_kind: if is_added {
            ChangeKind::Added
        } else {
            ChangeKind::Deleted
        },
        added_lines: if is_added {
            count
        } else {
            0
        },
        removed_lines: if is_added {
            0
        } else {
            count
        },
    }
}

/// The size figures of a modified text file whose sides have `before_len`
/// and `after_len` bytes and differ by `changes`: the bytes of the larger
/// side, and the inserted and deleted lines rather than the lines of the
/// file, so that a small change to a large file counts as small.
pub open spec fn modified_figures(
    path: Seq<char>,
    before_len: nat,
    after_len: nat,
    changes: Seq<LineChange>,
) -> FileFigures {
    let added = count_of(changes, LineChange::Insert);
    let removed = count_of(changes, LineChange::Delete);
    FileFigures {
        path,
        byte_size: larger(before_len, after_len),
        line_count: added + removed,
        change_kind: ChangeKind::Modified,
        added_lines: added,
        removed_lines: removed,
    }
}

/// The size figures of a modified file of which a side is no text: no lines
/// are counted.
pub open spec fn binary_figures(path: Seq<char>, before_len: nat, after_len: nat) -> FileFigures {
    FileFigures {
        path,
        byte_size: larger(before_len, after_len),
        line_count: 0,
        change_kind: ChangeKind::BinaryModified,
        added_lines: 0,
        removed_lines: 0,
    }
}

/// The size figures of an added or a deleted file.
pub fn one_sided_stats(path: &str, content: &[u8], is_added: bool) -> (stats: FileStats)
    ensures
        stats@ == one_sided_figures(path@, content@, is_added),
{
    let text = decode_lossy(content);
    let chars = chars_of(text.as_str());
    let all = lines(chars.as_slice());
    assert(views(all@).len() == all@.len());
    let line_count = all.len();
    FileStats {
        path: path.to_owned(),
        byte_size: content.len(),
        line_count,
        change_kind: if is_added {
            ChangeKind::Added
        } else {
            ChangeKind::Deleted
        },
        added_lines: if is_added {
            line_count
        } else {
            0
        },
        removed_lines: if is_added {
            0
        } else {
            line_count
        },
    }
}

/// The size figures of a modified text file.
pub fn modified_stats(path: &str, before_len: usize, after_len: usize, changes: &[LineChange]) -> (stats:
    FileStats)
    ensures
        stats@ == modified_figures(path@, before_len as nat, after_len as nat, changes@),
{
    let (added, removed) = count_changes(changes);
    FileStats {
        path: path.to_owned(),
        byte_size: if before_len >= after_len {
            before_len
        } else {
            after_len
        },
        line_count: added + removed,
        change_kind: ChangeKind::Modified,
        added_lines: added,
        removed_lines: removed,
    }
}

/// The size figures of a modified file of which a side is no text.
pub fn binary_stats(path: &str, before_len: usize, after_len: usize) -> (stats: FileStats)
    ensures
        stats@ == binary_figures(path@, before_len as nat, after_len as nat),
{
    FileStats {
        path: path.to_owned(),
        byte_size: if before_len >= after_len {
            before_len
        } else {
            after_len
        },
        line_count: 0,
        change_kind: ChangeKind::BinaryModified,
        added_lines: 0,
        removed_lines: 0,
    }
}

/// What an added or a deleted file contributes: its summary where the policy
/// collapses it, else its rendering cut off after `MAX_LINES` lines.
pub open spec fn one_sided_rendering(
    path: Seq<char>,
    content: Seq<u8>,
    is_added: bool,
    pattern_match: bool,
    max_lines: nat,
    max_bytes: nat,
) -> Rendering {
    let figures = one_sided_figures(path, content, is_added);
    let verdict = verdict_for(
        pattern_match,
        figures.line_count,
        figures.byte_size,
        max_lines,
        max_bytes,
    );
    Rendering {
        text: if verdict.collapse {
            collapsed_entry(
                path,
                figures.added_lines,
                figures.removed_lines,
                status_text(is_added),
                reason_text(verdict.reason),
            )
        } else {
            added_removed_text(path, content, is_added, MAX_LINES as nat)
        },
        collapsed: verdict.collapse,
        stats: Some(figures),
    }
}

/// Renders an added or a deleted file.
pub fn render_one_sided(
    path: &str,
    content: &[u8],
    is_added: bool,
    pattern_match: bool,
    max_diff_lines: usize,
    max_diff_bytes: usize,
) -> (rendered: Rendered)
    ensures
        rendered@ == one_sided_rendering(
            path@,
            content@,
            is_added,
            pattern_match,
            max_diff_lines as nat,
            max_diff_bytes as nat,
        ),
{
    let stats = one_sided_stats(path, content, is_added);
    let verdict = decide_with_match(pattern_match, &stats, max_diff_lines, max_diff_bytes);
    let text = if verdict.collapse {
        let status = if is_added {
            "new file"
        } else {
            "deleted file"
        };
        format_collapsed_entry(
            path,
            stats.added_lines,
            stats.removed_lines,
            status,
            reason_label(verdict.reason),
        )
    } else {
        format_added_removed_diff(path, content, is_added, MAX_LINES)
    };
    Rendered { text, collapsed: verdict.collapse, stats: Some(stats) }
}

/// What a modified file contributes. Two texts are diffed line by line, and
/// the entry becomes a summary where the policy collapses it, else a unified
/// diff. Where a side is no text, the entry is a fixed marker, whatever the
/// policy would say.
pub open spec fn modified_rendering(
    path: Seq<char>,
    before: Seq<u8>,
    after: Seq<u8>,
    pattern_match: bool,
    max_lines: nat,
    max_bytes: nat,
) -> Rendering {
    if valid_utf8(before) && valid_utf8(after) {
        let old_text = decode_utf8(before);
        let new_text = decode_utf8(after);
        let figures = modified_figures(
            path,
            before.len(),
            after.len(),
            line_changes(old_text, new_text),
        );
        let verdict = verdict_for(
            pattern_match,
            figures.line_count,
            figures.byte_size,
            max_lines,
            max_bytes,
        );
        Rendering {
            text: if verdict.collapse {
                collapsed_entry(
                    path,
                    figures.added_lines,
                    figures.removed_lines,
                    "modified"@,
                    reason_text(verdict.reason),
                )
            } else {
                git_header(path) + unified_text(
                    old_text,
                    new_text,
                    CONTEXT_LINES as nat,
                    "a/"@ + path,
                    "b/"@ + path,
                )
            },
            collapsed: verdict.collapse,
            stats: Some(figures),
        }
    } else {
        Rendering {
            text: git_header(path) + "(binary file modified)\n"@,
            collapsed: false,
            stats: Some(binary_figures(path, before.len(), after.len())),
        }
    }
}

/// Renders a modified file.
pub fn render_modified(
    path: &str,
    before: &[u8],
    after: &[u8],
    pattern_match: bool,
    max_diff_lines: usize,
    max_diff_bytes: usize,
) -> (rendered: Rendered)
    ensures
        rendered@ == modified_rendering(
            path@,
            before@,
            after@,
            pattern_match,
            max_diff_lines as nat,
            max_diff_bytes as nat,
        ),
{
    match (decode_text(before), decode_text(after)) {
        (Some(old_text), Some(new_text)) => {
            let changes = diff_changes(old_text.as_str(), new_text.as_str());
            let stats = modified_stats(path, before.len(), after.len(), changes.as_slice());
            let verdict = decide_with_match(pattern_match, &stats, max_diff_lines, max_diff_bytes);
            let text = if verdict.collapse {
                format_collapsed_entry(
                    path,
                    stats.added_lines,
                    stats.removed_lines,
                    "modified",
                    reason_label(verdict.reason),
                )
            } else {
                let mut old_name = String::new();
                old_name.append("a/");
                old_name.append(path);
                let mut new_name = String::new();
                new_name.append("b/");
                new_name.append(path);
                let unified = diff_unified(
                    old_text.as_str(),
                    new_text.as_str(),
                    CONTEXT_LINES,
                    old_name.as_str(),
                    new_name.as_str(),
                );
                let mut text = String::new();
                append_git_header(&mut text, path);
                text.append(unified.as_str());
                text
            };
            Rendered { text, collapsed: verdict.collapse, stats: Some(stats) }
        },
        _ => {
            let mut text = String::new();
            append_git_header(&mut text, path);
            text.append("(binary file modified)\n");
            Rendered {
                text,
                collapsed: false,
                stats: Some(binary_stats(path, before.len(), after.len())),
            }
        },
    }
}

/// What `entry` contributes to a report. A path that was absent and is now a
/// file is added; the reverse is deleted; a file on both sides is modified;
/// every other shape contributes nothing.
pub open spec fn entry_rendering(
    entry: ChangeEntry,
    pattern_match: bool,
    max_lines: nat,
    max_bytes: nat,
) -> Rendering {
    match (entry.before, entry.after) {
        (FileState::Absent, FileState::File(content)) => one_sided_rendering(
            entry.path@,
            content@,
            true,
            pattern_match,
            max_lines,
            max_bytes,
        ),
        (FileState::File(content), FileState::Absent) => one_sided_rendering(
            entry.path@,
            content@,
            false,
            pattern_match,
            max_lines,
            max_bytes,
        ),
        (FileState::File(before), FileState::File(after)) => modified_rendering(
            entry.path@,
            before@,
            after@,
            pattern_match,
            max_lines,
            max_bytes,
        ),
        _ => Rendering { text: Seq::empty(), collapsed: false, stats: None },
    }
}

/// Renders one entry.
pub fn render_entry(
    entry: &ChangeEntry,
    collapse_matcher: Option<&GlobSet>,
    max_diff_lines: usize,
    max_diff_bytes: usize,
) -> (rendered: Rendered)
    ensures
        rendered@ == entry_rendering(
            *entry,
            path_matches(collapse_matcher, entry.path@),
            max_diff_lines as nat,
            max_diff_bytes as nat,
        ),
{
    let path = entry.path.as_str();
    let pattern_match = is_pattern_match(collapse_matcher, path);
    match (&entry.before, &entry.after) {
        (FileState::Absent, FileState::File(content)) => render_one_sided(
            path,
            content.as_slice(),
            true,
            pattern_match,
            max_diff_lines,
            max_diff_bytes,
        ),
        (FileState::File(content), FileState::Absent) => render_one_sided(
            path,
            content.as_slice(),
            false,
            pattern_match,
            max_diff_lines,
            max_diff_bytes,
        ),
        (FileState::File(before), FileState::File(after)) => render_modified(
            path,
            before.as_slice(),
            after.as_slice(),
            pattern_match,
            max_diff_lines,
            max_diff_bytes,
        ),
        _ => Rendered { text: String::new(), collapsed: false, stats: None },
    }
}

/// The rendered change set with its counts.
#[derive(Debug, PartialEq, Eq)]
pub struct DiffReport {
    pub text: String,
    /// Entries that contributed text, collapsed ones included.
    pub files_rendered: usize,
    /// Entries that were collapsed to a summary.
    pub files_collapsed: usize,
}

/// The model of `DiffReport`.
pub struct ReportModel {
    pub text: Seq<char>,
    pub files_rendered: nat,
    pub files_collapsed: nat,
}

impl View for DiffReport {
    type V = ReportModel;

    open spec fn view(&self) -> ReportModel {
        ReportModel {
            text: self.text@,
            files_rendered: self.files_rendered as nat,
            files_collapsed: self.files_collapsed as nat,
        }
    }
}

/// The report of an empty change set.
pub open spec fn empty_report() -> ReportModel {
    ReportModel { text: Seq::empty(), files_rendered: 0, files_collapsed: 0 }
}

/// `report` after one more entry. An entry without text is skipped.
pub open spec fn report_with(report: ReportModel, entry: Rendering) -> ReportModel {
    if entry.text.len() == 0 {
        report
    } else {
        ReportModel {
            text: report.text + entry.text,
            files_rendered: report.files_rendered + 1,
            files_collapsed: report.files_collapsed + if entry.collapsed {
                1nat
            } else {
                0nat
            },
        }
    }
}

/// The report for `entries`, taken in the order given.
pub open spec fn report_of(
    entries: Seq<ChangeEntry>,
    matcher: Option<&GlobSet>,
    max_lines: nat,
    max_bytes: nat,
) -> ReportModel
    decreases entries.len(),
{
    if entries.len() == 0 {
        empty_report()
    } else {
        report_with(
            report_of(entries.drop_last(), matcher, max_lines, max_bytes),
            entry_rendering(
                entries.last(),
                path_matches(matcher, entries.last().path@),
                max_lines,
                max_bytes,
            ),
        )
    }
}

/// A report counts no more collapsed entries than rendered ones, and no more
/// rendered ones than there are entries.
pub proof fn lemma_report_counts(
    entries: Seq<ChangeEntry>,
    matcher: Option<&GlobSet>,
    max_lines: nat,
    max_bytes: nat,
)
    ensures
        report_of(entries, matcher, max_lines, max_bytes).files_collapsed <= report_of(
            entries,
            matcher,
            max_lines,
            max_bytes,
        ).files_rendered <= entries.len(),
    decreases entries.len(),
{
    if entries.len() > 0 {
        lemma_report_counts(entries.drop_last(), matcher, max_lines, max_bytes);
    }
}

impl DiffReport {
    /// A report without entries.
    pub fn new() -> (report: DiffReport)
        ensures
            report@ == empty_report(),
    {
        DiffReport { text: String::new(), files_rendered: 0, files_collapsed: 0 }
    }

    /// Adds what one entry contributes.
    pub fn add(&mut self, entry: &Rendered)
        requires
            old(self).files_rendered < usize::MAX,
            old(self).files_collapsed < usize::MAX,
        ensures
            final(self)@ == report_with(old(self)@, entry@),
    {
        if !entry.text.as_str().is_empty() {
            self.text.append(entry.text.as_str());
            self.files_rendered = self.files_rendered + 1;
            if entry.collapsed {
                self.files_collapsed = self.files_collapsed + 1;
            }
        }
    }
}

/// Renders `entries` in the order given and counts them.
pub fn render_report(
    entries: &[ChangeEntry],
    collapse_matcher: Option<&GlobSet>,
    max_diff_lines: usize,
    max_diff_bytes: usize,
) -> (report: DiffReport)
    ensures
        report@ == report_of(
            entries@,
            collapse_matcher,
            max_diff_lines as nat,
            max_diff_bytes as nat,
        ),
        report.files_collapsed <= report.files_rendered <= entries@.len(),
{
    let mut report = DiffReport::new();
    let mut i: usize = 0;
    while i < entries.len()
        invariant
            i <= entries.len(),
            report@ == report_of(
                entries@.take(i as int),
                collapse_matcher,
                max_diff_lines as nat,
                max_diff_bytes as nat,
            ),
        decreases entries.len() - i,
    {
        let rendered = render_entry(&entries[i], collapse_matcher, max_diff_lines, max_diff_bytes);
        proof {
            lemma_report_counts(
                entries@.take(i as int),
                collapse_matcher,
                max_diff_lines as nat,
                max_diff_bytes as nat,
            );
            assert(entries@.take(i + 1).drop_last() == entries@.take(i as int));
        }
        report.add(&rendered);
        i += 1;
    }
    proof {
        assert(entries@.take(entries.len() as int) == entries@);
        lemma_report_counts(entries@, collapse_matcher, max_diff_lines as nat, max_diff_bytes as nat);
    }
    report
}

/// The text of the diff for `entries`.
pub fn get_tree_diff(
    entries: &[ChangeEntry],
    collapse_matcher: Option<&GlobSet>,
    max_diff_lines: usize,
    max_diff_bytes: usize,
) -> (text: String)
    ensures
        text@ == report_of(
            entries@,
            collapse_matcher,
            max_diff_lines as nat,
            max_diff_bytes as nat,
        ).text,
{
    render_report(entries, collapse_matcher, max_diff_lines, max_diff_bytes).text
}

/// The patterns of `patterns` that `globset` accepts, in their order.
pub open spec fn accepted_patterns(patterns: Seq<Seq<char>>) -> Seq<Seq<char>>
    decreases patterns.len(),
{
    if patterns.len() == 0 {
        Seq::empty()
    } else if glob_is_valid(patterns.last()) {
        accepted_patterns(patterns.drop_last()).push(patterns.last())
    } else {
        accepted_patterns(patterns.drop_last())
    }
}

/// The patterns of `patterns` that `globset` rejects, in their order.
pub open spec fn rejected_patterns(patterns: Seq<Seq<char>>) -> Seq<Seq<char>>
    decreases patterns.len(),
{
    if patterns.len() == 0 {
        Seq::empty()
    } else if glob_is_valid(patterns.last()) {
        rejected_patterns(patterns.drop_last())
    } else {
        rejected_patterns(patterns.drop_last()).push(patterns.last())
    }
}

/// Whether there is a matcher for `patterns`: there are patterns, and
/// `globset` builds the set of those that it accepts.
pub open spec fn matcher_is_built(patterns: Seq<Seq<char>>) -> bool {
    patterns.len() > 0 && set_builds(accepted_patterns(patterns))
}

/// What became of a list of collapse patterns.
pub struct CompiledPatterns {
    /// The matcher, if there is one.
    pub matcher: Option<GlobSet>,
    /// The patterns that were skipped because `globset` rejects them.
    pub skipped: Vec<String>,
}

/// Builds the collapse matcher and lists the patterns that were skipped.
/// Without patterns there is no matcher. A pattern that `globset` rejects is
/// skipped; the others make the set, and there is a matcher exactly where
/// `globset` builds that set. Where every pattern is rejected there is
/// nothing to build, and the matcher is the empty set.
pub fn compile_collapse_patterns(patterns: &[String]) -> (compiled: CompiledPatterns)
    ensures
        texts(compiled.skipped@) == rejected_patterns(texts(patterns@)),
        compiled.matcher is Some <==> matcher_is_built(texts(patterns@)),
        compiled.matcher matches Some(set) ==> set_patterns(set) == accepted_patterns(
            texts(patterns@),
        ),
        patterns@.len() > 0 && accepted_patterns(texts(patterns@)).len() == 0
            ==> compiled.matcher is Some,
{
    let mut skipped: Vec<String> = Vec::new();
    assert(texts(patterns@).take(0) =~= Seq::<Seq<char>>::empty());
    assert(texts(skipped@) =~= Seq::<Seq<char>>::empty());
    if patterns.len() == 0 {
        assert(texts(patterns@) =~= Seq::<Seq<char>>::empty());
        return CompiledPatterns { matcher: None, skipped };
    }
    let mut builder = new_builder();
    let mut i: usize = 0;
    while i < patterns.len()
        invariant
            i <= patterns.len(),
            builder_patterns(builder) == accepted_patterns(texts(patterns@).take(i as int)),
            texts(skipped@) == rejected_patterns(texts(patterns@).take(i as int)),
        decreases patterns.len() - i,
    {
        proof {
            let upto = texts(patterns@).take(i + 1);
            assert(upto.drop_last() == texts(patterns@).take(i as int));
            assert(upto.last() == patterns@[i as int]@);
        }
        if !add_pattern(&mut builder, patterns[i].as_str()) {
            let pattern = patterns[i].clone();
            assert(texts(skipped@.push(pattern)) =~= texts(skipped@).push(pattern@));
            skipped.push(pattern);
        }
        i += 1;
    }
    assert(texts(patterns@).take(patterns.len() as int) == texts(patterns@));
    CompiledPatterns { matcher: build_set(&builder), skipped }
}

/// Builds the collapse matcher. Without patterns there is no matcher. A
/// pattern that `globset` rejects is skipped; the others make the set, and
/// there is a matcher exactly where `globset` builds that set. Where every
/// pattern is rejected there is nothing to build, and the matcher is the
/// empty set.
pub fn build_collapse_matcher(patterns: &[String]) -> (matcher: Option<GlobSet>)
    ensures
        matcher is Some <==> matcher_is_built(texts(patterns@)),
        matcher matches Some(set) ==> set_patterns(set) == accepted_patterns(texts(patterns@)),
        patterns@.len() > 0 && accepted_patterns(texts(patterns@)).len() == 0 ==> matcher is Some,
{
    compile_collapse_patterns(patterns).matcher
}

/// The diff for `entries` under the collapse patterns `collapse_patterns`.
/// Where a matcher is built for the patterns, the entries are rendered under
/// a set of the accepted patterns; where none is, they are rendered without
/// a matcher.
pub fn render_diff(
    entries: &[ChangeEntry],
    collapse_patterns: &[String],
    max_diff_lines: usize,
    max_diff_bytes: usize,
) -> (text: String)
    ensures
        !matcher_is_built(texts(collapse_patterns@)) ==> text@ == report_of(
            entries@,
            None,
            max_diff_lines as nat,
            max_diff_bytes as nat,
        ).text,
        matcher_is_built(texts(collapse_patterns@)) ==> exists|set: GlobSet|
            #![trigger set_patterns(set)]
            set_patterns(set) == accepted_patterns(texts(collapse_patterns@)) && text@
                == report_of(
                entries@,
                Some(&set),
                max_diff_lines as nat,
                max_diff_bytes as nat,
            ).text,
{
    let matcher = build_collapse_matcher(collapse_patterns);
    get_tree_diff(entries, matcher.as_ref(), max_diff_lines, max_diff_bytes)
}

} // verus!
