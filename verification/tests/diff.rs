use ccc_jj::budget::{check_aggregate_budget, BudgetExceeded};
use ccc_jj::collapse::{
    decide, decide_with_match, is_pattern_match, reason_label, ChangeKind, CollapseReason,
    CollapseVerdict, FileStats,
};
use ccc_jj::diff::{
    binary_stats, build_collapse_matcher, collapse_reason, compile_collapse_patterns,
    format_added_removed_diff, format_collapsed_summary, get_tree_diff, modified_stats,
    one_sided_stats, render_diff, render_entry, render_modified, render_one_sided, render_report,
    ChangeEntry, DiffReport, FileState, Rendered, CONTEXT_LINES, MAX_LINES,
};
use ccc_jj::line_diff::{count_changes, LineChange};

fn stats(line_count: usize, byte_size: usize) -> FileStats {
    FileStats {
        path: String::from("src/lib.rs"),
        byte_size,
        line_count,
        change_kind: ChangeKind::Added,
        added_lines: line_count,
        removed_lines: 0,
    }
}

fn numbered_lines(n: usize) -> String {
    let mut text = String::new();
    for i in 1..=n {
        text.push_str(&format!("line {i}\n"));
    }
    text
}

fn added(path: &str, content: &[u8]) -> ChangeEntry {
    ChangeEntry {
        path: String::from(path),
        before: FileState::Absent,
        after: FileState::File(content.to_vec()),
    }
}

fn deleted(path: &str, content: &[u8]) -> ChangeEntry {
    ChangeEntry {
        path: String::from(path),
        before: FileState::File(content.to_vec()),
        after: FileState::Absent,
    }
}

fn modified(path: &str, before: &[u8], after: &[u8]) -> ChangeEntry {
    ChangeEntry {
        path: String::from(path),
        before: FileState::File(before.to_vec()),
        after: FileState::File(after.to_vec()),
    }
}

fn patterns(globs: &[&str]) -> Vec<String> {
    globs.iter().map(|g| String::from(*g)).collect()
}

fn count_of(haystack: &str, needle: &str) -> usize {
    haystack.matches(needle).count()
}

#[test]
fn render_constants() {
    assert_eq!(MAX_LINES, 50);
    assert_eq!(CONTEXT_LINES, 2);
}

#[test]
fn line_limit_collapses_without_pattern_match() {
    let verdict = decide("src/lib.rs", &stats(11, 5), None, 10, 1000);
    assert_eq!(
        verdict,
        CollapseVerdict { collapse: true, reason: CollapseReason::LineLimitExceeded }
    );
    let verdict = decide_with_match(false, &stats(usize::MAX, 0), 0, 0);
    assert_eq!(verdict.reason, CollapseReason::LineLimitExceeded);
}

#[test]
fn line_limit_comes_before_byte_limit() {
    let verdict = decide_with_match(false, &stats(11, 2000), 10, 1000);
    assert_eq!(
        verdict,
        CollapseVerdict { collapse: true, reason: CollapseReason::LineLimitExceeded }
    );
}

#[test]
fn byte_limit_collapses() {
    let verdict = decide_with_match(false, &stats(10, 1001), 10, 1000);
    assert_eq!(
        verdict,
        CollapseVerdict { collapse: true, reason: CollapseReason::ByteLimitExceeded }
    );
}

#[test]
fn limits_are_inclusive() {
    let verdict = decide_with_match(false, &stats(10, 1000), 10, 1000);
    assert_eq!(
        verdict,
        CollapseVerdict { collapse: false, reason: CollapseReason::NotCollapsed }
    );
}

#[test]
fn pattern_match_takes_precedence_over_sizes() {
    let matcher = build_collapse_matcher(&patterns(&["*.lock"])).unwrap();
    let verdict = decide("Cargo.lock", &stats(5000, 500_000), Some(&matcher), 10, 1000);
    assert_eq!(
        verdict,
        CollapseVerdict { collapse: true, reason: CollapseReason::PatternMatch }
    );
    let small = decide("Cargo.lock", &stats(1, 1), Some(&matcher), 10, 1000);
    assert_eq!(small.reason, CollapseReason::PatternMatch);
    let other = decide("Cargo.toml", &stats(1, 1), Some(&matcher), 10, 1000);
    assert_eq!(
        other,
        CollapseVerdict { collapse: false, reason: CollapseReason::NotCollapsed }
    );
}

#[test]
fn decide_twice_gives_the_same_verdict() {
    let matcher = build_collapse_matcher(&patterns(&["docs/**"]));
    let figures = stats(7, 70);
    let first = decide("docs/a.md", &figures, matcher.as_ref(), 10, 1000);
    let second = decide("docs/a.md", &figures, matcher.as_ref(), 10, 1000);
    assert_eq!(first, second);
    let first = decide("src/a.rs", &figures, matcher.as_ref(), 5, 1000);
    let second = decide("src/a.rs", &figures, matcher.as_ref(), 5, 1000);
    assert_eq!(first, second);
}

#[test]
fn reasons_in_words() {
    assert_eq!(reason_label(CollapseReason::PatternMatch), "collapsed: matches pattern");
    assert_eq!(reason_label(CollapseReason::LineLimitExceeded), "collapsed: exceeds line limit");
    assert_eq!(reason_label(CollapseReason::ByteLimitExceeded), "collapsed: exceeds size limit");
    assert_eq!(reason_label(CollapseReason::NotCollapsed), "collapsed");
    assert_eq!(collapse_reason(true, 100, 100, 1, 1), "collapsed: matches pattern");
    assert_eq!(collapse_reason(false, 100, 100, 1, 1), "collapsed: exceeds line limit");
    assert_eq!(collapse_reason(false, 1, 100, 1, 1), "collapsed: exceeds size limit");
    assert_eq!(collapse_reason(false, 1, 1, 1, 1), "collapsed");
}

#[test]
fn no_patterns_no_matcher() {
    assert!(build_collapse_matcher(&[]).is_none());
    assert!(!is_pattern_match(None, "anything"));
}

#[test]
fn matcher_matches_any_of_its_globs() {
    let matcher = build_collapse_matcher(&patterns(&["*.lock", "vendor/**", "*.min.js"])).unwrap();
    assert_eq!(matcher.len(), 3);
    assert!(is_pattern_match(Some(&matcher), "Cargo.lock"));
    assert!(is_pattern_match(Some(&matcher), "web/yarn.lock"));
    assert!(is_pattern_match(Some(&matcher), "vendor/a/b.rs"));
    assert!(is_pattern_match(Some(&matcher), "static/app.min.js"));
    assert!(!is_pattern_match(Some(&matcher), "src/main.rs"));
    assert!(!is_pattern_match(Some(&matcher), "Cargo.lock.bak"));
}

#[test]
fn invalid_glob_is_skipped() {
    let matcher = build_collapse_matcher(&patterns(&["[", "*.lock", "a{b"])).unwrap();
    assert_eq!(matcher.len(), 1);
    assert!(is_pattern_match(Some(&matcher), "Cargo.lock"));
    assert!(!is_pattern_match(Some(&matcher), "["));
    let none_valid = build_collapse_matcher(&patterns(&["["])).unwrap();
    assert_eq!(none_valid.len(), 0);
    assert!(!is_pattern_match(Some(&none_valid), "["));
}

#[test]
fn skipped_patterns_are_listed() {
    let compiled = compile_collapse_patterns(&patterns(&["[", "*.lock", "a{b", "docs/**", "[z-a]"]));
    assert_eq!(compiled.skipped, vec!["[", "a{b", "[z-a]"]);
    let matcher = compiled.matcher.unwrap();
    assert_eq!(matcher.len(), 2);
    assert!(is_pattern_match(Some(&matcher), "docs/readme.md"));
    let compiled = compile_collapse_patterns(&[]);
    assert!(compiled.matcher.is_none());
    assert!(compiled.skipped.is_empty());
    let compiled = compile_collapse_patterns(&patterns(&["*.rs"]));
    assert!(compiled.matcher.is_some());
    assert!(compiled.skipped.is_empty());
}

#[test]
fn rejected_patterns_alone_make_the_empty_set() {
    let only_rejected = patterns(&["[", "a{b"]);
    let matcher = build_collapse_matcher(&only_rejected).unwrap();
    assert!(matcher.is_empty());
    assert!(!is_pattern_match(Some(&matcher), "a{b"));
    let compiled = compile_collapse_patterns(&only_rejected);
    assert_eq!(compiled.skipped, vec!["[", "a{b"]);
    assert!(compiled.matcher.unwrap().is_empty());
}

#[test]
fn collapsed_summary_is_one_line_that_starts_with_the_path() {
    let summary =
        format_collapsed_summary("Cargo.lock", 120, 0, "new file", "collapsed: matches pattern");
    assert_eq!(summary, "Cargo.lock new file (+120 -0 lines, collapsed: matches pattern)");
    assert_eq!(summary.lines().count(), 1);
    assert!(!summary.contains('\n'));
}

#[test]
fn one_rejected_pattern_leaves_the_others_in_force() {
    let matcher = build_collapse_matcher(&patterns(&["[", "*.lock"])).unwrap();
    assert!(matcher.is_match("Cargo.lock"));
    assert!(!matcher.is_match("src/main.rs"));
}

#[test]
fn collapsed_summary_text() {
    assert_eq!(
        format_collapsed_summary("Cargo.lock", 120, 7, "modified", "collapsed: matches pattern"),
        "Cargo.lock modified (+120 -7 lines, collapsed: matches pattern)"
    );
    assert_eq!(
        format_collapsed_summary("a b", 0, 0, "new file", "collapsed"),
        "a b new file (+0 -0 lines, collapsed)"
    );
    assert_eq!(
        format_collapsed_summary("x", 18446744073709551615, 1000, "deleted file", "r"),
        "x deleted file (+18446744073709551615 -1000 lines, r)"
    );
}

#[test]
fn added_file_is_rendered_in_full() {
    assert_eq!(
        format_added_removed_diff("src/new.rs", b"fn main() {\n}\n", true, 50),
        "diff --git a/src/new.rs b/src/new.rs\nnew file\n--- /dev/null\n+++ b/src/new.rs\n+fn main() {\n+}\n"
    );
}

#[test]
fn deleted_file_is_rendered_in_full() {
    assert_eq!(
        format_added_removed_diff("old.txt", b"first\r\nsecond", false, 50),
        "diff --git a/old.txt b/old.txt\ndeleted file\n--- a/old.txt\n+++ /dev/null\n-first\n-second\n"
    );
}

#[test]
fn empty_file_has_no_body() {
    assert_eq!(
        format_added_removed_diff("empty", b"", true, 50),
        "diff --git a/empty b/empty\nnew file\n--- /dev/null\n+++ b/empty\n"
    );
}

#[test]
fn file_at_the_cap_has_no_trailer() {
    let content = numbered_lines(50);
    let rendered = format_added_removed_diff("f", content.as_bytes(), true, MAX_LINES);
    let body: Vec<&str> = rendered.lines().skip(4).collect();
    assert_eq!(body.len(), 50);
    for (i, line) in body.iter().enumerate() {
        assert_eq!(*line, format!("+line {}", i + 1));
    }
    assert!(!rendered.contains("more lines"));
}

#[test]
fn file_over_the_cap_is_cut_off() {
    let content = numbered_lines(53);
    let rendered = format_added_removed_diff("f", content.as_bytes(), false, MAX_LINES);
    let body: Vec<&str> = rendered.lines().skip(4).collect();
    assert_eq!(body.len(), 51);
    for (i, line) in body.iter().take(50).enumerate() {
        assert_eq!(*line, format!("-line {}", i + 1));
    }
    assert_eq!(body[50], "... (3 more lines)");
    assert!(rendered.ends_with("-line 50\n... (3 more lines)\n"));
}

#[test]
fn cut_off_with_a_small_cap() {
    assert_eq!(
        format_added_removed_diff("f", b"a\nb\nc\n", true, 1),
        "diff --git a/f b/f\nnew file\n--- /dev/null\n+++ b/f\n+a\n... (2 more lines)\n"
    );
    assert_eq!(
        format_added_removed_diff("f", b"a\nb\nc\n", true, 0),
        "diff --git a/f b/f\nnew file\n--- /dev/null\n+++ b/f\n... (3 more lines)\n"
    );
}

#[test]
fn binary_file_gets_a_marker() {
    assert_eq!(
        format_added_removed_diff("img.png", &[0x89, 0x50, 0xff, 0x00], true, 50),
        "diff --git a/img.png b/img.png\nnew file\n--- /dev/null\n+++ b/img.png\n(binary file)\n"
    );
    assert_eq!(
        format_added_removed_diff("img.png", &[0xc3], false, 50),
        "diff --git a/img.png b/img.png\ndeleted file\n--- a/img.png\n+++ /dev/null\n(binary file)\n"
    );
}

#[test]
fn non_ascii_text_is_text() {
    assert_eq!(
        format_added_removed_diff("g.txt", "gr\u{fc}\u{df}e\n\u{4e16}\u{754c}\n".as_bytes(), true, 50),
        "diff --git a/g.txt b/g.txt\nnew file\n--- /dev/null\n+++ b/g.txt\n+gr\u{fc}\u{df}e\n+\u{4e16}\u{754c}\n"
    );
}

#[test]
fn stats_of_an_added_file() {
    let figures = one_sided_stats("a.txt", b"one\ntwo\nthree", true);
    assert_eq!(
        figures,
        FileStats {
            path: String::from("a.txt"),
            byte_size: 13,
            line_count: 3,
            change_kind: ChangeKind::Added,
            added_lines: 3,
            removed_lines: 0,
        }
    );
}

#[test]
fn stats_of_a_deleted_binary_file() {
    let figures = one_sided_stats("b.bin", &[0xff, b'\n', 0xfe, b'\n', 0x00], false);
    assert_eq!(
        figures,
        FileStats {
            path: String::from("b.bin"),
            byte_size: 5,
            line_count: 3,
            change_kind: ChangeKind::Deleted,
            added_lines: 0,
            removed_lines: 3,
        }
    );
}

#[test]
fn stats_of_a_modified_file() {
    let changes = vec![
        LineChange::Equal,
        LineChange::Delete,
        LineChange::Insert,
        LineChange::Insert,
        LineChange::Equal,
    ];
    assert_eq!(count_changes(&changes), (2, 1));
    assert_eq!(count_changes(&[]), (0, 0));
    let figures = modified_stats("m.rs", 10, 25, &changes);
    assert_eq!(
        figures,
        FileStats {
            path: String::from("m.rs"),
            byte_size: 25,
            line_count: 3,
            change_kind: ChangeKind::Modified,
            added_lines: 2,
            removed_lines: 1,
        }
    );
    assert_eq!(modified_stats("m.rs", 30, 25, &changes).byte_size, 30);
    assert_eq!(
        binary_stats("b.bin", 7, 9),
        FileStats {
            path: String::from("b.bin"),
            byte_size: 9,
            line_count: 0,
            change_kind: ChangeKind::BinaryModified,
            added_lines: 0,
            removed_lines: 0,
        }
    );
}

#[test]
fn rendered_entries_carry_their_figures() {
    let rendered = render_entry(&added("a", b"x\ny\n"), None, 10, 1000);
    assert_eq!(rendered.stats, Some(one_sided_stats("a", b"x\ny\n", true)));
    let rendered = render_entry(&modified("m", b"x\ny\n", b"x\nz\nw\n"), None, 1, 1000);
    assert!(rendered.collapsed);
    assert_eq!(
        rendered.stats,
        Some(FileStats {
            path: String::from("m"),
            byte_size: 6,
            line_count: 3,
            change_kind: ChangeKind::Modified,
            added_lines: 2,
            removed_lines: 1,
        })
    );
    let rendered = render_entry(&modified("b", &[0xff], b"abc"), None, 1, 1);
    assert_eq!(rendered.stats, Some(binary_stats("b", 1, 3)));
    let skipped = ChangeEntry {
        path: String::from("s"),
        before: FileState::Other,
        after: FileState::Absent,
    };
    assert_eq!(
        render_entry(&skipped, None, 1, 1),
        Rendered { text: String::new(), collapsed: false, stats: None }
    );
}

#[test]
fn added_file_over_the_line_limit_is_collapsed() {
    let rendered = render_one_sided("big.txt", b"1\n2\n3\n", true, false, 2, 1000);
    assert!(rendered.collapsed);
    assert_eq!(
        rendered.text,
        "big.txt new file (+3 -0 lines, collapsed: exceeds line limit)\n"
    );
}

#[test]
fn deleted_file_over_the_byte_limit_is_collapsed() {
    let rendered = render_one_sided("big.txt", b"1234567890\n", false, false, 10, 10);
    assert!(rendered.collapsed);
    assert_eq!(
        rendered.text,
        "big.txt deleted file (+0 -1 lines, collapsed: exceeds size limit)\n"
    );
}

#[test]
fn added_file_within_limits_is_rendered() {
    let rendered = render_one_sided("ok.txt", b"1\n2\n", true, false, 2, 4);
    assert!(!rendered.collapsed);
    assert_eq!(
        rendered.text,
        "diff --git a/ok.txt b/ok.txt\nnew file\n--- /dev/null\n+++ b/ok.txt\n+1\n+2\n"
    );
}

#[test]
fn large_binary_file_is_collapsed_by_size() {
    let content = vec![0xffu8; 64];
    let rendered = render_one_sided("blob", &content, true, false, 10, 63);
    assert!(rendered.collapsed);
    assert_eq!(
        rendered.text,
        "blob new file (+1 -0 lines, collapsed: exceeds size limit)\n"
    );
}

#[test]
fn modified_file_is_a_unified_diff() {
    let rendered = render_modified("f.txt", b"a\nb\nc\n", b"a\nB\nc\n", false, 100, 1000);
    assert!(!rendered.collapsed);
    assert_eq!(
        rendered.text,
        "diff --git a/f.txt b/f.txt\n--- a/f.txt\n+++ b/f.txt\n@@ -1,3 +1,3 @@\n a\n-b\n+B\n c\n"
    );
}

#[test]
fn unified_diff_has_two_lines_of_context() {
    let before = b"1\n2\n3\n4\n5\n6\n7\n8\n9\n";
    let after = b"1\n2\n3\n4\nfive\n6\n7\n8\n9\n";
    let rendered = render_modified("n", before, after, false, 100, 1000);
    assert_eq!(
        rendered.text,
        "diff --git a/n b/n\n--- a/n\n+++ b/n\n@@ -3,5 +3,5 @@\n 3\n 4\n-5\n+five\n 6\n 7\n"
    );
}

#[test]
fn unified_diff_marks_a_missing_final_newline() {
    let rendered = render_modified("n", b"a", b"b", false, 100, 1000);
    assert_eq!(
        rendered.text,
        "diff --git a/n b/n\n--- a/n\n+++ b/n\n@@ -1 +1 @@\n-a\n\\ No newline at end of file\n+b\n\\ No newline at end of file\n"
    );
}

#[test]
fn unchanged_text_has_only_the_header() {
    let rendered = render_modified("same", b"a\n", b"a\n", false, 100, 1000);
    assert!(!rendered.collapsed);
    assert_eq!(rendered.text, "diff --git a/same b/same\n");
}

#[test]
fn one_changed_line_in_a_huge_file_is_not_collapsed_by_lines() {
    let before = numbered_lines(400);
    let after = before.replace("line 200\n", "line two hundred\n");
    let rendered = render_modified("big", before.as_bytes(), after.as_bytes(), false, 2, 1_000_000);
    assert!(!rendered.collapsed);
    assert_eq!(
        rendered.text,
        "diff --git a/big b/big\n--- a/big\n+++ b/big\n@@ -198,5 +198,5 @@\n line 198\n line 199\n-line 200\n+line two hundred\n line 201\n line 202\n"
    );
}

#[test]
fn modified_file_over_the_line_limit_is_collapsed() {
    let rendered = render_modified("f", b"a\nb\nc\n", b"a\nx\ny\nc\n", false, 2, 1000);
    assert!(rendered.collapsed);
    assert_eq!(
        rendered.text,
        "f modified (+2 -1 lines, collapsed: exceeds line limit)\n"
    );
}

#[test]
fn modified_file_over_the_byte_limit_is_collapsed() {
    let rendered = render_modified("f", b"0123456789\n", b"0\n", false, 10, 10);
    assert!(rendered.collapsed);
    assert_eq!(
        rendered.text,
        "f modified (+1 -1 lines, collapsed: exceeds size limit)\n"
    );
}

#[test]
fn modified_file_matching_a_pattern_is_collapsed() {
    let rendered = render_modified("f", b"a\n", b"b\n", true, 10, 1000);
    assert!(rendered.collapsed);
    assert_eq!(
        rendered.text,
        "f modified (+1 -1 lines, collapsed: matches pattern)\n"
    );
}

#[test]
fn binary_modification_gets_a_marker_whatever_its_size() {
    let before = vec![0xffu8; 5000];
    let rendered = render_modified("x.bin", &before, b"text\n", true, 1, 1);
    assert!(!rendered.collapsed);
    assert_eq!(rendered.text, "diff --git a/x.bin b/x.bin\n(binary file modified)\n");
    let rendered = render_modified("x.bin", b"text\n", &[0x80], false, 100, 100);
    assert_eq!(rendered.text, "diff --git a/x.bin b/x.bin\n(binary file modified)\n");
}

#[test]
fn other_shapes_yield_no_output() {
    let shapes = vec![
        (FileState::Absent, FileState::Absent),
        (FileState::Absent, FileState::Other),
        (FileState::Other, FileState::Absent),
        (FileState::Other, FileState::Other),
        (FileState::Other, FileState::File(b"a\n".to_vec())),
        (FileState::File(b"a\n".to_vec()), FileState::Other),
    ];
    for (before, after) in shapes {
        let entry = ChangeEntry { path: String::from("p"), before, after };
        let rendered = render_entry(&entry, None, 10, 1000);
        assert_eq!(rendered.text, "");
        assert!(!rendered.collapsed);
    }
}

#[test]
fn entry_shapes_are_told_apart() {
    let rendered = render_entry(&added("a", b"x\n"), None, 10, 1000);
    assert_eq!(rendered.text, "diff --git a/a b/a\nnew file\n--- /dev/null\n+++ b/a\n+x\n");
    let rendered = render_entry(&deleted("a", b"x\n"), None, 10, 1000);
    assert_eq!(rendered.text, "diff --git a/a b/a\ndeleted file\n--- a/a\n+++ /dev/null\n-x\n");
    let rendered = render_entry(&modified("a", b"x\n", b"y\n"), None, 10, 1000);
    assert_eq!(
        rendered.text,
        "diff --git a/a b/a\n--- a/a\n+++ b/a\n@@ -1 +1 @@\n-x\n+y\n"
    );
}

#[test]
fn report_skips_empty_entries() {
    let mut report = DiffReport::new();
    assert_eq!(
        report,
        DiffReport { text: String::new(), files_rendered: 0, files_collapsed: 0 }
    );
    report.add(&Rendered { text: String::new(), collapsed: false, stats: None });
    assert_eq!(report.files_rendered, 0);
    report.add(&Rendered { text: String::from("one\n"), collapsed: false, stats: None });
    report.add(&Rendered { text: String::from("two\n"), collapsed: true, stats: Some(stats(1, 4)) });
    assert_eq!(
        report,
        DiffReport { text: String::from("one\ntwo\n"), files_rendered: 2, files_collapsed: 1 }
    );
}

#[test]
fn entries_are_rendered_in_the_order_given() {
    let entries = vec![added("z", b"1\n"), added("a", b"2\n")];
    let text = get_tree_diff(&entries, None, 10, 1000);
    assert_eq!(
        text,
        "diff --git a/z b/z\nnew file\n--- /dev/null\n+++ b/z\n+1\ndiff --git a/a b/a\nnew file\n--- /dev/null\n+++ b/a\n+2\n"
    );
    assert_eq!(get_tree_diff(&[], None, 10, 1000), "");
}

#[test]
fn end_to_end_scenario() {
    let entries = vec![
        modified("src/a.rs", b"one\ntwo\nthree\n", b"one\n2\nthree\n"),
        modified("src/b.rs", b"alpha\n", b"alpha\nbeta\n"),
        deleted("Cargo.lock", b"x\ny\n"),
        ChangeEntry {
            path: String::from("conflicted"),
            before: FileState::Other,
            after: FileState::File(b"z\n".to_vec()),
        },
        added("img.png", &[0xff, 0xfe, 0x00]),
    ];
    let matcher = build_collapse_matcher(&patterns(&["*.lock"]));
    let report = render_report(&entries, matcher.as_ref(), 100, 10_000);
    let expected = "diff --git a/src/a.rs b/src/a.rs\n--- a/src/a.rs\n+++ b/src/a.rs\n@@ -1,3 +1,3 @@\n one\n-two\n+2\n three\n\
diff --git a/src/b.rs b/src/b.rs\n--- a/src/b.rs\n+++ b/src/b.rs\n@@ -1 +1,2 @@\n alpha\n+beta\n\
Cargo.lock deleted file (+0 -2 lines, collapsed: matches pattern)\n\
diff --git a/img.png b/img.png\nnew file\n--- /dev/null\n+++ b/img.png\n(binary file)\n";
    assert_eq!(report.text, expected);
    assert_eq!(report.files_collapsed, 1);
    assert_eq!(report.files_rendered, 4);
    assert_eq!(count_of(&report.text, "collapsed: matches pattern"), 1);
    assert_eq!(count_of(&report.text, "(binary file)"), 1);
    assert_eq!(count_of(&report.text, "\n@@ "), 2);
    let a_section = &report.text[..report.text.find("diff --git a/src/b.rs").unwrap()];
    assert_eq!(count_of(a_section, "\n@@ "), 1);
    assert_eq!(get_tree_diff(&entries, matcher.as_ref(), 100, 10_000), expected);
    assert_eq!(render_diff(&entries, &patterns(&["*.lock"]), 100, 10_000), expected);
}

#[test]
fn render_diff_without_patterns_collapses_by_size_only() {
    let entries = vec![deleted("Cargo.lock", b"x\ny\n")];
    assert_eq!(
        render_diff(&entries, &[], 100, 10_000),
        "diff --git a/Cargo.lock b/Cargo.lock\ndeleted file\n--- a/Cargo.lock\n+++ /dev/null\n-x\n-y\n"
    );
    assert_eq!(
        render_diff(&entries, &[], 1, 10_000),
        "Cargo.lock deleted file (+0 -2 lines, collapsed: exceeds line limit)\n"
    );
}

#[test]
fn budget_refuses_one_line_too_many() {
    let max_total_lines = 20;
    let within = numbered_lines(max_total_lines);
    assert_eq!(check_aggregate_budget(&within, max_total_lines, 1_000_000), Ok(()));
    let over = numbered_lines(max_total_lines + 1);
    assert_eq!(
        check_aggregate_budget(&over, max_total_lines, 1_000_000),
        Err(BudgetExceeded {
            measured_lines: 21,
            max_lines: 20,
            measured_bytes: over.len(),
            max_bytes: 1_000_000,
        })
    );
}

#[test]
fn budget_refuses_one_byte_too_many() {
    let text = "12345\n6789\n";
    assert_eq!(check_aggregate_budget(text, 2, 11), Ok(()));
    assert_eq!(
        check_aggregate_budget(text, 2, 10),
        Err(BudgetExceeded { measured_lines: 2, max_lines: 2, measured_bytes: 11, max_bytes: 10 })
    );
    assert_eq!(check_aggregate_budget("", 0, 0), Ok(()));
    assert_eq!(
        check_aggregate_budget("\u{e9}", 1, 1),
        Err(BudgetExceeded { measured_lines: 1, max_lines: 1, measured_bytes: 2, max_bytes: 1 })
    );
}

#[test]
fn budget_error_names_measured_and_allowed() {
    let error = BudgetExceeded {
        measured_lines: 3,
        max_lines: 2,
        measured_bytes: 6,
        max_bytes: 100,
    };
    assert_eq!(error.message(), "diff too large: 3 lines (limit 2), 6 bytes (limit 100)");
}
