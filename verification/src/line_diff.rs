//! Line-level differences, computed by the `similar` crate.

use similar::{ChangeTag, TextDiff};
use vstd::prelude::*;

verus! {

/// What became of one line between two versions of a text.
#[derive(Clone, Copy, Debug, PartialEq, Eq, Structural)]
pub enum LineChange {
    /// The line is in both versions.
    Equal,
    /// The line is only in the old version.
    Delete,
    /// The line is only in the new version.
    Insert,
}

/// The line changes that `similar` reports between `before` and `after`,
/// in the order in which it reports them.
pub uninterp spec fn line_changes(before: Seq<char>, after: Seq<char>) -> Seq<LineChange>;

/// The unified diff that `similar` renders for `before` and `after` with
/// `radius` lines of context round each change and the two file names in
/// its header.
pub uninterp spec fn unified_text(
    before: Seq<char>,
    after: Seq<char>,
    radius: nat,
    old_name: Seq<char>,
    new_name: Seq<char>,
) -> Seq<char>;

/// How many entries of `changes` are `kind`.
pub open spec fn count_of(changes: Seq<LineChange>, kind: LineChange) -> nat
    decreases changes.len(),
{
    if changes.len() == 0 {
        0
    } else {
        count_of(changes.drop_last(), kind) + if changes.last() == kind {
            1nat
        } else {
            0nat
        }
    }
}

/// Diffs the two texts line by line with `TextDiff::from_lines` and lists the
/// tag of every change that `iter_all_changes` yields. The diff has no
/// deadline, so the result is a function of the two texts.
#[verifier::external_body]
pub(crate) fn diff_changes(before: &str, after: &str) -> (changes: Vec<LineChange>)
    ensures
        changes@ == line_changes(before@, after@),
{
    TextDiff::from_lines(before, after).iter_all_changes().map(
        |change| match change.tag() {
            ChangeTag::Equal => LineChange::Equal,
            ChangeTag::Delete => LineChange::Delete,
            ChangeTag::Insert => LineChange::Insert,
        },
    ).collect()
}

/// Diffs the two texts line by line with `TextDiff::from_lines` and renders
/// the result with its `unified_diff` formatter. The radius is doubled inside
/// `similar`, so it must leave room for that.
#[verifier::external_body]
pub(crate) fn diff_unified(
    before: &str,
    after: &str,
    radius: usize,
    old_name: &str,
    new_name: &str,
) -> (rendered: String)
    requires
        radius * 2 <= usize::MAX,
    ensures
        rendered@ == unified_text(before@, after@, radius as nat, old_name@, new_name@),
{
    TextDiff::from_lines(before, after).unified_diff().context_radius(radius).header(
        old_name,
        new_name,
    ).to_string()
}

/// Counts the inserted and the deleted lines in `changes`.
pub fn count_changes(changes: &[LineChange]) -> (counts: (usize, usize))
    ensures
        counts.0 == count_of(changes@, LineChange::Insert),
        counts.1 == count_of(changes@, LineChange::Delete),
        counts.0 + counts.1 <= changes.len(),
{
    let mut added: usize = 0;
    let mut removed: usize = 0;
    let mut i: usize = 0;
    while i < changes.len()
        invariant
            i <= changes.len(),
            added == count_of(changes@.take(i as int), LineChange::Insert),
            removed == count_of(changes@.take(i as int), LineChange::Delete),
            added + removed <= i,
        decreases changes.len() - i,
    {
        assert(changes@.take(i + 1).drop_last() == changes@.take(i as int));
        match changes[i] {
            LineChange::Insert => {
                added += 1;
            },
            LineChange::Delete => {
                removed += 1;
            },
            LineChange::Equal => {},
        }
        i += 1;
    }
    assert(changes@.take(changes.len() as int) == changes@);
    (added, removed)
}

} // verus!
