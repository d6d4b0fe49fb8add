//! Glob sets of the `globset` crate, as far as the collapse policy uses them.
//!
//! A set is known here by the patterns it was built from. Whether a set
//! matches a path is decided by `globset` and known only by name.

use globset::{Glob, GlobSet, GlobSetBuilder};
use vstd::prelude::*;

verus! {

/// `globset::GlobSet`: globs that are matched together.
#[verifier::external_type_specification]
#[verifier::external_body]
pub struct ExGlobSet(GlobSet);

/// `globset::GlobSetBuilder`: the globs collected for a set.
#[verifier::external_type_specification]
#[verifier::external_body]
pub struct ExGlobSetBuilder(GlobSetBuilder);

/// The patterns of the globs that `set` was built from, in the order they were
/// added. It is said of sets that this library built; of a set made in
/// another way nothing is known.
pub uninterp spec fn set_patterns(set: GlobSet) -> Seq<Seq<char>>;

/// The patterns of the globs added to `builder` so far, in order.
pub uninterp spec fn builder_patterns(builder: GlobSetBuilder) -> Seq<Seq<char>>;

/// Whether `GlobSetBuilder::build` makes a set of globs with these patterns.
/// It fails where the matcher for all of them together cannot be compiled.
pub uninterp spec fn set_builds(patterns: Seq<Seq<char>>) -> bool;

/// Whether `Glob::new` accepts `pattern`.
pub uninterp spec fn glob_is_valid(pattern: Seq<char>) -> bool;

/// Whether a `GlobSet` built from `patterns` reports a match for `path`, that
/// is, whether any of its globs matches the path. Path separators are read
/// as the target platform reads them.
pub uninterp spec fn globs_match(patterns: Seq<Seq<char>>, path: Seq<char>) -> bool;

/// `GlobSetBuilder::new`: a builder that holds no glob.
#[verifier::external_body]
pub(crate) fn new_builder() -> (builder: GlobSetBuilder)
    ensures
        builder_patterns(builder) == Seq::<Seq<char>>::empty(),
{
    GlobSetBuilder::new()
}

/// Parses `pattern` with `Glob::new` and, if that succeeds, hands the glob to
/// `GlobSetBuilder::add`, which appends it. Reports whether the pattern was
/// accepted; a rejected pattern leaves the builder as it was.
#[verifier::external_body]
pub(crate) fn add_pattern(builder: &mut GlobSetBuilder, pattern: &str) -> (added: bool)
    ensures
        added == glob_is_valid(pattern@),
        added ==> builder_patterns(*final(builder)) == builder_patterns(*old(builder)).push(
            pattern@,
        ),
        !added ==> builder_patterns(*final(builder)) == builder_patterns(*old(builder)),
{
    match Glob::new(pattern) {
        Ok(glob) => {
            builder.add(glob);
            true
        },
        Err(_) => false,
    }
}

/// `GlobSetBuilder::build`. Whether it succeeds depends on the globs alone
/// and is known by name; a builder without globs always yields the empty
/// set. A set that is built holds the globs that were added.
#[verifier::external_body]
pub(crate) fn build_set(builder: &GlobSetBuilder) -> (built: Option<GlobSet>)
    ensures
        built is Some <==> set_builds(builder_patterns(*builder)),
        built matches Some(set) ==> set_patterns(set) == builder_patterns(*builder),
        builder_patterns(*builder).len() == 0 ==> built is Some,
{
    builder.build().ok()
}

/// `GlobSet::is_match` on `path`.
#[verifier::external_body]
pub(crate) fn set_is_match(set: &GlobSet, path: &str) -> (matched: bool)
    ensures
        matched == globs_match(set_patterns(*set), path@),
{
    set.is_match(path)
}

} // verus!
