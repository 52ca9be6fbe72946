//! The glob sets that cleanup rules are compiled into (`globset`).

use vstd::prelude::*;
use globset::{GlobBuilder, GlobSet, GlobSetBuilder};

verus! {

#[verifier::external_type_specification]
#[verifier::external_body]
pub struct ExGlobSet(globset::GlobSet);

#[verifier::external_type_specification]
#[verifier::external_body]
pub struct ExGlobSetBuilder(globset::GlobSetBuilder);

#[verifier::external_type_specification]
#[verifier::external_body]
pub struct ExGlobError(globset::Error);

/// The patterns a built glob set was made from, in the order they were added.
pub uninterp spec fn glob_set_patterns(set: GlobSet) -> Seq<Seq<char>>;

/// Whether `GlobBuilder` (with `\` taken literally) parses the pattern.
pub uninterp spec fn glob_parses(pattern: Seq<char>) -> bool;

/// The patterns added to a glob set builder so far, in order.
pub uninterp spec fn builder_patterns(b: GlobSetBuilder) -> Seq<Seq<char>>;

/// `GlobSetBuilder::new`. Claimed: the builder holds no pattern yet.
#[verifier::external_body]
pub(crate) fn new_builder() -> (b: GlobSetBuilder)
    ensures
        builder_patterns(b) == Seq::<Seq<char>>::empty(),
{
    GlobSetBuilder::new()
}

/// `GlobSetBuilder::add` of the glob that `GlobBuilder::new(pattern)` builds,
/// with `\` taken as a literal character rather than an escape (the default
/// on Windows, the platform these paths come from).
/// Claimed: the call succeeds exactly when the pattern parses, which is a
/// matter of its syntax alone (unclosed classes and alternations, bad
/// ranges) once `\` is taken literally; on success the builder holds one
/// more pattern, this one, at the end; otherwise it is unchanged.
#[verifier::external_body]
pub(crate) fn add_pattern(b: &mut GlobSetBuilder, pattern: &str) -> (r: Result<(), globset::Error>)
    ensures
        r is Ok <==> glob_parses(pattern@),
        r is Ok ==> builder_patterns(*final(b)) == builder_patterns(*old(b)).push(pattern@),
        r is Err ==> builder_patterns(*final(b)) == builder_patterns(*old(b)),
{
    let glob = GlobBuilder::new(pattern).backslash_escape(false).build()?;
    b.add(glob);
    Ok(())
}

/// `GlobSetBuilder::build`. Claimed: a built set holds exactly the patterns
/// added to the builder, and a builder without patterns always builds (the
/// empty set). When building fails otherwise (the compiled matcher exceeding
/// its size limit) is not stated.
#[verifier::external_body]
pub(crate) fn build_set(b: &GlobSetBuilder) -> (r: Result<GlobSet, globset::Error>)
    ensures
        builder_patterns(*b).len() == 0 ==> r is Ok,
        r matches Ok(s) ==> glob_set_patterns(s) == builder_patterns(*b),
{
    b.build()
}

/// The characters that `globset` gives a meaning in a pattern.
pub open spec fn glob_special(c: char) -> bool {
    c == '*' || c == '?' || c == '[' || c == ']' || c == '{' || c == '}'
}

/// Text with no character that a glob pattern gives a meaning.
pub open spec fn plain_text(s: Seq<char>) -> bool {
    forall|i: int| 0 <= i < s.len() ==> !glob_special(#[trigger] s[i])
}

/// A path that a pattern matches on every platform: the pattern is plain
/// text and the path is that text; or the pattern is plain text followed by
/// `\**` and the path is that text, a `\`, and at least one more character.
pub open spec fn plain_hit(p: Seq<char>, x: Seq<char>) -> bool {
    ||| (p.len() > 0 && plain_text(p) && x == p)
    ||| {
        &&& p.len() >= 3
        &&& p.subrange(p.len() - 3, p.len() as int) == seq!['\\', '*', '*']
        &&& plain_text(p.take(p.len() - 3))
        &&& x.len() > p.len() - 2
        &&& x.take(p.len() - 2) == p.take(p.len() - 2)
    }
}

/// `GlobSet::is_match`. Claimed: an empty set matches nothing (as its
/// documentation says), and a set matches a path that one of its patterns
/// matches on every platform (`plain_hit`). On Windows `globset` reads `\`
/// in a pattern as a separator and turns `\` into `/` in the path; elsewhere
/// `\` is an ordinary character and the `**` after it matches anything;
/// with `\` taken literally in patterns, either way the path matches.
/// Whether a set matches a path otherwise is not stated: the answer
/// depends on the platform's path separators.
#[verifier::external_body]
pub(crate) fn set_is_match(s: &GlobSet, path: &str) -> (m: bool)
    ensures
        glob_set_patterns(*s).len() == 0 ==> !m,
        forall|i: int| 0 <= i < glob_set_patterns(*s).len() && #[trigger] plain_hit(glob_set_patterns(*s)[i], path@)
            ==> m,
{
    s.is_match(path)
}

/// The text that a `globset::Error` displays. Not stated.
#[verifier::external_body]
pub(crate) fn glob_error_text(e: &globset::Error) -> String {
    format!("{e}")
}

} // verus!
