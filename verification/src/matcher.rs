//! The glob-matching boundary. All gitignore-style pattern parsing and
//! path matching is done by the `ignore` crate; this module declares the
//! few types and functions of that crate the library relies on, together
//! with the contracts it holds them to.
//!
//! Every matcher in this crate is built with an empty root, so a path is
//! always matched exactly as the relative string handed in, and a
//! matcher's behaviour is a function of the lines it was built from.

use vstd::prelude::*;

verus! {

/// What a matcher says about one path.
#[derive(Clone, Copy, PartialEq, Eq, Structural, Debug)]
pub enum RuleMatch {
    /// No line of the matcher applies.
    NoRule,
    /// The path is matched by an ignore line.
    Excluded,
    /// The path is matched by a whitelist (`!`) line.
    Whitelisted,
}

#[verifier::external_type_specification]
#[verifier::external_body]
pub struct ExGitignoreBuilder(ignore::gitignore::GitignoreBuilder);

#[verifier::external_type_specification]
#[verifier::external_body]
pub struct ExGitignore(ignore::gitignore::Gitignore);

#[verifier::external_type_specification]
#[verifier::external_body]
pub struct ExIgnoreError(ignore::Error);

/// The gitignore lines a builder has accepted so far, in order. Comment
/// and blank lines count as lines here; what they mean is folded into
/// `gitignore_verdict`.
pub uninterp spec fn builder_lines(b: ignore::gitignore::GitignoreBuilder) -> Seq<Seq<char>>;

/// The gitignore lines a built matcher was compiled from, in order.
pub uninterp spec fn matcher_lines(g: ignore::gitignore::Gitignore) -> Seq<Seq<char>>;

/// Whether one gitignore line is syntactically acceptable; this depends
/// on the line alone.
pub uninterp spec fn line_parses(line: Seq<char>) -> bool;

/// Whether a set of parsed lines compiles into a matcher; this depends on
/// the lines alone.
pub uninterp spec fn lines_compile(lines: Seq<Seq<char>>) -> bool;

/// The verdict an empty-rooted matcher built from `lines` gives for a
/// relative path, under standard gitignore semantics (last matching line
/// of the file wins; `!` lines whitelist; `dir/` lines match directories
/// only).
pub uninterp spec fn gitignore_verdict(lines: Seq<Seq<char>>, path: Seq<char>, is_dir: bool) -> RuleMatch;

/// Relies on `ignore::gitignore::GitignoreBuilder::new`: a fresh builder
/// holds no globs. The root is the empty path, so nothing is ever
/// stripped from matched paths.
#[verifier::external_body]
pub(crate) fn gitignore_builder_new() -> (b: ignore::gitignore::GitignoreBuilder)
    ensures
        builder_lines(b) == Seq::<Seq<char>>::empty(),
{
    ignore::gitignore::GitignoreBuilder::new("")
}

/// Relies on `ignore::gitignore::GitignoreBuilder::add_line`: it fails
/// exactly when the line cannot be parsed as a gitignore glob; on
/// success it appends the line to the builder's set, and on failure it
/// returns before touching the builder.
#[verifier::external_body]
pub(crate) fn gitignore_builder_add_line(
    b: &mut ignore::gitignore::GitignoreBuilder,
    line: &str,
) -> (r: Result<(), ignore::Error>)
    ensures
        r is Ok <==> line_parses(line@),
        r is Ok ==> builder_lines(*final(b)) == builder_lines(*old(b)).push(line@),
        r is Err ==> builder_lines(*final(b)) == builder_lines(*old(b)),
{
    b.add_line(None, line).map(|_| ())
}

/// Relies on `ignore::gitignore::GitignoreBuilder::build`: compiling the
/// accepted lines into a matcher succeeds or fails depending on those
/// lines alone, and the matcher built matches by exactly those lines.
#[verifier::external_body]
pub(crate) fn gitignore_build(b: &ignore::gitignore::GitignoreBuilder) -> (r: Result<
    ignore::gitignore::Gitignore,
    ignore::Error,
>)
    ensures
        r is Ok <==> lines_compile(builder_lines(*b)),
        r matches Ok(g) ==> matcher_lines(g) == builder_lines(*b),
{
    b.build()
}

/// Relies on `ignore::gitignore::Gitignore::matched`: with an empty root
/// the verdict for a relative path is a function of the matcher's lines,
/// the path, and whether the path names a directory.
#[verifier::external_body]
pub(crate) fn gitignore_matched(
    g: &ignore::gitignore::Gitignore,
    path: &str,
    is_dir: bool,
) -> (r: RuleMatch)
    ensures
        r == gitignore_verdict(matcher_lines(*g), path@, is_dir),
{
    match g.matched(path, is_dir) {
        ignore::Match::None => RuleMatch::NoRule,
        ignore::Match::Ignore(_) => RuleMatch::Excluded,
        ignore::Match::Whitelist(_) => RuleMatch::Whitelisted,
    }
}

/// Relies on the `Display` impl of `ignore::Error`; the text is used for
/// reporting only and nothing is claimed of it.
#[verifier::external_body]
pub(crate) fn ignore_error_message(e: &ignore::Error) -> String {
    e.to_string()
}

} // verus!
