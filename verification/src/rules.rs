//! Building the filter rule set of a staging run: the implicit protection
//! of the reserved metadata file, the user's override globs, and the
//! externally supplied ignore files.
//!
//! An override glob is an inclusion, or an exclusion when it starts with
//! `!`. Within the override layer the last matching glob wins, and the
//! whole layer takes precedence over every ignore file. The reserved
//! metadata file at the content root is protected from exclusion unless a
//! user glob targets exactly that filename.

use vstd::prelude::*;

use crate::matcher::gitignore_build;
use crate::matcher::gitignore_builder_add_line;
use crate::matcher::gitignore_builder_new;
use crate::matcher::ignore_error_message;
use crate::matcher::line_parses;
use crate::matcher::lines_compile;
use crate::matcher::matcher_lines;
use crate::matcher::gitignore_verdict;
use crate::matcher::RuleMatch;
use crate::text::decode_lines;
use crate::text::text_lines;

verus! {

/// The name of the metadata file kept beside an item's content.
pub open spec fn metadata_filename() -> Seq<char> {
    "workshop.toml"@
}

/// The metadata file's name, for callers that build paths.
pub fn metadata_filename_str() -> (r: &'static str)
    ensures
        r@ == metadata_filename(),
{
    "workshop.toml"
}

/// The override glob that re-excludes exactly the metadata file.
pub open spec fn metadata_exclusion() -> Seq<char> {
    "!workshop.toml"@
}

/// Whether an override glob is an exclusion.
pub open spec fn glob_negated(g: Seq<char>) -> bool {
    g.len() > 0 && g[0] == '!'
}

/// The override glob without its negation marker.
pub open spec fn glob_pattern(g: Seq<char>) -> Seq<char> {
    if glob_negated(g) {
        g.drop_first()
    } else {
        g
    }
}

/// Whether one user override glob parses and compiles on its own.
pub open spec fn user_glob_ok(g: Seq<char>) -> bool {
    &&& line_parses(glob_pattern(g))
    &&& lines_compile(seq![glob_pattern(g)])
}

/// Whether the lines of one external ignore file all parse and compile
/// together.
pub open spec fn ignore_file_ok(lines: Seq<Seq<char>>) -> bool {
    &&& forall|i: int| 0 <= i < lines.len() ==> line_parses(#[trigger] lines[i])
    &&& lines_compile(lines)
}

/// Whether a whole rule set can be built from these inputs.
pub open spec fn build_ok(globs: Seq<Seq<char>>, files: Seq<Seq<u8>>) -> bool {
    &&& forall|i: int| 0 <= i < globs.len() ==> user_glob_ok(#[trigger] globs[i])
    &&& forall|i: int| 0 <= i < files.len() ==> ignore_file_ok(text_lines(#[trigger] files[i]))
}

/// A fatal error of the staging pipeline.
#[derive(Debug)]
pub enum StageError {
    /// A user glob or an ignore-file line has invalid glob syntax, or the
    /// patterns do not compile into a matcher. The offending pattern and
    /// the matcher's account of the problem are carried for reporting.
    InvalidPattern { pattern: String, message: String },
}

impl StageError {
    /// The offending pattern.
    pub closed spec fn spec_pattern(&self) -> Seq<char> {
        match self {
            StageError::InvalidPattern { pattern, .. } => pattern@,
        }
    }

    /// The matcher's account of the problem.
    pub closed spec fn spec_message(&self) -> Seq<char> {
        match self {
            StageError::InvalidPattern { message, .. } => message@,
        }
    }

    /// The offending pattern, for reporting.
    pub fn pattern(&self) -> (r: &String)
        ensures
            r@ == self.spec_pattern(),
    {
        match self {
            StageError::InvalidPattern { pattern, .. } => pattern,
        }
    }

    /// The matcher's account of the problem, for reporting.
    pub fn message(&self) -> (r: &String)
        ensures
            r@ == self.spec_message(),
    {
        match self {
            StageError::InvalidPattern { message, .. } => message,
        }
    }
}

/// One user override: its polarity and a matcher for its glob.
pub struct OverrideRule {
    negated: bool,
    matcher: ignore::gitignore::Gitignore,
}

/// What one override rule means: `negated` excludes, otherwise includes,
/// whatever `pattern` matches.
pub struct OverrideView {
    pub negated: bool,
    pub pattern: Seq<char>,
}

impl View for OverrideRule {
    type V = OverrideView;

    closed spec fn view(&self) -> OverrideView {
        OverrideView { negated: self.negated, pattern: matcher_lines(self.matcher)[0] }
    }
}

impl OverrideRule {
    /// The rule's matcher holds exactly its one glob.
    pub closed spec fn wf(&self) -> bool {
        matcher_lines(self.matcher).len() == 1
    }

    /// Whether this rule's glob matches the relative path.
    pub open spec fn spec_applies(v: OverrideView, path: Seq<char>, is_dir: bool) -> bool {
        gitignore_verdict(seq![v.pattern], path, is_dir) != RuleMatch::NoRule
    }

    /// Matches the relative path against this rule's glob.
    pub fn applies(&self, path: &str, is_dir: bool) -> (r: bool)
        requires
            self.wf(),
        ensures
            r == Self::spec_applies(self@, path@, is_dir),
    {
        proof {
            assert(matcher_lines(self.matcher) =~= seq![self@.pattern]);
        }
        let v = crate::matcher::gitignore_matched(&self.matcher, path, is_dir);
        v != RuleMatch::NoRule
    }

    /// Whether this rule excludes what it matches.
    pub fn is_negated(&self) -> (r: bool)
        ensures
            r == self@.negated,
    {
        self.negated
    }
}

/// The compiled rule set of one staging run.
pub struct RuleSet {
    user_rules: Vec<OverrideRule>,
    meta_unprotected: bool,
    extra_ignores: Vec<ignore::gitignore::Gitignore>,
}

/// What a rule set holds: the user overrides in order, whether a user
/// glob lifted the metadata file's protection, and the lines of each
/// external ignore file in order.
pub struct RulesView {
    pub user_rules: Seq<OverrideView>,
    pub meta_unprotected: bool,
    pub extra: Seq<Seq<Seq<char>>>,
}

impl View for RuleSet {
    type V = RulesView;

    closed spec fn view(&self) -> RulesView {
        RulesView {
            user_rules: self.user_rules@.map_values(|r: OverrideRule| r@),
            meta_unprotected: self.meta_unprotected,
            extra: self.extra_ignores@.map_values(|g: ignore::gitignore::Gitignore| matcher_lines(g)),
        }
    }
}

impl RuleSet {
    /// Every override rule holds exactly its one glob.
    pub closed spec fn wf(&self) -> bool {
        forall|i: int| 0 <= i < self.user_rules@.len() ==> (#[trigger] self.user_rules@[i]).wf()
    }

    pub(crate) fn user_rules(&self) -> (r: &Vec<OverrideRule>)
        ensures
            r@.map_values(|x: OverrideRule| x@) == self@.user_rules,
            self.wf() ==> forall|i: int| 0 <= i < r@.len() ==> (#[trigger] r@[i]).wf(),
    {
        &self.user_rules
    }

    pub(crate) fn meta_unprotected(&self) -> (r: bool)
        ensures
            r == self@.meta_unprotected,
    {
        self.meta_unprotected
    }

    pub(crate) fn extra_ignores(&self) -> (r: &Vec<ignore::gitignore::Gitignore>)
        ensures
            r@.map_values(|g: ignore::gitignore::Gitignore| matcher_lines(g)) == self@.extra,
    {
        &self.extra_ignores
    }
}

/// The views of the user globs, as override rules.
pub open spec fn override_views(globs: Seq<Seq<char>>) -> Seq<OverrideView> {
    globs.map_values(|g: Seq<char>| OverrideView { negated: glob_negated(g), pattern: glob_pattern(g) })
}

/// Whether some user glob is exactly the exclusion of the metadata file.
pub open spec fn meta_reexcluded(globs: Seq<Seq<char>>) -> bool
    decreases globs.len(),
{
    if globs.len() == 0 {
        false
    } else {
        meta_reexcluded(globs.drop_last()) || globs.last() == metadata_exclusion()
    }
}

/// The protection is lifted exactly when some user glob is, letter for
/// letter, the exclusion of the metadata file.
pub proof fn lemma_meta_reexcluded_iff(globs: Seq<Seq<char>>)
    ensures
        meta_reexcluded(globs) <==> exists|i: int|
            0 <= i < globs.len() && #[trigger] globs[i] == metadata_exclusion(),
    decreases globs.len(),
{
    if globs.len() > 0 {
        lemma_meta_reexcluded_iff(globs.drop_last());
        if meta_reexcluded(globs) {
            if globs.last() == metadata_exclusion() {
                assert(globs[globs.len() - 1] == metadata_exclusion());
            } else {
                let i = choose|i: int|
                    0 <= i < globs.drop_last().len() && #[trigger] globs.drop_last()[i]
                        == metadata_exclusion();
                assert(globs[i] == metadata_exclusion());
            }
        } else {
            assert forall|i: int|
                0 <= i < globs.len() implies #[trigger] globs[i] != metadata_exclusion() by {
                if i < globs.len() - 1 {
                    assert(globs.drop_last()[i] == globs[i]);
                }
            }
        }
    }
}

/// Builds the rule set out of the user override globs and the contents of
/// the external ignore files, in the order given. It fails exactly when a
/// glob or an ignore-file line does not parse, or a matcher does not
/// compile.
pub fn build_rule_set(globs: &Vec<String>, ignore_files: &Vec<Vec<u8>>) -> (r: Result<
    RuleSet,
    StageError,
>)
    ensures
        r is Ok <==> build_ok(
            globs@.map_values(|s: String| s@),
            ignore_files@.map_values(|f: Vec<u8>| f@),
        ),
        r matches Ok(rs) ==> {
            &&& rs.wf()
            &&& rs@.user_rules == override_views(globs@.map_values(|s: String| s@))
            &&& rs@.meta_unprotected == meta_reexcluded(globs@.map_values(|s: String| s@))
            &&& rs@.extra == ignore_files@.map_values(|f: Vec<u8>| text_lines(f@))
        },
{
    let ghost glob_views = globs@.map_values(|s: String| s@);
    let ghost file_views = ignore_files@.map_values(|f: Vec<u8>| f@);
    let meta_exclusion_text: String = String::from_str("!workshop.toml");

    let mut user_rules: Vec<OverrideRule> = Vec::new();
    let mut meta_unprotected = false;
    let n = globs.len();
    let mut i: usize = 0;
    proof {
        assert(glob_views.take(0) =~= Seq::<Seq<char>>::empty());
        assert(user_rules@.map_values(|x: OverrideRule| x@) =~= override_views(
            glob_views.take(0),
        ));
    }
    while i < n
        invariant
            n == globs@.len(),
            i <= n,
            glob_views == globs@.map_values(|s: String| s@),
            meta_exclusion_text@ == metadata_exclusion(),
            forall|j: int| 0 <= j < i ==> user_glob_ok(#[trigger] glob_views[j]),
            user_rules@.map_values(|x: OverrideRule| x@) == override_views(
                glob_views.take(i as int),
            ),
            forall|j: int| 0 <= j < user_rules@.len() ==> (#[trigger] user_rules@[j]).wf(),
            meta_unprotected == meta_reexcluded(glob_views.take(i as int)),
        decreases n - i,
    {
        let g: &String = &globs[i];
        proof {
            assert(glob_views[i as int] == g@);
        }
        let glen = g.as_str().unicode_len();
        let negated = glen > 0 && g.as_str().get_char(0) == '!';
        let pattern: &str = if negated {
            g.as_str().substring_char(1, glen)
        } else {
            g.as_str()
        };
        proof {
            assert(pattern@ =~= glob_pattern(g@));
            assert(negated == glob_negated(g@));
        }
        let mut b = gitignore_builder_new();
        match gitignore_builder_add_line(&mut b, pattern) {
            Err(e) => {
                proof {
                    assert(!user_glob_ok(glob_views[i as int]));
                }
                return Err(
                    StageError::InvalidPattern {
                        pattern: g.clone(),
                        message: ignore_error_message(&e),
                    },
                );
            },
            Ok(()) => {},
        }
        proof {
            assert(crate::matcher::builder_lines(b) =~= seq![glob_pattern(g@)]);
        }
        let matcher = match gitignore_build(&b) {
            Err(e) => {
                proof {
                    assert(!user_glob_ok(glob_views[i as int]));
                }
                return Err(
                    StageError::InvalidPattern {
                        pattern: g.clone(),
                        message: ignore_error_message(&e),
                    },
                );
            },
            Ok(m) => m,
        };
        let rule = OverrideRule { negated, matcher };
        let ghost old_rules = user_rules@;
        user_rules.push(rule);
        if *g == meta_exclusion_text {
            meta_unprotected = true;
        }
        proof {
            assert(rule@ == (OverrideView {
                negated: glob_negated(g@),
                pattern: glob_pattern(g@),
            }));
            old_rules.lemma_push_map_commute(|x: OverrideRule| x@, rule);
            glob_views.lemma_map_take_succ(
                |g2: Seq<char>| OverrideView { negated: glob_negated(g2), pattern: glob_pattern(g2) },
                i as int,
            );
            assert(user_rules@.map_values(|x: OverrideRule| x@) =~= override_views(
                glob_views.take(i as int + 1),
            ));
            assert(glob_views.take(i as int + 1).drop_last() =~= glob_views.take(i as int));
            assert(glob_views.take(i as int + 1).last() == g@);
        }
        i = i + 1;
    }
    proof {
        assert(glob_views.take(n as int) =~= glob_views);
    }

    let mut extra_ignores: Vec<ignore::gitignore::Gitignore> = Vec::new();
    let fcount = ignore_files.len();
    let mut fi: usize = 0;
    proof {
        assert(file_views.take(0) =~= Seq::<Seq<u8>>::empty());
        assert(extra_ignores@.map_values(|g2: ignore::gitignore::Gitignore| matcher_lines(g2))
            =~= file_views.take(0).map_values(|f: Seq<u8>| text_lines(f)));
    }
    while fi < fcount
        invariant
            fcount == ignore_files@.len(),
            fi <= fcount,
            file_views == ignore_files@.map_values(|f: Vec<u8>| f@),
            forall|j: int| 0 <= j < fi ==> ignore_file_ok(text_lines(#[trigger] file_views[j])),
            extra_ignores@.map_values(|g2: ignore::gitignore::Gitignore| matcher_lines(g2))
                == file_views.take(fi as int).map_values(|f: Seq<u8>| text_lines(f)),
        decreases fcount - fi,
    {
        proof {
            assert(file_views[fi as int] == ignore_files@[fi as int]@);
        }
        let lines = decode_lines(&ignore_files[fi]);
        let ghost line_views = text_lines(file_views[fi as int]);
        let mut b = gitignore_builder_new();
        let lcount = lines.len();
        let mut li: usize = 0;
        proof {
            assert(crate::matcher::builder_lines(b) =~= line_views.take(0));
        }
        while li < lcount
            invariant
                lcount == lines@.len(),
                li <= lcount,
                fi < fcount,
                fcount == ignore_files@.len(),
                file_views == ignore_files@.map_values(|f: Vec<u8>| f@),
                line_views == text_lines(file_views[fi as int]),
                lines@.map_values(|s: String| s@) == line_views,
                forall|j: int| 0 <= j < li ==> line_parses(#[trigger] line_views[j]),
                crate::matcher::builder_lines(b) == line_views.take(li as int),
            decreases lcount - li,
        {
            let line: &String = &lines[li];
            proof {
                assert(line_views[li as int] == line@);
            }
            match gitignore_builder_add_line(&mut b, line.as_str()) {
                Err(e) => {
                    proof {
                        assert(!line_parses(line_views[li as int]));
                        assert(!ignore_file_ok(text_lines(file_views[fi as int])));
                    }
                    return Err(
                        StageError::InvalidPattern {
                            pattern: line.clone(),
                            message: ignore_error_message(&e),
                        },
                    );
                },
                Ok(()) => {},
            }
            proof {
                assert(crate::matcher::builder_lines(b) =~= line_views.take(li as int + 1));
            }
            li = li + 1;
        }
        proof {
            assert(line_views.take(lcount as int) =~= line_views);
        }
        let matcher = match gitignore_build(&b) {
            Err(e) => {
                proof {
                    assert(!ignore_file_ok(text_lines(file_views[fi as int])));
                }
                return Err(
                    StageError::InvalidPattern {
                        pattern: String::new(),
                        message: ignore_error_message(&e),
                    },
                );
            },
            Ok(m) => m,
        };
        let ghost old_extra = extra_ignores@;
        extra_ignores.push(matcher);
        proof {
            old_extra.lemma_push_map_commute(
                |g2: ignore::gitignore::Gitignore| matcher_lines(g2),
                matcher,
            );
            file_views.lemma_map_take_succ(|f: Seq<u8>| text_lines(f), fi as int);
            assert(extra_ignores@.map_values(|g2: ignore::gitignore::Gitignore| matcher_lines(g2))
                =~= file_views.take(fi as int + 1).map_values(|f: Seq<u8>| text_lines(f)));
        }
        fi = fi + 1;
    }
    proof {
        assert(file_views.take(fcount as int) =~= file_views);
    }

    Ok(RuleSet { user_rules, meta_unprotected, extra_ignores })
}

} // verus!
