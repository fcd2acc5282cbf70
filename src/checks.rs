//! The fixed set of lint checks run over a patch, and their outcomes.
pub mod mbox_author;

use crate::checks::mbox_author::author_expected;
use crate::checks::mbox_author::check_author;
use crate::checks::mbox_author::compile_patterns;
use crate::checks::mbox_author::pattern_sources;
use crate::checks::mbox_author::strings_view;
use crate::checks::mbox_author::AuthorPattern;
use crate::config::compile_error_matches;
use crate::config::Config;
use crate::config::ConfigError;
use crate::patch::Patch;
use vstd::prelude::*;
use vstd::string::*;

verus! {

/// git2's error type, carried through unread.
#[verifier::external_type_specification]
#[verifier::external_body]
pub struct ExGitError(git2::Error);

/// A git2 repository handle, passed to the apply call only.
#[verifier::external_type_specification]
#[verifier::external_body]
pub struct ExRepository(git2::Repository);

/// A diff as git2 reads it, passed to the apply call only.
#[verifier::external_type_specification]
#[verifier::external_body]
pub struct ExDiff<'a>(git2::Diff<'a>);

/// Relies on git2::Error::message: the error's text, of which nothing is assumed.
pub assume_specification<'a>[ git2::Error::message ](e: &'a git2::Error) -> &'a str;

/// The name of a check.
#[derive(Debug)]
pub struct TestMetaInfo {
    pub name: String,
}

/// Why a check failed.
pub enum PatchError {
    /// The diff could not be applied to the working tree.
    Apply { source: git2::Error },
    /// A header field that the check needs is empty.
    HeaderField { message: String },
    /// The author matches deny-list patterns: all of them, in deny-list order.
    Author { matches: Vec<String> },
}

/// The outcome of one check.
pub struct LintResult {
    pub meta_info: TestMetaInfo,
    pub test_result: Result<(), PatchError>,
}

/// A failure, as plain values.
pub enum FailureView {
    Apply(git2::Error),
    MissingField(Seq<char>),
    Author(Seq<Seq<char>>),
}

/// An outcome, as plain values: the check's name and its failure, if any.
pub struct OutcomeView {
    pub name: Seq<char>,
    pub failure: Option<FailureView>,
}

impl PatchError {
    pub open spec fn view(&self) -> FailureView {
        match self {
            PatchError::Apply { source } => FailureView::Apply(*source),
            PatchError::HeaderField { message } => FailureView::MissingField(message@),
            PatchError::Author { matches } => FailureView::Author(strings_view(matches@)),
        }
    }
}

impl LintResult {
    pub open spec fn view(&self) -> OutcomeView {
        OutcomeView {
            name: self.meta_info.name@,
            failure: match self.test_result {
                Ok(_) => None,
                Err(e) => Some(e.view()),
            },
        }
    }
}

pub open spec fn outcomes_view(v: Seq<LintResult>) -> Seq<OutcomeView> {
    v.map_values(|r: LintResult| r.view())
}

/// The characters that `char::is_whitespace` accepts (Unicode White_Space).
pub open spec fn is_white_space(c: char) -> bool {
    let v = c as u32;
    (9 <= v <= 13) || v == 32 || v == 0x85 || v == 0xA0 || v == 0x1680 || (0x2000 <= v <= 0x200A)
        || v == 0x2028 || v == 0x2029 || v == 0x202F || v == 0x205F || v == 0x3000
}

/// Empty, or whitespace only.
pub open spec fn is_blank(s: Seq<char>) -> bool {
    forall|i: int| 0 <= i < s.len() ==> is_white_space(s[i])
}

/// What the summary check gives for a summary text.
pub open spec fn summary_expected(summary: Seq<char>) -> OutcomeView {
    OutcomeView {
        name: "summary"@,
        failure: if is_blank(summary) {
            Some(FailureView::MissingField("summary is empty"@))
        } else {
            None
        },
    }
}

/// What the apply check gives for the result of applying the diff.
pub open spec fn apply_expected(applied: Result<(), git2::Error>) -> OutcomeView {
    OutcomeView {
        name: "apply patch"@,
        failure: match applied {
            Ok(_) => None,
            Err(e) => Some(FailureView::Apply(e)),
        },
    }
}

/// The outcomes of all checks, in their fixed order.
pub open spec fn checks_expected(
    patch: Patch,
    applied: Result<(), git2::Error>,
    patterns: Seq<Seq<char>>,
) -> Seq<OutcomeView> {
    seq![
        summary_expected(patch.header.summary@),
        apply_expected(applied),
        author_expected(patch.header.author@, patterns),
    ]
}

/// Severity attached to a failed check.
#[derive(Clone, Copy, Debug, PartialEq, Eq, Structural)]
pub enum Level {
    Error,
    Warning,
    Skip,
}

pub open spec fn icon_view(level: Level) -> Seq<char> {
    match level {
        Level::Skip => "s"@,
        Level::Error => "❌"@,
        Level::Warning => "⚠"@,
    }
}

/// The marker of a severity; `s` marks a failure that is ignored.
pub fn icon(level: &Level) -> (r: &'static str)
    ensures
        r@ == icon_view(*level),
{
    match level {
        Level::Skip => "s",
        Level::Error => "❌",
        Level::Warning => "⚠",
    }
}

pub struct ApplyPatch {}

pub struct Summary {}

fn is_white_space_char(c: char) -> (r: bool)
    ensures
        r == is_white_space(c),
{
    let v = c as u32;
    (9 <= v && v <= 13) || v == 32 || v == 0x85 || v == 0xA0 || v == 0x1680 || (0x2000 <= v && v
        <= 0x200A) || v == 0x2028 || v == 0x2029 || v == 0x202F || v == 0x205F || v == 0x3000
}

/// Whether a text is empty or whitespace only.
pub fn is_blank_text(s: &str) -> (r: bool)
    ensures
        r == is_blank(s@),
{
    let n = s.unicode_len();
    let mut i: usize = 0;
    while i < n
        invariant
            n == s@.len(),
            i <= n,
            forall|k: int| 0 <= k < i ==> is_white_space(s@[k]),
        decreases n - i,
    {
        if !is_white_space_char(s.get_char(i)) {
            return false;
        }
        i += 1;
    }
    true
}

impl Summary {
    /// The summary check: it fails when the summary is empty or whitespace only.
    pub fn check(patch: &Patch) -> (r: LintResult)
        ensures
            r.view() == summary_expected(patch.header.summary@),
    {
        let name = String::from_str("summary");
        let test_result = if is_blank_text(patch.header.summary.as_str()) {
            Err(PatchError::HeaderField { message: String::from_str("summary is empty") })
        } else {
            Ok(())
        };
        LintResult { meta_info: TestMetaInfo { name }, test_result }
    }
}

/// Relies on git2::Diff::from_buffer: it reads a diff from bytes; nothing is
/// assumed of the outcome.
#[verifier::external_body]
fn diff_from_bytes(b: &[u8]) -> (r: Result<git2::Diff<'static>, git2::Error>) {
    git2::Diff::from_buffer(b)
}

/// Relies on git2::Repository::apply: it applies a diff to the working
/// directory; the outcome depends on the files there, so nothing is assumed of it.
#[verifier::external_body]
fn apply_to_workdir(repo: &git2::Repository, diff: &git2::Diff<'static>) -> (r: Result<
    (),
    git2::Error,
>) {
    repo.apply(diff, git2::ApplyLocation::WorkDir, Some(&mut git2::ApplyOptions::new()))
}

/// Applies the patch's diff to the repository's working directory.
pub fn apply_to_tree(repo: &git2::Repository, patch: &Patch) -> (r: Result<(), git2::Error>) {
    match diff_from_bytes(patch.diff.as_slice()) {
        Ok(diff) => apply_to_workdir(repo, &diff),
        Err(e) => Err(e),
    }
}

/// The apply check's outcome for the result of applying the diff.
pub fn apply_outcome(applied: Result<(), git2::Error>) -> (r: LintResult)
    ensures
        r.view() == apply_expected(applied),
{
    let name = String::from_str("apply patch");
    let test_result = match applied {
        Ok(()) => Ok(()),
        Err(source) => Err(PatchError::Apply { source }),
    };
    LintResult { meta_info: TestMetaInfo { name }, test_result }
}

/// Applies the patch and wraps a failure in a `PatchError`.
pub fn apply_patch(repo: &git2::Repository, patch: &Patch) -> (r: LintResult)
    ensures
        r.view().name == "apply patch"@,
        r.view().failure is Some ==> r.view().failure->Some_0 is Apply,
{
    apply_outcome(apply_to_tree(repo, patch))
}

impl ApplyPatch {
    /// Applies the patch and wraps a failure in a `PatchError`.
    pub fn apply(repo: &git2::Repository, patch: &Patch) -> (r: LintResult)
        ensures
            r.view().name == "apply patch"@,
            r.view().failure is Some ==> r.view().failure->Some_0 is Apply,
    {
        apply_patch(repo, patch)
    }
}

/// Runs every check, in the fixed order summary, apply, author, given the
/// result of applying the diff and the compiled deny-list.
pub fn run_checks(
    patch: &Patch,
    applied: Result<(), git2::Error>,
    patterns: &Vec<AuthorPattern>,
) -> (r: Vec<LintResult>)
    ensures
        outcomes_view(r@) == checks_expected(*patch, applied, pattern_sources(patterns@)),
{
    let mut r: Vec<LintResult> = Vec::new();
    r.push(Summary::check(patch));
    r.push(apply_outcome(applied));
    r.push(check_author(&patch.header.author, patterns));
    assert(outcomes_view(r@) =~= checks_expected(*patch, applied, pattern_sources(patterns@)));
    r
}

/// Runs every check against a repository. The deny-list is compiled first; an
/// invalid pattern stops the run before any check.
pub fn run_all_tests(patch: &Patch, repo: &git2::Repository, config: &Config) -> (r: Result<
    Vec<LintResult>,
    ConfigError,
>)
    ensures
        compile_error_matches(
            config.invalid_authors.regular_expressions@,
            match r {
                Ok(_) => None,
                Err(e) => Some(e),
            },
        ),
        r is Ok ==> {
            let v = outcomes_view(r->Ok_0@);
            let pats = strings_view(config.invalid_authors.regular_expressions@);
            &&& v.len() == 3
            &&& v[0] == summary_expected(patch.header.summary@)
            &&& v[1].name == "apply patch"@
            &&& v[1].failure is Some ==> v[1].failure->Some_0 is Apply
            &&& v[2] == author_expected(patch.header.author@, pats)
        },
{
    match compile_patterns(&config.invalid_authors) {
        Err(e) => Err(e),
        Ok(patterns) => {
            let applied = apply_to_tree(repo, patch);
            Ok(run_checks(patch, applied, &patterns))
        },
    }
}

/// Running the checks twice on the same patch, the same result of applying the
/// diff and the same deny-list gives the same outcomes.
pub proof fn lemma_checks_repeatable(
    patch: Patch,
    applied: Result<(), git2::Error>,
    patterns: Seq<Seq<char>>,
    first: Seq<LintResult>,
    second: Seq<LintResult>,
)
    requires
        outcomes_view(first) == checks_expected(patch, applied, patterns),
        outcomes_view(second) == checks_expected(patch, applied, patterns),
    ensures
        outcomes_view(first) == outcomes_view(second),
{
}

} // verus!
