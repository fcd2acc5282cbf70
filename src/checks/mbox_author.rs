//! The author check: the patch's author line against a deny-list of regular
//! expressions.
use crate::checks::LintResult;
use crate::checks::OutcomeView;
use crate::checks::FailureView;
use crate::checks::PatchError;
use crate::checks::TestMetaInfo;
use crate::config::compile_error_matches;
use crate::config::ConfigError;
use crate::patch::Patch;
use vstd::prelude::*;
use vstd::string::*;

verus! {

/// A compiled regular expression of the regex crate.
#[verifier::external_type_specification]
#[verifier::external_body]
pub struct ExRegex(regex::Regex);

/// The regex crate's compile error, dropped by the caller.
#[verifier::external_type_specification]
#[verifier::external_body]
pub struct ExRegexError(regex::Error);

/// Whether `regex::Regex::new` accepts a pattern.
pub uninterp spec fn pattern_valid(pattern: Seq<char>) -> bool;

/// Whether the regular expression `pattern` matches somewhere in `text`.
pub uninterp spec fn pattern_matches(pattern: Seq<char>, text: Seq<char>) -> bool;

/// The deny-list of author patterns, as configured.
pub struct InvalidAuthors {
    pub regular_expressions: Vec<String>,
}

impl Default for InvalidAuthors {
    /// An empty deny-list.
    fn default() -> (r: Self)
        ensures
            r.regular_expressions@.len() == 0,
    {
        InvalidAuthors { regular_expressions: Vec::new() }
    }
}

/// A deny-list pattern together with its compiled form. Only
/// `compile_pattern` makes one, so `re` is always `source` compiled.
pub struct AuthorPattern {
    source: String,
    re: regex::Regex,
}

impl View for AuthorPattern {
    type V = Seq<char>;

    /// The pattern's text.
    closed spec fn view(&self) -> Seq<char> {
        self.source@
    }
}

impl AuthorPattern {
    /// The pattern's text.
    pub fn source(&self) -> (r: &String)
        ensures
            r@ == self@,
    {
        &self.source
    }
}

pub open spec fn strings_view(v: Seq<String>) -> Seq<Seq<char>> {
    v.map_values(|s: String| s@)
}

pub open spec fn pattern_sources(v: Seq<AuthorPattern>) -> Seq<Seq<char>> {
    v.map_values(|p: AuthorPattern| p@)
}

/// The patterns of `pats` that match `author`, in their order.
pub open spec fn matching_patterns(pats: Seq<Seq<char>>, author: Seq<char>) -> Seq<Seq<char>>
    decreases pats.len(),
{
    if pats.len() == 0 {
        Seq::empty()
    } else {
        let rest = matching_patterns(pats.drop_last(), author);
        if pattern_matches(pats.last(), author) {
            rest.push(pats.last())
        } else {
            rest
        }
    }
}

/// What the author check gives for an author line and a deny-list.
pub open spec fn author_expected(author: Seq<char>, pats: Seq<Seq<char>>) -> OutcomeView {
    let m = matching_patterns(pats, author);
    OutcomeView {
        name: "valid author"@,
        failure: if m.len() == 0 {
            None
        } else {
            Some(FailureView::Author(m))
        },
    }
}

/// Relies on regex::Regex::new: it compiles `source`, or fails, depending on
/// the pattern alone.
#[verifier::external_body]
fn compile_pattern(source: &String) -> (r: Result<AuthorPattern, regex::Error>)
    ensures
        r is Ok <==> pattern_valid(source@),
        r is Ok ==> r->Ok_0@ == source@,
{
    match regex::Regex::new(source) {
        Ok(re) => Ok(AuthorPattern { source: source.clone(), re }),
        Err(e) => Err(e),
    }
}

/// Relies on regex::Regex::is_match: whether the compiled pattern matches
/// somewhere in `text`.
#[verifier::external_body]
fn pattern_is_match(p: &AuthorPattern, text: &str) -> (r: bool)
    ensures
        r == pattern_matches(p@, text@),
{
    p.re.is_match(text)
}

/// Compiles every pattern of the deny-list; the first invalid one is an error.
pub fn compile_patterns(invalid: &InvalidAuthors) -> (r: Result<Vec<AuthorPattern>, ConfigError>)
    ensures
        compile_error_matches(
            invalid.regular_expressions@,
            match r {
                Ok(_) => None,
                Err(e) => Some(e),
            },
        ),
        r is Ok ==> pattern_sources(r->Ok_0@) == strings_view(invalid.regular_expressions@),
{
    let srcs = &invalid.regular_expressions;
    let mut out: Vec<AuthorPattern> = Vec::new();
    let mut i: usize = 0;
    while i < srcs.len()
        invariant
            i <= srcs@.len(),
            srcs@ == invalid.regular_expressions@,
            forall|k: int| 0 <= k < i ==> pattern_valid(#[trigger] srcs@[k]@),
            pattern_sources(out@) == strings_view(srcs@.take(i as int)),
        decreases srcs@.len() - i,
    {
        match compile_pattern(&srcs[i]) {
            Ok(p) => {
                proof {
                    assert(pattern_sources(out@.push(p)) =~= pattern_sources(out@).push(p@));
                    assert(strings_view(srcs@.take(i + 1)) =~= strings_view(srcs@.take(i as int)).push(
                        srcs@[i as int]@,
                    ));
                }
                out.push(p);
            },
            Err(_) => {
                let pattern = srcs[i].clone();
                let e = ConfigError::InvalidPattern { index: i, pattern };
                assert(compile_error_matches(srcs@, Some(e)));
                return Err(e);
            },
        }
        i += 1;
    }
    assert(srcs@.take(i as int) =~= srcs@);
    Ok(out)
}

proof fn lemma_matching_contains(pats: Seq<Seq<char>>, author: Seq<char>, x: Seq<char>)
    ensures
        matching_patterns(pats, author).contains(x) <==> (pats.contains(x) && pattern_matches(
            x,
            author,
        )),
    decreases pats.len(),
{
    if pats.len() > 0 {
        lemma_matching_contains(pats.drop_last(), author, x);
        let rest = matching_patterns(pats.drop_last(), author);
        if pattern_matches(pats.last(), author) {
            assert(rest.push(pats.last()).contains(x) <==> (rest.contains(x) || x == pats.last()))
                by {
                if rest.push(pats.last()).contains(x) {
                    let j = choose|j: int| 0 <= j < rest.len() + 1 && rest.push(pats.last())[j] == x;
                    if j < rest.len() {
                        assert(rest[j] == x);
                    }
                }
                if rest.contains(x) {
                    let j = choose|j: int| 0 <= j < rest.len() && rest[j] == x;
                    assert(rest.push(pats.last())[j] == x);
                }
                if x == pats.last() {
                    assert(rest.push(pats.last())[rest.len() as int] == x);
                }
            }
        }
        assert(pats.contains(x) <==> (pats.drop_last().contains(x) || x == pats.last())) by {
            if pats.contains(x) {
                let j = choose|j: int| 0 <= j < pats.len() && pats[j] == x;
                if j < pats.len() - 1 {
                    assert(pats.drop_last()[j] == x);
                }
            }
            if pats.drop_last().contains(x) {
                let j = choose|j: int| 0 <= j < pats.len() - 1 && pats.drop_last()[j] == x;
                assert(pats[j] == x);
            }
            if x == pats.last() {
                assert(pats[pats.len() - 1] == x);
            }
        }
    }
}

/// The author check reports every deny-list pattern that matches the author,
/// and only those.
pub proof fn lemma_all_matches_reported(pats: Seq<Seq<char>>, author: Seq<char>, x: Seq<char>)
    ensures
        matching_patterns(pats, author).contains(x) <==> (pats.contains(x) && pattern_matches(
            x,
            author,
        )),
{
    lemma_matching_contains(pats, author, x);
}

/// When some deny-list pattern matches the author, the author check fails with
/// a list that holds every matching pattern.
pub proof fn lemma_author_fails_with_all_matches(pats: Seq<Seq<char>>, author: Seq<char>, i: int)
    requires
        0 <= i < pats.len(),
        pattern_matches(pats[i], author),
    ensures
        author_expected(author, pats).failure == Some(
            FailureView::Author(matching_patterns(pats, author)),
        ),
        forall|j: int|
            0 <= j < pats.len() && pattern_matches(#[trigger] pats[j], author)
                ==> matching_patterns(pats, author).contains(pats[j]),
{
    assert forall|j: int|
        0 <= j < pats.len() && pattern_matches(#[trigger] pats[j], author)
            implies matching_patterns(pats, author).contains(pats[j]) by {
        lemma_matching_contains(pats, author, pats[j]);
        assert(pats.contains(pats[j]));
    }
    assert(matching_patterns(pats, author).contains(pats[i]));
}

/// The author check passes exactly when no deny-list pattern matches the
/// author; in particular it passes with an empty deny-list.
pub proof fn lemma_author_passes(pats: Seq<Seq<char>>, author: Seq<char>)
    ensures
        author_expected(author, pats).failure is None <==> (forall|i: int|
            0 <= i < pats.len() ==> !pattern_matches(#[trigger] pats[i], author)),
{
    let m = matching_patterns(pats, author);
    if m.len() > 0 {
        lemma_matching_contains(pats, author, m[0]);
        assert(m.contains(m[0]));
        let j = choose|j: int| 0 <= j < pats.len() && pats[j] == m[0];
        assert(pattern_matches(pats[j], author));
    }
    if exists|i: int| 0 <= i < pats.len() && pattern_matches(#[trigger] pats[i], author) {
        let i = choose|i: int| 0 <= i < pats.len() && pattern_matches(#[trigger] pats[i], author);
        lemma_matching_contains(pats, author, pats[i]);
        assert(pats.contains(pats[i]));
    }
}

/// The author check over a compiled deny-list.
pub fn check_author(author: &String, patterns: &Vec<AuthorPattern>) -> (r: LintResult)
    ensures
        r.view() == author_expected(author@, pattern_sources(patterns@)),
{
    let ghost pats = pattern_sources(patterns@);
    let mut matches: Vec<String> = Vec::new();
    let mut i: usize = 0;
    while i < patterns.len()
        invariant
            i <= patterns@.len(),
            pats == pattern_sources(patterns@),
            strings_view(matches@) == matching_patterns(pats.take(i as int), author@),
        decreases patterns@.len() - i,
    {
        proof {
            assert(pats.take(i + 1).drop_last() =~= pats.take(i as int));
            assert(pats.take(i + 1).last() == patterns@[i as int]@);
        }
        if pattern_is_match(&patterns[i], author.as_str()) {
            let s = patterns[i].source.clone();
            proof {
                assert(strings_view(matches@.push(s)) =~= strings_view(matches@).push(s@));
            }
            matches.push(s);
        }
        i += 1;
    }
    assert(pats.take(i as int) =~= pats);
    let name = String::from_str("valid author");
    let test_result = if matches.len() == 0 {
        Ok(())
    } else {
        Err(PatchError::Author { matches })
    };
    LintResult { meta_info: TestMetaInfo { name }, test_result }
}

/// The author check on a patch: the deny-list is compiled first, and an
/// invalid pattern is an error of the configuration.
pub fn test_author_valid(patch: &Patch, invalid: &InvalidAuthors) -> (r: Result<
    LintResult,
    ConfigError,
>)
    ensures
        compile_error_matches(
            invalid.regular_expressions@,
            match r {
                Ok(_) => None,
                Err(e) => Some(e),
            },
        ),
        r is Ok ==> r->Ok_0.view() == author_expected(
            patch.header.author@,
            strings_view(invalid.regular_expressions@),
        ),
{
    match compile_patterns(invalid) {
        Err(e) => Err(e),
        Ok(patterns) => Ok(check_author(&patch.header.author, &patterns)),
    }
}

} // verus!
