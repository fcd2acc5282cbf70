//! The text of a report: one line per check outcome.
use crate::checks::mbox_author::strings_view;
use crate::checks::Level;
use crate::checks::LintResult;
use crate::checks::PatchError;
use crate::config::resolve_level;
use crate::config::Config;
use vstd::prelude::*;
use vstd::string::*;

verus! {

pub open spec fn report_icon_view(level: Level) -> Seq<char> {
    match level {
        Level::Skip => "s"@,
        Level::Error => "❌"@,
        Level::Warning => "⚠"@,
    }
}

/// Maps a severity to the marker of a failed check's line.
pub fn icon(level: &Level) -> (r: &'static str)
    ensures
        r@ == report_icon_view(*level),
{
    match level {
        Level::Skip => "s",
        Level::Error => "❌",
        Level::Warning => "⚠",
    }
}

/// The patterns, separated by `, `.
pub open spec fn join_patterns(m: Seq<Seq<char>>) -> Seq<char>
    decreases m.len(),
{
    if m.len() == 0 {
        Seq::empty()
    } else if m.len() == 1 {
        m[0]
    } else {
        join_patterns(m.drop_last()) + ", "@ + m.last()
    }
}

pub open spec fn apply_failure_prefix() -> Seq<char> {
    "Patch cannot be applied. meta: "@
}

/// `t` is the text of the failure `e`: what went wrong, then the detail in
/// parentheses. For an apply failure both are the version-control library's
/// message.
pub open spec fn failure_text_ok(e: PatchError, t: Seq<char>) -> bool {
    match e {
        PatchError::Apply { .. } => exists|m: Seq<char>|
            t == apply_failure_prefix() + m + " ("@ + m + ")"@,
        PatchError::HeaderField { message } => t == "Header field is missing ("@ + message@
            + ")"@,
        PatchError::Author { matches } => t == "Found an invalid author ("@ + join_patterns(
            strings_view(matches@),
        ) + ")"@,
    }
}

/// `line` is the report line of `result`: a pass marker and the check's name,
/// or the marker of the check's severity and the failure's text.
pub open spec fn line_ok(result: LintResult, levels: Seq<(String, Level)>, line: Seq<char>) -> bool {
    match result.test_result {
        Ok(_) => line == "✅ "@ + result.meta_info.name@,
        Err(e) => {
            let head = report_icon_view(resolve_level(levels, result.meta_info.name@)) + " "@;
            &&& line.len() >= head.len()
            &&& line.subrange(0, head.len() as int) == head
            &&& failure_text_ok(e, line.subrange(head.len() as int, line.len() as int))
        },
    }
}

fn joined(m: &Vec<String>) -> (r: String)
    ensures
        r@ == join_patterns(strings_view(m@)),
{
    let ghost v = strings_view(m@);
    let mut r = String::new();
    let mut i: usize = 0;
    while i < m.len()
        invariant
            i <= m@.len(),
            v == strings_view(m@),
            r@ == join_patterns(v.take(i as int)),
        decreases m@.len() - i,
    {
        proof {
            assert(v.take(i + 1).drop_last() =~= v.take(i as int));
            assert(v.take(i + 1).last() == m@[i as int]@);
        }
        if i > 0 {
            r.append(", ");
        } else {
            assert(r@ + m@[0]@ =~= m@[0]@);
        }
        r.append(m[i].as_str());
        i += 1;
    }
    assert(v.take(i as int) =~= v);
    r
}

/// The text of a failure: what went wrong, then the detail in parentheses.
pub fn failure_text(e: &PatchError) -> (r: String)
    ensures
        failure_text_ok(*e, r@),
{
    match e {
        PatchError::Apply { source } => {
            let msg = source.message();
            let mut r = String::from_str("Patch cannot be applied. meta: ");
            r.append(msg);
            r.append(" (");
            r.append(msg);
            r.append(")");
            assert(r@ == apply_failure_prefix() + msg@ + " ("@ + msg@ + ")"@);
            r
        },
        PatchError::HeaderField { message } => {
            let mut r = String::from_str("Header field is missing (");
            r.append(message.as_str());
            r.append(")");
            r
        },
        PatchError::Author { matches } => {
            let mut r = String::from_str("Found an invalid author (");
            let j = joined(matches);
            r.append(j.as_str());
            r.append(")");
            r
        },
    }
}

/// The report line of one outcome.
pub fn report_line(result: &LintResult, config: &Config) -> (r: String)
    ensures
        line_ok(*result, config.levels@, r@),
{
    match &result.test_result {
        Ok(()) => {
            let mut r = String::from_str("✅ ");
            r.append(result.meta_info.name.as_str());
            r
        },
        Err(e) => {
            let level = config.get_error_level(result.meta_info.name.as_str());
            let mut r = String::from_str(icon(&level));
            r.append(" ");
            let ghost head = r@;
            let t = failure_text(e);
            r.append(t.as_str());
            assert(r@.subrange(0, head.len() as int) =~= head);
            assert(r@.subrange(head.len() as int, r@.len() as int) =~= t@);
            r
        },
    }
}

/// The report: one line per outcome, in the order of the outcomes.
pub fn report_lines(results: &Vec<LintResult>, config: &Config) -> (r: Vec<String>)
    ensures
        r@.len() == results@.len(),
        forall|i: int| 0 <= i < r@.len() ==> line_ok(results@[i], config.levels@, #[trigger] r@[i]@),
{
    let mut r: Vec<String> = Vec::new();
    let mut i: usize = 0;
    while i < results.len()
        invariant
            i <= results@.len(),
            r@.len() == i,
            forall|k: int| 0 <= k < i ==> line_ok(results@[k], config.levels@, #[trigger] r@[k]@),
        decreases results@.len() - i,
    {
        let line = report_line(&results[i], config);
        r.push(line);
        i += 1;
    }
    r
}

} // verus!
