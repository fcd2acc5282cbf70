//! Run configuration: severities per check and the author deny-list.
use crate::checks::mbox_author::pattern_valid;
use crate::checks::mbox_author::InvalidAuthors;
use crate::checks::Level;
use vstd::prelude::*;
use vstd::string::*;

verus! {

/// A configuration that cannot be used.
#[derive(Debug)]
pub enum ConfigError {
    /// The deny-list pattern at `index` is not a valid regular expression.
    InvalidPattern { index: usize, pattern: String },
}

/// `e` is the outcome of compiling the deny-list `sources`: no error exactly
/// when every pattern is valid, else the first invalid pattern.
pub open spec fn compile_error_matches(sources: Seq<String>, e: Option<ConfigError>) -> bool {
    match e {
        None => forall|k: int| 0 <= k < sources.len() ==> pattern_valid(#[trigger] sources[k]@),
        Some(ConfigError::InvalidPattern { index, pattern }) => {
            &&& index < sources.len()
            &&& pattern@ == sources[index as int]@
            &&& !pattern_valid(pattern@)
            &&& forall|k: int| 0 <= k < index ==> pattern_valid(#[trigger] sources[k]@)
        },
    }
}

/// The configured severity of the check `name`, if there is one: the first
/// entry with that name.
pub open spec fn level_lookup(levels: Seq<(String, Level)>, name: Seq<char>) -> Option<Level>
    decreases levels.len(),
{
    if levels.len() == 0 {
        None
    } else if levels[0].0@ == name {
        Some(levels[0].1)
    } else {
        level_lookup(levels.drop_first(), name)
    }
}

/// The severity of the check `name`: as configured, else `Error`.
pub open spec fn resolve_level(levels: Seq<(String, Level)>, name: Seq<char>) -> Level {
    match level_lookup(levels, name) {
        Some(l) => l,
        None => Level::Error,
    }
}

/// The configuration of a run.
pub struct Config {
    pub invalid_authors: InvalidAuthors,
    pub levels: Vec<(String, Level)>,
}

impl Default for Config {
    /// No severities configured and an empty deny-list.
    fn default() -> (r: Self)
        ensures
            r.levels@.len() == 0,
            r.invalid_authors.regular_expressions@.len() == 0,
    {
        Config {
            invalid_authors: InvalidAuthors { regular_expressions: Vec::new() },
            levels: Vec::new(),
        }
    }
}

proof fn lemma_absent_is_none(levels: Seq<(String, Level)>, name: Seq<char>)
    requires
        forall|i: int| 0 <= i < levels.len() ==> (#[trigger] levels[i]).0@ != name,
    ensures
        level_lookup(levels, name) is None,
    decreases levels.len(),
{
    if levels.len() > 0 {
        assert(levels[0].0@ != name);
        assert forall|i: int| 0 <= i < levels.drop_first().len() implies (
        #[trigger] levels.drop_first()[i]).0@ != name by {
            assert(levels.drop_first()[i] == levels[i + 1]);
        }
        lemma_absent_is_none(levels.drop_first(), name);
    }
}

/// A check that no entry names resolves to `Error`.
pub proof fn lemma_unconfigured_is_error(levels: Seq<(String, Level)>, name: Seq<char>)
    requires
        forall|i: int| 0 <= i < levels.len() ==> (#[trigger] levels[i]).0@ != name,
    ensures
        resolve_level(levels, name) == Level::Error,
{
    lemma_absent_is_none(levels, name);
}

/// No two entries of `levels` name the same check.
pub open spec fn names_unique(levels: Seq<(String, Level)>) -> bool {
    forall|i: int, j: int|
        0 <= i < j < levels.len() ==> (#[trigger] levels[i]).0@ != (#[trigger] levels[j]).0@
}

proof fn lemma_first_entry(levels: Seq<(String, Level)>, name: Seq<char>, i: int)
    requires
        0 <= i < levels.len(),
        levels[i].0@ == name,
        forall|k: int| 0 <= k < i ==> (#[trigger] levels[k]).0@ != name,
    ensures
        level_lookup(levels, name) == Some(levels[i].1),
    decreases i,
{
    if i > 0 {
        assert(levels[0].0@ != name);
        assert forall|k: int| 0 <= k < i - 1 implies (#[trigger] levels.drop_first()[k]).0@
            != name by {
            assert(levels.drop_first()[k] == levels[k + 1]);
        }
        lemma_first_entry(levels.drop_first(), name, i - 1);
    }
}

/// Where the names are unique, a configured check resolves to exactly its
/// configured severity.
pub proof fn lemma_configured_level(levels: Seq<(String, Level)>, name: Seq<char>, i: int)
    requires
        names_unique(levels),
        0 <= i < levels.len(),
        levels[i].0@ == name,
    ensures
        resolve_level(levels, name) == levels[i].1,
{
    assert forall|k: int| 0 <= k < i implies (#[trigger] levels[k]).0@ != name by {
        assert(levels[k].0@ != levels[i].0@);
    }
    lemma_first_entry(levels, name, i);
}

proof fn lemma_lookup_push(levels: Seq<(String, Level)>, x: (String, Level), name: Seq<char>)
    ensures
        level_lookup(levels.push(x), name) == match level_lookup(levels, name) {
            Some(l) => Some(l),
            None => if x.0@ == name {
                Some(x.1)
            } else {
                None
            },
        },
    decreases levels.len(),
{
    if levels.len() == 0 {
        assert(levels.push(x).drop_first() =~= Seq::<(String, Level)>::empty());
        assert(levels.push(x)[0] == x);
        assert(level_lookup(levels.push(x).drop_first(), name) is None);
    } else {
        assert(levels.push(x)[0] == levels[0]);
        assert(levels.push(x).drop_first() =~= levels.drop_first().push(x));
        lemma_lookup_push(levels.drop_first(), x, name);
    }
}

proof fn lemma_lookup_update(
    levels: Seq<(String, Level)>,
    i: int,
    x: (String, Level),
    name: Seq<char>,
)
    requires
        0 <= i < levels.len(),
        x.0@ == levels[i].0@,
        x.0@ != name,
    ensures
        level_lookup(levels.update(i, x), name) == level_lookup(levels, name),
    decreases i,
{
    if i == 0 {
        assert(levels.update(i, x).drop_first() =~= levels.drop_first());
    } else {
        assert(levels.update(i, x)[0] == levels[0]);
        assert(levels.update(i, x).drop_first() =~= levels.drop_first().update(i - 1, x));
        lemma_lookup_update(levels.drop_first(), i - 1, x, name);
    }
}

impl Config {
    /// Sets the severity of the check `name`, replacing the one configured.
    pub fn set_level(&mut self, name: String, level: Level)
        ensures
            final(self).invalid_authors == old(self).invalid_authors,
            resolve_level(final(self).levels@, name@) == level,
            forall|other: Seq<char>|
                other != name@ ==> resolve_level(final(self).levels@, other) == resolve_level(
                    old(self).levels@,
                    other,
                ),
            names_unique(old(self).levels@) ==> names_unique(final(self).levels@),
    {
        let ghost before = self.levels@;
        let mut i: usize = 0;
        while i < self.levels.len()
            invariant
                i <= self.levels@.len(),
                self.levels@ == before,
                before == old(self).levels@,
                self.invalid_authors == old(self).invalid_authors,
                forall|k: int| 0 <= k < i ==> (#[trigger] before[k]).0@ != name@,
            decreases self.levels@.len() - i,
        {
            if self.levels[i].0 == name {
                let x = (name, level);
                let ghost n = x.0@;
                self.levels.set(i, x);
                proof {
                    let after = before.update(i as int, x);
                    assert(self.levels@ == after);
                    assert forall|k: int| 0 <= k < i implies (#[trigger] after[k]).0@ != n by {
                        assert(after[k] == before[k]);
                    }
                    lemma_first_entry(after, n, i as int);
                    assert forall|other: Seq<char>| other != n implies resolve_level(after, other)
                        == resolve_level(before, other) by {
                        lemma_lookup_update(before, i as int, x, other);
                    }
                    assert(n == before[i as int].0@);
                    assert forall|k: int| 0 <= k < after.len() implies (#[trigger] after[k]).0@
                        == before[k].0@ by {
                        if k != i {
                            assert(after[k] == before[k]);
                        }
                    }
                    if names_unique(before) {
                        assert forall|a: int, b: int|
                            0 <= a < b < after.len() implies (#[trigger] after[a]).0@ != (
                        #[trigger] after[b]).0@ by {
                            assert(after[a].0@ == before[a].0@);
                            assert(after[b].0@ == before[b].0@);
                        }
                    }
                }
                return;
            }
            i += 1;
        }
        let x = (name, level);
        let ghost n = x.0@;
        self.levels.push(x);
        proof {
            let after = before.push(x);
            assert(self.levels@ == after);
            lemma_absent_is_none(before, n);
            lemma_lookup_push(before, x, n);
            assert forall|other: Seq<char>| other != n implies resolve_level(after, other)
                == resolve_level(before, other) by {
                lemma_lookup_push(before, x, other);
            }
            if names_unique(before) {
                assert forall|a: int, b: int|
                    0 <= a < b < after.len() implies (#[trigger] after[a]).0@ != (
                #[trigger] after[b]).0@ by {
                    assert(after[a] == before[a]);
                    if b < before.len() {
                        assert(after[b] == before[b]);
                    } else {
                        assert(after[b].0@ == n);
                        assert(before[a].0@ != n);
                    }
                }
            }
        }
    }


    /// The severity of the check `name`; `Error` where none is configured.
    pub fn get_error_level(&self, name: &str) -> (r: Level)
        ensures
            r == resolve_level(self.levels@, name@),
    {
        let key = String::from_str(name);
        let mut i: usize = 0;
        assert(self.levels@.subrange(0, self.levels@.len() as int) =~= self.levels@);
        while i < self.levels.len()
            invariant
                i <= self.levels@.len(),
                key@ == name@,
                level_lookup(self.levels@.subrange(i as int, self.levels@.len() as int), name@)
                    == level_lookup(self.levels@, name@),
            decreases self.levels@.len() - i,
        {
            let ghost rest = self.levels@.subrange(i as int, self.levels@.len() as int);
            assert(rest[0] == self.levels@[i as int]);
            if self.levels[i].0 == key {
                return self.levels[i].1;
            }
            assert(rest.drop_first() =~= self.levels@.subrange(i + 1, self.levels@.len() as int));
            i += 1;
        }
        assert(level_lookup(self.levels@.subrange(i as int, self.levels@.len() as int), name@)
            is None);
        Level::Error
    }
}

} // verus!
