//! Compiling pattern texts into matchers, sharing one matcher per distinct
//! `(text, case_insensitive)` pair.

use vstd::prelude::*;
use regex::{Regex, RegexBuilder};
use std::sync::Arc;

verus! {

#[verifier::external_type_specification]
#[verifier::external_body]
pub struct ExRegex(Regex);

#[verifier::external_type_specification]
#[verifier::external_body]
pub struct ExRegexError(regex::Error);

/// Whether the regular expression `pattern` compiles, case-insensitively or not.
pub uninterp spec fn pattern_compiles(pattern: Seq<char>, ignore_case: bool) -> bool;

/// Whether the regular expression `pattern`, compiled with the given case
/// sensitivity, matches somewhere in `text`.
pub uninterp spec fn pattern_matches(pattern: Seq<char>, ignore_case: bool, text: Seq<char>) -> bool;

/// A compiled pattern. Its regex is always the one built from `pattern` with
/// `ignore_case`: only `compile` in this module makes a matcher, and it is
/// never changed afterwards.
#[derive(Debug)]
pub struct Matcher {
    regex: Regex,
    pattern: String,
    ignore_case: bool,
}

impl View for Matcher {
    /// The pattern text and the case-insensitivity flag it was compiled with.
    type V = (Seq<char>, bool);

    closed spec fn view(&self) -> (Seq<char>, bool) {
        (self.pattern@, self.ignore_case)
    }
}

/// Relies on regex's `RegexBuilder::new(..).case_insensitive(..).build()`:
/// whether it succeeds depends on the pattern text and the flag alone.
#[verifier::external_body]
fn build_regex(pattern: &str, ignore_case: bool) -> (r: Result<Regex, regex::Error>)
    ensures
        r is Ok <==> pattern_compiles(pattern@, ignore_case),
{
    RegexBuilder::new(pattern).case_insensitive(ignore_case).build()
}

/// Relies on regex's `Display` for `regex::Error`, for the error's message.
#[verifier::external_body]
fn error_message(e: &regex::Error) -> String {
    e.to_string()
}

/// Relies on std's `Arc::clone`: a second handle on the same value.
#[verifier::external_body]
fn share(m: &Arc<Matcher>) -> (r: Arc<Matcher>)
    ensures
        r == *m,
{
    Arc::clone(m)
}

impl Matcher {
    /// Compiles `pattern` with the given case sensitivity.
    pub fn compile(pattern: &String, ignore_case: bool) -> (r: Result<Matcher, regex::Error>)
        ensures
            r is Ok <==> pattern_compiles(pattern@, ignore_case),
            r matches Ok(m) ==> m@ == (pattern@, ignore_case),
    {
        match build_regex(pattern.as_str(), ignore_case) {
            Ok(regex) => Ok(Matcher { regex, pattern: pattern.clone(), ignore_case }),
            Err(e) => Err(e),
        }
    }

    /// The pattern text this matcher was compiled from.
    pub fn pattern(&self) -> (r: &String)
        ensures
            r@ == self@.0,
    {
        &self.pattern
    }

    /// Whether the matcher was compiled case-insensitively.
    pub fn ignore_case(&self) -> (r: bool)
        ensures
            r == self@.1,
    {
        self.ignore_case
    }

    /// Relies on regex's `Regex::is_match`, on the regex built from this
    /// matcher's pattern and flag.
    #[verifier::external_body]
    pub fn is_match(&self, text: &str) -> (r: bool)
        ensures
            r == pattern_matches(self@.0, self@.1, text@),
    {
        self.regex.is_match(text)
    }
}

/// A pattern that failed to compile: its position in the input, its text,
/// and the compiler's message.
#[derive(Debug)]
pub struct PatternError {
    pub index: usize,
    pub pattern: String,
    pub message: String,
}

/// The keys of a sequence of matchers.
pub open spec fn keys_of(ms: Seq<Arc<Matcher>>) -> Seq<(Seq<char>, bool)> {
    ms.map_values(|m: Arc<Matcher>| m@)
}

/// Matchers compiled so far, at most one per `(text, case_insensitive)` key.
pub struct MatcherCache {
    entries: Vec<Arc<Matcher>>,
}

impl MatcherCache {
    pub closed spec fn entries(self) -> Seq<Arc<Matcher>> {
        self.entries@
    }

    /// Keys are distinct, and each was compiled successfully.
    pub open spec fn wf(self) -> bool {
        &&& forall|i: int, j: int|
            0 <= i < j < self.entries().len() ==> #[trigger] self.entries()[i]@ != #[trigger] self.entries()[j]@
        &&& forall|i: int|
            0 <= i < self.entries().len() ==> pattern_compiles(
                #[trigger] self.entries()[i]@.0,
                self.entries()[i]@.1,
            )
    }

    pub fn new() -> (r: MatcherCache)
        ensures
            r.wf(),
            r.entries().len() == 0,
    {
        MatcherCache { entries: Vec::new() }
    }

    /// The cached matcher for `(pattern, ignore_case)`; on a miss the
    /// pattern is compiled and, on success, cached.
    pub fn get_or_compile(&mut self, pattern: &String, ignore_case: bool) -> (r: Result<
        Arc<Matcher>,
        regex::Error,
    >)
        requires
            old(self).wf(),
        ensures
            final(self).wf(),
            r is Ok <==> pattern_compiles(pattern@, ignore_case),
            r matches Ok(m) ==> m@ == (pattern@, ignore_case),
            r matches Ok(m) ==> final(self).entries().contains(m),
            r matches Ok(m) ==> forall|i: int|
                0 <= i < old(self).entries().len() && (#[trigger] old(self).entries()[i])@ == (
                pattern@,
                ignore_case,
            ) ==> m == old(self).entries()[i],
            old(self).entries().is_prefix_of(final(self).entries()),
    {
        let mut i: usize = 0;
        while i < self.entries.len()
            invariant
                self.wf(),
                0 <= i <= self.entries@.len(),
                forall|k: int| 0 <= k < i ==> (#[trigger] self.entries@[k])@ != (pattern@, ignore_case),
            decreases self.entries@.len() - i,
        {
            let e = &self.entries[i];
            if e.ignore_case == ignore_case && e.pattern == *pattern {
                let m = share(e);
                assert(self.entries@.take(self.entries@.len() as int) =~= self.entries@);
                assert(self.entries()[i as int] == m);
                assert(self.entries()[i as int]@ == (pattern@, ignore_case));
                assert(pattern_compiles(self.entries()[i as int]@.0, self.entries()[i as int]@.1));
                return Ok(m);
            }
            i = i + 1;
        }
        match Matcher::compile(pattern, ignore_case) {
            Ok(m) => {
                let m = Arc::new(m);
                self.entries.push(share(&m));
                assert(self.entries@.last() == m);
                assert(old(self).entries@.is_prefix_of(self.entries@)) by {
                    assert(self.entries@.take(old(self).entries@.len() as int) =~= old(self).entries@);
                }
                Ok(m)
            },
            Err(e) => {
                assert(self.entries@.take(self.entries@.len() as int) =~= self.entries@);
                Err(e)
            },
        }
    }
}

/// Compiles every pattern with one case sensitivity, in order. Identical
/// texts get one shared matcher. The first pattern that fails to compile
/// fails the whole call.
pub fn compile_regex_with_cache(patterns: &[String], ignore_case: bool) -> (r: Result<
    Vec<Arc<Matcher>>,
    PatternError,
>)
    ensures
        r is Ok <==> forall|i: int|
            0 <= i < patterns@.len() ==> pattern_compiles(#[trigger] patterns@[i]@, ignore_case),
        r matches Ok(ms) ==> ms@.len() == patterns@.len(),
        r matches Ok(ms) ==> forall|i: int|
            0 <= i < patterns@.len() ==> (#[trigger] ms@[i])@ == (patterns@[i]@, ignore_case),
        r matches Ok(ms) ==> forall|i: int, j: int|
            0 <= i < patterns@.len() && 0 <= j < patterns@.len() && patterns@[i]@ == patterns@[j]@
                ==> #[trigger] ms@[i] == #[trigger] ms@[j],
        r matches Err(e) ==> {
            &&& e.index < patterns@.len()
            &&& e.pattern@ == patterns@[e.index as int]@
            &&& !pattern_compiles(patterns@[e.index as int]@, ignore_case)
            &&& forall|j: int| 0 <= j < e.index ==> pattern_compiles(#[trigger] patterns@[j]@, ignore_case)
        },
{
    let mut cache = MatcherCache::new();
    let mut out: Vec<Arc<Matcher>> = Vec::new();
    let mut i: usize = 0;
    while i < patterns.len()
        invariant
            cache.wf(),
            0 <= i <= patterns@.len(),
            out@.len() == i,
            forall|k: int| 0 <= k < i ==> (#[trigger] out@[k])@ == (patterns@[k]@, ignore_case),
            forall|k: int| 0 <= k < i ==> pattern_compiles(#[trigger] patterns@[k]@, ignore_case),
            forall|k: int| 0 <= k < i ==> cache.entries().contains(#[trigger] out@[k]),
            forall|k: int, l: int|
                0 <= k < i && 0 <= l < i && patterns@[k]@ == patterns@[l]@ ==> #[trigger] out@[k]
                    == #[trigger] out@[l],
        decreases patterns@.len() - i,
    {
        let ghost before = cache;
        match cache.get_or_compile(&patterns[i], ignore_case) {
            Ok(m) => {
                assert forall|k: int| 0 <= k < i implies cache.entries().contains(#[trigger] out@[k]) by {
                    let j = choose|j: int| 0 <= j < before.entries().len() && before.entries()[j] == out@[k];
                    assert(cache.entries()[j] == out@[k]);
                }
                assert forall|k: int| 0 <= k < i && patterns@[k]@ == patterns@[i as int]@ implies out@[k] == m by {
                    let j = choose|j: int| 0 <= j < before.entries().len() && before.entries()[j] == out@[k];
                    assert(before.entries()[j]@ == (patterns@[i as int]@, ignore_case));
                }
                out.push(m);
            },
            Err(e) => {
                return Err(PatternError { index: i, pattern: patterns[i].clone(), message: error_message(&e) });
            },
        }
        i = i + 1;
    }
    Ok(out)
}

} // verus!
