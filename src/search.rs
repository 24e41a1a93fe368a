//! Matching the lines of one file against the run's matchers.

use vstd::prelude::*;
use std::sync::Arc;
use crate::decode::{decode_text, file_text, MAX_DECODE_LEN};
use crate::lines::{chars_to_string, lines_of, split_lines, views_of};
use crate::pattern::{keys_of, pattern_matches, Matcher};

verus! {

/// One matching line.
#[derive(Debug)]
pub struct SearchResult {
    pub path: String,
    /// 1-based.
    pub line_number: usize,
    /// The line without its terminator.
    pub line: String,
    /// The text of the first pattern that matched the line.
    pub pattern: String,
}

/// The abstract value of a `SearchResult`.
pub ghost struct MatchRecord {
    pub path: Seq<char>,
    pub line_number: int,
    pub line: Seq<char>,
    pub pattern: Seq<char>,
}

impl View for SearchResult {
    type V = MatchRecord;

    open spec fn view(&self) -> MatchRecord {
        MatchRecord {
            path: self.path@,
            line_number: self.line_number as int,
            line: self.line@,
            pattern: self.pattern@,
        }
    }
}

pub open spec fn records_of_results(v: Seq<SearchResult>) -> Seq<MatchRecord> {
    v.map_values(|r: SearchResult| r@)
}

/// The text of the first of `keys`, in order, that matches `line`.
pub open spec fn first_match(keys: Seq<(Seq<char>, bool)>, line: Seq<char>) -> Option<Seq<char>>
    decreases keys.len(),
{
    if keys.len() == 0 {
        None
    } else if pattern_matches(keys[0].0, keys[0].1, line) {
        Some(keys[0].0)
    } else {
        first_match(keys.drop_first(), line)
    }
}

/// One record for each of `lines` that some key matches, in line order, with
/// its 1-based number, its text and the first key that matches it.
pub open spec fn line_records(
    path: Seq<char>,
    lines: Seq<Seq<char>>,
    keys: Seq<(Seq<char>, bool)>,
) -> Seq<MatchRecord>
    decreases lines.len(),
{
    if lines.len() == 0 {
        Seq::empty()
    } else {
        let earlier = line_records(path, lines.drop_last(), keys);
        match first_match(keys, lines.last()) {
            Some(p) => earlier.push(
                MatchRecord { path, line_number: lines.len() as int, line: lines.last(), pattern: p },
            ),
            None => earlier,
        }
    }
}

/// What scanning the file `path` with content `bytes` records.
pub open spec fn file_records(
    path: Seq<char>,
    bytes: Seq<u8>,
    keys: Seq<(Seq<char>, bool)>,
) -> Seq<MatchRecord> {
    line_records(path, lines_of(file_text(bytes)), keys)
}

/// The recorded pattern is the first one, in the given order, that matches
/// the line; and a line is recorded exactly when some pattern matches it.
pub proof fn lemma_first_match_wins(keys: Seq<(Seq<char>, bool)>, line: Seq<char>)
    ensures
        first_match(keys, line) is None <==> forall|i: int|
            0 <= i < keys.len() ==> !pattern_matches(#[trigger] keys[i].0, keys[i].1, line),
        first_match(keys, line) is Some ==> exists|i: int|
            0 <= i < keys.len() && first_match(keys, line) == Some(#[trigger] keys[i].0)
                && pattern_matches(keys[i].0, keys[i].1, line) && forall|k: int|
                0 <= k < i ==> !pattern_matches(#[trigger] keys[k].0, keys[k].1, line),
    decreases keys.len(),
{
    if keys.len() > 0 {
        let rest = keys.drop_first();
        lemma_first_match_wins(rest, line);
        if pattern_matches(keys[0].0, keys[0].1, line) {
            assert(first_match(keys, line) == Some(keys[0].0));
        } else {
            assert forall|i: int| 1 <= i < keys.len() implies keys[i] == rest[i - 1] by {}
            if first_match(rest, line) is Some {
                let i = choose|i: int|
                    0 <= i < rest.len() && first_match(rest, line) == Some(#[trigger] rest[i].0)
                        && pattern_matches(rest[i].0, rest[i].1, line) && forall|k: int|
                        0 <= k < i ==> !pattern_matches(#[trigger] rest[k].0, rest[k].1, line);
                assert(keys[i + 1] == rest[i]);
                assert forall|k: int| 0 <= k < i + 1 implies !pattern_matches(
                    #[trigger] keys[k].0,
                    keys[k].1,
                    line,
                ) by {
                    if k > 0 {
                        assert(keys[k] == rest[k - 1]);
                    }
                }
            } else {
                assert forall|i: int| 0 <= i < keys.len() implies !pattern_matches(
                    #[trigger] keys[i].0,
                    keys[i].1,
                    line,
                ) by {
                    if i > 0 {
                        assert(keys[i] == rest[i - 1]);
                    }
                }
            }
        }
    }
}

/// Of `n` lines, the records are exactly one per matching line, in line
/// order: each names the file, its 1-based line number, the line's text
/// without its terminator, and the first pattern that matches it.
pub proof fn lemma_one_record_per_matching_line(
    path: Seq<char>,
    lines: Seq<Seq<char>>,
    keys: Seq<(Seq<char>, bool)>,
)
    ensures
        forall|k: int|
            0 <= k < line_records(path, lines, keys).len() ==> {
                let r = #[trigger] line_records(path, lines, keys)[k];
                &&& r.path == path
                &&& 1 <= r.line_number <= lines.len()
                &&& r.line == lines[r.line_number - 1]
                &&& first_match(keys, r.line) == Some(r.pattern)
            },
        forall|k: int, l: int|
            0 <= k < l < line_records(path, lines, keys).len() ==> (#[trigger] line_records(
                path,
                lines,
                keys,
            )[k]).line_number < (#[trigger] line_records(path, lines, keys)[l]).line_number,
        forall|n: int|
            0 <= n < lines.len() && (#[trigger] first_match(keys, lines[n])) is Some ==> exists|k: int|
                0 <= k < line_records(path, lines, keys).len() && (#[trigger] line_records(
                    path,
                    lines,
                    keys,
                )[k]).line_number == n + 1,
    decreases lines.len(),
{
    if lines.len() > 0 {
        let init = lines.drop_last();
        lemma_one_record_per_matching_line(path, init, keys);
        let earlier = line_records(path, init, keys);
        let all = line_records(path, lines, keys);
        assert forall|k: int| 0 <= k < earlier.len() implies (#[trigger] earlier[k]).line == lines[earlier[k].line_number - 1] by {
            assert(init[earlier[k].line_number - 1] == lines[earlier[k].line_number - 1]);
        }
        assert forall|n: int|
            0 <= n < lines.len() && (#[trigger] first_match(keys, lines[n])) is Some implies exists|k: int|
                0 <= k < all.len() && (#[trigger] all[k]).line_number == n + 1 by {
            if n < init.len() {
                assert(init[n] == lines[n]);
                let k = choose|k: int| 0 <= k < earlier.len() && (#[trigger] earlier[k]).line_number == n + 1;
                assert(all[k] == earlier[k]);
            } else {
                assert(all[all.len() - 1].line_number == n + 1);
            }
        }
    }
}

/// The index of the first matcher, in order, that matches `text`.
pub fn first_matching(matchers: &[Arc<Matcher>], text: &str) -> (r: Option<usize>)
    ensures
        match r {
            Some(j) => j < matchers@.len() && first_match(keys_of(matchers@), text@) == Some(
                matchers@[j as int]@.0,
            ),
            None => first_match(keys_of(matchers@), text@) is None,
        },
{
    let ghost keys = keys_of(matchers@);
    let mut j: usize = 0;
    assert(keys.skip(0) =~= keys);
    while j < matchers.len()
        invariant
            0 <= j <= matchers@.len(),
            keys == keys_of(matchers@),
            first_match(keys, text@) == first_match(keys.skip(j as int), text@),
        decreases matchers@.len() - j,
    {
        assert(keys.skip(j as int)[0] == matchers@[j as int]@);
        if matchers[j].is_match(text) {
            return Some(j);
        }
        assert(keys.skip(j as int).drop_first() =~= keys.skip(j + 1));
        j = j + 1;
    }
    assert(keys.skip(j as int).len() == 0);
    None
}

/// Matches each line of `text` against `matchers`, first match wins.
pub fn search_text(path: &String, text: &Vec<char>, matchers: &[Arc<Matcher>]) -> (r: Vec<
    SearchResult,
>)
    ensures
        records_of_results(r@) == line_records(path@, lines_of(text@), keys_of(matchers@)),
{
    let lines = split_lines(text);
    let ghost all = views_of(lines@);
    let ghost keys = keys_of(matchers@);
    let mut out: Vec<SearchResult> = Vec::new();
    let mut i: usize = 0;
    while i < lines.len()
        invariant
            0 <= i <= lines@.len(),
            all == views_of(lines@),
            all == lines_of(text@),
            keys == keys_of(matchers@),
            records_of_results(out@) == line_records(path@, all.take(i as int), keys),
        decreases lines@.len() - i,
    {
        let line = chars_to_string(lines[i].as_slice());
        assert(all.take(i + 1).drop_last() =~= all.take(i as int));
        assert(all.take(i + 1).last() == line@);
        match first_matching(matchers, line.as_str()) {
            Some(j) => {
                let ghost before = out@;
                out.push(
                    SearchResult {
                        path: path.clone(),
                        line_number: i + 1,
                        line,
                        pattern: matchers[j].pattern().clone(),
                    },
                );
                assert(records_of_results(out@) =~= records_of_results(before).push(out@.last()@));
            },
            None => {},
        }
        i = i + 1;
    }
    assert(all.take(i as int) =~= all);
    out
}

/// Decodes one file's bytes and matches its lines against `matchers`.
pub fn search_in_buffer(path: &String, buffer: &[u8], matchers: &[Arc<Matcher>]) -> (r: Vec<
    SearchResult,
>)
    requires
        buffer@.len() <= MAX_DECODE_LEN,
    ensures
        records_of_results(r@) == file_records(path@, buffer@, keys_of(matchers@)),
{
    let text = decode_text(buffer);
    search_text(path, &text, matchers)
}

} // verus!
