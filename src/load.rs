//! Where the run's patterns come from: one literal pattern, or the lines of a
//! pattern file.

use vstd::prelude::*;
use crate::decode::{decode_text, file_text, MAX_DECODE_LEN};
use crate::lines::{chars_to_string, lines_of, split_lines, views_of};

verus! {

/// The source of a run's patterns.
pub enum PatternSource {
    /// A single pattern.
    Literal(String),
    /// The raw bytes of a file holding one pattern per line.
    FileContents(Vec<u8>),
}

pub open spec fn string_views(v: Seq<String>) -> Seq<Seq<char>> {
    v.map_values(|s: String| s@)
}

/// The lines of `lines` that are not empty, in order.
pub open spec fn non_empty(lines: Seq<Seq<char>>) -> Seq<Seq<char>>
    decreases lines.len(),
{
    if lines.len() == 0 {
        Seq::empty()
    } else if lines.last().len() == 0 {
        non_empty(lines.drop_last())
    } else {
        non_empty(lines.drop_last()).push(lines.last())
    }
}

/// The patterns a source provides.
pub open spec fn patterns_of(source: PatternSource) -> Seq<Seq<char>> {
    match source {
        PatternSource::Literal(p) => seq![p@],
        PatternSource::FileContents(b) => non_empty(lines_of(file_text(b@))),
    }
}

pub open spec fn source_fits(source: PatternSource) -> bool {
    match source {
        PatternSource::Literal(_) => true,
        PatternSource::FileContents(b) => b@.len() <= MAX_DECODE_LEN,
    }
}

/// Decodes a file's bytes and returns its logical lines.
pub fn read_lines(buffer: &[u8]) -> (r: Vec<String>)
    requires
        buffer@.len() <= MAX_DECODE_LEN,
    ensures
        string_views(r@) == lines_of(file_text(buffer@)),
{
    let text = decode_text(buffer);
    let lines = split_lines(&text);
    let ghost all = views_of(lines@);
    let mut out: Vec<String> = Vec::new();
    let mut i: usize = 0;
    while i < lines.len()
        invariant
            0 <= i <= lines@.len(),
            all == views_of(lines@),
            string_views(out@) == all.take(i as int),
        decreases lines@.len() - i,
    {
        let s = chars_to_string(lines[i].as_slice());
        assert(s@ == all[i as int]);
        let ghost before = out@;
        out.push(s);
        assert(string_views(out@) =~= string_views(before).push(s@));
        assert(string_views(out@) =~= all.take(i + 1));
        i = i + 1;
    }
    assert(all.take(i as int) =~= all);
    out
}

/// The patterns of a run: the literal pattern, or each non-empty line of
/// the pattern file.
pub fn load_patterns(source: &PatternSource) -> (r: Vec<String>)
    requires
        source_fits(*source),
    ensures
        string_views(r@) == patterns_of(*source),
{
    match source {
        PatternSource::Literal(p) => {
            let r = vec![p.clone()];
            assert(string_views(r@) =~= seq![p@]);
            r
        },
        PatternSource::FileContents(bytes) => {
            let lines = read_lines(bytes.as_slice());
            let ghost all = string_views(lines@);
            let mut out: Vec<String> = Vec::new();
            let mut i: usize = 0;
            while i < lines.len()
                invariant
                    0 <= i <= lines@.len(),
                    all == string_views(lines@),
                    string_views(out@) == non_empty(all.take(i as int)),
                decreases lines@.len() - i,
            {
                assert(all.take(i + 1).drop_last() =~= all.take(i as int));
                assert(all.take(i + 1).last() == lines@[i as int]@);
                if !lines[i].as_str().is_empty() {
                    let ghost before = out@;
                    out.push(lines[i].clone());
                    assert(string_views(out@) =~= string_views(before).push(lines@[i as int]@));
                }
                i = i + 1;
            }
            assert(all.take(i as int) =~= all);
            out
        },
    }
}

} // verus!
