//! The delimited text form of a result set: one `path:line:pattern:text`
//! line per record.

use vstd::prelude::*;
use crate::lines::chars_to_string;
use crate::search::{records_of_results, MatchRecord, SearchResult};

verus! {

/// Whether `c` has Unicode's White_Space property.
pub uninterp spec fn white_space(c: char) -> bool;

/// Relies on std's `char::is_whitespace`: the answer depends on the
/// character alone.
#[verifier::external_body]
fn is_white_space(c: char) -> (r: bool)
    ensures
        r == white_space(c),
{
    c.is_whitespace()
}

/// Relies on std's `str::chars`, collected: the characters in order.
#[verifier::external_body]
fn string_chars(s: &str) -> (r: Vec<char>)
    ensures
        r@ == s@,
{
    s.chars().collect()
}

/// `s` without its leading white space.
pub open spec fn trim_start(s: Seq<char>) -> Seq<char>
    decreases s.len(),
{
    if s.len() > 0 && white_space(s[0]) {
        trim_start(s.drop_first())
    } else {
        s
    }
}

/// `s` without its trailing white space.
pub open spec fn trim_end(s: Seq<char>) -> Seq<char>
    decreases s.len(),
{
    if s.len() > 0 && white_space(s.last()) {
        trim_end(s.drop_last())
    } else {
        s
    }
}

pub open spec fn trimmed(s: Seq<char>) -> Seq<char> {
    trim_end(trim_start(s))
}

pub open spec fn digit_char(d: nat) -> char {
    if d == 0 {
        '0'
    } else if d == 1 {
        '1'
    } else if d == 2 {
        '2'
    } else if d == 3 {
        '3'
    } else if d == 4 {
        '4'
    } else if d == 5 {
        '5'
    } else if d == 6 {
        '6'
    } else if d == 7 {
        '7'
    } else if d == 8 {
        '8'
    } else {
        '9'
    }
}

/// The decimal digits of `n`, without leading zeros.
pub open spec fn decimal(n: nat) -> Seq<char>
    decreases n,
{
    if n < 10 {
        seq![digit_char(n)]
    } else {
        decimal(n / 10).push(digit_char(n % 10))
    }
}

/// The report line of one record, terminator included.
pub open spec fn record_line(r: MatchRecord) -> Seq<char> {
    r.path + seq![':'] + decimal(r.line_number as nat) + seq![':'] + r.pattern + seq![':']
        + trimmed(r.line) + seq!['\n']
}

/// The report lines of `rs`, in order.
pub open spec fn report_text(rs: Seq<MatchRecord>) -> Seq<char>
    decreases rs.len(),
{
    if rs.len() == 0 {
        Seq::empty()
    } else {
        report_text(rs.drop_last()) + record_line(rs.last())
    }
}

fn digit(d: usize) -> (c: char)
    requires
        d < 10,
    ensures
        c == digit_char(d as nat),
{
    if d == 0 {
        '0'
    } else if d == 1 {
        '1'
    } else if d == 2 {
        '2'
    } else if d == 3 {
        '3'
    } else if d == 4 {
        '4'
    } else if d == 5 {
        '5'
    } else if d == 6 {
        '6'
    } else if d == 7 {
        '7'
    } else if d == 8 {
        '8'
    } else {
        '9'
    }
}

/// The decimal digits of `n`.
pub fn decimal_chars(n: usize) -> (r: Vec<char>)
    ensures
        r@ == decimal(n as nat),
    decreases n,
{
    if n < 10 {
        let r = vec![digit(n)];
        assert(r@ =~= seq![digit_char(n as nat)]);
        r
    } else {
        let mut r = decimal_chars(n / 10);
        r.push(digit(n % 10));
        r
    }
}

/// `text` without leading and trailing white space.
pub fn trim_chars(text: &Vec<char>) -> (r: Vec<char>)
    ensures
        r@ == trimmed(text@),
{
    let n = text.len();
    let mut start: usize = 0;
    assert(text@.skip(0) =~= text@);
    while start < n && is_white_space(text[start])
        invariant
            0 <= start <= n,
            n == text@.len(),
            trim_start(text@) == trim_start(text@.skip(start as int)),
        decreases n - start,
    {
        assert(text@.skip(start as int).drop_first() =~= text@.skip(start + 1));
        start = start + 1;
    }
    let ghost rest = text@.skip(start as int);
    assert(trim_start(rest) == rest) by {
        if rest.len() > 0 {
            assert(rest[0] == text@[start as int]);
        }
    }
    let mut end: usize = n;
    assert(text@.subrange(start as int, n as int) =~= rest);
    while end > start && is_white_space(text[end - 1])
        invariant
            start <= end <= n,
            n == text@.len(),
            trim_end(rest) == trim_end(text@.subrange(start as int, end as int)),
        decreases end,
    {
        assert(text@.subrange(start as int, end as int).drop_last() =~= text@.subrange(
            start as int,
            end - 1,
        ));
        end = end - 1;
    }
    let ghost kept = text@.subrange(start as int, end as int);
    assert(trim_end(kept) == kept) by {
        if kept.len() > 0 {
            assert(kept.last() == text@[end - 1]);
        }
    }
    let mut out: Vec<char> = Vec::new();
    let mut i: usize = start;
    while i < end
        invariant
            start <= i <= end <= n,
            n == text@.len(),
            out@ == text@.subrange(start as int, i as int),
        decreases end - i,
    {
        out.push(text[i]);
        assert(out@ =~= text@.subrange(start as int, i + 1));
        i = i + 1;
    }
    out
}

/// Appends the report line of `r` to `out`.
fn push_record_line(out: &mut Vec<char>, r: &SearchResult)
    ensures
        final(out)@ == old(out)@ + record_line(r@),
{
    let mut path = string_chars(r.path.as_str());
    let mut number = decimal_chars(r.line_number);
    let mut pattern = string_chars(r.pattern.as_str());
    let mut line = trim_chars(&string_chars(r.line.as_str()));
    out.append(&mut path);
    out.push(':');
    out.append(&mut number);
    out.push(':');
    out.append(&mut pattern);
    out.push(':');
    out.append(&mut line);
    out.push('\n');
    assert(final(out)@ =~= old(out)@ + record_line(r@));
}

/// The report of `results`: for each record in order, its path, line
/// number, pattern and white-space-trimmed line, separated by colons, each
/// record on a line of its own.
pub fn format_results(results: &[SearchResult]) -> (r: String)
    ensures
        r@ == report_text(records_of_results(results@)),
{
    let ghost recs = records_of_results(results@);
    let mut out: Vec<char> = Vec::new();
    let mut i: usize = 0;
    while i < results.len()
        invariant
            0 <= i <= results@.len(),
            recs == records_of_results(results@),
            out@ == report_text(recs.take(i as int)),
        decreases results@.len() - i,
    {
        assert(recs.take(i + 1).drop_last() =~= recs.take(i as int));
        push_record_line(&mut out, &results[i]);
        i = i + 1;
    }
    assert(recs.take(i as int) =~= recs);
    chars_to_string(out.as_slice())
}

} // verus!
