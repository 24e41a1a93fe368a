//! Splitting decoded text into logical lines.

use vstd::prelude::*;

verus! {

/// `l` without one trailing carriage return.
pub open spec fn strip_cr(l: Seq<char>) -> Seq<char> {
    if l.len() > 0 && l.last() == '\r' {
        l.drop_last()
    } else {
        l
    }
}

/// Reading `t` from the left: the lines that a line feed has closed (each
/// without its terminator, a carriage return before the line feed dropped as
/// well), and the text after the last line feed.
pub open spec fn scan_lines(t: Seq<char>) -> (Seq<Seq<char>>, Seq<char>)
    decreases t.len(),
{
    if t.len() == 0 {
        (Seq::empty(), Seq::empty())
    } else {
        let (closed, tail) = scan_lines(t.drop_last());
        if t.last() == '\n' {
            (closed.push(strip_cr(tail)), Seq::empty())
        } else {
            (closed, tail.push(t.last()))
        }
    }
}

/// The logical lines of `t`: "\n" and "\r\n" both end a line, and the empty
/// text after a final terminator is no line.
pub open spec fn lines_of(t: Seq<char>) -> Seq<Seq<char>> {
    let (closed, tail) = scan_lines(t);
    if tail.len() == 0 {
        closed
    } else {
        closed.push(tail)
    }
}

pub open spec fn views_of(v: Seq<Vec<char>>) -> Seq<Seq<char>> {
    v.map_values(|l: Vec<char>| l@)
}

/// Relies on std's `FromIterator<&char> for String`: the characters in order.
#[verifier::external_body]
pub(crate) fn chars_to_string(chars: &[char]) -> (r: String)
    ensures
        r@ == chars@,
{
    chars.iter().collect()
}

/// Splits `text` into its logical lines.
pub fn split_lines(text: &Vec<char>) -> (lines: Vec<Vec<char>>)
    ensures
        views_of(lines@) == lines_of(text@),
{
    let mut lines: Vec<Vec<char>> = Vec::new();
    let mut cur: Vec<char> = Vec::new();
    let mut i: usize = 0;
    while i < text.len()
        invariant
            0 <= i <= text.len(),
            (views_of(lines@), cur@) == scan_lines(text@.take(i as int)),
        decreases text.len() - i,
    {
        let c = text[i];
        assert(text@.take(i + 1).drop_last() =~= text@.take(i as int));
        assert(text@.take(i + 1).last() == c);
        if c == '\n' {
            if cur.len() > 0 && cur[cur.len() - 1] == '\r' {
                cur.pop();
            }
            let ghost before = lines@;
            lines.push(cur);
            assert(views_of(lines@) =~= views_of(before).push(lines@.last()@));
            cur = Vec::new();
        } else {
            cur.push(c);
        }
        i = i + 1;
    }
    assert(text@.take(i as int) =~= text@);
    if cur.len() > 0 {
        let ghost before = lines@;
        lines.push(cur);
        assert(views_of(lines@) =~= views_of(before).push(lines@.last()@));
    }
    lines
}

} // verus!
