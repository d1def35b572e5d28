//! Splitting text into lines.
use vstd::prelude::*;

verus! {

/// Position of the first `\n` in `s`, or its length where there is none.
pub open spec fn first_newline(s: Seq<char>) -> nat
    decreases s.len(),
{
    if s.len() == 0 {
        0
    } else if s[0] == '\n' {
        0
    } else {
        1 + first_newline(s.skip(1))
    }
}

/// `line` without one trailing carriage return.
pub open spec fn strip_cr(line: Seq<char>) -> Seq<char> {
    if line.len() > 0 && line.last() == '\r' {
        line.drop_last()
    } else {
        line
    }
}

/// The lines of `s`: they end at `\n` or `\r\n`, the ending is not part of
/// the line, and the last line needs no ending.
pub open spec fn text_lines(s: Seq<char>) -> Seq<Seq<char>>
    decreases s.len(),
{
    if s.len() == 0 {
        seq![]
    } else if first_newline(s) >= s.len() {
        seq![s]
    } else {
        seq![strip_cr(s.take(first_newline(s) as int))] + text_lines(
            s.skip((first_newline(s) + 1) as int),
        )
    }
}

/// Relies on `str::lines`: lines end at `\n` or `\r\n`, the final ending is
/// optional, and endings are not part of the lines.
#[verifier::external_body]
pub(crate) fn split_lines(text: &str) -> (r: Vec<String>)
    ensures
        r@.len() == text_lines(text@).len(),
        forall|i: int| 0 <= i < r@.len() ==> #[trigger] r@[i]@ == text_lines(text@)[i],
{
    text.lines().map(String::from).collect()
}

} // verus!
