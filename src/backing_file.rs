//! Line termination of what the backing file reads: LF or CRLF.

use vstd::prelude::*;

verus! {

/// `s` ends with `c`.
pub open spec fn ends_with(s: Seq<char>, c: char) -> bool {
    s.len() > 0 && s.last() == c
}

/// A line as read, without its terminator: a trailing `\n`, and a `\r`
/// just before it, are dropped.
pub open spec fn trimmed_line(s: Seq<char>) -> Seq<char> {
    if ends_with(s, '\n') {
        let t = s.drop_last();
        if ends_with(t, '\r') {
            t.drop_last()
        } else {
            t
        }
    } else {
        s
    }
}

/// Relies on `str::strip_suffix` with a `char` pattern: the text before a
/// final `c`, or nothing if the text does not end with it.
#[verifier::external_body]
fn strip_char<'a>(s: &'a str, c: char) -> (r: Option<&'a str>)
    ensures
        r is None <==> !ends_with(s@, c),
        r matches Some(p) ==> p@ == s@.drop_last(),
{
    s.strip_suffix(c)
}

/// Strips the line terminator (LF or CRLF) from what a read returned.
/// Returns the line and whether it is partial, that is had no newline yet.
pub fn trim_line_end(line: &str) -> (r: (String, bool))
    ensures
        r.0@ == trimmed_line(line@),
        r.1 == !ends_with(line@, '\n'),
{
    match strip_char(line, '\n') {
        None => (line.to_owned(), true),
        Some(rest) => match strip_char(rest, '\r') {
            Some(text) => (text.to_owned(), false),
            None => (rest.to_owned(), false),
        },
    }
}

} // verus!
