//! Detection of phase tokens in the output of the profiled program.
//!
//! Each line the program writes is echoed without its line ending; a line
//! in which the phase pattern matches ends the running phase and starts the
//! next one, named by the text that matched.

use vstd::prelude::*;

use crate::text::{chars_of, string_of_range};

verus! {

#[verifier::external_type_specification]
#[verifier::external_body]
pub struct ExRegex(regex::Regex);

#[verifier::external_type_specification]
#[verifier::external_body]
pub struct ExRegexError(regex::Error);

/// Whether the `regex` crate accepts a pattern (`regex::Regex::new`
/// succeeds on it).
pub uninterp spec fn regex_accepts(pattern: Seq<char>) -> bool;

/// The text of the leftmost-first match of a pattern in a haystack
/// (`regex::Regex::find`, then `Match::as_str`), if any.
pub uninterp spec fn regex_first_match(pattern: Seq<char>, haystack: Seq<char>) -> Option<
    Seq<char>,
>;

/// Whether `s` occurs in `t`.
pub open spec fn occurs_in(s: Seq<char>, t: Seq<char>) -> bool {
    exists|i: int| 0 <= i && i + s.len() <= t.len() && #[trigger] t.subrange(i, i + s.len()) == s
}

/// Compiles a pattern with `regex::Regex::new`. The contract claims that
/// the crate accepts or refuses a pattern the same way every time.
#[verifier::external_body]
fn compile_regex(pattern: &str) -> (r: Result<regex::Regex, regex::Error>)
    ensures
        r is Ok <==> regex_accepts(pattern@),
{
    regex::Regex::new(pattern)
}

/// The message of a `regex::Error` (its `Display` text). Nothing is
/// claimed of the text.
#[verifier::external_body]
fn regex_error_message(e: &regex::Error) -> String {
    e.to_string()
}

/// A compiled phase pattern, with the text it was compiled from.
pub struct PhasePattern {
    pattern: String,
    regex: regex::Regex,
}

/// Searches a line with `regex::Regex::find` and returns the matched text
/// (`Match::as_str`). The contract claims that the result is the
/// leftmost-first match of the pattern the regex was compiled from, which
/// depends on that pattern and on the line alone, and that a match is a
/// part of the line, as the crate's documentation says.
#[verifier::external_body]
fn find_match(p: &PhasePattern, line: &str) -> (r: Option<String>)
    ensures
        match r {
            Some(s) => regex_first_match(p.pattern@, line@) == Some(s@),
            None => regex_first_match(p.pattern@, line@) is None,
        },
        r matches Some(s) ==> occurs_in(s@, line@),
{
    p.regex.find(line).map(|m| m.as_str().to_owned())
}

impl PhasePattern {
    /// The text the pattern was compiled from.
    pub closed spec fn text(&self) -> Seq<char> {
        self.pattern@
    }

    /// Compiles a phase pattern; a pattern the `regex` crate refuses gives
    /// the crate's message.
    pub fn new(pattern: &str) -> (r: Result<Self, String>)
        ensures
            r is Ok <==> regex_accepts(pattern@),
            r matches Ok(p) ==> p.text() == pattern@,
    {
        match compile_regex(pattern) {
            Ok(regex) => Ok(PhasePattern { pattern: pattern.to_owned(), regex }),
            Err(e) => Err(regex_error_message(&e)),
        }
    }

    /// The token in a line, if the pattern matches it:
    /// the text of the first match.
    pub fn token_in_line(&self, line: &str) -> (r: Option<String>)
        ensures
            match r {
                Some(s) => regex_first_match(self.text(), line@) == Some(s@),
                None => regex_first_match(self.text(), line@) is None,
            },
            r matches Some(s) ==> occurs_in(s@, line@),
    {
        find_match(self, line)
    }
}

/// A line without its line ending: a final `\n`, then a `\r` before it.
pub open spec fn strip_line_ending(s: Seq<char>) -> Seq<char> {
    if s.len() > 0 && s.last() == '\n' {
        let t = s.drop_last();
        if t.len() > 0 && t.last() == '\r' {
            t.drop_last()
        } else {
            t
        }
    } else {
        s
    }
}

/// The line without its line ending.
pub fn strip_newline(line: &str) -> (r: String)
    ensures
        r@ == strip_line_ending(line@),
{
    let v = chars_of(line);
    let mut end = v.len();
    if end > 0 && v[end - 1] == '\n' {
        end = end - 1;
        if end > 0 && v[end - 1] == '\r' {
            end = end - 1;
        }
    }
    let r = string_of_range(&v, 0, end);
    proof {
        let s = line@;
        if s.len() > 0 && s.last() == '\n' {
            let t = s.drop_last();
            if t.len() > 0 && t.last() == '\r' {
                assert(v@.subrange(0, end as int) =~= t.drop_last());
            } else {
                assert(v@.subrange(0, end as int) =~= t);
            }
        } else {
            assert(v@.subrange(0, end as int) =~= s);
        }
    }
    r
}

/// What one line of output gives.
#[derive(Debug)]
pub enum LineEvent {
    /// The line was not valid text: nothing to echo.
    Skip,
    /// A line to echo, with no token.
    Echo(String),
    /// A line to echo, in which the token was found at the line number.
    Token { line: String, token: String, line_number: usize },
}

/// Reads the output of the profiled program line by line, counting lines
/// from zero.
pub struct LineScanner {
    pub line_number: usize,
}

impl LineScanner {
    /// A scanner at the first line.
    pub fn new() -> (s: Self)
        ensures
            s.line_number == 0,
    {
        LineScanner { line_number: 0 }
    }

    /// One line of output, `None` when it was not
    /// valid UTF-8: such a line is skipped; any other is echoed without its
    /// line ending, and reports the pattern's first match in it as a token.
    /// Every line counts.
    pub fn scan(&mut self, pattern: &PhasePattern, line: Option<&str>) -> (r: LineEvent)
        requires
            old(self).line_number < usize::MAX,
        ensures
            final(self).line_number == old(self).line_number + 1,
            match line {
                None => r is Skip,
                Some(raw) => match regex_first_match(pattern.text(), strip_line_ending(raw@)) {
                    None => r matches LineEvent::Echo(l) && l@ == strip_line_ending(raw@),
                    Some(t) => r matches LineEvent::Token { line: l, token, line_number } && l@
                        == strip_line_ending(raw@) && token@ == t && line_number
                        == old(self).line_number,
                },
            },
    {
        let n = self.line_number;
        self.line_number = n + 1;
        match line {
            None => LineEvent::Skip,
            Some(raw) => {
                let l = strip_newline(raw);
                match pattern.token_in_line(l.as_str()) {
                    None => LineEvent::Echo(l),
                    Some(token) => LineEvent::Token { line: l, token, line_number: n },
                }
            },
        }
    }
}

} // verus!
