//! The decisions of the injector that reads phase tokens from the output
//! of the profiled program: which lines start a phase and how phases are
//! numbered.

use vstd::prelude::*;

use crate::profiling::detect::{PhasePattern, regex_first_match};
use crate::text::{chars_of, string_of_range};
use crate::types::{InitContext, PhaseStartInfo};

verus! {

/// A line without any `\n` or `\r` at its end (`trim_end_matches`).
pub open spec fn trim_line_endings(s: Seq<char>) -> Seq<char>
    decreases s.len(),
{
    if s.len() > 0 && (s.last() == '\n' || s.last() == '\r') {
        trim_line_endings(s.drop_last())
    } else {
        s
    }
}

/// The line without the `\n` and `\r` at its end.
pub fn trim_newlines(line: &str) -> (r: String)
    ensures
        r@ == trim_line_endings(line@),
{
    let v = chars_of(line);
    let mut end = v.len();
    proof {
        assert(v@.take(end as int) =~= v@);
    }
    while end > 0 && (v[end - 1] == '\n' || v[end - 1] == '\r')
        invariant
            end <= v@.len(),
            trim_line_endings(v@) == trim_line_endings(v@.take(end as int)),
        decreases end,
    {
        proof {
            assert(v@.take(end as int).drop_last() =~= v@.take(end - 1));
        }
        end = end - 1;
    }
    proof {
        assert(v@.subrange(0, end as int) =~= v@.take(end as int));
    }
    string_of_range(&v, 0, end)
}

/// An injector error.
#[derive(Debug)]
pub struct InjectorError {
    pub message: String,
}

impl InjectorError {
    /// An error with the given message.
    pub fn boxed(message: String) -> (e: Self)
        ensures
            e.message@ == message@,
    {
        InjectorError { message }
    }
}

/// A source of phases: it starts the profiled program, lets it run, and
/// tells when each phase starts, until the program ends.
pub trait Injector {
    /// What can go wrong.
    type Error;

    /// Starts the program, paused, and tells its pid.
    fn init(&mut self) -> Result<InitContext, Self::Error>;

    /// Lets the program run.
    fn resume(&mut self) -> (r: Result<(), Self::Error>)
        default_ensures
            r is Ok,
    {
        Ok(())
    }

    /// The start of the next phase; `None` once the program has ended.
    fn next(&mut self) -> Result<Option<PhaseStartInfo>, Self::Error>;

    /// Stops the program.
    fn abort(&mut self) -> (r: Result<(), Self::Error>)
        default_ensures
            r is Ok,
    {
        Ok(())
    }
}

/// The phase numbering of the injector that reads the program's output.
pub struct StdOutInjector {
    pub pattern: PhasePattern,
    pub cmd: Vec<String>,
    pub phase_index: usize,
}

impl StdOutInjector {
    /// An injector for the command, with the phase pattern; a pattern the
    /// `regex` crate refuses gives its message.
    pub fn new(cmd: Vec<String>, token_pattern: &str) -> (r: Result<Self, String>)
        ensures
            r is Ok <==> crate::profiling::detect::regex_accepts(token_pattern@),
            r matches Ok(s) ==> s.phase_index == 0 && s.pattern.text() == token_pattern@ && s.cmd@
                == cmd@,
    {
        match PhasePattern::new(token_pattern) {
            Ok(pattern) => Ok(StdOutInjector { pattern, cmd, phase_index: 0 }),
            Err(e) => Err(e),
        }
    }

    /// Starts the next phase, named by `token`, at `timestamp`.
    pub fn next_phase(&mut self, token: String, timestamp: u128) -> (p: PhaseStartInfo)
        requires
            old(self).phase_index < usize::MAX,
        ensures
            p.phase_index == old(self).phase_index,
            p.token@ == token@,
            p.timestamp == timestamp,
            final(self).phase_index == old(self).phase_index + 1,
            final(self).pattern == old(self).pattern,
    {
        let phase_index = self.phase_index;
        self.phase_index = phase_index + 1;
        PhaseStartInfo { phase_index, token, timestamp }
    }

    /// One line of output, read at `timestamp`:
    /// a line in which the pattern matches, once its line ending is
    /// trimmed, starts the next phase, named by the whole trimmed line.
    pub fn on_line(&mut self, line: &str, timestamp: u128) -> (r: Option<PhaseStartInfo>)
        requires
            old(self).phase_index < usize::MAX,
        ensures
            regex_first_match(old(self).pattern.text(), trim_line_endings(line@)) is None ==> r is None
                && final(self).phase_index == old(self).phase_index,
            regex_first_match(old(self).pattern.text(), trim_line_endings(line@)) is Some ==> (r matches Some(
                p,
            ) && p.phase_index == old(self).phase_index && p.token@ == trim_line_endings(line@)
                && p.timestamp == timestamp && final(self).phase_index == old(self).phase_index + 1),
            final(self).pattern == old(self).pattern,
    {
        let trimmed = trim_newlines(line);
        if self.pattern.token_in_line(trimmed.as_str()).is_some() {
            Some(self.next_phase(trimmed, timestamp))
        } else {
            None
        }
    }
}

} // verus!
