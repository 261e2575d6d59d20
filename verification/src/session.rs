//! A replay session: one parser and one shadow machine, fed the log line by
//! line.

use crate::cpu::{record_of, state_after, Cpu, CpuState};
use crate::parser::{
    line_outcome, starts_with_core, CommitLogParser, ParseError, ParserInitError,
};
use crate::trace::TraceRecord;
use vstd::prelude::*;

verus! {

/// A replay session. The machine's state can be looked at between lines.
pub struct ReplaySession {
    parser: CommitLogParser,
    cpu: Cpu,
}

impl View for ReplaySession {
    type V = CpuState;

    /// The state of the shadow machine.
    closed spec fn view(&self) -> CpuState {
        self.cpu@
    }
}

impl ReplaySession {
    /// Begins a session: opens the decoder and starts from zeroed registers
    /// and empty memory.
    pub fn new() -> (session: Result<Self, ParserInitError>)
        ensures
            session matches Ok(s) && s@ == CpuState::initial(),
    {
        let made = CommitLogParser::new();
        Self::from_parser(made)
    }

    /// The shadow machine, to look at.
    pub fn machine(&self) -> (cpu: &Cpu)
        ensures
            cpu@ == self@,
    {
        &self.cpu
    }

    /// Takes one line of the log. A commit line is replayed and gives its
    /// trace record. Any other line, and a line with a number that does not
    /// fit, leaves the machine as it was.
    pub fn feed(&mut self, line: &str) -> (result: Result<Option<TraceRecord>, ParseError>)
        ensures
            match line_outcome(line@) {
                Ok(Some(commit)) => {
                    &&& result matches Ok(Some(record))
                    &&& record@ == record_of(old(self)@, commit)
                    &&& final(self)@ == state_after(old(self)@, commit)
                },
                Ok(None) => {
                    &&& result == Ok::<Option<TraceRecord>, ParseError>(None)
                    &&& final(self)@ == old(self)@
                },
                Err(kind) => {
                    &&& result matches Err(e)
                    &&& e.kind == kind
                    &&& e.line@ == line@
                    &&& final(self)@ == old(self)@
                },
            },
            !starts_with_core(line@) ==> result == Ok::<Option<TraceRecord>, ParseError>(None)
                && final(self)@ == old(self)@,
    {
        match self.parser.parse_line(line) {
            Ok(Some(commit)) => Ok(Some(self.cpu.step(&commit))),
            Ok(None) => Ok(None),
            Err(e) => Err(e),
        }
    }

    /// The parser that the session holds.
    pub closed spec fn parser(&self) -> CommitLogParser {
        self.parser
    }

    /// Begins a session with what the making of the parser gave: a session
    /// that holds the parser and a machine with zeroed registers and empty
    /// memory where a parser was made, the error where none was.
    fn from_parser(made: Result<CommitLogParser, ParserInitError>) -> (session: Result<
        Self,
        ParserInitError,
    >)
        ensures
            match made {
                Ok(parser) => {
                    &&& session matches Ok(s)
                    &&& s.parser() == parser
                    &&& s@ == CpuState::initial()
                },
                Err(e) => session == Err::<Self, ParserInitError>(e),
            },
    {
        match made {
            Ok(parser) => Ok(ReplaySession { parser, cpu: Cpu::new() }),
            Err(e) => Err(e),
        }
    }
}

} // verus!
