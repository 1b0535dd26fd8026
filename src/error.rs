//! Errors that stop a compilation.
use vstd::prelude::*;

verus! {

/// What the parser needed at a position where it stopped.
#[derive(Clone, Copy, PartialEq, Eq, Structural, Debug)]
pub enum Wanted {
    /// A term, or the end of the text.
    TermOrEnd,
    /// A term, or the `]` that closes a list.
    TermOrBracket,
}

/// Why a program could not be compiled.
#[derive(Debug)]
pub enum CompilerError {
    /// The source text is not a program. `position` is the index, counted in
    /// characters, of the first character that could not be consumed. The
    /// trace says, innermost first, where the parser stopped and what it
    /// needed there: the last entry is at `position`, and each entry before
    /// it lies inside the list that opens at the next entry's position.
    ParserError { source: String, position: usize, trace: Vec<(usize, Wanted)> },
    /// A `Put` names an identifier that no earlier `Bind` introduced.
    UnboundIdentifier { identifier: String },
}

impl CompilerError {
    /// The error for a text that is not a program.
    pub fn parser_error(source: String, position: usize, trace: Vec<(usize, Wanted)>) -> (r:
        CompilerError)
        ensures
            r matches CompilerError::ParserError { source: s, position: p, trace: t } && s@
                == source@ && p == position && t@ == trace@,
    {
        CompilerError::ParserError { source, position, trace }
    }
}

} // verus!
