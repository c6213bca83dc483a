use vstd::prelude::*;
use vstd::string::StringExecFns;

verus! {

/// What went wrong at the position a `ParserError` reports.
#[derive(Clone, Copy, Debug, PartialEq, Eq, Structural)]
pub enum ErrorKind {
    /// The input at this position fits no rule that could apply here.
    UnexpectedToken,
    /// The input ended where more was required.
    UnexpectedEndOfInput,
    /// A byte range beyond the end of the input was requested.
    OutOfBoundsSlice,
    /// A digit sequence does not fit in a signed 64-bit integer.
    NumberOverflow,
}

/// A parse failure: the byte offset at which it was found, and its kind.
#[derive(Clone, Copy, Debug, PartialEq, Eq, Structural)]
pub struct ParserError {
    pub pos: usize,
    pub kind: ErrorKind,
}

/// The human-readable description of each kind of failure.
pub open spec fn kind_message(kind: ErrorKind) -> Seq<char> {
    match kind {
        ErrorKind::UnexpectedToken => "unexpected token"@,
        ErrorKind::UnexpectedEndOfInput => "unexpected end of input"@,
        ErrorKind::OutOfBoundsSlice => "range out of bounds"@,
        ErrorKind::NumberOverflow => "number does not fit in 64 bits"@,
    }
}

impl ParserError {
    pub open spec fn view(self) -> (int, ErrorKind) {
        (self.pos as int, self.kind)
    }

    /// A description of the failure.
    pub fn message(&self) -> (r: String)
        ensures
            r@ == kind_message(self.kind),
    {
        let text = match self.kind {
            ErrorKind::UnexpectedToken => "unexpected token",
            ErrorKind::UnexpectedEndOfInput => "unexpected end of input",
            ErrorKind::OutOfBoundsSlice => "range out of bounds",
            ErrorKind::NumberOverflow => "number does not fit in 64 bits",
        };
        <String as StringExecFns>::from_str(text)
    }
}

} // verus!
