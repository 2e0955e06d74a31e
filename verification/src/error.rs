use crate::loc::LocModel;
use crate::loc::RangeModel;
use crate::loc::SrcLoc;
use crate::loc::SrcRange;
use vstd::prelude::*;

verus! {

/// The two lexical fault kinds: a character that matches no scanning rule,
/// and a string literal that reaches the end of the input before its closing
/// delimiter.
#[derive(Clone, Copy, Debug, PartialEq, Eq)]
pub enum ErrorKind {
    UnexpectedChar(char),
    ExpectedDelimiter(char),
}

/// Mathematical image of an [`ErrorKind`].
pub ghost enum ErrorKindModel {
    UnexpectedChar(char),
    ExpectedDelimiter(char),
}

impl DeepView for ErrorKind {
    type V = ErrorKindModel;

    open spec fn deep_view(&self) -> ErrorKindModel {
        match self {
            ErrorKind::UnexpectedChar(c) => ErrorKindModel::UnexpectedChar(*c),
            ErrorKind::ExpectedDelimiter(c) => ErrorKindModel::ExpectedDelimiter(*c),
        }
    }
}

/// A lexical fault together with the source range it covers.
#[derive(Clone, Copy, Debug, PartialEq, Eq)]
pub struct Error {
    pub kind: ErrorKind,
    pub range: SrcRange,
}

/// Mathematical image of an [`Error`].
#[verifier::ext_equal]
pub ghost struct ErrorModel {
    pub kind: ErrorKindModel,
    pub range: RangeModel,
}

impl DeepView for Error {
    type V = ErrorModel;

    open spec fn deep_view(&self) -> ErrorModel {
        ErrorModel { kind: self.kind.deep_view(), range: self.range@ }
    }
}

impl Error {
    /// A fresh unexpected-character fault. It sits at the start of the source
    /// until [`Error::at`] places it.
    pub fn unexpected_char(c: char) -> (r: Error)
        ensures
            r.deep_view() == (ErrorModel {
                kind: ErrorKindModel::UnexpectedChar(c),
                range: RangeModel { start: LocModel { line: 1, col: 1 }, len: 0 },
            }),
    {
        Error { kind: ErrorKind::UnexpectedChar(c), range: SrcRange::new(SrcLoc::new(1, 1), 0) }
    }

    /// A fresh missing-delimiter fault. It sits at the start of the source
    /// until [`Error::at`] places it.
    pub fn expected_delimiter(c: char) -> (r: Error)
        ensures
            r.deep_view() == (ErrorModel {
                kind: ErrorKindModel::ExpectedDelimiter(c),
                range: RangeModel { start: LocModel { line: 1, col: 1 }, len: 0 },
            }),
    {
        Error { kind: ErrorKind::ExpectedDelimiter(c), range: SrcRange::new(SrcLoc::new(1, 1), 0) }
    }

    /// The same fault, placed at `range`.
    pub fn at(self, range: SrcRange) -> (r: Error)
        ensures
            r.deep_view() == (ErrorModel { kind: self.deep_view().kind, range: range@ }),
    {
        Error { kind: self.kind, range }
    }
}

} // verus!
