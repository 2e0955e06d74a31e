use vstd::prelude::*;

verus! {

/// A line/column position in the source text, both counted from 1.
#[derive(Clone, Copy, Debug, PartialEq, Eq)]
pub struct SrcLoc {
    pub line: usize,
    pub col: usize,
}

/// Mathematical image of a [`SrcLoc`].
pub ghost struct LocModel {
    pub line: nat,
    pub col: nat,
}

impl View for SrcLoc {
    type V = LocModel;

    open spec fn view(&self) -> LocModel {
        LocModel { line: self.line as nat, col: self.col as nat }
    }
}

impl DeepView for SrcLoc {
    type V = LocModel;

    open spec fn deep_view(&self) -> LocModel {
        self.view()
    }
}

impl SrcLoc {
    pub fn new(line: usize, col: usize) -> (r: SrcLoc)
        ensures
            r@ == (LocModel { line: line as nat, col: col as nat }),
    {
        SrcLoc { line, col }
    }
}

/// A span of the source text: a starting position plus a length counted in
/// characters. The end position is derived, never stored.
#[derive(Clone, Copy, Debug, PartialEq, Eq)]
pub struct SrcRange {
    pub start: SrcLoc,
    pub len: usize,
}

/// Mathematical image of a [`SrcRange`].
pub ghost struct RangeModel {
    pub start: LocModel,
    pub len: nat,
}

impl View for SrcRange {
    type V = RangeModel;

    open spec fn view(&self) -> RangeModel {
        RangeModel { start: self.start@, len: self.len as nat }
    }
}

impl DeepView for SrcRange {
    type V = RangeModel;

    open spec fn deep_view(&self) -> RangeModel {
        self.view()
    }
}

impl SrcRange {
    pub fn new(start: SrcLoc, len: usize) -> (r: SrcRange)
        ensures
            r@ == (RangeModel { start: start@, len: len as nat }),
    {
        SrcRange { start, len }
    }

    /// The same span, `n` characters longer.
    pub fn grow_by(self, n: usize) -> (r: SrcRange)
        requires
            self.len + n <= usize::MAX,
        ensures
            r@ == (RangeModel { start: self@.start, len: (self@.len + n) as nat }),
    {
        SrcRange { start: self.start, len: self.len + n }
    }
}

} // verus!
