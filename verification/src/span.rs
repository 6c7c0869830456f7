//! Source spans: byte ranges attached to tokens, IR entries and diagnostics.

use vstd::prelude::*;

verus! {

/// A byte range in the source text. The range `0..0` is the "undefined" span
/// used where no source location is known.
#[derive(Clone, Copy, PartialEq, Eq, Structural, Debug)]
pub struct Span {
    pub start: u32,
    pub end: u32,
}

impl Span {
    /// The span attached to values that have no source location.
    pub open spec fn spec_undefined() -> Span {
        Span { start: 0, end: 0 }
    }

    #[verifier::when_used_as_spec(spec_undefined)]
    pub fn undefined() -> (r: Span)
        ensures
            r == Span::spec_undefined(),
    {
        Span { start: 0, end: 0 }
    }

    pub open spec fn spec_is_defined(&self) -> bool {
        *self != Span::spec_undefined()
    }

    #[verifier::when_used_as_spec(spec_is_defined)]
    pub fn is_defined(&self) -> (r: bool)
        ensures
            r == self.spec_is_defined(),
    {
        !(self.start == 0 && self.end == 0)
    }

    /// What `subsume` produces: the union of two ranges, ignoring an
    /// undefined operand.
    pub open spec fn spec_subsume(self, other: Span) -> Span {
        if !self.spec_is_defined() {
            other
        } else if !other.spec_is_defined() {
            self
        } else {
            Span {
                start: if self.start <= other.start {
                    self.start
                } else {
                    other.start
                },
                end: if self.end >= other.end {
                    self.end
                } else {
                    other.end
                },
            }
        }
    }

    /// Grows `self` to also cover `other`; an undefined operand is ignored.
    pub fn subsume(&mut self, other: Span)
        ensures
            *final(self) == old(self).spec_subsume(other),
    {
        if !self.is_defined() {
            *self = other;
        } else if !other.is_defined() {
        } else {
            *self = Span {
                start: if self.start <= other.start {
                    self.start
                } else {
                    other.start
                },
                end: if self.end >= other.end {
                    self.end
                } else {
                    other.end
                },
            };
        }
    }
}

} // verus!
