//! The control characters captured from a terminal when it enters raw mode.
use vstd::prelude::*;

verus! {

/// The byte that ends a line whatever the terminal is configured with.
pub const NEWLINE: u8 = 10;

/// Control characters that end or interrupt a line of input.
#[derive(Clone, Copy, Debug, PartialEq, Eq, Structural)]
pub struct BufferSettings {
    pub eol1: u8,
    pub eol2: u8,
    pub eof: u8,
    pub intr: u8,
    pub susp: u8,
    pub quit: u8,
}

/// Control characters that edit a line being typed.
#[derive(Clone, Copy, Debug, PartialEq, Eq, Structural)]
pub struct EchoSettings {
    pub lerase: u8,
    pub lnext: u8,
    pub werase: u8,
}

/// A byte on which a line ends: the newline, either end-of-line byte, or the
/// end-of-file byte.
pub open spec fn is_terminator(b: u8, set: BufferSettings) -> bool {
    b == NEWLINE || b == set.eol1 || b == set.eol2 || b == set.eof
}

impl BufferSettings {
    /// Whether `b` ends a line.
    pub fn eol(&self, b: u8) -> (r: bool)
        ensures
            r == is_terminator(b, *self),
    {
        b == NEWLINE || b == self.eol1 || b == self.eol2 || b == self.eof
    }

    /// Whether `b` is the end-of-file byte, which ends a line without being
    /// part of it.
    pub fn eof(&self, b: u8) -> (r: bool)
        ensures
            r == (b == self.eof),
    {
        b == self.eof
    }
}

} // verus!
