//! Terminal client support: a raw-mode line reader driven by the terminal's
//! own control characters, the terminal-mode bookkeeping behind it, and image
//! signature detection for inline media display.
use vstd::prelude::*;
use vstd::string::StringSliceAdditionalSpecFns;

pub mod image;
pub mod line;
pub mod settings;
pub mod tty;

verus! {

/// The first bytes of the terminal name of a terminal that speaks the
/// extended control protocol.
pub open spec fn notty_prefix() -> Seq<u8> {
    seq![0x6eu8, 0x6f, 0x74, 0x74, 0x79]
}

/// Whether a terminal name (the value of `TERM`) announces the extended
/// control protocol: it starts with `notty`.
pub fn is_notty(term: &str) -> (r: bool)
    ensures
        r == image::has_prefix(term.spec_bytes(), notty_prefix()),
{
    let notty: [u8; 5] = [0x6e, 0x6f, 0x74, 0x74, 0x79];
    assert(notty@ =~= notty_prefix());
    image::starts_with(term.as_bytes(), notty.as_slice())
}

} // verus!
