//! The local-mode flags of a terminal across a raw-mode guard's lifetime.
//!
//! Acquiring the guard clears canonical processing and echo and leaves every
//! other flag as it was; releasing it sets both again.
use vstd::prelude::*;

verus! {

/// The flags in force while the guard is held: `canon` and `echo` cleared.
pub open spec fn raw_flags(lflag: u32, canon: u32, echo: u32) -> u32 {
    lflag & !(canon | echo)
}

/// The flags restored on release: `canon` and `echo` set.
pub open spec fn cooked_flags(lflag: u32, canon: u32, echo: u32) -> u32 {
    lflag | canon | echo
}

/// Clears the canonical-mode and echo bits of a local-mode flag word.
pub fn enter_raw(lflag: u32, canon: u32, echo: u32) -> (r: u32)
    ensures
        r == raw_flags(lflag, canon, echo),
        r & canon == 0,
        r & echo == 0,
        r & !(canon | echo) == lflag & !(canon | echo),
{
    let r = lflag & !(canon | echo);
    assert(r & canon == 0 && r & echo == 0) by (bit_vector)
        requires
            r == lflag & !(canon | echo),
    ;
    assert(r & !(canon | echo) == lflag & !(canon | echo)) by (bit_vector)
        requires
            r == lflag & !(canon | echo),
    ;
    r
}

/// Sets the canonical-mode and echo bits of a local-mode flag word.
pub fn leave_raw(lflag: u32, canon: u32, echo: u32) -> (r: u32)
    ensures
        r == cooked_flags(lflag, canon, echo),
        r & canon == canon,
        r & echo == echo,
        r & !(canon | echo) == lflag & !(canon | echo),
{
    let r = lflag | canon | echo;
    assert(r & canon == canon && r & echo == echo) by (bit_vector)
        requires
            r == lflag | canon | echo,
    ;
    assert(r & !(canon | echo) == lflag & !(canon | echo)) by (bit_vector)
        requires
            r == lflag | canon | echo,
    ;
    r
}

/// Acquiring and then releasing a guard leaves canonical mode and echo
/// enabled, whatever they were before, and every other flag as it was.
pub proof fn lemma_guard_round_trip(lflag: u32, canon: u32, echo: u32)
    ensures
        cooked_flags(raw_flags(lflag, canon, echo), canon, echo) & canon == canon,
        cooked_flags(raw_flags(lflag, canon, echo), canon, echo) & echo == echo,
        cooked_flags(raw_flags(lflag, canon, echo), canon, echo) & !(canon | echo) == lflag & !(
        canon | echo),
{
    assert((((lflag & !(canon | echo)) | canon | echo) & canon == canon) && (((lflag & !(canon
        | echo)) | canon | echo) & echo == echo) && (((lflag & !(canon | echo)) | canon | echo)
        & !(canon | echo) == lflag & !(canon | echo))) by (bit_vector);
}

} // verus!
