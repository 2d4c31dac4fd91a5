//! Reading one line of input in raw mode.
//!
//! The caller owns the input stream. Each time it fills its lookahead window it
//! hands the outcome to [`LineRead::on_fill`], which appends what belongs to the
//! line to the caller's buffer and says how many bytes to consume and whether to
//! fill again. [`LineRead::finish`] then checks that the new bytes are text,
//! rolling the buffer back to its length at the start of the line if not.
use crate::settings::{is_terminator, BufferSettings, NEWLINE};
use vstd::prelude::*;
use vstd::string::StringSliceAdditionalSpecFns;
use vstd::utf8::valid_utf8;

verus! {

/// No byte of `w` before index `n` ends a line.
pub open spec fn no_terminator(w: Seq<u8>, n: int, set: BufferSettings) -> bool {
    forall|i: int| 0 <= i < n ==> !is_terminator(#[trigger] w[i], set)
}

/// `k` is the index of the first byte of `w` that ends a line.
pub open spec fn is_first_terminator(w: Seq<u8>, k: int, set: BufferSettings) -> bool {
    0 <= k < w.len() && is_terminator(w[k], set) && no_terminator(w, k, set)
}

/// What one window of buffered input contributes to the line being read.
pub struct WindowStep {
    /// The bytes that belong to the line.
    pub kept: Seq<u8>,
    /// How many bytes of the window are consumed.
    pub used: int,
    /// Whether the line is complete (or the stream has ended).
    pub done: bool,
}

/// The line ends at the first terminator of the window: the terminator is part
/// of the line unless it is the end-of-file byte, and is consumed either way.
/// With no terminator the whole window belongs to the line, which is complete
/// only if the window is empty (the stream has ended).
pub open spec fn window_step(w: Seq<u8>, set: BufferSettings) -> WindowStep {
    if exists|k: int| is_first_terminator(w, k, set) {
        let k = choose|k: int| is_first_terminator(w, k, set);
        if w[k] == set.eof {
            WindowStep { kept: w.subrange(0, k), used: k + 1, done: true }
        } else {
            WindowStep { kept: w.subrange(0, k + 1), used: k + 1, done: true }
        }
    } else {
        WindowStep { kept: w, used: w.len() as int, done: w.len() == 0 }
    }
}

/// How a fill of the lookahead window failed.
#[derive(Clone, Copy, Debug, PartialEq, Eq, Structural)]
pub enum FillError {
    /// A transient interruption: the fill is to be tried again.
    Interrupted,
    /// Any other failure of the stream.
    Failed,
}

/// What the caller does after handing a fill to [`LineRead::on_fill`].
#[derive(Clone, Copy, Debug, PartialEq, Eq, Structural)]
pub enum Action {
    /// Fill again; nothing was consumed.
    Retry,
    /// Consume `used` bytes of the window; fill again unless `done`.
    Consume { used: usize, done: bool },
    /// Give the stream's error to the caller; the buffer has been rolled back.
    Fail,
}

/// The buffer and the action that follow a fill, for a line that started when
/// the buffer was `start` bytes long.
pub open spec fn after_fill(
    buf: Seq<u8>,
    start: int,
    fill: Result<Seq<u8>, FillError>,
    set: BufferSettings,
) -> (Seq<u8>, Action) {
    match fill {
        Ok(w) => {
            let s = window_step(w, set);
            (buf + s.kept, Action::Consume { used: s.used as usize, done: s.done })
        },
        Err(FillError::Interrupted) => (buf, Action::Retry),
        Err(FillError::Failed) => (buf.subrange(0, start), Action::Fail),
    }
}

/// Why a line read that reached its end failed.
#[derive(Clone, Copy, Debug, PartialEq, Eq, Structural)]
pub enum LineError {
    /// The bytes read are not valid UTF-8.
    InvalidData,
}

/// Two indices that are both the first terminator are the same index.
pub proof fn lemma_first_terminator_unique(w: Seq<u8>, j: int, k: int, set: BufferSettings)
    requires
        is_first_terminator(w, j, set),
        is_first_terminator(w, k, set),
    ensures
        j == k,
{
    if j < k {
        assert(!is_terminator(w[j], set));
    } else if k < j {
        assert(!is_terminator(w[k], set));
    }
}

/// A line that reaches a newline, with no other terminator before it, is the
/// window up to and including the newline; exactly that many bytes are
/// consumed and the buffer grows by as many.
pub proof fn lemma_newline_ends_line(
    buf: Seq<u8>,
    start: int,
    w: Seq<u8>,
    k: int,
    set: BufferSettings,
)
    requires
        0 <= k < w.len(),
        w[k] == NEWLINE,
        no_terminator(w, k, set),
        set.eof != NEWLINE,
    ensures
        window_step(w, set) == (WindowStep { kept: w.subrange(0, k + 1), used: k + 1, done: true }),
        after_fill(buf, start, Ok(w), set).0 == buf + w.subrange(0, k + 1),
        after_fill(buf, start, Ok(w), set).0.len() == buf.len() + k + 1,
{
    assert(is_first_terminator(w, k, set));
    let c = choose|c: int| is_first_terminator(w, c, set);
    lemma_first_terminator_unique(w, c, k, set);
}

/// When the first terminator is the end-of-file byte, it is consumed but not
/// delivered: the line is the window before it.
pub proof fn lemma_eof_consumed_not_delivered(w: Seq<u8>, k: int, set: BufferSettings)
    requires
        is_first_terminator(w, k, set),
        w[k] == set.eof,
    ensures
        window_step(w, set) == (WindowStep { kept: w.subrange(0, k), used: k + 1, done: true }),
{
    let c = choose|c: int| is_first_terminator(w, c, set);
    lemma_first_terminator_unique(w, c, k, set);
}

/// An interrupted fill is invisible: handling an interruption and then a
/// window leaves the same buffer and asks for the same action as handling the
/// window alone.
pub proof fn lemma_interruption_invisible(
    buf: Seq<u8>,
    start: int,
    w: Seq<u8>,
    set: BufferSettings,
)
    ensures
        after_fill(buf, start, Err(FillError::Interrupted), set) == (buf, Action::Retry),
        after_fill(after_fill(buf, start, Err(FillError::Interrupted), set).0, start, Ok(w), set)
            == after_fill(buf, start, Ok(w), set),
{
}

/// A window with a terminator in it has a first one.
pub proof fn lemma_terminator_has_first(w: Seq<u8>, i: int, set: BufferSettings)
    requires
        0 <= i < w.len(),
        is_terminator(w[i], set),
    ensures
        exists|k: int| is_first_terminator(w, k, set),
    decreases i,
{
    if no_terminator(w, i, set) {
        assert(is_first_terminator(w, i, set));
    } else {
        let j = choose|j: int| 0 <= j < i && is_terminator(#[trigger] w[j], set);
        lemma_terminator_has_first(w, j, set);
    }
}

/// Where a fill's window ends does not change the line. A window that reaches
/// a terminator yields what the whole stream would; one that does not is kept
/// whole, and the rest of the line comes from the stream after it.
pub proof fn lemma_window_boundary_invisible(s: Seq<u8>, n: int, set: BufferSettings)
    requires
        0 < n <= s.len(),
    ensures
        window_step(s.subrange(0, n), set).done ==> window_step(s.subrange(0, n), set)
            == window_step(s, set),
        !window_step(s.subrange(0, n), set).done ==> {
            &&& window_step(s.subrange(0, n), set) == (WindowStep {
                kept: s.subrange(0, n),
                used: n,
                done: false,
            })
            &&& window_step(s, set).kept == s.subrange(0, n) + window_step(
                s.subrange(n, s.len() as int),
                set,
            ).kept
            &&& window_step(s, set).used == n + window_step(s.subrange(n, s.len() as int), set).used
            &&& n < s.len() ==> window_step(s, set).done == window_step(
                s.subrange(n, s.len() as int),
                set,
            ).done
        },
{
    let w = s.subrange(0, n);
    let t = s.subrange(n, s.len() as int);
    if exists|k: int| is_first_terminator(w, k, set) {
        let k = choose|k: int| is_first_terminator(w, k, set);
        assert(is_first_terminator(s, k, set)) by {
            assert(w[k] == s[k]);
            assert forall|i: int| 0 <= i < k implies !is_terminator(#[trigger] s[i], set) by {
                assert(w[i] == s[i]);
            }
        }
        let c = choose|c: int| is_first_terminator(s, c, set);
        lemma_first_terminator_unique(s, c, k, set);
        assert(w.subrange(0, k) =~= s.subrange(0, k));
        assert(w.subrange(0, k + 1) =~= s.subrange(0, k + 1));
    } else {
        assert(no_terminator(s, n, set)) by {
            assert forall|i: int| 0 <= i < n implies !is_terminator(#[trigger] s[i], set) by {
                assert(w[i] == s[i]);
                if is_terminator(w[i], set) {
                    lemma_terminator_has_first(w, i, set);
                }
            }
        }
        assert(w.len() > 0);
        if exists|k: int| is_first_terminator(s, k, set) {
            let k = choose|k: int| is_first_terminator(s, k, set);
            assert(k >= n) by {
                if k < n {
                    assert(!is_terminator(s[k], set));
                }
            }
            assert(is_first_terminator(t, k - n, set)) by {
                assert(t[k - n] == s[k]);
                assert forall|i: int| 0 <= i < k - n implies !is_terminator(#[trigger] t[i], set) by {
                    assert(t[i] == s[i + n]);
                }
            }
            let c = choose|c: int| is_first_terminator(t, c, set);
            lemma_first_terminator_unique(t, c, k - n, set);
            assert(s.subrange(0, k) =~= w + t.subrange(0, k - n));
            assert(s.subrange(0, k + 1) =~= w + t.subrange(0, k - n + 1));
        } else {
            assert forall|c: int| !is_first_terminator(t, c, set) by {
                if is_first_terminator(t, c, set) {
                    assert(is_first_terminator(s, c + n, set)) by {
                        assert(t[c] == s[c + n]);
                        assert forall|i: int| 0 <= i < c + n implies !is_terminator(
                            #[trigger] s[i],
                            set,
                        ) by {
                            if i >= n {
                                assert(t[i - n] == s[i]);
                            }
                        }
                    }
                }
            }
            assert(s =~= w + t);
        }
    }
}

/// Where the line ends in a window: the index of the first terminator, or the
/// window's length if there is none.
pub fn find_terminator(w: &[u8], set: &BufferSettings) -> (r: usize)
    ensures
        r <= w@.len(),
        no_terminator(w@, r as int, *set),
        r < w@.len() ==> is_terminator(w@[r as int], *set),
{
    let mut i: usize = 0;
    while i < w.len()
        invariant
            i <= w@.len(),
            no_terminator(w@, i as int, *set),
        decreases w@.len() - i,
    {
        if set.eol(w[i]) {
            return i;
        }
        i = i + 1;
    }
    i
}

/// Appends the first `hi` bytes of `w` to `buf`.
fn extend_from(buf: &mut Vec<u8>, w: &[u8], hi: usize)
    requires
        hi <= w@.len(),
    ensures
        final(buf)@ == old(buf)@ + w@.subrange(0, hi as int),
{
    let mut i: usize = 0;
    while i < hi
        invariant
            i <= hi,
            hi <= w@.len(),
            buf@ == old(buf)@ + w@.subrange(0, i as int),
        decreases hi - i,
    {
        buf.push(w[i]);
        assert(w@.subrange(0, i + 1) =~= w@.subrange(0, i as int).push(w@[i as int]));
        i = i + 1;
    }
}

/// Relies on `std::str::from_utf8`: it accepts exactly the well-formed UTF-8
/// byte strings.
#[verifier::external_body]
fn is_utf8(b: &[u8]) -> (r: bool)
    ensures
        r == valid_utf8(b@),
{
    std::str::from_utf8(b).is_ok()
}

/// The prompt written before each line: on a line of its own and followed by
/// a space.
pub fn prompt_bytes(prompt: &str) -> (r: Vec<u8>)
    ensures
        r@ == seq![NEWLINE] + prompt.spec_bytes() + seq![0x20u8],
{
    let p = prompt.as_bytes();
    let mut r: Vec<u8> = Vec::new();
    r.push(NEWLINE);
    extend_from(&mut r, p, p.len());
    r.push(0x20);
    assert(p@.subrange(0, p@.len() as int) =~= p@);
    assert(r@ =~= seq![NEWLINE] + prompt.spec_bytes() + seq![0x20u8]);
    r
}

/// The reading of one line into a caller's buffer.
#[derive(Clone, Copy, Debug)]
pub struct LineRead {
    start: usize,
    set: BufferSettings,
}

impl LineRead {
    /// The buffer's length when the line started.
    pub closed spec fn start(&self) -> int {
        self.start as int
    }

    /// The control characters the line is read with.
    pub closed spec fn settings(&self) -> BufferSettings {
        self.set
    }

    /// Starts a line that is appended to `buf`.
    pub fn begin(buf: &Vec<u8>, set: BufferSettings) -> (r: LineRead)
        ensures
            r.start() == buf@.len(),
            r.settings() == set,
    {
        LineRead { start: buf.len(), set }
    }

    /// Takes one window of buffered input, or the error a fill gave. An
    /// interruption changes nothing and asks for another fill; any other error
    /// rolls the buffer back to its length at the start of the line.
    pub fn on_fill(&self, buf: &mut Vec<u8>, fill: Result<&[u8], FillError>) -> (a: Action)
        requires
            self.start() <= old(buf)@.len(),
            old(buf)@.len() + match fill {
                Ok(w) => w@.len(),
                Err(_) => 0,
            } <= usize::MAX,
        ensures
            (final(buf)@, a) == after_fill(
                old(buf)@,
                self.start(),
                match fill {
                    Ok(w) => Ok(w@),
                    Err(e) => Err(e),
                },
                self.settings(),
            ),
            self.start() <= final(buf)@.len(),
    {
        match fill {
            Err(FillError::Interrupted) => Action::Retry,
            Err(FillError::Failed) => {
                buf.truncate(self.start);
                Action::Fail
            },
            Ok(w) => {
                let k = find_terminator(w, &self.set);
                proof {
                    if k < w@.len() {
                        assert(is_first_terminator(w@, k as int, self.set));
                        let c = choose|c: int| is_first_terminator(w@, c, self.set);
                        lemma_first_terminator_unique(w@, c, k as int, self.set);
                    } else {
                        assert forall|c: int| !is_first_terminator(w@, c, self.set) by {
                            if 0 <= c < w@.len() {
                                assert(!is_terminator(w@[c], self.set));
                            }
                        }
                    }
                }
                if k == w.len() {
                    extend_from(buf, w, k);
                    assert(w@.subrange(0, k as int) =~= w@);
                    Action::Consume { used: k, done: k == 0 }
                } else if self.set.eof(w[k]) {
                    extend_from(buf, w, k);
                    Action::Consume { used: k + 1, done: true }
                } else {
                    extend_from(buf, w, k + 1);
                    Action::Consume { used: k + 1, done: true }
                }
            },
        }
    }

    /// Ends the line: returns how many bytes it added to `buf` if they are
    /// valid UTF-8, and otherwise rolls `buf` back to its length at the start
    /// of the line.
    pub fn finish(&self, buf: &mut Vec<u8>) -> (r: Result<usize, LineError>)
        requires
            self.start() <= old(buf)@.len(),
        ensures
            valid_utf8(old(buf)@.subrange(self.start(), old(buf)@.len() as int)) ==> r == Ok::<
                usize,
                LineError,
            >((old(buf)@.len() - self.start()) as usize) && final(buf)@ == old(buf)@,
            !valid_utf8(old(buf)@.subrange(self.start(), old(buf)@.len() as int)) ==> r == Err::<
                usize,
                LineError,
            >(LineError::InvalidData) && final(buf)@ == old(buf)@.subrange(0, self.start()),
    {
        let ok = is_utf8(vstd::slice::slice_subrange(buf.as_slice(), self.start, buf.len()));
        if ok {
            Ok(buf.len() - self.start)
        } else {
            buf.truncate(self.start);
            Err(LineError::InvalidData)
        }
    }
}

} // verus!
