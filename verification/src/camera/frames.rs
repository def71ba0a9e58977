//! The latest frame, and waiting for a new one.

use crate::text::{append_nat, dec_nat};
use vstd::prelude::*;
use vstd::string::*;

verus! {

/// Frames dropped after the stream starts, while exposure settles.
pub const WARMUP_FRAMES: u32 = 2;

/// Anything shorter than this is no JPEG image.
pub const MIN_FRAME_LEN: usize = 4;

/// Longest wait for one frame, in seconds (covers stream start and the
/// warm-up).
pub const FRAME_TIMEOUT_SECS: u64 = 8;

/// The same in nanoseconds.
pub const FRAME_TIMEOUT: u128 = 8_000_000_000;

/// The latest frame.
#[derive(Debug)]
pub struct Frame {
    pub data: Vec<u8>,
    /// Incremented for every frame stored; 0 before the first one.
    pub seq: u64,
    /// Index of the stored frame within the current stream run.
    pub index: u32,
}

/// The contents of a [`Frame`].
pub struct FrameView {
    pub data: Seq<u8>,
    pub seq: nat,
    pub index: u32,
}

impl View for Frame {
    type V = FrameView;

    open spec fn view(&self) -> FrameView {
        FrameView { data: self.data@, seq: self.seq as nat, index: self.index }
    }
}

/// Whether a frame is kept, given its index in the run of the stream.
pub open spec fn is_kept(index: u32, len: nat) -> bool {
    index >= WARMUP_FRAMES && len >= MIN_FRAME_LEN
}

impl FrameView {
    /// The latest frame after another one has come in.
    pub open spec fn stored(self, index: u32, data: Seq<u8>) -> FrameView {
        if is_kept(index, data.len()) {
            FrameView { data, seq: self.seq + 1, index }
        } else {
            self
        }
    }
}

impl Frame {
    /// No frame yet.
    pub fn new() -> (r: Frame)
        ensures
            r@ == (FrameView { data: Seq::empty(), seq: 0, index: 0 }),
    {
        let r = Frame { data: Vec::new(), seq: 0, index: 0 };
        assert(r.data@ =~= Seq::empty());
        r
    }

    /// Starts counting anew, for a stream that has just been opened.
    pub fn restart(&mut self)
        ensures
            final(self)@ == (FrameView { seq: 0, ..old(self)@ }),
    {
        self.seq = 0;
    }

    /// Takes in a frame, unless it belongs to the warm-up or is too short to
    /// be an image. Returns whether it was kept.
    pub fn store(&mut self, index: u32, data: &[u8]) -> (r: bool)
        requires
            is_kept(index, data@.len()) ==> old(self).seq < u64::MAX,
        ensures
            r == is_kept(index, data@.len()),
            final(self)@ == old(self)@.stored(index, data@),
    {
        if index < WARMUP_FRAMES || data.len() < MIN_FRAME_LEN {
            return false;
        }
        self.data = vstd::slice::slice_to_vec(data);
        self.seq = self.seq + 1;
        self.index = index;
        true
    }
}

/// What a request for a frame does next.
#[derive(Debug)]
pub enum Poll {
    /// The answer: the latest frame.
    Deliver(Vec<u8>),
    Fail(String),
    /// Wait for a frame, at most this many nanoseconds.
    Wait(u128),
}

/// The contents of a [`Poll`].
pub enum PollView {
    Deliver(Seq<u8>),
    Fail(Seq<char>),
    Wait(int),
}

impl View for Poll {
    type V = PollView;

    open spec fn view(&self) -> PollView {
        match *self {
            Poll::Deliver(data) => PollView::Deliver(data@),
            Poll::Fail(e) => PollView::Fail(e@),
            Poll::Wait(n) => PollView::Wait(n as int),
        }
    }
}

/// Why no frame came in time. Frames that exceed their buffer are counted.
pub open spec fn timeout_text(overflows: u32) -> Seq<char> {
    if overflows > 0 {
        "no frame within "@ + dec_nat(FRAME_TIMEOUT_SECS as nat)
            + "s: frames exceed the buffer ("@ + dec_nat(overflows as nat)
            + " dropped); lower the resolution"@
    } else {
        "no frame within "@ + dec_nat(FRAME_TIMEOUT_SECS as nat) + "s"@
    }
}

/// What a request for a frame does, given the latest frame, the number of the
/// frame that was the latest when the request came, and how many more frames
/// to let pass.
pub open spec fn poll_spec(
    frame: FrameView,
    start_seq: int,
    skip: int,
    attached: bool,
    waited: int,
    overflows: u32,
) -> PollView {
    if frame.seq > start_seq + skip {
        PollView::Deliver(frame.data)
    } else if !attached {
        PollView::Fail("camera detached"@)
    } else if waited >= FRAME_TIMEOUT {
        PollView::Fail(timeout_text(overflows))
    } else {
        PollView::Wait(FRAME_TIMEOUT - waited)
    }
}

pub(crate) fn timeout_message(overflows: u32) -> (r: String)
    ensures
        r@ == timeout_text(overflows),
{
    let mut s = String::new();
    s.append("no frame within ");
    append_nat(&mut s, FRAME_TIMEOUT_SECS);
    if overflows > 0 {
        s.append("s: frames exceed the buffer (");
        append_nat(&mut s, overflows as u64);
        s.append(" dropped); lower the resolution");
    } else {
        s.append("s");
    }
    assert(s@ =~= timeout_text(overflows));
    s
}

} // verus!
