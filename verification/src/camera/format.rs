//! The frame formats a camera offers, and which of them is opened.

use crate::text::{append_nat, dec_nat, join, texts};
use vstd::prelude::*;
use vstd::string::*;

verus! {

/// Frame size the camera falls back to when none is configured.
pub const DEFAULT_WIDTH: u16 = 640;

pub const DEFAULT_HEIGHT: u16 = 480;

/// Smallest frame buffer, in bytes.
pub const MIN_FRAME_SIZE: usize = 49152;

/// Number of frame buffers of a stream.
pub const FRAME_BUFFERS: i32 = 2;

/// Number of USB transfers that a stream keeps in flight.
pub const STREAM_URBS: i32 = 4;

/// One entry of the camera's frame descriptor list as the driver reports it,
/// with frame intervals already turned into rates.
pub struct RawFrame {
    pub mjpeg: bool,
    pub h_res: u32,
    pub v_res: u32,
    /// Frames per second of the default interval, rounded.
    pub default_fps: String,
    /// Number of discrete intervals; 0 for a continuous range.
    pub interval_type: u8,
    /// Rate at the longest interval of a continuous range.
    pub slowest: String,
    /// Rate at the shortest interval of a continuous range.
    pub fastest: String,
    /// Rates of the discrete intervals that the driver has room for.
    pub discrete: Vec<String>,
}

/// One entry of the camera's frame descriptor list.
#[derive(Debug)]
pub struct FrameInfo {
    pub mjpeg: bool,
    pub width: u16,
    pub height: u16,
    /// Default frame rate, rounded.
    pub default_fps: String,
    /// Discrete frame rates, or `min..max` for a continuous range.
    pub rates: String,
}

impl Clone for FrameInfo {
    fn clone(&self) -> (r: FrameInfo)
        ensures
            r == *self,
    {
        FrameInfo {
            mjpeg: self.mjpeg,
            width: self.width,
            height: self.height,
            default_fps: self.default_fps.clone(),
            rates: self.rates.clone(),
        }
    }
}

/// The rates that a frame descriptor offers.
pub open spec fn rates_text(raw: RawFrame) -> Seq<char> {
    if raw.interval_type == 0 {
        raw.slowest@ + ".."@ + raw.fastest@
    } else if raw.interval_type <= raw.discrete@.len() {
        join(texts(raw.discrete@.take(raw.interval_type as int)), ", "@)
    } else {
        join(texts(raw.discrete@), ", "@)
    }
}

/// Whether `f` is what is noted of a format that the driver reports.
pub open spec fn is_frame_info(f: FrameInfo, raw: RawFrame) -> bool {
    &&& f.mjpeg == raw.mjpeg
    &&& f.width == raw.h_res as u16
    &&& f.height == raw.v_res as u16
    &&& f.default_fps == raw.default_fps
    &&& f.rates@ == rates_text(raw)
}

/// The first `n` texts of a list, separated by commas.
fn join_first(list: &Vec<String>, n: usize) -> (r: String)
    requires
        n <= list.len(),
    ensures
        r@ == join(texts(list@.take(n as int)), ", "@),
{
    let mut out = String::new();
    let mut i: usize = 0;
    assert(texts(list@.take(0)) =~= Seq::empty());
    while i < n
        invariant
            i <= n <= list.len(),
            out@ == join(texts(list@.take(i as int)), ", "@),
        decreases n - i,
    {
        proof {
            let more = texts(list@.take(i + 1));
            assert(more.drop_last() =~= texts(list@.take(i as int)));
            assert(more.last() == list@[i as int]@);
        }
        if i > 0 {
            out.append(", ");
        }
        out.append(list[i].as_str());
        assert(out@ =~= join(texts(list@.take(i + 1)), ", "@));
        i = i + 1;
    }
    out
}

impl FrameInfo {
    /// Takes over what the driver reports of a format. Sizes are those of the
    /// 16-bit fields of the descriptor.
    pub fn from_raw(raw: &RawFrame) -> (r: FrameInfo)
        ensures
            is_frame_info(r, *raw),
    {
        let rates = if raw.interval_type == 0 {
            let mut s = String::new();
            s.append(raw.slowest.as_str());
            s.append("..");
            s.append(raw.fastest.as_str());
            assert(s@ =~= rates_text(*raw));
            s
        } else {
            let wanted: usize = raw.interval_type as usize;
            let n: usize = if wanted <= raw.discrete.len() {
                wanted
            } else {
                raw.discrete.len()
            };
            assert(raw.discrete@.take(raw.discrete@.len() as int) =~= raw.discrete@);
            join_first(&raw.discrete, n)
        };
        FrameInfo {
            mjpeg: raw.mjpeg,
            width: #[verifier::truncate] (raw.h_res as u16),
            height: #[verifier::truncate] (raw.v_res as u16),
            default_fps: raw.default_fps.clone(),
            rates,
        }
    }

    /// One line that describes the format.
    pub open spec fn description(self) -> Seq<char> {
        (if self.mjpeg {
            "MJPEG"@
        } else {
            "other"@
        }) + " "@ + dec_nat(self.width as nat) + "x"@ + dec_nat(self.height as nat) + " @ "@
            + self.rates@ + " fps (default "@ + self.default_fps@ + ")"@
    }

    pub fn describe(&self) -> (r: String)
        ensures
            r@ == self.description(),
    {
        let mut s = String::new();
        if self.mjpeg {
            s.append("MJPEG");
        } else {
            s.append("other");
        }
        s.append(" ");
        append_nat(&mut s, self.width as u64);
        s.append("x");
        append_nat(&mut s, self.height as u64);
        s.append(" @ ");
        s.append(self.rates.as_str());
        s.append(" fps (default ");
        s.append(self.default_fps.as_str());
        s.append(")");
        assert(s@ =~= self.description());
        s
    }
}

/// The number of formats of a camera: what the driver says, as far as it had
/// room for them; none where it refused the list.
pub open spec fn listed_len(room: nat, listed: Option<usize>) -> int {
    match listed {
        None => 0,
        Some(n) => if n <= room {
            n as int
        } else {
            room as int
        },
    }
}

/// The formats of a camera from the frame list that the driver filled in:
/// `listed` entries, or none where the driver refused the list.
pub fn frame_list(raw: &Vec<RawFrame>, listed: Option<usize>) -> (r: Vec<FrameInfo>)
    ensures
        r.len() == listed_len(raw@.len(), listed),
        forall|i: int|
            0 <= i < r.len() ==> is_frame_info(#[trigger] r@[i], raw@[i]),
{
    let n: usize = match listed {
        None => 0,
        Some(n) => if n <= raw.len() {
            n
        } else {
            raw.len()
        },
    };
    let mut out: Vec<FrameInfo> = Vec::new();
    let mut i: usize = 0;
    while i < n
        invariant
            i <= n <= raw.len(),
            out.len() == i,
            forall|j: int| 0 <= j < i ==> is_frame_info(#[trigger] out@[j], raw@[j]),
        decreases n - i,
    {
        out.push(FrameInfo::from_raw(&raw[i]));
        i = i + 1;
    }
    out
}

/// A format of exactly the given size.
pub open spec fn is_size(f: FrameInfo, size: (u16, u16)) -> bool {
    f.width == size.0 && f.height == size.1
}

/// The size that a format is measured against.
pub open spec fn target_size(wanted: Option<(u16, u16)>) -> (u16, u16) {
    match wanted {
        Some(size) => size,
        None => (DEFAULT_WIDTH, DEFAULT_HEIGHT),
    }
}

/// How far the pixel count of a format is from that of the target size.
pub open spec fn distance(f: FrameInfo, wanted: Option<(u16, u16)>) -> int {
    let size = target_size(wanted);
    let d = f.width * f.height - size.0 * size.1;
    if d < 0 {
        -d
    } else {
        d
    }
}

/// An MJPEG format of the configured size.
pub open spec fn is_exact(f: FrameInfo, wanted: Option<(u16, u16)>) -> bool {
    f.mjpeg && wanted is Some && is_size(f, wanted->0)
}

/// The format that is opened: the first MJPEG format of the configured size
/// or, where there is none, the first of the MJPEG formats whose pixel count
/// is closest.
pub open spec fn is_chosen(
    formats: Seq<FrameInfo>,
    wanted: Option<(u16, u16)>,
    i: int,
) -> bool {
    &&& 0 <= i < formats.len()
    &&& formats[i].mjpeg
    &&& if exists|j: int| 0 <= j < formats.len() && is_exact(#[trigger] formats[j], wanted) {
        &&& is_exact(formats[i], wanted)
        &&& forall|j: int| 0 <= j < i ==> !is_exact(#[trigger] formats[j], wanted)
    } else {
        &&& forall|j: int|
            0 <= j < formats.len() && (#[trigger] formats[j]).mjpeg ==> distance(
                formats[i],
                wanted,
            ) <= distance(formats[j], wanted)
        &&& forall|j: int|
            0 <= j < i && (#[trigger] formats[j]).mjpeg ==> distance(formats[i], wanted) < distance(
                formats[j],
                wanted,
            )
    }
}

/// Picks the MJPEG format to open: the configured size if the camera offers
/// it, else the one closest in pixel count to it (or to 640x480).
pub fn choose_format(formats: &[FrameInfo], wanted: Option<(u16, u16)>) -> (r: Option<FrameInfo>)
    ensures
        match r {
            Some(f) => exists|i: int|
                #[trigger] is_chosen(formats@, wanted, i) && f == formats@[i],
            None => forall|i: int| 0 <= i < formats.len() ==> !(#[trigger] formats@[i]).mjpeg,
        },
{
    if let Some(size) = wanted {
        let mut i: usize = 0;
        while i < formats.len()
            invariant
                i <= formats.len(),
                wanted == Some(size),
                forall|j: int| 0 <= j < i ==> !is_exact(#[trigger] formats@[j], wanted),
            decreases formats.len() - i,
        {
            if formats[i].mjpeg && formats[i].width == size.0 && formats[i].height == size.1 {
                assert(is_exact(formats@[i as int], wanted));
                assert(is_chosen(formats@, wanted, i as int));
                return Some(formats[i].clone());
            }
            i = i + 1;
        }
    }
    let (tw, th) = match wanted {
        Some(size) => size,
        None => (DEFAULT_WIDTH, DEFAULT_HEIGHT),
    };
    proof {
        lemma_pixels(tw, th);
    }
    let target: i64 = tw as i64 * th as i64;
    let mut best: Option<usize> = None;
    let mut best_distance: i64 = 0;
    let mut i: usize = 0;
    while i < formats.len()
        invariant
            i <= formats.len(),
            target == target_size(wanted).0 * target_size(wanted).1,
            0 <= target <= 0xffff_ffff,
            match best {
                None => forall|j: int| 0 <= j < i ==> !(#[trigger] formats@[j]).mjpeg,
                Some(b) => {
                    &&& b < i
                    &&& formats@[b as int].mjpeg
                    &&& best_distance == distance(formats@[b as int], wanted)
                    &&& forall|j: int|
                        0 <= j < i && (#[trigger] formats@[j]).mjpeg ==> best_distance <= distance(
                            formats@[j],
                            wanted,
                        )
                    &&& forall|j: int|
                        0 <= j < b && (#[trigger] formats@[j]).mjpeg ==> best_distance < distance(
                            formats@[j],
                            wanted,
                        )
                },
            },
        decreases formats.len() - i,
    {
        if formats[i].mjpeg {
            proof {
                lemma_pixels(formats@[i as int].width, formats@[i as int].height);
            }
            let d: i64 = formats[i].width as i64 * formats[i].height as i64 - target;
            let d: i64 = if d < 0 {
                -d
            } else {
                d
            };
            assert(d == distance(formats@[i as int], wanted));
            if best.is_none() || d < best_distance {
                best = Some(i);
                best_distance = d;
            }
        }
        i = i + 1;
    }
    match best {
        Some(b) => {
            assert(is_chosen(formats@, wanted, b as int));
            Some(formats[b].clone())
        },
        None => None,
    }
}

proof fn lemma_pixels(w: u16, h: u16)
    ensures
        0 <= w * h <= 0xffff * 0xffff,
{
    assert(0 <= w * h <= 0xffff * 0xffff) by (nonlinear_arith)
        requires
            0 <= w <= 0xffff,
            0 <= h <= 0xffff,
    ;
}

/// The choice is determined, it is of the configured size whenever the camera
/// offers that size as MJPEG, and there is one whenever the camera offers
/// MJPEG at all.
pub proof fn law_choice(formats: Seq<FrameInfo>, wanted: Option<(u16, u16)>, i: int, j: int)
    ensures
        is_chosen(formats, wanted, i) && is_chosen(formats, wanted, j) ==> i == j,
        is_chosen(formats, wanted, i) && 0 <= j < formats.len() && is_exact(formats[j], wanted)
            ==> is_size(formats[i], wanted->0),
        is_chosen(formats, wanted, i) ==> formats[i].mjpeg,
        0 <= j < formats.len() && formats[j].mjpeg ==> exists|k: int|
            #[trigger] is_chosen(formats, wanted, k),
{
    if is_chosen(formats, wanted, i) && is_chosen(formats, wanted, j) {
        assert(formats[i].mjpeg && formats[j].mjpeg);
        if i < j {
            assert(!is_exact(formats[i], wanted) || !is_exact(formats[j], wanted) || i == j);
        }
    }
    if 0 <= j < formats.len() && formats[j].mjpeg {
        lemma_choice_exists(formats, wanted, formats.len() as int);
    }
}

proof fn lemma_choice_exists(formats: Seq<FrameInfo>, wanted: Option<(u16, u16)>, n: int)
    requires
        0 <= n <= formats.len(),
        exists|j: int| 0 <= j < n && (#[trigger] formats[j]).mjpeg,
    ensures
        exists|k: int| #[trigger] is_chosen(formats.take(n), wanted, k),
        n == formats.len() ==> exists|k: int| #[trigger] is_chosen(formats, wanted, k),
    decreases n,
{
    let s = formats.take(n);
    let f = formats[n - 1];
    if exists|j: int| 0 <= j < n - 1 && (#[trigger] formats[j]).mjpeg {
        lemma_choice_exists(formats, wanted, n - 1);
        let p = formats.take(n - 1);
        let k = choose|k: int| #[trigger] is_chosen(p, wanted, k);
        assert(p[k] == s[k]);
        let had_exact = exists|j: int| 0 <= j < p.len() && is_exact(#[trigger] p[j], wanted);
        if had_exact {
            let j = choose|j: int| 0 <= j < p.len() && is_exact(#[trigger] p[j], wanted);
            assert(s[j] == p[j]);
            assert forall|j: int| 0 <= j < k implies !is_exact(#[trigger] s[j], wanted) by {
                assert(p[j] == s[j]);
            }
            assert(is_chosen(s, wanted, k));
        } else {
            assert forall|j: int| 0 <= j < n - 1 implies !is_exact(#[trigger] s[j], wanted) by {
                assert(p[j] == s[j]);
            }
            if is_exact(f, wanted) {
                assert(s[n - 1] == f);
                assert(is_chosen(s, wanted, n - 1));
            } else {
                assert forall|j: int| 0 <= j < n - 1 && (#[trigger] s[j]).mjpeg implies distance(
                    p[k],
                    wanted,
                ) <= distance(s[j], wanted) && (j < k ==> distance(p[k], wanted) < distance(
                    s[j],
                    wanted,
                )) by {
                    assert(p[j] == s[j]);
                }
                if f.mjpeg && distance(f, wanted) < distance(p[k], wanted) {
                    assert(s[n - 1] == f);
                    assert(is_chosen(s, wanted, n - 1));
                } else {
                    assert(is_chosen(s, wanted, k));
                }
            }
        }
    } else {
        assert(f.mjpeg);
        assert(s[n - 1] == f);
        assert forall|j: int| 0 <= j < n - 1 implies !(#[trigger] s[j]).mjpeg by {
            assert(s[j] == formats[j]);
        }
        assert(is_chosen(s, wanted, n - 1));
    }
    if n == formats.len() {
        assert(s =~= formats);
    }
}

/// The frame rate to ask for after a number of refused attempts: first the
/// configured one, then the camera's default (0); `None` when none is left.
pub open spec fn rate_to_try_spec(wanted_fps: Option<u16>, refused: nat) -> Option<u16> {
    match wanted_fps {
        Some(fps) => if refused == 0 {
            Some(fps)
        } else if refused == 1 {
            Some(0)
        } else {
            None
        },
        None => if refused == 0 {
            Some(0)
        } else {
            None
        },
    }
}

/// The frame rate to ask for next.
pub fn rate_to_try(wanted_fps: Option<u16>, refused: usize) -> (r: Option<u16>)
    ensures
        r == rate_to_try_spec(wanted_fps, refused as nat),
{
    match wanted_fps {
        Some(fps) => match refused {
            0 => Some(fps),
            1 => Some(0),
            _ => None,
        },
        None => match refused {
            0 => Some(0),
            _ => None,
        },
    }
}

/// What follows an attempt to open a stream.
#[derive(Debug)]
pub enum Attempt {
    Opened,
    /// Try once more, at this frame rate.
    Again(u16),
    /// None is left to try; the last attempt failed for this reason.
    Failed(String),
}

/// The contents of an [`Attempt`].
pub enum AttemptView {
    Opened,
    Again(u16),
    Failed(Seq<char>),
}

impl View for Attempt {
    type V = AttemptView;

    open spec fn view(&self) -> AttemptView {
        match *self {
            Attempt::Opened => AttemptView::Opened,
            Attempt::Again(fps) => AttemptView::Again(fps),
            Attempt::Failed(e) => AttemptView::Failed(e@),
        }
    }
}

/// What follows an attempt that `refused` others came before.
pub open spec fn after_attempt_spec(
    wanted_fps: Option<u16>,
    refused: nat,
    outcome: Result<(), Seq<char>>,
) -> AttemptView {
    match outcome {
        Ok(()) => AttemptView::Opened,
        Err(e) => match rate_to_try_spec(wanted_fps, refused + 1) {
            Some(fps) => AttemptView::Again(fps),
            None => AttemptView::Failed(e),
        },
    }
}

/// Decides what follows an attempt to open a stream, after `refused` others.
pub fn after_attempt(wanted_fps: Option<u16>, refused: usize, outcome: Result<(), String>) -> (r:
    Attempt)
    ensures
        r@ == after_attempt_spec(
            wanted_fps,
            refused as nat,
            match outcome {
                Ok(()) => Ok(()),
                Err(e) => Err(e@),
            },
        ),
{
    match outcome {
        Ok(()) => Attempt::Opened,
        Err(e) => {
            let next = if refused == 0 {
                rate_to_try(wanted_fps, 1)
            } else {
                None
            };
            match next {
                Some(fps) => Attempt::Again(fps),
                None => Attempt::Failed(e),
            }
        },
    }
}

/// What is asked of the driver when a stream is opened.
#[derive(Debug, Clone, Copy, PartialEq, Eq, Structural)]
pub struct StreamConfig {
    pub dev_addr: u8,
    pub stream_index: u8,
    pub h_res: u32,
    pub v_res: u32,
    /// Frames per second; 0 for the camera's default.
    pub fps: u16,
    pub frame_buffers: i32,
    pub frame_size: usize,
    pub urbs: i32,
}

/// The size of an uncompressed frame at 16 bits per pixel, in bytes.
pub open spec fn raw_size(width: u16, height: u16) -> int {
    2 * (width * height)
}

/// The size of a frame buffer: half the raw size, but not below the minimum.
pub open spec fn frame_size_spec(width: u16, height: u16) -> int {
    let half = raw_size(width, height) / 2;
    if half < MIN_FRAME_SIZE {
        MIN_FRAME_SIZE as int
    } else {
        half
    }
}

/// The configuration of a stream. JPEG frames are far smaller than the raw
/// size; half of it leaves ample margin.
pub fn stream_config(dev_addr: u8, stream_index: u8, format: &FrameInfo, fps: u16) -> (r:
    StreamConfig)
    ensures
        r.dev_addr == dev_addr,
        r.stream_index == stream_index,
        r.h_res == format.width,
        r.v_res == format.height,
        r.fps == fps,
        r.frame_buffers == FRAME_BUFFERS,
        r.frame_size == frame_size_spec(format.width, format.height),
        r.urbs == STREAM_URBS,
{
    proof {
        lemma_pixels(format.width, format.height);
    }
    let half: usize = format.width as usize * format.height as usize;
    StreamConfig {
        dev_addr,
        stream_index,
        h_res: format.width as u32,
        v_res: format.height as u32,
        fps,
        frame_buffers: FRAME_BUFFERS,
        frame_size: if half < MIN_FRAME_SIZE {
            MIN_FRAME_SIZE
        } else {
            half
        },
        urbs: STREAM_URBS,
    }
}

} // verus!
