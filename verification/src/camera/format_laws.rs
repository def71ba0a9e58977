//! What is noted of a format, and which one is opened, in plain numbers.

use crate::camera::format::{
    after_attempt_spec, frame_size_spec, is_chosen, is_exact, is_frame_info, listed_len,
    AttemptView, FrameInfo, RawFrame, DEFAULT_HEIGHT, DEFAULT_WIDTH, FRAME_BUFFERS, MIN_FRAME_SIZE,
    STREAM_URBS,
};
use crate::camera::state::{is_next_open, Connected, NextOpen};
use crate::text::{dec_nat, join, texts};
use vstd::prelude::*;
use vstd::string::*;

verus! {

/// How far the pixel count of a format is from another one.
pub open spec fn pixels_off(f: FrameInfo, pixels: int) -> int {
    if f.width * f.height >= pixels {
        f.width * f.height - pixels
    } else {
        pixels - f.width * f.height
    }
}

/// A configured size that the camera offers as MJPEG is opened, in the first
/// format that has it. Without it, or where none is configured, no MJPEG
/// format is closer in pixel count to the configured size, or to 640x480, than
/// the one that is opened, and none as close comes before it.
pub proof fn law_closest_format(
    formats: Seq<FrameInfo>,
    wanted: Option<(u16, u16)>,
    i: int,
    j: int,
)
    requires
        is_chosen(formats, wanted, i),
        0 <= j < formats.len(),
        formats[j].mjpeg,
    ensures
        0 <= i < formats.len(),
        formats[i].mjpeg,
        wanted matches Some((w, h)) ==> {
            &&& formats[j].width == w && formats[j].height == h ==> formats[i].width == w
                && formats[i].height == h && i <= j
            &&& !(formats[i].width == w && formats[i].height == h) ==> pixels_off(formats[i], w * h)
                <= pixels_off(formats[j], w * h) && (j < i ==> pixels_off(formats[i], w * h)
                < pixels_off(formats[j], w * h))
        },
        wanted is None ==> pixels_off(formats[i], 307200) <= pixels_off(formats[j], 307200) && (j
            < i ==> pixels_off(formats[i], 307200) < pixels_off(formats[j], 307200)),
{
    if is_exact(formats[j], wanted) {
        assert(is_exact(formats[i], wanted));
    }
    if wanted is None {
        assert forall|k: int| 0 <= k < formats.len() implies !is_exact(
            #[trigger] formats[k],
            wanted,
        ) by {}
    }
}

/// What is noted of a format: the sizes are those of 16-bit fields, and the
/// rates are the two ends of a range or a list, which has as many entries as
/// the driver says and has room for.
pub proof fn law_noted_format(f: FrameInfo, raw: RawFrame)
    requires
        is_frame_info(f, raw),
    ensures
        f.mjpeg == raw.mjpeg,
        f.width == raw.h_res % 65536,
        f.height == raw.v_res % 65536,
        f.default_fps@ == raw.default_fps@,
        raw.interval_type == 0 ==> f.rates@ == raw.slowest@ + ".."@ + raw.fastest@,
        raw.interval_type > 0 ==> {
            let n: int = if raw.interval_type < raw.discrete@.len() {
                raw.interval_type as int
            } else {
                raw.discrete@.len() as int
            };
            f.rates@ == join(texts(raw.discrete@).take(n), ", "@)
        },
{
    let w = raw.h_res;
    let h = raw.v_res;
    assert(w as u16 == w % 65536) by (bit_vector);
    assert(h as u16 == h % 65536) by (bit_vector);
    let n = raw.interval_type as int;
    let all = texts(raw.discrete@);
    assert(all.take(all.len() as int) =~= all);
    if n <= raw.discrete@.len() {
        assert(texts(raw.discrete@.take(n)) =~= all.take(n));
    }
}

/// The description of a format.
pub proof fn law_description(f: FrameInfo)
    ensures
        f.mjpeg ==> f.description() == "MJPEG "@ + dec_nat(f.width as nat) + "x"@ + dec_nat(
            f.height as nat,
        ) + " @ "@ + f.rates@ + " fps (default "@ + f.default_fps@ + ")"@,
        !f.mjpeg ==> f.description() == "other "@ + dec_nat(f.width as nat) + "x"@ + dec_nat(
            f.height as nat,
        ) + " @ "@ + f.rates@ + " fps (default "@ + f.default_fps@ + ")"@,
{
    reveal_strlit("MJPEG");
    reveal_strlit("other");
    reveal_strlit(" ");
    reveal_strlit("MJPEG ");
    reveal_strlit("other ");
    assert("MJPEG "@ =~= "MJPEG"@ + " "@);
    assert("other "@ =~= "other"@ + " "@);
}

/// As many formats are listed as the driver says and had room for.
pub proof fn law_listed(room: nat, n: usize)
    ensures
        listed_len(room, None) == 0,
        n <= room ==> listed_len(room, Some(n)) == n,
        n >= room ==> listed_len(room, Some(n)) == room,
{
}

/// A stream is opened for an announced camera without one, in one of its MJPEG
/// formats; the format is a substitute where a size is configured and the
/// format has another one. A camera without MJPEG is not supported.
pub proof fn law_what_is_opened(
    r: NextOpen,
    conn: Option<Connected>,
    has_stream: bool,
    wanted: Option<(u16, u16)>,
)
    requires
        is_next_open(r, conn, has_stream, wanted),
    ensures
        r is Wait <==> conn is None || has_stream,
        r is Unsupported <==> conn is Some && !has_stream && (forall|i: int|
            0 <= i < conn->0.formats.len() ==> !(#[trigger] conn->0.formats@[i]).mjpeg),
        r matches NextOpen::Open { dev_addr, stream_index, format, substituted } ==> {
            &&& conn matches Some(c)
            &&& dev_addr == c.dev_addr
            &&& stream_index == c.stream_index
            &&& format.mjpeg
            &&& exists|i: int|
                #[trigger] is_chosen(c.formats@, wanted, i) && c.formats@[i] == format
            &&& substituted <==> wanted is Some && (format.width != (wanted->0).0 || format.height
                != (wanted->0).1)
        },
{
}

/// A frame buffer has one byte per pixel, and at least 49152 bytes; a stream
/// has two of them, and keeps four transfers in flight.
pub proof fn law_buffers(width: u16, height: u16)
    ensures
        width * height >= 49152 ==> frame_size_spec(width, height) == width * height,
        width * height < 49152 ==> frame_size_spec(width, height) == 49152,
        FRAME_BUFFERS == 2,
        STREAM_URBS == 4,
        MIN_FRAME_SIZE == 49152,
        DEFAULT_WIDTH == 640,
        DEFAULT_HEIGHT == 480,
{
}

/// What follows an attempt: nothing after a success; after a failure the
/// camera's default rate where that was the first attempt and a rate is
/// configured, and else the failure stands.
pub proof fn law_after_attempt(
    wanted_fps: Option<u16>,
    refused: nat,
    outcome: Result<(), Seq<char>>,
)
    ensures
        match outcome {
            Ok(_) => after_attempt_spec(wanted_fps, refused, outcome) is Opened,
            Err(e) => after_attempt_spec(wanted_fps, refused, outcome) == (if wanted_fps is Some
                && refused == 0 {
                AttemptView::Again(0)
            } else {
                AttemptView::Failed(e)
            }),
        },
{
}

} // verus!
