//! Which frames are kept, and which of them answers a request.

use crate::camera::device::Negotiated;
use crate::camera::frames::{
    poll_spec, FrameView, PollView, FRAME_TIMEOUT, FRAME_TIMEOUT_SECS,
    MIN_FRAME_LEN, WARMUP_FRAMES,
};
use crate::camera::laws::{is_part, next, Event, World};
use crate::camera::state::{Camera, IDLE_STOP};
use crate::text::dec_nat;
use vstd::prelude::*;
use vstd::string::*;

verus! {

/// A frame of at least four bytes becomes the latest one from the third frame
/// of a run on, however long the run lasts; no other frame does.
pub proof fn law_kept_frames(frame: FrameView, index: u32, data: Seq<u8>)
    ensures
        index >= 2 && data.len() >= 4 ==> frame.stored(index, data) == (FrameView {
            data,
            seq: frame.seq + 1,
            index,
        }),
        index < 2 || data.len() < 4 ==> frame.stored(index, data) == frame,
{
}

/// A frame that comes in is counted, and it becomes the latest one where at
/// least two frames of the run came before it and it has at least four bytes.
/// Nothing else of the camera changes.
pub proof fn law_frame_comes_in(before: Camera, after: Camera, data: Seq<u8>)
    requires
        before.received_to(after, data),
    ensures
        before.dev.frames < u32::MAX ==> after.dev.frames == before.dev.frames + 1,
        before.dev.frames == u32::MAX ==> after.dev.frames == u32::MAX,
        before.dev.frames >= 2 && data.len() >= 4 ==> after.frame@.data == data && after.frame@.seq
            == before.frame@.seq + 1,
        before.dev.frames < 2 || data.len() < 4 ==> after.frame@ == before.frame@,
        after.dev.handle == before.dev.handle,
        after.dev.in_use == before.dev.in_use,
        after.dev.pending_close == before.dev.pending_close,
        after.dev.running == before.dev.running,
        after.dev.format == before.dev.format,
        after.connected == before.connected,
        after.attached == before.attached,
        after.overflows == before.overflows,
        after.wanted == before.wanted,
        after.wanted_fps == before.wanted_fps,
        after.vc == before.vc,
        after.last_settings == before.last_settings,
{
}

/// Whether an event brings an image that can answer a request: a frame of at
/// least four bytes, past the first two of its run.
pub open spec fn brings_image(w: World, e: Event) -> bool {
    e matches Event::FrameIn(data) && data.len() >= 4 && w.cam.dev.frames >= 2
}

/// How many of the first `n` events bring an image.
pub open spec fn image_count(worlds: Seq<World>, events: Seq<Event>, n: int) -> nat
    decreases n,
{
    if n <= 0 {
        0
    } else {
        image_count(worlds, events, n - 1) + (if brings_image(worlds[n - 1], events[n - 1]) {
            1nat
        } else {
            0
        })
    }
}

/// The last image that the first `n` events bring.
pub open spec fn last_image(worlds: Seq<World>, events: Seq<Event>, n: int) -> Seq<u8>
    decreases n,
{
    if n <= 0 {
        Seq::empty()
    } else {
        match events[n - 1] {
            Event::FrameIn(data) => if brings_image(worlds[n - 1], events[n - 1]) {
                data
            } else {
                last_image(worlds, events, n - 1)
            },
            _ => last_image(worlds, events, n - 1),
        }
    }
}

/// Whether an event opens a stream.
pub open spec fn opens_stream(w: World, e: Event) -> bool {
    e matches Event::OpenReturns(rc, _, _) && rc == 0 && !w.cam.dev.pending_close
}

proof fn lemma_images(
    worlds: Seq<World>,
    events: Seq<Event>,
    closes: Seq<Option<usize>>,
    n: int,
)
    requires
        is_part(worlds, events, closes),
        0 <= n <= events.len(),
        forall|i: int| 0 <= i < n ==> !opens_stream(worlds[i], #[trigger] events[i]),
    ensures
        worlds[n].cam.frame@.seq == worlds[0].cam.frame@.seq + image_count(worlds, events, n),
        image_count(worlds, events, n) > 0 ==> worlds[n].cam.frame@.data == last_image(
            worlds,
            events,
            n,
        ),
    decreases n,
{
    if n > 0 {
        lemma_images(worlds, events, closes, n - 1);
        let w = worlds[n - 1];
        let e = events[n - 1];
        assert(next(w, events[n - 1], worlds[n - 1 + 1], closes[n - 1]));
        assert(!opens_stream(w, e));
        if let Event::FrameIn(data) = e {
            law_frame_comes_in(w.cam, worlds[n].cam, data);
        }
    }
}

/// As long as no stream is opened anew, a request is answered exactly once
/// more images have come in since than were to be let pass, and then with the
/// last of them: however long the stream has been running, whatever else
/// happens meanwhile, and whether or not the camera is still there or the time
/// limit has passed.
pub proof fn law_request_is_answered(
    worlds: Seq<World>,
    events: Seq<Event>,
    closes: Seq<Option<usize>>,
    skip: nat,
    attached: bool,
    waited: int,
    overflows: u32,
)
    requires
        is_part(worlds, events, closes),
        forall|i: int| 0 <= i < events.len() ==> !opens_stream(worlds[i], #[trigger] events[i]),
    ensures
        ({
            let n = events.len() as int;
            let answer = poll_spec(
                worlds[n].cam.frame@,
                worlds[0].cam.frame@.seq as int,
                skip as int,
                attached,
                waited,
                overflows,
            );
            if image_count(worlds, events, n) >= skip + 1 {
                answer == PollView::Deliver(last_image(worlds, events, n))
            } else {
                answer !is Deliver
            }
        }),
{
    lemma_images(worlds, events, closes, events.len() as int);
}

/// The number of frames that have come in since the stream was last started
/// or opened, as far as the events tell.
pub open spec fn frames_of_run(events: Seq<Event>) -> nat
    decreases events.len(),
{
    if events.len() == 0 {
        0
    } else {
        match events.last() {
            Event::FrameIn(_) => frames_of_run(events.drop_last()) + 1,
            _ => frames_of_run(events.drop_last()),
        }
    }
}

/// The frames of a run are numbered from the start of the stream on: once it
/// has been started, and until it is started or opened again, the count is
/// that of the frames that came in, stopped or not.
pub proof fn law_frames_are_counted_from_the_start(
    worlds: Seq<World>,
    events: Seq<Event>,
    closes: Seq<Option<usize>>,
)
    requires
        is_part(worlds, events, closes),
        events.len() > 0,
        events[0] is Started,
        worlds[0].cam.dev.handle is Some,
        forall|i: int|
            1 <= i < events.len() ==> !(#[trigger] events[i] is Started) && !opens_stream(
                worlds[i],
                events[i],
            ),
    ensures
        worlds[1].cam.dev.running,
        worlds.last().cam.dev.frames == (if frames_of_run(events) <= u32::MAX {
            frames_of_run(events)
        } else {
            u32::MAX as nat
        }),
    decreases events.len(),
{
    let n = events.len() - 1;
    assert(next(worlds[n], events[n], worlds[n + 1], closes[n]));
    assert(next(worlds[0], events[0], worlds[0int + 1], closes[0]));
    if n > 0 {
        let ws = worlds.drop_last();
        let es = events.drop_last();
        let cs = closes.drop_last();
        assert forall|i: int| 0 <= i < es.len() implies next(
            ws[i],
            #[trigger] es[i],
            ws[i + 1],
            cs[i],
        ) by {
            assert(es[i] == events[i]);
        }
        assert forall|i: int| 1 <= i < es.len() implies !(#[trigger] es[i] is Started)
            && !opens_stream(ws[i], es[i]) by {
            assert(es[i] == events[i]);
        }
        law_frames_are_counted_from_the_start(ws, es, cs);
        assert(!(events[n] is Started) && !opens_stream(worlds[n], events[n]));
        if let Event::FrameIn(data) = events[n] {
            law_frame_comes_in(worlds[n].cam, worlds[n + 1].cam, data);
        }
    } else {
        assert(frames_of_run(events.drop_last()) == 0);
    }
}

/// What a request for a frame is told: a frame with a greater number than the
/// latest one had, plus those to be let pass, is the answer; else a camera
/// that left is the reason to give up, then eight seconds without a frame, and
/// until these are over the request waits for what is left of them.
pub proof fn law_answers(
    frame: FrameView,
    start_seq: int,
    skip: int,
    attached: bool,
    waited: int,
    overflows: u32,
)
    ensures
        poll_spec(frame, start_seq, skip, attached, waited, overflows) == (if frame.seq > start_seq
            + skip {
            PollView::Deliver(frame.data)
        } else if !attached {
            PollView::Fail("camera detached"@)
        } else if waited < 8_000_000_000 {
            PollView::Wait(8_000_000_000 - waited)
        } else if overflows == 0 {
            PollView::Fail("no frame within 8s"@)
        } else {
            PollView::Fail(
                "no frame within 8s: frames exceed the buffer ("@ + dec_nat(overflows as nat)
                    + " dropped); lower the resolution"@,
            )
        }),
        FRAME_TIMEOUT == 8_000_000_000,
        FRAME_TIMEOUT_SECS == 8,
        WARMUP_FRAMES == 2,
        MIN_FRAME_LEN == 4,
        IDLE_STOP == 10_000_000_000,
{
    reveal_strlit("no frame within ");
    reveal_strlit("no frame within 8s");
    reveal_strlit("s");
    reveal_strlit("s: frames exceed the buffer (");
    reveal_strlit("no frame within 8s: frames exceed the buffer (");
    assert(dec_nat(8) =~= seq!['8']);
    assert("no frame within 8s"@ =~= "no frame within "@ + dec_nat(8) + "s"@);
    assert("no frame within 8s: frames exceed the buffer ("@ =~= "no frame within "@ + dec_nat(8)
        + "s: frames exceed the buffer ("@);
}

/// What a camera is after its stream has been opened: attached, with the
/// handle and the format of the stream, which does not run yet and of which no
/// frame has come in; frames are numbered anew. What was configured, announced
/// or remembered stays.
pub proof fn law_stream_is_open(before: Camera, after: Camera, handle: usize, format: Negotiated)
    requires
        before.opened_to(after, handle, format),
    ensures
        after.attached,
        after.dev.handle == Some(handle),
        after.dev.format == Some(format),
        !after.dev.running,
        after.dev.frames == 0,
        after.overflows == 0,
        after.frame@.seq == 0,
        after.frame@.data == before.frame@.data,
        after.dev.in_use == before.dev.in_use,
        after.dev.pending_close == before.dev.pending_close,
        after.connected == before.connected,
        after.wanted == before.wanted,
        after.wanted_fps == before.wanted_fps,
        after.vc == before.vc,
        after.last_settings == before.last_settings,
{
}

/// What a camera is after it has been unplugged: neither attached nor
/// announced, with no interface, format or running stream. What was configured
/// or remembered, and the latest frame, stay.
pub proof fn law_unplugged(before: Camera)
    ensures
        ({
            let (after, _) = before.disconnected_spec();
            &&& !after.attached
            &&& after.connected is None
            &&& after.vc is None
            &&& !after.dev.running
            &&& after.dev.format is None
            &&& after.dev.frames == before.dev.frames
            &&& after.frame == before.frame
            &&& after.overflows == before.overflows
            &&& after.wanted == before.wanted
            &&& after.wanted_fps == before.wanted_fps
            &&& after.last_settings == before.last_settings
        }),
        before.disconnected_spec().1 == (if before.dev.in_use {
            None
        } else {
            before.dev.handle
        }),
{
}

/// The status line: size, rate and activity of an open stream, and else how
/// far a camera has come.
pub proof fn law_status(cam: Camera)
    ensures
        !cam.attached && cam.connected is None ==> cam.status_text() == "detached"@,
        !cam.attached && cam.connected is Some ==> cam.status_text() == "enumerated, opening"@,
        cam.attached && cam.dev.format is None ==> cam.status_text() == "attached"@,
        (cam.attached && cam.dev.format is Some) ==> ({
            let f = cam.dev.format->0;
            let size = "MJPEG "@ + dec_nat(f.width as nat) + "x"@ + dec_nat(f.height as nat);
            &&& cam.dev.running ==> cam.status_text() == size + " @ "@ + f.fps@
                + " fps, streaming"@
            &&& !cam.dev.running ==> cam.status_text() == size + " @ "@ + f.fps@ + " fps, idle"@
        }),
{
    reveal_strlit(" fps, ");
    reveal_strlit("streaming");
    reveal_strlit("idle");
    reveal_strlit(" fps, streaming");
    reveal_strlit(" fps, idle");
    assert(" fps, streaming"@ =~= " fps, "@ + "streaming"@);
    assert(" fps, idle"@ =~= " fps, "@ + "idle"@);
    if cam.attached && cam.dev.format is Some {
        let f = cam.dev.format->0;
        let size = "MJPEG "@ + dec_nat(f.width as nat) + "x"@ + dec_nat(f.height as nat);
        if cam.dev.running {
            assert(cam.status_text() =~= size + " @ "@ + f.fps@ + " fps, streaming"@);
        } else {
            assert(cam.status_text() =~= size + " @ "@ + f.fps@ + " fps, idle"@);
        }
    }
}

} // verus!
