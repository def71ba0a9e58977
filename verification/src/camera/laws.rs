//! What holds of the camera over any run of events.

use crate::camera::device::{DevState, Negotiated, OpenEnd, ESP_OK};
use crate::camera::format::{after_attempt_spec, rate_to_try_spec, AttemptView};
use crate::camera::frames::{
    is_kept, poll_spec, FrameView, PollView, FRAME_TIMEOUT, WARMUP_FRAMES,
};
use crate::camera::memory::remembered;
use crate::camera::memory_laws::{is_memory, law_last_value_is_remembered, value_for};
use crate::camera::state::Camera;
use crate::text::pair_texts;
use crate::uvc::descriptor::parse_vc_spec;
use crate::uvc::table::find_spec;
use vstd::prelude::*;

verus! {

/// The camera together with what the driver and the threads are doing.
pub struct World {
    pub cam: Camera,
    /// A call that opens a stream is in flight.
    pub opening: bool,
    /// The handle that some other driver call is in flight on.
    pub calling: Option<usize>,
    /// The handle that is open at the driver.
    pub live: Option<usize>,
}

/// What can happen.
pub enum Event {
    Announced,
    Disconnected,
    OpenBegins,
    /// The open call returns a code and, where that is success, a handle.
    OpenReturns(i32, usize, Negotiated),
    CallBegins,
    CallReturns,
    Started,
    Stopped,
    FrameIn(Seq<u8>),
    /// A frame exceeded its buffer.
    FrameOverflows,
    /// The configuration descriptor has been read, or could not be.
    DescriptorRead(Option<Seq<u8>>),
    /// All settings of a request have been applied.
    SettingsApplied(Seq<(Seq<char>, Seq<char>)>),
}

/// The settings that are remembered.
pub open spec fn memory(w: World) -> Seq<(Seq<char>, Seq<char>)> {
    pair_texts(w.cam.last_settings@)
}

/// Whether `e` can lead from `w` to `after` with `closes` being the handle
/// that is closed.
pub open spec fn next(w: World, e: Event, after: World, closes: Option<usize>) -> bool {
    match e {
        Event::Announced => {
            &&& w.cam.connected is None
            &&& after.cam.connected is Some
            &&& after == (World {
                cam: Camera { connected: after.cam.connected, ..w.cam },
                ..w
            })
            &&& closes is None
        },
        Event::Disconnected => {
            let (cam, handle) = w.cam.disconnected_spec();
            &&& after == (World {
                cam,
                live: if handle is Some {
                    None
                } else {
                    w.live
                },
                ..w
            })
            &&& closes == handle
        },
        Event::OpenBegins => {
            &&& !w.opening
            &&& w.cam.connected is Some
            &&& w.cam.dev.handle is None
            &&& after == (World {
                cam: Camera { dev: w.cam.dev.begin_open_spec(), ..w.cam },
                opening: true,
                ..w
            })
            &&& closes is None
        },
        Event::OpenReturns(rc, handle, format) => {
            let (dev, end) = w.cam.dev.end_open_spec(rc);
            let cam = Camera { dev, ..w.cam };
            &&& w.opening
            &&& match end {
                OpenEnd::Refused => {
                    &&& after == (World { cam, opening: false, ..w })
                    &&& closes is None
                },
                OpenEnd::Left => {
                    &&& after == (World { cam, opening: false, ..w })
                    &&& closes == Some(handle)
                },
                OpenEnd::Opened => {
                    &&& cam.opened_to(after.cam, handle, format)
                    &&& after == (World {
                        cam: after.cam,
                        opening: false,
                        live: Some(handle),
                        ..w
                    })
                    &&& closes is None
                },
            }
        },
        Event::CallBegins => {
            let (dev, r) = w.cam.dev.acquire_spec();
            &&& after == (World {
                cam: Camera { dev, ..w.cam },
                calling: match r {
                    Ok(handle) => Some(handle),
                    Err(_) => w.calling,
                },
                ..w
            })
            &&& closes is None
        },
        Event::CallReturns => {
            let (dev, close) = w.cam.dev.release_spec();
            &&& w.calling is Some
            &&& after == (World {
                cam: Camera { dev, ..w.cam },
                calling: None,
                live: if close {
                    None
                } else {
                    w.live
                },
                ..w
            })
            &&& closes == (if close {
                w.calling
            } else {
                None
            })
        },
        Event::Started => {
            &&& after == (World { cam: Camera { dev: w.cam.dev.started_spec(), ..w.cam }, ..w })
            &&& closes is None
        },
        Event::Stopped => {
            &&& after == (World { cam: Camera { dev: w.cam.dev.stopped_spec(), ..w.cam }, ..w })
            &&& closes is None
        },
        Event::FrameIn(data) => {
            &&& w.cam.received_to(after.cam, data)
            &&& after == (World { cam: after.cam, ..w })
            &&& closes is None
        },
        Event::FrameOverflows => {
            &&& w.cam.overflows < u32::MAX
            &&& after == (World {
                cam: Camera { overflows: (w.cam.overflows + 1) as u32, ..w.cam },
                ..w
            })
            &&& closes is None
        },
        Event::DescriptorRead(config) => {
            &&& after == (World {
                cam: Camera {
                    vc: match config {
                        Some(bytes) => parse_vc_spec(bytes),
                        None => None,
                    },
                    ..w.cam
                },
                ..w
            })
            &&& closes is None
        },
        Event::SettingsApplied(params) => {
            &&& memory(after) == remembered(memory(w), params)
            &&& after == (World {
                cam: Camera { last_settings: after.cam.last_settings, ..w.cam },
                ..w
            })
            &&& closes is None
        },
    }
}

/// Nothing is plugged in and nothing goes on.
pub open spec fn at_start(w: World) -> bool {
    &&& w.cam.dev == DevState::initial()
    &&& w.cam.connected is None
    &&& !w.cam.attached
    &&& !w.opening
    &&& w.calling is None
    &&& w.live is None
    &&& memory(w) == Seq::<(Seq<char>, Seq<char>)>::empty()
}

/// What holds at all times: the noted handle is the one that is open at the
/// driver; the handle is marked as in use exactly while a driver call is in
/// flight, of which there is at most one; and an attached camera has an open
/// stream that is not about to be closed.
pub open spec fn consistent(w: World) -> bool {
    let dev = w.cam.dev;
    &&& dev.wf()
    &&& w.live == dev.handle
    &&& dev.in_use == (w.opening || w.calling is Some)
    &&& w.opening ==> w.calling is None && dev.handle is None
    &&& w.calling is Some ==> w.calling == dev.handle
    &&& w.opening && !dev.pending_close ==> w.cam.connected is Some
    &&& w.cam.attached ==> dev.handle is Some && !dev.pending_close && w.cam.connected is Some
}

/// [`consistent`] holds at the start.
pub proof fn law_start_is_consistent(w: World)
    requires
        at_start(w),
    ensures
        consistent(w),
{
}

/// Every event keeps [`consistent`]. A handle is closed only when it is the
/// open one (or has just been opened for a camera that left meanwhile), never
/// while another thread's driver call is in flight on it, and never for an
/// attached camera. A close that had to be put off is performed when the call
/// that was in the way returns.
pub proof fn law_handle_is_closed_safely(w: World, e: Event, after: World, closes: Option<usize>)
    requires
        consistent(w),
        next(w, e, after, closes),
    ensures
        consistent(after),
        closes matches Some(handle) ==> {
            &&& match e {
                Event::OpenReturns(_, opened, _) => handle == opened,
                _ => w.live == Some(handle),
            }
            &&& w.calling is None || e is CallReturns
            &&& after.live is None
            &&& after.calling is None
            &&& !after.cam.attached
        },
        e is Disconnected ==> !after.cam.attached && !after.cam.dev.running && (closes == w.live
            || after.cam.dev.pending_close),
        e is CallReturns && w.cam.dev.pending_close ==> closes == w.live && closes is Some,
        e matches Event::OpenReturns(rc, handle, _) ==> w.cam.dev.pending_close && rc == ESP_OK
            ==> closes == Some(handle),
{
}

/// The number of handles that the driver has given out.
pub open spec fn opened_count(events: Seq<Event>) -> nat
    decreases events.len(),
{
    if events.len() == 0 {
        0
    } else {
        opened_count(events.drop_last()) + (match events.last() {
            Event::OpenReturns(rc, _, _) => if rc == ESP_OK {
                1nat
            } else {
                0
            },
            _ => 0,
        })
    }
}

/// The number of handles that have been closed.
pub open spec fn closed_count(closes: Seq<Option<usize>>) -> nat
    decreases closes.len(),
{
    if closes.len() == 0 {
        0
    } else {
        closed_count(closes.drop_last()) + (if closes.last() is Some {
            1nat
        } else {
            0
        })
    }
}

/// Events that lead from each of the worlds to the next.
pub open spec fn is_part(
    worlds: Seq<World>,
    events: Seq<Event>,
    closes: Seq<Option<usize>>,
) -> bool {
    &&& worlds.len() == events.len() + 1
    &&& closes.len() == events.len()
    &&& forall|i: int|
        0 <= i < events.len() ==> next(
            worlds[i],
            #[trigger] events[i],
            worlds[i + 1],
            closes[i],
        )
}

/// A run of events from the start.
pub open spec fn is_run(
    worlds: Seq<World>,
    events: Seq<Event>,
    closes: Seq<Option<usize>>,
) -> bool {
    is_part(worlds, events, closes) && at_start(worlds[0])
}

/// What holds of a run holds of the run without its last event.
proof fn lemma_shorter_part(worlds: Seq<World>, events: Seq<Event>, closes: Seq<Option<usize>>)
    requires
        is_part(worlds, events, closes),
        events.len() > 0,
    ensures
        is_part(worlds.drop_last(), events.drop_last(), closes.drop_last()),
        worlds.drop_last().last() == worlds[events.len() - 1],
        next(
            worlds[events.len() - 1],
            events.last(),
            worlds.last(),
            closes.last(),
        ),
{
    let ws = worlds.drop_last();
    let es = events.drop_last();
    let cs = closes.drop_last();
    assert forall|i: int| 0 <= i < es.len() implies next(
        ws[i],
        #[trigger] es[i],
        ws[i + 1],
        cs[i],
    ) by {
        assert(es[i] == events[i]);
    }
    let n = events.len() - 1;
    assert(next(worlds[n], events[n], worlds[n + 1], closes[n]));
}

/// Over any run, every handle that the driver gave out has been closed exactly
/// once, but for the one that is open.
pub proof fn law_every_handle_is_closed_once(
    worlds: Seq<World>,
    events: Seq<Event>,
    closes: Seq<Option<usize>>,
)
    requires
        is_run(worlds, events, closes),
    ensures
        consistent(worlds.last()),
        opened_count(events) == closed_count(closes) + (if worlds.last().live is Some {
            1nat
        } else {
            0
        }),
    decreases events.len(),
{
    if events.len() > 0 {
        let n = events.len() - 1;
        lemma_shorter_part(worlds, events, closes);
        law_every_handle_is_closed_once(
            worlds.drop_last(),
            events.drop_last(),
            closes.drop_last(),
        );
        law_handle_is_closed_safely(worlds[n], events[n], worlds[n + 1], closes[n]);
    }
}

/// Whether an event brings a frame that becomes the latest one.
pub open spec fn is_stored(w: World, e: Event) -> bool {
    e matches Event::FrameIn(data) && is_kept(w.cam.dev.frame_spec().1, data.len())
}

/// How many of the first `n` events bring a frame that becomes the latest one.
pub open spec fn stored_count(worlds: Seq<World>, events: Seq<Event>, n: int) -> nat
    decreases n,
{
    if n <= 0 {
        0
    } else {
        stored_count(worlds, events, n - 1) + (if is_stored(worlds[n - 1], events[n - 1]) {
            1nat
        } else {
            0
        })
    }
}

/// A frame that answers a request has come in after the request, and after at
/// least as many other frames as were to be let pass, whatever else happens
/// meanwhile: the stream may be started, stopped, lost and opened anew. The
/// first of the worlds is the one in which the request came, where
/// `begin_snapshot` gives the number of its latest frame.
pub proof fn law_snapshot_is_fresh_in_any_run(
    worlds: Seq<World>,
    events: Seq<Event>,
    closes: Seq<Option<usize>>,
    skip: nat,
    waited: int,
)
    requires
        is_part(worlds, events, closes),
        poll_spec(
            worlds.last().cam.frame@,
            worlds[0].cam.frame@.seq as int,
            skip as int,
            worlds.last().cam.attached,
            waited,
            worlds.last().cam.overflows,
        ) is Deliver,
    ensures
        exists|j: int|
            0 <= j < events.len() && #[trigger] is_stored(worlds[j], events[j]) && events[j]
                == Event::FrameIn(worlds.last().cam.frame@.data) && stored_count(worlds, events, j)
                >= skip,
        poll_spec(
            worlds.last().cam.frame@,
            worlds[0].cam.frame@.seq as int,
            skip as int,
            worlds.last().cam.attached,
            waited,
            worlds.last().cam.overflows,
        ) == PollView::Deliver(worlds.last().cam.frame@.data),
{
    lemma_latest_frame(worlds, events, closes, events.len() as int);
}

/// Where the latest frame comes from after `n` events.
proof fn lemma_latest_frame(
    worlds: Seq<World>,
    events: Seq<Event>,
    closes: Seq<Option<usize>>,
    n: int,
)
    requires
        is_part(worlds, events, closes),
        0 <= n <= events.len(),
    ensures
        ({
            let start = worlds[0].cam.frame@.seq;
            let now = worlds[n].cam.frame@;
            &&& now.seq <= start + stored_count(worlds, events, n)
            &&& now.seq > start ==> exists|j: int|
                0 <= j < n && #[trigger] is_stored(worlds[j], events[j]) && events[j]
                    == Event::FrameIn(now.data) && stored_count(worlds, events, j) >= now.seq
                    - start - 1
        }),
    decreases n,
{
    if n > 0 {
        lemma_latest_frame(worlds, events, closes, n - 1);
        let start = worlds[0].cam.frame@.seq;
        let w = worlds[n - 1];
        let e = events[n - 1];
        let before = w.cam.frame@;
        let now = worlds[n].cam.frame@;
        assert(next(w, events[n - 1], worlds[n - 1 + 1], closes[n - 1]));
        if is_stored(w, e) {
            assert(events[n - 1] == Event::FrameIn(now.data));
        } else if now.seq > start {
            assert(now == before);
            let j = choose|j: int|
                0 <= j < n - 1 && #[trigger] is_stored(worlds[j], events[j]) && events[j]
                    == Event::FrameIn(before.data) && stored_count(worlds, events, j) >= before.seq
                    - start - 1;
            assert(is_stored(worlds[j], events[j]));
        }
    }
}

/// Nothing but applied settings changes what is remembered: not unplugging,
/// not opening a stream, not a frame.
pub proof fn law_settings_stay(w: World, e: Event, after: World, closes: Option<usize>)
    requires
        next(w, e, after, closes),
    ensures
        e !is SettingsApplied ==> after.cam.last_settings == w.cam.last_settings,
        e matches Event::SettingsApplied(params) ==> memory(after) == remembered(
            memory(w),
            params,
        ),
{
}

/// The parameters of all requests whose settings were applied, in order.
pub open spec fn applied_params(events: Seq<Event>) -> Seq<(Seq<char>, Seq<char>)>
    decreases events.len(),
{
    if events.len() == 0 {
        Seq::empty()
    } else {
        applied_params(events.drop_last()) + (match events.last() {
            Event::SettingsApplied(params) => params,
            _ => Seq::empty(),
        })
    }
}

proof fn lemma_remembered_concat(
    saved: Seq<(Seq<char>, Seq<char>)>,
    a: Seq<(Seq<char>, Seq<char>)>,
    b: Seq<(Seq<char>, Seq<char>)>,
)
    ensures
        remembered(saved, a + b) == remembered(remembered(saved, a), b),
    decreases b.len(),
{
    if b.len() == 0 {
        assert(a + b =~= a);
    } else {
        lemma_remembered_concat(saved, a, b.drop_last());
        assert((a + b).drop_last() =~= a + b.drop_last());
    }
}

/// Over any run, however often the camera is unplugged and plugged in, what is
/// remembered for a control is the last value that was applied to it. This is
/// what `descriptor_read` hands back to be applied again.
pub proof fn law_settings_survive_unplugging(
    worlds: Seq<World>,
    events: Seq<Event>,
    closes: Seq<Option<usize>>,
    name: Seq<char>,
)
    requires
        is_run(worlds, events, closes),
        find_spec(name) is Some,
    ensures
        memory(worlds.last()) == remembered(Seq::empty(), applied_params(events)),
        is_memory(memory(worlds.last())),
        value_for(memory(worlds.last()), name) == value_for(applied_params(events), name),
{
    lemma_memory_of_run(worlds, events, closes);
    law_last_value_is_remembered(Seq::empty(), applied_params(events), name);
    assert(value_for(Seq::empty(), name) is None);
}

proof fn lemma_memory_of_run(worlds: Seq<World>, events: Seq<Event>, closes: Seq<Option<usize>>)
    requires
        is_run(worlds, events, closes),
    ensures
        memory(worlds.last()) == remembered(Seq::empty(), applied_params(events)),
    decreases events.len(),
{
    if events.len() > 0 {
        let es = events.drop_last();
        lemma_shorter_part(worlds, events, closes);
        lemma_memory_of_run(worlds.drop_last(), es, closes.drop_last());
        law_settings_stay(worlds[events.len() - 1], events.last(), worlds.last(), closes.last());
        if let Event::SettingsApplied(params) = events.last() {
            lemma_remembered_concat(Seq::empty(), applied_params(es), params);
        } else {
            assert(applied_params(events) =~= applied_params(es));
        }
    }
}

/// The stream and the latest frame after frames have come in.
pub open spec fn received(dev: DevState, frame: FrameView, frames: Seq<Seq<u8>>) -> (
    DevState,
    FrameView,
)
    decreases frames.len(),
{
    if frames.len() == 0 {
        (dev, frame)
    } else {
        let (d, f) = received(dev, frame, frames.drop_last());
        let (d2, index) = d.frame_spec();
        (d2, f.stored(index, frames.last()))
    }
}

/// Where nothing but frames comes in between a request and its answer, the
/// answer has come in after the request and after at least as many other
/// frames as were to be let pass; where the stream has just been started, the
/// frames of the warm-up come on top. For any other course of events see
/// [`law_snapshot_is_fresh_in_any_run`].
pub proof fn law_snapshot_is_fresh(
    dev: DevState,
    frame: FrameView,
    frames: Seq<Seq<u8>>,
    skip: nat,
    attached: bool,
    waited: int,
    overflows: u32,
)
    requires
        ({
            let (_, now) = received(dev, frame, frames);
            poll_spec(
                now,
                frame.seq as int,
                skip as int,
                attached,
                waited,
                overflows,
            ) is Deliver
        }),
    ensures
        exists|j: int|
            skip <= j < frames.len() && (dev.frames == 0 ==> j >= skip + WARMUP_FRAMES)
                && poll_spec(
                received(dev, frame, frames).1,
                frame.seq as int,
                skip as int,
                attached,
                waited,
                overflows,
            ) == PollView::Deliver(#[trigger] frames[j]),
{
    lemma_received(dev, frame, frames);
}

proof fn lemma_received(dev: DevState, frame: FrameView, frames: Seq<Seq<u8>>)
    ensures
        ({
            let (d, now) = received(dev, frame, frames);
            let dropped: int = if dev.frames == 0 {
                WARMUP_FRAMES as int
            } else {
                0
            };
            &&& frame.seq <= now.seq
            &&& d.frames == (if dev.frames + frames.len() <= u32::MAX {
                dev.frames + frames.len()
            } else {
                u32::MAX as int
            })
            &&& now.seq == frame.seq ==> now == frame
            &&& now.seq > frame.seq ==> exists|j: int|
                now.seq - frame.seq - 1 + dropped <= j < frames.len() && #[trigger] frames[j]
                    == now.data
        }),
    decreases frames.len(),
{
    if frames.len() > 0 {
        let init = frames.drop_last();
        lemma_received(dev, frame, init);
        let (d, before) = received(dev, frame, init);
        let (_, now) = received(dev, frame, frames);
        let dropped: int = if dev.frames == 0 {
            WARMUP_FRAMES as int
        } else {
            0
        };
        let (_, index) = d.frame_spec();
        let last = frames.len() - 1;
        if is_kept(index, frames.last().len()) {
            assert(frames[last] == now.data);
            if before.seq > frame.seq {
                let j = choose|j: int|
                    before.seq - frame.seq - 1 + dropped <= j < init.len() && #[trigger] init[j]
                        == before.data;
                assert(last >= now.seq - frame.seq - 1 + dropped);
            }
        } else if now.seq > frame.seq {
            let j = choose|j: int|
                before.seq - frame.seq - 1 + dropped <= j < init.len() && #[trigger] init[j]
                    == before.data;
            assert(frames[j] == now.data);
        }
    }
}

/// A stream that has just been started drops its first two frames; the frame
/// after them, if it is long enough for an image, answers a request at once.
pub proof fn law_warm_up(dev: DevState, frame: FrameView, frames: Seq<Seq<u8>>)
    requires
        dev.frames == 0,
        frames.len() <= 3,
    ensures
        frames.len() <= WARMUP_FRAMES ==> received(dev, frame, frames).1 == frame,
        frames.len() == 3 && frames[2].len() >= 4 ==> {
            let (_, now) = received(dev, frame, frames);
            &&& now == (FrameView { data: frames[2], seq: frame.seq + 1, index: 2 })
            &&& forall|attached: bool, waited: int, overflows: u32|
                #[trigger] poll_spec(now, frame.seq as int, 0, attached, waited, overflows)
                    == PollView::Deliver(frames[2])
        },
{
    reveal_with_fuel(received, 4);
}

/// A request waits only for an attached camera, and never past the time limit.
pub proof fn law_wait_is_bounded(
    frame: FrameView,
    start_seq: int,
    skip: int,
    attached: bool,
    waited: int,
    overflows: u32,
)
    ensures
        poll_spec(frame, start_seq, skip, attached, waited, overflows) matches PollView::Wait(n)
            ==> attached && n > 0 && waited + n == FRAME_TIMEOUT,
        frame.seq <= start_seq + skip && (!attached || waited >= FRAME_TIMEOUT) ==> poll_spec(
            frame,
            start_seq,
            skip,
            attached,
            waited,
            overflows,
        ) is Fail,
{
}

/// The configured frame rate is asked for first, and the camera's default is
/// the last resort: every attempt to open a stream ends with it.
pub proof fn law_default_rate_is_the_last_resort(wanted_fps: Option<u16>)
    ensures
        wanted_fps matches Some(fps) ==> rate_to_try_spec(wanted_fps, 0) == Some(fps),
        ({
            let last: nat = if wanted_fps is Some {
                1
            } else {
                0
            };
            &&& rate_to_try_spec(wanted_fps, last) == Some(0u16)
            &&& forall|n: nat| n > last ==> #[trigger] rate_to_try_spec(wanted_fps, n) is None
        }),
{
}

/// The frame rates that are tried, and what comes of it, when the attempts
/// from number `refused` on turn out as `outcomes` say.
pub open spec fn attempts(
    wanted_fps: Option<u16>,
    refused: nat,
    fps: u16,
    outcomes: Seq<Result<(), Seq<char>>>,
) -> (Seq<u16>, Option<Result<(), Seq<char>>>)
    decreases outcomes.len(),
{
    if outcomes.len() == 0 {
        (Seq::empty(), None)
    } else {
        match after_attempt_spec(wanted_fps, refused, outcomes[0]) {
            AttemptView::Opened => (seq![fps], Some(outcomes[0])),
            AttemptView::Failed(e) => (seq![fps], Some(Err(e))),
            AttemptView::Again(rate) => {
                let (rates, result) = attempts(
                    wanted_fps,
                    refused + 1,
                    rate,
                    outcomes.drop_first(),
                );
                (seq![fps] + rates, result)
            },
        }
    }
}

/// A stream is opened at the configured frame rate and, only if that fails, at
/// the camera's default; without a configured rate only at the default. No
/// attempt follows a success, the result is a success exactly where one
/// attempt succeeded, and else it is the error of the last attempt.
pub proof fn law_open_attempts(
    wanted_fps: Option<u16>,
    first: Result<(), Seq<char>>,
    second: Result<(), Seq<char>>,
)
    ensures
        ({
            let rate = rate_to_try_spec(wanted_fps, 0);
            &&& rate is Some
            &&& attempts(wanted_fps, 0, rate->0, seq![first, second]) == (match wanted_fps {
                None => (seq![0u16], Some(first)),
                Some(fps) => if first is Ok {
                    (seq![fps], Some(first))
                } else {
                    (seq![fps, 0u16], Some(second))
                },
            })
        }),
{
    let rate = rate_to_try_spec(wanted_fps, 0)->0;
    let all = seq![first, second];
    let rest = all.drop_first();
    assert(all[0] == first);
    assert(rest[0] == second);
    if wanted_fps is Some && first is Err {
        assert(rate_to_try_spec(wanted_fps, 1) == Some(0u16));
        assert(rate_to_try_spec(wanted_fps, 2) is None);
        assert(attempts(wanted_fps, 1, 0, rest) == (seq![0u16], Some(second)));
        assert(attempts(wanted_fps, 0, rate, all) == (seq![rate] + seq![0u16], Some(second)));
        assert(seq![rate] + seq![0u16] =~= seq![rate, 0u16]);
    }
}

} // verus!
