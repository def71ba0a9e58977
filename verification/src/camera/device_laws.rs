//! How the uses of the stream relate to each other.

use crate::camera::device::{
    failed_text, open_failed_text, Denied, DevState, Negotiated, OpenEnd, ESP_ERR_INVALID_STATE,
    ESP_OK,
};
use crate::text::{dec_int, dec_nat};
use vstd::prelude::*;
use vstd::string::*;

verus! {

/// The handle goes to one user at a time: a free one is handed out, and once
/// handed out it is refused until it is given back, which restores the state.
/// Without a handle there is no camera.
pub proof fn law_one_user_at_a_time(dev: DevState, handle: usize)
    ensures
        dev.in_use ==> dev.acquire_spec() == (dev, Err::<usize, _>(Denied::Busy)),
        !dev.in_use && dev.handle is None ==> dev.acquire_spec() == (
            dev,
            Err::<usize, _>(Denied::NoCamera),
        ),
        !dev.in_use && dev.handle == Some(handle) ==> {
            let (taken, r) = dev.acquire_spec();
            &&& r == Ok::<_, Denied>(handle)
            &&& taken == (DevState { in_use: true, ..dev })
            &&& taken.acquire_spec() == (taken, Err::<usize, _>(Denied::Busy))
            &&& !dev.pending_close ==> taken.release_spec() == (dev, false)
        },
{
}

/// A camera that leaves while its handle is free has the handle closed at once;
/// one that leaves while the handle is in use has it closed by the user who
/// gives it back. Either way no handle is left, nothing runs, and nobody gets
/// the handle any more.
pub proof fn law_camera_leaves(dev: DevState)
    ensures
        !dev.in_use ==> {
            let (left, close) = dev.disconnected_spec();
            &&& close == dev.handle
            &&& left == (DevState { handle: None, running: false, format: None, ..dev })
            &&& left.acquire_spec().1 == Err::<usize, _>(Denied::NoCamera)
        },
        dev.in_use ==> {
            let (left, close) = dev.disconnected_spec();
            let (back, must_close) = left.release_spec();
            &&& close is None
            &&& left == (DevState { pending_close: true, running: false, format: None, ..dev })
            &&& must_close
            &&& back == (DevState {
                handle: None,
                in_use: false,
                pending_close: false,
                running: false,
                format: None,
                ..dev
            })
            &&& back.acquire_spec().1 == Err::<usize, _>(Denied::NoCamera)
        },
        !dev.pending_close ==> dev.release_spec() == (DevState { in_use: false, ..dev }, false),
{
}

/// A stream that is being opened is in use; a failed call leaves the state as
/// it was, one for a camera that left meanwhile leaves a handle to close, and
/// any other opens the stream, whose handle the next user gets.
pub proof fn law_opening(dev: DevState, rc: i32, handle: usize, format: Negotiated)
    requires
        !dev.in_use,
        !dev.pending_close,
    ensures
        ({
            let opening = dev.begin_open_spec();
            &&& opening == (DevState { in_use: true, ..dev })
            &&& opening.acquire_spec().1 == Err::<usize, _>(Denied::Busy)
            &&& opening.end_open_spec(rc) == (dev, if rc == 0 {
                OpenEnd::Opened
            } else {
                OpenEnd::Refused
            })
            &&& opening.disconnected_spec().0.end_open_spec(rc) == (
                DevState { running: false, format: None, ..dev },
                if rc == 0 {
                    OpenEnd::Left
                } else {
                    OpenEnd::Refused
                },
            )
            &&& dev.opened_spec(handle, format) == (DevState {
                handle: Some(handle),
                in_use: false,
                pending_close: false,
                running: false,
                frames: 0,
                format: Some(format),
            })
            &&& dev.opened_spec(handle, format).acquire_spec().1 == Ok::<_, Denied>(handle)
        }),
        forall|any: DevState|
            #![trigger any.begin_open_spec()]
            any.begin_open_spec() == (DevState { in_use: true, pending_close: false, ..any }),
        forall|any: DevState|
            #![trigger any.end_open_spec(rc)]
            any.end_open_spec(rc).0 == (DevState { in_use: false, pending_close: false, ..any })
                && any.end_open_spec(rc).1 == (if rc != 0 {
                OpenEnd::Refused
            } else if any.pending_close {
                OpenEnd::Left
            } else {
                OpenEnd::Opened
            }),
{
}

/// A stream that is started runs and counts its frames from zero; without a
/// handle nothing starts. One that is stopped does not run. Nothing else
/// changes.
pub proof fn law_start_and_stop(dev: DevState)
    ensures
        dev.handle is Some ==> dev.started_spec() == (DevState { running: true, frames: 0, ..dev }),
        dev.handle is None ==> dev.started_spec() == dev,
        dev.stopped_spec() == (DevState { running: false, ..dev }),
        DevState::initial().handle is None && !DevState::initial().in_use
            && !DevState::initial().pending_close && !DevState::initial().running
            && DevState::initial().frames == 0 && DevState::initial().format is None,
{
}

/// The frames of a run have the indices 0, 1, 2 and so on; the count does not
/// wrap around.
pub proof fn law_frame_indices(dev: DevState)
    ensures
        dev.frames < u32::MAX ==> dev.frame_spec() == (
            DevState { frames: (dev.frames + 1) as u32, ..dev },
            dev.frames,
        ),
        dev.frames == u32::MAX ==> dev.frame_spec() == (dev, 0xffff_fffeu32),
        dev.handle is Some ==> {
            let (one, first) = dev.started_spec().frame_spec();
            let (two, second) = one.frame_spec();
            first == 0 && second == 1 && two.frames == 2
        },
{
}

/// The messages of driver calls that failed.
pub proof fn law_messages(what: Seq<char>, width: u16, height: u16, fps: u16, rc: int)
    ensures
        failed_text(what, rc) == what + " failed: esp_err "@ + dec_int(rc),
        open_failed_text(width, height, fps, rc) == "uvc_host_stream_open "@ + dec_nat(
            width as nat,
        ) + "x"@ + dec_nat(height as nat) + " @ "@ + dec_nat(fps as nat) + " fps: esp_err "@
            + dec_int(rc),
        ESP_OK == 0,
        ESP_ERR_INVALID_STATE == 259,
{
}

} // verus!
