//! The open stream of the camera and who is using it.
//!
//! The driver announces a disconnect on its own task and must not close a
//! handle that another thread is calling into, so a close that is requested
//! while the handle is in use is left for that thread to perform.

use crate::camera::format::FrameInfo;
use crate::text::{append_int, append_nat, dec_int, dec_nat};
use vstd::prelude::*;
use vstd::string::*;

verus! {

/// The driver's code for success.
pub const ESP_OK: i32 = 0;

/// The driver's code for a call that the present state does not allow, such
/// as starting a stream that runs.
pub const ESP_ERR_INVALID_STATE: i32 = 0x103;

/// The message of a driver call that failed.
pub open spec fn failed_text(what: Seq<char>, rc: int) -> Seq<char> {
    what + " failed: esp_err "@ + dec_int(rc)
}

/// Turns the code of a driver call into a result.
pub fn esp_check(rc: i32, what: &str) -> (r: Result<(), String>)
    ensures
        match r {
            Ok(()) => rc == ESP_OK,
            Err(e) => rc != ESP_OK && e@ == failed_text(what@, rc as int),
        },
{
    if rc == ESP_OK {
        Ok(())
    } else {
        let mut e = String::new();
        e.append(what);
        e.append(" failed: esp_err ");
        append_int(&mut e, rc as i64);
        assert(e@ =~= failed_text(what@, rc as int));
        Err(e)
    }
}

/// Whether the code of a start call means that the stream runs now.
pub fn start_result(rc: i32) -> (r: Result<(), String>)
    ensures
        match r {
            Ok(()) => rc == ESP_OK || rc == ESP_ERR_INVALID_STATE,
            Err(e) => {
                &&& rc != ESP_OK && rc != ESP_ERR_INVALID_STATE
                &&& e@ == "uvc_host_stream_start: esp_err "@ + dec_int(rc as int)
            },
        },
{
    if rc == ESP_OK || rc == ESP_ERR_INVALID_STATE {
        Ok(())
    } else {
        let mut e = String::new();
        e.append("uvc_host_stream_start: esp_err ");
        append_int(&mut e, rc as i64);
        assert(e@ =~= "uvc_host_stream_start: esp_err "@ + dec_int(rc as int));
        Err(e)
    }
}

/// A negotiated format, for the status line.
#[derive(Debug)]
pub struct Negotiated {
    pub width: u16,
    pub height: u16,
    /// Frames per second, rounded.
    pub fps: String,
}

/// The format that the driver reports for an open stream, or where it does
/// not, the one that was asked for.
pub fn negotiated(got: Option<(u32, u32, String)>, format: &FrameInfo, fps: u16) -> (r: Negotiated)
    ensures
        match got {
            Some((w, h, rate)) => r.width == w as u16 && r.height == h as u16 && r.fps == rate,
            None => r.width == format.width && r.height == format.height && r.fps@ == dec_nat(
                fps as nat,
            ),
        },
{
    match got {
        Some((w, h, rate)) => Negotiated {
            width: #[verifier::truncate] (w as u16),
            height: #[verifier::truncate] (h as u16),
            fps: rate,
        },
        None => {
            let mut s = String::new();
            append_nat(&mut s, fps as u64);
            assert(s@ =~= dec_nat(fps as nat));
            Negotiated { width: format.width, height: format.height, fps: s }
        },
    }
}

/// The message of an open call that the driver refused.
pub open spec fn open_failed_text(width: u16, height: u16, fps: u16, rc: int) -> Seq<char> {
    "uvc_host_stream_open "@ + dec_nat(width as nat) + "x"@ + dec_nat(height as nat) + " @ "@
        + dec_nat(fps as nat) + " fps: esp_err "@ + dec_int(rc)
}

/// The message of an open call that the driver refused.
pub fn open_failed(format: &FrameInfo, fps: u16, rc: i32) -> (r: String)
    ensures
        r@ == open_failed_text(format.width, format.height, fps, rc as int),
{
    let mut s = String::new();
    s.append("uvc_host_stream_open ");
    append_nat(&mut s, format.width as u64);
    s.append("x");
    append_nat(&mut s, format.height as u64);
    s.append(" @ ");
    append_nat(&mut s, fps as u64);
    s.append(" fps: esp_err ");
    append_int(&mut s, rc as i64);
    assert(s@ =~= open_failed_text(format.width, format.height, fps, rc as int));
    s
}

/// The open stream and who is using it. A handle is a number that the driver
/// gave out.
#[derive(Debug)]
pub struct DevState {
    pub handle: Option<usize>,
    /// A driver call is in flight.
    pub in_use: bool,
    /// The camera left during that call, which closes the handle when it ends.
    pub pending_close: bool,
    pub running: bool,
    /// Frames received since the stream was last started.
    pub frames: u32,
    /// Negotiated format, for the status line.
    pub format: Option<Negotiated>,
}

/// How an attempt to open the stream ends.
#[derive(Debug, Clone, Copy, PartialEq, Eq, Structural)]
pub enum OpenEnd {
    /// The driver refused.
    Refused,
    /// The camera left while it was being opened: the new handle is to be
    /// closed.
    Left,
    /// The stream is open: its handle and format are to be stored.
    Opened,
}

/// Why a driver call on the handle cannot be made.
#[derive(Debug, Clone, Copy, PartialEq, Eq, Structural)]
pub enum Denied {
    Busy,
    NoCamera,
}

impl Denied {
    pub fn text(&self) -> (r: &'static str)
        ensures
            r@ == (match *self {
                Denied::Busy => "camera busy"@,
                Denied::NoCamera => "no camera attached"@,
            }),
    {
        match self {
            Denied::Busy => "camera busy",
            Denied::NoCamera => "no camera attached",
        }
    }
}

impl DevState {
    /// A stream runs only on a handle, and a close is pending only while a
    /// call is in flight.
    pub open spec fn wf(self) -> bool {
        &&& self.running ==> self.handle is Some
        &&& self.pending_close ==> self.in_use
    }

    /// No camera.
    pub open spec fn initial() -> DevState {
        DevState {
            handle: None,
            in_use: false,
            pending_close: false,
            running: false,
            frames: 0,
            format: None,
        }
    }

    /// The state after a disconnect, and the handle to close, if it falls to
    /// the driver's task to close it.
    pub open spec fn disconnected_spec(self) -> (DevState, Option<usize>) {
        let left = DevState { running: false, format: None, ..self };
        if self.in_use {
            (DevState { pending_close: true, ..left }, None)
        } else {
            (DevState { handle: None, ..left }, self.handle)
        }
    }

    pub open spec fn begin_open_spec(self) -> DevState {
        DevState { in_use: true, pending_close: false, ..self }
    }

    pub open spec fn end_open_spec(self, rc: i32) -> (DevState, OpenEnd) {
        (
            DevState { in_use: false, pending_close: false, ..self },
            if rc != ESP_OK {
                OpenEnd::Refused
            } else if self.pending_close {
                OpenEnd::Left
            } else {
                OpenEnd::Opened
            },
        )
    }

    pub open spec fn opened_spec(self, handle: usize, format: Negotiated) -> DevState {
        DevState { handle: Some(handle), running: false, frames: 0, format: Some(format), ..self }
    }

    pub open spec fn acquire_spec(self) -> (DevState, Result<usize, Denied>) {
        if self.in_use {
            (self, Err(Denied::Busy))
        } else {
            match self.handle {
                Some(h) => (DevState { in_use: true, ..self }, Ok(h)),
                None => (self, Err(Denied::NoCamera)),
            }
        }
    }

    /// The state after a driver call, and whether the caller has to close the
    /// handle because the camera left during the call.
    pub open spec fn release_spec(self) -> (DevState, bool) {
        if self.pending_close {
            (
                DevState {
                    in_use: false,
                    pending_close: false,
                    handle: None,
                    running: false,
                    ..self
                },
                true,
            )
        } else {
            (DevState { in_use: false, ..self }, false)
        }
    }

    pub open spec fn started_spec(self) -> DevState {
        if self.handle is Some {
            DevState { running: true, frames: 0, ..self }
        } else {
            self
        }
    }

    pub open spec fn stopped_spec(self) -> DevState {
        DevState { running: false, ..self }
    }

    /// The state after a frame has come in, and the frame's index within the
    /// run of the stream.
    pub open spec fn frame_spec(self) -> (DevState, u32) {
        if self.frames == u32::MAX {
            (self, (u32::MAX - 1) as u32)
        } else {
            (DevState { frames: (self.frames + 1) as u32, ..self }, self.frames)
        }
    }

    pub fn new() -> (r: DevState)
        ensures
            r == DevState::initial(),
            r.wf(),
    {
        DevState {
            handle: None,
            in_use: false,
            pending_close: false,
            running: false,
            frames: 0,
            format: None,
        }
    }

    /// The camera left. Returns the handle to close now; where a driver call
    /// is in flight, the thread that made it closes the handle instead.
    pub fn disconnected(&mut self) -> (r: Option<usize>)
        ensures
            (*final(self), r) == old(self).disconnected_spec(),
            old(self).wf() ==> final(self).wf(),
    {
        self.running = false;
        self.format = None;
        if self.in_use {
            self.pending_close = true;
            None
        } else {
            let h = self.handle;
            self.handle = None;
            h
        }
    }

    /// A stream is about to be opened.
    pub fn begin_open(&mut self)
        ensures
            *final(self) == old(self).begin_open_spec(),
            old(self).wf() ==> final(self).wf(),
    {
        self.in_use = true;
        self.pending_close = false;
    }

    /// The open call has returned `rc`.
    pub fn end_open(&mut self, rc: i32) -> (r: OpenEnd)
        ensures
            (*final(self), r) == old(self).end_open_spec(rc),
            old(self).wf() ==> final(self).wf(),
    {
        self.in_use = false;
        let left = self.pending_close;
        self.pending_close = false;
        if rc != ESP_OK {
            OpenEnd::Refused
        } else if left {
            OpenEnd::Left
        } else {
            OpenEnd::Opened
        }
    }

    /// The stream is open.
    pub fn opened(&mut self, handle: usize, format: Negotiated)
        ensures
            *final(self) == old(self).opened_spec(handle, format),
            old(self).wf() ==> final(self).wf(),
    {
        self.handle = Some(handle);
        self.running = false;
        self.frames = 0;
        self.format = Some(format);
    }

    /// Takes the handle for a driver call.
    pub fn acquire(&mut self) -> (r: Result<usize, Denied>)
        ensures
            (*final(self), r) == old(self).acquire_spec(),
            old(self).wf() ==> final(self).wf(),
    {
        if self.in_use {
            return Err(Denied::Busy);
        }
        match self.handle {
            Some(h) => {
                self.in_use = true;
                Ok(h)
            },
            None => Err(Denied::NoCamera),
        }
    }

    /// The driver call has returned. Where this is `true` the camera left
    /// meanwhile, and the caller closes the handle.
    pub fn release(&mut self) -> (r: bool)
        ensures
            (*final(self), r) == old(self).release_spec(),
            old(self).wf() ==> final(self).wf(),
    {
        self.in_use = false;
        if self.pending_close {
            self.pending_close = false;
            self.handle = None;
            self.running = false;
            true
        } else {
            false
        }
    }

    /// The stream has been started, unless its camera has left since.
    pub fn started(&mut self)
        ensures
            *final(self) == old(self).started_spec(),
            old(self).wf() ==> final(self).wf(),
    {
        if self.handle.is_some() {
            self.running = true;
            self.frames = 0;
        }
    }

    /// The stream has been stopped.
    pub fn stopped(&mut self)
        ensures
            *final(self) == old(self).stopped_spec(),
            old(self).wf() ==> final(self).wf(),
    {
        self.running = false;
    }

    /// Counts a frame; returns its index within the run of the stream.
    pub fn frame_received(&mut self) -> (r: u32)
        ensures
            (*final(self), r) == old(self).frame_spec(),
            old(self).wf() ==> final(self).wf(),
    {
        self.frames = self.frames.saturating_add(1);
        self.frames - 1
    }
}

/// The result of a driver call on the handle, once the handle has been given
/// back: a camera that left takes precedence over what the call returned.
pub fn call_result(result: Result<(), String>, detached: bool) -> (r: Result<(), String>)
    ensures
        !detached ==> r == result,
        detached ==> (r matches Err(e) && e@ == "camera detached"@),
{
    if detached {
        Err("camera detached".to_owned())
    } else {
        result
    }
}

} // verus!
