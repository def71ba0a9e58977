//! All that is known of the camera, and how it changes.

use crate::camera::device::{DevState, Denied, Negotiated, OpenEnd};
use crate::camera::format::{
    choose_format, frame_list, is_chosen, is_frame_info, is_size, listed_len, FrameInfo, RawFrame,
};
use crate::camera::frames::{
    is_kept, poll_spec, timeout_message, Frame, FrameView, Poll, FRAME_TIMEOUT,
};
use crate::camera::memory::{clone_pairs, remember, remembered};
use crate::controls::apply::{apply_settings, begin_spec, Apply};
use crate::controls::report::{report_plan, report_transfers, transfer_views};
use crate::controls::transfer::{failure_view, vc_or_fail, vc_or_fail_spec, Failure, Transfer};
use crate::text::{append_nat, dec_nat, pair_texts};
use crate::uvc::descriptor::{parse_vc, parse_vc_spec, VcInfo};
use crate::uvc::table::control_table;
use vstd::prelude::*;
use vstd::string::*;

verus! {

/// A running stream is stopped when nobody has asked for a frame for more
/// than this many nanoseconds.
pub const IDLE_STOP: u128 = 10_000_000_000;

/// The camera announced by the driver, before its stream is opened.
#[derive(Debug)]
pub struct Connected {
    pub dev_addr: u8,
    pub stream_index: u8,
    pub formats: Vec<FrameInfo>,
}

/// What the thread that opens streams does next.
#[derive(Debug)]
pub enum NextOpen {
    /// Wait for a camera without an open stream.
    Wait,
    /// The camera offers no MJPEG format.
    Unsupported,
    Open {
        dev_addr: u8,
        stream_index: u8,
        format: FrameInfo,
        /// The camera does not offer the configured size.
        substituted: bool,
    },
}

/// The one camera of the adapter.
#[derive(Debug)]
pub struct Camera {
    pub dev: DevState,
    /// The latest frame.
    pub frame: Frame,
    pub connected: Option<Connected>,
    pub attached: bool,
    /// Frames that exceeded their buffer since the stream was opened.
    pub overflows: u32,
    /// The configured frame size.
    pub wanted: Option<(u16, u16)>,
    /// The configured frame rate.
    pub wanted_fps: Option<u16>,
    /// VideoControl interface and units of the attached camera.
    pub vc: Option<VcInfo>,
    /// Query parameters last applied successfully; re-applied when the
    /// camera is plugged in again.
    pub last_settings: Vec<(String, String)>,
}

/// Whether `r` is what is to be done about the announced camera.
pub open spec fn is_next_open(
    r: NextOpen,
    conn: Option<Connected>,
    has_stream: bool,
    wanted: Option<(u16, u16)>,
) -> bool {
    match conn {
        None => r is Wait,
        Some(c) => if has_stream {
            r is Wait
        } else if forall|i: int| 0 <= i < c.formats.len() ==> !(#[trigger] c.formats@[i]).mjpeg {
            r is Unsupported
        } else {
            &&& r matches NextOpen::Open { dev_addr, stream_index, format, substituted }
            &&& dev_addr == c.dev_addr
            &&& stream_index == c.stream_index
            &&& exists|i: int|
                #[trigger] is_chosen(c.formats@, wanted, i) && format == c.formats@[i]
            &&& substituted == (wanted matches Some(size) && !is_size(format, size))
        },
    }
}

fn clone_formats(formats: &Vec<FrameInfo>) -> (r: Vec<FrameInfo>)
    ensures
        r@ == formats@,
{
    let mut out: Vec<FrameInfo> = Vec::new();
    let mut i: usize = 0;
    while i < formats.len()
        invariant
            i <= formats.len(),
            out@ == formats@.take(i as int),
        decreases formats.len() - i,
    {
        out.push(formats[i].clone());
        i = i + 1;
        assert(out@ =~= formats@.take(i as int));
    }
    assert(out@ =~= formats@);
    out
}

impl Camera {
    /// The line for the status display.
    pub open spec fn status_text(self) -> Seq<char> {
        if self.attached {
            match self.dev.format {
                Some(f) => "MJPEG "@ + dec_nat(f.width as nat) + "x"@ + dec_nat(f.height as nat)
                    + " @ "@ + f.fps@ + " fps, "@ + (if self.dev.running {
                    "streaming"@
                } else {
                    "idle"@
                }),
                None => "attached"@,
            }
        } else if self.connected is Some {
            "enumerated, opening"@
        } else {
            "detached"@
        }
    }

    /// The camera after a disconnect, and the handle to close now.
    pub open spec fn disconnected_spec(self) -> (Camera, Option<usize>) {
        let (dev, close) = self.dev.disconnected_spec();
        (Camera { attached: false, connected: None, vc: None, dev, ..self }, close)
    }

    /// Whether `after` is the camera once a stream has been opened.
    pub open spec fn opened_to(self, after: Camera, handle: usize, format: Negotiated) -> bool {
        &&& after.frame@ == (FrameView { seq: 0, ..self.frame@ })
        &&& after == (Camera {
            dev: self.dev.opened_spec(handle, format),
            frame: after.frame,
            attached: true,
            overflows: 0,
            ..self
        })
    }

    /// Whether `after` is the camera once a frame has come in.
    pub open spec fn received_to(self, after: Camera, data: Seq<u8>) -> bool {
        let (dev, index) = self.dev.frame_spec();
        &&& after.frame@ == self.frame@.stored(index, data)
        &&& after == (Camera { dev, frame: after.frame, ..self })
    }

    /// The camera of an adapter that has just started, before one is plugged
    /// in.
    pub fn start(resolution: Option<(u16, u16)>, fps: Option<u16>) -> (r: Camera)
        ensures
            r.dev == DevState::initial(),
            r.frame@ == (FrameView { data: Seq::empty(), seq: 0, index: 0 }),
            r.connected is None,
            !r.attached,
            r.overflows == 0,
            r.wanted == resolution,
            r.wanted_fps == fps,
            r.vc is None,
            pair_texts(r.last_settings@) == Seq::<(Seq<char>, Seq<char>)>::empty(),
    {
        let last_settings: Vec<(String, String)> = Vec::new();
        assert(pair_texts(last_settings@) =~= Seq::empty());
        Camera {
            dev: DevState::new(),
            frame: Frame::new(),
            connected: None,
            attached: false,
            overflows: 0,
            wanted: resolution,
            wanted_fps: fps,
            vc: None,
            last_settings,
        }
    }

    /// The driver has announced a UVC function, with the frame list that it
    /// filled in (see [`frame_list`]). Only the first UVC function of the
    /// first camera is used; returns whether this one is.
    pub fn device_connected(
        &mut self,
        dev_addr: u8,
        stream_index: u8,
        raw: &Vec<RawFrame>,
        listed: Option<usize>,
    ) -> (r: bool)
        ensures
            r == (old(self).connected is None),
            !r ==> *final(self) == *old(self),
            r ==> *final(self) == (Camera { connected: final(self).connected, ..*old(self) }),
            r ==> {
                &&& final(self).connected matches Some(c)
                &&& c.dev_addr == dev_addr
                &&& c.stream_index == stream_index
                &&& c.formats.len() == listed_len(raw@.len(), listed)
                &&& forall|i: int|
                    0 <= i < c.formats.len() ==> is_frame_info(#[trigger] c.formats@[i], raw@[i])
            },
    {
        if self.connected.is_some() {
            return false;
        }
        let formats = frame_list(raw, listed);
        self.connected = Some(Connected { dev_addr, stream_index, formats });
        true
    }

    /// The camera left. Returns the handle to close now; where a driver call
    /// is in flight, the thread that made it closes the handle instead.
    pub fn device_disconnected(&mut self) -> (r: Option<usize>)
        ensures
            (*final(self), r) == old(self).disconnected_spec(),
    {
        self.attached = false;
        self.connected = None;
        self.vc = None;
        self.dev.disconnected()
    }

    /// A frame exceeded its buffer. Returns the number of such frames where
    /// it is worth a message: for the first one, and then every fiftieth.
    pub fn frame_overflow(&mut self) -> (r: Option<u32>)
        requires
            old(self).overflows < u32::MAX,
        ensures
            *final(self) == (Camera { overflows: (old(self).overflows + 1) as u32, ..*old(self) }),
            r == (if final(self).overflows == 1 || final(self).overflows % 50 == 0 {
                Some(final(self).overflows)
            } else {
                None
            }),
    {
        self.overflows = self.overflows + 1;
        if self.overflows == 1 || self.overflows % 50 == 0 {
            Some(self.overflows)
        } else {
            None
        }
    }

    /// A complete frame has come in. Returns whether it became the latest
    /// frame.
    pub fn frame_received(&mut self, data: &[u8]) -> (r: bool)
        requires
            is_kept(old(self).dev.frame_spec().1, data@.len()) ==> old(self).frame.seq < u64::MAX,
        ensures
            old(self).received_to(*final(self), data@),
            r == is_kept(old(self).dev.frame_spec().1, data@.len()),
    {
        let index = self.dev.frame_received();
        self.frame.store(index, data)
    }

    /// Decides on opening a stream.
    pub fn next_open(&self) -> (r: NextOpen)
        ensures
            is_next_open(r, self.connected, self.dev.handle is Some, self.wanted),
    {
        match &self.connected {
            None => NextOpen::Wait,
            Some(c) => {
                if self.dev.handle.is_some() {
                    return NextOpen::Wait;
                }
                match choose_format(c.formats.as_slice(), self.wanted) {
                    None => NextOpen::Unsupported,
                    Some(format) => {
                        let substituted: bool = match self.wanted {
                            Some(size) => format.width != size.0 || format.height != size.1,
                            None => false,
                        };
                        proof {
                            let i = choose|i: int|
                                #[trigger] is_chosen(c.formats@, self.wanted, i) && format
                                    == c.formats@[i];
                            assert(c.formats@[i].mjpeg);
                        }
                        NextOpen::Open {
                            dev_addr: c.dev_addr,
                            stream_index: c.stream_index,
                            format,
                            substituted,
                        }
                    },
                }
            },
        }
    }

    /// A stream is about to be opened.
    pub fn begin_open(&mut self)
        ensures
            *final(self) == (Camera { dev: old(self).dev.begin_open_spec(), ..*old(self) }),
    {
        self.dev.begin_open();
    }

    /// The open call has returned `rc`.
    pub fn end_open(&mut self, rc: i32) -> (r: OpenEnd)
        ensures
            *final(self) == (Camera { dev: old(self).dev.end_open_spec(rc).0, ..*old(self) }),
            r == old(self).dev.end_open_spec(rc).1,
    {
        self.dev.end_open(rc)
    }

    /// The stream is open.
    pub fn opened(&mut self, handle: usize, format: Negotiated)
        ensures
            old(self).opened_to(*final(self), handle, format),
    {
        self.dev.opened(handle, format);
        self.frame.restart();
        self.overflows = 0;
        self.attached = true;
    }

    /// The configuration descriptor of the camera has been read, if it could
    /// be. Returns the parameters to apply again, since UVC settings do not
    /// survive unplugging.
    pub fn descriptor_read(&mut self, config: Option<Vec<u8>>) -> (again: Vec<(String, String)>)
        ensures
            *final(self) == (Camera {
                vc: match config {
                    Some(bytes) => parse_vc_spec(bytes@),
                    None => None,
                },
                ..*old(self)
            }),
            pair_texts(again@) == pair_texts(old(self).last_settings@),
    {
        self.vc = match config {
            Some(bytes) => parse_vc(bytes.as_slice()),
            None => None,
        };
        clone_pairs(&self.last_settings)
    }

    /// Takes the handle for a driver call.
    pub fn acquire(&mut self) -> (r: Result<usize, Denied>)
        ensures
            *final(self) == (Camera { dev: old(self).dev.acquire_spec().0, ..*old(self) }),
            r == old(self).dev.acquire_spec().1,
    {
        self.dev.acquire()
    }

    /// The driver call has returned. Where this is `true` the camera left
    /// meanwhile, and the caller closes the handle.
    pub fn release(&mut self) -> (r: bool)
        ensures
            *final(self) == (Camera { dev: old(self).dev.release_spec().0, ..*old(self) }),
            r == old(self).dev.release_spec().1,
    {
        self.dev.release()
    }

    /// The stream has been started, unless its camera has left since.
    pub fn stream_started(&mut self)
        ensures
            *final(self) == (Camera { dev: old(self).dev.started_spec(), ..*old(self) }),
    {
        self.dev.started();
    }

    /// The stream has been stopped.
    pub fn stream_stopped(&mut self)
        ensures
            *final(self) == (Camera { dev: old(self).dev.stopped_spec(), ..*old(self) }),
    {
        self.dev.stopped();
    }

    /// Whether the stream is to be stopped, `since_request` nanoseconds after
    /// the last request for a frame.
    pub fn is_idle(&self, since_request: u128) -> (r: bool)
        ensures
            r == (self.dev.running && since_request > IDLE_STOP),
    {
        self.dev.running && since_request > IDLE_STOP
    }

    pub fn is_attached(&self) -> (r: bool)
        ensures
            r == self.attached,
    {
        self.attached
    }

    /// Takes up a request for a frame; returns the number of the frame that
    /// is the latest now.
    pub fn begin_snapshot(&self) -> (r: Result<u64, String>)
        ensures
            match r {
                Ok(seq) => self.attached && seq == self.frame.seq,
                Err(e) => !self.attached && e@ == "no camera attached"@,
            },
    {
        if self.attached {
            Ok(self.frame.seq)
        } else {
            Err("no camera attached".to_owned())
        }
    }

    /// Decides on a request for one frame captured after the request came,
    /// `waited` nanoseconds after the stream was found running. `skip` more
    /// frames are let pass first (after a settings change, the camera needs a
    /// frame or two to apply it).
    pub fn poll_snapshot(&self, start_seq: u64, skip: u64, waited: u128) -> (r: Poll)
        requires
            start_seq + skip <= u64::MAX,
        ensures
            r@ == poll_spec(
                self.frame@,
                start_seq as int,
                skip as int,
                self.attached,
                waited as int,
                self.overflows,
            ),
    {
        if self.frame.seq > start_seq + skip {
            Poll::Deliver(vstd::slice::slice_to_vec(self.frame.data.as_slice()))
        } else if !self.attached {
            Poll::Fail("camera detached".to_owned())
        } else if waited >= FRAME_TIMEOUT {
            Poll::Fail(timeout_message(self.overflows))
        } else {
            Poll::Wait(FRAME_TIMEOUT - waited)
        }
    }

    /// One line for the status display.
    pub fn describe(&self) -> (r: String)
        ensures
            r@ == self.status_text(),
    {
        if self.attached {
            match &self.dev.format {
                Some(f) => {
                    let mut s = String::new();
                    s.append("MJPEG ");
                    append_nat(&mut s, f.width as u64);
                    s.append("x");
                    append_nat(&mut s, f.height as u64);
                    s.append(" @ ");
                    s.append(f.fps.as_str());
                    s.append(" fps, ");
                    if self.dev.running {
                        s.append("streaming");
                    } else {
                        s.append("idle");
                    }
                    assert(s@ =~= self.status_text());
                    s
                },
                None => "attached".to_owned(),
            }
        } else if self.connected.is_some() {
            "enumerated, opening".to_owned()
        } else {
            "detached".to_owned()
        }
    }

    pub fn vc_info(&self) -> (r: Option<VcInfo>)
        ensures
            r == self.vc,
    {
        self.vc
    }

    /// Takes note of parameters that have been applied.
    pub fn remember_settings(&mut self, params: &[(String, String)])
        ensures
            *final(self) == (Camera { last_settings: final(self).last_settings, ..*old(self) }),
            pair_texts(final(self).last_settings@) == remembered(
                pair_texts(old(self).last_settings@),
                pair_texts(params@),
            ),
    {
        remember(&mut self.last_settings, params);
    }

    /// The parameters of a request have been dealt with: they are remembered
    /// where every one of them was applied, and not otherwise.
    pub fn settings_finished(
        &mut self,
        params: &[(String, String)],
        result: &Result<Vec<String>, Failure>,
    )
        ensures
            *final(self) == (Camera { last_settings: final(self).last_settings, ..*old(self) }),
            result is Err ==> *final(self) == *old(self),
            result is Ok ==> pair_texts(final(self).last_settings@) == remembered(
                pair_texts(old(self).last_settings@),
                pair_texts(params@),
            ),
    {
        if result.is_ok() {
            self.remember_settings(params);
        }
    }

    /// The formats the attached camera offers (empty when detached).
    pub fn formats(&self) -> (r: Vec<FrameInfo>)
        ensures
            r@ == (match self.connected {
                Some(c) => c.formats@,
                None => Seq::empty(),
            }),
    {
        match &self.connected {
            Some(c) => clone_formats(&c.formats),
            None => {
                let none: Vec<FrameInfo> = Vec::new();
                assert(none@ =~= Seq::empty());
                none
            },
        }
    }

    /// Starts to apply query parameters.
    pub fn apply_settings(&self, params: &[(String, String)]) -> (r: Apply)
        ensures
            r@ == begin_spec(pair_texts(params@), self.attached, self.vc),
            r matches Apply::Send(job, _) ==> job@.valid(),
    {
        apply_settings(params, self.attached, self.vc)
    }

    /// The transfers to make for a report on the controls, and the interface
    /// that they go to.
    pub fn controls_plan(&self) -> (r: Result<(VcInfo, Vec<Transfer>), Failure>)
        ensures
            match r {
                Ok((vc, plan)) => {
                    &&& vc_or_fail_spec(self.attached, self.vc) == Ok::<_, (u16, Seq<char>)>(vc)
                    &&& transfer_views(plan@) == report_transfers(vc, control_table())
                },
                Err(f) => vc_or_fail_spec(self.attached, self.vc) == Err::<VcInfo, _>(
                    failure_view(f),
                ),
            },
    {
        match vc_or_fail(self.attached, self.vc) {
            Ok(vc) => Ok((vc, report_plan(&vc))),
            Err(f) => Err(f),
        }
    }
}

/// The total length that a configuration descriptor gives in its third and
/// fourth byte.
pub fn config_total_length(low: u8, high: u8) -> (r: usize)
    ensures
        r == low + 256 * high,
{
    low as usize + 256 * high as usize
}

} // verus!
