//! Serving one connection: collecting the request head, and deciding on the
//! response. `GET /` answers with one JPEG frame from the camera.

pub mod answer;
pub mod laws;

use crate::controls::apply::{begin_spec, requested, ApplyView};
use crate::controls::transfer::Failure;
use crate::http::laws::{
    law_body_follows_head, law_head_stands_alone, lemma_head_grows, one_line,
};
use crate::http::{
    head_len, head_len_spec, late_blank_line, parse_request, parse_request_spec, path_text,
    response_head, response_head_text, route, route_spec, text_response, text_response_spec,
    Request, Route, MAX_HEAD,
};
use crate::text::same;
use crate::uvc::descriptor::VcInfo;
use vstd::prelude::*;
use vstd::string::*;
use vstd::utf8::*;

verus! {

/// What reading from a connection gave.
pub enum Input<'a> {
    /// Bytes; none at the end of the stream.
    Data(&'a [u8]),
    TimedOut,
    Failed,
}

/// The part of a request head that has been received.
pub struct HeadReader {
    head: Vec<u8>,
}

impl View for HeadReader {
    type V = Seq<u8>;

    closed spec fn view(&self) -> Seq<u8> {
        self.head@
    }
}

/// What happens after reading from a connection.
pub enum ReadStep {
    /// Read on.
    More(HeadReader),
    /// The client went away.
    Gone,
    /// The request head.
    Complete(Vec<u8>),
    /// The response to a request whose head is not accepted.
    Refused(Vec<u8>),
}

/// The contents of a [`ReadStep`].
pub enum ReadView {
    More(Seq<u8>),
    Gone,
    Complete(Seq<u8>),
    Refused(Seq<u8>),
}

impl View for ReadStep {
    type V = ReadView;

    open spec fn view(&self) -> ReadView {
        match *self {
            ReadStep::More(reader) => ReadView::More(reader@),
            ReadStep::Gone => ReadView::Gone,
            ReadStep::Complete(head) => ReadView::Complete(head@),
            ReadStep::Refused(response) => ReadView::Refused(response@),
        }
    }
}

/// What happens once `bytes` have been received: a complete head is cut off
/// behind its blank line; a head that is longer than [`MAX_HEAD`] is refused
/// as soon as that is known.
pub open spec fn collected(bytes: Seq<u8>) -> ReadView {
    let refused = ReadView::Refused(text_response_spec(431, "request head too large"@));
    match head_len_spec(bytes) {
        Some(n) => if n <= MAX_HEAD {
            ReadView::Complete(bytes.take(n))
        } else {
            refused
        },
        None => if bytes.len() > MAX_HEAD {
            refused
        } else {
            ReadView::More(bytes)
        },
    }
}

/// What happens after another read.
pub open spec fn read_spec(head: Seq<u8>, input: Input<'_>) -> ReadView {
    match input {
        Input::Data(bytes) => if bytes@.len() == 0 {
            ReadView::Gone
        } else {
            collected(head + bytes@)
        },
        Input::TimedOut => ReadView::Refused(text_response_spec(408, "request timeout"@)),
        Input::Failed => ReadView::Gone,
    }
}

impl HeadReader {
    /// The head is not complete, and not too long yet.
    #[verifier::type_invariant]
    spec fn inv(self) -> bool {
        collected(self@) == ReadView::More(self@)
    }

    /// Nothing has been received.
    pub fn new() -> (r: HeadReader)
        ensures
            r@ == Seq::<u8>::empty(),
    {
        let head: Vec<u8> = Vec::new();
        proof {
            assert(head@ =~= Seq::empty());
            lemma_nothing_collected();
        }
        HeadReader { head }
    }

    /// Takes in the result of a read.
    pub fn read(self, input: Input<'_>) -> (r: ReadStep)
        ensures
            collected(self@) == ReadView::More(self@),
            r@ == read_spec(self@, input),
    {
        proof {
            use_type_invariant(&self);
        }
        match input {
            Input::Failed => ReadStep::Gone,
            Input::TimedOut => ReadStep::Refused(text_response(408, "request timeout")),
            Input::Data(bytes) => {
                if bytes.len() == 0 {
                    return ReadStep::Gone;
                }
                let ghost before = self@;
                let HeadReader { head } = self;
                let mut head = head;
                head.extend_from_slice(bytes);
                assert(head@ =~= before + bytes@);
                match head_len(head.as_slice()) {
                    Some(n) => if n <= MAX_HEAD {
                        let cut = vstd::slice::slice_subrange(head.as_slice(), 0, n);
                        assert(cut@ =~= head@.take(n as int));
                        ReadStep::Complete(vstd::slice::slice_to_vec(cut))
                    } else {
                        ReadStep::Refused(text_response(431, "request head too large"))
                    },
                    None => if head.len() > MAX_HEAD {
                        ReadStep::Refused(text_response(431, "request head too large"))
                    } else {
                        ReadStep::More(HeadReader { head })
                    },
                }
            },
        }
    }
}

proof fn lemma_nothing_collected()
    ensures
        collected(Seq::empty()) == ReadView::More(Seq::empty()),
{
    assert(head_len_spec(Seq::empty()) is None);
}

/// How a request head is answered.
pub enum Begin {
    /// With this response.
    Reply(Vec<u8>),
    /// With a frame, after the settings of the query have been applied.
    Snapshot { request: Request, head_only: bool },
    /// With a report on the controls.
    Controls { with_body: bool },
}

/// The contents of a [`Begin`].
pub enum BeginView {
    Reply(Seq<u8>),
    Snapshot { method: Seq<char>, target: Seq<char>, head_only: bool },
    Controls { with_body: bool },
}

impl View for Begin {
    type V = BeginView;

    open spec fn view(&self) -> BeginView {
        match *self {
            Begin::Reply(response) => BeginView::Reply(response@),
            Begin::Snapshot { request, head_only } => BeginView::Snapshot {
                method: request.method@,
                target: request.target@,
                head_only,
            },
            Begin::Controls { with_body } => BeginView::Controls { with_body },
        }
    }
}

/// How a request head is answered.
pub open spec fn respond_spec(head: Seq<u8>) -> BeginView {
    match parse_request_spec(head) {
        None => BeginView::Reply(text_response_spec(400, "bad request"@)),
        Some((method, target)) => match route_spec(method, path_text(target)) {
            Route::Snapshot { head_only } => BeginView::Snapshot { method, target, head_only },
            Route::Controls => BeginView::Controls { with_body: method == "GET"@ },
            Route::NotFound => BeginView::Reply(
                text_response_spec(404, "not found; the image is at /"@),
            ),
            Route::MethodNotAllowed => BeginView::Reply(text_response_spec(405, "use GET"@)),
        },
    }
}

/// Decides how a request head is answered.
pub fn respond(head: &[u8]) -> (r: Begin)
    ensures
        r@ == respond_spec(head@),
{
    let request = match parse_request(head) {
        Some(request) => request,
        None => return Begin::Reply(text_response(400, "bad request")),
    };
    match route(&request) {
        Route::Snapshot { head_only } => Begin::Snapshot { request, head_only },
        Route::Controls => Begin::Controls { with_body: same(request.method.as_str(), "GET") },
        Route::NotFound => Begin::Reply(text_response(404, "not found; the image is at /")),
        Route::MethodNotAllowed => Begin::Reply(text_response(405, "use GET")),
    }
}

/// Frames to let pass before the one that is sent: a changed setting shows up
/// a frame or two later.
pub const SETTLE_FRAMES: u64 = 2;

/// The number of frames to let pass once the settings of a request have been
/// applied, or the response where they could not be.
pub fn settings_applied(result: Result<Vec<String>, Failure>) -> (r: Result<u64, Vec<u8>>)
    ensures
        match result {
            Ok(lines) => r == Ok::<u64, Vec<u8>>(
                if lines.len() == 0 {
                    0
                } else {
                    SETTLE_FRAMES
                },
            ),
            Err(f) => r matches Err(response) && response@ == text_response_spec(f.0, f.1@),
        },
{
    match result {
        Ok(lines) => if lines.len() == 0 {
            Ok(0)
        } else {
            Ok(SETTLE_FRAMES)
        },
        Err((status, text)) => Err(text_response(status, text.as_str())),
    }
}

/// A successful response, with its body or without.
pub open spec fn ok_response(content_type: Seq<char>, body: Seq<u8>, with_body: bool) -> Seq<u8> {
    encode_utf8(response_head_text(200, content_type, body.len())) + (if with_body {
        body
    } else {
        Seq::empty()
    })
}

/// The response to a request for a frame. Without a frame the status tells
/// whether there is a camera.
pub fn snapshot_response(result: Result<Vec<u8>, String>, head_only: bool, attached: bool) -> (r:
    Vec<u8>)
    ensures
        r@ == (match result {
            Ok(jpeg) => ok_response("image/jpeg"@, jpeg@, !head_only),
            Err(text) => text_response_spec(
                if attached {
                    504
                } else {
                    503
                },
                text@,
            ),
        }),
{
    match result {
        Ok(jpeg) => {
            let mut r = response_head(200, "image/jpeg", jpeg.len());
            let ghost head = r@;
            if !head_only {
                r.extend_from_slice(jpeg.as_slice());
                assert(r@ =~= head + jpeg@);
            }
            assert(r@ =~= ok_response("image/jpeg"@, jpeg@, !head_only));
            r
        },
        Err(text) => {
            let status: u16 = if attached {
                504
            } else {
                503
            };
            text_response(status, text.as_str())
        },
    }
}

/// The response to a request for the controls.
pub fn controls_response(result: Result<String, Failure>, with_body: bool) -> (r: Vec<u8>)
    ensures
        r@ == (match result {
            Ok(json) => ok_response("application/json"@, encode_utf8(json@), with_body),
            Err(f) => text_response_spec(f.0, f.1@),
        }),
{
    match result {
        Ok(json) => {
            let body = json.as_str().as_bytes();
            let mut r = response_head(200, "application/json", body.len());
            let ghost head = r@;
            if with_body {
                r.extend_from_slice(body);
                assert(r@ =~= head + body@);
            }
            assert(r@ =~= ok_response("application/json"@, body@, with_body));
            r
        },
        Err((status, text)) => text_response(status, text.as_str()),
    }
}

/// How a head is received in pieces does not matter: once the outcome is
/// settled, further bytes would not change it. The one exception is a head
/// that ends in a blank line without carriage returns and is followed by a
/// blank line with them, which would be taken for the end of the head.
pub proof fn law_pieces_do_not_matter(bytes: Seq<u8>, more: Seq<u8>)
    requires
        !late_blank_line(bytes, more),
    ensures
        collected(bytes) !is More ==> collected(bytes + more) == collected(bytes),
{
    lemma_head_grows(bytes, more);
    if let Some(n) = head_len_spec(bytes) {
        law_head_stands_alone(bytes);
        assert((bytes + more).take(n) =~= bytes.take(n));
    }
}

/// A head that is handed on is complete and no longer than [`MAX_HEAD`], and
/// nothing longer is ever waited for.
pub proof fn law_head_is_bounded(bytes: Seq<u8>)
    ensures
        match collected(bytes) {
            ReadView::Complete(head) => {
                &&& head.len() <= MAX_HEAD
                &&& head_len_spec(head) == Some(head.len() as int)
                &&& head.is_prefix_of(bytes)
            },
            ReadView::More(head) => head == bytes && head.len() <= MAX_HEAD,
            ReadView::Refused(_) => bytes.len() > MAX_HEAD,
            ReadView::Gone => false,
        },
{
    if let Some(n) = head_len_spec(bytes) {
        law_head_stands_alone(bytes);
        assert(bytes.take(n) =~= bytes.subrange(0, n));
    }
}

/// The response to `HEAD` is that to `GET` without the body. In the latter the
/// head is complete, and exactly the body follows it.
pub proof fn law_head_response(content_type: Seq<char>, body: Seq<u8>)
    requires
        one_line(content_type),
    ensures
        ok_response(content_type, body, true) == ok_response(content_type, body, false) + body,
        ({
            let get = ok_response(content_type, body, true);
            head_len_spec(get) matches Some(n) && get.take(n) == ok_response(
                content_type,
                body,
                false,
            ) && get.skip(n) == body
        }),
{
    let head = encode_utf8(response_head_text(200, content_type, body.len()));
    let get = ok_response(content_type, body, true);
    law_body_follows_head(200, content_type, body.len(), body);
    assert(get == head + body);
    assert(ok_response(content_type, body, false) =~= head);
    assert(get.take(head.len() as int) =~= head);
    assert(get.skip(head.len() as int) =~= body);
}

/// Without a camera, a request for a frame fails before anything is sent to
/// one: with 400 where a parameter is bad, else with 503, unless there are no
/// settings to apply (then the frame itself cannot be had).
pub proof fn law_without_camera(params: Seq<(Seq<char>, Seq<char>)>, vc: Option<VcInfo>)
    ensures
        match requested(params) {
            Err(e) => begin_spec(params, false, vc) == ApplyView::Failed(400, e),
            Ok(settings) => if settings.len() == 0 {
                begin_spec(params, false, vc) == ApplyView::Finished(Seq::empty())
            } else {
                begin_spec(params, false, vc) == ApplyView::Failed(503, "no camera attached"@)
            },
        },
{
}

} // verus!
