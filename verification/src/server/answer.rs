//! Answering a request step by step: what is to be done for it, in which
//! order, and what is sent in the end. Each step that waits for something
//! takes its outcome and names the next action.

use crate::controls::transfer::{failure_view, Failure};
use crate::http::{query_texts, text_response_spec, Request};
use crate::server::{
    controls_response, ok_response, respond, respond_spec, settings_applied, snapshot_response,
    Begin, BeginView, SETTLE_FRAMES,
};
use crate::text::{pair_texts, texts};
use vstd::prelude::*;
use vstd::string::*;
use vstd::utf8::*;

verus! {

/// A request for a frame whose settings are being applied.
pub struct ApplyingSettings {
    pub head_only: bool,
}

/// A request for a frame whose frame is being captured.
pub struct Capturing {
    pub head_only: bool,
}

/// A request for the controls that are being read.
pub struct Reporting {
    pub with_body: bool,
}

/// What is to be done next for a request.
pub enum Answer {
    /// Send this response; nothing more is to be done.
    Send(Vec<u8>),
    /// Apply these query parameters.
    Apply { request: Request, params: Vec<(String, String)>, applying: ApplyingSettings },
    /// Capture one frame, after letting `skip` others pass.
    Capture { skip: u64, capturing: Capturing },
    /// Report the controls.
    Report { reporting: Reporting },
}

/// The contents of an [`Answer`].
pub enum AnswerView {
    Send(Seq<u8>),
    Apply {
        method: Seq<char>,
        target: Seq<char>,
        params: Seq<(Seq<char>, Seq<char>)>,
        head_only: bool,
    },
    Capture { skip: int, head_only: bool },
    Report { with_body: bool },
}

impl View for Answer {
    type V = AnswerView;

    open spec fn view(&self) -> AnswerView {
        match *self {
            Answer::Send(response) => AnswerView::Send(response@),
            Answer::Apply { request, params, applying } => AnswerView::Apply {
                method: request.method@,
                target: request.target@,
                params: pair_texts(params@),
                head_only: applying.head_only,
            },
            Answer::Capture { skip, capturing } => AnswerView::Capture {
                skip: skip as int,
                head_only: capturing.head_only,
            },
            Answer::Report { reporting } => AnswerView::Report { with_body: reporting.with_body },
        }
    }
}

/// The first thing to be done for a request.
pub open spec fn answer_spec(head: Seq<u8>) -> AnswerView {
    match respond_spec(head) {
        BeginView::Reply(response) => AnswerView::Send(response),
        BeginView::Snapshot { method, target, head_only } => AnswerView::Apply {
            method,
            target,
            params: query_texts(target),
            head_only,
        },
        BeginView::Controls { with_body } => AnswerView::Report { with_body },
    }
}

/// What follows once the settings have been dealt with: `applied` are the
/// lines on the settings, or the failure.
pub open spec fn applied_spec(
    head_only: bool,
    applied: Result<Seq<Seq<char>>, (u16, Seq<char>)>,
) -> AnswerView {
    match applied {
        Ok(lines) => AnswerView::Capture {
            skip: if lines.len() == 0 {
                0
            } else {
                SETTLE_FRAMES as int
            },
            head_only,
        },
        Err(f) => AnswerView::Send(text_response_spec(f.0, f.1)),
    }
}

/// What follows the attempt to capture a frame.
pub open spec fn captured_spec(
    head_only: bool,
    captured: Result<Seq<u8>, Seq<char>>,
    attached: bool,
) -> AnswerView {
    AnswerView::Send(
        match captured {
            Ok(jpeg) => ok_response("image/jpeg"@, jpeg, !head_only),
            Err(text) => text_response_spec(
                if attached {
                    504
                } else {
                    503
                },
                text,
            ),
        },
    )
}

/// What follows the attempt to report the controls.
pub open spec fn reported_spec(
    with_body: bool,
    reported: Result<Seq<char>, (u16, Seq<char>)>,
) -> AnswerView {
    AnswerView::Send(
        match reported {
            Ok(json) => ok_response("application/json"@, encode_utf8(json), with_body),
            Err(f) => text_response_spec(f.0, f.1),
        },
    )
}

/// Takes up a request.
pub fn answer(head: &[u8]) -> (r: Answer)
    ensures
        r@ == answer_spec(head@),
{
    match respond(head) {
        Begin::Reply(response) => Answer::Send(response),
        Begin::Snapshot { request, head_only } => {
            let params = request.query();
            assert(pair_texts(params@) =~= query_texts(request.target@));
            Answer::Apply { request, params, applying: ApplyingSettings { head_only } }
        },
        Begin::Controls { with_body } => Answer::Report { reporting: Reporting { with_body } },
    }
}

/// The outcome of applying settings.
pub open spec fn applied_view(result: Result<Vec<String>, Failure>) -> Result<
    Seq<Seq<char>>,
    (u16, Seq<char>),
> {
    match result {
        Ok(lines) => Ok(texts(lines@)),
        Err(f) => Err(failure_view(f)),
    }
}

impl ApplyingSettings {
    /// The settings have been dealt with.
    pub fn applied(self, result: Result<Vec<String>, Failure>) -> (r: Answer)
        ensures
            r@ == applied_spec(self.head_only, applied_view(result)),
    {
        match settings_applied(result) {
            Ok(skip) => Answer::Capture {
                skip,
                capturing: Capturing { head_only: self.head_only },
            },
            Err(response) => Answer::Send(response),
        }
    }
}

impl Capturing {
    /// The frame has been captured, or why it has not; `attached` tells
    /// whether there is a camera.
    pub fn captured(self, result: Result<Vec<u8>, String>, attached: bool) -> (r: Answer)
        ensures
            r@ == captured_spec(
                self.head_only,
                match result {
                    Ok(jpeg) => Ok(jpeg@),
                    Err(text) => Err(text@),
                },
                attached,
            ),
    {
        Answer::Send(snapshot_response(result, self.head_only, attached))
    }
}

impl Reporting {
    /// The report has been made, or why it has not.
    pub fn reported(self, result: Result<String, Failure>) -> (r: Answer)
        ensures
            r@ == reported_spec(
                self.with_body,
                match result {
                    Ok(json) => Ok(json@),
                    Err(f) => Err(failure_view(f)),
                },
            ),
    {
        Answer::Send(controls_response(result, self.with_body))
    }
}

/// How the things that may be done for a request turn out.
pub struct Outcomes {
    pub applied: Result<Seq<Seq<char>>, (u16, Seq<char>)>,
    pub captured: Result<Seq<u8>, Seq<char>>,
    /// Whether there is a camera after the attempt to capture a frame.
    pub attached: bool,
    pub reported: Result<Seq<char>, (u16, Seq<char>)>,
}

/// How many steps are left at most.
pub open spec fn steps_left(a: AnswerView) -> nat {
    match a {
        AnswerView::Send(_) => 0,
        AnswerView::Apply { .. } => 2,
        AnswerView::Capture { .. } => 1,
        AnswerView::Report { .. } => 1,
    }
}

/// All that is done from an action on, in order.
pub open spec fn course(a: AnswerView, o: Outcomes) -> Seq<AnswerView>
    decreases steps_left(a),
{
    match a {
        AnswerView::Send(_) => seq![a],
        AnswerView::Apply { head_only, .. } => seq![a] + course(
            applied_spec(head_only, o.applied),
            o,
        ),
        AnswerView::Capture { head_only, .. } => seq![a] + course(
            captured_spec(head_only, o.captured, o.attached),
            o,
        ),
        AnswerView::Report { with_body } => seq![a] + course(
            reported_spec(with_body, o.reported),
            o,
        ),
    }
}

/// For a frame the settings of the query are applied first. If that fails
/// nothing is captured and the failure is sent; else exactly one frame is
/// captured, with two others let pass where a setting was applied, and it is
/// sent, or without it why there is none.
pub proof fn law_settings_come_before_the_one_capture(head: Seq<u8>, o: Outcomes)
    ensures
        respond_spec(head) matches BeginView::Snapshot { method, target, head_only } ==> {
            let apply = AnswerView::Apply {
                method,
                target,
                params: query_texts(target),
                head_only,
            };
            course(answer_spec(head), o) == (match o.applied {
                Err(f) => seq![apply, AnswerView::Send(text_response_spec(f.0, f.1))],
                Ok(lines) => seq![
                    apply,
                    AnswerView::Capture {
                        skip: if lines.len() == 0 {
                            0
                        } else {
                            2
                        },
                        head_only,
                    },
                    AnswerView::Send(
                        match o.captured {
                            Ok(jpeg) => ok_response("image/jpeg"@, jpeg, !head_only),
                            Err(text) => text_response_spec(
                                if o.attached {
                                    504
                                } else {
                                    503
                                },
                                text,
                            ),
                        },
                    ),
                ],
            })
        },
{
    reveal_with_fuel(course, 4);
    if let BeginView::Snapshot { method, target, head_only } = respond_spec(head) {
        let first = answer_spec(head);
        let second = applied_spec(head_only, o.applied);
        assert(course(first, o) == seq![first] + course(second, o));
        if o.applied is Err {
            assert(course(first, o) =~= seq![first, second]);
        } else {
            let third = captured_spec(head_only, o.captured, o.attached);
            assert(course(second, o) =~= seq![second, third]);
            assert(course(first, o) =~= seq![first, second, third]);
        }
    }
}

/// Any other request leaves the camera's settings and its stream alone: the
/// controls are reported, or a refusal is sent at once.
pub proof fn law_other_requests(head: Seq<u8>, o: Outcomes)
    ensures
        match respond_spec(head) {
            BeginView::Reply(response) => course(answer_spec(head), o) == seq![
                AnswerView::Send(response),
            ],
            BeginView::Controls { with_body } => course(answer_spec(head), o) == seq![
                AnswerView::Report { with_body },
                reported_spec(with_body, o.reported),
            ],
            BeginView::Snapshot { .. } => true,
        },
{
    reveal_with_fuel(course, 3);
    if let BeginView::Controls { with_body } = respond_spec(head) {
        assert(course(answer_spec(head), o) =~= seq![
            AnswerView::Report { with_body },
            reported_spec(with_body, o.reported),
        ]);
    }
}

} // verus!
