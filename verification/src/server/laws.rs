//! What is answered, byte by byte.

use crate::encoding::lemma_encode_concat;
use crate::http::{
    head_len_spec, parse_request_spec, path_text, reason_text, response_head_text,
    text_response_spec,
};
use crate::server::answer::{applied_spec, captured_spec, reported_spec, AnswerView};
use crate::server::{
    ok_response, read_spec, respond_spec, BeginView, Input, ReadView, SETTLE_FRAMES,
};
use crate::text::dec_int;
use vstd::prelude::*;
use vstd::string::*;
use vstd::utf8::*;

verus! {

/// The reason phrases.
pub proof fn law_reasons(status: u16)
    ensures
        reason_text(200) == "OK"@,
        reason_text(400) == "Bad Request"@,
        reason_text(404) == "Not Found"@,
        reason_text(405) == "Method Not Allowed"@,
        reason_text(408) == "Request Timeout"@,
        reason_text(431) == "Request Header Fields Too Large"@,
        reason_text(503) == "Service Unavailable"@,
        reason_text(504) == "Gateway Timeout"@,
        status != 200 && status != 400 && status != 404 && status != 405 && status != 408 && status
            != 431 && status != 503 && status != 504 ==> reason_text(status) == "Unknown"@,
{
}

/// A response head: the status line, type and length of the body, that it is
/// not to be stored and that the connection is closed, the permitted methods
/// where the method was refused, and a blank line.
pub proof fn law_response_head(status: u16, content_type: Seq<char>, len: nat)
    ensures
        response_head_text(status, content_type, len) == "HTTP/1.1 "@ + dec_int(status as int)
            + " "@ + reason_text(status) + "\r\n"@ + "Content-Type: "@ + content_type + "\r\n"@
            + "Content-Length: "@ + dec_int(len as int) + "\r\n"@ + "Cache-Control: no-store\r\n"@
            + "Connection: close\r\n"@ + (if status == 405 {
            "Allow: GET, HEAD\r\n"@
        } else {
            Seq::empty()
        }) + "\r\n"@,
{
    reveal_strlit("\r\n");
    reveal_strlit("Content-Type: ");
    reveal_strlit("\r\nContent-Type: ");
    reveal_strlit("Content-Length: ");
    reveal_strlit("\r\nContent-Length: ");
    reveal_strlit("Cache-Control: no-store\r\n");
    reveal_strlit("Connection: close\r\n");
    reveal_strlit("\r\nCache-Control: no-store\r\nConnection: close\r\n");
    assert("\r\nContent-Type: "@ =~= "\r\n"@ + "Content-Type: "@);
    assert("\r\nContent-Length: "@ =~= "\r\n"@ + "Content-Length: "@);
    assert("\r\nCache-Control: no-store\r\nConnection: close\r\n"@ =~= "\r\n"@
        + "Cache-Control: no-store\r\n"@ + "Connection: close\r\n"@);
    let allow = if status == 405 {
        "Allow: GET, HEAD\r\n"@
    } else {
        Seq::empty()
    };
    assert(response_head_text(status, content_type, len) =~= "HTTP/1.1 "@ + dec_int(status as int)
        + " "@ + reason_text(status) + "\r\n"@ + "Content-Type: "@ + content_type + "\r\n"@
        + "Content-Length: "@ + dec_int(len as int) + "\r\n"@ + "Cache-Control: no-store\r\n"@
        + "Connection: close\r\n"@ + allow + "\r\n"@);
}

/// A plain-text response has the message and a line feed as its body, and
/// their length in bytes in its head.
pub proof fn law_text_response(status: u16, message: Seq<char>)
    ensures
        text_response_spec(status, message) == encode_utf8(
            response_head_text(
                status,
                "text/plain; charset=utf-8"@,
                encode_utf8(message).len() + 1,
            ),
        ) + encode_utf8(message) + seq![10u8],
{
    let kind = "text/plain; charset=utf-8"@;
    reveal_strlit("\n");
    let body = message + "\n"@;
    lemma_encode_concat(message, "\n"@);
    is_ascii_chars_encode_utf8("\n"@);
    assert(encode_utf8("\n"@) =~= seq![10u8]);
    let head = response_head_text(status, kind, encode_utf8(body).len());
    assert(encode_utf8(body).len() == encode_utf8(message).len() + 1);
    lemma_encode_concat(head, body);
    assert(encode_utf8(head + body) =~= encode_utf8(head) + encode_utf8(message) + seq![10u8]);
}

/// A successful response has status 200 and the length of its body, and the
/// body unless only the head was asked for.
pub proof fn law_successful_response(content_type: Seq<char>, body: Seq<u8>)
    ensures
        ok_response(content_type, body, true) == encode_utf8(
            response_head_text(200, content_type, body.len()),
        ) + body,
        ok_response(content_type, body, false) == encode_utf8(
            response_head_text(200, content_type, body.len()),
        ),
{
    assert(ok_response(content_type, body, false) =~= encode_utf8(
        response_head_text(200, content_type, body.len()),
    ));
}

/// What is answered to requests that are refused.
pub proof fn law_refused_requests(head: Seq<u8>)
    ensures
        match parse_request_spec(head) {
            None => respond_spec(head) == BeginView::Reply(text_response_spec(400, "bad request"@)),
            Some((method, target)) => {
                let path = path_text(target);
                let image = path == "/"@ || path == "/snapshot.jpg"@;
                let known = method == "GET"@ || method == "HEAD"@;
                &&& !image && path != "/controls"@ ==> respond_spec(head) == BeginView::Reply(
                    text_response_spec(404, "not found; the image is at /"@),
                )
                &&& (image || path == "/controls"@) && !known ==> respond_spec(head)
                    == BeginView::Reply(text_response_spec(405, "use GET"@))
                &&& image && known ==> respond_spec(head) == BeginView::Snapshot {
                    method,
                    target,
                    head_only: method == "HEAD"@,
                }
                &&& path == "/controls"@ && known ==> respond_spec(head) == BeginView::Controls {
                    with_body: method == "GET"@,
                }
            },
        },
{
    reveal_strlit("GET");
    reveal_strlit("HEAD");
    reveal_strlit("/");
    reveal_strlit("/snapshot.jpg");
    reveal_strlit("/controls");
    assert("GET"@.len() != "HEAD"@.len());
    assert("/controls"@.len() == 9 && "/"@.len() == 1 && "/snapshot.jpg"@.len() == 13);
}

/// What becomes of the bytes of a connection: a complete head of up to 4096
/// bytes is handed on without what follows it, a longer one is answered with
/// 431, silence with 408, and a client that went away with nothing.
pub proof fn law_reading(head: Seq<u8>, input: Input<'_>)
    ensures
        input is TimedOut ==> read_spec(head, input) == ReadView::Refused(
            text_response_spec(408, "request timeout"@),
        ),
        input is Failed ==> read_spec(head, input) is Gone,
        input matches Input::Data(bytes) ==> {
            let all = head + bytes@;
            &&& bytes@.len() == 0 ==> read_spec(head, input) is Gone
            &&& bytes@.len() > 0 ==> (match head_len_spec(all) {
                Some(n) => if n <= 4096 {
                    read_spec(head, input) == ReadView::Complete(all.take(n))
                } else {
                    read_spec(head, input) == ReadView::Refused(
                        text_response_spec(431, "request head too large"@),
                    )
                },
                None => if all.len() <= 4096 {
                    read_spec(head, input) == ReadView::More(all)
                } else {
                    read_spec(head, input) == ReadView::Refused(
                        text_response_spec(431, "request head too large"@),
                    )
                },
            })
        },
{
}

/// What follows each outcome: two frames are let pass after a setting and none
/// otherwise, failures are sent with their status, a missing frame is 504 with
/// a camera and 503 without one.
pub proof fn law_outcomes(
    head_only: bool,
    lines: Seq<Seq<char>>,
    status: u16,
    text: Seq<char>,
    jpeg: Seq<u8>,
    attached: bool,
)
    ensures
        applied_spec(head_only, Ok(lines)) == (AnswerView::Capture {
            skip: if lines.len() > 0 {
                2
            } else {
                0
            },
            head_only,
        }),
        applied_spec(head_only, Err((status, text))) == AnswerView::Send(
            text_response_spec(status, text),
        ),
        captured_spec(head_only, Ok(jpeg), attached) == AnswerView::Send(
            ok_response("image/jpeg"@, jpeg, !head_only),
        ),
        captured_spec(head_only, Err(text), true) == AnswerView::Send(
            text_response_spec(504, text),
        ),
        captured_spec(head_only, Err(text), false) == AnswerView::Send(
            text_response_spec(503, text),
        ),
        reported_spec(!head_only, Ok(text)) == AnswerView::Send(
            ok_response("application/json"@, encode_utf8(text), !head_only),
        ),
        reported_spec(!head_only, Err((status, text))) == AnswerView::Send(
            text_response_spec(status, text),
        ),
        SETTLE_FRAMES == 2,
{
}

} // verus!
