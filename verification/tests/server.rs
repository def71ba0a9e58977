use adapter_core::http::{head_len, response_head, text_response, MAX_HEAD};
use adapter_core::server::answer::{answer, Answer};
use adapter_core::server::{
    controls_response, respond, settings_applied, snapshot_response, Begin, HeadReader, Input,
    ReadStep,
};

/// Feeds pieces until the head is settled.
fn feed(pieces: &[&[u8]]) -> ReadStep {
    let mut reader = HeadReader::new();
    for piece in pieces {
        match reader.read(Input::Data(piece)) {
            ReadStep::More(r) => reader = r,
            end => return end,
        }
    }
    ReadStep::More(reader)
}

fn too_large() -> Vec<u8> {
    text_response(431, "request head too large")
}

#[test]
fn head_in_pieces() {
    let head = b"GET / HTTP/1.1\r\nHost: x\r\n\r\n";
    for cut in 1..head.len() {
        let mut rest = head[cut..].to_vec();
        rest.extend_from_slice(b"body");
        match feed(&[&head[..cut], &rest]) {
            ReadStep::Complete(h) => assert_eq!(h, head.to_vec()),
            _ => panic!("cut at {cut}"),
        }
    }
    assert!(matches!(feed(&[b"GET / HTTP/1.1\r\n", b"\r"]), ReadStep::More(_)));
}

#[test]
fn connections_that_end() {
    assert!(matches!(feed(&[b""]), ReadStep::Gone));
    assert!(matches!(feed(&[b"GET /", b""]), ReadStep::Gone));
    assert!(matches!(HeadReader::new().read(Input::Failed), ReadStep::Gone));
    assert!(matches!(
        HeadReader::new().read(Input::TimedOut),
        ReadStep::Refused(r) if r == text_response(408, "request timeout")
    ));
}

#[test]
fn long_heads() {
    let filler = vec![b'a'; MAX_HEAD - 4];
    let mut exact = filler.clone();
    exact.extend_from_slice(b"\r\n\r\n");
    assert!(matches!(feed(&[&exact]), ReadStep::Complete(h) if h.len() == MAX_HEAD));
    let mut longer = vec![b'a'; MAX_HEAD - 3];
    longer.extend_from_slice(b"\r\n\r\n");
    assert!(matches!(feed(&[&longer]), ReadStep::Refused(r) if r == too_large()));
    assert!(matches!(feed(&[&[b'a'; MAX_HEAD]]), ReadStep::More(_)));
    assert!(matches!(feed(&[&[b'a'; MAX_HEAD], b"a"]), ReadStep::Refused(r) if r == too_large()));
    assert!(matches!(feed(&[&[b'a'; MAX_HEAD + 1]]), ReadStep::Refused(r) if r == too_large()));
}

#[test]
fn late_blank_lines() {
    // Taken as a whole, the later blank line with carriage returns counts.
    let first = b"GET / HTTP/1.0\n\n";
    let second = b"x\r\n\r\n";
    assert!(matches!(feed(&[first, second]), ReadStep::Complete(h) if h.len() == 16));
    let mut whole = first.to_vec();
    whole.extend_from_slice(second);
    assert!(matches!(feed(&[&whole]), ReadStep::Complete(h) if h.len() == 21));
}

fn reply(head: &[u8]) -> Vec<u8> {
    match respond(head) {
        Begin::Reply(r) => r,
        _ => panic!("not answered at once"),
    }
}

#[test]
fn refused_requests() {
    assert_eq!(reply(b"nonsense\r\n\r\n"), text_response(400, "bad request"));
    assert_eq!(reply(b"GET /\xff HTTP/1.1\r\n\r\n"), text_response(400, "bad request"));
    assert_eq!(
        reply(b"GET /other HTTP/1.1\r\n\r\n"),
        text_response(404, "not found; the image is at /")
    );
    assert_eq!(reply(b"POST / HTTP/1.1\r\n\r\n"), text_response(405, "use GET"));
    assert_eq!(reply(b"PUT /controls HTTP/1.1\r\n\r\n"), text_response(405, "use GET"));
    assert_eq!(
        reply(b"DELETE /x HTTP/1.1\r\n\r\n"),
        text_response(404, "not found; the image is at /")
    );
}

#[test]
fn served_requests() {
    match respond(b"GET /?wb=auto HTTP/1.1\r\n\r\n") {
        Begin::Snapshot { request, head_only } => {
            assert!(!head_only);
            assert_eq!(request.query(), vec![("wb".to_string(), "auto".to_string())]);
        }
        _ => panic!("no snapshot"),
    }
    assert!(matches!(
        respond(b"HEAD /snapshot.jpg HTTP/1.1\r\n\r\n"),
        Begin::Snapshot { head_only: true, .. }
    ));
    assert!(matches!(
        respond(b"GET /snapshot.jpg HTTP/1.1\r\n\r\n"),
        Begin::Snapshot { head_only: false, .. }
    ));
    assert!(matches!(
        respond(b"GET /controls HTTP/1.1\r\n\r\n"),
        Begin::Controls { with_body: true }
    ));
    assert!(matches!(
        respond(b"HEAD /controls?x HTTP/1.1\r\n\r\n"),
        Begin::Controls { with_body: false }
    ));
}

#[test]
fn frames_to_let_pass() {
    assert_eq!(settings_applied(Ok(vec![])), Ok(0));
    assert_eq!(settings_applied(Ok(vec!["wb=auto".to_string()])), Ok(2));
    assert_eq!(
        settings_applied(Err((400, "focus must be a number or 'auto'".to_string()))),
        Err(text_response(400, "focus must be a number or 'auto'"))
    );
    assert_eq!(
        settings_applied(Err((500, "camera rejected zoom: x".to_string()))),
        Err(text_response(500, "camera rejected zoom: x"))
    );
}

#[test]
fn snapshot_responses() {
    let jpeg = b"\xff\xd8\r\n\r\n\xff\xd9".to_vec();
    let head = response_head(200, "image/jpeg", 8);
    let get = snapshot_response(Ok(jpeg.clone()), false, true);
    assert_eq!(head_len(&get), Some(head.len()));
    assert_eq!(get[..head.len()].to_vec(), head);
    assert_eq!(get[head.len()..].to_vec(), jpeg);
    assert_eq!(snapshot_response(Ok(jpeg), true, true), head);
    assert_eq!(
        snapshot_response(Err("no frame within 8s".to_string()), false, true),
        text_response(504, "no frame within 8s")
    );
    assert_eq!(
        snapshot_response(Err("no camera attached".to_string()), true, false),
        text_response(503, "no camera attached")
    );
}

#[test]
fn controls_responses() {
    let json = "{\n\n}\n".to_string();
    let mut full = response_head(200, "application/json", 5);
    assert_eq!(controls_response(Ok(json.clone()), false), full);
    full.extend_from_slice(json.as_bytes());
    assert_eq!(controls_response(Ok(json), true), full);
    assert_eq!(
        controls_response(Err((503, "no camera attached".to_string())), true),
        text_response(503, "no camera attached")
    );
}

/// Answers a request with given outcomes; returns what was done and sent.
fn course(
    head: &[u8],
    applied: Result<Vec<String>, (u16, String)>,
    frame: Result<Vec<u8>, String>,
    attached: bool,
) -> (Vec<String>, Vec<u8>) {
    let mut done = Vec::new();
    let mut next = answer(head);
    loop {
        next = match next {
            Answer::Send(response) => return (done, response),
            Answer::Apply { request, params, applying } => {
                done.push(format!("apply {} {:?}", request.method, params));
                applying.applied(applied.clone())
            }
            Answer::Capture { skip, capturing } => {
                done.push(format!("capture {skip}"));
                capturing.captured(frame.clone(), attached)
            }
            Answer::Report { reporting } => {
                done.push("report".to_string());
                reporting.reported(Ok("{}".to_string()))
            }
        };
    }
}

#[test]
fn settings_before_the_one_capture() {
    let jpeg = vec![1, 2, 3, 4];
    let get = b"GET /snapshot.jpg?wb=auto&flag#x HTTP/1.1\r\n\r\n";
    let apply = r#"apply GET [("wb", "auto"), ("flag", "")]"#.to_string();
    let lines = vec!["wb=auto".to_string()];
    let (done, response) = course(get, Ok(lines.clone()), Ok(jpeg.clone()), true);
    assert_eq!(done, vec![apply.clone(), "capture 2".to_string()]);
    assert_eq!(response, snapshot_response(Ok(jpeg.clone()), false, true));
    let (done, _) = course(get, Ok(vec![]), Ok(jpeg.clone()), true);
    assert_eq!(done, vec![apply.clone(), "capture 0".to_string()]);
    let refused = Err((400, "bad".to_string()));
    let (done, response) = course(get, refused, Ok(jpeg.clone()), true);
    assert_eq!((done, response), (vec![apply], text_response(400, "bad")));
    let head = b"HEAD / HTTP/1.1\r\n\r\n";
    let (done, response) = course(head, Ok(vec![]), Ok(jpeg), true);
    assert_eq!(done, vec!["apply HEAD []".to_string(), "capture 0".to_string()]);
    assert_eq!(response, response_head(200, "image/jpeg", 4));
    let none = Err("no camera attached".to_string());
    let (_, response) = course(head, Ok(lines.clone()), none.clone(), false);
    assert_eq!(response, text_response(503, "no camera attached"));
    let (_, response) = course(head, Ok(lines), none, true);
    assert_eq!(response, text_response(504, "no camera attached"));
}

#[test]
fn other_requests_leave_the_stream_alone() {
    let course = |head: &[u8]| course(head, Ok(vec![]), Ok(vec![]), true);
    let (done, response) = course(b"GET /controls HTTP/1.1\r\n\r\n");
    assert_eq!(done, vec!["report".to_string()]);
    assert_eq!(response, controls_response(Ok("{}".to_string()), true));
    let (done, response) = course(b"GET /x HTTP/1.1\r\n\r\n");
    assert!(done.is_empty());
    assert_eq!(response, text_response(404, "not found; the image is at /"));
}
