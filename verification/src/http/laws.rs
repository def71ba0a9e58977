//! What holds of requests and responses as a whole.

use crate::encoding::{lemma_encode_char, lemma_encode_concat};
use crate::http::{
    all_upper, find_bytes, first_line, head_len_spec, hex_digit, is_snapshot_path,
    late_blank_line, parse_request_spec, path_end, path_text, percent_decoded, reason_text,
    request_words, response_head_text, route_spec, without_trailing_cr, Route,
};
use crate::search::{
    equal_to, fields, first_from, first_of, lemma_first_from_is, lemma_first_from_range,
};
use crate::text::{dec_nat, digit_char};
use vstd::prelude::*;
use vstd::string::*;
use vstd::utf8::*;

verus! {

pub(crate) proof fn lemma_find_bytes(buf: Seq<u8>, pat: Seq<u8>, from: int)
    requires
        0 <= from,
    ensures
        match find_bytes(buf, pat, from) {
            Some(i) => {
                &&& from <= i
                &&& i + pat.len() <= buf.len()
                &&& buf.subrange(i, i + pat.len()) == pat
                &&& forall|j: int|
                    from <= j < i ==> #[trigger] buf.subrange(j, j + pat.len()) != pat
            },
            None => forall|j: int|
                from <= j && j + pat.len() <= buf.len() ==> #[trigger] buf.subrange(
                    j,
                    j + pat.len(),
                ) != pat,
        },
    decreases buf.len() + 1 - from,
{
    if from + pat.len() <= buf.len() && buf.subrange(from, from + pat.len()) != pat {
        lemma_find_bytes(buf, pat, from + 1);
    }
}

/// An occurrence before which there is no other is the one that is found.
pub(crate) proof fn lemma_find_bytes_is(buf: Seq<u8>, pat: Seq<u8>, i: int)
    requires
        0 <= i,
        i + pat.len() <= buf.len(),
        buf.subrange(i, i + pat.len()) == pat,
        forall|j: int| 0 <= j < i ==> #[trigger] buf.subrange(j, j + pat.len()) != pat,
    ensures
        find_bytes(buf, pat, 0) == Some(i),
{
    lemma_find_bytes(buf, pat, 0);
    assert(buf.subrange(i, i + pat.len()) == pat);
}

/// A head that was found lies in the buffer and ends in a blank line; what
/// follows it does not matter: cut off there, the same head is found.
pub proof fn law_head_stands_alone(buf: Seq<u8>)
    requires
        head_len_spec(buf) is Some,
    ensures
        2 <= head_len_spec(buf)->0 <= buf.len(),
        buf[head_len_spec(buf)->0 - 1] == 10,
        head_len_spec(buf.take(head_len_spec(buf)->0)) == head_len_spec(buf),
{
    let crlf = seq![13u8, 10, 13, 10];
    let lf = seq![10u8, 10];
    let n = head_len_spec(buf)->0;
    let cut = buf.take(n);
    lemma_find_bytes(buf, crlf, 0);
    if let Some(i) = find_bytes(buf, crlf, 0) {
        assert(crlf[3] == buf.subrange(i, i + 4)[3]);
        assert(cut.subrange(i, i + 4) =~= buf.subrange(i, i + 4));
        assert forall|j: int| 0 <= j < i implies #[trigger] cut.subrange(j, j + 4) != crlf by {
            assert(cut.subrange(j, j + 4) =~= buf.subrange(j, j + 4));
        }
        lemma_find_bytes_is(cut, crlf, i);
    } else {
        lemma_find_bytes(buf, lf, 0);
        let i = find_bytes(buf, lf, 0)->0;
        assert(lf[1] == buf.subrange(i, i + 2)[1]);
        lemma_find_bytes(cut, crlf, 0);
        if let Some(k) = find_bytes(cut, crlf, 0) {
            assert(cut.subrange(k, k + 4) =~= buf.subrange(k, k + 4));
        }
        assert(cut.subrange(i, i + 2) =~= buf.subrange(i, i + 2));
        assert forall|j: int| 0 <= j < i implies #[trigger] cut.subrange(j, j + 2) != lf by {
            assert(cut.subrange(j, j + 2) =~= buf.subrange(j, j + 2));
        }
        lemma_find_bytes_is(cut, lf, i);
    }
}

/// What further bytes mean for a head: one that has been found stays where it
/// is (but see [`late_blank_line`]), and one that has not been found ends
/// behind what was there.
pub proof fn lemma_head_grows(buf: Seq<u8>, more: Seq<u8>)
    requires
        !late_blank_line(buf, more),
    ensures
        head_len_spec(buf) is Some ==> head_len_spec(buf + more) == head_len_spec(buf),
        head_len_spec(buf) is None ==> (head_len_spec(buf + more) matches Some(n) ==> n
            > buf.len()),
{
    let crlf = seq![13u8, 10, 13, 10];
    let lf = seq![10u8, 10];
    let all = buf + more;
    lemma_find_bytes(buf, crlf, 0);
    lemma_find_bytes(buf, lf, 0);
    lemma_find_bytes(all, crlf, 0);
    lemma_find_bytes(all, lf, 0);
    assert forall|j: int| 0 <= j && j + 4 <= buf.len() implies #[trigger] all.subrange(j, j + 4)
        == buf.subrange(j, j + 4) by {
        assert(all.subrange(j, j + 4) =~= buf.subrange(j, j + 4));
    }
    assert forall|j: int| 0 <= j && j + 2 <= buf.len() implies #[trigger] all.subrange(j, j + 2)
        == buf.subrange(j, j + 2) by {
        assert(all.subrange(j, j + 2) =~= buf.subrange(j, j + 2));
    }
    if let Some(i) = find_bytes(buf, crlf, 0) {
        assert(all.subrange(i, i + 4) == crlf);
        lemma_find_bytes_is(all, crlf, i);
    } else if let Some(i) = find_bytes(buf, lf, 0) {
        assert(all.subrange(i, i + 2) == lf);
        lemma_find_bytes_is(all, lf, i);
    }
}

/// Text without `%` and `+` is decoded to itself.
pub proof fn law_plain_text_is_kept(s: Seq<u8>)
    requires
        forall|i: int| 0 <= i < s.len() ==> #[trigger] s[i] != '%' as u8 && s[i] != '+' as u8,
    ensures
        percent_decoded(s) == s,
    decreases s.len(),
{
    if s.len() > 0 {
        let rest = s.drop_first();
        assert forall|i: int| 0 <= i < rest.len() implies #[trigger] rest[i] != '%' as u8
            && rest[i] != '+' as u8 by {
            assert(rest[i] == s[i + 1]);
        }
        law_plain_text_is_kept(rest);
        assert(percent_decoded(s) =~= s);
    }
}

/// Every byte written as `%` and two hexadecimal digits.
pub open spec fn escaped(s: Seq<u8>) -> Seq<u8>
    decreases s.len(),
{
    if s.len() == 0 {
        Seq::empty()
    } else {
        seq![
            '%' as u8,
            digit_char((s[0] / 16) as int) as u8,
            digit_char((s[0] % 16) as int) as u8,
        ] + escaped(s.drop_first())
    }
}

/// Whether `e` is a way to write `s` in a query: each byte as `%` and two
/// hexadecimal digits in either case, or as itself where it is neither `%` nor
/// `+`, and a space also as `+`.
pub open spec fn encodes(e: Seq<u8>, s: Seq<u8>) -> bool
    decreases s.len(),
{
    if s.len() == 0 {
        e.len() == 0
    } else {
        ||| {
            &&& e.len() >= 3
            &&& e[0] == '%' as u8
            &&& hex_digit(e[1]) == Some((s[0] / 16) as u8)
            &&& hex_digit(e[2]) == Some((s[0] % 16) as u8)
            &&& encodes(e.skip(3), s.drop_first())
        }
        ||| {
            &&& e.len() >= 1
            &&& e[0] == s[0]
            &&& e[0] != '%' as u8
            &&& e[0] != '+' as u8
            &&& encodes(e.drop_first(), s.drop_first())
        }
        ||| {
            &&& e.len() >= 1
            &&& e[0] == '+' as u8
            &&& s[0] == ' ' as u8
            &&& encodes(e.drop_first(), s.drop_first())
        }
    }
}

/// Bytes are read back in whichever way they were written, with escapes in
/// either case mixed with plain bytes and `+` for a space.
pub proof fn law_escaped_bytes_are_read_back(e: Seq<u8>, s: Seq<u8>)
    requires
        encodes(e, s),
    ensures
        percent_decoded(e) == s,
    decreases s.len(),
{
    if s.len() > 0 {
        let rest = s.drop_first();
        if e[0] == '%' as u8 {
            law_escaped_bytes_are_read_back(e.skip(3), rest);
        } else {
            law_escaped_bytes_are_read_back(e.drop_first(), rest);
        }
        assert(percent_decoded(e) =~= s);
    }
}

/// Any bytes can be sent: written as escapes throughout, they hold nothing but
/// `%` and hexadecimal digits, and so none of the delimiters of a query.
pub proof fn law_any_bytes_can_be_sent(s: Seq<u8>)
    ensures
        encodes(escaped(s), s),
        forall|i: int|
            0 <= i < escaped(s).len() ==> {
                let b = #[trigger] escaped(s)[i];
                b == '%' as u8 || hex_digit(b) is Some
            },
    decreases s.len(),
{
    if s.len() > 0 {
        let e = escaped(s);
        let rest = escaped(s.drop_first());
        law_any_bytes_can_be_sent(s.drop_first());
        assert(e.skip(3) =~= rest);
        let h = (s[0] / 16) as int;
        let l = (s[0] % 16) as int;
        assert(hex_digit(e[1]) == Some(h as u8));
        assert(hex_digit(e[2]) == Some(l as u8));
        assert forall|i: int| 0 <= i < e.len() implies {
            let b = #[trigger] e[i];
            b == '%' as u8 || hex_digit(b) is Some
        } by {
            if i >= 3 {
                assert(e[i] == rest[i - 3]);
            }
        }
    }
}

proof fn lemma_fields<A>(s: Seq<A>, sep: A)
    ensures
        forall|i: int|
            0 <= i < fields(s, sep).len() ==> (#[trigger] fields(s, sep)[i]).len() > 0
                && !fields(s, sep)[i].contains(sep),
    decreases s.len(),
{
    lemma_first_from_range(s, equal_to(sep), 0);
    let k = first_of(s, sep);
    let rest = if k < s.len() {
        fields(s.skip(k + 1), sep)
    } else {
        Seq::empty()
    };
    if k < s.len() {
        lemma_fields(s.skip(k + 1), sep);
    }
    let d: int = if k == 0 {
        0
    } else {
        1
    };
    assert forall|i: int| 0 <= i < fields(s, sep).len() implies (#[trigger] fields(s, sep)[i]).len()
        > 0 && !fields(s, sep)[i].contains(sep) by {
        if i < d {
            let piece = s.take(k);
            assert forall|j: int| 0 <= j < piece.len() implies piece[j] != sep by {
                assert(!equal_to(sep)(s[j]));
            }
        } else {
            assert(fields(s, sep)[i] == rest[i - d]);
        }
    }
}

/// A request that was accepted has a method in capitals, a target without
/// spaces that begins with a slash, and a path that begins with a slash.
pub proof fn law_accepted_request(head: Seq<u8>)
    ensures
        parse_request_spec(head) matches Some((method, target)) ==> {
            &&& method.len() > 0
            &&& all_upper(method)
            &&& target.len() > 0
            &&& target[0] == '/'
            &&& !target.contains(' ')
            &&& path_text(target).len() > 0
            &&& path_text(target)[0] == '/'
        },
{
    if let Some((method, target)) = parse_request_spec(head) {
        let words = request_words(head);
        lemma_fields(without_trailing_cr(decode_utf8(first_line(head))), ' ');
        assert(words[0].len() > 0 && words[1].len() > 0);
        reveal_strlit("/");
        assert("/"@ =~= target.subrange(0, 1));
        assert(target[0] == target.subrange(0, 1)[0]);
        assert(!path_end()(target[0]));
        lemma_first_from_range(target, path_end(), 0);
        assert(first_from(target, path_end(), 0) == first_from(target, path_end(), 1));
        lemma_first_from_range(target, path_end(), 1);
    }
}

/// Header fields are skipped: whatever bytes follow the first line, or none,
/// the request is the same.
pub proof fn law_header_fields_do_not_matter(line: Seq<u8>, rest: Seq<u8>)
    requires
        !line.contains('\n' as u8),
    ensures
        parse_request_spec(line + seq!['\n' as u8] + rest) == parse_request_spec(line),
{
    let lf = '\n' as u8;
    let head = line + seq![lf] + rest;
    assert forall|i: int| 0 <= i < line.len() implies !equal_to(lf)(#[trigger] line[i])
        && !equal_to(lf)(head[i]) by {
        assert(line.contains(line[i]));
        assert(head[i] == line[i]);
    }
    assert forall|i: int| 0 <= i < line.len() implies !equal_to(lf)(#[trigger] head[i]) by {
        assert(!equal_to(lf)(line[i]));
    }
    assert(head[line.len() as int] == lf);
    lemma_first_from_is(head, equal_to(lf), 0, line.len() as int);
    lemma_first_from_is(line, equal_to(lf), 0, line.len() as int);
    assert(first_line(head) =~= first_line(line));
}

/// Paths that are not known are not found whatever the method; on the others
/// every method but GET and HEAD is refused, and these two are served.
pub proof fn law_routes(method: Seq<char>, path: Seq<char>)
    ensures
        route_spec(method, path) == Route::NotFound <==> !is_snapshot_path(path) && path
            != "/controls"@,
        route_spec(method, path) == Route::MethodNotAllowed <==> (is_snapshot_path(path) || path
            == "/controls"@) && method != "GET"@ && method != "HEAD"@,
        route_spec(method, path) is Snapshot <==> is_snapshot_path(path) && (method == "GET"@
            || method == "HEAD"@),
        route_spec(method, path) == Route::Controls <==> path == "/controls"@ && (method == "GET"@
            || method == "HEAD"@),
{
    reveal_strlit("/");
    reveal_strlit("/snapshot.jpg");
    reveal_strlit("/controls");
    assert("/controls"@.len() == 9 && "/"@.len() == 1 && "/snapshot.jpg"@.len() == 13);
}

/// Neither a carriage return nor a line feed.
pub open spec fn one_line(s: Seq<char>) -> bool {
    !s.contains('\r') && !s.contains('\n')
}

/// No line feed is followed by a carriage return.
spec fn no_blank_line(s: Seq<char>) -> bool {
    forall|i: int| 0 <= i < s.len() - 1 && #[trigger] s[i] == '\n' ==> s[i + 1] != '\r'
}

proof fn lemma_no_blank_line_concat(a: Seq<char>, b: Seq<char>)
    requires
        no_blank_line(a),
        no_blank_line(b),
        a.len() > 0 && a.last() == '\n' && b.len() > 0 ==> b[0] != '\r',
    ensures
        no_blank_line(a + b),
{
    let s = a + b;
    assert forall|i: int| 0 <= i < s.len() - 1 && #[trigger] s[i] == '\n' implies s[i + 1]
        != '\r' by {
        if i < a.len() - 1 {
            assert(a[i] == '\n');
        } else if i >= a.len() {
            assert(b[i - a.len()] == '\n');
        }
    }
}

/// The bytes of such a text have no line feed followed by a carriage return.
proof fn lemma_no_blank_line_bytes(s: Seq<char>)
    requires
        no_blank_line(s),
    ensures
        forall|i: int|
            0 <= i < encode_utf8(s).len() - 1 && #[trigger] encode_utf8(s)[i] == 10 ==> encode_utf8(
                s,
            )[i + 1] != 13,
    decreases s.len(),
{
    if s.len() > 0 {
        let rest = s.drop_first();
        assert forall|i: int| 0 <= i < rest.len() - 1 && #[trigger] rest[i] == '\n' implies rest[i
            + 1] != '\r' by {
            assert(s[i + 1] == '\n');
        }
        lemma_no_blank_line_bytes(rest);
        lemma_encode_char(s[0]);
        let e = encode_scalar(s[0] as u32);
        let b = encode_utf8(s);
        assert forall|i: int| 0 <= i < b.len() - 1 && #[trigger] b[i] == 10 implies b[i + 1]
            != 13 by {
            if i >= e.len() {
                assert(encode_utf8(rest)[i - e.len()] == 10);
            } else if i == e.len() - 1 {
                assert(b[i] == e[i]);
                assert(s[0] == '\n');
                assert(rest.len() > 0);
                lemma_encode_char(rest[0]);
                assert(s[1] != '\r');
                assert(b[i + 1] == encode_utf8(rest)[0]);
                assert(encode_utf8(rest)[0] == encode_scalar(rest[0] as u32)[0]);
            } else {
                assert(b[i] == e[i]);
            }
        }
    }
}

proof fn lemma_one_line_no_blank_line(s: Seq<char>)
    requires
        one_line(s),
    ensures
        no_blank_line(s),
        s.len() > 0 ==> s.last() != '\n' && s[0] != '\r',
{
    if s.len() > 0 {
        assert(s.contains(s.last()) && s.contains(s[0]));
    }
    assert forall|i: int| 0 <= i < s.len() - 1 && #[trigger] s[i] == '\n' implies s[i + 1]
        != '\r' by {
        assert(s.contains(s[i]));
    }
}

proof fn lemma_dec_nat_one_line(n: nat)
    ensures
        one_line(dec_nat(n)),
        dec_nat(n).len() > 0,
    decreases n,
{
    if n >= 10 {
        lemma_dec_nat_one_line(n / 10);
        let a = dec_nat(n / 10);
        let s = dec_nat(n);
        assert forall|i: int| 0 <= i < s.len() implies s[i] != '\r' && s[i] != '\n' by {
            if i < a.len() {
                assert(a.contains(a[i]));
            }
        }
    }
}

proof fn lemma_reason_one_line(status: u16)
    ensures
        one_line(reason_text(status)),
        reason_text(status).len() > 0,
{
    reveal_strlit("OK");
    reveal_strlit("Bad Request");
    reveal_strlit("Not Found");
    reveal_strlit("Method Not Allowed");
    reveal_strlit("Request Timeout");
    reveal_strlit("Request Header Fields Too Large");
    reveal_strlit("Service Unavailable");
    reveal_strlit("Gateway Timeout");
    reveal_strlit("Unknown");
}

/// A response head up to its blank line.
spec fn header_lines(status: u16, content_type: Seq<char>, len: nat) -> Seq<char> {
    "HTTP/1.1 "@ + dec_nat(status as nat) + " "@ + reason_text(status) + "\r\nContent-Type: "@
        + content_type + "\r\nContent-Length: "@ + dec_nat(len)
        + "\r\nCache-Control: no-store\r\nConnection: close\r\n"@ + (if status == 405 {
        "Allow: GET, HEAD\r\n"@
    } else {
        Seq::empty()
    })
}

proof fn lemma_header_lines(status: u16, content_type: Seq<char>, len: nat)
    requires
        one_line(content_type),
    ensures
        ({
            let h = header_lines(status, content_type, len);
            &&& no_blank_line(h)
            &&& h.len() >= 2
            &&& h[h.len() - 2] == '\r'
            &&& h[h.len() - 1] == '\n'
        }),
{
    reveal_strlit("HTTP/1.1 ");
    reveal_strlit(" ");
    reveal_strlit("\r\nContent-Type: ");
    reveal_strlit("\r\nContent-Length: ");
    reveal_strlit("\r\nCache-Control: no-store\r\nConnection: close\r\n");
    reveal_strlit("Allow: GET, HEAD\r\n");
    lemma_dec_nat_one_line(status as nat);
    lemma_dec_nat_one_line(len);
    lemma_reason_one_line(status);
    lemma_one_line_no_blank_line(dec_nat(status as nat));
    lemma_one_line_no_blank_line(dec_nat(len));
    lemma_one_line_no_blank_line(reason_text(status));
    lemma_one_line_no_blank_line(content_type);
    let h1 = "HTTP/1.1 "@ + dec_nat(status as nat);
    lemma_no_blank_line_concat("HTTP/1.1 "@, dec_nat(status as nat));
    let h2 = h1 + " "@;
    lemma_no_blank_line_concat(h1, " "@);
    let h3 = h2 + reason_text(status);
    lemma_no_blank_line_concat(h2, reason_text(status));
    let h4 = h3 + "\r\nContent-Type: "@;
    lemma_no_blank_line_concat(h3, "\r\nContent-Type: "@);
    let h5 = h4 + content_type;
    lemma_no_blank_line_concat(h4, content_type);
    let h6 = h5 + "\r\nContent-Length: "@;
    lemma_no_blank_line_concat(h5, "\r\nContent-Length: "@);
    let h7 = h6 + dec_nat(len);
    lemma_no_blank_line_concat(h6, dec_nat(len));
    let rest = "\r\nCache-Control: no-store\r\nConnection: close\r\n"@;
    let h8 = h7 + rest;
    lemma_no_blank_line_concat(h7, rest);
    let allow = if status == 405 {
        "Allow: GET, HEAD\r\n"@
    } else {
        Seq::empty()
    };
    lemma_no_blank_line_concat(h8, allow);
    assert(header_lines(status, content_type, len) == h8 + allow);
}

/// Whoever reads a response finds its head complete and the body right behind
/// it, whatever the body holds.
pub proof fn law_body_follows_head(status: u16, content_type: Seq<char>, len: nat, body: Seq<u8>)
    requires
        one_line(content_type),
    ensures
        head_len_spec(encode_utf8(response_head_text(status, content_type, len)) + body) == Some(
            encode_utf8(response_head_text(status, content_type, len)).len() as int,
        ),
{
    let h = header_lines(status, content_type, len);
    let text = response_head_text(status, content_type, len);
    let crlf = seq![13u8, 10, 13, 10];
    lemma_header_lines(status, content_type, len);
    reveal_strlit("\r\n");
    let blank = "\r\n"@;
    assert(text == h + blank);
    lemma_encode_concat(h, blank);
    let tail = seq!['\r', '\n'];
    let front = h.take(h.len() - 2);
    assert(h =~= front + tail);
    assert(blank =~= tail);
    lemma_encode_concat(front, tail);
    lemma_no_blank_line_bytes(h);
    is_ascii_chars_encode_utf8(tail);
    let b = encode_utf8(h);
    let t = encode_utf8(tail);
    assert(t.len() == 2 && t[0] == 13 && t[1] == 10) by {
        assert(tail[0] as u8 == t[0] && tail[1] as u8 == t[1]);
    }
    let buf = encode_utf8(text) + body;
    let i = b.len() - 2;
    assert(b == encode_utf8(front) + t);
    assert(buf.subrange(i, i + 4) =~= crlf);
    assert forall|j: int| 0 <= j < i implies #[trigger] buf.subrange(j, j + 4) != crlf by {
        let w = buf.subrange(j, j + 4);
        assert(w[1] == b[j + 1]);
        assert(w[2] == b[j + 2]);
        if w == crlf {
            assert(w[1] == 10 && w[2] == 13);
        }
    }
    lemma_find_bytes_is(buf, crlf, i);
}

/// Every response closes the connection, is not to be stored, and names the
/// permitted methods exactly where the method was refused.
pub proof fn law_response_headers(status: u16, content_type: Seq<char>, len: nat)
    ensures
        ({
            let head = response_head_text(status, content_type, len);
            let always = "\r\nCache-Control: no-store\r\nConnection: close\r\n"@;
            let front = "HTTP/1.1 "@ + dec_nat(status as nat) + " "@ + reason_text(status)
                + "\r\nContent-Type: "@ + content_type + "\r\nContent-Length: "@ + dec_nat(len);
            head == front + always + (if status == 405 {
                "Allow: GET, HEAD\r\n\r\n"@
            } else {
                "\r\n"@
            })
        }),
{
    reveal_strlit("Allow: GET, HEAD\r\n\r\n");
    reveal_strlit("Allow: GET, HEAD\r\n");
    reveal_strlit("\r\n");
    assert("Allow: GET, HEAD\r\n\r\n"@ =~= "Allow: GET, HEAD\r\n"@ + "\r\n"@);
    let always = "\r\nCache-Control: no-store\r\nConnection: close\r\n"@;
    let front = "HTTP/1.1 "@ + dec_nat(status as nat) + " "@ + reason_text(status)
        + "\r\nContent-Type: "@ + content_type + "\r\nContent-Length: "@ + dec_nat(len);
    assert(response_head_text(status, content_type, len) =~= front + always + (if status == 405 {
        "Allow: GET, HEAD\r\n\r\n"@
    } else {
        "\r\n"@
    }));
}

} // verus!
